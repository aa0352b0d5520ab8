//! I/O extensions and utilities.

pub mod gather;

pub use gather::AsBytes;
pub use gather::GatheringReader;
