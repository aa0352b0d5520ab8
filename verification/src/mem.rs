//! Random access memory utilities.

pub mod advice;
pub mod handle;

pub use advice::MemAdvice;
pub use handle::MemAdviseError;
pub use handle::MemHandle;
