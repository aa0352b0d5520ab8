//! Filesystem extensions and utilities.
//!
//! The [`PosRead`] trait offers a uniform `pread` for positioned reads.
//!
//! The [`ReadPos`] and [`ReadSlice`] types offer sequential reads and seeks
//! over any `PosRead`, each instance with a position of its own. Many of them
//! can read one shared source at once, since a positioned read leaves no
//! cursor behind that another reader would see.

pub mod pos_read;
pub mod read;
pub mod seek;

pub use pos_read::PosRead;
pub use read::ReadPos;
pub use read::ReadSlice;
pub use read::ReadSubSlice;
pub use seek::SeekError;
pub use seek::SeekFrom;
