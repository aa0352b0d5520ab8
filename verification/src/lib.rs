//! Shareable random-access readers over a positioned-read capability, and
//! prioritized concurrent memory-access advice.
//!
//! ## Overview
//!
//! The [`fs`] module holds the [`fs::PosRead`] capability and two readers
//! built on it, [`fs::ReadPos`] and [`fs::ReadSlice`], each with a position of
//! its own.
//!
//! The [`io`] module holds [`io::GatheringReader`], one continuous reader over
//! several byte buffers.
//!
//! The [`mem`] module holds [`mem::MemHandle`], through which many holders of
//! one memory region each request an access pattern while only the highest
//! priority request is to be relayed to the platform.
//!
//! ## What is proved, and what is assumed
//!
//! Every function here is verified against its contract: no arithmetic
//! overflows, no index is out of range, and what a function returns and
//! changes is what its `ensures` says. The contracts speak of plain models: a
//! reader is a [`fs::seek::Window`] over the bytes of its source, the packed
//! word of a memory region is the [`mem::advice::Advisors`] it counts, a
//! gathering reader is the chunks it has yet to read.
//!
//! Three things are taken on trust.
//!
//! * A source of bytes outside this crate, such as a file, meets the
//!   contract of [`fs::PosRead::pread`]: it answers by bytes that stay as
//!   they are while they are read.
//! * `std::io::Error` is a value that is handed on and never looked into.
//! * `AtomicU64::load` and `AtomicU64::fetch_update`, as called in
//!   [`mem::handle`], do not panic. Nothing is assumed of the values that an
//!   atomic holds: they change under the hands of other threads. So the
//!   contracts of a [`mem::MemHandle`] say what holds whatever the atomics
//!   held, and the functions of [`mem::advice`], which take those values as
//!   arguments, say exactly what follows from each.

pub mod fs;
pub mod io;
pub mod mem;
