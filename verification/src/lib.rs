//! Reversible deletion: files are moved into a graveyard and can be brought back.
//!
//! Instead of unlinking what the user wants gone, the library has it moved to a
//! holding area that mirrors the paths of what it holds, and keeps a record of what
//! rests where, so that it can be moved back. The library decides; a host performs.
//! See the module `host` for how the two talk.
//!
//! Nothing keeps two invocations apart that work on one graveyard at the same time:
//! the record is read and written without a lock, and the one that writes last wins.

pub mod args;
pub mod bury;
pub mod copy;
pub mod course;
pub mod dispatch;
pub mod exhume;
pub mod host;
pub mod inspect;
pub mod path;
pub mod record;
pub mod relocate;
pub mod round_trip;

pub use crate::copy::{copy_file, BIG_FILE_THRESHOLD};
pub use crate::dispatch::run;
pub use crate::relocate::move_target;
