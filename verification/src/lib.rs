//! Seekable, peekable streams over forward-only byte devices, and the format
//! registries that sniff what such a stream holds.

pub mod archive;
pub mod compress;
pub mod error;
pub mod extract;
pub mod format;
pub mod io;
pub mod list;
pub mod magic;
pub mod util;
