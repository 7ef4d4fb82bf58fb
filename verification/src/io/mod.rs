//! Byte devices, and the stream layers built on them.

pub mod buffers;
pub mod device;
pub mod input;
pub mod lazy;
pub mod memory;
pub mod output;
