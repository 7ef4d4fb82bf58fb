//! The cpio archive format in its "new ASCII" variant.

use vstd::prelude::*;
use crate::format::{Format, views};
use crate::archive::{EntryType, Metadata, modified_at, time_stamp};
use crate::format::str_equals;

verus! {

/// The signature of a cpio archive in the new ASCII format: `070701`.
pub open spec fn cpio_magic(buf: Seq<u8>) -> bool {
    buf.len() >= 6 && buf[0] == 0x30 && buf[1] == 0x37 && buf[2] == 0x30 && buf[3] == 0x37
        && buf[4] == 0x30 && buf[5] == 0x31
}

/// The cpio archive format in its "new ASCII" variant.
#[derive(Clone, Copy, Debug)]
pub struct Cpio;

impl Format for Cpio {
    open spec fn name(&self) -> Seq<char> {
        "cpio"@
    }

    open spec fn title(&self) -> Seq<char> {
        "cpio (newc)"@
    }

    open spec fn extensions(&self) -> Seq<Seq<char>> {
        seq!["cpio"@]
    }

    open spec fn matches(&self, bytes: Seq<u8>) -> bool {
        cpio_magic(bytes)
    }

    fn id(&self) -> (r: &'static str) {
        "cpio"
    }

    fn label(&self) -> (r: &'static str) {
        "cpio (newc)"
    }

    fn file_extensions(&self) -> (r: Vec<&'static str>) {
        let r: Vec<&'static str> = vec!["cpio"];
        proof {
            assert(views(r@) =~= self.extensions());
        }
        r
    }

    fn match_bytes(&self, bytes: &[u8]) -> (r: bool) {
        bytes.len() >= 6 && bytes[0] == 0x30 && bytes[1] == 0x37 && bytes[2] == 0x30 && bytes[3]
            == 0x37 && bytes[4] == 0x30 && bytes[5] == 0x31
    }
}

/// The bits of a mode that hold the type of the file.
pub const TYPE_MASK: u32 = 0o170000;

/// The type bits of a regular file.
pub const TYPE_FILE: u32 = 0o100000;

/// The type bits of a directory.
pub const TYPE_DIRECTORY: u32 = 0o040000;

/// The bits of a mode that hold the permissions.
pub const PERMISSION_MASK: u32 = 0o777;

/// The type of the entry whose header holds `mode`.
pub open spec fn type_of_mode(mode: u32) -> EntryType {
    if mode & TYPE_MASK == TYPE_FILE {
        EntryType::File
    } else if mode & TYPE_MASK == TYPE_DIRECTORY {
        EntryType::Directory
    } else {
        EntryType::Unsupported
    }
}

/// The metadata of an entry of a cpio archive, from the mode, the size and
/// the time stamp in its header.
pub fn metadata(mode: u32, file_size: u32, mtime: u32) -> (r: Metadata)
    ensures
        r == (Metadata {
            entry_type: type_of_mode(mode),
            size: file_size as u64,
            compressed_size: None,
            modified: time_stamp(mtime as u64),
            read_only: false,
            hidden: false,
            unix_mode: Some(mode & PERMISSION_MASK),
        }),
{
    let kind = mode & TYPE_MASK;
    let entry_type = if kind == TYPE_FILE {
        EntryType::File
    } else if kind == TYPE_DIRECTORY {
        EntryType::Directory
    } else {
        EntryType::Unsupported
    };
    let mut metadata = Metadata::new(entry_type);
    metadata.size = file_size as u64;
    metadata.modified = modified_at(mtime as u64);
    metadata.unix_mode = Some(mode & PERMISSION_MASK);
    metadata
}

/// Whether an entry called `name` is the one that marks the end of a cpio
/// archive.
pub fn is_trailer(name: &str) -> (r: bool)
    ensures
        r == (name@ == "TRAILER!!!"@),
{
    str_equals(name, "TRAILER!!!")
}

} // verus!
