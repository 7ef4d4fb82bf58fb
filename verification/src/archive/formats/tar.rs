//! The tar archive format, without any compression around it.

use vstd::prelude::*;
use crate::format::{Format, views};
use crate::archive::{EntryType, Metadata};
use crate::magic::tar_magic;

verus! {

/// The tar archive format, without any compression around it.
#[derive(Clone, Copy, Debug)]
pub struct Tar;

impl Format for Tar {
    open spec fn name(&self) -> Seq<char> {
        "tar"@
    }

    open spec fn title(&self) -> Seq<char> {
        "tar"@
    }

    open spec fn extensions(&self) -> Seq<Seq<char>> {
        seq!["tar"@]
    }

    open spec fn matches(&self, bytes: Seq<u8>) -> bool {
        tar_magic(bytes)
    }

    fn id(&self) -> (r: &'static str) {
        "tar"
    }

    fn label(&self) -> (r: &'static str) {
        "tar"
    }

    fn file_extensions(&self) -> (r: Vec<&'static str>) {
        let r: Vec<&'static str> = vec!["tar"];
        proof {
            assert(views(r@) =~= self.extensions());
        }
        r
    }

    fn match_bytes(&self, bytes: &[u8]) -> (r: bool) {
        infer::archive::is_tar(bytes)
    }
}

/// The type of the entry whose header carries the type flag `flag`: `0`,
/// the zero byte and `7` mark regular files, `5` a directory, `2` a
/// symbolic link. Nothing else is supported.
pub open spec fn type_of_flag(flag: u8) -> EntryType {
    if flag == 0x30 || flag == 0x00 || flag == 0x37 {
        EntryType::File
    } else if flag == 0x35 {
        EntryType::Directory
    } else if flag == 0x32 {
        EntryType::SymbolicLink
    } else {
        EntryType::Unsupported
    }
}

/// The type of the entry whose header carries the type flag `flag`.
pub fn entry_type(flag: u8) -> (r: EntryType)
    ensures
        r == type_of_flag(flag),
{
    if flag == 0x30 || flag == 0x00 || flag == 0x37 {
        EntryType::File
    } else if flag == 0x35 {
        EntryType::Directory
    } else if flag == 0x32 {
        EntryType::SymbolicLink
    } else {
        EntryType::Unsupported
    }
}

/// The metadata of an entry of a tar archive, from the fields of its
/// header that could be read. A size that could not be read counts as
/// zero; a time stamp beyond 63 bits counts as unknown.
pub fn metadata(flag: u8, size: Option<u64>, mtime: Option<u64>, mode: Option<u32>) -> (r:
    Metadata)
    ensures
        r == (Metadata {
            entry_type: type_of_flag(flag),
            size: match size {
                Some(n) => n,
                None => 0,
            },
            compressed_size: None,
            modified: match mtime {
                Some(seconds) if seconds <= i64::MAX => Some(seconds as i64),
                _ => None,
            },
            read_only: false,
            hidden: false,
            unix_mode: mode,
        }),
{
    let mut metadata = Metadata::new(entry_type(flag));
    metadata.size = match size {
        Some(n) => n,
        None => 0,
    };
    metadata.modified = match mtime {
        Some(seconds) => if seconds <= i64::MAX as u64 {
            Some(seconds as i64)
        } else {
            None
        },
        None => None,
    };
    metadata.unix_mode = mode;
    metadata
}

} // verus!
