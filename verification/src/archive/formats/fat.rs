//! Images of FAT file systems.

use vstd::prelude::*;
use crate::format::{Format, views};
use crate::archive::{EntryType, Metadata};

verus! {

/// The signature of a FAT image: the jump instruction that opens its boot
/// sector.
pub open spec fn fat_magic(buf: Seq<u8>) -> bool {
    buf.len() >= 3 && buf[0] == 0xEB && buf[1] == 0x3C && buf[2] == 0x90
}

/// Images of FAT file systems.
#[derive(Clone, Copy, Debug)]
pub struct Fat;

impl Format for Fat {
    open spec fn name(&self) -> Seq<char> {
        "fat"@
    }

    open spec fn title(&self) -> Seq<char> {
        "FAT"@
    }

    open spec fn extensions(&self) -> Seq<Seq<char>> {
        Seq::<Seq<char>>::empty()
    }

    open spec fn matches(&self, bytes: Seq<u8>) -> bool {
        fat_magic(bytes)
    }

    fn id(&self) -> (r: &'static str) {
        "fat"
    }

    fn label(&self) -> (r: &'static str) {
        "FAT"
    }

    fn file_extensions(&self) -> (r: Vec<&'static str>) {
        let r: Vec<&'static str> = Vec::new();
        proof {
            assert(views(r@) =~= self.extensions());
        }
        r
    }

    fn match_bytes(&self, bytes: &[u8]) -> (r: bool) {
        bytes.len() >= 3 && bytes[0] == 0xEB && bytes[1] == 0x3C && bytes[2] == 0x90
    }
}

/// The metadata of an entry of a FAT file system, from what its directory
/// entry says of it.
pub fn metadata(is_dir: bool, len: u64, read_only: bool, hidden: bool) -> (r: Metadata)
    ensures
        r == (Metadata {
            entry_type: if is_dir {
                EntryType::Directory
            } else {
                EntryType::File
            },
            size: len,
            compressed_size: None,
            modified: None,
            read_only,
            hidden,
            unix_mode: None,
        }),
{
    let mut metadata = Metadata::new(EntryType::from_is_dir(is_dir));
    metadata.size = len;
    metadata.read_only = read_only;
    metadata.hidden = hidden;
    metadata
}

} // verus!
