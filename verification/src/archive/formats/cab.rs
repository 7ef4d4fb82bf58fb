//! The Microsoft cabinet archive format.

use vstd::prelude::*;
use crate::format::{Format, views};
use crate::archive::{EntryType, Metadata};
use crate::magic::cab_magic;

verus! {

/// The Microsoft cabinet archive format.
#[derive(Clone, Copy, Debug)]
pub struct Cab;

impl Format for Cab {
    open spec fn name(&self) -> Seq<char> {
        "cab"@
    }

    open spec fn title(&self) -> Seq<char> {
        "cabinet"@
    }

    open spec fn extensions(&self) -> Seq<Seq<char>> {
        seq!["cab"@]
    }

    open spec fn matches(&self, bytes: Seq<u8>) -> bool {
        cab_magic(bytes)
    }

    fn id(&self) -> (r: &'static str) {
        "cab"
    }

    fn label(&self) -> (r: &'static str) {
        "cabinet"
    }

    fn file_extensions(&self) -> (r: Vec<&'static str>) {
        let r: Vec<&'static str> = vec!["cab"];
        proof {
            assert(views(r@) =~= self.extensions());
        }
        r
    }

    fn match_bytes(&self, bytes: &[u8]) -> (r: bool) {
        infer::archive::is_cab(bytes)
    }
}

/// The metadata of a file in a cabinet, from its size once unpacked and
/// the time it was last changed, where that is a valid local time. Every
/// entry is a regular file.
pub fn metadata(uncompressed_size: u32, modified: Option<i64>) -> (r: Metadata)
    ensures
        r == (Metadata {
            entry_type: EntryType::File,
            size: uncompressed_size as u64,
            compressed_size: None,
            modified,
            read_only: false,
            hidden: false,
            unix_mode: None,
        }),
{
    let mut metadata = Metadata::new(EntryType::File);
    metadata.size = uncompressed_size as u64;
    metadata.modified = modified;
    metadata
}

} // verus!
