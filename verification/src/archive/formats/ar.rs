//! The Unix ar archive format.

use vstd::prelude::*;
use crate::format::{Format, views};
use crate::archive::{EntryType, Metadata, modified_at, time_stamp};
use crate::magic::ar_magic;

verus! {

/// The Unix ar archive format.
#[derive(Clone, Copy, Debug)]
pub struct Ar;

impl Format for Ar {
    open spec fn name(&self) -> Seq<char> {
        "ar"@
    }

    open spec fn title(&self) -> Seq<char> {
        "ar"@
    }

    open spec fn extensions(&self) -> Seq<Seq<char>> {
        seq!["a"@, "ar"@, "deb"@, "lib"@]
    }

    open spec fn matches(&self, bytes: Seq<u8>) -> bool {
        ar_magic(bytes)
    }

    fn id(&self) -> (r: &'static str) {
        "ar"
    }

    fn label(&self) -> (r: &'static str) {
        "ar"
    }

    fn file_extensions(&self) -> (r: Vec<&'static str>) {
        let r: Vec<&'static str> = vec!["a", "ar", "deb", "lib"];
        proof {
            assert(views(r@) =~= self.extensions());
        }
        r
    }

    fn match_bytes(&self, bytes: &[u8]) -> (r: bool) {
        infer::archive::is_ar(bytes)
    }
}

/// The metadata of a member of an ar archive, from the size, the time stamp
/// and the mode in its header. Every member is a regular file.
pub fn metadata(size: u64, mtime: u64, mode: u32) -> (r: Metadata)
    ensures
        r == (Metadata {
            entry_type: EntryType::File,
            size,
            compressed_size: None,
            modified: time_stamp(mtime),
            read_only: false,
            hidden: false,
            unix_mode: Some(mode),
        }),
{
    let mut metadata = Metadata::new(EntryType::File);
    metadata.size = size;
    metadata.modified = modified_at(mtime);
    metadata.unix_mode = Some(mode);
    metadata
}

} // verus!
