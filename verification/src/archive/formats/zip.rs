//! The common ZIP file format.

use vstd::prelude::*;
use crate::format::{Format, views};
use crate::archive::{EntryType, Metadata};
use crate::magic::zip_magic;

verus! {

/// The common ZIP file format.
#[derive(Clone, Copy, Debug)]
pub struct Zip;

impl Format for Zip {
    open spec fn name(&self) -> Seq<char> {
        "zip"@
    }

    open spec fn title(&self) -> Seq<char> {
        "ZIP"@
    }

    open spec fn extensions(&self) -> Seq<Seq<char>> {
        seq!["jar"@, "zip"@]
    }

    open spec fn matches(&self, bytes: Seq<u8>) -> bool {
        zip_magic(bytes)
    }

    fn id(&self) -> (r: &'static str) {
        "zip"
    }

    fn label(&self) -> (r: &'static str) {
        "ZIP"
    }

    fn file_extensions(&self) -> (r: Vec<&'static str>) {
        let r: Vec<&'static str> = vec!["jar", "zip"];
        proof {
            assert(views(r@) =~= self.extensions());
        }
        r
    }

    fn match_bytes(&self, bytes: &[u8]) -> (r: bool) {
        infer::archive::is_zip(bytes)
    }
}

/// The metadata of an entry of a zip archive, from what its record says of
/// it.
pub fn metadata(is_dir: bool, size: u64, compressed_size: u64, modified: Option<i64>) -> (r:
    Metadata)
    ensures
        r == (Metadata {
            entry_type: if is_dir {
                EntryType::Directory
            } else {
                EntryType::File
            },
            size,
            compressed_size: Some(compressed_size),
            modified,
            read_only: false,
            hidden: false,
            unix_mode: None,
        }),
{
    let mut metadata = Metadata::new(EntryType::from_is_dir(is_dir));
    metadata.size = size;
    metadata.compressed_size = Some(compressed_size);
    metadata.modified = modified;
    metadata
}

} // verus!
