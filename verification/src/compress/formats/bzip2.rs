//! The bzip2 compression format.

use vstd::prelude::*;
use crate::format::{Format, views};
use crate::magic::bz2_magic;

verus! {

/// The bzip2 compression format.
#[derive(Clone, Copy, Debug)]
pub struct Bzip2;

impl Format for Bzip2 {
    open spec fn name(&self) -> Seq<char> {
        "bzip2"@
    }

    open spec fn title(&self) -> Seq<char> {
        "bzip2"@
    }

    open spec fn extensions(&self) -> Seq<Seq<char>> {
        seq!["bz2"@]
    }

    open spec fn matches(&self, bytes: Seq<u8>) -> bool {
        bz2_magic(bytes)
    }

    fn id(&self) -> (r: &'static str) {
        "bzip2"
    }

    fn label(&self) -> (r: &'static str) {
        "bzip2"
    }

    fn file_extensions(&self) -> (r: Vec<&'static str>) {
        let r: Vec<&'static str> = vec!["bz2"];
        proof {
            assert(views(r@) =~= self.extensions());
        }
        r
    }

    fn match_bytes(&self, bytes: &[u8]) -> (r: bool) {
        infer::archive::is_bz2(bytes)
    }
}

} // verus!
