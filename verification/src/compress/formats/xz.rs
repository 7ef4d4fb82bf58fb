//! The xz compression format.

use vstd::prelude::*;
use crate::format::{Format, views};
use crate::magic::xz_magic;

verus! {

/// The xz compression format.
#[derive(Clone, Copy, Debug)]
pub struct Xz;

impl Format for Xz {
    open spec fn name(&self) -> Seq<char> {
        "xz"@
    }

    open spec fn title(&self) -> Seq<char> {
        "xz"@
    }

    open spec fn extensions(&self) -> Seq<Seq<char>> {
        seq!["xz"@]
    }

    open spec fn matches(&self, bytes: Seq<u8>) -> bool {
        xz_magic(bytes)
    }

    fn id(&self) -> (r: &'static str) {
        "xz"
    }

    fn label(&self) -> (r: &'static str) {
        "xz"
    }

    fn file_extensions(&self) -> (r: Vec<&'static str>) {
        let r: Vec<&'static str> = vec!["xz"];
        proof {
            assert(views(r@) =~= self.extensions());
        }
        r
    }

    fn match_bytes(&self, bytes: &[u8]) -> (r: bool) {
        infer::archive::is_xz(bytes)
    }
}

} // verus!
