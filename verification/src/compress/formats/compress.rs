//! The format of the Unix `compress` tool.

use vstd::prelude::*;
use crate::format::{Format, views};
use crate::magic::z_magic;

verus! {

/// The format of the Unix `compress` tool.
#[derive(Clone, Copy, Debug)]
pub struct Compress;

impl Format for Compress {
    open spec fn name(&self) -> Seq<char> {
        "COMPRESS"@
    }

    open spec fn title(&self) -> Seq<char> {
        "COMPRESS"@
    }

    open spec fn extensions(&self) -> Seq<Seq<char>> {
        seq!["Z"@]
    }

    open spec fn matches(&self, bytes: Seq<u8>) -> bool {
        z_magic(bytes)
    }

    fn id(&self) -> (r: &'static str) {
        "COMPRESS"
    }

    fn label(&self) -> (r: &'static str) {
        "COMPRESS"
    }

    fn file_extensions(&self) -> (r: Vec<&'static str>) {
        let r: Vec<&'static str> = vec!["Z"];
        proof {
            assert(views(r@) =~= self.extensions());
        }
        r
    }

    fn match_bytes(&self, bytes: &[u8]) -> (r: bool) {
        infer::archive::is_z(bytes)
    }
}

} // verus!
