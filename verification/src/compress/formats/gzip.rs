//! The gzip compression format as defined in RFC 1952.

use vstd::prelude::*;
use crate::format::{Format, views};
use crate::magic::gz_magic;

verus! {

/// The gzip compression format as defined in RFC 1952.
#[derive(Clone, Copy, Debug)]
pub struct Gzip;

impl Format for Gzip {
    open spec fn name(&self) -> Seq<char> {
        "gzip"@
    }

    open spec fn title(&self) -> Seq<char> {
        "GZIP"@
    }

    open spec fn extensions(&self) -> Seq<Seq<char>> {
        seq!["gz"@]
    }

    open spec fn matches(&self, bytes: Seq<u8>) -> bool {
        gz_magic(bytes)
    }

    fn id(&self) -> (r: &'static str) {
        "gzip"
    }

    fn label(&self) -> (r: &'static str) {
        "GZIP"
    }

    fn file_extensions(&self) -> (r: Vec<&'static str>) {
        let r: Vec<&'static str> = vec!["gz"];
        proof {
            assert(views(r@) =~= self.extensions());
        }
        r
    }

    fn match_bytes(&self, bytes: &[u8]) -> (r: bool) {
        infer::archive::is_gz(bytes)
    }
}

} // verus!
