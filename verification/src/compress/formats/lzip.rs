//! The lzip compression format.

use vstd::prelude::*;
use crate::format::{Format, views};
use crate::magic::lz_magic;

verus! {

/// The lzip compression format.
#[derive(Clone, Copy, Debug)]
pub struct Lzip;

impl Format for Lzip {
    open spec fn name(&self) -> Seq<char> {
        "lzip"@
    }

    open spec fn title(&self) -> Seq<char> {
        "Lzip"@
    }

    open spec fn extensions(&self) -> Seq<Seq<char>> {
        seq!["lz"@]
    }

    open spec fn matches(&self, bytes: Seq<u8>) -> bool {
        lz_magic(bytes)
    }

    fn id(&self) -> (r: &'static str) {
        "lzip"
    }

    fn label(&self) -> (r: &'static str) {
        "Lzip"
    }

    fn file_extensions(&self) -> (r: Vec<&'static str>) {
        let r: Vec<&'static str> = vec!["lz"];
        proof {
            assert(views(r@) =~= self.extensions());
        }
        r
    }

    fn match_bytes(&self, bytes: &[u8]) -> (r: bool) {
        infer::archive::is_lz(bytes)
    }
}

/// A decoder for lzip streams. None is implemented yet.
#[derive(Clone, Copy, Debug)]
pub struct LzipDecoder {}

/// An encoder for lzip streams. None is implemented yet.
#[derive(Clone, Copy, Debug)]
pub struct LzipEncoder {}

} // verus!
