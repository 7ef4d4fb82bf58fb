//! The zlib compression format as defined in RFC 1950.

use vstd::prelude::*;
use crate::format::{Format, views};

verus! {

/// The signature of a zlib stream: the byte `0x78`, then one of the four
/// bytes that name a compression level.
pub open spec fn zlib_magic(buf: Seq<u8>) -> bool {
    buf.len() >= 2 && buf[0] == 0x78 && (buf[1] == 0x01 || buf[1] == 0x5E || buf[1] == 0x9C
        || buf[1] == 0xDA)
}

/// The zlib compression format as defined in RFC 1950.
#[derive(Clone, Copy, Debug)]
pub struct Zlib;

impl Format for Zlib {
    open spec fn name(&self) -> Seq<char> {
        "zlib"@
    }

    open spec fn title(&self) -> Seq<char> {
        "ZLIB"@
    }

    open spec fn extensions(&self) -> Seq<Seq<char>> {
        seq!["zz"@]
    }

    open spec fn matches(&self, bytes: Seq<u8>) -> bool {
        zlib_magic(bytes)
    }

    fn id(&self) -> (r: &'static str) {
        "zlib"
    }

    fn label(&self) -> (r: &'static str) {
        "ZLIB"
    }

    fn file_extensions(&self) -> (r: Vec<&'static str>) {
        let r: Vec<&'static str> = vec!["zz"];
        proof {
            assert(views(r@) =~= self.extensions());
        }
        r
    }

    fn match_bytes(&self, bytes: &[u8]) -> (r: bool) {
        bytes.len() >= 2 && bytes[0] == 0x78 && (bytes[1] == 0x01 || bytes[1] == 0x5E || bytes[1]
            == 0x9C || bytes[1] == 0xDA)
    }
}

} // verus!
