//! The stream compression formats that can be recognised.

use vstd::prelude::*;
use crate::format::{Format, find_by_bytes, first_match};

pub mod bzip2;
pub mod compress;
pub mod gzip;
pub mod lzip;
pub mod xz;
pub mod zlib;

verus! {

/// A stream compression format.
#[derive(Clone, Copy, Debug, PartialEq, Eq, Structural)]
pub enum CompressionFormat {
    Bzip2,
    Compress,
    Gzip,
    Lzip,
    Xz,
    Zlib,
}

impl Format for CompressionFormat {
    open spec fn name(&self) -> Seq<char> {
        match self {
            CompressionFormat::Bzip2 => bzip2::Bzip2.name(),
            CompressionFormat::Compress => compress::Compress.name(),
            CompressionFormat::Gzip => gzip::Gzip.name(),
            CompressionFormat::Lzip => lzip::Lzip.name(),
            CompressionFormat::Xz => xz::Xz.name(),
            CompressionFormat::Zlib => zlib::Zlib.name(),
        }
    }

    open spec fn title(&self) -> Seq<char> {
        match self {
            CompressionFormat::Bzip2 => bzip2::Bzip2.title(),
            CompressionFormat::Compress => compress::Compress.title(),
            CompressionFormat::Gzip => gzip::Gzip.title(),
            CompressionFormat::Lzip => lzip::Lzip.title(),
            CompressionFormat::Xz => xz::Xz.title(),
            CompressionFormat::Zlib => zlib::Zlib.title(),
        }
    }

    open spec fn extensions(&self) -> Seq<Seq<char>> {
        match self {
            CompressionFormat::Bzip2 => bzip2::Bzip2.extensions(),
            CompressionFormat::Compress => compress::Compress.extensions(),
            CompressionFormat::Gzip => gzip::Gzip.extensions(),
            CompressionFormat::Lzip => lzip::Lzip.extensions(),
            CompressionFormat::Xz => xz::Xz.extensions(),
            CompressionFormat::Zlib => zlib::Zlib.extensions(),
        }
    }

    open spec fn matches(&self, bytes: Seq<u8>) -> bool {
        match self {
            CompressionFormat::Bzip2 => bzip2::Bzip2.matches(bytes),
            CompressionFormat::Compress => compress::Compress.matches(bytes),
            CompressionFormat::Gzip => gzip::Gzip.matches(bytes),
            CompressionFormat::Lzip => lzip::Lzip.matches(bytes),
            CompressionFormat::Xz => xz::Xz.matches(bytes),
            CompressionFormat::Zlib => zlib::Zlib.matches(bytes),
        }
    }

    fn id(&self) -> (r: &'static str) {
        match self {
            CompressionFormat::Bzip2 => bzip2::Bzip2.id(),
            CompressionFormat::Compress => compress::Compress.id(),
            CompressionFormat::Gzip => gzip::Gzip.id(),
            CompressionFormat::Lzip => lzip::Lzip.id(),
            CompressionFormat::Xz => xz::Xz.id(),
            CompressionFormat::Zlib => zlib::Zlib.id(),
        }
    }

    fn label(&self) -> (r: &'static str) {
        match self {
            CompressionFormat::Bzip2 => bzip2::Bzip2.label(),
            CompressionFormat::Compress => compress::Compress.label(),
            CompressionFormat::Gzip => gzip::Gzip.label(),
            CompressionFormat::Lzip => lzip::Lzip.label(),
            CompressionFormat::Xz => xz::Xz.label(),
            CompressionFormat::Zlib => zlib::Zlib.label(),
        }
    }

    fn file_extensions(&self) -> (r: Vec<&'static str>) {
        match self {
            CompressionFormat::Bzip2 => bzip2::Bzip2.file_extensions(),
            CompressionFormat::Compress => compress::Compress.file_extensions(),
            CompressionFormat::Gzip => gzip::Gzip.file_extensions(),
            CompressionFormat::Lzip => lzip::Lzip.file_extensions(),
            CompressionFormat::Xz => xz::Xz.file_extensions(),
            CompressionFormat::Zlib => zlib::Zlib.file_extensions(),
        }
    }

    fn match_bytes(&self, bytes: &[u8]) -> (r: bool) {
        match self {
            CompressionFormat::Bzip2 => bzip2::Bzip2.match_bytes(bytes),
            CompressionFormat::Compress => compress::Compress.match_bytes(bytes),
            CompressionFormat::Gzip => gzip::Gzip.match_bytes(bytes),
            CompressionFormat::Lzip => lzip::Lzip.match_bytes(bytes),
            CompressionFormat::Xz => xz::Xz.match_bytes(bytes),
            CompressionFormat::Zlib => zlib::Zlib.match_bytes(bytes),
        }
    }
}

/// The compression formats in the order in which they are tried.
pub open spec fn registry() -> Seq<CompressionFormat> {
    seq![
        CompressionFormat::Bzip2,
        CompressionFormat::Compress,
        CompressionFormat::Gzip,
        CompressionFormat::Lzip,
        CompressionFormat::Xz,
        CompressionFormat::Zlib,
    ]
}

/// The compression format that a stream starting with `bytes` is taken to
/// be in: the first in the registry whose signature the bytes carry.
pub open spec fn detected(bytes: Seq<u8>) -> Option<CompressionFormat> {
    first_match(registry(), bytes)
}

/// All enabled formats, in the order in which they are tried.
pub fn all() -> (r: Vec<CompressionFormat>)
    ensures
        r@ == registry(),
{
    let r: Vec<CompressionFormat> = vec![
        CompressionFormat::Bzip2,
        CompressionFormat::Compress,
        CompressionFormat::Gzip,
        CompressionFormat::Lzip,
        CompressionFormat::Xz,
        CompressionFormat::Zlib,
    ];
    proof {
        assert(r@ =~= registry());
    }
    r
}

/// The compression format of a stream that starts with `bytes`, if any.
pub fn for_bytes(bytes: &[u8]) -> (r: Option<CompressionFormat>)
    ensures
        r == detected(bytes@),
{
    find_by_bytes(&all(), bytes)
}

} // verus!
