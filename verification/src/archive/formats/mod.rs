//! The archive formats that can be recognised.

use vstd::prelude::*;
use crate::format::{
    Format, file_name, find_by_bytes, find_by_extension, first_by_extension, first_match,
};

pub mod ar;
pub mod cab;
pub mod cpio;
pub mod fat;
pub mod tar;
pub mod zip;

verus! {

/// An archive format.
#[derive(Clone, Copy, Debug, PartialEq, Eq, Structural)]
pub enum ArchiveFormat {
    Ar,
    Cab,
    Cpio,
    Fat,
    Tar,
    Zip,
}

impl Format for ArchiveFormat {
    open spec fn name(&self) -> Seq<char> {
        match self {
            ArchiveFormat::Ar => ar::Ar.name(),
            ArchiveFormat::Cab => cab::Cab.name(),
            ArchiveFormat::Cpio => cpio::Cpio.name(),
            ArchiveFormat::Fat => fat::Fat.name(),
            ArchiveFormat::Tar => tar::Tar.name(),
            ArchiveFormat::Zip => zip::Zip.name(),
        }
    }

    open spec fn title(&self) -> Seq<char> {
        match self {
            ArchiveFormat::Ar => ar::Ar.title(),
            ArchiveFormat::Cab => cab::Cab.title(),
            ArchiveFormat::Cpio => cpio::Cpio.title(),
            ArchiveFormat::Fat => fat::Fat.title(),
            ArchiveFormat::Tar => tar::Tar.title(),
            ArchiveFormat::Zip => zip::Zip.title(),
        }
    }

    open spec fn extensions(&self) -> Seq<Seq<char>> {
        match self {
            ArchiveFormat::Ar => ar::Ar.extensions(),
            ArchiveFormat::Cab => cab::Cab.extensions(),
            ArchiveFormat::Cpio => cpio::Cpio.extensions(),
            ArchiveFormat::Fat => fat::Fat.extensions(),
            ArchiveFormat::Tar => tar::Tar.extensions(),
            ArchiveFormat::Zip => zip::Zip.extensions(),
        }
    }

    open spec fn matches(&self, bytes: Seq<u8>) -> bool {
        match self {
            ArchiveFormat::Ar => ar::Ar.matches(bytes),
            ArchiveFormat::Cab => cab::Cab.matches(bytes),
            ArchiveFormat::Cpio => cpio::Cpio.matches(bytes),
            ArchiveFormat::Fat => fat::Fat.matches(bytes),
            ArchiveFormat::Tar => tar::Tar.matches(bytes),
            ArchiveFormat::Zip => zip::Zip.matches(bytes),
        }
    }

    fn id(&self) -> (r: &'static str) {
        match self {
            ArchiveFormat::Ar => ar::Ar.id(),
            ArchiveFormat::Cab => cab::Cab.id(),
            ArchiveFormat::Cpio => cpio::Cpio.id(),
            ArchiveFormat::Fat => fat::Fat.id(),
            ArchiveFormat::Tar => tar::Tar.id(),
            ArchiveFormat::Zip => zip::Zip.id(),
        }
    }

    fn label(&self) -> (r: &'static str) {
        match self {
            ArchiveFormat::Ar => ar::Ar.label(),
            ArchiveFormat::Cab => cab::Cab.label(),
            ArchiveFormat::Cpio => cpio::Cpio.label(),
            ArchiveFormat::Fat => fat::Fat.label(),
            ArchiveFormat::Tar => tar::Tar.label(),
            ArchiveFormat::Zip => zip::Zip.label(),
        }
    }

    fn file_extensions(&self) -> (r: Vec<&'static str>) {
        match self {
            ArchiveFormat::Ar => ar::Ar.file_extensions(),
            ArchiveFormat::Cab => cab::Cab.file_extensions(),
            ArchiveFormat::Cpio => cpio::Cpio.file_extensions(),
            ArchiveFormat::Fat => fat::Fat.file_extensions(),
            ArchiveFormat::Tar => tar::Tar.file_extensions(),
            ArchiveFormat::Zip => zip::Zip.file_extensions(),
        }
    }

    fn match_bytes(&self, bytes: &[u8]) -> (r: bool) {
        match self {
            ArchiveFormat::Ar => ar::Ar.match_bytes(bytes),
            ArchiveFormat::Cab => cab::Cab.match_bytes(bytes),
            ArchiveFormat::Cpio => cpio::Cpio.match_bytes(bytes),
            ArchiveFormat::Fat => fat::Fat.match_bytes(bytes),
            ArchiveFormat::Tar => tar::Tar.match_bytes(bytes),
            ArchiveFormat::Zip => zip::Zip.match_bytes(bytes),
        }
    }
}

/// The archive formats in the order in which they are tried.
pub open spec fn registry() -> Seq<ArchiveFormat> {
    seq![
        ArchiveFormat::Ar,
        ArchiveFormat::Cab,
        ArchiveFormat::Cpio,
        ArchiveFormat::Fat,
        ArchiveFormat::Tar,
        ArchiveFormat::Zip,
    ]
}

/// The archive format that a stream starting with `bytes` is taken to be
/// in: the first in the registry whose signature the bytes carry.
pub open spec fn detected(bytes: Seq<u8>) -> Option<ArchiveFormat> {
    first_match(registry(), bytes)
}

/// The archive format that the file at `path` is taken to be in: the first
/// in the registry that has one of the extensions of the file's name, which
/// is the last component of the path.
pub open spec fn named(path: Seq<char>) -> Option<ArchiveFormat> {
    first_by_extension(registry(), file_name(path))
}

/// All enabled formats, in the order in which they are tried.
pub fn all() -> (r: Vec<ArchiveFormat>)
    ensures
        r@ == registry(),
{
    let r: Vec<ArchiveFormat> = vec![
        ArchiveFormat::Ar,
        ArchiveFormat::Cab,
        ArchiveFormat::Cpio,
        ArchiveFormat::Fat,
        ArchiveFormat::Tar,
        ArchiveFormat::Zip,
    ];
    proof {
        assert(r@ =~= registry());
    }
    r
}

/// The archive format of a stream that starts with `bytes`, if any.
pub fn for_bytes(bytes: &[u8]) -> (r: Option<ArchiveFormat>)
    ensures
        r == detected(bytes@),
{
    find_by_bytes(&all(), bytes)
}

/// The archive format for a file with the given path, judged by the
/// extension of its name, if any.
pub fn for_extension(path: &str) -> (r: Option<ArchiveFormat>)
    ensures
        r == named(path@),
{
    find_by_extension(&all(), path)
}

} // verus!
