//! The magic-number matchers of the `infer` crate that the registries call,
//! each with the byte pattern that its source tests for.

use vstd::prelude::*;

verus! {

/// The signature of a gzip stream.
pub open spec fn gz_magic(buf: Seq<u8>) -> bool {
    buf.len() > 2 && buf[0] == 0x1F && buf[1] == 0x8B && buf[2] == 0x08
}

/// The signature of a bzip2 stream: `BZh`.
pub open spec fn bz2_magic(buf: Seq<u8>) -> bool {
    buf.len() > 2 && buf[0] == 0x42 && buf[1] == 0x5A && buf[2] == 0x68
}

/// The signature of an xz stream.
pub open spec fn xz_magic(buf: Seq<u8>) -> bool {
    buf.len() > 5 && buf[0] == 0xFD && buf[1] == 0x37 && buf[2] == 0x7A && buf[3] == 0x58
        && buf[4] == 0x5A && buf[5] == 0x00
}

/// The signature of a stream packed by `compress`.
pub open spec fn z_magic(buf: Seq<u8>) -> bool {
    buf.len() > 1 && buf[0] == 0x1F && (buf[1] == 0xA0 || buf[1] == 0x9D)
}

/// The signature of an lzip stream: `LZIP`.
pub open spec fn lz_magic(buf: Seq<u8>) -> bool {
    buf.len() > 3 && buf[0] == 0x4C && buf[1] == 0x5A && buf[2] == 0x49 && buf[3] == 0x50
}

/// The signature of an ar archive: `!<arch>`.
pub open spec fn ar_magic(buf: Seq<u8>) -> bool {
    buf.len() > 6 && buf[0] == 0x21 && buf[1] == 0x3C && buf[2] == 0x61 && buf[3] == 0x72
        && buf[4] == 0x63 && buf[5] == 0x68 && buf[6] == 0x3E
}

/// The signature of a cabinet: `MSCF`, or `ISc(`.
pub open spec fn cab_magic(buf: Seq<u8>) -> bool {
    buf.len() > 3 && ((buf[0] == 0x4D && buf[1] == 0x53 && buf[2] == 0x43 && buf[3] == 0x46) || (
    buf[0] == 0x49 && buf[1] == 0x53 && buf[2] == 0x63 && buf[3] == 0x28))
}

/// The signature of a tar archive: `ustar` at offset 257.
pub open spec fn tar_magic(buf: Seq<u8>) -> bool {
    buf.len() > 261 && buf[257] == 0x75 && buf[258] == 0x73 && buf[259] == 0x74 && buf[260]
        == 0x61 && buf[261] == 0x72
}

/// The signature of a zip archive: `PK` and one of three record marks, or
/// the WinZip form.
pub open spec fn zip_magic(buf: Seq<u8>) -> bool {
    buf.len() > 3 && buf[0] == 0x50 && buf[1] == 0x4B && (((buf[2] == 0x03 && buf[3] == 0x04) || (
    buf[2] == 0x05 && buf[3] == 0x06) || (buf[2] == 0x07 && buf[3] == 0x08)) || (buf.len() > 7
        && (buf[2] == 0x30 && buf[3] == 0x30 && buf[4] == 0x50 && buf[5] == 0x4B && buf[6] == 0x03
        && buf[7] == 0x04)))
}

/// `infer::archive::is_gz` tests for the gzip signature.
pub assume_specification[ infer::archive::is_gz ](buf: &[u8]) -> (r: bool)
    ensures
        r == gz_magic(buf@),
;

/// `infer::archive::is_bz2` tests for the bzip2 signature.
pub assume_specification[ infer::archive::is_bz2 ](buf: &[u8]) -> (r: bool)
    ensures
        r == bz2_magic(buf@),
;

/// `infer::archive::is_xz` tests for the xz signature.
pub assume_specification[ infer::archive::is_xz ](buf: &[u8]) -> (r: bool)
    ensures
        r == xz_magic(buf@),
;

/// `infer::archive::is_z` tests for the signature of `compress`.
pub assume_specification[ infer::archive::is_z ](buf: &[u8]) -> (r: bool)
    ensures
        r == z_magic(buf@),
;

/// `infer::archive::is_lz` tests for the lzip signature.
pub assume_specification[ infer::archive::is_lz ](buf: &[u8]) -> (r: bool)
    ensures
        r == lz_magic(buf@),
;

/// `infer::archive::is_ar` tests for the ar signature.
pub assume_specification[ infer::archive::is_ar ](buf: &[u8]) -> (r: bool)
    ensures
        r == ar_magic(buf@),
;

/// `infer::archive::is_cab` tests for the cabinet signatures.
pub assume_specification[ infer::archive::is_cab ](buf: &[u8]) -> (r: bool)
    ensures
        r == cab_magic(buf@),
;

/// `infer::archive::is_tar` tests for the tar signature.
pub assume_specification[ infer::archive::is_tar ](buf: &[u8]) -> (r: bool)
    ensures
        r == tar_magic(buf@),
;

/// `infer::archive::is_zip` tests for the zip signatures.
pub assume_specification[ infer::archive::is_zip ](buf: &[u8]) -> (r: bool)
    ensures
        r == zip_magic(buf@),
;

} // verus!
