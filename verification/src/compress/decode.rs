//! Decoding a compressed stream, by the decoders of the `flate2`, `bzip2`
//! and `xz2` crates, and encoding one, by the encoder of `bzip2`.

use std::io::Read;
use std::io::Write;
use vstd::prelude::*;
use crate::compress::formats::CompressionFormat;
use crate::error::IoError;

verus! {

/// The error type of the standard library's readers, which the decoders
/// report their failures in.
#[verifier::external_type_specification]
#[verifier::external_body]
pub struct ExIoError(std::io::Error);

/// What `flate2::read::GzDecoder` yields when read to its end over `data`:
/// the decoded bytes, or nothing where it reports an error.
pub uninterp spec fn gzip_decoded(data: Seq<u8>) -> Option<Seq<u8>>;

/// What `flate2::read::ZlibDecoder` yields when read to its end over
/// `data`: the decoded bytes, or nothing where it reports an error.
pub uninterp spec fn zlib_decoded(data: Seq<u8>) -> Option<Seq<u8>>;

/// What `bzip2::read::BzDecoder` yields when read to its end over `data`:
/// the decoded bytes, or nothing where it reports an error.
pub uninterp spec fn bzip2_decoded(data: Seq<u8>) -> Option<Seq<u8>>;

/// What `xz2::read::XzDecoder` yields when read to its end over `data`:
/// the decoded bytes, or nothing where it reports an error.
pub uninterp spec fn xz_decoded(data: Seq<u8>) -> Option<Seq<u8>>;

/// What `bzip2::write::BzEncoder`, made with the default level of
/// compression, has written once `data` was written to it and it was
/// finished: the encoded bytes, or nothing where it reports an error.
pub uninterp spec fn bzip2_encoded(data: Seq<u8>) -> Option<Seq<u8>>;

/// Whether `raw` is the outcome that `expected` names.
pub open spec fn is_outcome(raw: Result<Vec<u8>, std::io::Error>, expected: Option<Seq<u8>>) -> bool {
    match raw {
        Ok(out) => expected == Some(out@),
        Err(_) => expected is None,
    }
}

/// Reads a `flate2::read::GzDecoder` over `data` to its end. The outcome
/// depends on `data` alone.
#[verifier::external_body]
fn gunzip(data: &[u8]) -> (r: Result<Vec<u8>, std::io::Error>)
    ensures
        is_outcome(r, gzip_decoded(data@)),
{
    let mut out = Vec::new();
    flate2::read::GzDecoder::new(data).read_to_end(&mut out)?;
    Ok(out)
}

/// Reads a `flate2::read::ZlibDecoder` over `data` to its end. The outcome
/// depends on `data` alone.
#[verifier::external_body]
fn inflate(data: &[u8]) -> (r: Result<Vec<u8>, std::io::Error>)
    ensures
        is_outcome(r, zlib_decoded(data@)),
{
    let mut out = Vec::new();
    flate2::read::ZlibDecoder::new(data).read_to_end(&mut out)?;
    Ok(out)
}

/// Reads a `bzip2::read::BzDecoder` over `data` to its end. The outcome
/// depends on `data` alone.
#[verifier::external_body]
fn bunzip2(data: &[u8]) -> (r: Result<Vec<u8>, std::io::Error>)
    ensures
        is_outcome(r, bzip2_decoded(data@)),
{
    let mut out = Vec::new();
    bzip2::read::BzDecoder::new(data).read_to_end(&mut out)?;
    Ok(out)
}

/// Reads an `xz2::read::XzDecoder` over `data` to its end. The outcome
/// depends on `data` alone.
#[verifier::external_body]
fn unxz(data: &[u8]) -> (r: Result<Vec<u8>, std::io::Error>)
    ensures
        is_outcome(r, xz_decoded(data@)),
{
    let mut out = Vec::new();
    xz2::read::XzDecoder::new(data).read_to_end(&mut out)?;
    Ok(out)
}

/// Writes `data` to a `bzip2::write::BzEncoder` over an empty vector, made
/// with `bzip2::Compression::default()`, and finishes it. The outcome
/// depends on `data` alone.
#[verifier::external_body]
fn bzip2_pack(data: &[u8]) -> (r: Result<Vec<u8>, std::io::Error>)
    ensures
        is_outcome(r, bzip2_encoded(data@)),
{
    let mut encoder = bzip2::write::BzEncoder::new(Vec::new(), bzip2::Compression::default());
    encoder.write_all(data)?;
    encoder.finish()
}

/// What the product of a decoder or an encoder stands for in this library:
/// its bytes, or `IoError::InvalidData` where it gave up.
pub open spec fn outcome_of(product: Option<Seq<u8>>) -> Result<Seq<u8>, IoError> {
    match product {
        Some(out) => Ok(out),
        None => Err(IoError::InvalidData),
    }
}

/// What decoding `data` as `format` gives. Nothing here can decode the
/// formats of `compress` and lzip.
pub open spec fn decoded(format: CompressionFormat, data: Seq<u8>) -> Result<Seq<u8>, IoError> {
    match format {
        CompressionFormat::Bzip2 => outcome_of(bzip2_decoded(data)),
        CompressionFormat::Gzip => outcome_of(gzip_decoded(data)),
        CompressionFormat::Xz => outcome_of(xz_decoded(data)),
        CompressionFormat::Zlib => outcome_of(zlib_decoded(data)),
        CompressionFormat::Compress | CompressionFormat::Lzip => Err(IoError::Unsupported),
    }
}

/// Whether `r` is the result that `expected` names.
pub open spec fn is_result(r: Result<Vec<u8>, IoError>, expected: Result<Seq<u8>, IoError>) -> bool {
    match r {
        Ok(out) => expected == Ok::<Seq<u8>, IoError>(out@),
        Err(e) => expected == Err::<Seq<u8>, IoError>(e),
    }
}

/// Turns what a decoder or an encoder returned into a result of this
/// library: its bytes as they are, any failure as `IoError::InvalidData`.
pub fn decoder_outcome(raw: Result<Vec<u8>, std::io::Error>) -> (r: Result<Vec<u8>, IoError>)
    ensures
        match raw {
            Ok(out) => r == Ok::<Vec<u8>, IoError>(out),
            Err(_) => r == Err::<Vec<u8>, IoError>(IoError::InvalidData),
        },
{
    match raw {
        Ok(out) => Ok(out),
        Err(_) => Err(IoError::InvalidData),
    }
}

/// What encoding `data` in `format` gives. Only bzip2 can be encoded.
pub open spec fn encoded(format: CompressionFormat, data: Seq<u8>) -> Result<Seq<u8>, IoError> {
    match format {
        CompressionFormat::Bzip2 => outcome_of(bzip2_encoded(data)),
        _ => Err(IoError::Unsupported),
    }
}

/// Encodes `data` as a whole stream in `format`.
pub fn encode(format: CompressionFormat, data: &[u8]) -> (r: Result<Vec<u8>, IoError>)
    ensures
        is_result(r, encoded(format, data@)),
{
    match format {
        CompressionFormat::Bzip2 => decoder_outcome(bzip2_pack(data)),
        _ => Err(IoError::Unsupported),
    }
}

/// Decodes `data`, a whole stream in `format`.
pub fn decode(format: CompressionFormat, data: &[u8]) -> (r: Result<Vec<u8>, IoError>)
    ensures
        is_result(r, decoded(format, data@)),
{
    match format {
        CompressionFormat::Bzip2 => decoder_outcome(bunzip2(data)),
        CompressionFormat::Gzip => decoder_outcome(gunzip(data)),
        CompressionFormat::Xz => decoder_outcome(unxz(data)),
        CompressionFormat::Zlib => decoder_outcome(inflate(data)),
        CompressionFormat::Compress => Err(IoError::Unsupported),
        CompressionFormat::Lzip => Err(IoError::Unsupported),
    }
}

} // verus!
