//! Stream-oriented compression and decompression.
//!
//! Formats such as tar are often wrapped with stream compression since the
//! archive format itself does not support it.

use vstd::prelude::*;
use crate::compress::decode::decoded;
use crate::compress::formats::{detected, registry};
use crate::error::IoError;
use crate::format::{Format, lemma_first_match};
use crate::io::device::{ByteSource, RandomAccess};
use crate::io::input::Input;

pub mod decode;
pub mod formats;

verus! {

/// How many bytes at the start of a stream are looked at to tell its
/// compression format.
pub const LOOK_AHEAD: usize = 16;

/// The bytes of `bytes` that detection looks at.
pub open spec fn head(bytes: Seq<u8>) -> Seq<u8> {
    bytes.take(if LOOK_AHEAD <= bytes.len() { LOOK_AHEAD as int } else { bytes.len() as int })
}

/// `outcome` with `extra` more layers counted.
pub open spec fn deeper(outcome: Result<(Seq<u8>, nat), IoError>, extra: nat) -> Result<
    (Seq<u8>, nat),
    IoError,
> {
    match outcome {
        Ok((plain, layers)) => Ok((plain, layers + extra)),
        Err(e) => Err(e),
    }
}

/// What taking compression layers off `bytes` comes to, at most `fuel`
/// layers: the bytes inside and the number of layers taken off, or the
/// failure of the first decoder that fails. A layer is taken off as long as
/// the bytes at hand carry the signature of a compression format.
pub open spec fn stripped(bytes: Seq<u8>, fuel: nat) -> Result<(Seq<u8>, nat), IoError>
    decreases fuel,
{
    match detected(head(bytes)) {
        None => Ok((bytes, 0nat)),
        Some(format) => if fuel == 0 {
            Ok((bytes, 0nat))
        } else {
            match decoded(format, bytes) {
                Err(e) => Err(e),
                Ok(inner) => deeper(stripped(inner, (fuel - 1) as nat), 1),
            }
        },
    }
}

/// Whether `bytes` is a stream inside exactly `k` layers of compression
/// that can all be decoded.
pub open spec fn nested(bytes: Seq<u8>, k: nat) -> bool
    decreases k,
{
    match detected(head(bytes)) {
        None => k == 0,
        Some(format) => k > 0 && match decoded(format, bytes) {
            Err(_) => false,
            Ok(inner) => nested(inner, (k - 1) as nat),
        },
    }
}

/// The stream inside the `k` layers of compression around `bytes`.
pub open spec fn payload(bytes: Seq<u8>, k: nat) -> Seq<u8>
    decreases k,
{
    if k == 0 {
        bytes
    } else {
        match detected(head(bytes)) {
            None => bytes,
            Some(format) => match decoded(format, bytes) {
                Err(_) => bytes,
                Ok(inner) => payload(inner, (k - 1) as nat),
            },
        }
    }
}

/// A stream inside `k` layers of compression is unwrapped exactly `k`
/// times, and what comes out is the stream inside.
pub proof fn lemma_strips_every_layer(bytes: Seq<u8>, k: nat, fuel: nat)
    requires
        nested(bytes, k),
        k <= fuel,
    ensures
        stripped(bytes, fuel) == Ok::<(Seq<u8>, nat), IoError>((payload(bytes, k), k)),
    decreases k,
{
    match detected(head(bytes)) {
        None => {},
        Some(format) => {
            match decoded(format, bytes) {
                Err(_) => {},
                Ok(inner) => {
                    lemma_strips_every_layer(inner, (k - 1) as nat, (fuel - 1) as nat);
                },
            }
        },
    }
}

/// A decoder is put around a stream only where the stream carries the
/// signature of the decoder's format: where a layer was taken off, the
/// first bytes match a format of the registry, and the stream was decoded
/// as the first such format.
pub proof fn lemma_wraps_only_on_match(bytes: Seq<u8>, fuel: nat)
    ensures
        match stripped(bytes, fuel) {
            Ok((_, layers)) => layers > 0 ==> (detected(head(bytes)) matches Some(format)
                && format.matches(head(bytes)) && decoded(format, bytes) is Ok),
            Err(_) => detected(head(bytes)) matches Some(format) && format.matches(head(bytes)),
        },
        detected(head(bytes)) is None ==> stripped(bytes, fuel) == Ok::<(Seq<u8>, nat), IoError>(
            (bytes, 0nat),
        ),
{
    lemma_first_match(registry(), head(bytes));
}

/// Decodes the given input stream automatically, as often as needed: as
/// long as the bytes at its cursor carry the signature of a compression
/// format, the input is replaced by the decoded stream. Returns the input
/// that carries no such signature any more.
pub fn detect_decode<R: ByteSource, F: RandomAccess>(input: Input<R, F>) -> (r: Result<
    Input<R, F>,
    IoError,
>)
    requires
        input.wf(),
    ensures
        ({
            let outcome = stripped(input.rest(), (usize::MAX - input.layers()) as nat);
            &&& input.dependable() && F::scratch_reliable() && F::scratch_capacity() >= usize::MAX
                ==> (r is Ok <==> outcome is Ok)
            &&& input.dependable() && F::scratch_reliable() && F::scratch_capacity() >= usize::MAX
                ==> (r matches Err(e) ==> outcome == Err::<(Seq<u8>, nat), IoError>(e))
            // Where no layer is found, no new store is asked for.
            &&& input.dependable() && detected(head(input.rest())) is None ==> r is Ok
            &&& r matches Ok(out) ==> {
                &&& out.wf()
                &&& outcome == Ok::<(Seq<u8>, nat), IoError>(
                    (out.rest(), (out.layers() - input.layers()) as nat),
                )
                &&& out.layers() >= input.layers()
                &&& input.dependable() && F::scratch_reliable() && F::scratch_capacity()
                    >= usize::MAX ==> out.dependable()
                &&& out.layers() == input.layers() ==> out.follows(&input) && out.cursor()
                    == input.cursor()
                &&& out.layers() > input.layers() ==> !out.is_file() && out.cursor() == 0
            }
        }),
{
    let mut current = input;
    proof {
        input.lemma_layers_bounded();
    }
    let ghost fuel = (usize::MAX - input.layers()) as nat;
    let ghost goal = stripped(input.rest(), fuel);
    let ghost good = input.dependable() && F::scratch_reliable() && F::scratch_capacity()
        >= usize::MAX;
    loop
        invariant
            current.wf(),
            fuel == usize::MAX - input.layers(),
            goal == stripped(input.rest(), fuel),
            good == (input.dependable() && F::scratch_reliable() && F::scratch_capacity()
                >= usize::MAX),
            current.layers() >= input.layers(),
            goal == deeper(
                stripped(current.rest(), (usize::MAX - current.layers()) as nat),
                (current.layers() - input.layers()) as nat,
            ),
            good ==> current.dependable(),
            current.layers() == input.layers() ==> current.follows(&input) && current.cursor()
                == input.cursor(),
            current.layers() > input.layers() ==> !current.is_file() && current.cursor() == 0,
        decreases usize::MAX - current.layers(),
    {
        let ghost before = current;
        let first = current.peek(LOOK_AHEAD)?;
        proof {
            current.lemma_layers_bounded();
            assert(first@ == head(before.rest()));
            assert(current.rest() == before.rest());
        }
        match formats::for_bytes(first.as_slice()) {
            None => {
                return Ok(current);
            },
            Some(format) => {
                if current.depth() == usize::MAX {
                    return Ok(current);
                }
                current = current.try_wrap(format)?;
                proof {
                    assert(current.rest() =~= current.stream());
                }
            },
        }
    }
}

} // verus!
