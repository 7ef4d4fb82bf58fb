//! The failures that stream operations report, and seek requests.

use vstd::prelude::*;

verus! {

/// Why a stream operation did not complete.
#[derive(Clone, Copy, Debug, PartialEq, Eq, Structural)]
pub enum IoError {
    /// A seek asked for a position before the start of the stream, or one
    /// that no 64-bit offset can name.
    InvalidSeek,
    /// The backing store cannot hold the bytes handed to it.
    StorageFull,
    /// The format is recognised but nothing here can decode it.
    Unsupported,
    /// A decoder rejected the bytes it was given.
    InvalidData,
    /// The device reported a failure; the number is its raw code.
    Device(i32),
}

/// Where a seek should land, relative to the start, the end or the cursor.
#[derive(Clone, Copy, Debug, PartialEq, Eq, Structural)]
pub enum SeekFrom {
    Start(u64),
    End(i64),
    Current(i64),
}

impl SeekFrom {
    /// The absolute position this request names in a stream of `len` bytes
    /// whose cursor stands at `cursor`. May be negative or beyond `u64`.
    pub open spec fn target(self, cursor: nat, len: nat) -> int {
        match self {
            SeekFrom::Start(n) => n as int,
            SeekFrom::End(delta) => len + delta,
            SeekFrom::Current(delta) => cursor + delta,
        }
    }

    /// Whether the position this request names can be a cursor.
    pub open spec fn in_range(self, cursor: nat, len: nat) -> bool {
        0 <= self.target(cursor, len) <= u64::MAX
    }
}

/// Adds a signed displacement to a position, or reports that the sum is
/// negative or does not fit in 64 bits.
pub fn offset_by(base: u64, delta: i64) -> (r: Option<u64>)
    ensures
        r == if 0 <= base + delta <= u64::MAX {
            Some((base + delta) as u64)
        } else {
            None::<u64>
        },
{
    if delta >= 0 {
        let up: u64 = delta as u64;
        if up <= u64::MAX - base {
            Some(base + up)
        } else {
            None
        }
    } else {
        // -(delta + 1) fits in i64 for every negative delta.
        let down_less_one: u64 = (-(delta + 1)) as u64;
        if down_less_one < base {
            Some(base - down_less_one - 1)
        } else {
            None
        }
    }
}

} // verus!
