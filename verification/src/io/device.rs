//! The three kinds of byte device the stream layers run over: a source that
//! can only be read forward, a sink that can only be appended to, and a
//! store that can be read and written at any position.

use vstd::prelude::*;
use crate::error::{IoError, SeekFrom};

verus! {

/// The largest number of bytes fetched from a source in one request while
/// filling a cache.
pub const CHUNK_SIZE: usize = 16384;

/// `contents` after `data` has been written at position `at`: a gap between
/// the old end and `at` reads as zeros, `data` replaces what it covers, and
/// whatever lay beyond it stays.
pub open spec fn written_at(contents: Seq<u8>, at: nat, data: Seq<u8>) -> Seq<u8> {
    let padded = if at <= contents.len() {
        contents
    } else {
        contents + Seq::new((at - contents.len()) as nat, |i: int| 0u8)
    };
    let end = at + data.len();
    let tail = if end <= padded.len() {
        padded.skip(end as int)
    } else {
        Seq::<u8>::empty()
    };
    padded.take(at as int) + data + tail
}

/// What a read of at most `max` bytes at `cursor` may return from
/// `contents`: a run of the bytes that start at the cursor, empty only when
/// nothing was asked for or nothing is left.
pub open spec fn is_read_of(chunk: Seq<u8>, contents: Seq<u8>, cursor: nat, max: nat) -> bool {
    &&& chunk.len() <= max
    &&& cursor + chunk.len() <= contents.len() || chunk.len() == 0
    &&& chunk.len() > 0 ==> chunk == contents.subrange(cursor as int, cursor + chunk.len() as int)
    &&& chunk.len() == 0 ==> max == 0 || cursor >= contents.len()
}

/// Whether `store` is in a state in which requests can be made of it: it
/// meets its own invariant, its cursor is one that 64 bits can hold, and it
/// holds no more than its capacity, which 64 bits can hold too.
pub open spec fn sound<F: RandomAccess>(store: &F) -> bool {
    &&& store.inv()
    &&& store.cursor() <= u64::MAX
    &&& store.contents().len() <= store.capacity() <= u64::MAX
}

/// A source of bytes that can only be read forward, once.
///
/// The functions that model a device have defaults, so that a device need
/// not state them. Nothing is proved of a device that keeps the defaults.
pub trait ByteSource {
    /// The bytes this source has yet to deliver, in order.
    open spec fn remaining(&self) -> Seq<u8> {
        Seq::empty()
    }

    /// Whether requests to this source never fail.
    open spec fn reliable_source(&self) -> bool {
        false
    }

    /// The failure that the next request to this source reports, should it
    /// fail.
    open spec fn failure(&self) -> IoError {
        IoError::Device(0)
    }

    /// Takes at most `max` bytes off the front of the source. An empty
    /// result for a non-zero `max` means the source is exhausted. A failed
    /// request takes nothing, reports the failure that `failure` names, and
    /// would report it again.
    fn pull(&mut self, max: usize) -> (r: Result<Vec<u8>, IoError>)
        ensures
            final(self).reliable_source() == old(self).reliable_source(),
            old(self).reliable_source() ==> r is Ok,
            match r {
                Ok(chunk) => {
                    &&& is_read_of(chunk@, old(self).remaining(), 0, max as nat)
                    &&& final(self).remaining() == old(self).remaining().skip(chunk@.len() as int)
                },
                Err(e) => {
                    &&& final(self).remaining() == old(self).remaining()
                    &&& e == old(self).failure()
                    &&& final(self).failure() == old(self).failure()
                },
            },
    ;
}

/// A sink that takes bytes in order and cannot take any of them back.
///
/// The functions that model a device have defaults, so that a device need
/// not state them. Nothing is proved of a device that keeps the defaults.
pub trait ByteSink {
    /// Every byte the sink has accepted so far, in order.
    open spec fn accepted(&self) -> Seq<u8> {
        Seq::empty()
    }

    /// Whether requests to this sink never fail.
    open spec fn reliable_sink(&self) -> bool {
        false
    }

    /// Whether the sink holds back nothing of what it has accepted: all of
    /// it has been passed on to where the sink leads.
    open spec fn settled(&self) -> bool {
        false
    }

    /// Hands `data` to the sink. On success the sink has accepted all of
    /// it; on failure it has accepted some leading part of it.
    fn push(&mut self, data: &[u8]) -> (r: Result<(), IoError>)
        ensures
            final(self).reliable_sink() == old(self).reliable_sink(),
            old(self).reliable_sink() ==> r is Ok,
            r is Ok ==> final(self).accepted() == old(self).accepted() + data@,
            r is Err ==> exists|n: int|
                0 <= n <= data@.len() && final(self).accepted() == old(self).accepted()
                    + #[trigger] data@.take(n),
    ;

    /// Asks the sink to pass on what it holds back: where that succeeds
    /// the sink holds back nothing. Never changes what the sink has
    /// accepted.
    fn flush(&mut self) -> (r: Result<(), IoError>)
        ensures
            final(self).reliable_sink() == old(self).reliable_sink(),
            old(self).reliable_sink() ==> r is Ok,
            final(self).accepted() == old(self).accepted(),
            r is Ok ==> final(self).settled(),
    ;
}

/// A store of bytes with a cursor, readable and writable at any position:
/// what a file on disk offers.
///
/// The functions that model a device have defaults, so that a device need
/// not state them. Nothing is proved of a device that keeps the defaults.
pub trait RandomAccess: Sized {
    /// The bytes the store holds.
    open spec fn contents(&self) -> Seq<u8> {
        Seq::empty()
    }

    /// Where the next read or write takes place.
    open spec fn cursor(&self) -> nat {
        0
    }

    /// The largest number of bytes the store can hold.
    open spec fn capacity(&self) -> nat {
        0
    }

    /// Whether requests to this store fail only for the reasons stated in
    /// the contracts below.
    open spec fn reliable(&self) -> bool {
        false
    }

    /// What holds of every store of this kind between requests, beyond
    /// what `sound` asks of any store.
    open spec fn inv(&self) -> bool {
        true
    }

    /// Whether a new store of this kind can always be had, and is
    /// reliable.
    open spec fn scratch_reliable() -> bool {
        false
    }

    /// The capacity of a new store of this kind.
    open spec fn scratch_capacity() -> nat {
        0
    }

    /// A new, empty store with its cursor at the start, to be discarded
    /// after use.
    fn scratch() -> (r: Result<Self, IoError>)
        ensures
            Self::scratch_reliable() ==> r is Ok,
            r matches Ok(store) ==> {
                &&& store.inv()
                &&& store.cursor() <= u64::MAX
                &&& store.contents().len() <= store.capacity() <= u64::MAX
                &&& store.contents() == Seq::<u8>::empty()
                &&& store.cursor() == 0
                &&& store.reliable() == Self::scratch_reliable()
                &&& store.capacity() == Self::scratch_capacity()
            },
    ;

    /// Reads at most `max` bytes at the cursor and moves the cursor past
    /// them. An empty result for a non-zero `max` means the cursor is at or
    /// beyond the end. A failed read changes nothing.
    fn read(&mut self, max: usize) -> (r: Result<Vec<u8>, IoError>)
        requires
            old(self).inv(),
            old(self).cursor() <= u64::MAX,
            old(self).contents().len() <= old(self).capacity() <= u64::MAX,
        ensures
            final(self).inv(),
            final(self).cursor() <= u64::MAX,
            final(self).contents().len() <= final(self).capacity() <= u64::MAX,
            final(self).reliable() == old(self).reliable(),
            final(self).capacity() == old(self).capacity(),
            final(self).contents() == old(self).contents(),
            old(self).reliable() ==> r is Ok,
            match r {
                Ok(chunk) => {
                    &&& is_read_of(chunk@, old(self).contents(), old(self).cursor(), max as nat)
                    &&& final(self).cursor() == old(self).cursor() + chunk@.len()
                },
                Err(_) => final(self).cursor() == old(self).cursor(),
            },
    ;

    /// Writes all of `data` at the cursor and moves the cursor past it. A
    /// reliable store fails exactly when the bytes would end beyond its
    /// capacity. After a failure the store may hold any part of `data`.
    fn write_all(&mut self, data: &[u8]) -> (r: Result<(), IoError>)
        requires
            old(self).inv(),
            old(self).cursor() <= u64::MAX,
            old(self).contents().len() <= old(self).capacity() <= u64::MAX,
        ensures
            final(self).inv(),
            final(self).cursor() <= u64::MAX,
            final(self).contents().len() <= final(self).capacity() <= u64::MAX,
            final(self).reliable() == old(self).reliable(),
            final(self).capacity() == old(self).capacity(),
            old(self).reliable() ==> (r is Ok <==> old(self).cursor() + data@.len() <= old(
                self,
            ).capacity()),
            r is Ok ==> {
                &&& final(self).contents() == written_at(
                    old(self).contents(),
                    old(self).cursor(),
                    data@,
                )
                &&& final(self).cursor() == old(self).cursor() + data@.len()
            },
            r is Err && old(self).reliable() ==> {
                &&& final(self).contents() == old(self).contents()
                &&& final(self).cursor() == old(self).cursor()
            },
    ;

    /// Moves the cursor and reports where it now stands. A reliable store
    /// fails exactly when the position asked for is negative or beyond
    /// 64 bits. A failed seek changes nothing.
    fn seek(&mut self, pos: SeekFrom) -> (r: Result<u64, IoError>)
        requires
            old(self).inv(),
            old(self).cursor() <= u64::MAX,
            old(self).contents().len() <= old(self).capacity() <= u64::MAX,
        ensures
            final(self).inv(),
            final(self).cursor() <= u64::MAX,
            final(self).contents().len() <= final(self).capacity() <= u64::MAX,
            final(self).reliable() == old(self).reliable(),
            final(self).capacity() == old(self).capacity(),
            final(self).contents() == old(self).contents(),
            old(self).reliable() ==> (r is Ok <==> pos.in_range(
                old(self).cursor(),
                old(self).contents().len(),
            )),
            match r {
                Ok(at) => {
                    &&& at == pos.target(old(self).cursor(), old(self).contents().len())
                    &&& final(self).cursor() == at
                },
                Err(_) => final(self).cursor() == old(self).cursor(),
            },
    ;

    /// Asks the store to make what it holds durable. Changes nothing that
    /// can be read back.
    fn flush(&mut self) -> (r: Result<(), IoError>)
        requires
            old(self).inv(),
            old(self).cursor() <= u64::MAX,
            old(self).contents().len() <= old(self).capacity() <= u64::MAX,
        ensures
            final(self).inv(),
            final(self).cursor() <= u64::MAX,
            final(self).contents().len() <= final(self).capacity() <= u64::MAX,
            final(self).reliable() == old(self).reliable(),
            final(self).capacity() == old(self).capacity(),
            final(self).contents() == old(self).contents(),
            final(self).cursor() == old(self).cursor(),
            old(self).reliable() ==> r is Ok,
    ;
}

/// The bytes of `contents` at and after `cursor`.
pub open spec fn rest_of(contents: Seq<u8>, cursor: nat) -> Seq<u8> {
    if cursor <= contents.len() {
        contents.skip(cursor as int)
    } else {
        Seq::<u8>::empty()
    }
}

/// A handle that was opened for reading and may or may not be able to seek,
/// such as standard input: a store that, read as a source, delivers the
/// bytes at its cursor.
pub trait ReadHandle: RandomAccess + ByteSource {
    /// Asks the handle to seek to its start, as `seek` does. Where it
    /// cannot, nothing has changed, and what the handle has yet to deliver
    /// is what it holds from its cursor on.
    fn rewind(&mut self) -> (r: Result<u64, IoError>)
        requires
            old(self).inv(),
            old(self).cursor() <= u64::MAX,
            old(self).contents().len() <= old(self).capacity() <= u64::MAX,
        ensures
            final(self).inv(),
            final(self).cursor() <= u64::MAX,
            final(self).contents().len() <= final(self).capacity() <= u64::MAX,
            RandomAccess::reliable(final(self)) == RandomAccess::reliable(old(self)),
            final(self).capacity() == old(self).capacity(),
            final(self).contents() == old(self).contents(),
            RandomAccess::reliable(old(self)) ==> r is Ok,
            match r {
                Ok(at) => at == 0 && final(self).cursor() == 0,
                Err(_) => {
                    &&& final(self).cursor() == old(self).cursor()
                    &&& final(self).remaining() == rest_of(
                        final(self).contents(),
                        final(self).cursor(),
                    )
                },
            },
    ;
}

/// A handle that was opened for writing and may or may not be able to seek,
/// such as standard output: a store that, written to as a sink, has
/// accepted exactly what it holds.
pub trait WriteHandle: RandomAccess + ByteSink {
    /// Asks the handle to seek to its start, as `seek` does. Where it
    /// cannot, nothing has changed, and what the handle has accepted is
    /// what it holds.
    fn rewind(&mut self) -> (r: Result<u64, IoError>)
        requires
            old(self).inv(),
            old(self).cursor() <= u64::MAX,
            old(self).contents().len() <= old(self).capacity() <= u64::MAX,
        ensures
            final(self).inv(),
            final(self).cursor() <= u64::MAX,
            final(self).contents().len() <= final(self).capacity() <= u64::MAX,
            RandomAccess::reliable(final(self)) == RandomAccess::reliable(old(self)),
            final(self).capacity() == old(self).capacity(),
            final(self).contents() == old(self).contents(),
            RandomAccess::reliable(old(self)) ==> r is Ok,
            match r {
                Ok(at) => at == 0 && final(self).cursor() == 0,
                Err(_) => {
                    &&& final(self).cursor() == old(self).cursor()
                    &&& final(self).accepted() == final(self).contents()
                },
            },
    ;
}

} // verus!
