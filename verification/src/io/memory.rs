//! Devices that live in memory: a forward-only source over a byte vector,
//! a sink that collects what it is given, and a store with a cursor.

use vstd::prelude::*;
use vstd::slice::{slice_subrange, slice_to_vec};
use crate::error::{IoError, SeekFrom, offset_by};
use crate::io::device::{
    ByteSink, ByteSource, RandomAccess, ReadHandle, WriteHandle, rest_of, sound, written_at,
};

verus! {

/// A forward-only source over bytes held in memory. It hands out at most
/// `burst` bytes per request, and can be set up to fail once a given number
/// of bytes has been delivered.
pub struct MemorySource {
    data: Vec<u8>,
    taken: usize,
    burst: usize,
    fault: Option<(usize, i32)>,
}

impl MemorySource {
    #[verifier::type_invariant]
    spec fn well_formed(&self) -> bool {
        self.taken <= self.data@.len() && self.burst >= 1
    }

    /// The number of bytes delivered so far.
    pub closed spec fn delivered(&self) -> nat {
        self.taken as nat
    }

    /// Every byte of the source, delivered or not.
    pub closed spec fn all(&self) -> Seq<u8> {
        self.data@
    }

    /// A reliable source that delivers `data`, as much per request as is
    /// asked for.
    pub fn new(data: Vec<u8>) -> (r: Self)
        ensures
            r.remaining() == data@,
            r.all() == data@,
            r.delivered() == 0,
            r.reliable_source(),
    {
        MemorySource { data, taken: 0, burst: usize::MAX, fault: None }
    }

    /// A reliable source that delivers `data`, at most `burst` bytes per
    /// request (one byte where `burst` is zero).
    pub fn with_burst(data: Vec<u8>, burst: usize) -> (r: Self)
        ensures
            r.remaining() == data@,
            r.all() == data@,
            r.delivered() == 0,
            r.reliable_source(),
    {
        MemorySource { data, taken: 0, burst: if burst == 0 { 1 } else { burst }, fault: None }
    }

    /// A source that delivers `data` but fails with `IoError::Device(code)`
    /// on every request made once `limit` bytes or more have been delivered.
    pub fn failing_after(data: Vec<u8>, limit: usize, code: i32) -> (r: Self)
        ensures
            r.remaining() == data@,
            r.all() == data@,
            r.delivered() == 0,
            !r.reliable_source(),
            r.failure() == IoError::Device(code),
    {
        MemorySource { data, taken: 0, burst: usize::MAX, fault: Some((limit, code)) }
    }

    /// The number of bytes delivered so far.
    pub fn position(&self) -> (r: usize)
        ensures
            r == self.delivered(),
            self.remaining() == self.all().skip(r as int),
            r <= self.all().len(),
    {
        proof {
            use_type_invariant(self);
        }
        self.taken
    }
}

impl ByteSource for MemorySource {
    closed spec fn remaining(&self) -> Seq<u8> {
        self.data@.skip(self.taken as int)
    }

    closed spec fn reliable_source(&self) -> bool {
        self.fault is None
    }

    closed spec fn failure(&self) -> IoError {
        match self.fault {
            Some((_, code)) => IoError::Device(code),
            None => IoError::Device(0),
        }
    }

    fn pull(&mut self, max: usize) -> (r: Result<Vec<u8>, IoError>)
        ensures
            final(self).all() == old(self).all(),
            r matches Ok(chunk) ==> final(self).delivered() == old(self).delivered() + chunk@.len(),
            r is Err ==> final(self).delivered() == old(self).delivered(),
    {
        proof {
            use_type_invariant(&*self);
        }
        match self.fault {
            Some((limit, code)) => {
                if self.taken >= limit {
                    return Err(IoError::Device(code));
                }
            },
            None => {},
        }
        let left: usize = self.data.len() - self.taken;
        let mut n: usize = if max < self.burst { max } else { self.burst };
        if left < n {
            n = left;
        }
        let chunk = slice_to_vec(slice_subrange(self.data.as_slice(), self.taken, self.taken + n));
        proof {
            assert(chunk@ =~= self.data@.skip(self.taken as int).subrange(0, n as int));
            assert(self.data@.skip(self.taken as int).skip(n as int) =~= self.data@.skip(
                self.taken + n,
            ));
        }
        self.taken = self.taken + n;
        Ok(chunk)
    }
}

/// A sink that keeps every byte it is given.
pub struct MemorySink {
    data: Vec<u8>,
}

impl MemorySink {
    /// An empty sink.
    pub fn new() -> (r: Self)
        ensures
            r.accepted() == Seq::<u8>::empty(),
            r.reliable_sink(),
    {
        MemorySink { data: Vec::new() }
    }

    /// The bytes accepted so far.
    pub fn bytes(&self) -> (r: &Vec<u8>)
        ensures
            r@ == self.accepted(),
    {
        &self.data
    }
}

impl ByteSink for MemorySink {
    closed spec fn accepted(&self) -> Seq<u8> {
        self.data@
    }

    open spec fn reliable_sink(&self) -> bool {
        true
    }

    /// Nothing is ever held back: what is accepted is kept at once.
    open spec fn settled(&self) -> bool {
        true
    }

    fn push(&mut self, data: &[u8]) -> (r: Result<(), IoError>) {
        append_bytes(&mut self.data, data);
        Ok(())
    }

    fn flush(&mut self) -> (r: Result<(), IoError>) {
        Ok(())
    }
}

/// The code with which a pipe refuses to seek.
pub const ESPIPE: i32 = 29;

/// A store with a cursor, held in memory. It can hold as many bytes as a
/// vector can, and its cursor may stand anywhere a 64-bit offset can name.
///
/// A store made by `pipe` stands for a handle that cannot seek: it can be
/// read forward and added to at the end, but every seek and every write at
/// the cursor fails with `IoError::Device(ESPIPE)`.
pub struct MemoryFile {
    data: Vec<u8>,
    pos: u64,
    seekable: bool,
}

impl MemoryFile {
    /// An empty store with its cursor at the start.
    pub fn new() -> (r: Self)
        ensures
            sound(&r),
            r.reliable(),
            r.contents() == Seq::<u8>::empty(),
            r.cursor() == 0,
            r.capacity() == usize::MAX,
    {
        proof {
            usize_fits_u64();
        }
        MemoryFile { data: Vec::new(), pos: 0, seekable: true }
    }

    /// A store that holds `data`, with its cursor at the start.
    pub fn from_bytes(data: Vec<u8>) -> (r: Self)
        ensures
            sound(&r),
            r.reliable(),
            r.contents() == data@,
            r.cursor() == 0,
            r.capacity() == usize::MAX,
    {
        proof {
            usize_fits_u64();
            assert(data@.len() == data.len());
        }
        MemoryFile { data, pos: 0, seekable: true }
    }

    /// A handle that cannot seek and will deliver `data`.
    pub fn pipe(data: Vec<u8>) -> (r: Self)
        ensures
            sound(&r),
            !r.reliable(),
            r.contents() == data@,
            r.cursor() == 0,
            r.capacity() == usize::MAX,
    {
        proof {
            usize_fits_u64();
            assert(data@.len() == data.len());
        }
        MemoryFile { data, pos: 0, seekable: false }
    }

    /// The bytes the store holds.
    pub fn bytes(&self) -> (r: &Vec<u8>)
        ensures
            r@ == self.contents(),
    {
        &self.data
    }

    /// Where the cursor stands.
    pub fn position(&self) -> (r: u64)
        ensures
            r == self.cursor(),
    {
        self.pos
    }
}

impl RandomAccess for MemoryFile {
    closed spec fn contents(&self) -> Seq<u8> {
        self.data@
    }

    closed spec fn cursor(&self) -> nat {
        self.pos as nat
    }

    open spec fn capacity(&self) -> nat {
        usize::MAX as nat
    }

    closed spec fn reliable(&self) -> bool {
        self.seekable
    }

    open spec fn scratch_reliable() -> bool {
        true
    }

    open spec fn scratch_capacity() -> nat {
        usize::MAX as nat
    }

    fn scratch() -> (r: Result<Self, IoError>) {
        proof {
            usize_fits_u64();
        }
        Ok(MemoryFile { data: Vec::new(), pos: 0, seekable: true })
    }

    fn read(&mut self, max: usize) -> (r: Result<Vec<u8>, IoError>)
        ensures
            r is Ok,
    {
        proof {
            usize_fits_u64();
        }
        let len: usize = self.data.len();
        if max == 0 || self.pos >= len as u64 {
            return Ok(Vec::new());
        }
        let start: usize = self.pos as usize;
        let left: usize = len - start;
        let n: usize = if max < left { max } else { left };
        let chunk = slice_to_vec(slice_subrange(self.data.as_slice(), start, start + n));
        self.pos = self.pos + n as u64;
        Ok(chunk)
    }

    fn write_all(&mut self, data: &[u8]) -> (r: Result<(), IoError>) {
        proof {
            usize_fits_u64();
        }
        if !self.seekable {
            return Err(IoError::Device(ESPIPE));
        }
        if self.pos > usize::MAX as u64 {
            return Err(IoError::StorageFull);
        }
        let at: usize = self.pos as usize;
        if data.len() > usize::MAX - at {
            return Err(IoError::StorageFull);
        }
        let ghost before = self.data@;
        while self.data.len() < at
            invariant
                self.seekable == old(self).seekable,
                self.pos == at,
                before.len() <= at ==> self.data@ == before + Seq::new(
                    (self.data@.len() - before.len()) as nat,
                    |i: int| 0u8,
                ),
                before.len() <= at ==> before.len() <= self.data@.len() <= at,
                before.len() > at ==> self.data@ == before,
            decreases at - self.data@.len(),
        {
            self.data.push(0u8);
            proof {
                assert(self.data@ =~= before + Seq::new(
                    (self.data@.len() - before.len()) as nat,
                    |i: int| 0u8,
                ));
            }
        }
        let ghost padded = self.data@;
        let mut i: usize = 0;
        while i < data.len()
            invariant
                self.seekable == old(self).seekable,
                self.pos == at,
                i <= data@.len(),
                at + data@.len() <= usize::MAX,
                at <= padded.len(),
                self.data@ == written_at(padded, at as nat, data@.take(i as int)),
            decreases data@.len() - i,
        {
            if at + i < self.data.len() {
                self.data[at + i] = data[i];
            } else {
                self.data.push(data[i]);
            }
            proof {
                assert(data@.take(i + 1) =~= data@.take(i as int).push(data@[i as int]));
                assert(self.data@ =~= written_at(padded, at as nat, data@.take(i + 1)));
            }
            i = i + 1;
        }
        proof {
            assert(data@.take(i as int) =~= data@);
            if before.len() <= at {
                assert(padded.len() == at);
                assert(padded =~= before + Seq::new((at - before.len()) as nat, |i: int| 0u8));
            }
            assert(written_at(padded, at as nat, data@) =~= written_at(before, at as nat, data@));
        }
        self.pos = self.pos + data.len() as u64;
        Ok(())
    }

    fn seek(&mut self, pos: SeekFrom) -> (r: Result<u64, IoError>) {
        if !self.seekable {
            return Err(IoError::Device(ESPIPE));
        }
        let target: Option<u64> = match pos {
            SeekFrom::Start(n) => Some(n),
            SeekFrom::End(delta) => offset_by(self.data.len() as u64, delta),
            SeekFrom::Current(delta) => offset_by(self.pos, delta),
        };
        match target {
            Some(at) => {
                self.pos = at;
                Ok(at)
            },
            None => Err(IoError::InvalidSeek),
        }
    }

    fn flush(&mut self) -> (r: Result<(), IoError>) {
        Ok(())
    }
}

impl ByteSource for MemoryFile {
    open spec fn remaining(&self) -> Seq<u8> {
        rest_of(self.contents(), self.cursor())
    }

    open spec fn reliable_source(&self) -> bool {
        true
    }

    /// Reads at the cursor.
    fn pull(&mut self, max: usize) -> (r: Result<Vec<u8>, IoError>)
        ensures
            final(self).contents() == old(self).contents(),
            r matches Ok(chunk) ==> final(self).cursor() == old(self).cursor() + chunk@.len(),
    {
        let ghost before = self.remaining();
        proof {
            usize_fits_u64();
            assert(self.data@.len() == self.data.len());
        }
        let chunk = self.read(max)?;
        proof {
            if chunk@.len() > 0 {
                assert(chunk@ =~= before.subrange(0, chunk@.len() as int));
            }
            assert(self.remaining() =~= before.skip(chunk@.len() as int));
        }
        Ok(chunk)
    }
}

impl ByteSink for MemoryFile {
    open spec fn accepted(&self) -> Seq<u8> {
        self.contents()
    }

    open spec fn reliable_sink(&self) -> bool {
        true
    }

    /// Nothing is ever held back: what is accepted is kept at once.
    open spec fn settled(&self) -> bool {
        true
    }

    /// Adds `data` at the end, as a file opened for appending does, and
    /// leaves the cursor there.
    fn push(&mut self, data: &[u8]) -> (r: Result<(), IoError>)
        ensures
            final(self).cursor() == final(self).contents().len(),
    {
        proof {
            usize_fits_u64();
        }
        append_bytes(&mut self.data, data);
        self.pos = self.data.len() as u64;
        Ok(())
    }

    fn flush(&mut self) -> (r: Result<(), IoError>) {
        Ok(())
    }
}

impl WriteHandle for MemoryFile {
    fn rewind(&mut self) -> (r: Result<u64, IoError>) {
        self.seek(SeekFrom::Start(0))
    }
}

impl ReadHandle for MemoryFile {
    fn rewind(&mut self) -> (r: Result<u64, IoError>) {
        self.seek(SeekFrom::Start(0))
    }
}

/// A `usize` always fits in a `u64`.
pub proof fn usize_fits_u64()
    ensures
        usize::MAX <= u64::MAX,
{
    assert(usize::BITS == 32 || usize::BITS == 64);
}

/// Appends `extra` to `bytes`.
pub fn append_bytes(bytes: &mut Vec<u8>, extra: &[u8])
    ensures
        final(bytes)@ == old(bytes)@ + extra@,
{
    let mut i: usize = 0;
    while i < extra.len()
        invariant
            i <= extra@.len(),
            bytes@ == old(bytes)@ + extra@.take(i as int),
        decreases extra@.len() - i,
    {
        bytes.push(extra[i]);
        proof {
            assert(extra@.take(i + 1) =~= extra@.take(i as int).push(extra@[i as int]));
        }
        i = i + 1;
    }
    proof {
        assert(extra@.take(i as int) =~= extra@);
    }
}

} // verus!
