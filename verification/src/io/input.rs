//! The read side: one stream type over a real file or a cached forward-only
//! source, with look-ahead, seeking, and layering of decoders.

use vstd::prelude::*;
use vstd::slice::{slice_subrange, slice_to_vec};
use crate::compress::decode::{decode, decoded};
use crate::compress::formats::CompressionFormat;
use crate::error::{IoError, SeekFrom};
use crate::io::buffers::DiskCacheReader;
use crate::io::device::{
    ByteSource, RandomAccess, ReadHandle, CHUNK_SIZE, is_read_of, rest_of, sound,
};
use crate::io::memory::{MemorySource, append_bytes, usize_fits_u64};

verus! {

/// What an input reads from once it is not a file: the source it was given,
/// or the bytes that a decoder made of an earlier input.
pub enum Layered<R: ByteSource> {
    Raw(R),
    Decoded(MemorySource),
}

impl<R: ByteSource> ByteSource for Layered<R> {
    open spec fn remaining(&self) -> Seq<u8> {
        match self {
            Layered::Raw(source) => source.remaining(),
            Layered::Decoded(source) => source.remaining(),
        }
    }

    open spec fn reliable_source(&self) -> bool {
        match self {
            Layered::Raw(source) => source.reliable_source(),
            Layered::Decoded(source) => source.reliable_source(),
        }
    }

    open spec fn failure(&self) -> IoError {
        match self {
            Layered::Raw(source) => source.failure(),
            Layered::Decoded(source) => source.failure(),
        }
    }

    fn pull(&mut self, max: usize) -> (r: Result<Vec<u8>, IoError>) {
        match self {
            Layered::Raw(source) => source.pull(max),
            Layered::Decoded(source) => source.pull(max),
        }
    }
}

/// The two forms an input takes.
enum Inner<R: ByteSource, F: RandomAccess> {
    /// A file that can seek by itself, and the path it was opened at.
    File(F, Option<String>),
    /// Anything else, behind a cache that can.
    Other(DiskCacheReader<Layered<R>, F>),
}

/// An input stream that can be peeked, read and sought, whether or not what
/// it reads from can seek.
pub struct Input<R: ByteSource, F: RandomAccess> {
    inner: Inner<R, F>,
    /// Bytes read ahead of the cursor.
    ahead: Vec<u8>,
    /// How many of the bytes read ahead lie behind the cursor by now.
    used: usize,
    /// How many decoders this input has passed through.
    depth: usize,
}

impl<R: ByteSource, F: RandomAccess> Input<R, F> {
    /// Whether the input reads straight from a file.
    pub closed spec fn is_file(&self) -> bool {
        self.inner is File
    }

    /// The whole stream, from its first byte.
    pub closed spec fn stream(&self) -> Seq<u8> {
        match self.inner {
            Inner::File(file, _) => file.contents(),
            Inner::Other(cache) => cache.stream(),
        }
    }

    /// Where the file or the cache underneath stands: ahead of the cursor
    /// by what was read ahead.
    pub closed spec fn backing_cursor(&self) -> nat {
        match self.inner {
            Inner::File(file, _) => file.cursor(),
            Inner::Other(cache) => cache.cursor(),
        }
    }

    /// How much of the stream has been taken from what is underneath: for
    /// a cache, the number of bytes it holds; for a file, all of it.
    pub closed spec fn fetched(&self) -> nat {
        match self.inner {
            Inner::File(file, _) => file.contents().len(),
            Inner::Other(cache) => cache.cached().len(),
        }
    }

    /// The bytes read ahead of the cursor and not yet consumed.
    pub closed spec fn buffered(&self) -> Seq<u8> {
        self.ahead@.skip(self.used as int)
    }

    /// Where the next read starts.
    pub open spec fn cursor(&self) -> nat {
        (self.backing_cursor() - self.buffered().len()) as nat
    }

    /// The bytes at and after the cursor.
    pub open spec fn rest(&self) -> Seq<u8> {
        if self.cursor() <= self.stream().len() {
            self.stream().skip(self.cursor() as int)
        } else {
            Seq::<u8>::empty()
        }
    }

    /// How many decoders this input has passed through.
    pub closed spec fn layers(&self) -> nat {
        self.depth as nat
    }

    /// The path of the file that the input reads, where it is known.
    pub closed spec fn source_path(&self) -> Option<Seq<char>> {
        match self.inner {
            Inner::File(_, Some(path)) => Some(path@),
            _ => None,
        }
    }

    /// Whether no device underneath fails of its own accord, and the cache,
    /// if there is one, has room for the whole stream.
    pub closed spec fn dependable(&self) -> bool {
        match self.inner {
            Inner::File(file, _) => file.reliable(),
            Inner::Other(cache) => cache.dependable(),
        }
    }

    /// What is underneath is sound, and the bytes read ahead are the bytes
    /// of the stream that lie just before the place where the file or the
    /// cache stands.
    pub closed spec fn wf(&self) -> bool {
        &&& match self.inner {
            Inner::File(file, _) => sound(&file),
            Inner::Other(cache) => cache.wf(),
        }
        &&& self.used <= self.ahead@.len()
        &&& self.buffered().len() <= self.backing_cursor()
        &&& self.buffered().len() > 0 ==> self.backing_cursor() <= self.stream().len()
            && self.buffered() == self.stream().subrange(
            self.cursor() as int,
            self.backing_cursor() as int,
        )
    }

    /// Whether a failed operation leaves the input usable: always for a
    /// file; for a cache, where its store is reliable and has room for the
    /// whole stream.
    pub closed spec fn sturdy(&self) -> bool {
        match self.inner {
            Inner::File(_, _) => true,
            Inner::Other(cache) => cache.store().reliable() && cache.stream().len()
                <= cache.store().capacity(),
        }
    }

    /// Whether `e` is the failure of the source behind the cache, as it
    /// stands. An input that reads straight from a file has no such source.
    pub closed spec fn is_failure_of_source(&self, e: IoError) -> bool {
        match self.inner {
            Inner::File(_, _) => false,
            Inner::Other(cache) => cache.is_failure_of_source(e),
        }
    }

    /// What is underneath `self` is what was underneath `before`, further
    /// along: the same stream in the same form, as dependable, as sturdy,
    /// and as many decoders deep.
    pub closed spec fn same_backing(&self, before: &Self) -> bool {
        &&& self.depth == before.depth
        &&& match (self.inner, before.inner) {
            (Inner::File(file, path), Inner::File(file0, path0)) => {
                &&& path == path0
                &&& sound(&file)
                &&& file.contents() == file0.contents()
                &&& file.reliable() == file0.reliable()
                &&& file.capacity() == file0.capacity()
            },
            (Inner::Other(cache), Inner::Other(cache0)) => {
                &&& cache.wf()
                &&& cache.same_devices(&cache0)
                &&& cache.stream() == cache0.stream()
                &&& cache.cached().len() >= cache0.cached().len()
            },
            _ => false,
        }
    }

    /// What `same_backing` means to a caller.
    pub proof fn lemma_same_backing(&self, before: &Self)
        requires
            self.same_backing(before),
        ensures
            self.stream() == before.stream(),
            self.is_file() == before.is_file(),
            self.source_path() == before.source_path(),
            self.layers() == before.layers(),
            self.dependable() == before.dependable(),
            self.sturdy() == before.sturdy(),
            self.fetched() >= before.fetched(),
    {
    }

    /// What a sound input is: what was read ahead lies between the cursor
    /// and the place where the file or the cache underneath stands, and is
    /// what the stream holds there.
    pub proof fn lemma_wf(&self)
        requires
            self.wf(),
        ensures
            self.buffered().len() <= self.backing_cursor(),
            self.cursor() + self.buffered().len() == self.backing_cursor(),
            self.buffered().len() > 0 ==> self.backing_cursor() <= self.stream().len()
                && self.buffered() == self.stream().subrange(
                self.cursor() as int,
                self.backing_cursor() as int,
            ),
            self.layers() <= usize::MAX,
    {
    }

    /// `self` is sound and is the stream that `before` was, in the same
    /// form, as dependable, as sturdy, and as many decoders deep.
    pub open spec fn follows(&self, before: &Self) -> bool {
        &&& self.wf()
        &&& self.stream() == before.stream()
        &&& self.is_file() == before.is_file()
        &&& self.source_path() == before.source_path()
        &&& self.layers() == before.layers()
        &&& self.dependable() == before.dependable()
        &&& self.sturdy() == before.sturdy()
        &&& self.fetched() >= before.fetched()
    }

    /// Whether what is underneath is sound, whatever was read ahead.
    spec fn backing_wf(&self) -> bool {
        match self.inner {
            Inner::File(file, _) => sound(&file),
            Inner::Other(cache) => cache.wf(),
        }
    }

    /// Reads at most `max` bytes from the file or the cache underneath.
    fn backing_read(&mut self, max: usize) -> (r: Result<Vec<u8>, IoError>)
        requires
            old(self).backing_wf(),
        ensures
            final(self).ahead == old(self).ahead,
            final(self).used == old(self).used,
            old(self).dependable() ==> r is Ok,
            // A failure that is not a store's is the failure of the source
            // behind the cache, as it is.
            !old(self).is_file() && old(self).sturdy() ==> (r matches Err(e) ==> final(self).is_failure_of_source(e)),
            r is Err && old(self).sturdy() ==> final(self).same_backing(old(self)) && final(self).backing_cursor() == old(self).backing_cursor(),
            match r {
                Ok(chunk) => {
                    &&& final(self).same_backing(old(self))
                    &&& is_read_of(
                        chunk@,
                        old(self).stream(),
                        old(self).backing_cursor(),
                        max as nat,
                    )
                    &&& final(self).backing_cursor() == old(self).backing_cursor() + chunk@.len()
                },
                Err(_) => true,
            },
    {
        match &mut self.inner {
            Inner::File(file, _) => file.read(max),
            Inner::Other(cache) => cache.read(max),
        }
    }

    /// Moves the cursor of the file or the cache underneath.
    fn backing_seek(&mut self, pos: SeekFrom) -> (r: Result<u64, IoError>)
        requires
            old(self).backing_wf(),
        ensures
            final(self).ahead == old(self).ahead,
            final(self).used == old(self).used,
            old(self).dependable() ==> (r is Ok <==> pos.in_range(
                old(self).backing_cursor(),
                old(self).stream().len(),
            )),
            old(self).dependable() && r is Err ==> r == Err::<u64, IoError>(IoError::InvalidSeek)
                || old(self).is_file(),
            !old(self).is_file() && old(self).sturdy() ==> (r matches Err(e) ==> (e
                == IoError::InvalidSeek && !pos.in_range(
                old(self).backing_cursor(),
                old(self).stream().len(),
            )) || final(self).is_failure_of_source(e)),
            r is Err && old(self).sturdy() ==> final(self).same_backing(old(self)) && final(self).backing_cursor() == old(self).backing_cursor(),
            pos matches SeekFrom::Start(n) && n <= old(self).fetched() ==> final(self).fetched()
                == old(self).fetched(),
            match r {
                Ok(at) => {
                    &&& final(self).same_backing(old(self))
                    &&& at == pos.target(old(self).backing_cursor(), old(self).stream().len())
                    &&& final(self).backing_cursor() == at
                },
                Err(_) => true,
            },
    {
        match &mut self.inner {
            Inner::File(file, _) => file.seek(pos),
            Inner::Other(cache) => cache.seek(pos),
        }
    }

    /// An input that reads straight from `file`, from where its cursor
    /// stands.
    pub fn from_file(file: F) -> (r: Self)
        requires
            sound(&file),
        ensures
            r.wf(),
            r.is_file(),
            r.stream() == file.contents(),
            r.cursor() == file.cursor(),
            r.layers() == 0,
            r.source_path() is None,
            r.dependable() == file.reliable(),
    {
        Input { inner: Inner::File(file, None), ahead: Vec::new(), used: 0, depth: 0 }
    }

    /// An input over the file at `path`, which the caller has opened as
    /// `file`.
    pub fn open(path: &str, file: F) -> (r: Self)
        requires
            sound(&file),
        ensures
            r.wf(),
            r.is_file(),
            r.stream() == file.contents(),
            r.cursor() == file.cursor(),
            r.layers() == 0,
            r.source_path() == Some(path@),
            r.dependable() == file.reliable(),
    {
        Input {
            inner: Inner::File(file, Some(path.to_owned())),
            ahead: Vec::new(),
            used: 0,
            depth: 0,
        }
    }

    /// An input over a source that cannot seek, behind a cache in a new
    /// store.
    pub fn from_reader(reader: R) -> (r: Result<Self, IoError>)
        ensures
            F::scratch_reliable() ==> r is Ok,
            r matches Ok(input) ==> {
                &&& input.wf()
                &&& !input.is_file()
                &&& input.stream() == reader.remaining()
                &&& input.cursor() == 0
                &&& input.layers() == 0
                &&& input.source_path() is None
                &&& input.dependable() == (reader.reliable_source() && F::scratch_reliable()
                    && reader.remaining().len() <= F::scratch_capacity())
                &&& forall|e: IoError| #[trigger]
                    input.is_failure_of_source(e) == (!reader.reliable_source() && e
                        == reader.failure())
            },
    {
        let cache = DiskCacheReader::new(Layered::Raw(reader))?;
        proof {
            assert(cache.stream() =~= reader.remaining());
        }
        Ok(Input { inner: Inner::Other(cache), ahead: Vec::new(), used: 0, depth: 0 })
    }

    /// The number of bytes read ahead of the cursor.
    fn unread(&self) -> (r: usize)
        requires
            self.used <= self.ahead@.len(),
        ensures
            r == self.buffered().len(),
            r == self.ahead@.len() - self.used,
            self.ahead@.len() <= usize::MAX,
    {
        self.ahead.len() - self.used
    }

    /// The bytes read ahead of the cursor, without moving the cursor. Where
    /// there are none, one chunk is first read from underneath. An empty
    /// result means the end of the stream.
    pub fn fill_buf(&mut self) -> (r: Result<&[u8], IoError>)
        requires
            old(self).wf(),
        ensures
            old(self).dependable() ==> r is Ok,
            // A failure that is not a store's is the failure of the source
            // behind the cache, as it is.
            !old(self).is_file() && old(self).sturdy() ==> (r matches Err(e) ==> final(self).is_failure_of_source(e)),
            r is Ok || old(self).sturdy() ==> final(self).follows(old(self)) && final(self).cursor() == old(self).cursor(),
            r matches Ok(bytes) ==> {
                &&& bytes@ == final(self).buffered()
                &&& bytes@ == old(self).rest().take(bytes@.len() as int)
                &&& bytes@.len() <= old(self).rest().len()
                &&& bytes@.len() == 0 ==> old(self).rest().len() == 0
            },
    {
        let ghost stream = self.stream();
        let ghost at = self.cursor() as int;
        if self.unread() == 0 {
            let chunk = self.backing_read(CHUNK_SIZE)?;
            self.ahead = chunk;
            self.used = 0;
            proof {
                self.lemma_same_backing(old(self));
                assert(self.buffered() =~= self.ahead@);
            }
        }
        let bytes = slice_subrange(self.ahead.as_slice(), self.used, self.ahead.len());
        proof {
            assert(bytes@ =~= self.buffered());
            if bytes@.len() > 0 {
                assert(bytes@ =~= stream.skip(at).take(bytes@.len() as int));
            } else {
                assert(bytes@ =~= old(self).rest().take(0));
            }
        }
        Ok(bytes)
    }

    /// The first `want` bytes at the cursor, or all that are left where
    /// the stream ends sooner, without moving the cursor.
    pub fn peek(&mut self, want: usize) -> (r: Result<Vec<u8>, IoError>)
        requires
            old(self).wf(),
        ensures
            old(self).dependable() ==> r is Ok,
            // A failure that is not a store's is the failure of the source
            // behind the cache, as it is.
            !old(self).is_file() && old(self).sturdy() ==> (r matches Err(e) ==> final(self).is_failure_of_source(e)),
            r is Ok || old(self).sturdy() ==> final(self).follows(old(self)) && final(self).cursor() == old(self).cursor(),
            r matches Ok(bytes) ==> bytes@ == old(self).rest().take(
                if want <= old(self).rest().len() {
                    want as int
                } else {
                    old(self).rest().len() as int
                },
            ),
    {
        let ghost stream = self.stream();
        let ghost at = self.cursor() as int;
        let mut done = false;
        while !done && self.unread() < want
            invariant
                self.follows(old(self)),
                self.cursor() == at,
                at == old(self).cursor(),
                stream == old(self).stream(),
                done ==> at + self.buffered().len() >= stream.len(),
            decreases want - self.buffered().len() + (if done { 0int } else { 1int }),
        {
            let ghost prior = *self;
            let ghost held = self.buffered();
            let missing: usize = want - self.unread();
            let chunk = self.backing_read(missing)?;
            proof {
                self.lemma_same_backing(&prior);
            }
            if chunk.len() == 0 {
                done = true;
            } else {
                append_bytes(&mut self.ahead, chunk.as_slice());
                proof {
                    assert(self.buffered() =~= held + chunk@);
                    assert(self.buffered() =~= stream.subrange(
                        at,
                        self.backing_cursor() as int,
                    ));
                }
            }
        }
        let have: usize = self.unread();
        let n: usize = if want <= have { want } else { have };
        let bytes = slice_to_vec(
            slice_subrange(self.ahead.as_slice(), self.used, self.used + n),
        );
        proof {
            if n > 0 {
                assert(bytes@ =~= stream.skip(at).take(n as int));
            } else {
                assert(bytes@ =~= old(self).rest().take(0));
            }
        }
        Ok(bytes)
    }

    /// Moves the cursor past `amt` of the bytes read ahead, or past all of
    /// them where there are fewer.
    pub fn consume(&mut self, amt: usize)
        requires
            old(self).wf(),
        ensures
            final(self).follows(old(self)),
            final(self).cursor() == old(self).cursor() + if amt <= old(self).buffered().len() {
                amt as nat
            } else {
                old(self).buffered().len()
            },
            final(self).buffered() == old(self).buffered().skip(
                if amt <= old(self).buffered().len() {
                    amt as int
                } else {
                    old(self).buffered().len() as int
                },
            ),
    {
        let left = self.unread();
        let step: usize = if amt <= left { amt } else { left };
        let ghost held = self.buffered();
        self.used = self.used + step;
        proof {
            assert(self.buffered() =~= held.skip(step as int));
            if self.buffered().len() > 0 {
                assert(self.buffered() =~= self.stream().subrange(
                    self.cursor() as int,
                    self.backing_cursor() as int,
                ));
            }
        }
    }

    /// Reads at most `max` bytes at the cursor and moves the cursor past
    /// them. An empty result for a non-zero `max` means the end of the
    /// stream.
    pub fn read(&mut self, max: usize) -> (r: Result<Vec<u8>, IoError>)
        requires
            old(self).wf(),
        ensures
            old(self).dependable() ==> r is Ok,
            // A failure that is not a store's is the failure of the source
            // behind the cache, as it is.
            !old(self).is_file() && old(self).sturdy() ==> (r matches Err(e) ==> final(self).is_failure_of_source(e)),
            r is Ok || old(self).sturdy() ==> final(self).follows(old(self)),
            r is Err && old(self).sturdy() ==> final(self).cursor() == old(self).cursor(),
            r matches Ok(chunk) ==> {
                &&& is_read_of(chunk@, old(self).stream(), old(self).cursor(), max as nat)
                &&& final(self).cursor() == old(self).cursor() + chunk@.len()
            },
    {
        let left = self.unread();
        if left > 0 {
            let n: usize = if max <= left { max } else { left };
            let chunk = slice_to_vec(
                slice_subrange(self.ahead.as_slice(), self.used, self.used + n),
            );
            proof {
                if n > 0 {
                    assert(chunk@ =~= self.stream().subrange(
                        self.cursor() as int,
                        self.cursor() + n,
                    ));
                }
            }
            self.consume(n);
            Ok(chunk)
        } else {
            let chunk = self.backing_read(max)?;
            proof {
                self.lemma_same_backing(old(self));
            }
            Ok(chunk)
        }
    }

    /// Where the file or the cache underneath stands, as it reports it.
    fn backing_position(&mut self) -> (r: Result<u64, IoError>)
        requires
            old(self).backing_wf(),
        ensures
            final(self).ahead == old(self).ahead,
            final(self).used == old(self).used,
            final(self).same_backing(old(self)),
            final(self).backing_cursor() == old(self).backing_cursor(),
            final(self).fetched() == old(self).fetched(),
            old(self).sturdy() && (old(self).is_file() ==> old(self).dependable()) ==> r is Ok,
            r matches Ok(at) ==> at == old(self).backing_cursor(),
    {
        match &mut self.inner {
            Inner::File(file, _) => {
                file.seek(SeekFrom::Current(0))
            },
            Inner::Other(cache) => cache.position(),
        }
    }

    /// Moves the cursor and reports where it now stands. What was read
    /// ahead is dropped. A position before the start, or one that 64 bits
    /// cannot hold, is refused, and the cursor stays where it was. A seek
    /// to a position that was reached before takes nothing more from what
    /// is underneath.
    pub fn seek(&mut self, pos: SeekFrom) -> (r: Result<u64, IoError>)
        requires
            old(self).wf(),
        ensures
            old(self).dependable() ==> (r is Ok <==> pos.in_range(
                old(self).cursor(),
                old(self).stream().len(),
            )),
            r is Ok || old(self).sturdy() ==> final(self).follows(old(self)),
            r is Err && old(self).sturdy() ==> final(self).cursor() == old(self).cursor(),
            // A failure that is not a store's is a refusal of the position
            // or the failure of the source behind the cache, as it is.
            !old(self).is_file() && old(self).sturdy() ==> (r matches Err(e) ==> (e
                == IoError::InvalidSeek && !pos.in_range(
                old(self).cursor(),
                old(self).stream().len(),
            )) || final(self).is_failure_of_source(e)),
            // Going back to what was fetched before fetches nothing more.
            !(pos is End) && 0 <= pos.target(old(self).cursor(), 0) <= old(self).fetched()
                ==> final(self).fetched() == old(self).fetched(),
            r matches Ok(at) ==> {
                &&& at == pos.target(old(self).cursor(), old(self).stream().len())
                &&& final(self).cursor() == at
                &&& final(self).buffered().len() == 0
            },
    {
        let target = match pos {
            SeekFrom::Current(delta) => {
                // Work out the absolute position: what is underneath stands
                // ahead of the cursor by the bytes read ahead.
                let ahead_at = self.backing_position()?;
                proof {
                    usize_fits_u64();
                    self.lemma_same_backing(old(self));
                }
                let at: u64 = ahead_at - self.unread() as u64;
                match crate::error::offset_by(at, delta) {
                    Some(target) => SeekFrom::Start(target),
                    None => {
                        return Err(IoError::InvalidSeek);
                    },
                }
            },
            _ => pos,
        };
        let at = self.backing_seek(target)?;
        self.ahead = Vec::new();
        self.used = 0;
        proof {
            self.lemma_same_backing(old(self));
            assert(self.buffered() =~= Seq::<u8>::empty());
        }
        Ok(at)
    }

    /// Reads everything from the cursor to the end of the stream.
    pub fn read_to_end(&mut self) -> (r: Result<Vec<u8>, IoError>)
        requires
            old(self).wf(),
        ensures
            old(self).dependable() ==> r is Ok,
            // A failure that is not a store's is the failure of the source
            // behind the cache, as it is.
            !old(self).is_file() && old(self).sturdy() ==> (r matches Err(e) ==> final(self).is_failure_of_source(e)),
            r is Ok || old(self).sturdy() ==> final(self).follows(old(self)),
            r matches Ok(bytes) ==> {
                &&& bytes@ == old(self).rest()
                &&& final(self).cursor() == old(self).cursor() + bytes@.len()
            },
    {
        let ghost stream = self.stream();
        let ghost from = self.cursor() as int;
        let mut out: Vec<u8> = Vec::new();
        let mut done = false;
        proof {
            if from <= stream.len() {
                assert(out@ =~= stream.subrange(from, from));
            }
        }
        while !done
            invariant
                self.follows(old(self)),
                stream == old(self).stream(),
                from == old(self).cursor(),
                self.cursor() == from + out@.len(),
                out@.len() > 0 ==> from + out@.len() <= stream.len(),
                from <= stream.len() ==> out@ == stream.subrange(from, from + out@.len()),
                done ==> self.cursor() >= stream.len(),
            decreases
                    (if self.cursor() <= stream.len() {
                        stream.len() - self.cursor()
                    } else {
                        0
                    }) + (if done { 0int } else { 1int }),
        {
            let ghost held = out@;
            let chunk = self.read(CHUNK_SIZE)?;
            if chunk.len() == 0 {
                done = true;
            } else {
                append_bytes(&mut out, chunk.as_slice());
                proof {
                    assert(out@ =~= stream.subrange(from, from + held.len() + chunk@.len()));
                }
            }
        }
        proof {
            if from <= stream.len() {
                assert(out@ =~= stream.skip(from));
            } else {
                assert(out@ =~= Seq::<u8>::empty());
            }
        }
        Ok(out)
    }

    /// The number of decoders passed through once one more is added.
    pub open spec fn one_deeper(layers: nat) -> nat {
        if layers < usize::MAX {
            layers + 1
        } else {
            layers
        }
    }

    /// Decodes what is left of this input as a stream in `format`, and
    /// gives the decoded bytes as a new input, behind a cache in a new
    /// store and with its cursor at the start. The new input is one decoder
    /// deeper than this one.
    pub fn try_wrap(self, format: CompressionFormat) -> (r: Result<Self, IoError>)
        requires
            self.wf(),
        ensures
            self.dependable() && F::scratch_reliable() ==> (r is Ok <==> decoded(
                format,
                self.rest(),
            ) is Ok),
            self.dependable() && F::scratch_reliable() ==> (r matches Err(e) ==> decoded(
                format,
                self.rest(),
            ) == Err::<Seq<u8>, IoError>(e)),
            r matches Ok(out) ==> {
                &&& out.wf()
                &&& !out.is_file()
                &&& decoded(format, self.rest()) == Ok::<Seq<u8>, IoError>(out.stream())
                &&& out.stream().len() <= usize::MAX
                &&& out.cursor() == 0
                &&& out.layers() == Self::one_deeper(self.layers())
                &&& out.source_path() is None
                &&& out.dependable() == (F::scratch_reliable() && out.stream().len()
                    <= F::scratch_capacity())
            },
    {
        let mut this = self;
        let data = this.read_to_end()?;
        let bytes = decode(format, data.as_slice())?;
        let ghost plain = bytes@;
        proof {
            assert(bytes@.len() == bytes.len());
        }
        let cache = DiskCacheReader::new(Layered::Decoded(MemorySource::new(bytes)))?;
        proof {
            assert(cache.stream() =~= plain);
        }
        let depth: usize = if this.depth < usize::MAX { this.depth + 1 } else { this.depth };
        Ok(Input { inner: Inner::Other(cache), ahead: Vec::new(), used: 0, depth })
    }

    /// Makes this input available as a file. An input that reads straight
    /// from a file gives up that file as it stands. Any other is drained
    /// from its cursor into a new store, which is handed over with its
    /// cursor at the start.
    pub fn into_file(self) -> (r: Result<F, IoError>)
        requires
            self.wf(),
        ensures
            self.is_file() ==> r is Ok,
            !self.is_file() && self.dependable() && F::scratch_reliable() && self.rest().len()
                <= F::scratch_capacity() ==> r is Ok,
            r matches Ok(file) ==> {
                &&& sound(&file)
                &&& self.is_file() ==> file.contents() == self.stream() && file.cursor()
                    == self.backing_cursor()
                &&& !self.is_file() ==> file.contents() == self.rest() && file.cursor() == 0
            },
    {
        let mut this = self;
        if this.is_direct() {
            return match this.inner {
                Inner::File(file, _) => Ok(file),
                Inner::Other(_) => vstd::pervasive::unreached(),
            };
        }
        let ghost stream = this.stream();
        let ghost from = this.cursor() as int;
        let mut file = F::scratch()?;
        let mut done = false;
        proof {
            if from <= stream.len() {
                assert(file.contents() =~= stream.subrange(from, from));
            }
        }
        while !done
            invariant
                !self.is_file(),
                this.follows(&self),
                stream == self.stream(),
                from == self.cursor(),
                sound(&file),
                file.reliable() == F::scratch_reliable(),
                file.capacity() == F::scratch_capacity(),
                file.cursor() == file.contents().len(),
                this.cursor() == from + file.contents().len(),
                file.contents().len() > 0 ==> from + file.contents().len() <= stream.len(),
                from <= stream.len() ==> file.contents() == stream.subrange(
                    from,
                    from + file.contents().len(),
                ),
                done ==> this.cursor() >= stream.len(),
            decreases
                    (if this.cursor() <= stream.len() {
                        stream.len() - this.cursor()
                    } else {
                        0
                    }) + (if done { 0int } else { 1int }),
        {
            let ghost held = file.contents();
            let chunk = this.read(CHUNK_SIZE)?;
            if chunk.len() == 0 {
                done = true;
            } else {
                proof {
                    crate::io::buffers::written_at_end(held, chunk@);
                }
                file.write_all(chunk.as_slice())?;
                proof {
                    assert(file.contents() =~= stream.subrange(
                        from,
                        from + held.len() + chunk@.len(),
                    ));
                }
            }
        }
        proof {
            if from <= stream.len() {
                assert(file.contents() =~= stream.skip(from));
            } else {
                assert(file.contents() =~= Seq::<u8>::empty());
            }
        }
        file.seek(SeekFrom::Start(0))?;
        Ok(file)
    }

    /// The path of the file that the input reads, where it is known: only
    /// an input that reads straight from a file has one.
    pub fn path(&self) -> (r: Option<&str>)
        ensures
            match r {
                Some(path) => self.source_path() == Some(path@),
                None => self.source_path() is None,
            },
    {
        match &self.inner {
            Inner::File(_, Some(path)) => Some(path.as_str()),
            _ => None,
        }
    }

    /// The number of decoders passed through is counted in a `usize`.
    pub proof fn lemma_layers_bounded(&self)
        ensures
            self.layers() <= usize::MAX,
    {
    }

    /// How many decoders this input has passed through.
    pub fn depth(&self) -> (r: usize)
        ensures
            r == self.layers(),
    {
        self.depth
    }

    /// Whether the input reads straight from a file.
    pub fn is_direct(&self) -> (r: bool)
        ensures
            r == self.is_file(),
    {
        match &self.inner {
            Inner::File(_, _) => true,
            Inner::Other(_) => false,
        }
    }
}

impl<H: ReadHandle> Input<H, H> {
    /// An input over `handle`, given how asking it to seek to its start
    /// ended. Where the seek succeeded (`sought` is `Ok`), the input reads
    /// straight from the handle, from where its cursor stands. Where it
    /// failed, the input reads what the handle has yet to deliver, behind a
    /// cache in a new store; that fails only where no new store can be had.
    pub fn from_probe(handle: H, sought: Result<u64, IoError>) -> (r: Result<Self, IoError>)
        requires
            sound(&handle),
        ensures
            sought is Ok || H::scratch_reliable() ==> r is Ok,
            r matches Ok(input) ==> {
                &&& input.wf()
                &&& input.layers() == 0
                &&& input.source_path() is None
                &&& input.is_file() == sought is Ok
                &&& sought is Ok ==> {
                    &&& input.stream() == handle.contents()
                    &&& input.cursor() == handle.cursor()
                    &&& input.dependable() == RandomAccess::reliable(&handle)
                }
                &&& sought is Err ==> {
                    &&& input.stream() == handle.remaining()
                    &&& input.cursor() == 0
                    &&& input.dependable() == (handle.reliable_source() && H::scratch_reliable()
                        && handle.remaining().len() <= H::scratch_capacity())
                }
            },
    {
        match sought {
            Ok(_) => Ok(Self::from_file(handle)),
            Err(_) => Self::from_reader(handle),
        }
    }

    /// An input over a handle that may or may not be able to seek, such as
    /// standard input. The handle is asked to seek to its start: where it
    /// can, the input reads straight from it, from the start; where it
    /// cannot, the input reads what the handle has yet to deliver, behind
    /// a cache in a new store. Which of the two it is, `from_probe` says.
    pub fn stdin(handle: H) -> (r: Result<Self, IoError>)
        requires
            sound(&handle),
        ensures
            RandomAccess::reliable(&handle) || H::scratch_reliable() ==> r is Ok,
            r matches Ok(input) ==> {
                &&& input.wf()
                &&& input.layers() == 0
                &&& input.source_path() is None
                &&& input.cursor() == 0
                &&& RandomAccess::reliable(&handle) ==> input.is_file()
                &&& input.is_file() ==> input.stream() == handle.contents()
                &&& !input.is_file() ==> input.stream() == rest_of(
                    handle.contents(),
                    handle.cursor(),
                )
            },
    {
        let mut file = handle;
        let sought = file.rewind();
        Self::from_probe(file, sought)
    }
}

/// Whether `path` stands for the standard input or output of the process
/// rather than for a file: the path `-` does.
pub fn is_standard_stream(path: &str) -> (r: bool)
    ensures
        r == (path@ == "-"@),
{
    crate::format::str_equals(path, "-")
}

} // verus!
