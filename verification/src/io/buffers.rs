//! Caches that give a forward-only device a seek interface by keeping every
//! byte that passed through it in a store.

use vstd::prelude::*;
use crate::error::{IoError, SeekFrom, offset_by};
use crate::io::device::{
    ByteSink, ByteSource, RandomAccess, CHUNK_SIZE, is_read_of, sound, written_at,
};
use crate::io::memory::append_bytes;

verus! {

/// Writing at the end of a store appends.
pub proof fn written_at_end(contents: Seq<u8>, data: Seq<u8>)
    ensures
        written_at(contents, contents.len(), data) == contents + data,
{
    assert(written_at(contents, contents.len(), data) =~= contents + data);
}

/// Gives a forward-only source a seek interface. Every byte taken from the
/// source is appended to a store; reads and seeks are served from the store
/// and reach for the source only when they go beyond what it holds.
pub struct DiskCacheReader<R: ByteSource, F: RandomAccess> {
    /// The source being cached.
    inner: R,
    /// The number of bytes the store holds.
    offset: u64,
    /// Where the bytes are kept.
    file: F,
    /// Set once the source has reported its end.
    eof: bool,
}

impl<R: ByteSource, F: RandomAccess> DiskCacheReader<R, F> {
    /// The source, as it stands.
    pub closed spec fn source(&self) -> R {
        self.inner
    }

    /// The store, as it stands.
    pub closed spec fn store(&self) -> F {
        self.file
    }

    /// Whether the source is known to be exhausted.
    pub closed spec fn at_eof(&self) -> bool {
        self.eof
    }

    /// The number of bytes that the cache takes the store to hold.
    pub closed spec fn cached_count(&self) -> nat {
        self.offset as nat
    }

    /// The bytes taken from the source so far.
    pub open spec fn cached(&self) -> Seq<u8> {
        self.store().contents()
    }

    /// Where the next read starts.
    pub open spec fn cursor(&self) -> nat {
        self.store().cursor()
    }

    /// The whole stream: what is cached, then what the source has yet to
    /// deliver. No operation that succeeds changes it.
    pub open spec fn stream(&self) -> Seq<u8> {
        self.store().contents() + self.source().remaining()
    }

    /// The store holds exactly what was taken from the source, an
    /// exhausted source has nothing left, and the cursor is beyond the
    /// cached bytes only once the source is exhausted.
    pub closed spec fn wf(&self) -> bool {
        &&& sound(&self.file)
        &&& self.offset == self.file.contents().len()
        &&& self.eof ==> self.inner.remaining().len() == 0
        &&& !self.eof ==> self.file.cursor() <= self.file.contents().len()
    }

    /// The devices are as reliable and as roomy as they were in `before`.
    pub open spec fn same_devices(&self, before: &Self) -> bool {
        &&& sound(&self.store())
        &&& self.source().reliable_source() == before.source().reliable_source()
        &&& self.store().reliable() == before.store().reliable()
        &&& self.store().capacity() == before.store().capacity()
    }

    /// What a failed operation leaves behind where the store is reliable:
    /// a cache that can still be used, with no byte of the stream lost
    /// unless the store ran out of room.
    pub open spec fn survives(&self, before: &Self) -> bool {
        &&& self.wf()
        &&& self.cached().len() >= before.cached().len()
        &&& before.stream().len() <= before.store().capacity() ==> self.stream()
            == before.stream()
    }

    /// The store is reliable and has room for the whole stream: whatever
    /// fails then, it is not the store.
    pub open spec fn sturdy(&self) -> bool {
        &&& self.store().reliable()
        &&& self.stream().len() <= self.store().capacity()
    }

    /// `e` is the failure of the source, as it stands.
    pub open spec fn is_failure_of_source(&self, e: IoError) -> bool {
        &&& !self.source().reliable_source()
        &&& e == self.source().failure()
    }

    /// What a sound cache is: its store is sound, a source that is known to
    /// be exhausted has nothing left, so that the cache holds the whole
    /// stream, and the cursor is beyond the cached bytes only once the
    /// source is exhausted.
    pub proof fn lemma_wf(&self)
        requires
            self.wf(),
        ensures
            sound(&self.store()),
            self.cached_count() == self.cached().len(),
            self.at_eof() ==> self.source().remaining().len() == 0,
            self.at_eof() ==> self.cached() == self.stream(),
            !self.at_eof() ==> self.cursor() <= self.cached().len(),
    {
        if self.at_eof() {
            assert(self.cached() =~= self.stream());
        }
    }

    /// Neither device fails of its own accord, and the store has room for
    /// the whole stream.
    pub open spec fn dependable(&self) -> bool {
        &&& self.source().reliable_source()
        &&& self.store().reliable()
        &&& self.stream().len() <= self.store().capacity()
    }

    /// Caches `reader` in a new store.
    pub fn new(reader: R) -> (r: Result<Self, IoError>)
        ensures
            F::scratch_reliable() ==> r is Ok,
            r matches Ok(cache) ==> {
                &&& cache.wf()
                &&& cache.source() == reader
                &&& cache.cached() == Seq::<u8>::empty()
                &&& cache.cursor() == 0
                &&& !cache.at_eof()
                &&& cache.store().reliable() == F::scratch_reliable()
                &&& cache.store().capacity() == F::scratch_capacity()
            },
    {
        let file = F::scratch()?;
        Ok(DiskCacheReader { inner: reader, offset: 0, file, eof: false })
    }

    /// Caches `reader` in `file`. Whatever `file` already holds counts as
    /// the head of the stream; the cursor starts at position 0.
    pub fn with_store(reader: R, file: F) -> (r: Result<Self, IoError>)
        requires
            sound(&file),
        ensures
            file.reliable() ==> r is Ok,
            r matches Ok(cache) ==> {
                &&& cache.wf()
                &&& cache.source() == reader
                &&& cache.cached() == file.contents()
                &&& cache.cursor() == 0
                &&& !cache.at_eof()
                &&& cache.store().reliable() == file.reliable()
                &&& cache.store().capacity() == file.capacity()
            },
    {
        let mut file = file;
        let offset = file.seek(SeekFrom::End(0))?;
        file.seek(SeekFrom::Start(0))?;
        Ok(DiskCacheReader { inner: reader, offset, file, eof: false })
    }

    /// Takes one chunk of at most `max` bytes from the source and appends
    /// it to the store, whose cursor must stand at the end; the cursor ends
    /// up behind the chunk. An empty chunk marks the source as exhausted.
    fn pull_once(&mut self, max: usize) -> (r: Result<Vec<u8>, IoError>)
        requires
            old(self).wf(),
            !old(self).at_eof(),
            old(self).cursor() == old(self).cached().len(),
            max > 0,
        ensures
            final(self).same_devices(old(self)),
            r is Err && old(self).store().reliable() ==> final(self).survives(old(self))
                && final(self).cursor() == old(self).cursor(),
            old(self).dependable() ==> r is Ok,
            r is Err && old(self).store().reliable() ==> final(self).cached() == old(
                self,
            ).cached(),
            old(self).sturdy() ==> (r matches Err(e) ==> final(self).is_failure_of_source(e)),
            match r {
                Ok(chunk) => {
                    &&& final(self).wf()
                    &&& final(self).stream() == old(self).stream()
                    &&& final(self).source().remaining() == old(self).source().remaining().skip(
                        chunk@.len() as int,
                    )
                    &&& final(self).cached() == old(self).cached() + chunk@
                    &&& final(self).cursor() == final(self).cached().len()
                    &&& is_read_of(chunk@, old(self).source().remaining(), 0, max as nat)
                    &&& final(self).at_eof() == (chunk@.len() == 0)
                },
                Err(_) => true,
            },
    {
        let pulled = self.inner.pull(max);
        proof {
            if pulled is Ok {
                let chunk = pulled->Ok_0;
                assert(old(self).source().remaining() =~= chunk@ + self.inner.remaining());
                assert(old(self).stream() =~= (self.file.contents() + chunk@)
                    + self.inner.remaining());
            }
        }
        self.absorb(pulled)
    }

    /// Takes in what the source gave when it was asked for a chunk. The
    /// store's cursor must stand at its end.
    ///
    /// A failure of the source is passed on as it is, and nothing changes.
    /// An empty chunk marks the source as exhausted. Any other chunk is
    /// appended to the store and handed back; where the store fails to
    /// take it the bytes are lost to the cache, and the failure of the
    /// store is the answer. The source is not touched.
    fn absorb(&mut self, pulled: Result<Vec<u8>, IoError>) -> (r: Result<Vec<u8>, IoError>)
        requires
            sound(&old(self).store()),
            old(self).cached_count() == old(self).cached().len(),
            old(self).cursor() == old(self).cached().len(),
        ensures
            final(self).source() == old(self).source(),
            final(self).same_devices(old(self)),
            final(self).cached_count() == final(self).cached().len() || (r is Err && !old(
                self,
            ).store().reliable()),
            match pulled {
                Err(e) => r == Err::<Vec<u8>, IoError>(e) && *final(self) == *old(self),
                Ok(chunk) => if chunk@.len() == 0 {
                    &&& r == Ok::<Vec<u8>, IoError>(chunk)
                    &&& final(self).at_eof()
                    &&& final(self).store() == old(self).store()
                } else {
                    &&& final(self).at_eof() == old(self).at_eof()
                    &&& old(self).store().reliable() ==> (r is Ok <==> old(self).cached().len()
                        + chunk@.len() <= old(self).store().capacity())
                    &&& r is Err && old(self).store().reliable() ==> final(self).cached() == old(
                        self,
                    ).cached() && final(self).cursor() == old(self).cursor()
                    &&& r is Ok ==> {
                        &&& r == Ok::<Vec<u8>, IoError>(chunk)
                        &&& final(self).cached() == old(self).cached() + chunk@
                        &&& final(self).cursor() == final(self).cached().len()
                    }
                },
            },
    {
        let chunk = pulled?;
        if chunk.len() == 0 {
            self.eof = true;
            return Ok(chunk);
        }
        proof {
            written_at_end(self.file.contents(), chunk@);
        }
        self.file.write_all(chunk.as_slice())?;
        self.offset = self.offset + chunk.len() as u64;
        Ok(chunk)
    }

    /// Takes chunks of at most `max` bytes from the source and appends them
    /// to the store, whose cursor must stand at the end. One chunk is always
    /// taken; more follow until the source is exhausted or, where `limit`
    /// is given, until that many bytes have been taken. Returns how many
    /// bytes were taken.
    fn read_inner(&mut self, max: usize, limit: Option<u64>) -> (r: Result<u64, IoError>)
        requires
            old(self).wf(),
            !old(self).at_eof(),
            old(self).cursor() == old(self).cached().len(),
            max > 0,
        ensures
            final(self).same_devices(old(self)),
            r is Err && old(self).store().reliable() ==> final(self).survives(old(self)),
            old(self).dependable() ==> r is Ok,
            old(self).sturdy() ==> (r matches Err(e) ==> final(self).is_failure_of_source(e)),
            match r {
                Ok(n) => {
                    &&& final(self).wf()
                    &&& final(self).stream() == old(self).stream()
                    &&& n <= old(self).source().remaining().len()
                    &&& final(self).cached() == old(self).cached() + old(
                        self,
                    ).source().remaining().take(n as int)
                    &&& final(self).cursor() == final(self).cached().len()
                    &&& final(self).at_eof() || (limit matches Some(t) && n >= t)
                    &&& final(self).at_eof() || n > 0
                    &&& limit matches Some(t) ==> n <= max || n < t + max
                },
                Err(_) => true,
            },
    {
        let mut read: u64 = 0;
        let mut done = false;
        let ghost start = self.file.contents();
        let ghost rest = self.inner.remaining();
        proof {
            assert(rest.take(0) =~= Seq::<u8>::empty());
            assert(start + rest.take(0) =~= start);
        }
        while !done
            invariant
                max > 0,
                start == old(self).cached(),
                rest == old(self).source().remaining(),
                self.wf(),
                self.same_devices(old(self)),
                self.stream() == old(self).stream(),
                read <= rest.len(),
                self.cached() == start + rest.take(read as int),
                self.source().remaining() == rest.skip(read as int),
                self.cursor() == self.cached().len(),
                !done ==> !self.at_eof(),
                done ==> self.at_eof() || (limit matches Some(t) && read >= t),
                done ==> self.at_eof() || read > 0,
                limit matches Some(t) ==> if done {
                    read <= max || read < t + max
                } else {
                    read == 0 || read < t
                },
            decreases self.source().remaining().len() + (if done { 0int } else { 1int }),
        {
            let ghost before = self.inner.remaining();
            let chunk = self.pull_once(max)?;
            proof {
                let k = chunk@.len() as int;
                assert(rest.take(read + k) =~= rest.take(read as int) + before.take(k));
                assert(rest.skip(read + k) =~= before.skip(k));
                assert(self.inner.remaining() =~= before.skip(k));
            }
            if chunk.len() == 0 {
                done = true;
            } else {
                read = read + chunk.len() as u64;
                done = match limit {
                    None => false,
                    Some(t) => read >= t,
                };
            }
        }
        self.file.flush()?;
        Ok(read)
    }

    /// Where the next read starts, as the store reports it.
    pub fn position(&mut self) -> (r: Result<u64, IoError>)
        requires
            old(self).wf(),
        ensures
            final(self).wf(),
            final(self).same_devices(old(self)),
            final(self).source() == old(self).source(),
            final(self).at_eof() == old(self).at_eof(),
            final(self).cached() == old(self).cached(),
            final(self).cursor() == old(self).cursor(),
            final(self).store().reliable() == old(self).store().reliable(),
            final(self).store().capacity() == old(self).store().capacity(),
            old(self).store().reliable() ==> r is Ok,
            r matches Ok(at) ==> at == old(self).cursor(),
    {
        self.file.seek(SeekFrom::Current(0))
    }

    /// Caches more of the source, in chunks of at most `CHUNK_SIZE` bytes,
    /// until the store holds `offset` bytes or the source is exhausted, and
    /// leaves the cursor where it was. Touches no device when that many
    /// bytes are cached already or the source is known to be exhausted.
    /// Returns how many bytes were added: less than one chunk beyond what
    /// was missing.
    pub fn fill_to_offset(&mut self, offset: u64) -> (r: Result<u64, IoError>)
        requires
            old(self).wf(),
        ensures
            final(self).same_devices(old(self)),
            r is Err && old(self).store().reliable() ==> final(self).survives(old(self))
                && final(self).cursor() == old(self).cursor(),
            old(self).dependable() ==> r is Ok,
            old(self).at_eof() || offset <= old(self).cached().len() ==> {
                &&& r == Ok::<u64, IoError>(0)
                &&& *final(self) == *old(self)
            },
            // A failure that is not the store's is the source's, as it is.
            old(self).sturdy() ==> (r matches Err(e) ==> final(self).is_failure_of_source(e)),
            match r {
                Ok(n) => {
                    &&& final(self).wf()
                    &&& final(self).stream() == old(self).stream()
                    &&& final(self).cursor() == old(self).cursor()
                    &&& n <= old(self).source().remaining().len()
                    &&& final(self).cached() == old(self).cached() + old(
                        self,
                    ).source().remaining().take(n as int)
                    &&& final(self).cached().len() >= offset || final(self).at_eof()
                    // At the end the cache holds the whole stream: a short
                    // fill has taken all that the source had.
                    &&& final(self).at_eof() ==> final(self).cached() == old(self).stream() && n
                        == old(self).source().remaining().len()
                    &&& n > 0 ==> n < offset - old(self).cached().len() + CHUNK_SIZE
                    &&& old(self).at_eof() ==> final(self).at_eof()
                },
                Err(_) => true,
            },
    {
        if self.eof || offset <= self.offset {
            proof {
                assert(self.inner.remaining().take(0) =~= Seq::<u8>::empty());
                assert(self.cached() + Seq::<u8>::empty() =~= self.cached());
            }
            return Ok(0);
        }
        // Remember where the cursor stands, then go to the end to append.
        let previous_pos = self.position()?;
        self.file.seek(SeekFrom::End(0))?;

        let target: u64 = offset - self.offset;
        let result = self.read_inner(CHUNK_SIZE, Some(target));

        // Put the cursor back, whether or not the source could be read.
        self.file.seek(SeekFrom::Start(previous_pos))?;
        result
    }

    /// Reads at most `max` bytes at the cursor and moves the cursor past
    /// them. Bytes that are cached come from the store; at the end of the
    /// cache one chunk is taken from the source, cached and returned. An
    /// empty result for a non-zero `max` means the end of the stream.
    pub fn read(&mut self, max: usize) -> (r: Result<Vec<u8>, IoError>)
        requires
            old(self).wf(),
        ensures
            final(self).same_devices(old(self)),
            r is Err && old(self).store().reliable() ==> final(self).survives(old(self))
                && final(self).cursor() == old(self).cursor(),
            old(self).dependable() ==> r is Ok,
            // What is served by the store alone: the source is left alone,
            // and a reliable store does not fail.
            old(self).at_eof() || old(self).cursor() < old(self).cached().len() || max == 0
                ==> final(self).source() == old(self).source() && final(self).cached() == old(
                self,
            ).cached() && final(self).at_eof() == old(self).at_eof() && (old(
                self,
            ).store().reliable() ==> r is Ok),
            // A failure that is not the store's is the source's, as it is.
            old(self).sturdy() ==> (r matches Err(e) ==> final(self).is_failure_of_source(e)),
            match r {
                Ok(chunk) => {
                    &&& final(self).wf()
                    &&& final(self).stream() == old(self).stream()
                    &&& is_read_of(chunk@, old(self).stream(), old(self).cursor(), max as nat)
                    &&& final(self).cursor() == old(self).cursor() + chunk@.len()
                    &&& final(self).cached().len() >= old(self).cached().len()
                    &&& final(self).cached() == old(self).stream().take(
                        final(self).cached().len() as int,
                    )
                    &&& final(self).cached().len() == old(self).cached().len() || final(self).cached().len() == old(self).cached().len() + chunk@.len()
                    // A read inside the cache ends inside the cache.
                    &&& old(self).cursor() < old(self).cached().len() ==> old(self).cursor()
                        + chunk@.len() <= old(self).cached().len()
                    &&& final(self).at_eof() ==> final(self).cached() == old(self).stream()
                    &&& old(self).at_eof() ==> final(self).at_eof()
                },
                Err(_) => true,
            },
    {
        proof {
            assert(self.stream().take(self.cached().len() as int) =~= self.cached());
        }
        if max == 0 {
            return Ok(Vec::new());
        }
        let ghost stream = self.stream();
        let chunk = self.file.read(max)?;
        if chunk.len() == 0 && !self.eof {
            // Nothing cached at the cursor: advance the source.
            let pulled = self.pull_once(max)?;
            proof {
                let k = pulled@.len() as int;
                let at = old(self).cursor() as int;
                if k > 0 {
                    assert(pulled@ =~= stream.subrange(at, at + k));
                }
                assert(stream.take(self.cached().len() as int) =~= self.cached());
            }
            Ok(pulled)
        } else {
            proof {
                let k = chunk@.len() as int;
                let at = old(self).cursor() as int;
                if k > 0 {
                    assert(chunk@ =~= stream.subrange(at, at + k));
                }
            }
            Ok(chunk)
        }
    }

    /// Moves the cursor and reports where it now stands.
    ///
    /// A seek to an absolute position, or one relative to the cursor, first
    /// caches the stream up to the position asked for, or to its end where
    /// that comes first; a position within the cached bytes is reached
    /// without touching the source, and so is any position once the source
    /// is exhausted. A seek relative to the end first caches the whole
    /// stream. A displacement of zero from the cursor only reports the
    /// position. A position before the start, or one that 64 bits cannot
    /// hold, is refused with `IoError::InvalidSeek`.
    pub fn seek(&mut self, pos: SeekFrom) -> (r: Result<u64, IoError>)
        requires
            old(self).wf(),
        ensures
            final(self).same_devices(old(self)),
            r is Err && old(self).store().reliable() ==> final(self).survives(old(self))
                && final(self).cursor() == old(self).cursor(),
            old(self).dependable() ==> (r is Ok <==> pos.in_range(
                old(self).cursor(),
                old(self).stream().len(),
            )),
            old(self).dependable() && r is Err ==> r == Err::<u64, IoError>(IoError::InvalidSeek),
            // What leaves the source alone: a seek once the end was seen, a
            // query of the position, a seek into what is cached, and a seek
            // from the cursor to a position that does not exist. The cache
            // and the end flag are then as they were, and a reliable store
            // alone decides: the seek fails exactly when the position does
            // not exist, with `InvalidSeek`.
            old(self).at_eof() || pos == SeekFrom::Current(0) || (!(pos is End) && pos.target(
                old(self).cursor(),
                0,
            ) <= old(self).cached().len()) || (pos is Current && !pos.in_range(
                old(self).cursor(),
                0,
            )) ==> {
                &&& final(self).source() == old(self).source()
                &&& final(self).cached() == old(self).cached()
                &&& final(self).at_eof() == old(self).at_eof()
                &&& old(self).store().reliable() ==> (r is Ok <==> pos.in_range(
                    old(self).cursor(),
                    old(self).stream().len(),
                ))
                &&& old(self).store().reliable() && r is Err ==> r == Err::<u64, IoError>(
                    IoError::InvalidSeek,
                )
            },
            // A failure that is not the store's is a refusal of the
            // position or the failure of the source, as it is.
            old(self).sturdy() ==> (r matches Err(e) ==> (e == IoError::InvalidSeek
                && !pos.in_range(old(self).cursor(), old(self).stream().len())) || final(self).is_failure_of_source(e)),
            match r {
                Ok(at) => {
                    &&& final(self).wf()
                    &&& final(self).stream() == old(self).stream()
                    &&& at == pos.target(old(self).cursor(), old(self).stream().len())
                    &&& final(self).cursor() == at
                    &&& final(self).cached().len() >= old(self).cached().len()
                    &&& final(self).cached() == old(self).stream().take(
                        final(self).cached().len() as int,
                    )
                    &&& final(self).cached().len() >= at || final(self).at_eof()
                    &&& pos is End ==> final(self).at_eof()
                    // At the end the cache holds the whole stream.
                    &&& final(self).at_eof() ==> final(self).cached() == old(self).stream()
                    &&& old(self).at_eof() ==> final(self).at_eof()
                },
                Err(_) => true,
            },
    {
        proof {
            assert(self.stream().take(self.cached().len() as int) =~= self.cached());
            if self.eof {
                assert(self.stream() =~= self.cached());
            }
        }
        let ghost stream = self.stream();
        match pos {
            // Go to an absolute position, caching up to it first.
            SeekFrom::Start(start) => {
                self.fill_to_offset(start)?;
                proof {
                    assert(stream.take(self.cached().len() as int) =~= self.cached());
                }
                self.file.seek(pos)
            },
            // Go to a position relative to the cursor: work out the
            // absolute position, then do as above.
            SeekFrom::Current(relative) => {
                if relative == 0 {
                    // Only report the position.
                    return self.file.seek(pos);
                }
                let current_pos = self.position()?;
                match offset_by(current_pos, relative) {
                    None => Err(IoError::InvalidSeek),
                    Some(target) => {
                        self.fill_to_offset(target)?;
                        proof {
                            assert(stream.take(self.cached().len() as int) =~= self.cached());
                        }
                        self.file.seek(pos)
                    },
                }
            },
            // The length is known only once the source is exhausted.
            SeekFrom::End(delta) => {
                if !self.eof {
                    let previous_pos = self.position()?;
                    self.file.seek(SeekFrom::End(0))?;
                    let result = self.read_inner(CHUNK_SIZE, None);
                    // Put the cursor back, whether or not the source could
                    // be read.
                    self.file.seek(SeekFrom::Start(previous_pos))?;
                    result?;
                }
                proof {
                    assert(self.stream() =~= self.cached());
                    assert(stream.take(self.cached().len() as int) =~= self.cached());
                }
                match offset_by(self.offset, delta) {
                    None => Err(IoError::InvalidSeek),
                    Some(_) => self.file.seek(pos),
                }
            },
        }
    }

    /// Reads the `len` bytes that start at position `start`, or as many of
    /// them as the stream holds, whatever was read or sought before.
    pub fn read_at(&mut self, start: u64, len: usize) -> (r: Result<Vec<u8>, IoError>)
        requires
            old(self).wf(),
        ensures
            final(self).same_devices(old(self)),
            r is Err && old(self).store().reliable() ==> final(self).survives(old(self)),
            old(self).dependable() ==> r is Ok,
            // A failure that is not the store's is the failure of the
            // source, as it is.
            old(self).sturdy() ==> (r matches Err(e) ==> final(self).is_failure_of_source(e)),
            match r {
                Ok(bytes) => {
                    let total = old(self).stream().len() as int;
                    let from = if start <= total { start as int } else { total };
                    let to = if start + len <= total { start + len } else { total };
                    &&& final(self).wf()
                    &&& final(self).stream() == old(self).stream()
                    &&& bytes@ == old(self).stream().subrange(from, to)
                    &&& final(self).cursor() == start + bytes@.len()
                },
                Err(_) => true,
            },
    {
        let ghost stream = self.stream();
        let ghost total = stream.len() as int;
        self.seek(SeekFrom::Start(start))?;
        let mut out: Vec<u8> = Vec::new();
        let mut done = false;
        proof {
            assert(out@ =~= stream.subrange(
                if start <= total { start as int } else { total },
                if start <= total { start as int } else { total },
            ));
        }
        while !done
            invariant
                self.wf(),
                self.same_devices(old(self)),
                stream == old(self).stream(),
                total == stream.len(),
                self.stream() == stream,
                self.cached().len() >= old(self).cached().len(),
                out@.len() <= len,
                self.cursor() == start + out@.len(),
                start + out@.len() <= total || out@.len() == 0,
                out@ == stream.subrange(
                    if start <= total { start as int } else { total },
                    if start <= total { start + out@.len() } else { total },
                ),
                done ==> out@.len() == len || start + out@.len() >= total,
            decreases len - out@.len() + (if done { 0int } else { 1int }),
        {
            if out.len() >= len {
                done = true;
            } else {
                let ghost before = out@;
                let chunk = self.read(len - out.len())?;
                if chunk.len() == 0 {
                    done = true;
                } else {
                    append_bytes(&mut out, chunk.as_slice());
                    proof {
                        let at = start + before.len();
                        assert(out@ =~= stream.subrange(start as int, at + chunk@.len()));
                    }
                }
            }
        }
        Ok(out)
    }

    /// No byte is taken from the source twice and none is skipped: between
    /// two states of a cache over one stream, what the store has gained is
    /// exactly what the source has given up, in order.
    pub proof fn lemma_consumed_once(before: &Self, after: &Self)
        requires
            after.stream() == before.stream(),
            after.cached().len() >= before.cached().len(),
        ensures
            ({
                let gained = after.cached().len() - before.cached().len();
                &&& gained <= before.source().remaining().len()
                &&& after.cached() == before.cached() + before.source().remaining().take(gained)
                &&& after.source().remaining() == before.source().remaining().skip(gained)
            }),
    {
        let gained = after.cached().len() - before.cached().len();
        let held = before.cached().len() as int;
        let rest = before.source().remaining();
        let whole = before.stream();
        assert(whole.len() == after.cached().len() + after.source().remaining().len());
        assert forall|i: int| 0 <= i < after.cached().len() implies after.cached()[i] == (
        before.cached() + rest.take(gained))[i] by {
            assert(after.cached()[i] == after.stream()[i]);
            assert(whole[i] == (before.cached() + rest)[i]);
        }
        assert(after.cached() =~= before.cached() + rest.take(gained));
        assert forall|i: int| 0 <= i < after.source().remaining().len() implies after.source().remaining()[i]
            == rest.skip(gained)[i] by {
            assert(after.source().remaining()[i] == after.stream()[after.cached().len() + i]);
            assert(whole[held + gained + i] == rest[gained + i]);
        }
        assert(after.source().remaining() =~= rest.skip(gained));
    }

    /// The number of bytes cached so far.
    pub fn cached_len(&self) -> (r: u64)
        requires
            self.wf(),
        ensures
            r == self.cached().len(),
    {
        self.offset
    }

    /// Whether the source is known to be exhausted.
    pub fn is_eof(&self) -> (r: bool)
        ensures
            r == self.at_eof(),
    {
        self.eof
    }

    /// The source being cached.
    pub fn get_ref(&self) -> (r: &R)
        ensures
            *r == self.source(),
    {
        &self.inner
    }

    /// The store that holds the cached bytes.
    pub fn get_store(&self) -> (r: &F)
        ensures
            *r == self.store(),
    {
        &self.file
    }
}

/// Gives a forward-only sink a seek interface. Writes and seeks touch only
/// a store; a flush passes what the store has gained to the sink, in order.
pub struct DiskCacheWriter<W: ByteSink, F: RandomAccess> {
    /// The sink being written to.
    inner: W,
    /// The number of bytes of the store that have been passed to the sink.
    offset: u64,
    /// Where the bytes are kept.
    file: F,
}

impl<W: ByteSink, F: RandomAccess> DiskCacheWriter<W, F> {
    /// The sink, as it stands.
    pub closed spec fn sink(&self) -> W {
        self.inner
    }

    /// The store, as it stands.
    pub closed spec fn store(&self) -> F {
        self.file
    }

    /// How many bytes of the store have been passed to the sink.
    pub closed spec fn flushed(&self) -> nat {
        self.offset as nat
    }

    /// The bytes this cache has passed to the sink: the last `flushed()`
    /// bytes that the sink accepted.
    pub open spec fn emitted(&self) -> Seq<u8> {
        self.sink().accepted().skip(self.sink().accepted().len() - self.flushed())
    }

    /// The store is sound, and what counts as flushed exists both in the
    /// store and in the sink.
    pub open spec fn wf(&self) -> bool {
        &&& sound(&self.store())
        &&& self.flushed() <= self.store().contents().len()
        &&& self.flushed() <= self.sink().accepted().len()
    }

    /// The sink has seen exactly the head of the store, in order: what was
    /// passed to it is the first `flushed()` bytes that the store holds.
    pub open spec fn synced(&self) -> bool {
        self.emitted() == self.store().contents().take(self.flushed() as int)
    }

    /// The devices are as reliable and as roomy as they were in `before`.
    pub open spec fn same_devices(&self, before: &Self) -> bool {
        &&& sound(&self.store())
        &&& self.sink().reliable_sink() == before.sink().reliable_sink()
        &&& self.store().reliable() == before.store().reliable()
        &&& self.store().capacity() == before.store().capacity()
    }

    /// Where a flush that starts in this state stops: at the cursor, or at
    /// the end of the store where the cursor is beyond it, and never before
    /// what is flushed already.
    pub open spec fn flush_end(&self) -> nat {
        let len = self.store().contents().len();
        let upto = if self.store().cursor() <= len { self.store().cursor() } else { len };
        if upto >= self.flushed() { upto } else { self.flushed() }
    }

    /// What a write of `buf` that ended in `r` has made of `before`: on
    /// success the store holds `buf` at the place where its cursor stood,
    /// and the cursor stands behind it; the sink is as it was. The sink
    /// stays in step with the store unless the write started inside what
    /// was flushed. A reliable store fails exactly when it lacks the room,
    /// and is then unchanged.
    pub open spec fn after_write(&self, before: &Self, buf: Seq<u8>, r: Result<usize, IoError>) -> bool {
        &&& self.same_devices(before)
        &&& self.sink() == before.sink()
        &&& self.flushed() == before.flushed()
        &&& before.store().reliable() ==> (r is Ok <==> before.store().cursor() + buf.len()
            <= before.store().capacity())
        &&& r is Err && before.store().reliable() ==> self.store().contents()
            == before.store().contents() && self.store().cursor() == before.store().cursor()
        &&& r matches Ok(n) ==> {
            &&& n == buf.len()
            &&& self.wf()
            &&& self.store().contents() == written_at(
                before.store().contents(),
                before.store().cursor(),
                buf,
            )
            &&& self.store().cursor() == before.store().cursor() + buf.len()
            &&& before.synced() && before.store().cursor() >= before.flushed() ==> self.synced()
        }
    }

    /// What a seek to `pos` that ended in `r` has made of `before`: only
    /// the cursor of the store has moved, and only on success. A reliable
    /// store fails exactly when the position asked for is negative or
    /// beyond 64 bits.
    pub open spec fn after_seek(&self, before: &Self, pos: SeekFrom, r: Result<u64, IoError>) -> bool {
        &&& self.same_devices(before)
        &&& self.wf()
        &&& self.sink() == before.sink()
        &&& self.flushed() == before.flushed()
        &&& self.store().contents() == before.store().contents()
        &&& self.synced() == before.synced()
        &&& before.store().reliable() ==> (r is Ok <==> pos.in_range(
            before.store().cursor(),
            before.store().contents().len(),
        ))
        &&& match r {
            Ok(at) => {
                &&& at == pos.target(before.store().cursor(), before.store().contents().len())
                &&& self.store().cursor() == at
            },
            Err(_) => self.store().cursor() == before.store().cursor(),
        }
    }

    /// What a flush has made of `before`: the store holds what it held,
    /// and the sink has lost nothing of what it had accepted. Where the
    /// flush succeeded (`ok`), the sink has gained, in order, the bytes of
    /// the store from the flushed offset to where the flush ends, holds
    /// back none of them, and is in step with the store if it was.
    /// Reliable devices never fail.
    pub open spec fn after_flush(&self, before: &Self, ok: bool) -> bool {
        &&& self.same_devices(before)
        &&& self.store().contents() == before.store().contents()
        &&& before.store().reliable() ==> self.store().cursor() == before.store().cursor()
        &&& before.sink().reliable_sink() && before.store().reliable() ==> ok
        &&& self.flushed() >= before.flushed()
        &&& self.sink().accepted().len() >= before.sink().accepted().len()
        &&& self.sink().accepted().take(before.sink().accepted().len() as int)
            == before.sink().accepted()
        &&& ok ==> {
            &&& self.wf()
            &&& self.flushed() == before.flush_end()
            &&& self.sink().accepted() == before.sink().accepted()
                + before.store().contents().subrange(
                before.flushed() as int,
                before.flush_end() as int,
            )
            &&& self.sink().settled()
            &&& before.synced() ==> self.synced()
        }
    }

    /// Caches writes to `writer` in a new store.
    pub fn new(writer: W) -> (r: Result<Self, IoError>)
        ensures
            F::scratch_reliable() ==> r is Ok,
            r matches Ok(cache) ==> {
                &&& cache.wf()
                &&& cache.synced()
                &&& cache.sink() == writer
                &&& cache.flushed() == 0
                &&& cache.store().contents() == Seq::<u8>::empty()
                &&& cache.store().cursor() == 0
                &&& cache.store().reliable() == F::scratch_reliable()
                &&& cache.store().capacity() == F::scratch_capacity()
            },
    {
        let file = F::scratch()?;
        Ok(Self::with_store(writer, file))
    }

    /// Caches writes to `writer` in `file`. Nothing counts as flushed yet:
    /// whatever `file` already holds will be passed on by a flush that
    /// reaches it.
    pub fn with_store(writer: W, file: F) -> (r: Self)
        requires
            sound(&file),
        ensures
            r.wf(),
            r.synced(),
            r.sink() == writer,
            r.store() == file,
            r.flushed() == 0,
    {
        let r = DiskCacheWriter { inner: writer, offset: 0, file };
        proof {
            assert(r.emitted() =~= r.store().contents().take(0));
        }
        r
    }

    /// Writes all of `buf` to the store at its cursor and reports how many
    /// bytes were written. The sink is not touched. The sink stays in step
    /// with the store unless the write starts inside what was flushed.
    pub fn write(&mut self, buf: &[u8]) -> (r: Result<usize, IoError>)
        requires
            old(self).wf(),
        ensures
            final(self).after_write(old(self), buf@, r),
    {
        let ghost before = self.file.contents();
        let ghost at = self.file.cursor();
        self.file.write_all(buf)?;
        proof {
            let after = written_at(before, at, buf@);
            assert(after.len() >= before.len());
            if at >= self.offset {
                assert(after.take(self.offset as int) =~= before.take(self.offset as int));
            }
        }
        Ok(buf.len())
    }

    /// Moves the cursor of the store and reports where it now stands. The
    /// sink is not touched.
    pub fn seek(&mut self, pos: SeekFrom) -> (r: Result<u64, IoError>)
        requires
            old(self).wf(),
        ensures
            final(self).after_seek(old(self), pos, r),
    {
        self.file.seek(pos)
    }

    /// Passes to the sink, in order, the bytes of the store from the
    /// flushed offset up to the cursor, and leaves the cursor where it was.
    /// The sink never loses what it accepted.
    pub fn flush(&mut self) -> (r: Result<(), IoError>)
        requires
            old(self).wf(),
        ensures
            final(self).after_flush(old(self), r is Ok),
    {
        let ghost contents = self.file.contents();
        let ghost accepted = self.inner.accepted();
        let ghost start = self.offset as int;
        proof {
            assert(accepted.take(accepted.len() as int) =~= accepted);
        }
        self.file.flush()?;

        // Remember where the cursor stands.
        let pos = self.file.seek(SeekFrom::Current(0))?;

        // Go to the last byte that reached the sink.
        self.file.seek(SeekFrom::Start(self.offset))?;

        // Pass on everything between there and the cursor.
        let mut failure: Option<IoError> = None;
        let mut done = false;
        proof {
            assert(contents.subrange(start, start) =~= Seq::<u8>::empty());
            assert(accepted + Seq::<u8>::empty() =~= accepted);
        }
        while !done
            invariant
                self.same_devices(old(self)),
                self.store().contents() == contents,
                contents == old(self).store().contents(),
                accepted == old(self).sink().accepted(),
                start == old(self).flushed(),
                pos == old(self).store().cursor(),
                start <= self.offset <= contents.len(),
                done || self.store().cursor() == self.offset,
                self.sink().accepted().len() >= accepted.len(),
                self.sink().accepted().take(accepted.len() as int) == accepted,
                failure is None ==> self.sink().accepted() == accepted + contents.subrange(
                    start,
                    self.offset as int,
                ),
                failure is Some ==> done,
                failure is Some ==> !old(self).sink().reliable_sink() || !old(self).store().reliable(),
                done && failure is None ==> self.offset == old(self).flush_end(),
                !done ==> self.offset <= old(self).flush_end(),
            decreases contents.len() - self.offset + (if done { 0int } else { 1int }),
        {
            if self.offset >= pos {
                done = true;
            } else {
                let left: u64 = pos - self.offset;
                let want: usize = if left < CHUNK_SIZE as u64 {
                    left as usize
                } else {
                    CHUNK_SIZE
                };
                match self.file.read(want) {
                    Err(e) => {
                        failure = Some(e);
                        done = true;
                    },
                    Ok(chunk) => {
                        if chunk.len() == 0 {
                            done = true;
                        } else {
                            let ghost sent = self.inner.accepted();
                            match self.inner.push(chunk.as_slice()) {
                                Err(e) => {
                                    proof {
                                        let got = self.inner.accepted();
                                        assert(got.take(accepted.len() as int) =~= sent.take(
                                            accepted.len() as int,
                                        ));
                                    }
                                    failure = Some(e);
                                    done = true;
                                },
                                Ok(()) => {
                                    proof {
                                        let got = self.inner.accepted();
                                        assert(got.take(accepted.len() as int) =~= sent.take(
                                            accepted.len() as int,
                                        ));
                                        assert(contents.subrange(
                                            start,
                                            self.offset + chunk@.len(),
                                        ) =~= contents.subrange(start, self.offset as int)
                                            + chunk@);
                                    }
                                    self.offset = self.offset + chunk.len() as u64;
                                },
                            }
                        }
                    },
                }
            }
        }
        let flushed = self.inner.flush();

        // Put the cursor back, whatever became of the copy.
        self.file.seek(SeekFrom::Start(pos))?;
        match failure {
            Some(e) => Err(e),
            None => {
                flushed?;
                proof {
                    let end = self.offset as int;
                    let now = self.inner.accepted();
                    assert(now.skip(now.len() - end) =~= (accepted.skip(accepted.len() - start)
                        + contents.subrange(start, end)));
                    if old(self).synced() {
                        assert(contents.take(end) =~= contents.take(start) + contents.subrange(
                            start,
                            end,
                        ));
                    }
                }
                Ok(())
            },
        }
    }

    /// Gives up the cache: passes every byte of the store that the sink
    /// has not seen to the sink, as far as the devices allow, asks the sink
    /// to pass them on, and hands the sink back. Failures are not
    /// reported.
    pub fn release(self) -> (r: W)
        requires
            self.wf(),
        ensures
            r.reliable_sink() == self.sink().reliable_sink(),
            r.accepted().len() >= self.sink().accepted().len(),
            r.accepted().take(self.sink().accepted().len() as int) == self.sink().accepted(),
            self.sink().reliable_sink() && self.store().reliable() ==> r.accepted()
                == self.sink().accepted() + self.store().contents().skip(self.flushed() as int),
            self.sink().reliable_sink() && self.store().reliable() ==> r.settled(),
    {
        let mut this = self;
        proof {
            assert(this.inner.accepted().take(this.inner.accepted().len() as int)
                =~= this.inner.accepted());
        }
        match this.file.seek(SeekFrom::End(0)) {
            Ok(_) => {
                let _ = this.flush();
                proof {
                    let contents = self.store().contents();
                    assert(contents.subrange(self.flushed() as int, contents.len() as int)
                        =~= contents.skip(self.flushed() as int));
                }
            },
            Err(_) => {},
        }
        this.inner
    }

    /// Writing, seeking and flushing keep the sink in step with the store,
    /// as long as no write starts inside what was flushed: after such a
    /// step what the sink has been passed is still a prefix of what the
    /// store holds, and the sink has lost nothing of what it had accepted.
    pub proof fn lemma_step_keeps_order(
        before: &Self,
        after: &Self,
        buf: Seq<u8>,
        wrote: Result<usize, IoError>,
        pos: SeekFrom,
        sought: Result<u64, IoError>,
    )
        requires
            before.wf(),
            before.synced(),
            ({
                ||| after.after_write(before, buf, wrote) && wrote is Ok
                    && before.store().cursor() >= before.flushed()
                ||| after.after_seek(before, pos, sought)
                ||| after.after_flush(before, true)
            }),
        ensures
            after.wf(),
            after.synced(),
            after.emitted().is_prefix_of(after.store().contents()),
            before.sink().accepted().is_prefix_of(after.sink().accepted()),
    {
        after.lemma_sink_sees_prefix();
        if after.after_flush(before, true) {
            assert(after.sink().accepted().take(before.sink().accepted().len() as int)
                == before.sink().accepted());
        }
    }

    /// While the sink is in step with the store, what it has been passed
    /// is a prefix of what the store holds: the same bytes in the same
    /// order, with none missing in between.
    pub proof fn lemma_sink_sees_prefix(&self)
        requires
            self.wf(),
            self.synced(),
        ensures
            self.emitted().is_prefix_of(self.store().contents()),
            self.emitted().len() == self.flushed(),
    {
        assert(self.emitted() =~= self.store().contents().subrange(0, self.flushed() as int));
    }

    /// The number of bytes passed to the sink so far.
    pub fn flushed_len(&self) -> (r: u64)
        ensures
            r == self.flushed(),
    {
        self.offset
    }

    /// The sink being written to.
    pub fn get_ref(&self) -> (r: &W)
        ensures
            *r == self.sink(),
    {
        &self.inner
    }

    /// The store that holds the written bytes.
    pub fn get_store(&self) -> (r: &F)
        ensures
            *r == self.store(),
    {
        &self.file
    }
}

} // verus!
