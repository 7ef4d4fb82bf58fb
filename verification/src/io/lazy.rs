//! A cache that gives a forward-only source a seek interface by keeping
//! every byte read from it in memory.

use vstd::prelude::*;
use vstd::slice::{slice_subrange, slice_to_vec};
use crate::error::{IoError, SeekFrom, offset_by};
use crate::io::device::{ByteSource, CHUNK_SIZE, is_read_of};
use crate::io::memory::{append_bytes, usize_fits_u64};

verus! {

/// Reads a forward-only source on demand and keeps what was read, so that
/// any position that was reached can be reached again.
pub struct LazyReader<R: ByteSource> {
    /// The source being read.
    inner: R,
    /// Every byte read from the source so far.
    buffer: Vec<u8>,
    /// Where the next read starts.
    pos: u64,
}

impl<R: ByteSource> LazyReader<R> {
    /// The cursor is beyond the buffered bytes only once the source is
    /// exhausted.
    pub closed spec fn wf(&self) -> bool {
        self.pos <= self.buffer@.len() || self.inner.remaining().len() == 0
    }

    /// The source, as it stands.
    pub closed spec fn source(&self) -> R {
        self.inner
    }

    /// The bytes read from the source so far.
    pub closed spec fn buffered(&self) -> Seq<u8> {
        self.buffer@
    }

    /// Where the next read starts.
    pub closed spec fn cursor(&self) -> nat {
        self.pos as nat
    }

    /// The whole stream: what is buffered, then what the source has yet to
    /// deliver. No operation changes it.
    pub open spec fn stream(&self) -> Seq<u8> {
        self.buffered() + self.source().remaining()
    }

    /// What a sound reader is: its cursor is beyond the buffered bytes only
    /// once the source is exhausted.
    pub proof fn lemma_wf(&self)
        requires
            self.wf(),
        ensures
            self.cursor() <= self.buffered().len() || self.source().remaining().len() == 0,
            self.source().remaining().len() == 0 ==> self.buffered() == self.stream(),
    {
        if self.source().remaining().len() == 0 {
            assert(self.buffered() =~= self.stream());
        }
    }

    /// `e` is the failure of the source, as it stands.
    pub open spec fn is_failure_of_source(&self, e: IoError) -> bool {
        &&& !self.source().reliable_source()
        &&& e == self.source().failure()
    }

    /// The number of buffered bytes at and after the cursor.
    pub open spec fn pending(&self) -> nat {
        if self.cursor() <= self.buffered().len() {
            (self.buffered().len() - self.cursor()) as nat
        } else {
            0
        }
    }

    /// `self` is sound and holds the stream that `before` held, with at
    /// least as much of it buffered, over a source that is as reliable.
    pub open spec fn follows(&self, before: &Self) -> bool {
        &&& self.wf()
        &&& self.stream() == before.stream()
        &&& self.buffered().len() >= before.buffered().len()
        &&& self.buffered() == before.stream().take(self.buffered().len() as int)
        &&& self.source().reliable_source() == before.source().reliable_source()
    }

    /// A reader over `reader` with nothing buffered and its cursor at the
    /// start.
    pub fn new(reader: R) -> (r: Self)
        ensures
            r.wf(),
            r.source() == reader,
            r.buffered() == Seq::<u8>::empty(),
            r.cursor() == 0,
    {
        LazyReader { inner: reader, buffer: Vec::new(), pos: 0 }
    }

    /// Takes one chunk from the source and buffers it. Returns its length,
    /// which is zero exactly when the source is exhausted.
    pub fn read_once(&mut self) -> (r: Result<usize, IoError>)
        requires
            old(self).wf(),
        ensures
            final(self).follows(old(self)),
            final(self).cursor() == old(self).cursor(),
            old(self).source().reliable_source() ==> r is Ok,
            match r {
                Ok(n) => {
                    &&& final(self).buffered().len() == old(self).buffered().len() + n
                    &&& n == 0 <==> old(self).source().remaining().len() == 0
                },
                Err(e) => final(self).buffered() == old(self).buffered() && final(self).is_failure_of_source(e),
            },
    {
        proof {
            assert(self.stream().take(self.buffered().len() as int) =~= self.buffered());
        }
        let ghost held = self.buffer@;
        let ghost rest = self.inner.remaining();
        let chunk = self.inner.pull(CHUNK_SIZE)?;
        append_bytes(&mut self.buffer, chunk.as_slice());
        proof {
            assert(rest =~= chunk@ + self.inner.remaining());
            assert(self.stream() =~= held + rest);
            assert((held + rest).take(self.buffer@.len() as int) =~= self.buffer@);
        }
        Ok(chunk.len())
    }

    /// The number of buffered bytes at and after the cursor.
    pub fn unread(&self) -> (r: usize)
        ensures
            r == self.pending(),
    {
        proof {
            usize_fits_u64();
        }
        let len: usize = self.buffer.len();
        if self.pos <= len as u64 {
            len - self.pos as usize
        } else {
            0
        }
    }

    /// Buffers everything the source has left. Returns how many bytes
    /// that was.
    pub fn fill_all(&mut self) -> (r: Result<usize, IoError>)
        requires
            old(self).wf(),
        ensures
            final(self).follows(old(self)),
            final(self).cursor() == old(self).cursor(),
            old(self).source().reliable_source() ==> r is Ok,
            r matches Err(e) ==> final(self).is_failure_of_source(e),
            r matches Ok(n) ==> {
                &&& n == old(self).source().remaining().len()
                &&& final(self).buffered() == old(self).stream()
                &&& final(self).source().remaining().len() == 0
            },
    {
        proof {
            assert(self.stream().take(self.buffered().len() as int) =~= self.buffered());
        }
        let before: usize = self.buffer.len();
        let mut done = false;
        while !done
            invariant
                self.follows(old(self)),
                self.cursor() == old(self).cursor(),
                before == old(self).buffered().len(),
                done ==> self.source().remaining().len() == 0,
            decreases self.source().remaining().len() + (if done { 0int } else { 1int }),
        {
            let ghost prior = *self;
            let n = self.read_once()?;
            proof {
                Self::lemma_follows_remaining(&prior, &*self);
            }
            if n == 0 {
                done = true;
            }
        }
        proof {
            assert(self.stream() =~= self.buffered());
        }
        Ok(self.buffer.len() - before)
    }

    /// The buffered bytes at and after the cursor, without moving the
    /// cursor. Where there are none, one chunk is first taken from the
    /// source. An empty result means the end of the stream.
    pub fn fill_buf(&mut self) -> (r: Result<&[u8], IoError>)
        requires
            old(self).wf(),
        ensures
            final(self).follows(old(self)),
            final(self).cursor() == old(self).cursor(),
            old(self).source().reliable_source() ==> r is Ok,
            old(self).pending() > 0 ==> final(self).source() == old(self).source()
                && final(self).buffered() == old(self).buffered() && r is Ok,
            r matches Err(e) ==> final(self).is_failure_of_source(e),
            r matches Ok(bytes) ==> {
                &&& bytes@.len() == final(self).pending()
                &&& bytes@ == old(self).stream().subrange(
                    old(self).cursor() as int,
                    old(self).cursor() + bytes@.len() as int,
                ) || bytes@.len() == 0
                &&& bytes@.len() == 0 ==> old(self).cursor() >= old(self).stream().len()
            },
    {
        proof {
            usize_fits_u64();
            assert(self.stream().take(self.buffered().len() as int) =~= self.buffered());
            if self.inner.remaining().len() == 0 {
                assert(self.stream() =~= self.buffered());
            }
        }
        if self.unread() == 0 {
            let ghost prior = *self;
            self.read_once()?;
            proof {
                Self::lemma_follows_remaining(&prior, &*self);
            }
        }
        let len: usize = self.buffer.len();
        let from: usize = if self.pos <= len as u64 { self.pos as usize } else { len };
        let bytes = slice_subrange(self.buffer.as_slice(), from, len);
        proof {
            if bytes@.len() > 0 {
                assert(bytes@ =~= old(self).stream().subrange(from as int, len as int));
            }
        }
        Ok(bytes)
    }

    /// Moves the cursor past `amt` of the buffered bytes in front of it,
    /// or past all of them where there are fewer.
    pub fn consume(&mut self, amt: usize)
        requires
            old(self).wf(),
        ensures
            final(self).wf(),
            final(self).source() == old(self).source(),
            final(self).buffered() == old(self).buffered(),
            final(self).cursor() == old(self).cursor() + if amt <= old(self).pending() {
                amt as nat
            } else {
                old(self).pending()
            },
    {
        proof {
            usize_fits_u64();
            assert(self.buffer@.len() == self.buffer.len());
        }
        let left = self.unread();
        let step: usize = if amt <= left { amt } else { left };
        self.pos = self.pos + step as u64;
    }

    /// Reads at most `max` bytes at the cursor and moves the cursor past
    /// them. An empty result for a non-zero `max` means the end of the
    /// stream.
    pub fn read(&mut self, max: usize) -> (r: Result<Vec<u8>, IoError>)
        requires
            old(self).wf(),
        ensures
            final(self).follows(old(self)),
            old(self).source().reliable_source() ==> r is Ok,
            old(self).pending() > 0 ==> final(self).source() == old(self).source()
                && final(self).buffered() == old(self).buffered() && r is Ok,
            match r {
                Ok(chunk) => {
                    &&& is_read_of(chunk@, old(self).stream(), old(self).cursor(), max as nat)
                    &&& final(self).cursor() == old(self).cursor() + chunk@.len()
                    // As many bytes as were asked for, or all that are
                    // buffered in front of the cursor where there are fewer.
                    &&& chunk@.len() == if max <= final(self).pending() + chunk@.len() {
                        max as nat
                    } else {
                        final(self).pending() + chunk@.len()
                    }
                    &&& old(self).pending() > 0 ==> final(self).pending() + chunk@.len() == old(
                        self,
                    ).pending()
                },
                Err(e) => final(self).cursor() == old(self).cursor() && final(self).is_failure_of_source(e),
            },
    {
        let ghost stream = self.stream();
        let chunk = {
            let bytes = self.fill_buf()?;
            let n: usize = if max <= bytes.len() { max } else { bytes.len() };
            slice_to_vec(slice_subrange(bytes, 0, n))
        };
        proof {
            if chunk@.len() > 0 {
                assert(chunk@ =~= stream.subrange(
                    old(self).cursor() as int,
                    old(self).cursor() + chunk@.len() as int,
                ));
            }
        }
        self.consume(chunk.len());
        Ok(chunk)
    }

    /// Moves the cursor and reports where it now stands.
    ///
    /// A seek to an absolute position, or one relative to the cursor, first
    /// buffers the stream up to the position asked for, or to its end where
    /// that comes first. A seek relative to the end first buffers the whole
    /// stream. A displacement of zero from the cursor only reports the
    /// position. A position before the start, or one that 64 bits cannot
    /// hold, is refused with `IoError::InvalidSeek` and leaves the cursor
    /// where it was.
    pub fn seek(&mut self, pos: SeekFrom) -> (r: Result<u64, IoError>)
        requires
            old(self).wf(),
        ensures
            final(self).follows(old(self)),
            old(self).source().reliable_source() ==> (r is Ok <==> pos.in_range(
                old(self).cursor(),
                old(self).stream().len(),
            )),
            old(self).source().reliable_source() && r is Err ==> r == Err::<u64, IoError>(
                IoError::InvalidSeek,
            ),
            pos == SeekFrom::Current(0) || (!(pos is End) && pos.target(old(self).cursor(), 0)
                <= old(self).buffered().len()) ==> final(self).source() == old(self).source()
                && final(self).buffered() == old(self).buffered(),
            match r {
                Ok(at) => {
                    &&& at == pos.target(old(self).cursor(), old(self).stream().len())
                    &&& final(self).cursor() == at
                    &&& final(self).buffered().len() >= at || final(self).source().remaining().len()
                        == 0
                    &&& pos is End ==> final(self).source().remaining().len() == 0
                    // Once the source is exhausted the whole stream is
                    // buffered.
                    &&& final(self).source().remaining().len() == 0 ==> final(self).buffered()
                        == old(self).stream()
                },
                Err(e) => {
                    &&& final(self).cursor() == old(self).cursor()
                    // A refusal of the position, or the failure of the
                    // source as it is.
                    &&& (e == IoError::InvalidSeek && !pos.in_range(
                        old(self).cursor(),
                        old(self).stream().len(),
                    )) || final(self).is_failure_of_source(e)
                },
            },
    {
        proof {
            usize_fits_u64();
            assert(self.stream().take(self.buffered().len() as int) =~= self.buffered());
        }
        match pos {
            SeekFrom::Start(start) => {
                self.fill_to(start)?;
                self.pos = start;
                Ok(start)
            },
            SeekFrom::Current(current) => {
                if current == 0 {
                    // Only report the position.
                    return Ok(self.pos);
                }
                match offset_by(self.pos, current) {
                    None => Err(IoError::InvalidSeek),
                    Some(target) => {
                        self.fill_to(target)?;
                        self.pos = target;
                        Ok(target)
                    },
                }
            },
            // The length is known only once the source is exhausted.
            SeekFrom::End(delta) => {
                self.fill_all()?;
                match offset_by(self.buffer.len() as u64, delta) {
                    None => Err(IoError::InvalidSeek),
                    Some(target) => {
                        self.pos = target;
                        Ok(target)
                    },
                }
            },
        }
    }

    /// Buffers more of the source until `target` bytes are buffered or the
    /// source is exhausted.
    fn fill_to(&mut self, target: u64) -> (r: Result<(), IoError>)
        requires
            old(self).wf(),
        ensures
            final(self).follows(old(self)),
            final(self).cursor() == old(self).cursor(),
            old(self).source().reliable_source() ==> r is Ok,
            target <= old(self).buffered().len() ==> final(self).source() == old(self).source()
                && final(self).buffered() == old(self).buffered(),
            r is Ok ==> final(self).buffered().len() >= target || final(self).source().remaining().len()
                == 0,
            r matches Err(e) ==> final(self).is_failure_of_source(e),
    {
        proof {
            usize_fits_u64();
            assert(self.stream().take(self.buffered().len() as int) =~= self.buffered());
        }
        let mut done = false;
        while !done && (self.buffer.len() as u64) < target
            invariant
                self.follows(old(self)),
                self.cursor() == old(self).cursor(),
                usize::MAX <= u64::MAX,
                target <= old(self).buffered().len() ==> self.source() == old(self).source()
                    && self.buffered() == old(self).buffered(),
                done ==> self.source().remaining().len() == 0,
            decreases self.source().remaining().len() + (if done { 0int } else { 1int }),
        {
            let ghost prior = *self;
            let n = self.read_once()?;
            proof {
                Self::lemma_follows_remaining(&prior, &*self);
            }
            if n == 0 {
                done = true;
            }
        }
        Ok(())
    }

    /// Between two states of which the later follows the earlier, the
    /// source has given up exactly what the buffer has gained.
    pub proof fn lemma_follows_remaining(before: &Self, after: &Self)
        requires
            after.follows(before),
        ensures
            ({
                let gained = after.buffered().len() - before.buffered().len();
                &&& gained <= before.source().remaining().len()
                &&& after.buffered() == before.buffered() + before.source().remaining().take(
                    gained,
                )
                &&& after.source().remaining() == before.source().remaining().skip(gained)
            }),
    {
        let gained = after.buffered().len() - before.buffered().len();
        let held = before.buffered().len() as int;
        let rest = before.source().remaining();
        let whole = before.stream();
        assert(whole.len() == after.buffered().len() + after.source().remaining().len());
        assert(after.buffered() =~= before.buffered() + rest.take(gained));
        assert forall|i: int| 0 <= i < after.source().remaining().len() implies after.source().remaining()[i]
            == rest.skip(gained)[i] by {
            assert(after.source().remaining()[i] == after.stream()[after.buffered().len() + i]);
            assert(whole[held + gained + i] == rest[gained + i]);
        }
        assert(after.source().remaining() =~= rest.skip(gained));
    }
}

} // verus!
