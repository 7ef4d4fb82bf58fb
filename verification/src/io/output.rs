//! The write side: one stream type over a real file or a cached
//! forward-only sink, so that a writer can go back and patch what it wrote.

use vstd::prelude::*;
use crate::error::{IoError, SeekFrom};
use crate::io::buffers::DiskCacheWriter;
use crate::io::device::{ByteSink, RandomAccess, WriteHandle, sound, written_at};

verus! {

/// The two forms an output takes. Which one is chosen when the output is
/// made and never changes.
enum Inner<W: ByteSink, F: RandomAccess> {
    /// A file that can seek by itself, and the path it was created at.
    Direct(F, Option<String>),
    /// A sink that cannot, behind a cache that can.
    Cached(DiskCacheWriter<W, F>),
}

/// An output stream that can be written, flushed and sought, whether or
/// not what it writes to can seek.
pub struct Output<W: ByteSink, F: RandomAccess>(Inner<W, F>);

impl<W: ByteSink, F: RandomAccess> Output<W, F> {
    /// The file that the output writes straight to, where it does.
    pub closed spec fn file(&self) -> Option<F> {
        match self.0 {
            Inner::Direct(file, _) => Some(file),
            Inner::Cached(_) => None,
        }
    }

    /// The cache in front of the sink, where there is one.
    pub closed spec fn cache(&self) -> Option<DiskCacheWriter<W, F>> {
        match self.0 {
            Inner::Direct(_, _) => None,
            Inner::Cached(cache) => Some(cache),
        }
    }

    /// Whether the output writes straight to a file.
    pub open spec fn is_file(&self) -> bool {
        self.cache() is None
    }

    /// The store that writes and seeks go to: the file itself, or the
    /// store of the cache.
    pub open spec fn store(&self) -> F {
        match self.cache() {
            Some(cache) => cache.store(),
            None => self.file()->Some_0,
        }
    }

    /// The path of the file that the output writes, where it is known.
    pub closed spec fn dest_path(&self) -> Option<Seq<char>> {
        match self.0 {
            Inner::Direct(_, Some(path)) => Some(path@),
            _ => None,
        }
    }

    /// What is underneath is sound.
    pub closed spec fn wf(&self) -> bool {
        match self.0 {
            Inner::Direct(file, _) => sound(&file),
            Inner::Cached(cache) => cache.wf(),
        }
    }

    /// `self` is an output of the form that `before` had, to the same
    /// path, over a store as reliable and as roomy.
    pub open spec fn same_kind(&self, before: &Self) -> bool {
        &&& self.is_file() == before.is_file()
        &&& self.dest_path() == before.dest_path()
        &&& sound(&self.store())
        &&& self.store().reliable() == before.store().reliable()
        &&& self.store().capacity() == before.store().capacity()
    }

    /// An output that writes straight to the file at `path`, which the
    /// caller has created as `file`.
    pub fn create(path: &str, file: F) -> (r: Self)
        requires
            sound(&file),
        ensures
            r.wf(),
            r.is_file(),
            r.store() == file,
            r.dest_path() == Some(path@),
    {
        Output(Inner::Direct(file, Some(path.to_owned())))
    }

    /// An output that writes straight to `file`, of which no path is
    /// known.
    pub fn from_file(file: F) -> (r: Self)
        requires
            sound(&file),
        ensures
            r.wf(),
            r.is_file(),
            r.store() == file,
            r.dest_path() is None,
    {
        Output(Inner::Direct(file, None))
    }

    /// An output to a sink that cannot seek, behind a cache in a new
    /// store.
    pub fn from_writer(writer: W) -> (r: Result<Self, IoError>)
        ensures
            F::scratch_reliable() ==> r is Ok,
            r matches Ok(out) ==> {
                &&& out.wf()
                &&& !out.is_file()
                &&& out.dest_path() is None
                &&& out.store().contents() == Seq::<u8>::empty()
                &&& out.store().cursor() == 0
                &&& out.store().reliable() == F::scratch_reliable()
                &&& out.store().capacity() == F::scratch_capacity()
                &&& out.cache() matches Some(cache) && cache.sink() == writer && cache.flushed()
                    == 0 && cache.synced()
            },
    {
        let cache = DiskCacheWriter::new(writer)?;
        Ok(Output(Inner::Cached(cache)))
    }

    /// The path of the file that the output writes. Only an output that
    /// writes straight to a file has one: for any other, the format must be
    /// chosen by the user, not guessed.
    pub fn path(&self) -> (r: Option<&str>)
        ensures
            match r {
                Some(path) => self.dest_path() == Some(path@),
                None => self.dest_path() is None,
            },
    {
        match &self.0 {
            Inner::Direct(_, Some(path)) => Some(path.as_str()),
            _ => None,
        }
    }

    /// Whether the output writes straight to a file.
    pub fn is_direct(&self) -> (r: bool)
        ensures
            r == self.is_file(),
            r == self.file() is Some,
    {
        match &self.0 {
            Inner::Direct(_, _) => true,
            Inner::Cached(_) => false,
        }
    }

    /// Writes all of `buf` at the cursor and reports how many bytes were
    /// written. A sink behind a cache is not touched.
    pub fn write(&mut self, buf: &[u8]) -> (r: Result<usize, IoError>)
        requires
            old(self).wf(),
        ensures
            final(self).same_kind(old(self)),
            old(self).store().reliable() ==> (r is Ok <==> old(self).store().cursor() + buf@.len()
                <= old(self).store().capacity()),
            r matches Ok(n) ==> {
                &&& n == buf@.len()
                &&& final(self).wf()
                &&& final(self).store().contents() == written_at(
                    old(self).store().contents(),
                    old(self).store().cursor(),
                    buf@,
                )
                &&& final(self).store().cursor() == old(self).store().cursor() + buf@.len()
            },
            old(self).cache() matches Some(before) ==> final(self).cache() matches Some(after)
                && after.after_write(&before, buf@, r),
    {
        match &mut self.0 {
            Inner::Direct(file, _) => {
                file.write_all(buf)?;
                Ok(buf.len())
            },
            Inner::Cached(cache) => cache.write(buf),
        }
    }

    /// For a file, asks it to make what it holds durable. For a sink
    /// behind a cache, passes to the sink, in order, the bytes of the store
    /// from the flushed offset up to the cursor.
    pub fn flush(&mut self) -> (r: Result<(), IoError>)
        requires
            old(self).wf(),
        ensures
            final(self).same_kind(old(self)),
            final(self).store().contents() == old(self).store().contents(),
            old(self).store().reliable() ==> final(self).store().cursor() == old(
                self,
            ).store().cursor(),
            old(self).is_file() ==> final(self).wf() && (old(self).store().reliable() ==> r is Ok),
            r is Ok ==> final(self).wf(),
            old(self).cache() matches Some(before) ==> final(self).cache() matches Some(after)
                && after.after_flush(&before, r is Ok),
    {
        match &mut self.0 {
            Inner::Direct(file, _) => file.flush(),
            Inner::Cached(cache) => cache.flush(),
        }
    }

    /// Moves the cursor and reports where it now stands. A sink behind a
    /// cache is not touched.
    pub fn seek(&mut self, pos: SeekFrom) -> (r: Result<u64, IoError>)
        requires
            old(self).wf(),
        ensures
            final(self).same_kind(old(self)),
            final(self).wf(),
            final(self).store().contents() == old(self).store().contents(),
            old(self).store().reliable() ==> (r is Ok <==> pos.in_range(
                old(self).store().cursor(),
                old(self).store().contents().len(),
            )),
            match r {
                Ok(at) => {
                    &&& at == pos.target(
                        old(self).store().cursor(),
                        old(self).store().contents().len(),
                    )
                    &&& final(self).store().cursor() == at
                },
                Err(_) => final(self).store().cursor() == old(self).store().cursor(),
            },
            old(self).cache() matches Some(before) ==> final(self).cache() matches Some(after)
                && after.after_seek(&before, pos, r),
    {
        match &mut self.0 {
            Inner::Direct(file, _) => file.seek(pos),
            Inner::Cached(cache) => cache.seek(pos),
        }
    }

    /// Gives up the output. A cache passes every byte that its sink has not
    /// seen to the sink, as far as the devices allow, and the sink is
    /// handed back; failures at this point are not reported. An output
    /// that writes straight to a file hands back nothing.
    pub fn into_sink(self) -> (r: Option<W>)
        requires
            self.wf(),
        ensures
            r is Some == !self.is_file(),
            (r, self.cache()) matches (Some(sink), Some(cache)) ==> {
                &&& sink.reliable_sink() == cache.sink().reliable_sink()
                &&& sink.accepted().len() >= cache.sink().accepted().len()
                &&& sink.accepted().take(cache.sink().accepted().len() as int)
                    == cache.sink().accepted()
                &&& cache.sink().reliable_sink() && cache.store().reliable() ==> sink.accepted()
                    == cache.sink().accepted() + cache.store().contents().skip(
                    cache.flushed() as int,
                )
                &&& cache.sink().reliable_sink() && cache.store().reliable() ==> sink.settled()
            },
    {
        match self.0 {
            Inner::Direct(_, _) => None,
            Inner::Cached(cache) => Some(cache.release()),
        }
    }

    /// Gives up the output. An output that writes straight to a file hands
    /// back that file as it stands; any other hands back nothing, and what
    /// its cache held back is lost.
    pub fn into_file(self) -> (r: Option<F>)
        ensures
            r is Some == self.is_file(),
            r matches Some(file) ==> file == self.store(),
    {
        match self.0 {
            Inner::Direct(file, _) => Some(file),
            Inner::Cached(_) => None,
        }
    }
}

impl<H: WriteHandle> Output<H, H> {
    /// An output to `handle`, given how asking it to seek to its start
    /// ended. Where the seek succeeded (`sought` is `Ok`), the output
    /// writes straight to the handle. Where it failed, the output writes to
    /// the handle through a cache in a new store; that fails only where no
    /// new store can be had.
    pub fn from_probe(handle: H, sought: Result<u64, IoError>) -> (r: Result<Self, IoError>)
        requires
            sound(&handle),
        ensures
            sought is Ok || H::scratch_reliable() ==> r is Ok,
            r matches Ok(out) ==> {
                &&& out.wf()
                &&& out.dest_path() is None
                &&& out.is_file() == sought is Ok
                &&& sought is Ok ==> out.store() == handle
                &&& sought is Err ==> {
                    &&& out.store().contents() == Seq::<u8>::empty()
                    &&& out.store().cursor() == 0
                    &&& out.store().reliable() == H::scratch_reliable()
                    &&& out.store().capacity() == H::scratch_capacity()
                    &&& out.cache() matches Some(cache) && cache.sink() == handle
                        && cache.flushed() == 0 && cache.synced()
                }
            },
    {
        match sought {
            Ok(_) => Ok(Self::from_file(handle)),
            Err(_) => Self::from_writer(handle),
        }
    }

    /// An output to a handle that may or may not be able to seek, such as
    /// standard output. The handle is asked to seek to its start: where it
    /// can, the output writes straight to it; where it cannot, the output
    /// writes to it through a cache in a new store. Which of the two it
    /// is, `from_probe` says.
    pub fn stdout(handle: H) -> (r: Result<Self, IoError>)
        requires
            sound(&handle),
        ensures
            RandomAccess::reliable(&handle) || H::scratch_reliable() ==> r is Ok,
            r matches Ok(out) ==> {
                &&& out.wf()
                &&& out.dest_path() is None
                &&& RandomAccess::reliable(&handle) ==> out.is_file()
                &&& out.is_file() ==> out.store().contents() == handle.contents()
                    && out.store().cursor() == 0
                &&& !out.is_file() ==> out.store().contents() == Seq::<u8>::empty()
                    && out.store().cursor() == 0
                &&& out.cache() matches Some(cache) ==> cache.sink().accepted()
                    == handle.contents() && cache.flushed() == 0 && cache.synced()
            },
    {
        let mut file = handle;
        let sought = file.rewind();
        Self::from_probe(file, sought)
    }
}

} // verus!
