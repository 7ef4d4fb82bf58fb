//! A value that is either borrowed mutably or owned in a box.

use vstd::prelude::*;
use crate::error::IoError;
use crate::io::device::{ByteSink, ByteSource};

verus! {

/// Something that can be changed in place, whether it is borrowed or
/// owned.
pub enum MaybeBoxedMut<'a, T: ?Sized> {
    Borrowed(&'a mut T),
    Owned(Box<T>),
}

impl<'a, T> MaybeBoxedMut<'a, T> {
    /// The value that is borrowed or owned.
    pub open spec fn value(&self) -> T {
        match self {
            MaybeBoxedMut::Borrowed(reference) => **reference,
            MaybeBoxedMut::Owned(boxed) => **boxed,
        }
    }

    /// Takes ownership of `value`.
    pub fn owned(value: T) -> (r: Self)
        ensures
            r is Owned,
            r.value() == value,
    {
        MaybeBoxedMut::Owned(Box::new(value))
    }

    /// Borrows what `reference` points to.
    pub fn borrowed(reference: &'a mut T) -> (r: Self)
        ensures
            r is Borrowed,
            r.value() == *old(reference),
    {
        MaybeBoxedMut::Borrowed(reference)
    }

    /// A mutable reference to the value, wherever it lives.
    pub fn as_mut(&mut self) -> (r: &mut T)
        ensures
            *r == old(self).value(),
            final(self).value() == *final(r),
            (*final(self) is Owned) == (*old(self) is Owned),
    {
        match self {
            MaybeBoxedMut::Borrowed(v) => v,
            MaybeBoxedMut::Owned(v) => &mut **v,
        }
    }
}

impl<'a, T: ByteSource> ByteSource for MaybeBoxedMut<'a, T> {
    open spec fn remaining(&self) -> Seq<u8> {
        self.value().remaining()
    }

    open spec fn reliable_source(&self) -> bool {
        self.value().reliable_source()
    }

    open spec fn failure(&self) -> IoError {
        self.value().failure()
    }

    fn pull(&mut self, max: usize) -> (r: Result<Vec<u8>, IoError>) {
        self.as_mut().pull(max)
    }
}

impl<'a, T: ByteSink> ByteSink for MaybeBoxedMut<'a, T> {
    open spec fn accepted(&self) -> Seq<u8> {
        self.value().accepted()
    }

    open spec fn reliable_sink(&self) -> bool {
        self.value().reliable_sink()
    }

    open spec fn settled(&self) -> bool {
        self.value().settled()
    }

    fn push(&mut self, data: &[u8]) -> (r: Result<(), IoError>) {
        self.as_mut().push(data)
    }

    fn flush(&mut self) -> (r: Result<(), IoError>) {
        self.as_mut().flush()
    }
}

} // verus!
