//! Summing up the contents of an archive while it is listed.

use vstd::prelude::*;
use crate::archive::{EntryType, Metadata};

verus! {

/// `a + b`, or the largest `u64` where the sum is beyond it.
pub open spec fn capped_sum(a: u64, b: u64) -> u64 {
    if a + b <= u64::MAX {
        (a + b) as u64
    } else {
        u64::MAX
    }
}

/// What a listing has counted so far. The counts stop growing at the
/// largest `u64`.
#[derive(Clone, Copy, Debug, PartialEq, Eq, Structural)]
pub struct Totals {
    /// The number of entries that are not directories.
    pub files: u64,
    /// The number of directories.
    pub dirs: u64,
    /// The sizes of the entries that are not directories, summed up.
    pub bytes: u64,
}

impl Totals {
    /// The totals of what `self` has counted and one more entry with the
    /// given metadata: a directory counts as a directory; anything else
    /// counts as a file, and its size is added to the bytes.
    pub open spec fn with(self, metadata: Metadata) -> Totals {
        if metadata.entry_type == EntryType::Directory {
            Totals { dirs: capped_sum(self.dirs, 1), ..self }
        } else {
            Totals {
                files: capped_sum(self.files, 1),
                bytes: capped_sum(self.bytes, metadata.size),
                ..self
            }
        }
    }

    /// Nothing counted yet.
    pub fn new() -> (r: Self)
        ensures
            r == (Totals { files: 0, dirs: 0, bytes: 0 }),
    {
        Totals { files: 0, dirs: 0, bytes: 0 }
    }

    /// Counts one more entry.
    pub fn record(&mut self, metadata: &Metadata)
        ensures
            *final(self) == old(self).with(*metadata),
    {
        if metadata.is_dir() {
            self.dirs = self.dirs.saturating_add(1);
        } else {
            self.files = self.files.saturating_add(1);
            self.bytes = self.bytes.saturating_add(metadata.size);
        }
    }
}

} // verus!
