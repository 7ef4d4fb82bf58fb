//! Archive formats: what an entry is, and how an archive is recognised.

use vstd::prelude::*;
use crate::archive::formats::{ArchiveFormat, detected, named};
use crate::compress::{detect_decode, stripped};
use crate::error::IoError;
use crate::io::device::{ByteSink, ByteSource, RandomAccess};
use crate::io::input::Input;
use crate::io::output::Output;

pub mod formats;

verus! {

/// How many bytes at the start of a stream are looked at to tell its
/// archive format. The signature of tar lies deepest, at offset 257.
pub const LOOK_AHEAD: usize = 512;

/// The bytes of `bytes` that detection looks at.
pub open spec fn head(bytes: Seq<u8>) -> Seq<u8> {
    bytes.take(if LOOK_AHEAD <= bytes.len() { LOOK_AHEAD as int } else { bytes.len() as int })
}

/// Possible entry types in an archive.
#[derive(Clone, Copy, Debug, PartialEq, Eq, Structural)]
pub enum EntryType {
    /// A regular file.
    File,
    /// A regular directory.
    ///
    /// Directories do not contain data and are purely informational. An
    /// archive could contain nested paths even if there are no
    /// corresponding directory entries for them.
    Directory,
    /// A symbolic link to another file by name.
    SymbolicLink,
    /// Some other type of file that is not supported.
    Unsupported,
}

impl Default for EntryType {
    fn default() -> (r: Self)
        ensures
            r == EntryType::File,
    {
        EntryType::File
    }
}

impl EntryType {
    /// The type of an entry made from an item of the file system that is
    /// or is not a directory.
    pub fn from_is_dir(is_dir: bool) -> (r: Self)
        ensures
            r == if is_dir {
                EntryType::Directory
            } else {
                EntryType::File
            },
    {
        if is_dir {
            EntryType::Directory
        } else {
            EntryType::File
        }
    }
}

/// What is known of an entry besides its path and its bytes.
#[derive(Clone, Copy, Debug, PartialEq, Eq, Structural)]
pub struct Metadata {
    /// The type of entry this metadata represents.
    pub entry_type: EntryType,
    /// The size of the file in bytes. For other entry types like
    /// directories, will likely be zero and isn't used.
    pub size: u64,
    /// If the enclosing archive supports inherent compression, the
    /// compressed size taken up by this file in bytes.
    pub compressed_size: Option<u64>,
    /// When the entry was last modified, in seconds since the Unix epoch.
    pub modified: Option<i64>,
    /// Flag indicating that this file is marked as read-only.
    pub read_only: bool,
    /// Flag indicating that this file is marked as hidden.
    pub hidden: bool,
    /// UNIX-mode permissions and file attributes.
    pub unix_mode: Option<u32>,
}

impl Metadata {
    /// The metadata of an entry of the given type of which nothing else is
    /// known: no size, no time stamp, no flags, no mode.
    pub fn new(entry_type: EntryType) -> (r: Self)
        ensures
            r == (Metadata {
                entry_type,
                size: 0,
                compressed_size: None,
                modified: None,
                read_only: false,
                hidden: false,
                unix_mode: None,
            }),
    {
        Metadata {
            entry_type,
            size: 0,
            compressed_size: None,
            modified: None,
            read_only: false,
            hidden: false,
            unix_mode: None,
        }
    }

    /// Whether the entry is a directory.
    pub fn is_dir(&self) -> (r: bool)
        ensures
            r == (self.entry_type == EntryType::Directory),
    {
        self.entry_type == EntryType::Directory
    }
}

impl Default for Metadata {
    fn default() -> (r: Self)
        ensures
            r == (Metadata {
                entry_type: EntryType::File,
                size: 0,
                compressed_size: None,
                modified: None,
                read_only: false,
                hidden: false,
                unix_mode: None,
            }),
    {
        Metadata::new(EntryType::File)
    }
}

/// A time stamp in seconds since the Unix epoch as the metadata holds it:
/// none where the archive gives zero or a number beyond 63 bits.
pub open spec fn time_stamp(seconds: u64) -> Option<i64> {
    if 0 < seconds <= i64::MAX {
        Some(seconds as i64)
    } else {
        None
    }
}

/// The time stamp that the metadata holds for `seconds` since the Unix
/// epoch, where zero stands for "not known".
pub fn modified_at(seconds: u64) -> (r: Option<i64>)
    ensures
        r == time_stamp(seconds),
{
    if seconds > 0 && seconds <= i64::MAX as u64 {
        Some(seconds as i64)
    } else {
        None
    }
}

/// An entry in an archive being read.
pub trait Entry {
    /// The full path of this entry, relative to the root of the archive.
    fn path(&self) -> String;

    /// The metadata for this entry.
    fn metadata(&self) -> Metadata;

    /// If this entry is a symbolic link of some kind, the target path that
    /// the link points to.
    fn read_link(&mut self) -> Result<Option<String>, IoError>;
}

/// Attempts to read the given input stream as an archive: takes off
/// whatever stream compression is around it, then tells the archive format
/// from the first bytes of what is inside. Returns the decoded input, and
/// the format where one was recognised.
pub fn open<R: ByteSource, F: RandomAccess>(input: Input<R, F>) -> (r: Result<
    (Input<R, F>, Option<ArchiveFormat>),
    IoError,
>)
    requires
        input.wf(),
    ensures
        ({
            let outcome = stripped(input.rest(), (usize::MAX - input.layers()) as nat);
            &&& input.dependable() && F::scratch_reliable() && F::scratch_capacity() >= usize::MAX
                ==> (r is Ok <==> outcome is Ok)
            &&& input.dependable() && F::scratch_reliable() && F::scratch_capacity() >= usize::MAX
                ==> (r matches Err(e) ==> outcome == Err::<(Seq<u8>, nat), IoError>(e))
            // Where no layer is found, no new store is asked for.
            &&& input.dependable() && crate::compress::formats::detected(
                crate::compress::head(input.rest()),
            ) is None ==> r is Ok
            &&& r matches Ok((out, format)) ==> {
                &&& out.wf()
                &&& outcome == Ok::<(Seq<u8>, nat), IoError>(
                    (out.rest(), (out.layers() - input.layers()) as nat),
                )
                &&& out.layers() >= input.layers()
                &&& format == detected(head(out.rest()))
            }
        }),
{
    // Automatically decode any compression streams first.
    let mut decoded = detect_decode(input)?;

    // Detect archive format.
    let first = decoded.peek(LOOK_AHEAD)?;
    let format = formats::for_bytes(first.as_slice());
    Ok((decoded, format))
}

/// The archive format to write `output` in, judged by the path that the
/// output goes to. An output of which no path is known has none: its
/// format must be chosen by the user.
pub fn create<W: ByteSink, F: RandomAccess>(output: &Output<W, F>) -> (r: Option<ArchiveFormat>)
    ensures
        r == match output.dest_path() {
            Some(path) => named(path),
            None => None,
        },
{
    match output.path() {
        Some(path) => formats::for_extension(path),
        None => None,
    }
}

} // verus!
