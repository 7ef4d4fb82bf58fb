use naru::archive::formats::ArchiveFormat;
use naru::error::{IoError, SeekFrom};
use naru::io::memory::{MemoryFile, MemorySink};
use naru::io::output::Output;

fn cached() -> Output<MemorySink, MemoryFile> {
    Output::from_writer(MemorySink::new()).unwrap()
}

#[test]
fn an_output_has_a_path_only_when_created_at_one() {
    let out: Output<MemorySink, MemoryFile> = Output::create("out/a.zip", MemoryFile::new());
    assert_eq!(out.path(), Some("out/a.zip"));
    assert!(out.is_direct());
    let out: Output<MemorySink, MemoryFile> = Output::from_file(MemoryFile::new());
    assert_eq!(out.path(), None);
    assert!(out.is_direct());
    let out = cached();
    assert_eq!(out.path(), None);
    assert!(!out.is_direct());
}

#[test]
fn a_direct_output_writes_to_its_file() {
    let mut out: Output<MemorySink, MemoryFile> = Output::create("a.tar", MemoryFile::new());
    assert_eq!(out.write(b"0123456789"), Ok(10));
    assert_eq!(out.seek(SeekFrom::Start(2)), Ok(2));
    assert_eq!(out.write(b"xy"), Ok(2));
    assert_eq!(out.flush(), Ok(()));
    assert_eq!(out.seek(SeekFrom::Current(0)), Ok(4));
    assert_eq!(out.seek(SeekFrom::Current(-5)), Err(IoError::InvalidSeek));
    let file = out.into_file().unwrap();
    assert_eq!(file.bytes().as_slice(), b"01xy456789");
}

#[test]
fn a_cached_output_lets_a_writer_patch_what_it_wrote() {
    let mut out = cached();
    out.write(b"size=?;payload").unwrap();
    assert_eq!(out.seek(SeekFrom::Start(5)), Ok(5));
    out.write(b"7").unwrap();
    assert_eq!(out.seek(SeekFrom::End(0)), Ok(14));
    assert_eq!(out.flush(), Ok(()));
    let sink = out.into_sink().unwrap();
    assert_eq!(sink.bytes().as_slice(), b"size=7;payload");
}

#[test]
fn giving_up_a_cached_output_flushes_what_is_left() {
    let mut out = cached();
    out.write(b"abc").unwrap();
    out.flush().unwrap();
    out.write(b"def").unwrap();
    out.seek(SeekFrom::Start(0)).unwrap();
    let sink = out.into_sink().unwrap();
    assert_eq!(sink.bytes().as_slice(), b"abcdef");
}

#[test]
fn each_form_gives_back_only_what_it_has() {
    let out: Output<MemorySink, MemoryFile> = Output::from_file(MemoryFile::new());
    assert!(out.into_sink().is_none());
    assert!(cached().into_file().is_none());
}

#[test]
fn a_seekable_handle_is_written_directly() {
    let mut out = Output::stdout(MemoryFile::new()).unwrap();
    assert!(out.is_direct());
    assert_eq!(out.path(), None);
    out.write(b"abc").unwrap();
    assert_eq!(out.into_file().unwrap().bytes().as_slice(), b"abc");
}

#[test]
fn a_handle_that_cannot_seek_is_written_through_a_cache() {
    let mut out = Output::stdout(MemoryFile::pipe(Vec::new())).unwrap();
    assert!(!out.is_direct());
    out.write(b"....body").unwrap();
    out.seek(SeekFrom::Start(0)).unwrap();
    out.write(b"head").unwrap();
    out.seek(SeekFrom::End(0)).unwrap();
    let pipe = out.into_sink().unwrap();
    assert_eq!(pipe.bytes().as_slice(), b"headbody");
}

#[test]
fn the_format_of_a_new_archive_follows_the_path() {
    let out: Output<MemorySink, MemoryFile> = Output::create("backup.zip", MemoryFile::new());
    assert_eq!(naru::archive::create(&out), Some(ArchiveFormat::Zip));
    let out: Output<MemorySink, MemoryFile> = Output::create("x.cpio", MemoryFile::new());
    assert_eq!(naru::archive::create(&out), Some(ArchiveFormat::Cpio));
    let out: Output<MemorySink, MemoryFile> = Output::create("notes.txt", MemoryFile::new());
    assert_eq!(naru::archive::create(&out), None);
    // Without a path nothing is guessed.
    let out: Output<MemorySink, MemoryFile> = Output::from_file(MemoryFile::new());
    assert_eq!(naru::archive::create(&out), None);
    assert_eq!(naru::archive::create(&cached()), None);
}

#[test]
fn the_outcome_of_the_probe_decides_the_form_of_an_output() {
    let direct = Output::from_probe(MemoryFile::new(), Ok(0)).unwrap();
    assert!(direct.is_direct());
    let mut cached = Output::from_probe(MemoryFile::pipe(Vec::new()), Err(IoError::Device(29))).unwrap();
    assert!(!cached.is_direct());
    cached.write(b"12345").unwrap();
    cached.seek(SeekFrom::Start(0)).unwrap();
    cached.write(b"ab").unwrap();
    let pipe = cached.into_sink().unwrap();
    assert_eq!(pipe.bytes().as_slice(), b"ab345");
}
