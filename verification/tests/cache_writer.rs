use naru::error::{IoError, SeekFrom};
use naru::io::buffers::DiskCacheWriter;
use naru::io::memory::{MemoryFile, MemorySink};

fn writer() -> DiskCacheWriter<MemorySink, MemoryFile> {
    DiskCacheWriter::new(MemorySink::new()).unwrap()
}

#[test]
fn writes_reach_the_sink_only_on_flush() {
    let mut w = writer();
    assert_eq!(w.write(b"hello "), Ok(6));
    assert_eq!(w.write(b"world"), Ok(5));
    assert!(w.get_ref().bytes().is_empty());
    assert_eq!(w.flushed_len(), 0);
    assert_eq!(w.flush(), Ok(()));
    assert_eq!(w.get_ref().bytes().as_slice(), b"hello world");
    assert_eq!(w.flushed_len(), 11);
    // A second flush has nothing to add.
    assert_eq!(w.flush(), Ok(()));
    assert_eq!(w.get_ref().bytes().as_slice(), b"hello world");
}

#[test]
fn a_patch_before_the_flush_is_seen_by_the_sink() {
    let mut w = writer();
    w.write(b"????data").unwrap();
    assert_eq!(w.seek(SeekFrom::Start(0)), Ok(0));
    w.write(b"HEAD").unwrap();
    assert_eq!(w.seek(SeekFrom::End(0)), Ok(8));
    w.write(b"!").unwrap();
    assert!(w.get_ref().bytes().is_empty());
    w.flush().unwrap();
    assert_eq!(w.get_ref().bytes().as_slice(), b"HEADdata!");
}

#[test]
fn flush_stops_at_the_cursor_and_leaves_it_in_place() {
    let mut w = writer();
    w.write(b"0123456789").unwrap();
    assert_eq!(w.seek(SeekFrom::Start(4)), Ok(4));
    w.flush().unwrap();
    assert_eq!(w.get_ref().bytes().as_slice(), b"0123");
    assert_eq!(w.flushed_len(), 4);
    assert_eq!(w.get_store().position(), 4);
    // Going back does not take anything back, and flushes nothing.
    assert_eq!(w.seek(SeekFrom::Start(1)), Ok(1));
    w.flush().unwrap();
    assert_eq!(w.get_ref().bytes().as_slice(), b"0123");
    assert_eq!(w.get_store().position(), 1);
    // The rest follows in order.
    assert_eq!(w.seek(SeekFrom::End(0)), Ok(10));
    w.flush().unwrap();
    assert_eq!(w.get_ref().bytes().as_slice(), b"0123456789");
}

#[test]
fn the_sink_sees_a_prefix_of_the_store_after_every_step() {
    let mut w = writer();
    let mut expected: Vec<u8> = Vec::new();
    for round in 0..20u8 {
        let chunk: Vec<u8> = (0..(round as usize % 7 + 1)).map(|i| round * 10 + i as u8).collect();
        w.seek(SeekFrom::End(0)).unwrap();
        w.write(&chunk).unwrap();
        expected.extend_from_slice(&chunk);
        if round % 3 == 0 {
            // Patch a byte that was not flushed yet.
            let at = w.flushed_len();
            if (at as usize) < expected.len() {
                w.seek(SeekFrom::Start(at)).unwrap();
                w.write(&[255]).unwrap();
                expected[at as usize] = 255;
            }
        }
        if round % 4 == 1 {
            w.seek(SeekFrom::End(-1)).unwrap();
            w.flush().unwrap();
        }
        let seen = w.get_ref().bytes().clone();
        assert_eq!(seen.len() as u64, w.flushed_len());
        assert_eq!(seen.as_slice(), &w.get_store().bytes()[..seen.len()]);
        assert_eq!(w.get_store().bytes(), &expected);
    }
    let sink = w.release();
    assert_eq!(sink.bytes(), &expected);
}

#[test]
fn release_passes_on_every_byte_that_is_left() {
    let mut w = writer();
    w.write(b"abcdef").unwrap();
    w.seek(SeekFrom::Start(2)).unwrap();
    w.flush().unwrap();
    assert_eq!(w.get_ref().bytes().as_slice(), b"ab");
    let sink = w.release();
    assert_eq!(sink.bytes().as_slice(), b"abcdef");
}

#[test]
fn a_write_beyond_the_end_leaves_a_gap_of_zeros() {
    let mut w = writer();
    w.write(b"ab").unwrap();
    assert_eq!(w.seek(SeekFrom::Start(5)), Ok(5));
    assert_eq!(w.write(b"z"), Ok(1));
    assert_eq!(w.get_store().bytes().as_slice(), b"ab\0\0\0z");
    let sink = w.release();
    assert_eq!(sink.bytes().as_slice(), b"ab\0\0\0z");
}

#[test]
fn a_patch_inside_what_was_flushed_does_not_reach_the_sink() {
    let mut w = writer();
    w.write(b"abc").unwrap();
    w.flush().unwrap();
    w.seek(SeekFrom::Start(1)).unwrap();
    w.write(b"X").unwrap();
    let store = w.get_store().bytes().clone();
    let sink = w.release();
    assert_eq!(store.as_slice(), b"aXc");
    assert_eq!(sink.bytes().as_slice(), b"abc");
}

#[test]
fn seek_before_start_is_refused_by_the_store() {
    let mut w = writer();
    w.write(b"abc").unwrap();
    assert_eq!(w.seek(SeekFrom::Current(-4)), Err(IoError::InvalidSeek));
    assert_eq!(w.seek(SeekFrom::End(-4)), Err(IoError::InvalidSeek));
    assert_eq!(w.seek(SeekFrom::Current(0)), Ok(3));
}

#[test]
fn a_store_with_contents_is_flushed_like_written_bytes() {
    let mut w = DiskCacheWriter::with_store(
        MemorySink::new(),
        MemoryFile::from_bytes(b"old".to_vec()),
    );
    w.seek(SeekFrom::End(0)).unwrap();
    w.write(b"+new").unwrap();
    w.flush().unwrap();
    assert_eq!(w.get_ref().bytes().as_slice(), b"old+new");
}

#[test]
fn a_flush_with_the_cursor_beyond_the_end_stops_at_the_end() {
    let mut w = writer();
    w.write(b"ab").unwrap();
    assert_eq!(w.seek(SeekFrom::Start(5)), Ok(5));
    assert_eq!(w.flush(), Ok(()));
    assert_eq!(w.get_ref().bytes().as_slice(), b"ab");
    assert_eq!(w.flushed_len(), 2);
    assert_eq!(w.get_store().position(), 5);
    assert_eq!(w.get_store().bytes().as_slice(), b"ab");
}

#[test]
fn large_writes_are_flushed_whole() {
    let data: Vec<u8> = (0..100_000usize).map(|i| (i % 253) as u8).collect();
    let mut w = writer();
    assert_eq!(w.write(&data), Ok(100_000));
    w.flush().unwrap();
    assert_eq!(w.get_ref().bytes(), &data);
    assert_eq!(w.get_store().position(), 100_000);
}
