use naru::error::{IoError, SeekFrom};
use naru::io::buffers::DiskCacheReader;
use naru::io::device::CHUNK_SIZE;
use naru::io::memory::{MemoryFile, MemorySource};

fn sample(n: usize) -> Vec<u8> {
    (0..n).map(|i| (i * 7 % 251) as u8).collect()
}

fn reader(data: Vec<u8>, burst: usize) -> DiskCacheReader<MemorySource, MemoryFile> {
    DiskCacheReader::new(MemorySource::with_burst(data, burst)).unwrap()
}

#[test]
fn read_at_yields_the_requested_range() {
    let data = sample(1000);
    let mut cache = reader(data.clone(), 7);
    assert_eq!(cache.read_at(10, 20).unwrap(), data[10..30].to_vec());
    assert_eq!(cache.read_at(0, 5).unwrap(), data[0..5].to_vec());
    assert_eq!(cache.read_at(990, 100).unwrap(), data[990..].to_vec());
    assert_eq!(cache.read_at(2000, 4).unwrap(), Vec::<u8>::new());
}

#[test]
fn every_range_reads_back_whatever_came_before() {
    let data = sample(40);
    let mut cache = reader(data.clone(), 3);
    // Disturb the cache with seeks of every kind first.
    cache.seek(SeekFrom::Start(17)).unwrap();
    cache.seek(SeekFrom::Current(-5)).unwrap();
    cache.read(4).unwrap();
    for a in (0..=40usize).rev() {
        for b in a..=40usize {
            assert_eq!(cache.read_at(a as u64, b - a).unwrap(), data[a..b].to_vec());
        }
    }
    cache.seek(SeekFrom::End(0)).unwrap();
    for a in 0..=40usize {
        assert_eq!(cache.read_at(a as u64, 40 - a).unwrap(), data[a..].to_vec());
    }
}

#[test]
fn seek_then_read_yields_the_bytes_at_the_position() {
    let data = sample(300);
    let mut cache = reader(data.clone(), 64);
    assert_eq!(cache.seek(SeekFrom::Start(100)), Ok(100));
    let chunk = cache.read(50).unwrap();
    assert!(!chunk.is_empty() && chunk.len() <= 50);
    assert_eq!(chunk, data[100..100 + chunk.len()].to_vec());
    assert_eq!(cache.position(), Ok(100 + chunk.len() as u64));
}

#[test]
fn seek_back_does_not_touch_the_source() {
    let data = sample(100);
    let mut cache = reader(data.clone(), 10);
    assert_eq!(cache.seek(SeekFrom::Start(50)).unwrap(), 50);
    let delivered = cache.get_ref().position();
    assert_eq!(delivered as u64, cache.cached_len());
    assert_eq!(cache.seek(SeekFrom::Start(3)).unwrap(), 3);
    assert_eq!(cache.read(4).unwrap(), data[3..7].to_vec());
    assert_eq!(cache.get_ref().position(), delivered);
}

#[test]
fn no_byte_is_taken_from_the_source_twice() {
    let data = sample(500);
    let mut cache = reader(data.clone(), 11);
    let steps = [
        SeekFrom::Start(40),
        SeekFrom::Start(5),
        SeekFrom::Current(100),
        SeekFrom::Current(-60),
        SeekFrom::Start(200),
        SeekFrom::Current(0),
        SeekFrom::End(-10),
        SeekFrom::Start(0),
    ];
    for step in steps {
        cache.seek(step).unwrap();
        cache.read(9).unwrap();
        cache.fill_to_offset(77).unwrap();
        // What the source gave up is exactly what the cache holds.
        assert_eq!(cache.get_ref().position() as u64, cache.cached_len());
        assert_eq!(
            cache.get_store().bytes().as_slice(),
            &data[..cache.cached_len() as usize]
        );
    }
    assert_eq!(cache.get_ref().position(), 500);
}

#[test]
fn position_query_reads_nothing() {
    let mut cache = reader(sample(100), 10);
    assert_eq!(cache.seek(SeekFrom::Current(0)), Ok(0));
    assert_eq!(cache.get_ref().position(), 0);
    assert_eq!(cache.cached_len(), 0);
    assert!(!cache.is_eof());
}

#[test]
fn fill_stops_at_the_target_or_at_the_end() {
    let data = sample(3 * CHUNK_SIZE + 5);
    let mut cache = reader(data.clone(), usize::MAX);
    // The source is read in chunks of CHUNK_SIZE bytes.
    assert_eq!(cache.fill_to_offset(10), Ok(CHUNK_SIZE as u64));
    assert_eq!(cache.cached_len(), CHUNK_SIZE as u64);
    assert_eq!(cache.position(), Ok(0));
    // Nothing to do when enough is cached.
    assert_eq!(cache.fill_to_offset(CHUNK_SIZE as u64), Ok(0));
    // A short fill at the end of the stream is no error.
    assert_eq!(
        cache.fill_to_offset(u64::MAX),
        Ok((2 * CHUNK_SIZE + 5) as u64)
    );
    assert!(cache.is_eof());
    assert_eq!(cache.fill_to_offset(u64::MAX), Ok(0));
    assert_eq!(cache.get_store().bytes(), &data);
}

#[test]
fn seek_from_end_consumes_the_whole_source() {
    let data = sample(1234);
    let mut cache = reader(data.clone(), 100);
    assert_eq!(cache.seek(SeekFrom::End(-34)), Ok(1200));
    assert!(cache.is_eof());
    assert_eq!(cache.cached_len(), 1234);
    assert_eq!(cache.read(100).unwrap(), data[1200..].to_vec());
    assert_eq!(cache.read(100).unwrap(), Vec::<u8>::new());
}

#[test]
fn positions_stay_reachable_after_the_end_was_seen() {
    let data = sample(64);
    let mut cache = reader(data.clone(), 5);
    assert_eq!(cache.seek(SeekFrom::End(0)), Ok(64));
    let delivered = cache.get_ref().position();
    for n in 0..=64u64 {
        assert_eq!(cache.seek(SeekFrom::Start(n)), Ok(n));
    }
    // Beyond the end the position asked for is reported, and reads are
    // empty.
    assert_eq!(cache.seek(SeekFrom::Start(1000)), Ok(1000));
    assert_eq!(cache.read(8).unwrap(), Vec::<u8>::new());
    assert_eq!(cache.seek(SeekFrom::Current(-990)), Ok(10));
    assert_eq!(cache.read(2).unwrap(), data[10..12].to_vec());
    assert_eq!(cache.get_ref().position(), delivered);
}

#[test]
fn seek_beyond_the_end_of_a_fresh_cache_reports_the_position() {
    let data = sample(20);
    let mut cache = reader(data, 4);
    assert_eq!(cache.seek(SeekFrom::Start(50)), Ok(50));
    assert!(cache.is_eof());
    assert_eq!(cache.cached_len(), 20);
    assert_eq!(cache.read(1).unwrap(), Vec::<u8>::new());
}

#[test]
fn seek_before_start_is_refused() {
    let mut cache = reader(sample(10), 3);
    assert_eq!(cache.seek(SeekFrom::Current(-1)), Err(IoError::InvalidSeek));
    // A refused seek relative to the cursor reads nothing.
    assert_eq!(cache.get_ref().position(), 0);
    assert_eq!(cache.seek(SeekFrom::End(-11)), Err(IoError::InvalidSeek));
    assert_eq!(cache.position(), Ok(0));
    assert_eq!(cache.seek(SeekFrom::End(-10)), Ok(0));
    assert_eq!(
        cache.seek(SeekFrom::Current(i64::MIN)),
        Err(IoError::InvalidSeek)
    );
}

#[test]
fn failure_of_the_source_is_passed_on_and_nothing_is_lost() {
    let data = sample(50);
    let source = MemorySource::failing_after(data.clone(), 0, 5);
    let mut cache: DiskCacheReader<MemorySource, MemoryFile> =
        DiskCacheReader::new(source).unwrap();
    assert_eq!(cache.read(10), Err(IoError::Device(5)));
    assert_eq!(cache.seek(SeekFrom::Start(1)), Err(IoError::Device(5)));
    assert_eq!(cache.seek(SeekFrom::End(0)), Err(IoError::Device(5)));
    assert_eq!(cache.position(), Ok(0));
    assert_eq!(cache.cached_len(), 0);

    // A source that fails late keeps what was cached before.
    let source = MemorySource::failing_after(data.clone(), 50, 7);
    let mut cache: DiskCacheReader<MemorySource, MemoryFile> =
        DiskCacheReader::new(source).unwrap();
    assert_eq!(cache.read_at(0, 50).unwrap(), data);
    assert_eq!(cache.read(1), Err(IoError::Device(7)));
    assert_eq!(cache.read_at(20, 5).unwrap(), data[20..25].to_vec());
}

#[test]
fn a_store_with_a_head_start_counts_as_cached() {
    let head = sample(10);
    let tail: Vec<u8> = vec![200, 201, 202];
    let mut cache = DiskCacheReader::with_store(
        MemorySource::new(tail.clone()),
        MemoryFile::from_bytes(head.clone()),
    )
    .unwrap();
    assert_eq!(cache.cached_len(), 10);
    assert_eq!(cache.position(), Ok(0));
    let mut all = head;
    all.extend_from_slice(&tail);
    assert_eq!(cache.read_at(0, 100).unwrap(), all);
}

#[test]
fn reading_nothing_changes_nothing() {
    let mut cache = reader(sample(10), 3);
    assert_eq!(cache.read(0).unwrap(), Vec::<u8>::new());
    assert_eq!(cache.get_ref().position(), 0);
    assert!(!cache.is_eof());
}

#[test]
fn a_short_fill_takes_all_that_the_source_had() {
    let data = sample(100);
    let mut cache = reader(data.clone(), 30);
    assert_eq!(cache.fill_to_offset(10), Ok(30));
    assert_eq!(cache.fill_to_offset(1_000), Ok(70));
    assert!(cache.is_eof());
    assert_eq!(cache.cached_len(), 100);
    assert_eq!(cache.get_store().bytes(), &data);
}

#[test]
fn a_read_inside_the_cache_ends_inside_the_cache() {
    let data = sample(100);
    let mut cache = reader(data.clone(), 10);
    assert_eq!(cache.seek(SeekFrom::Start(20)), Ok(20));
    assert_eq!(cache.seek(SeekFrom::Start(15)), Ok(15));
    let delivered = cache.get_ref().position();
    assert_eq!(delivered, 20);
    assert_eq!(cache.read(50).unwrap(), data[15..20].to_vec());
    assert_eq!(cache.get_ref().position(), delivered);
    assert_eq!(cache.cached_len(), 20);
}

#[test]
fn a_relative_seek_fills_the_cache_like_an_absolute_one() {
    let data = sample(100);
    let mut one = reader(data.clone(), 7);
    let mut other = reader(data.clone(), 7);
    one.seek(SeekFrom::Start(10)).unwrap();
    other.seek(SeekFrom::Start(10)).unwrap();
    assert_eq!(one.seek(SeekFrom::Current(25)), other.seek(SeekFrom::Start(35)));
    assert_eq!(one.cached_len(), other.cached_len());
    assert_eq!(one.is_eof(), other.is_eof());
    assert_eq!(one.seek(SeekFrom::Current(500)), other.seek(SeekFrom::Start(535)));
    assert_eq!(one.cached_len(), 100);
    assert_eq!(other.cached_len(), 100);
    assert!(one.is_eof() && other.is_eof());
}

#[test]
fn a_position_query_changes_nothing() {
    let mut cache = reader(sample(50), 10);
    cache.seek(SeekFrom::Start(12)).unwrap();
    let cached = cache.cached_len();
    assert_eq!(cache.seek(SeekFrom::Current(0)), Ok(12));
    assert_eq!(cache.cached_len(), cached);
    assert!(!cache.is_eof());
    cache.seek(SeekFrom::End(0)).unwrap();
    assert_eq!(cache.seek(SeekFrom::Current(0)), Ok(50));
    assert!(cache.is_eof());
}
