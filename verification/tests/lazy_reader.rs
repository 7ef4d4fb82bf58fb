use naru::error::{IoError, SeekFrom};
use naru::io::lazy::LazyReader;
use naru::io::memory::MemorySource;

fn sample(n: usize) -> Vec<u8> {
    (0..n).map(|i| (i * 13 % 241) as u8).collect()
}

#[test]
fn unread_counts_the_buffered_bytes_after_the_cursor() {
    let mut lazy = LazyReader::new(MemorySource::with_burst(sample(10), 4));
    assert_eq!(lazy.unread(), 0);
    assert_eq!(lazy.read_once(), Ok(4));
    assert_eq!(lazy.unread(), 4);
    lazy.consume(3);
    assert_eq!(lazy.unread(), 1);
    lazy.consume(10);
    assert_eq!(lazy.unread(), 0);
    assert_eq!(lazy.seek(SeekFrom::Start(100)), Ok(100));
    assert_eq!(lazy.unread(), 0);
}

#[test]
fn fill_all_buffers_the_rest_of_the_source() {
    let data = sample(100);
    let mut lazy = LazyReader::new(MemorySource::with_burst(data.clone(), 7));
    assert_eq!(lazy.read_once(), Ok(7));
    assert_eq!(lazy.fill_all(), Ok(93));
    assert_eq!(lazy.unread(), 100);
    assert_eq!(lazy.fill_all(), Ok(0));
    assert_eq!(lazy.read(200).unwrap(), data);
}

#[test]
fn fill_buf_peeks_without_consuming() {
    let data = sample(20);
    let mut lazy = LazyReader::new(MemorySource::with_burst(data.clone(), 8));
    assert_eq!(lazy.fill_buf().unwrap(), &data[..8]);
    assert_eq!(lazy.fill_buf().unwrap(), &data[..8]);
    lazy.consume(5);
    assert_eq!(lazy.fill_buf().unwrap(), &data[5..8]);
    lazy.consume(3);
    assert_eq!(lazy.fill_buf().unwrap(), &data[8..16]);
    lazy.consume(8);
    assert_eq!(lazy.fill_buf().unwrap(), &data[16..]);
    lazy.consume(4);
    assert_eq!(lazy.fill_buf().unwrap(), &[] as &[u8]);
}

#[test]
fn lazy_seek_reaches_every_position() {
    let data = sample(50);
    let mut lazy = LazyReader::new(MemorySource::with_burst(data.clone(), 6));
    assert_eq!(lazy.seek(SeekFrom::Current(0)), Ok(0));
    assert_eq!(lazy.seek(SeekFrom::Start(20)), Ok(20));
    assert_eq!(lazy.read(3).unwrap(), data[20..23].to_vec());
    assert_eq!(lazy.seek(SeekFrom::Current(-13)), Ok(10));
    assert_eq!(lazy.read(2).unwrap(), data[10..12].to_vec());
    assert_eq!(lazy.seek(SeekFrom::End(-1)), Ok(49));
    assert_eq!(lazy.read(9).unwrap(), data[49..].to_vec());
    assert_eq!(lazy.read(9).unwrap(), Vec::<u8>::new());
    assert_eq!(lazy.seek(SeekFrom::Current(-51)), Err(IoError::InvalidSeek));
    assert_eq!(lazy.seek(SeekFrom::Current(0)), Ok(50));
    assert_eq!(lazy.seek(SeekFrom::End(-51)), Err(IoError::InvalidSeek));
    assert_eq!(lazy.seek(SeekFrom::Start(70)), Ok(70));
    assert_eq!(lazy.read(1).unwrap(), Vec::<u8>::new());
}

#[test]
fn lazy_reader_passes_on_the_failure_of_its_source() {
    let mut lazy = LazyReader::new(MemorySource::failing_after(sample(10), 0, 3));
    assert_eq!(lazy.read_once(), Err(IoError::Device(3)));
    assert_eq!(lazy.fill_all(), Err(IoError::Device(3)));
    assert_eq!(lazy.read(1), Err(IoError::Device(3)));
    assert_eq!(lazy.seek(SeekFrom::Start(1)), Err(IoError::Device(3)));
    assert_eq!(lazy.seek(SeekFrom::Start(0)), Ok(0));
}

#[test]
fn a_read_returns_what_is_pending() {
    let data: Vec<u8> = b"0123456789".to_vec();
    let mut lazy = LazyReader::new(MemorySource::new(data));
    assert_eq!(lazy.seek(SeekFrom::End(-3)), Ok(7));
    assert_eq!(lazy.unread(), 3);
    assert_eq!(lazy.read(3).unwrap(), b"789".to_vec());
    assert_eq!(lazy.seek(SeekFrom::Start(2)), Ok(2));
    assert_eq!(lazy.read(100).unwrap(), b"23456789".to_vec());
    assert_eq!(lazy.seek(SeekFrom::Start(2)), Ok(2));
    assert_eq!(lazy.read(4).unwrap(), b"2345".to_vec());
}
