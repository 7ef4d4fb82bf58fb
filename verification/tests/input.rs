use naru::compress::formats::CompressionFormat;
use naru::error::{IoError, SeekFrom};
use naru::io::device::CHUNK_SIZE;
use naru::io::input::{is_standard_stream, Input};
use naru::io::memory::{MemoryFile, MemorySource};
use std::io::Write;

fn sample(n: usize) -> Vec<u8> {
    (0..n).map(|i| (i * 31 % 239) as u8).collect()
}

fn piped(data: Vec<u8>, burst: usize) -> Input<MemorySource, MemoryFile> {
    Input::from_reader(MemorySource::with_burst(data, burst)).unwrap()
}

fn on_file(data: Vec<u8>) -> Input<MemorySource, MemoryFile> {
    Input::from_file(MemoryFile::from_bytes(data))
}

fn gzip(data: &[u8]) -> Vec<u8> {
    let mut encoder = flate2::write::GzEncoder::new(Vec::new(), flate2::Compression::default());
    encoder.write_all(data).unwrap();
    encoder.finish().unwrap()
}

#[test]
fn only_the_dash_stands_for_a_standard_stream() {
    assert!(is_standard_stream("-"));
    assert!(!is_standard_stream(""));
    assert!(!is_standard_stream("--"));
    assert!(!is_standard_stream("a"));
    assert!(!is_standard_stream("./-"));
}

#[test]
fn an_input_has_a_path_only_when_opened_at_one() {
    let input: Input<MemorySource, MemoryFile> =
        Input::open("some/file.tar", MemoryFile::from_bytes(sample(3)));
    assert_eq!(input.path(), Some("some/file.tar"));
    assert!(input.is_direct());
    assert_eq!(on_file(sample(3)).path(), None);
    let cached = piped(sample(3), 1);
    assert_eq!(cached.path(), None);
    assert!(!cached.is_direct());
    assert_eq!(cached.depth(), 0);
}

#[test]
fn peek_looks_ahead_without_consuming() {
    for mut input in [piped(sample(100), 3), on_file(sample(100))] {
        let data = sample(100);
        assert_eq!(input.peek(16).unwrap(), data[..16].to_vec());
        assert_eq!(input.peek(4).unwrap(), data[..4].to_vec());
        assert_eq!(input.peek(0).unwrap(), Vec::<u8>::new());
        assert_eq!(input.read(10).unwrap(), data[..10].to_vec());
        assert_eq!(input.seek(SeekFrom::Current(0)), Ok(10));
        assert_eq!(input.peek(200).unwrap(), data[10..].to_vec());
        assert_eq!(input.read_to_end().unwrap(), data[10..].to_vec());
        assert_eq!(input.peek(5).unwrap(), Vec::<u8>::new());
    }
}

#[test]
fn fill_buf_and_consume_walk_the_stream_once() {
    for mut input in [piped(sample(50), 7), on_file(sample(50))] {
        let data = sample(50);
        let mut seen: Vec<u8> = Vec::new();
        loop {
            let bytes = input.fill_buf().unwrap().to_vec();
            if bytes.is_empty() {
                break;
            }
            // Peeking again shows the same bytes.
            assert_eq!(input.fill_buf().unwrap(), bytes.as_slice());
            let step = (bytes.len() + 1) / 2;
            seen.extend_from_slice(&bytes[..step]);
            input.consume(step);
        }
        assert_eq!(seen, data);
    }
}

#[test]
fn consume_never_goes_beyond_what_was_read_ahead() {
    let mut input = piped(sample(20), 4);
    assert_eq!(input.fill_buf().unwrap(), &sample(20)[..4]);
    input.consume(100);
    assert_eq!(input.seek(SeekFrom::Current(0)), Ok(4));
}

#[test]
fn seek_counts_from_the_cursor_not_from_what_was_read_ahead() {
    for mut input in [piped(sample(200), 64), on_file(sample(200))] {
        let data = sample(200);
        input.peek(32).unwrap();
        assert_eq!(input.read(5).unwrap(), data[..5].to_vec());
        assert_eq!(input.seek(SeekFrom::Current(0)), Ok(5));
        assert_eq!(input.seek(SeekFrom::Current(10)), Ok(15));
        assert_eq!(input.read(5).unwrap(), data[15..20].to_vec());
        input.peek(8).unwrap();
        assert_eq!(input.seek(SeekFrom::Current(-20)), Ok(0));
        assert_eq!(input.read(3).unwrap(), data[..3].to_vec());
        assert_eq!(input.seek(SeekFrom::Start(150)), Ok(150));
        assert_eq!(input.read(3).unwrap(), data[150..153].to_vec());
        assert_eq!(input.seek(SeekFrom::End(-2)), Ok(198));
        assert_eq!(input.read_to_end().unwrap(), data[198..].to_vec());
        assert_eq!(input.seek(SeekFrom::Current(-201)), Err(IoError::InvalidSeek));
        assert_eq!(input.seek(SeekFrom::Current(0)), Ok(200));
    }
}

#[test]
fn a_seekable_handle_is_read_directly() {
    let data = sample(30);
    let mut input = Input::stdin(MemoryFile::from_bytes(data.clone())).unwrap();
    assert!(input.is_direct());
    assert_eq!(input.read_to_end().unwrap(), data);
}

#[test]
fn a_handle_that_cannot_seek_is_cached() {
    let data = sample(3 * CHUNK_SIZE);
    let mut input = Input::stdin(MemoryFile::pipe(data.clone())).unwrap();
    assert!(!input.is_direct());
    assert_eq!(input.path(), None);
    assert_eq!(input.seek(SeekFrom::Start(CHUNK_SIZE as u64 + 1)), Ok(CHUNK_SIZE as u64 + 1));
    assert_eq!(input.read(2).unwrap(), data[CHUNK_SIZE + 1..CHUNK_SIZE + 3].to_vec());
    assert_eq!(input.seek(SeekFrom::Start(0)), Ok(0));
    assert_eq!(input.read_to_end().unwrap(), data);
}

#[test]
fn into_file_hands_over_the_rest_of_a_cached_stream() {
    let data = sample(1000);
    let mut input = piped(data.clone(), 33);
    input.seek(SeekFrom::Start(100)).unwrap();
    input.peek(50).unwrap();
    let file = input.into_file().unwrap();
    assert_eq!(file.bytes().as_slice(), &data[100..]);
    assert_eq!(file.position(), 0);
}

#[test]
fn into_file_gives_back_the_file_of_a_direct_input() {
    let data = sample(10);
    let file = on_file(data.clone()).into_file().unwrap();
    assert_eq!(file.bytes(), &data);
}

#[test]
fn try_wrap_replaces_the_input_by_the_decoded_stream() {
    let plain = sample(5000);
    let input = piped(gzip(&plain), 10);
    let mut inner = input.try_wrap(CompressionFormat::Gzip).unwrap();
    assert_eq!(inner.depth(), 1);
    assert!(!inner.is_direct());
    assert_eq!(inner.path(), None);
    // The decoded stream can be peeked and sought like any other.
    assert_eq!(inner.peek(8).unwrap(), plain[..8].to_vec());
    assert_eq!(inner.seek(SeekFrom::Start(4000)), Ok(4000));
    assert_eq!(inner.read(10).unwrap(), plain[4000..4010].to_vec());
    assert_eq!(inner.seek(SeekFrom::Start(0)), Ok(0));
    assert_eq!(inner.read_to_end().unwrap(), plain);
}

#[test]
fn try_wrap_decodes_from_the_cursor() {
    let plain = sample(100);
    let mut stream = vec![1u8, 2, 3];
    stream.extend_from_slice(&gzip(&plain));
    let mut input = on_file(stream);
    assert_eq!(input.read(3).unwrap(), vec![1, 2, 3]);
    let mut inner = input.try_wrap(CompressionFormat::Gzip).unwrap();
    assert_eq!(inner.read_to_end().unwrap(), plain);
}

#[test]
fn try_wrap_reports_what_the_decoder_rejects() {
    let input = piped(sample(100), 10);
    assert!(matches!(
        input.try_wrap(CompressionFormat::Gzip),
        Err(IoError::InvalidData)
    ));
    let input = piped(sample(100), 10);
    assert!(matches!(
        input.try_wrap(CompressionFormat::Lzip),
        Err(IoError::Unsupported)
    ));
    let input = piped(sample(100), 10);
    assert!(matches!(
        input.try_wrap(CompressionFormat::Compress),
        Err(IoError::Unsupported)
    ));
}

#[test]
fn an_input_passes_on_the_failure_of_its_source() {
    let mut input: Input<MemorySource, MemoryFile> =
        Input::from_reader(MemorySource::failing_after(sample(10), 0, 9)).unwrap();
    assert_eq!(input.peek(4), Err(IoError::Device(9)));
    assert_eq!(input.read(4), Err(IoError::Device(9)));
    assert_eq!(input.read_to_end(), Err(IoError::Device(9)));
    assert_eq!(input.seek(SeekFrom::Current(0)), Ok(0));
}

#[test]
fn a_file_is_read_from_where_its_cursor_stands() {
    use_cursor_at(3);
    use_cursor_at(0);
    use_cursor_at(20);
}

fn use_cursor_at(start: u64) {
    let data = sample(20);
    let mut file = MemoryFile::from_bytes(data.clone());
    naru::io::device::RandomAccess::seek(&mut file, SeekFrom::Start(start)).unwrap();
    let mut input: Input<MemorySource, MemoryFile> = Input::from_file(file);
    assert_eq!(input.seek(SeekFrom::Current(0)), Ok(start));
    assert_eq!(input.read_to_end().unwrap(), data[start as usize..].to_vec());
    assert_eq!(input.seek(SeekFrom::Start(1)), Ok(1));
    assert_eq!(input.peek(2).unwrap(), data[1..3].to_vec());
}

#[test]
fn a_seekable_handle_is_rewound_before_it_is_read() {
    let data = sample(30);
    let mut file = MemoryFile::from_bytes(data.clone());
    naru::io::device::RandomAccess::seek(&mut file, SeekFrom::Start(7)).unwrap();
    let mut input = Input::stdin(file).unwrap();
    assert_eq!(input.read_to_end().unwrap(), data);
}

#[test]
fn the_outcome_of_the_probe_decides_the_form_of_an_input() {
    let data = sample(12);
    let mut file = MemoryFile::from_bytes(data.clone());
    naru::io::device::RandomAccess::seek(&mut file, SeekFrom::Start(5)).unwrap();
    let mut direct = Input::from_probe(file, Ok(5)).unwrap();
    assert!(direct.is_direct());
    assert_eq!(direct.read_to_end().unwrap(), data[5..].to_vec());

    let mut cached = Input::from_probe(MemoryFile::pipe(data.clone()), Err(IoError::Device(29))).unwrap();
    assert!(!cached.is_direct());
    assert_eq!(cached.seek(SeekFrom::Start(10)), Ok(10));
    assert_eq!(cached.seek(SeekFrom::Start(2)), Ok(2));
    assert_eq!(cached.read_to_end().unwrap(), data[2..].to_vec());
}
