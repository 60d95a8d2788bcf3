use std::io::Write;
use tarstream::convert::decode_file_into;
use tarstream::error::ConvertError;
use tarstream::source::{chunked, SliceReader, Source};

fn sample(len: usize) -> Vec<u8> {
    (0..len).map(|i| (i * 31 % 251) as u8).collect()
}

fn gzip_of(data: &[u8]) -> Vec<u8> {
    let mut e = flate2::write::GzEncoder::new(Vec::new(), flate2::Compression::default());
    e.write_all(data).unwrap();
    e.finish().unwrap()
}

fn bzip2_of(data: &[u8]) -> Vec<u8> {
    let mut e = bzip2::write::BzEncoder::new(Vec::new(), bzip2::Compression::default());
    e.write_all(data).unwrap();
    e.finish().unwrap()
}

fn xz_of(data: &[u8]) -> Vec<u8> {
    let mut e = xz2::write::XzEncoder::new(Vec::new(), 6);
    e.write_all(data).unwrap();
    e.finish().unwrap()
}

fn drain(mut source: Source, block: usize) -> (Result<usize, ConvertError>, Vec<u8>) {
    let mut buffer = vec![0u8; block];
    let mut sink = Vec::new();
    let r = chunked(&mut source, &mut buffer, &mut sink);
    assert_eq!(buffer.len(), block);
    (r, sink)
}

#[test]
fn slice_reader_reads_in_pieces() {
    let data = [1u8, 2, 3, 4, 5];
    let mut reader = SliceReader::new(&data);
    let mut buf = vec![0u8; 2];
    assert_eq!(reader.read(&mut buf), 2);
    assert_eq!(buf, vec![1, 2]);
    assert_eq!(reader.read(&mut buf), 2);
    assert_eq!(buf, vec![3, 4]);
    assert_eq!(reader.read(&mut buf), 1);
    assert_eq!(buf[0], 5);
    assert_eq!(reader.read(&mut buf), 0);
    assert_eq!(reader.read(&mut buf), 0);
}

#[test]
fn slice_reader_with_an_empty_buffer_reads_nothing() {
    let data = [1u8, 2, 3];
    let mut reader = SliceReader::new(&data);
    let mut empty: Vec<u8> = Vec::new();
    assert_eq!(reader.read(&mut empty), 0);
    let mut buf = vec![0u8; 8];
    assert_eq!(reader.read(&mut buf), 3);
    assert_eq!(&buf[..3], &[1, 2, 3]);
    assert_eq!(&buf[3..], &[0, 0, 0, 0, 0]);
}

#[test]
fn source_read_hands_out_the_next_bytes() {
    let data = [9u8, 8, 7];
    let mut source = Source::plain(&data);
    let mut buf = vec![0u8; 2];
    assert_eq!(source.read(&mut buf), Ok(2));
    assert_eq!(buf, vec![9, 8]);
    assert_eq!(source.read(&mut buf), Ok(1));
    assert_eq!(buf[0], 7);
    assert_eq!(source.read(&mut buf), Ok(0));
}

#[test]
fn chunked_copies_plain_bytes() {
    let data = sample(1000);
    for block in [1usize, 2, 7, 999, 1000, 1001, 4096] {
        let (r, sink) = drain(Source::plain(&data), block);
        assert_eq!(r, Ok(1000));
        assert_eq!(sink, data);
    }
}

#[test]
fn chunked_of_nothing_is_nothing() {
    let (r, sink) = drain(Source::plain(&[]), 16);
    assert_eq!(r, Ok(0));
    assert!(sink.is_empty());
}

#[test]
fn chunked_appends_to_what_the_sink_held() {
    let data = [4u8, 5, 6];
    let mut source = Source::plain(&data);
    let mut buffer = vec![0u8; 2];
    let mut sink = vec![1u8, 2, 3];
    assert_eq!(chunked(&mut source, &mut buffer, &mut sink), Ok(3));
    assert_eq!(sink, vec![1, 2, 3, 4, 5, 6]);
    assert_eq!(chunked(&mut source, &mut buffer, &mut sink), Ok(0));
    assert_eq!(sink, vec![1, 2, 3, 4, 5, 6]);
}

#[test]
fn chunked_with_an_empty_buffer_reads_nothing() {
    let data = sample(10);
    let (r, sink) = drain(Source::plain(&data), 0);
    assert_eq!(r, Ok(0));
    assert!(sink.is_empty());
}

#[test]
fn chunked_decodes_gzip() {
    let data = sample(100_000);
    let packed = gzip_of(&data);
    assert_ne!(packed, data);
    for block in [1usize, 13, 512, 65536, 1 << 20] {
        let (r, sink) = drain(Source::gzip(&packed), block);
        assert_eq!(r, Ok(100_000));
        assert_eq!(sink, data);
    }
}

#[test]
fn chunked_decodes_bzip2() {
    let data = sample(100_000);
    let packed = bzip2_of(&data);
    assert_ne!(packed, data);
    for block in [1usize, 13, 512, 65536, 1 << 20] {
        let (r, sink) = drain(Source::bzip2(&packed), block);
        assert_eq!(r, Ok(100_000));
        assert_eq!(sink, data);
    }
}

#[test]
fn chunked_decodes_xz() {
    let data = sample(100_000);
    let packed = xz_of(&data);
    assert_ne!(packed, data);
    for block in [1usize, 13, 512, 65536, 1 << 20] {
        let (r, sink) = drain(Source::xz(&packed), block);
        assert_eq!(r, Ok(100_000));
        assert_eq!(sink, data);
    }
}

#[test]
fn chunked_decodes_an_empty_payload() {
    let (r, sink) = drain(Source::gzip(&gzip_of(&[])), 64);
    assert_eq!(r, Ok(0));
    assert!(sink.is_empty());
    let (r, sink) = drain(Source::bzip2(&bzip2_of(&[])), 64);
    assert_eq!(r, Ok(0));
    assert!(sink.is_empty());
    let (r, sink) = drain(Source::xz(&xz_of(&[])), 64);
    assert_eq!(r, Ok(0));
    assert!(sink.is_empty());
}

#[test]
fn chunked_fails_on_what_is_no_gzip() {
    let (r, _) = drain(Source::gzip(b"this is no gzip stream at all"), 64);
    assert_eq!(r, Err(ConvertError::Decode));
}

#[test]
fn chunked_fails_on_what_is_no_bzip2() {
    let (r, _) = drain(Source::bzip2(b"this is no bzip2 stream at all"), 64);
    assert_eq!(r, Err(ConvertError::Decode));
}

#[test]
fn chunked_fails_on_what_is_no_xz() {
    let (r, _) = drain(Source::xz(b"this is no xz stream at all"), 64);
    assert_eq!(r, Err(ConvertError::Decode));
}

#[test]
fn chunked_fails_on_truncated_gzip() {
    let data = sample(50_000);
    let packed = gzip_of(&data);
    let cut = &packed[..packed.len() / 2];
    let (r, sink) = drain(Source::gzip(cut), 256);
    assert_eq!(r, Err(ConvertError::Decode));
    assert!(sink.len() <= data.len());
    assert_eq!(&sink[..], &data[..sink.len()]);
}

#[test]
fn chunked_fails_on_truncated_bzip2() {
    let packed = bzip2_of(&sample(50_000));
    let (r, _) = drain(Source::bzip2(&packed[..packed.len() / 2]), 256);
    assert_eq!(r, Err(ConvertError::Decode));
}

#[test]
fn chunked_fails_on_truncated_xz() {
    let packed = xz_of(&sample(50_000));
    let (r, _) = drain(Source::xz(&packed[..packed.len() / 2]), 256);
    assert_eq!(r, Err(ConvertError::Decode));
}

#[test]
fn chunked_fails_on_a_damaged_gzip_checksum() {
    let data = sample(1000);
    let mut packed = gzip_of(&data);
    let n = packed.len();
    packed[n - 8] ^= 0xff;
    let (r, sink) = drain(Source::gzip(&packed), 128);
    assert_eq!(r, Err(ConvertError::Decode));
    assert_eq!(&sink[..], &data[..sink.len()]);
}

#[test]
fn gzip_decodes_the_first_member_only() {
    let mut packed = gzip_of(b"first");
    packed.extend_from_slice(&gzip_of(b"second"));
    let (r, sink) = drain(Source::gzip(&packed), 64);
    assert_eq!(r, Ok(5));
    assert_eq!(sink, b"first");
}

#[test]
fn decode_file_into_fills_the_destination() {
    let data = sample(3000);
    let packed = gzip_of(&data);
    let mut buffer = vec![0u8; 100];
    let mut dst = vec![0xaau8];
    assert_eq!(decode_file_into(&mut buffer, &mut dst, Source::gzip(&packed)), Ok(()));
    assert_eq!(dst[0], 0xaa);
    assert_eq!(&dst[1..], &data[..]);
    assert_eq!(buffer.len(), 100);
}

#[test]
fn decode_file_into_with_an_empty_buffer_writes_nothing() {
    let data = sample(30);
    let mut buffer: Vec<u8> = Vec::new();
    let mut dst = Vec::new();
    assert_eq!(decode_file_into(&mut buffer, &mut dst, Source::plain(&data)), Ok(()));
    assert!(dst.is_empty());
}

#[test]
fn decode_file_into_fails_on_corrupt_input() {
    let mut buffer = vec![0u8; 100];
    let mut dst = Vec::new();
    assert_eq!(
        decode_file_into(&mut buffer, &mut dst, Source::xz(b"garbage")),
        Err(ConvertError::Decode)
    );
}

#[test]
fn reads_into_an_empty_buffer_lose_nothing() {
    let data = sample(20_000);
    let packed = [gzip_of(&data), bzip2_of(&data), xz_of(&data)];
    let sources = [Source::gzip(&packed[0]), Source::bzip2(&packed[1]), Source::xz(&packed[2])];
    for mut source in sources {
        let mut empty: Vec<u8> = Vec::new();
        let mut buf = vec![0u8; 97];
        let mut got = Vec::new();
        loop {
            assert_eq!(source.read(&mut empty), Ok(0));
            let n = source.read(&mut buf).unwrap();
            assert_eq!(source.read(&mut empty), Ok(0));
            if n == 0 {
                break;
            }
            got.extend_from_slice(&buf[..n]);
        }
        assert_eq!(got, data);
        assert_eq!(source.read(&mut buf), Ok(0));
    }
}

#[test]
fn reads_of_changing_sizes_bring_the_same_bytes() {
    let data = sample(50_000);
    let packed = [gzip_of(&data), bzip2_of(&data), xz_of(&data)];
    let sources = [Source::gzip(&packed[0]), Source::bzip2(&packed[1]), Source::xz(&packed[2])];
    for mut source in sources {
        let mut got = Vec::new();
        let mut size = 1usize;
        loop {
            let mut buf = vec![0u8; size];
            let n = source.read(&mut buf).unwrap();
            assert!(n <= size);
            if n == 0 {
                break;
            }
            got.extend_from_slice(&buf[..n]);
            size = size * 3 % 4099 + 1;
        }
        assert_eq!(got, data);
    }
}

#[test]
fn chunked_on_an_empty_source_leaves_the_buffer() {
    let mut source = Source::plain(&[]);
    let mut buffer = vec![0u8; 4];
    let mut sink = Vec::new();
    assert_eq!(chunked(&mut source, &mut buffer, &mut sink), Ok(0));
    assert_eq!(buffer, vec![0, 0, 0, 0]);
    assert!(sink.is_empty());
    let mut buffer = vec![9u8, 8, 7];
    assert_eq!(chunked(&mut source, &mut buffer, &mut sink), Ok(0));
    assert_eq!(buffer, vec![9, 8, 7]);
}

#[test]
fn chunked_on_a_drained_source_leaves_the_buffer() {
    let data = [1u8, 2, 3, 4, 5];
    let mut source = Source::plain(&data);
    let mut buffer = vec![0u8; 3];
    let mut sink = Vec::new();
    assert_eq!(chunked(&mut source, &mut buffer, &mut sink), Ok(5));
    assert_eq!(buffer, vec![4, 5, 3]);
    assert_eq!(chunked(&mut source, &mut buffer, &mut sink), Ok(0));
    assert_eq!(buffer, vec![4, 5, 3]);
    assert_eq!(sink, data);
}

#[test]
fn plain_read_leaves_the_rest_of_the_buffer() {
    let data = [1u8, 2];
    let mut source = Source::plain(&data);
    let mut buf = vec![7u8; 5];
    assert_eq!(source.read(&mut buf), Ok(2));
    assert_eq!(buf, vec![1, 2, 7, 7, 7]);
}

#[test]
fn intact_streams_are_drained_whatever_the_buffer() {
    let data = sample(5000);
    let packed = [gzip_of(&data), bzip2_of(&data), xz_of(&data)];
    for block in [0usize, 1, 2, 3, 5, 64, 4999, 5000, 5001] {
        let want = if block == 0 { Vec::new() } else { data.clone() };
        assert_eq!(drain(Source::gzip(&packed[0]), block), (Ok(want.len()), want.clone()));
        assert_eq!(drain(Source::bzip2(&packed[1]), block), (Ok(want.len()), want.clone()));
        assert_eq!(drain(Source::xz(&packed[2]), block), (Ok(want.len()), want.clone()));
    }
}
