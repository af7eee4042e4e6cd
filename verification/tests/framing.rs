use plug::connection;
use plug::frame::{get_length, put_length};
use plug::{ConnectionError, Stream};

fn framed(payload: &[u8]) -> Vec<u8> {
    let mut wire = (payload.len() as u64).to_be_bytes().to_vec();
    wire.extend_from_slice(payload);
    wire
}

#[test]
fn length_is_eight_bytes_big_endian() {
    let mut out = Vec::new();
    put_length(&mut out, 7);
    assert_eq!(out, vec![0, 0, 0, 0, 0, 0, 0, 7]);
}

#[test]
fn length_keeps_what_is_already_there() {
    let mut out = vec![9u8, 9];
    put_length(&mut out, 0x0102_0304_0506_0708);
    assert_eq!(out, vec![9, 9, 1, 2, 3, 4, 5, 6, 7, 8]);
}

#[test]
fn length_agrees_with_std_at_the_edges() {
    for n in [0u64, 1, 255, 256, 65_535, 65_536, 1 << 32, (1 << 56) - 1, 1 << 56, u64::MAX] {
        let mut out = Vec::new();
        put_length(&mut out, n);
        assert_eq!(out, n.to_be_bytes().to_vec());
        assert_eq!(get_length(&out), Some(n));
    }
}

#[test]
fn length_needs_eight_bytes() {
    assert_eq!(get_length(&[]), None);
    assert_eq!(get_length(&[0, 0, 0, 0, 0, 0, 1]), None);
    assert_eq!(get_length(&[0, 0, 0, 0, 0, 0, 1, 2]), Some(258));
}

#[test]
fn length_reads_only_the_first_eight_bytes() {
    assert_eq!(get_length(&[0, 0, 0, 0, 0, 0, 0, 3, 0xff, 0xff]), Some(3));
}

#[test]
fn write_puts_prefix_then_payload() {
    let mut stream = Stream::new();
    connection::write(&mut stream, b"abc");
    assert_eq!(stream.take(), vec![0, 0, 0, 0, 0, 0, 0, 3, b'a', b'b', b'c']);
}

#[test]
fn write_of_nothing_is_a_bare_prefix() {
    let mut stream = Stream::new();
    connection::write(&mut stream, b"");
    assert_eq!(stream.take(), vec![0u8; 8]);
}

#[test]
fn writes_queue_up_in_order() {
    let mut stream = Stream::new();
    connection::write(&mut stream, b"one");
    connection::write(&mut stream, b"three");
    let mut expected = framed(b"one");
    expected.extend(framed(b"three"));
    assert_eq!(stream.take(), expected);
    assert_eq!(stream.take(), Vec::<u8>::new());
}

#[test]
fn write_then_read_gives_the_payload_back() {
    for n in [0usize, 1, 7, 8, 9, 255, 256, 257, 4096, 70_000] {
        let payload: Vec<u8> = (0..n).map(|i| (i * 31 % 251) as u8).collect();
        let mut writer = Stream::new();
        connection::write(&mut writer, &payload);
        let mut reader = Stream::new();
        reader.feed(&writer.take());
        let mut buffer = Vec::new();
        let got = connection::read(&mut reader, &mut buffer).unwrap();
        assert_eq!(got, n);
        assert_eq!(&buffer[..got], &payload[..]);
        assert_eq!(buffer.len(), n);
        assert_eq!(reader.missing(), 8);
    }
}

#[test]
fn frames_are_read_in_the_order_written() {
    let mut writer = Stream::new();
    connection::write(&mut writer, b"first");
    connection::write(&mut writer, b"");
    connection::write(&mut writer, b"third!");
    let mut reader = Stream::new();
    reader.feed(&writer.take());
    let mut buffer = Vec::new();
    assert_eq!(connection::read(&mut reader, &mut buffer).unwrap(), 5);
    assert_eq!(&buffer[..5], b"first");
    assert_eq!(connection::read(&mut reader, &mut buffer).unwrap(), 0);
    assert_eq!(connection::read(&mut reader, &mut buffer).unwrap(), 6);
    assert_eq!(&buffer[..6], b"third!");
    assert!(matches!(
        connection::read(&mut reader, &mut buffer),
        Err(ConnectionError::ShortRead { missing: 8 })
    ));
}

#[test]
fn read_buffer_grows_and_never_shrinks() {
    let mut stream = Stream::new();
    stream.feed(&framed(b"0123456789"));
    stream.feed(&framed(b"abc"));
    let mut buffer = Vec::new();
    assert_eq!(connection::read(&mut stream, &mut buffer).unwrap(), 10);
    assert_eq!(buffer.len(), 10);
    assert_eq!(connection::read(&mut stream, &mut buffer).unwrap(), 3);
    assert_eq!(buffer.len(), 10);
    assert_eq!(buffer, b"abc3456789".to_vec());
}

#[test]
fn read_buffer_keeps_its_length_under_a_small_frame() {
    let mut stream = Stream::new();
    stream.feed(&framed(b"hi"));
    let mut buffer = vec![7u8; 5];
    assert_eq!(connection::read(&mut stream, &mut buffer).unwrap(), 2);
    assert_eq!(buffer, vec![b'h', b'i', 7, 7, 7]);
}

#[test]
fn read_grows_a_buffer_that_is_too_short() {
    let mut stream = Stream::new();
    stream.feed(&framed(b"hello"));
    let mut buffer = vec![7u8; 2];
    assert_eq!(connection::read(&mut stream, &mut buffer).unwrap(), 5);
    assert_eq!(buffer, b"hello".to_vec());
}

#[test]
fn read_of_an_empty_stream_misses_the_prefix() {
    let mut stream = Stream::new();
    let mut buffer = vec![1u8, 2, 3];
    assert!(matches!(
        connection::read(&mut stream, &mut buffer),
        Err(ConnectionError::ShortRead { missing: 8 })
    ));
    assert_eq!(buffer, vec![1, 2, 3]);
}

#[test]
fn read_of_a_partial_prefix_says_how_much_is_missing() {
    let mut stream = Stream::new();
    stream.feed(&[0, 0, 0]);
    let mut buffer = Vec::new();
    assert!(matches!(
        connection::read(&mut stream, &mut buffer),
        Err(ConnectionError::ShortRead { missing: 5 })
    ));
    assert_eq!(stream.missing(), 5);
}

#[test]
fn read_of_a_partial_payload_changes_nothing() {
    let wire = framed(b"hello");
    let mut stream = Stream::new();
    stream.feed(&wire[..10]);
    let mut buffer = vec![9u8];
    assert!(matches!(
        connection::read(&mut stream, &mut buffer),
        Err(ConnectionError::ShortRead { missing: 3 })
    ));
    assert_eq!(buffer, vec![9]);
    stream.feed(&wire[10..]);
    assert_eq!(stream.missing(), 0);
    assert_eq!(connection::read(&mut stream, &mut buffer).unwrap(), 5);
    assert_eq!(buffer, b"hello".to_vec());
}

#[test]
fn read_of_a_huge_announced_length_reports_it_missing() {
    let mut stream = Stream::new();
    stream.feed(&[0xff; 8]);
    stream.feed(b"xy");
    let mut buffer = Vec::new();
    assert!(matches!(
        connection::read(&mut stream, &mut buffer),
        Err(ConnectionError::ShortRead { missing }) if missing == u64::MAX - 2
    ));
    assert!(buffer.is_empty());
}

#[test]
fn missing_counts_down_byte_by_byte() {
    let wire = framed(b"abcd");
    let mut stream = Stream::new();
    let expected = [8u64, 7, 6, 5, 4, 3, 2, 1, 4, 3, 2, 1, 0];
    assert_eq!(stream.missing(), expected[0]);
    for (i, byte) in wire.iter().enumerate() {
        stream.feed(&[*byte]);
        assert_eq!(stream.missing(), expected[i + 1]);
    }
}

#[test]
fn stream_read_u64_takes_eight_bytes() {
    let mut stream = Stream::new();
    stream.feed(&[0, 0, 0, 0, 0, 0, 1, 0, 42]);
    assert_eq!(stream.read_u64().unwrap(), 256);
    assert!(matches!(
        stream.read_u64(),
        Err(ConnectionError::ShortRead { missing: 7 })
    ));
}

#[test]
fn stream_read_exact_fills_the_front_only() {
    let mut stream = Stream::new();
    stream.feed(b"abcdef");
    let mut buffer = vec![0u8; 4];
    assert_eq!(stream.read_exact(&mut buffer, 2).unwrap(), 2);
    assert_eq!(buffer, vec![b'a', b'b', 0, 0]);
    assert_eq!(stream.read_exact(&mut buffer, 4).unwrap(), 4);
    assert_eq!(buffer, b"cdef".to_vec());
    assert!(matches!(
        stream.read_exact(&mut buffer, 1),
        Err(ConnectionError::ShortRead { missing: 1 })
    ));
    assert_eq!(stream.read_exact(&mut buffer, 0).unwrap(), 0);
}

#[test]
fn stream_write_u64_then_write_all() {
    let mut stream = Stream::new();
    stream.write_u64(2);
    stream.write_all(b"ok");
    assert_eq!(stream.take(), framed(b"ok"));
}

#[test]
fn stream_keeps_directions_apart() {
    let mut stream = Stream::new();
    stream.feed(&framed(b"in"));
    connection::write(&mut stream, b"out");
    assert_eq!(stream.take(), framed(b"out"));
    let mut buffer = Vec::new();
    assert_eq!(connection::read(&mut stream, &mut buffer).unwrap(), 2);
    assert_eq!(buffer, b"in".to_vec());
}
