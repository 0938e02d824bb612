use pty_bridge::buffer::OutputBuffer;

#[test]
fn reports_dropped_bytes_and_monotonic_cursor() {
    let mut buffer = OutputBuffer::new(4);
    buffer.append(b"abcdef");
    let read = buffer.read(0, 10);
    assert_eq!(read.bytes, b"cdef");
    assert_eq!(read.dropped_bytes, 2);
    assert_eq!(read.next_cursor, 6);
}

#[test]
fn supports_independent_cursors() {
    let mut buffer = OutputBuffer::new(16);
    buffer.append(b"hello");
    assert_eq!(buffer.read(0, 2).bytes, b"he");
    assert_eq!(buffer.read(0, 5).bytes, b"hello");
}

#[test]
fn pieces_of_output_are_retained_as_one_stream() {
    let mut whole = OutputBuffer::new(5);
    whole.append(b"abcdefgh");
    let mut pieces = OutputBuffer::new(5);
    pieces.append(b"abc");
    pieces.append(b"");
    pieces.append(b"defgh");
    assert_eq!(pieces.range(), whole.range());
    assert_eq!(pieces.range(), (3, 8));
    assert_eq!(pieces.tail(10), b"defgh");
    assert_eq!(whole.tail(2), b"gh");
}

#[test]
fn reads_continue_where_the_last_one_ended() {
    let mut buffer = OutputBuffer::new(64);
    buffer.append(b"hello world");
    let first = buffer.read(0, 5);
    let second = buffer.read(first.next_cursor, 6);
    assert_eq!(second.start_cursor, 5);
    assert_eq!([first.bytes, second.bytes].concat(), b"hello world");
    assert_eq!(second.next_cursor, 11);
}

#[test]
fn cursors_beyond_the_end_read_nothing() {
    let mut buffer = OutputBuffer::new(8);
    buffer.append(b"abc");
    let read = buffer.read(99, 10);
    assert!(read.bytes.is_empty());
    assert_eq!(read.start_cursor, 3);
    assert_eq!(read.next_cursor, 3);
    assert_eq!(read.dropped_bytes, 0);
}

#[test]
fn a_buffer_without_room_counts_what_it_drops() {
    let mut buffer = OutputBuffer::new(0);
    buffer.append(b"abc");
    let read = buffer.read(0, 10);
    assert!(read.bytes.is_empty());
    assert_eq!(read.dropped_bytes, 3);
    assert_eq!(read.next_cursor, 3);
}

#[test]
fn only_the_stream_counts() {
    let data: Vec<u8> = (0..50).collect();
    for size in 1..=50 {
        let mut buffer = OutputBuffer::new(16);
        let mut end = 0;
        for piece in data.chunks(size) {
            buffer.append(piece);
            assert!(buffer.range().1 >= end);
            end = buffer.range().1;
        }
        assert_eq!(buffer.range(), (34, 50));
        assert_eq!(buffer.read(0, usize::MAX).bytes, data[34..]);
    }
}
