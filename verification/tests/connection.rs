use bytes::Bytes;
use loja::connection::{Connection, ReadStep, DEFAULT_BUFFER_SIZE};
use loja::error::{Error, IoErrorKind};
use loja::frame::Frame;

fn feed(conn: &mut Connection, bytes: &[u8]) {
    conn.buffer_mut().extend_from_slice(bytes);
}

fn samples() -> Vec<(&'static [u8], Frame)> {
    vec![
        // simple string
        (b"+OK\r\n", Frame::SimpleString("OK".to_string())),
        // simple error
        (
            b"-ERR unknown command 'foobar'\r\n",
            Frame::SimpleError("ERR unknown command 'foobar'".to_string()),
        ),
        // integer
        (b":1234\r\n", Frame::Integer(1234)),
        // null bulk string
        (b"$-1\r\n", Frame::NullBulkString),
        // bulk string
        (b"$4\r\nping\r\n", Frame::BulkString(Bytes::from("ping"))),
        (
            // simple array
            b"*2\r\n+OK\r\n$6\r\nfoobar\r\n",
            Frame::Array(vec![
                Frame::SimpleString("OK".to_string()),
                Frame::BulkString(Bytes::from("foobar")),
            ]),
        ),
        (
            // nested array
            b"*2\r\n*2\r\n+OK\r\n$6\r\nfoobar\r\n$3\r\nbaz\r\n",
            Frame::Array(vec![
                Frame::Array(vec![
                    Frame::SimpleString("OK".to_string()),
                    Frame::BulkString(Bytes::from("foobar")),
                ]),
                Frame::BulkString(Bytes::from("baz")),
            ]),
        ),
    ]
}

#[test]
fn test_read_write_frame() {
    let bytes_frames = samples();
    let mut conn = Connection::new();
    for (bytes, _f) in &bytes_frames {
        feed(&mut conn, bytes);
    }
    for (bytes, frame) in &bytes_frames {
        // read a frame from the connection
        let received = match conn.read_frame(None).unwrap() {
            ReadStep::Frame(received) => received,
            other => panic!("unexpected step: {:?}", other),
        };
        // assert the frame read is the equivalent to the binary representation
        assert_eq!(received, *frame);
        // write the same frame, which must come out as it was read
        assert_eq!(Connection::write_frame(frame), *bytes);
    }
    assert!(matches!(conn.read_frame(Some(0)).unwrap(), ReadStep::Closed));
}

#[test]
fn null_is_written_as_the_missing_bulk_string() {
    assert_eq!(Connection::write_frame(&Frame::Null), b"$-1\r\n");
    assert_eq!(Connection::write_frame(&Frame::NullBulkString), b"$-1\r\n");
}

#[test]
fn a_frame_split_anywhere_is_read_once_it_is_whole() {
    for (bytes, frame) in samples() {
        for cut in 0..=bytes.len() {
            let mut conn = Connection::new();
            feed(&mut conn, &bytes[..cut]);
            if cut < bytes.len() {
                assert!(matches!(conn.read_frame(None).unwrap(), ReadStep::NeedMore));
                assert_eq!(conn.buffer_mut().len(), cut);
                assert!(conn.parse_frame().unwrap().is_none());
            }
            feed(&mut conn, &bytes[cut..]);
            match conn.read_frame(Some(bytes.len() - cut)).unwrap() {
                ReadStep::Frame(received) => assert_eq!(received, frame),
                other => panic!("unexpected step: {:?}", other),
            }
            assert!(conn.buffer_mut().is_empty());
            assert!(matches!(conn.read_frame(Some(0)).unwrap(), ReadStep::Closed));
        }
    }
}

#[test]
fn a_frame_that_arrives_byte_by_byte_is_read_once() {
    let wire = b"*3\r\n$3\r\nset\r\n$3\r\nfoo\r\n$3\r\nbar\r\n";
    let mut conn = Connection::new();
    let mut received = None;
    for (i, byte) in wire.iter().enumerate() {
        assert!(matches!(conn.read_frame(received).unwrap(), ReadStep::NeedMore));
        feed(&mut conn, &[*byte]);
        received = Some(1);
        assert_eq!(conn.buffer_mut().len(), i + 1);
    }
    match conn.read_frame(received).unwrap() {
        ReadStep::Frame(frame) => assert_eq!(
            frame,
            Frame::Array(vec![
                Frame::BulkString(Bytes::from("set")),
                Frame::BulkString(Bytes::from("foo")),
                Frame::BulkString(Bytes::from("bar")),
            ])
        ),
        other => panic!("unexpected step: {:?}", other),
    }
}

#[test]
fn bytes_after_a_frame_stay_in_the_buffer() {
    let mut conn = Connection::new();
    feed(&mut conn, b"+one\r\n+two\r\n+thr");
    assert_eq!(
        conn.parse_frame().unwrap(),
        Some(Frame::SimpleString("one".to_string()))
    );
    assert_eq!(&conn.buffer_mut()[..], b"+two\r\n+thr");
    assert_eq!(
        conn.parse_frame().unwrap(),
        Some(Frame::SimpleString("two".to_string()))
    );
    assert_eq!(conn.parse_frame().unwrap(), None);
    assert_eq!(&conn.buffer_mut()[..], b"+thr");
}

#[test]
fn end_of_stream_between_frames_is_a_clean_close() {
    let mut conn = Connection::new();
    assert!(matches!(conn.read_frame(None).unwrap(), ReadStep::NeedMore));
    assert!(matches!(conn.read_frame(Some(0)).unwrap(), ReadStep::Closed));
}

#[test]
fn end_of_stream_inside_a_frame_is_a_connection_reset() {
    let mut conn = Connection::new();
    feed(&mut conn, b"$4\r\npi");
    assert!(matches!(conn.read_frame(Some(6)).unwrap(), ReadStep::NeedMore));
    match conn.read_frame(Some(0)) {
        Err(Error::Io(IoErrorKind::ConnectionReset, msg)) => {
            assert_eq!(msg, "connection was closed mid frame")
        }
        other => panic!("unexpected result: {:?}", other),
    }
    assert_eq!(&conn.buffer_mut()[..], b"$4\r\npi");
}

#[test]
fn a_whole_frame_is_handed_out_even_at_the_end_of_the_stream() {
    let mut conn = Connection::new();
    feed(&mut conn, b":7\r\n");
    match conn.read_frame(Some(0)).unwrap() {
        ReadStep::Frame(frame) => assert_eq!(frame, Frame::Integer(7)),
        other => panic!("unexpected step: {:?}", other),
    }
    assert!(matches!(conn.read_frame(Some(0)).unwrap(), ReadStep::Closed));
}

#[test]
fn a_malformed_frame_is_an_error_and_stays_in_the_buffer() {
    let mut conn = Connection::new();
    feed(&mut conn, b"?what\r\n");
    assert!(matches!(conn.read_frame(None), Err(Error::Protocol(_))));
    assert_eq!(&conn.buffer_mut()[..], b"?what\r\n");

    let mut conn = Connection::new();
    feed(&mut conn, b"+\xff\r\n");
    assert!(matches!(conn.parse_frame(), Err(Error::Utf8(_))));
    assert_eq!(&conn.buffer_mut()[..], b"+\xff\r\n");

    let mut conn = Connection::new();
    feed(&mut conn, b"$-7\r\n");
    assert!(matches!(conn.parse_frame(), Err(Error::Protocol(_))));
}

#[test]
fn the_read_buffer_is_made_for_sixteen_kibibytes() {
    assert_eq!(DEFAULT_BUFFER_SIZE, 16 * 1024);
    let mut conn = Connection::new();
    assert!(conn.buffer_mut().capacity() >= DEFAULT_BUFFER_SIZE);
    assert!(conn.buffer_mut().is_empty());
}
