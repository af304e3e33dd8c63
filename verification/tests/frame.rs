use bytes::Bytes;
use loja::cursor::Cursor;
use loja::error::Error;
use loja::frame::Frame;

#[test]
fn test_all_data_types() {
    let frames: &[&[u8]] = &[
        b"+OK\r\n",
        b"-ERR unknown command 'foobar'\r\n",
        b":1000\r\n",
        b"$6\r\nfoobar\r\n",
        b"$0\r\n\r\n",
        b"$-1\r\n",
        b"*2\r\n+OK\r\n$6\r\nfoobar\r\n",
        b"*1\r\n+OK\r\n",
        b"*-1\r\n",
        b"*0\r\n",
        b"_\r\n",
    ];
    for src in frames {
        let mut buf = Cursor::new(src);
        let frame = Frame::parse(&mut buf).unwrap();
        match frame {
            Frame::SimpleString(_) => (),
            Frame::SimpleError(_) => (),
            Frame::Integer(_) => (),
            Frame::BulkString(_) => (),
            Frame::Array(_) => (),
            Frame::NullBulkString => (),
            Frame::NullArray => (),
            Frame::Null => (),
        }
    }
}

#[test]
fn test_simple_string() {
    let mut buf = Cursor::new(b"+OK\r\n".as_slice());
    let frame = Frame::parse(&mut buf).unwrap();
    assert_eq!(frame, Frame::SimpleString("OK".to_string()));
}

#[test]
fn test_long_simple_string() {
    let mut buf = Cursor::new(b"+this is a long string\r\n".as_slice());
    let frame = Frame::parse(&mut buf).unwrap();
    assert_eq!(
        frame,
        Frame::SimpleString("this is a long string".to_string())
    );
}

#[test]
fn test_simple_error() {
    let mut buf = Cursor::new(b"-ERR unknown command 'foobar'\r\n".as_slice());
    let frame = Frame::parse(&mut buf).unwrap();
    assert_eq!(
        frame,
        Frame::SimpleError("ERR unknown command 'foobar'".to_string())
    );
}

#[test]
fn test_integer() {
    let mut buf = Cursor::new(b":1000\r\n".as_slice());
    let frame = Frame::parse(&mut buf).unwrap();
    assert_eq!(frame, Frame::Integer(1000));

    let mut buf = Cursor::new(b":000001\r\n".as_slice());
    let frame = Frame::parse(&mut buf).unwrap();
    assert_eq!(frame, Frame::Integer(1));

    let mut buf = Cursor::new(b":00000000\r\n".as_slice());
    let frame = Frame::parse(&mut buf).unwrap();
    assert_eq!(frame, Frame::Integer(0));

    let mut buf = Cursor::new(b":-0\r\n".as_slice());
    let frame = Frame::parse(&mut buf).unwrap();
    assert_eq!(frame, Frame::Integer(0));

    let mut buf = Cursor::new(b":+0\r\n".as_slice());
    let frame = Frame::parse(&mut buf).unwrap();
    assert_eq!(frame, Frame::Integer(0));

    let mut buf = Cursor::new(b":-1\r\n".as_slice());
    let frame = Frame::parse(&mut buf).unwrap();
    assert_eq!(frame, Frame::Integer(-1));

    let mut buf = Cursor::new(b":+1\r\n".as_slice());
    let frame = Frame::parse(&mut buf).unwrap();
    assert_eq!(frame, Frame::Integer(1));

    let mut buf = Cursor::new(b":+9223372036854775807\r\n".as_slice());
    let frame = Frame::parse(&mut buf).unwrap();
    assert_eq!(frame, Frame::Integer(i64::MAX));

    let mut buf = Cursor::new(b":-9223372036854775808\r\n".as_slice());
    let frame = Frame::parse(&mut buf).unwrap();
    assert_eq!(frame, Frame::Integer(i64::MIN));
}

#[test]
fn test_bulk_string() {
    let mut buf = Cursor::new(b"$6\r\nfoobar\r\n".as_slice());
    let frame = Frame::parse(&mut buf).unwrap();
    assert_eq!(frame, Frame::BulkString(Bytes::from("foobar")));

    let mut buf = Cursor::new(b"$0\r\n\r\n".as_slice());
    let frame = Frame::parse(&mut buf).unwrap();
    assert_eq!(frame, Frame::BulkString(Bytes::from("")));

    let mut buf = Cursor::new(b"$+2\r\nOK\r\n".as_slice());
    let frame = Frame::parse(&mut buf).unwrap();
    assert_eq!(frame, Frame::BulkString(Bytes::from("OK")));
}

#[test]
fn test_null_bulk_string() {
    let mut buf = Cursor::new(b"$-1\r\n".as_slice());
    let frame = Frame::parse(&mut buf).unwrap();
    assert_eq!(frame, Frame::NullBulkString);
}

#[test]
fn test_array() {
    let mut buf = Cursor::new(b"*2\r\n+OK\r\n$6\r\nfoobar\r\n".as_slice());
    let frame = Frame::parse(&mut buf).unwrap();
    assert_eq!(
        frame,
        Frame::Array(vec![
            Frame::SimpleString("OK".to_string()),
            Frame::BulkString(Bytes::from("foobar")),
        ])
    );

    let mut buf = Cursor::new(b"*1\r\n+OK\r\n".as_slice());
    let frame = Frame::parse(&mut buf).unwrap();
    assert_eq!(
        frame,
        Frame::Array(vec![Frame::SimpleString("OK".to_string())])
    );

    let mut buf = Cursor::new(b"*3\r\n+OK\r\n".as_slice());
    let frame = Frame::parse(&mut buf);
    assert!(frame.is_err());
}

#[test]
fn test_null_array() {
    let mut buf = Cursor::new(b"*-1\r\n".as_slice());
    let frame = Frame::parse(&mut buf).unwrap();
    assert_eq!(frame, Frame::NullArray);
}

#[test]
fn test_empty_array() {
    let mut buf = Cursor::new(b"*0\r\n".as_slice());
    let frame = Frame::parse(&mut buf).unwrap();
    assert_eq!(frame, Frame::array());
}

#[test]
fn test_recursive_array() {
    let mut buf = Cursor::new(b"*2\r\n*2\r\n+OK\r\n$6\r\nfoobar\r\n$3\r\nbaz\r\n".as_slice());
    let frame = Frame::parse(&mut buf).unwrap();
    assert_eq!(
        frame,
        Frame::Array(vec![
            Frame::Array(vec![
                Frame::SimpleString("OK".to_string()),
                Frame::BulkString(Bytes::from("foobar")),
            ]),
            Frame::BulkString(Bytes::from("baz")),
        ])
    );
}

#[test]
fn test_null() {
    let mut buf = Cursor::new(b"_\r\n".as_slice());
    let frame = Frame::parse(&mut buf).unwrap();
    assert_eq!(frame, Frame::Null);

    let mut buf = Cursor::new(b"_text\r\n".as_slice());
    let frame = Frame::parse(&mut buf);
    assert!(frame.is_err());
}

#[test]
fn test_invalid_frame() {
    let mut buf = Cursor::new(b"invalid frame\r\n".as_slice());
    let frame = Frame::parse(&mut buf);
    assert!(frame.is_err());
}

fn parse(src: &[u8]) -> Result<Frame, Error> {
    Frame::parse(&mut Cursor::new(src))
}

fn check(src: &[u8]) -> Result<usize, Error> {
    let mut buf = Cursor::new(src);
    Frame::check(&mut buf)?;
    Ok(buf.position())
}

fn encode(frame: &Frame) -> Vec<u8> {
    let mut out = Vec::new();
    frame.encode(&mut out);
    out
}

fn sample_frames() -> Vec<Frame> {
    vec![
        Frame::SimpleString("OK".to_string()),
        Frame::SimpleString(String::new()),
        Frame::SimpleString("caf\u{e9} \u{1f980}".to_string()),
        Frame::SimpleString("ends in a carriage return\r".to_string()),
        Frame::SimpleError("ERR unknown command 'foobar'".to_string()),
        Frame::Integer(0),
        Frame::Integer(-1),
        Frame::Integer(1234),
        Frame::Integer(i64::MAX),
        Frame::Integer(i64::MIN),
        Frame::BulkString(Bytes::from("ping")),
        Frame::BulkString(Bytes::new()),
        Frame::BulkString(Bytes::from(vec![0u8, 13, 10, 255, 36, 42])),
        Frame::BulkString(Bytes::from(vec![7u8; 1000])),
        Frame::Array(vec![]),
        Frame::Array(vec![
            Frame::SimpleString("OK".to_string()),
            Frame::BulkString(Bytes::from("foobar")),
        ]),
        Frame::Array(vec![
            Frame::Array(vec![
                Frame::SimpleString("OK".to_string()),
                Frame::BulkString(Bytes::from("foobar")),
                Frame::Array(vec![Frame::NullArray, Frame::Integer(-7)]),
            ]),
            Frame::BulkString(Bytes::from("baz")),
            Frame::NullBulkString,
        ]),
        Frame::NullBulkString,
        Frame::NullArray,
    ]
}

#[test]
fn encode_writes_the_wire_format() {
    assert_eq!(encode(&Frame::SimpleString("OK".to_string())), b"+OK\r\n");
    assert_eq!(
        encode(&Frame::SimpleError("ERR unknown command 'foobar'".to_string())),
        b"-ERR unknown command 'foobar'\r\n"
    );
    assert_eq!(encode(&Frame::Integer(1234)), b":1234\r\n");
    assert_eq!(encode(&Frame::Integer(0)), b":0\r\n");
    assert_eq!(encode(&Frame::Integer(-42)), b":-42\r\n");
    assert_eq!(encode(&Frame::Integer(i64::MAX)), b":9223372036854775807\r\n");
    assert_eq!(encode(&Frame::Integer(i64::MIN)), b":-9223372036854775808\r\n");
    assert_eq!(encode(&Frame::BulkString(Bytes::from("ping"))), b"$4\r\nping\r\n");
    assert_eq!(encode(&Frame::BulkString(Bytes::new())), b"$0\r\n\r\n");
    assert_eq!(encode(&Frame::NullBulkString), b"$-1\r\n");
    assert_eq!(encode(&Frame::Null), b"$-1\r\n");
    assert_eq!(encode(&Frame::NullArray), b"*-1\r\n");
    assert_eq!(encode(&Frame::Array(vec![])), b"*0\r\n");
    assert_eq!(
        encode(&Frame::Array(vec![
            Frame::Array(vec![
                Frame::SimpleString("OK".to_string()),
                Frame::BulkString(Bytes::from("foobar")),
            ]),
            Frame::BulkString(Bytes::from("baz")),
        ])),
        b"*2\r\n*2\r\n+OK\r\n$6\r\nfoobar\r\n$3\r\nbaz\r\n"
    );
}

#[test]
fn encode_appends_to_what_is_there() {
    let mut out = b"+first\r\n".to_vec();
    Frame::Integer(2).encode(&mut out);
    assert_eq!(out, b"+first\r\n:2\r\n");
}

#[test]
fn what_is_encoded_parses_back() {
    for frame in sample_frames() {
        let wire = encode(&frame);
        let mut buf = Cursor::new(&wire);
        let back = Frame::parse(&mut buf).unwrap();
        assert_eq!(back, frame);
        assert_eq!(buf.position(), wire.len());
        assert_eq!(check(&wire).unwrap(), wire.len());
    }
}

#[test]
fn what_is_encoded_parses_back_before_other_bytes() {
    for frame in sample_frames() {
        let mut wire = encode(&frame);
        let len = wire.len();
        wire.extend_from_slice(b"+next\r\n");
        let mut buf = Cursor::new(&wire);
        assert_eq!(Frame::parse(&mut buf).unwrap(), frame);
        assert_eq!(buf.position(), len);
        assert_eq!(check(&wire).unwrap(), len);
    }
}

#[test]
fn null_comes_back_as_the_missing_bulk_string() {
    assert_eq!(parse(&encode(&Frame::Null)).unwrap(), Frame::NullBulkString);
    let nested = Frame::Array(vec![Frame::Null, Frame::Array(vec![Frame::Null])]);
    assert_eq!(
        parse(&encode(&nested)).unwrap(),
        Frame::Array(vec![
            Frame::NullBulkString,
            Frame::Array(vec![Frame::NullBulkString]),
        ])
    );
    assert_eq!(parse(b"_\r\n").unwrap(), Frame::Null);
}

#[test]
fn every_part_of_an_encoding_is_incomplete() {
    for frame in sample_frames() {
        let wire = encode(&frame);
        for cut in 0..wire.len() {
            assert!(matches!(check(&wire[..cut]), Err(Error::IncompleteFrame)));
            assert!(matches!(parse(&wire[..cut]), Err(Error::IncompleteFrame)));
        }
    }
}

#[test]
fn empty_bulk_string_round_trips() {
    let frame = parse(b"$0\r\n\r\n").unwrap();
    assert_eq!(frame, Frame::BulkString(Bytes::new()));
    assert_eq!(encode(&frame), b"$0\r\n\r\n");
}

#[test]
fn empty_array_round_trips() {
    let frame = parse(b"*0\r\n").unwrap();
    assert_eq!(frame, Frame::Array(vec![]));
    assert_eq!(encode(&frame), b"*0\r\n");
}

#[test]
fn integer_bounds_with_and_without_sign() {
    assert_eq!(parse(b":9223372036854775807\r\n").unwrap(), Frame::Integer(i64::MAX));
    assert_eq!(parse(b":+9223372036854775807\r\n").unwrap(), Frame::Integer(i64::MAX));
    assert_eq!(parse(b":-9223372036854775808\r\n").unwrap(), Frame::Integer(i64::MIN));
    assert!(matches!(parse(b":9223372036854775808\r\n"), Err(Error::Protocol(_))));
    assert!(matches!(parse(b":-9223372036854775809\r\n"), Err(Error::Protocol(_))));
    assert!(matches!(check(b":9223372036854775808\r\n"), Err(Error::Protocol(_))));
}

#[test]
fn bulk_length_may_carry_a_plus_sign() {
    assert_eq!(parse(b"$+2\r\nOK\r\n").unwrap(), Frame::BulkString(Bytes::from("OK")));
    assert_eq!(check(b"$+2\r\nOK\r\n").unwrap(), 9);
}

#[test]
fn negative_bulk_length_other_than_minus_one_is_a_protocol_error() {
    assert!(matches!(parse(b"$-2\r\n"), Err(Error::Protocol(_))));
    assert!(matches!(parse(b"$-10\r\n"), Err(Error::Protocol(_))));
    assert!(matches!(parse(b"$-1x\r\n"), Err(Error::Protocol(_))));
    assert!(matches!(check(b"$-2\r\n"), Err(Error::Protocol(_))));
    assert!(matches!(check(b"$-10\r\n"), Err(Error::Protocol(_))));
}

#[test]
fn numbers_are_read_as_atoi_reads_them() {
    assert_eq!(parse(b":12abc\r\n").unwrap(), Frame::Integer(12));
    assert_eq!(parse(b":-12 \r\n").unwrap(), Frame::Integer(-12));
    assert_eq!(parse(b":+\r\n").unwrap(), Frame::Integer(0));
    assert_eq!(parse(b":-\r\n").unwrap(), Frame::Integer(0));
    assert_eq!(parse(b":-x\r\n").unwrap(), Frame::Integer(0));
    assert!(matches!(parse(b":\r\n"), Err(Error::Protocol(_))));
    assert!(matches!(parse(b":abc\r\n"), Err(Error::Protocol(_))));
    assert!(matches!(parse(b": 1\r\n"), Err(Error::Protocol(_))));
    assert!(matches!(parse(b":99999999999999999999999\r\n"), Err(Error::Protocol(_))));
    assert_eq!(
        parse(b":0000000000000000000000000000000000007\r\n").unwrap(),
        Frame::Integer(7)
    );
    assert_eq!(parse(b"$3x\r\nabc\r\n").unwrap(), Frame::BulkString(Bytes::from("abc")));
    assert!(matches!(parse(b"$x\r\n"), Err(Error::Protocol(_))));
    // Above `i64::MAX` `check` refuses the length; `parse`, which reads it
    // unsigned, goes on to the payload.
    assert!(matches!(check(b"$9223372036854775808\r\n"), Err(Error::Protocol(_))));
    assert!(matches!(parse(b"$18446744073709551616\r\n"), Err(Error::Protocol(_))));
}

#[test]
fn payload_must_end_in_a_line_end() {
    assert!(matches!(parse(b"$3\r\nfooXY"), Err(Error::Protocol(_))));
    assert!(matches!(check(b"$3\r\nfooXY"), Err(Error::Protocol(_))));
    assert!(matches!(parse(b"$3\r\nfoo\r"), Err(Error::IncompleteFrame)));
    assert!(matches!(check(b"$3\r\nfoo\r"), Err(Error::IncompleteFrame)));
    assert!(matches!(parse(b"$3\r\nfoo\rX"), Err(Error::Protocol(_))));
}

#[test]
fn array_count_must_be_minus_one_or_more() {
    assert!(matches!(parse(b"*-2\r\n"), Err(Error::Conversion(_))));
    assert!(matches!(check(b"*-2\r\n"), Err(Error::Conversion(_))));
    assert!(matches!(parse(b"*x\r\n"), Err(Error::Protocol(_))));
    assert!(matches!(parse(b"*2\r\n+OK\r\n"), Err(Error::IncompleteFrame)));
    assert!(matches!(check(b"*2\r\n+OK\r\n"), Err(Error::IncompleteFrame)));
    assert!(matches!(parse(b"*2\r\n+OK\r\n?\r\n"), Err(Error::Protocol(_))));
    assert!(matches!(check(b"*2\r\n+OK\r\n?\r\n"), Err(Error::Protocol(_))));
}

#[test]
fn text_must_be_utf8() {
    assert!(matches!(parse(b"+\xff\xfe\r\n"), Err(Error::Utf8(_))));
    assert!(matches!(parse(b"-\xc3\r\n"), Err(Error::Utf8(_))));
    assert_eq!(check(b"+\xff\xfe\r\n").unwrap(), 5);
    assert_eq!(
        parse("+caf\u{e9}\r\n".as_bytes()).unwrap(),
        Frame::SimpleString("caf\u{e9}".to_string())
    );
}

#[test]
fn unknown_first_byte_is_a_protocol_error() {
    match parse(b"?\r\n") {
        Err(Error::Protocol(msg)) => {
            assert_eq!(msg, "first byte was not a valid RESP data type `63`")
        }
        other => panic!("unexpected result: {:?}", other),
    }
    match check(b"?\r\n") {
        Err(Error::Protocol(msg)) => assert_eq!(msg, "invalid frame byte `63`"),
        other => panic!("unexpected result: {:?}", other),
    }
    match parse(b"_text\r\n") {
        Err(Error::Protocol(msg)) => assert_eq!(
            msg,
            "invalid `null` data type frame format, frame contained bytes `[116, 101, 120, 116]`"
        ),
        other => panic!("unexpected result: {:?}", other),
    }
    match parse(b"$-2\r\n") {
        Err(Error::Protocol(msg)) => assert_eq!(
            msg,
            "invalid frame format, only valid negative length is -1, got `[45, 50]`"
        ),
        other => panic!("unexpected result: {:?}", other),
    }
    match parse(b":x\r\n") {
        Err(Error::Protocol(msg)) => assert_eq!(msg, "invalid frame format"),
        other => panic!("unexpected result: {:?}", other),
    }
}

#[test]
fn empty_input_is_incomplete() {
    assert!(matches!(parse(b""), Err(Error::IncompleteFrame)));
    assert!(matches!(check(b""), Err(Error::IncompleteFrame)));
    assert!(matches!(parse(b"$"), Err(Error::IncompleteFrame)));
    assert!(matches!(parse(b"+OK\r"), Err(Error::IncompleteFrame)));
}

#[test]
fn check_steps_over_exactly_one_frame() {
    assert_eq!(check(b"+OK\r\n+next\r\n").unwrap(), 5);
    assert_eq!(check(b"$-1\r\n$-1\r\n").unwrap(), 5);
    assert_eq!(check(b"*-1\r\n").unwrap(), 5);
    assert_eq!(check(b"_\r\n").unwrap(), 3);
    assert_eq!(check(b"*2\r\n*2\r\n+OK\r\n$6\r\nfoobar\r\n$3\r\nbaz\r\n:1\r\n").unwrap(), 34);
}

#[test]
fn push_adds_to_arrays_only() {
    let mut frame = Frame::array();
    frame.push_bulk(Bytes::from("get")).unwrap();
    frame.push_int(-3).unwrap();
    assert_eq!(
        frame,
        Frame::Array(vec![Frame::BulkString(Bytes::from("get")), Frame::Integer(-3)])
    );

    let mut frame = Frame::Integer(1);
    match frame.push_bulk(Bytes::from("get")) {
        Err(Error::WrongFrameType(msg)) => {
            assert_eq!(msg, "cannot push to non-array frame type, type was Integer(1)")
        }
        other => panic!("unexpected result: {:?}", other),
    }
    assert!(matches!(frame.push_int(2), Err(Error::WrongFrameType(_))));
    assert_eq!(frame, Frame::Integer(1));
}

#[test]
fn clone_copies_what_a_frame_holds() {
    for frame in sample_frames() {
        assert_eq!(frame.clone(), frame);
    }
}
