//! A cursor over the fields of an array frame, which hands each field to a
//! command in the type the command asks for.
use vstd::prelude::*;
use vstd::slice::*;
use vstd::utf8::*;
use bytes::Bytes;
use core::ops::Deref;
use crate::buf::{bytes_from_string, bytes_view};
use crate::decimal::{atoi_u64, leading_u64};
use crate::error::{Error, ErrorKind};
use crate::frame::{frame_views, lemma_array_view, Frame, FrameView};
use crate::text::{debug_frame, display_utf8_error};

verus! {

/// The text that a field stands for: a simple string as it is, a bulk
/// string read as UTF-8.
pub open spec fn spec_string(field: FrameView) -> Result<Seq<char>, ErrorKind> {
    match field {
        FrameView::SimpleString(text) => Ok(text),
        FrameView::BulkString(data) => if valid_utf8(data) {
            Ok(decode_utf8(data))
        } else {
            Err(ErrorKind::Protocol)
        },
        _ => Err(ErrorKind::Protocol),
    }
}

/// The bytes that a field stands for: a bulk string as it is, a simple
/// string as its UTF-8 bytes.
pub open spec fn spec_bytes(field: FrameView) -> Result<Seq<u8>, ErrorKind> {
    match field {
        FrameView::SimpleString(text) => Ok(encode_utf8(text)),
        FrameView::BulkString(data) => Ok(data),
        _ => Err(ErrorKind::Protocol),
    }
}

/// The number that a field stands for: an integer that is not negative, or
/// the decimal number that a text starts with.
pub open spec fn spec_unsigned(field: FrameView) -> Result<u64, ErrorKind> {
    match field {
        FrameView::Integer(v) => if v >= 0 {
            Ok(v as u64)
        } else {
            Err(ErrorKind::Protocol)
        },
        FrameView::SimpleString(text) => match leading_u64(encode_utf8(text)) {
            Some(n) => Ok(n),
            None => Err(ErrorKind::Protocol),
        },
        FrameView::BulkString(data) => match leading_u64(data) {
            Some(n) => Ok(n),
            None => Err(ErrorKind::Protocol),
        },
        _ => Err(ErrorKind::Protocol),
    }
}

/// The fields of an array frame that a command has not read yet.
#[derive(Debug)]
pub struct Parse {
    /// The fields still to come, the next one last.
    parts: Vec<Frame>,
}

impl Parse {
    /// The fields still to come, the next one first.
    pub closed spec fn remaining(&self) -> Seq<FrameView> {
        Seq::new(self.parts@.len(), |i: int| self.parts@[self.parts@.len() - 1 - i]@)
    }

    /// A parser over the fields of `frame`. Fails with `Protocol` where
    /// `frame` is no array.
    pub fn new(frame: Frame) -> (r: Result<Parse, Error>)
        ensures
            match r {
                Ok(parse) => frame@ matches FrameView::Array(items) && parse.remaining() == items,
                Err(e) => !(frame@ is Array) && e is Protocol,
            },
    {
        let mut array = match frame {
            Frame::Array(array) => array,
            frame => {
                return Err(
                    Error::Protocol(
                        String::from_str("expected array, got ").concat(
                            debug_frame(&frame).as_str(),
                        ),
                    ),
                );
            },
        };
        proof {
            lemma_array_view(array);
        }
        let ghost items = array@;
        let mut parts: Vec<Frame> = Vec::new();
        while array.len() > 0
            invariant
                array@.len() + parts@.len() == items.len(),
                array@ == items.take(array@.len() as int),
                forall|j: int| 0 <= j < parts@.len() ==> parts@[j] == items[items.len() - 1 - j],
            decreases array@.len(),
        {
            let part = array.pop().unwrap();
            parts.push(part);
        }
        let parse = Parse { parts };
        Ok(parse)
    }

    /// The next field, whatever it is. Fails with `EndOfStream` where none
    /// is left.
    fn next(&mut self) -> (r: Result<Frame, Error>)
        ensures
            match r {
                Ok(frame) => {
                    &&& old(self).remaining().len() > 0
                    &&& frame@ == old(self).remaining()[0]
                    &&& final(self).remaining() == old(self).remaining().skip(1)
                },
                Err(e) => {
                    &&& old(self).remaining().len() == 0
                    &&& e is EndOfStream
                    &&& final(self).remaining() == old(self).remaining()
                },
            },
    {
        match self.parts.pop() {
            Some(frame) => {
                Ok(frame)
            },
            None => Err(Error::EndOfStream),
        }
    }

    /// The error of a field of the wrong kind: `expected`, then the frame.
    fn unexpected(expected: &str, frame: &Frame) -> (e: Error)
        ensures
            e matches Error::Protocol(msg) && exists|shown: Seq<char>| msg@ == expected@ + shown,
    {
        let shown = debug_frame(frame);
        let msg = String::from_str(expected).concat(shown.as_str());
        assert(msg@ == expected@ + shown@);
        Error::Protocol(msg)
    }

    /// The next field as text. Takes a simple string, or a bulk string that
    /// holds UTF-8. Fails with `EndOfStream` where no field is left, and
    /// with `Protocol` on any other field, which is then used up.
    pub fn next_string(&mut self) -> (r: Result<String, Error>)
        ensures
            old(self).remaining().len() == 0 ==> {
                &&& r matches Err(Error::EndOfStream)
                &&& final(self).remaining() == old(self).remaining()
            },
            old(self).remaining().len() > 0 ==> {
                &&& final(self).remaining() == old(self).remaining().skip(1)
                &&& match r {
                    Ok(text) => spec_string(old(self).remaining()[0]) == Ok::<_, ErrorKind>(
                        text@,
                    ),
                    Err(e) => spec_string(old(self).remaining()[0]) == Err::<Seq<char>, _>(
                        e.kind(),
                    ),
                }
            },
    {
        match self.next()? {
            Frame::SimpleString(s) => Ok(s),
            Frame::BulkString(data) => {
                match String::from_utf8(slice_to_vec(data.deref())) {
                    Ok(text) => Ok(text),
                    Err(e) => Err(Error::Protocol(display_utf8_error(&e))),
                }
            },
            frame => Err(Self::unexpected("expected simple frame or bulk frame, got ", &frame)),
        }
    }

    /// The next field as bytes. Takes a bulk string, or a simple string for
    /// its UTF-8 bytes. Fails with `EndOfStream` where no field is left, and
    /// with `Protocol` on any other field, which is then used up.
    pub fn next_bytes(&mut self) -> (r: Result<Bytes, Error>)
        ensures
            old(self).remaining().len() == 0 ==> {
                &&& r matches Err(Error::EndOfStream)
                &&& final(self).remaining() == old(self).remaining()
            },
            old(self).remaining().len() > 0 ==> {
                &&& final(self).remaining() == old(self).remaining().skip(1)
                &&& match r {
                    Ok(bytes) => spec_bytes(old(self).remaining()[0]) == Ok::<_, ErrorKind>(
                        bytes_view(bytes),
                    ),
                    Err(e) => spec_bytes(old(self).remaining()[0]) == Err::<Seq<u8>, _>(
                        e.kind(),
                    ),
                }
            },
    {
        match self.next()? {
            Frame::SimpleString(s) => Ok(bytes_from_string(s)),
            Frame::BulkString(data) => Ok(data),
            frame => Err(Self::unexpected("expected simple frame or bulk frame, got ", &frame)),
        }
    }

    /// The next field as a number that is not negative. Takes an integer,
    /// or a text that starts with a decimal number. Fails with `EndOfStream`
    /// where no field is left, and with `Protocol` on any other field, which
    /// is then used up.
    pub fn next_int_unsigned(&mut self) -> (r: Result<u64, Error>)
        ensures
            old(self).remaining().len() == 0 ==> {
                &&& r matches Err(Error::EndOfStream)
                &&& final(self).remaining() == old(self).remaining()
            },
            old(self).remaining().len() > 0 ==> {
                &&& final(self).remaining() == old(self).remaining().skip(1)
                &&& match r {
                    Ok(n) => spec_unsigned(old(self).remaining()[0]) == Ok::<_, ErrorKind>(n),
                    Err(e) => spec_unsigned(old(self).remaining()[0]) == Err::<u64, _>(e.kind()),
                }
            },
    {
        let number = match self.next()? {
            Frame::Integer(v) => if v >= 0 {
                Some(v as u64)
            } else {
                None
            },
            Frame::SimpleString(data) => atoi_u64(data.as_str().as_bytes()),
            Frame::BulkString(data) => atoi_u64(data.deref()),
            frame => {
                return Err(Self::unexpected("expected int frame, got ", &frame));
            },
        };
        match number {
            Some(n) => Ok(n),
            None => Err(Error::Protocol(String::from_str("invalid number"))),
        }
    }

    /// Makes sure that no field is left. Fails with `Protocol` where one
    /// is, and uses it up.
    pub fn finish(&mut self) -> (r: Result<(), Error>)
        ensures
            match r {
                Ok(_) => {
                    &&& old(self).remaining().len() == 0
                    &&& final(self).remaining() == old(self).remaining()
                },
                Err(e) => {
                    &&& old(self).remaining().len() > 0
                    &&& e is Protocol
                    &&& final(self).remaining() == old(self).remaining().skip(1)
                },
            },
    {
        match self.next() {
            Err(_) => Ok(()),
            Ok(_) => Err(Error::Protocol(String::from_str("expected end of frame"))),
        }
    }
}

} // verus!
