//! What a client makes of the server's replies.
use vstd::prelude::*;
use vstd::utf8::*;
use bytes::Bytes;
use crate::buf::{bytes_from_string, bytes_view};
use crate::error::{Error, ErrorKind, IoErrorKind};
use crate::frame::{Frame, FrameView};
use crate::text::{debug_frame, same_text};

verus! {

/// The reply that a request has got, where it is no error: a simple error
/// from the server is a response error, and the end of the stream a
/// connection reset.
pub open spec fn spec_response(response: Option<FrameView>) -> Result<FrameView, ErrorKind> {
    match response {
        Some(FrameView::SimpleError(_)) => Err(ErrorKind::Response),
        Some(frame) => Ok(frame),
        None => Err(ErrorKind::Io),
    }
}

/// What a `PING` has been answered with.
pub open spec fn spec_ping_response(reply: FrameView) -> Result<Seq<u8>, ErrorKind> {
    match reply {
        FrameView::SimpleString(text) => Ok(encode_utf8(text)),
        FrameView::BulkString(data) => Ok(data),
        _ => Err(ErrorKind::Response),
    }
}

/// What a `GET` has been answered with: the value, or nothing where the key
/// has none.
pub open spec fn spec_get_response(reply: FrameView) -> Result<Option<Seq<u8>>, ErrorKind> {
    match reply {
        FrameView::SimpleString(text) => Ok(Some(encode_utf8(text))),
        FrameView::BulkString(data) => Ok(Some(data)),
        FrameView::NullBulkString => Ok(None),
        _ => Err(ErrorKind::Response),
    }
}

/// Whether a `SET` has been answered with `OK`.
pub open spec fn spec_set_response(reply: FrameView) -> Result<(), ErrorKind> {
    match reply {
        FrameView::SimpleString(text) => if text == "OK"@ {
            Ok(())
        } else {
            Err(ErrorKind::Response)
        },
        _ => Err(ErrorKind::Response),
    }
}

/// The error of a reply that the request does not call for.
fn unexpected(frame: &Frame) -> (e: Error)
    ensures
        e is Response,
{
    Error::Response(String::from_str("unexpected frame: ").concat(debug_frame(frame).as_str()))
}

/// Takes what a read after a request has yielded. A simple error from the
/// server becomes a response error with the server's message; the end of
/// the stream becomes a connection reset.
pub fn read_response(response: Option<Frame>) -> (r: Result<Frame, Error>)
    ensures
        match r {
            Ok(frame) => response matches Some(f) && f@ == frame@ && spec_response(Some(f@))
                == Ok::<_, ErrorKind>(frame@),
            Err(e) => {
                &&& spec_response(
                    match response {
                        Some(f) => Some(f@),
                        None => None,
                    },
                ) == Err::<FrameView, _>(e.kind())
                &&& response matches Some(Frame::SimpleError(msg)) ==> e matches Error::Response(
                    text,
                ) && text@ == msg@
                &&& response is None ==> e matches Error::Io(IoErrorKind::ConnectionReset, _)
            },
        },
{
    match response {
        Some(Frame::SimpleError(msg)) => Err(Error::Response(msg)),
        Some(frame) => Ok(frame),
        None => Err(
            Error::Io(IoErrorKind::ConnectionReset, String::from_str("connection reset by server")),
        ),
    }
}

/// The answer to a `PING`: the bytes of a simple string or of a bulk
/// string. Any other reply is a response error.
pub fn ping_response(reply: Frame) -> (r: Result<Bytes, Error>)
    ensures
        match r {
            Ok(data) => spec_ping_response(reply@) == Ok::<_, ErrorKind>(bytes_view(data)),
            Err(e) => spec_ping_response(reply@) == Err::<Seq<u8>, _>(e.kind()),
        },
{
    match reply {
        Frame::SimpleString(val) => Ok(bytes_from_string(val)),
        Frame::BulkString(val) => Ok(val),
        frame => Err(unexpected(&frame)),
    }
}

/// The answer to a `GET`: the value as the bytes of a bulk string or of a
/// simple string, or nothing where the reply is the missing bulk string.
/// Any other reply is a response error.
pub fn get_response(reply: Frame) -> (r: Result<Option<Bytes>, Error>)
    ensures
        match r {
            Ok(Some(data)) => spec_get_response(reply@) == Ok::<_, ErrorKind>(
                Some(bytes_view(data)),
            ),
            Ok(None) => spec_get_response(reply@) == Ok::<_, ErrorKind>(None::<Seq<u8>>),
            Err(e) => spec_get_response(reply@) == Err::<Option<Seq<u8>>, _>(e.kind()),
        },
{
    match reply {
        Frame::SimpleString(val) => Ok(Some(bytes_from_string(val))),
        Frame::BulkString(val) => Ok(Some(val)),
        Frame::NullBulkString => Ok(None),
        frame => Err(unexpected(&frame)),
    }
}

/// The answer to a `SET`, which must be the simple string `OK`. Any other
/// reply is a response error.
pub fn set_response(reply: Frame) -> (r: Result<(), Error>)
    ensures
        match r {
            Ok(_) => spec_set_response(reply@) == Ok::<_, ErrorKind>(()),
            Err(e) => spec_set_response(reply@) == Err::<(), _>(e.kind()),
        },
{
    let ok = match &reply {
        Frame::SimpleString(val) => same_text(val.as_str(), "OK"),
        _ => false,
    };
    if ok {
        Ok(())
    } else {
        Err(unexpected(&reply))
    }
}

} // verus!
