//! The framing side of a connection: the read buffer that frames are cut
//! from, and the bytes that a frame is sent as.
use vstd::prelude::*;
use core::ops::Deref;
use bytes::BytesMut;
use crate::buf::{bytes_mut_advance, bytes_mut_view};
use crate::cursor::Cursor;
use crate::error::{Error, ErrorKind, IoErrorKind};
use crate::frame::{spec_check, spec_encode, spec_parse, Frame, FrameView};
use crate::roundtrip::{
    canonical,
    lemma_check_cut,
    lemma_parse_after_check,
    lemma_parse_encode,
    wire_safe,
};

verus! {

/// How many bytes the read buffer is made for.
pub const DEFAULT_BUFFER_SIZE: usize = 16 * 1024;

/// What cutting one frame off the start of `buffered` comes to: the frame
/// and how many bytes it takes, or nothing where the frame is not whole yet.
pub open spec fn spec_next_frame(buffered: Seq<u8>) -> Result<Option<(FrameView, int)>, ErrorKind> {
    match spec_check(buffered) {
        Err(ErrorKind::IncompleteFrame) => Ok(None),
        Err(e) => Err(e),
        Ok(n) => match spec_parse(buffered) {
            Ok((frame, _)) => Ok(Some((frame, n))),
            Err(e) => Err(e),
        },
    }
}

/// What one turn of reading a frame tells the caller to do.
#[derive(Debug)]
pub enum ReadStep {
    /// A frame was cut off the buffer.
    Frame(Frame),
    /// The stream has ended between two frames.
    Closed,
    /// The frame is not whole yet: read from the transport into the buffer
    /// and come back with the number of bytes read.
    NeedMore,
}

/// What a connection has received and not yet handed out as frames.
#[derive(Debug)]
pub struct Connection {
    buffer: BytesMut,
}

impl Connection {
    /// The bytes received and not yet consumed.
    pub closed spec fn buffered(&self) -> Seq<u8> {
        bytes_mut_view(self.buffer)
    }

    /// A connection that has received nothing.
    pub fn new() -> (c: Self)
        ensures
            c.buffered() == Seq::<u8>::empty(),
    {
        Connection { buffer: BytesMut::with_capacity(DEFAULT_BUFFER_SIZE) }
    }

    /// The read buffer, for the transport to append what it receives.
    pub fn buffer_mut(&mut self) -> (b: &mut BytesMut)
        ensures
            bytes_mut_view(*b) == old(self).buffered(),
            final(self).buffered() == bytes_mut_view(*final(b)),
    {
        &mut self.buffer
    }

    /// Cuts one frame off the start of the buffer, if a whole frame is
    /// there. Returns nothing where more bytes are needed. On an error the
    /// buffer stays as it was.
    pub fn parse_frame(&mut self) -> (r: Result<Option<Frame>, Error>)
        ensures
            match r {
                Ok(Some(frame)) => {
                    &&& spec_next_frame(old(self).buffered()) matches Ok(Some((f, n)))
                    &&& frame@ == f
                    &&& 0 < n <= old(self).buffered().len()
                    &&& final(self).buffered() == old(self).buffered().skip(n)
                },
                Ok(None) => {
                    &&& spec_next_frame(old(self).buffered()) == Ok::<_, ErrorKind>(
                        None::<(FrameView, int)>,
                    )
                    &&& final(self).buffered() == old(self).buffered()
                },
                Err(e) => {
                    &&& spec_next_frame(old(self).buffered()) == Err::<
                        Option<(FrameView, int)>,
                        _,
                    >(e.kind())
                    &&& final(self).buffered() == old(self).buffered()
                },
            },
    {
        let data: &[u8] = self.buffer.deref();
        let mut buf = Cursor::new(data);
        assert(buf.rest() =~= data@);
        match Frame::check(&mut buf) {
            Ok(_) => {
                let len: usize = buf.position();
                buf.set_position(0);
                let frame = Frame::parse(&mut buf)?;
                bytes_mut_advance(&mut self.buffer, len);
                Ok(Some(frame))
            },
            Err(Error::IncompleteFrame) => Ok(None),
            Err(e) => Err(e),
        }
    }

    /// One turn of reading a frame. `received` is `None` on the first turn,
    /// and after that the number of bytes that the transport has just added
    /// to the buffer, zero where the stream has ended.
    ///
    /// A whole frame in the buffer is handed out. Failing that, an ended
    /// stream is `Closed` where the buffer is empty and a connection reset
    /// where it holds the start of a frame; a stream that has not ended
    /// yields `NeedMore`.
    pub fn read_frame(&mut self, received: Option<usize>) -> (r: Result<ReadStep, Error>)
        ensures
            match spec_next_frame(old(self).buffered()) {
                Ok(Some((f, n))) => {
                    &&& r matches Ok(ReadStep::Frame(frame))
                    &&& frame@ == f
                    &&& final(self).buffered() == old(self).buffered().skip(n)
                },
                Ok(None) => {
                    &&& final(self).buffered() == old(self).buffered()
                    &&& if received != Some(0usize) {
                        r matches Ok(ReadStep::NeedMore)
                    } else if old(self).buffered().len() == 0 {
                        r matches Ok(ReadStep::Closed)
                    } else {
                        r matches Err(Error::Io(IoErrorKind::ConnectionReset, _))
                    }
                },
                Err(kind) => {
                    &&& r matches Err(e)
                    &&& e.kind() == kind
                    &&& final(self).buffered() == old(self).buffered()
                },
            },
    {
        if let Some(frame) = self.parse_frame()? {
            return Ok(ReadStep::Frame(frame));
        }
        match received {
            Some(0) => {
                if self.buffer.is_empty() {
                    Ok(ReadStep::Closed)
                } else {
                    Err(
                        Error::Io(
                            IoErrorKind::ConnectionReset,
                            String::from_str("connection was closed mid frame"),
                        ),
                    )
                }
            },
            _ => Ok(ReadStep::NeedMore),
        }
    }

    /// The bytes to send for `frame`.
    pub fn write_frame(frame: &Frame) -> (out: Vec<u8>)
        ensures
            out@ == spec_encode(frame@),
    {
        let mut out: Vec<u8> = Vec::new();
        frame.encode(&mut out);
        out
    }
}

/// A frame that arrives in two parts is handed out once, when it is whole.
/// While only the first part is in the buffer, however the encoding has
/// been split, the connection asks for more and leaves the buffer alone;
/// with the second part behind it, the connection hands out the frame and
/// takes exactly its bytes, whatever follows them.
pub proof fn lemma_streaming(f: FrameView, cut: int, rest: Seq<u8>)
    requires
        wire_safe(f),
        0 <= cut <= spec_encode(f).len(),
    ensures
        cut < spec_encode(f).len() ==> spec_next_frame(spec_encode(f).take(cut)) == Ok::<
            _,
            ErrorKind,
        >(None::<(FrameView, int)>),
        spec_next_frame(spec_encode(f).take(cut) + spec_encode(f).skip(cut) + rest) == Ok::<
            _,
            ErrorKind,
        >(Some((canonical(f), spec_encode(f).len() as int))),
{
    let whole = spec_encode(f);
    if cut < whole.len() {
        lemma_check_cut(f, whole.take(cut));
    }
    assert(whole.take(cut) + whole.skip(cut) =~= whole);
    lemma_parse_encode(f, rest);
}

/// An incomplete frame is never an error of the connection: where the
/// buffer holds the start of a frame and no more, the connection asks for
/// more bytes, and where `check` has found a whole frame, `parse` does not
/// run out of bytes.
pub proof fn lemma_incomplete_is_no_error(buffered: Seq<u8>)
    ensures
        spec_next_frame(buffered) != Err::<Option<(FrameView, int)>, _>(
            ErrorKind::IncompleteFrame,
        ),
{
    if spec_check(buffered) is Ok {
        lemma_parse_after_check(buffered);
    }
}

} // verus!
