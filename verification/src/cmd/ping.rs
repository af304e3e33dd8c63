//! The `PING` command.
use vstd::prelude::*;
use vstd::utf8::*;
use bytes::Bytes;
use crate::buf::{bytes_from_static, bytes_view};
use crate::error::{Error, ErrorKind};
use crate::frame::{Frame, FrameView};
use crate::parse::{spec_bytes, Parse};

verus! {

/// Pings the server, which answers with `PONG` or with the message that
/// came with the ping.
#[derive(Debug, Default, PartialEq, Eq)]
pub struct PingCmd {
    msg: Option<Bytes>,
}

/// What a `PING` command holds.
pub struct PingView {
    pub msg: Option<Seq<u8>>,
}

impl View for PingCmd {
    type V = PingView;

    closed spec fn view(&self) -> PingView {
        PingView {
            msg: match self.msg {
                Some(msg) => Some(bytes_view(msg)),
                None => None,
            },
        }
    }
}

/// The command that the fields after the name `PING` stand for, and the
/// fields that it leaves.
pub open spec fn spec_ping_fields(fields: Seq<FrameView>) -> Result<
    (PingView, Seq<FrameView>),
    ErrorKind,
> {
    if fields.len() == 0 {
        Ok((PingView { msg: None }, fields))
    } else {
        match spec_bytes(fields[0]) {
            Ok(msg) => Ok((PingView { msg: Some(msg) }, fields.skip(1))),
            Err(e) => Err(e),
        }
    }
}

/// The name of the command as a client sends it.
pub open spec fn ping_name() -> Seq<u8> {
    encode_utf8("ping"@)
}

/// The reply to a ping: `PONG`, or the message that came with it.
pub open spec fn spec_ping_reply(cmd: PingView) -> FrameView {
    match cmd.msg {
        None => FrameView::SimpleString("PONG"@),
        Some(msg) => FrameView::BulkString(msg),
    }
}

/// The frame that a client sends for a ping.
pub open spec fn spec_ping_frame(cmd: PingView) -> FrameView {
    match cmd.msg {
        None => FrameView::Array(seq![FrameView::BulkString(ping_name())]),
        Some(msg) => FrameView::Array(
            seq![FrameView::BulkString(ping_name()), FrameView::BulkString(msg)],
        ),
    }
}

impl PingCmd {
    /// A ping, with a message or without.
    pub fn new(msg: Option<Bytes>) -> (cmd: Self)
        ensures
            cmd@.msg == match msg {
                Some(m) => Some(bytes_view(m)),
                None => None,
            },
    {
        PingCmd { msg }
    }

    /// The message, if the ping has one.
    pub fn msg(&self) -> (msg: Option<&Bytes>)
        ensures
            match msg {
                Some(m) => self@.msg == Some(bytes_view(*m)),
                None => self@.msg is None,
            },
    {
        self.msg.as_ref()
    }

    /// Reads the command from the fields that follow its name.
    pub fn parse_frames(parse: &mut Parse) -> (r: Result<Self, Error>)
        ensures
            match r {
                Ok(cmd) => spec_ping_fields(old(parse).remaining()) == Ok::<_, ErrorKind>(
                    (cmd@, final(parse).remaining()),
                ),
                Err(e) => spec_ping_fields(old(parse).remaining()) == Err::<
                    (PingView, Seq<FrameView>),
                    _,
                >(e.kind()),
            },
    {
        match parse.next_bytes() {
            Ok(msg) => Ok(PingCmd { msg: Some(msg) }),
            Err(Error::EndOfStream) => Ok(PingCmd { msg: None }),
            Err(e) => Err(e),
        }
    }

    /// The reply to the command.
    pub fn apply(self) -> (reply: Frame)
        ensures
            reply@ == spec_ping_reply(self@),
    {
        match self.msg {
            None => Frame::SimpleString(String::from_str("PONG")),
            Some(msg) => Frame::BulkString(msg),
        }
    }

    /// The frame that a client sends for the command.
    pub fn into_frame(self) -> (r: Result<Frame, Error>)
        ensures
            r matches Ok(frame) && frame@ == spec_ping_frame(self@),
    {
        let mut frame = Frame::array();
        frame.push_bulk(bytes_from_static("ping"))?;
        if let Some(msg) = self.msg {
            frame.push_bulk(msg)?;
        }
        assert(frame@->Array_0 =~= spec_ping_frame(self@)->Array_0);
        Ok(frame)
    }
}

} // verus!
