//! The `GET` command.
use vstd::prelude::*;
use vstd::utf8::*;
use crate::buf::{bytes_from_static, bytes_from_string};
use crate::db::{spec_get, DbState};
use crate::error::{Error, ErrorKind};
use crate::frame::{Frame, FrameView};
use crate::parse::{spec_string, Parse};

verus! {

/// Gets the value of a key. A key without a value is answered with the
/// missing bulk string.
#[derive(Debug, PartialEq, Eq)]
pub struct GetCmd {
    key: String,
}

/// What a `GET` command holds.
pub struct GetView {
    pub key: Seq<char>,
}

impl View for GetCmd {
    type V = GetView;

    closed spec fn view(&self) -> GetView {
        GetView { key: self.key@ }
    }
}

/// The command that the fields after the name `GET` stand for, and the
/// fields that it leaves.
pub open spec fn spec_get_fields(fields: Seq<FrameView>) -> Result<
    (GetView, Seq<FrameView>),
    ErrorKind,
> {
    if fields.len() == 0 {
        Err(ErrorKind::EndOfStream)
    } else {
        match spec_string(fields[0]) {
            Ok(key) => Ok((GetView { key }, fields.skip(1))),
            Err(e) => Err(e),
        }
    }
}

/// The name of the command as a client sends it.
pub open spec fn get_name() -> Seq<u8> {
    encode_utf8("get"@)
}

/// The frame that asks for the value of `key`.
pub open spec fn spec_get_frame(cmd: GetView) -> FrameView {
    FrameView::Array(
        seq![FrameView::BulkString(get_name()), FrameView::BulkString(encode_utf8(cmd.key))],
    )
}

impl GetCmd {
    /// A command that gets the value of `key`.
    pub fn new(key: &str) -> (cmd: Self)
        ensures
            cmd@.key == key@,
    {
        GetCmd { key: String::from_str(key) }
    }

    /// The key.
    pub fn key(&self) -> (key: &str)
        ensures
            key@ == self@.key,
    {
        self.key.as_str()
    }

    /// Reads the command from the fields that follow its name.
    pub fn parse_frames(parse: &mut Parse) -> (r: Result<Self, Error>)
        ensures
            match r {
                Ok(cmd) => spec_get_fields(old(parse).remaining()) == Ok::<_, ErrorKind>(
                    (cmd@, final(parse).remaining()),
                ),
                Err(e) => spec_get_fields(old(parse).remaining()) == Err::<
                    (GetView, Seq<FrameView>),
                    _,
                >(e.kind()),
            },
    {
        let key = parse.next_string()?;
        Ok(GetCmd { key })
    }

    /// The reply to the command at the instant `now`: the value as a bulk
    /// string, or the missing bulk string where the key has no value.
    pub fn apply(self, db: &DbState, now: u64) -> (reply: Frame)
        ensures
            reply@ == match spec_get(db@, self@.key, now) {
                Some(data) => FrameView::BulkString(data),
                None => FrameView::NullBulkString,
            },
    {
        match db.get(self.key.as_str(), now) {
            Some(value) => Frame::BulkString(value),
            None => Frame::NullBulkString,
        }
    }

    /// The frame that a client sends for the command.
    pub fn into_frame(self) -> (r: Result<Frame, Error>)
        ensures
            r matches Ok(frame) && frame@ == spec_get_frame(self@),
    {
        let mut frame = Frame::array();
        frame.push_bulk(bytes_from_static("get"))?;
        frame.push_bulk(bytes_from_string(self.key))?;
        assert(frame@->Array_0 =~= spec_get_frame(self@)->Array_0);
        Ok(frame)
    }
}

} // verus!
