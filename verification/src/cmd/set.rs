//! The `SET` command.
use vstd::prelude::*;
use vstd::utf8::*;
use bytes::Bytes;
use crate::buf::{bytes_from_static, bytes_from_string, bytes_view};
use crate::db::{spec_must_notify, spec_set, DbState};
use crate::error::{Error, ErrorKind};
use crate::frame::{Frame, FrameView};
use crate::parse::{spec_bytes, spec_string, spec_unsigned, Parse};
use crate::text::{same_text, uppercase};
use crate::time::{Duration, NANOS_PER_MILLI};

verus! {

/// Sets a key to a value, in place of any value that the key had, with or
/// without a time after which the value is gone.
#[derive(Debug, PartialEq, Eq)]
pub struct SetCmd {
    /// The key.
    key: String,
    /// The value to store.
    value: Bytes,
    /// The time after which the value is gone.
    expire: Option<Duration>,
}

/// What a `SET` command holds.
pub struct SetView {
    pub key: Seq<char>,
    pub value: Seq<u8>,
    pub expire: Option<Duration>,
}

impl View for SetCmd {
    type V = SetView;

    closed spec fn view(&self) -> SetView {
        SetView { key: self.key@, value: bytes_view(self.value), expire: self.expire }
    }
}

/// The time to live that an option in upper case and the fields after it
/// stand for, and the fields that are left: `EX` counts seconds, `PX`
/// milliseconds, and there is no other option.
pub open spec fn spec_expiration(option: Seq<char>, fields: Seq<FrameView>) -> Result<
    (Duration, Seq<FrameView>),
    ErrorKind,
> {
    if option != "EX"@ && option != "PX"@ {
        Err(ErrorKind::Protocol)
    } else if fields.len() == 0 {
        Err(ErrorKind::EndOfStream)
    } else {
        match spec_unsigned(fields[0]) {
            Err(e) => Err(e),
            Ok(n) => if option == "EX"@ {
                Ok((Duration::from_secs(n), fields.skip(1)))
            } else {
                Ok((Duration::from_millis(n), fields.skip(1)))
            },
        }
    }
}

/// The command that the fields after the name `SET` stand for, and the
/// fields that it leaves.
pub open spec fn spec_set_fields(fields: Seq<FrameView>) -> Result<
    (SetView, Seq<FrameView>),
    ErrorKind,
> {
    if fields.len() == 0 {
        Err(ErrorKind::EndOfStream)
    } else {
        match spec_string(fields[0]) {
            Err(e) => Err(e),
            Ok(key) => if fields.len() == 1 {
                Err(ErrorKind::EndOfStream)
            } else {
                match spec_bytes(fields[1]) {
                    Err(e) => Err(e),
                    Ok(value) => if fields.len() == 2 {
                        Ok((SetView { key, value, expire: None }, fields.skip(2)))
                    } else {
                        match spec_string(fields[2]) {
                            Err(e) => Err(e),
                            Ok(option) => match spec_expiration(
                                uppercase(option),
                                fields.skip(3),
                            ) {
                                Err(e) => Err(e),
                                Ok((ttl, rest)) => Ok(
                                    (SetView { key, value, expire: Some(ttl) }, rest),
                                ),
                            },
                        }
                    },
                }
            },
        }
    }
}

/// The name of the command as a client sends it.
pub open spec fn set_name() -> Seq<u8> {
    encode_utf8("set"@)
}

/// The fields that a client sends for a time to live: `ex` and the seconds
/// where the time is whole seconds to the millisecond, else `px` and the
/// milliseconds. `None` where the number does not fit a frame.
pub open spec fn spec_expire_fields(ttl: Duration) -> Option<Seq<FrameView>> {
    if ttl.spec_subsec_millis() == 0 {
        if ttl.spec_secs() <= i64::MAX {
            Some(
                seq![
                    FrameView::BulkString(encode_utf8("ex"@)),
                    FrameView::Integer(ttl.spec_secs() as i64),
                ],
            )
        } else {
            None
        }
    } else {
        if ttl.spec_millis() <= i64::MAX {
            Some(
                seq![
                    FrameView::BulkString(encode_utf8("px"@)),
                    FrameView::Integer(ttl.spec_millis() as i64),
                ],
            )
        } else {
            None
        }
    }
}

/// The frame that a client sends for the command, where there is one.
pub open spec fn spec_set_frame(cmd: SetView) -> Option<FrameView> {
    let head = seq![
        FrameView::BulkString(set_name()),
        FrameView::BulkString(encode_utf8(cmd.key)),
        FrameView::BulkString(cmd.value),
    ];
    match cmd.expire {
        None => Some(FrameView::Array(head)),
        Some(ttl) => match spec_expire_fields(ttl) {
            Some(fields) => Some(FrameView::Array(head + fields)),
            None => None,
        },
    }
}

impl SetCmd {
    /// A command that sets `key` to `value`. With `expire` the value is
    /// gone after that time.
    pub fn new(key: &str, value: Bytes, expire: Option<Duration>) -> (cmd: Self)
        ensures
            cmd@ == (SetView { key: key@, value: bytes_view(value), expire }),
    {
        SetCmd { key: String::from_str(key), value, expire }
    }

    /// The key.
    pub fn key(&self) -> (key: &str)
        ensures
            key@ == self@.key,
    {
        self.key.as_str()
    }

    /// The value.
    pub fn value(&self) -> (value: &Bytes)
        ensures
            bytes_view(*value) == self@.value,
    {
        &self.value
    }

    /// The time after which the value is gone.
    pub fn expire(&self) -> (expire: Option<Duration>)
        ensures
            expire == self@.expire,
    {
        self.expire
    }

    /// Reads the time to live that follows `option`, which is the option's
    /// name in upper case.
    pub fn parse_expiration(option: &str, parse: &mut Parse) -> (r: Result<Duration, Error>)
        ensures
            match r {
                Ok(ttl) => spec_expiration(option@, old(parse).remaining()) == Ok::<_, ErrorKind>(
                    (ttl, final(parse).remaining()),
                ),
                Err(e) => spec_expiration(option@, old(parse).remaining()) == Err::<
                    (Duration, Seq<FrameView>),
                    _,
                >(e.kind()),
            },
    {
        if same_text(option, "EX") {
            let secs = parse.next_int_unsigned()?;
            Ok(Duration::from_secs(secs))
        } else if same_text(option, "PX") {
            let ms = parse.next_int_unsigned()?;
            Ok(Duration::from_millis(ms))
        } else {
            Err(
                Error::Protocol(
                    String::from_str("currently, `SET` only supports the expiration option"),
                ),
            )
        }
    }

    /// Reads the command from the fields that follow its name: the key, the
    /// value and, where more follows, an option and its number. The option's
    /// name may be in either case.
    pub fn parse_frames(parse: &mut Parse) -> (r: Result<Self, Error>)
        ensures
            match r {
                Ok(cmd) => spec_set_fields(old(parse).remaining()) == Ok::<_, ErrorKind>(
                    (cmd@, final(parse).remaining()),
                ),
                Err(e) => spec_set_fields(old(parse).remaining()) == Err::<
                    (SetView, Seq<FrameView>),
                    _,
                >(e.kind()),
            },
    {
        let ghost fields = parse.remaining();
        let key = parse.next_string()?;
        let value = parse.next_bytes()?;
        assert(parse.remaining() =~= fields.skip(2));
        let expire = match parse.next_string() {
            Ok(option) => {
                assert(parse.remaining() =~= fields.skip(3));
                Some(Self::parse_expiration(option.to_uppercase().as_str(), parse)?)
            },
            Err(Error::EndOfStream) => None,
            Err(err) => {
                return Err(err);
            },
        };
        Ok(SetCmd { key, value, expire })
    }

    /// Stores the value at the instant `now`. Returns the reply, `OK`, and
    /// whether the task that purges the store has to be woken.
    pub fn apply(self, db: &mut DbState, now: u64) -> (r: (Frame, bool))
        requires
            old(db).wf(),
            self@.expire matches Some(ttl) ==> now + ttl.spec_nanos() <= u64::MAX,
        ensures
            final(db).wf(),
            final(db)@ == spec_set(old(db)@, self@.key, self@.value, self@.expire, now),
            r.0@ == FrameView::SimpleString("OK"@),
            r.1 == spec_must_notify(old(db)@, self@.expire, now),
    {
        let notify = db.set(self.key, self.value, self.expire, now);
        (Frame::SimpleString(String::from_str("OK")), notify)
    }

    /// The frame that a client sends for the command. Fails with
    /// `Conversion` where the time to live is too long for its number to
    /// fit a frame.
    pub fn into_frame(self) -> (r: Result<Frame, Error>)
        ensures
            match r {
                Ok(frame) => spec_set_frame(self@) == Some(frame@),
                Err(e) => spec_set_frame(self@) is None && e is Conversion,
            },
    {
        let mut frame = Frame::array();
        frame.push_bulk(bytes_from_static("set"))?;
        frame.push_bulk(bytes_from_string(self.key))?;
        frame.push_bulk(self.value)?;
        if let Some(ttl) = self.expire {
            if ttl.subsec_millis() == 0 {
                let secs: u128 = ttl.as_secs() as u128;
                match i64::try_from(secs) {
                    Ok(secs) => {
                        frame.push_bulk(bytes_from_static("ex"))?;
                        frame.push_int(secs)?;
                    },
                    Err(e) => {
                        return Err(Error::Conversion(e));
                    },
                }
            } else {
                match i64::try_from(ttl.as_millis()) {
                    Ok(millis) => {
                        frame.push_bulk(bytes_from_static("px"))?;
                        frame.push_int(millis)?;
                    },
                    Err(e) => {
                        return Err(Error::Conversion(e));
                    },
                }
            }
        }
        assert(frame@->Array_0 =~= spec_set_frame(self@).unwrap()->Array_0);
        Ok(frame)
    }
}

/// A time to live that is sent is read back as it was, where it is whole
/// milliseconds: the server makes of the number after `EX` or `PX` the span
/// that the client had. (The nanoseconds beyond a millisecond are not
/// sent.)
pub proof fn lemma_expiration_read_back(ttl: Duration)
    requires
        ttl.wf(),
        ttl.spec_subsec_nanos() % (NANOS_PER_MILLI as nat) == 0,
        spec_expire_fields(ttl) is Some,
    ensures
        spec_expiration(
            if ttl.spec_subsec_millis() == 0 {
                "EX"@
            } else {
                "PX"@
            },
            spec_expire_fields(ttl).unwrap().skip(1),
        ) == Ok::<_, ErrorKind>((ttl, Seq::<FrameView>::empty())),
{
    reveal_strlit("EX");
    reveal_strlit("PX");
    let fields = spec_expire_fields(ttl).unwrap();
    assert(fields.skip(1).skip(1) =~= Seq::<FrameView>::empty());
    ttl.lemma_subsec_bound();
    if ttl.spec_subsec_millis() == 0 {
        let secs = ttl.spec_secs() as u64;
        Duration::lemma_from_secs(secs);
        ttl.lemma_same(Duration::from_secs(secs));
    } else {
        let millis = ttl.spec_millis() as u64;
        Duration::lemma_from_millis(millis);
        ttl.lemma_same(Duration::from_millis(millis));
        assert("PX"@ != "EX"@) by {
            assert("PX"@[0] == 'P' && "EX"@[0] == 'E');
        }
    }
}

} // verus!
