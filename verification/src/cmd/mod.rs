//! The commands that the server knows, and how a frame becomes one of them.
use vstd::prelude::*;
use vstd::utf8::*;
use crate::buf::{bytes_debug, debug_bytes};
use crate::db::{spec_get, spec_must_notify, spec_set, DbState, DbView};
use crate::decimal::{decimal_chars, decimal_string};
use crate::time::Duration;
use crate::error::{Error, ErrorKind};
use crate::frame::{Frame, FrameView};
use crate::parse::{spec_string, Parse};
use crate::roundtrip::{canonical, sendable_len, wire_safe};
use crate::text::{same_text, uppercase};

pub mod get;
pub mod ping;
pub mod set;

pub use get::GetCmd;
pub use ping::PingCmd;
pub use set::SetCmd;

use get::{spec_get_fields, spec_get_frame, GetView};
use ping::{spec_ping_fields, spec_ping_frame, spec_ping_reply, PingView};
use set::{spec_set_fields, spec_set_frame, SetView};

verus! {

/// A command, ready to be applied.
#[derive(Debug, PartialEq, Eq)]
pub enum CommandVariant {
    /// `GET key`
    Get(GetCmd),
    /// `SET key value [EX seconds | PX milliseconds]`
    SetValue(SetCmd),
    /// `PING [message]`
    Ping(PingCmd),
}

/// What a command holds.
pub enum CommandView {
    Get(GetView),
    SetValue(SetView),
    Ping(PingView),
}

impl View for CommandVariant {
    type V = CommandView;

    open spec fn view(&self) -> CommandView {
        match self {
            CommandVariant::Get(cmd) => CommandView::Get(cmd@),
            CommandVariant::SetValue(cmd) => CommandView::SetValue(cmd@),
            CommandVariant::Ping(cmd) => CommandView::Ping(cmd@),
        }
    }
}

/// The command that a name in upper case and the fields after it stand
/// for. Fields that the command leaves over make the whole a protocol
/// error; a name that is none of `GET`, `SET` and `PING` is an unknown
/// command.
pub open spec fn spec_command(name: Seq<char>, fields: Seq<FrameView>) -> Result<
    CommandView,
    ErrorKind,
> {
    let read: Result<(CommandView, Seq<FrameView>), ErrorKind> = if name == "GET"@ {
        match spec_get_fields(fields) {
            Ok((cmd, rest)) => Ok((CommandView::Get(cmd), rest)),
            Err(e) => Err(e),
        }
    } else if name == "SET"@ {
        match spec_set_fields(fields) {
            Ok((cmd, rest)) => Ok((CommandView::SetValue(cmd), rest)),
            Err(e) => Err(e),
        }
    } else if name == "PING"@ {
        match spec_ping_fields(fields) {
            Ok((cmd, rest)) => Ok((CommandView::Ping(cmd), rest)),
            Err(e) => Err(e),
        }
    } else {
        Err(ErrorKind::UnknownCommand)
    };
    match read {
        Err(e) => Err(e),
        Ok((cmd, rest)) => if rest.len() == 0 {
            Ok(cmd)
        } else {
            Err(ErrorKind::Protocol)
        },
    }
}

/// The command that a frame stands for: an array whose first field names
/// the command, in either case, and whose other fields the command reads.
pub open spec fn spec_from_frame(frame: FrameView) -> Result<CommandView, ErrorKind> {
    match frame {
        FrameView::Array(fields) => if fields.len() == 0 {
            Err(ErrorKind::EndOfStream)
        } else {
            match spec_string(fields[0]) {
                Err(e) => Err(e),
                Ok(name) => spec_command(uppercase(name), fields.skip(1)),
            }
        },
        _ => Err(ErrorKind::Protocol),
    }
}

/// What applying a command at the instant `now` comes to: the reply, the
/// store afterwards, and whether the task that purges the store has to be
/// woken.
pub open spec fn spec_apply(cmd: CommandView, db: DbView, now: u64) -> (FrameView, DbView, bool) {
    match cmd {
        CommandView::Get(get) => (
            match spec_get(db, get.key, now) {
                Some(data) => FrameView::BulkString(data),
                None => FrameView::NullBulkString,
            },
            db,
            false,
        ),
        CommandView::SetValue(set) => (
            FrameView::SimpleString("OK"@),
            spec_set(db, set.key, set.value, set.expire, now),
            spec_must_notify(db, set.expire, now),
        ),
        CommandView::Ping(ping) => (spec_ping_reply(ping), db, false),
    }
}

/// How a `GET` is shown.
pub open spec fn spec_show_get(key: Seq<char>) -> Seq<char> {
    "GET "@ + key
}

/// How a `SET` is shown, given the text that stands for its value. A time
/// to live is shown in milliseconds.
pub open spec fn spec_show_set(key: Seq<char>, value: Seq<char>, expire: Option<Duration>) -> Seq<
    char,
> {
    let head = "SET "@ + key + " "@ + value;
    match expire {
        Some(ttl) => head + " EX "@ + decimal_chars(ttl.spec_millis()),
        None => head,
    }
}

/// How a `PING` is shown, given the text that stands for its message.
pub open spec fn spec_show_ping(msg: Option<Seq<char>>) -> Seq<char> {
    match msg {
        Some(text) => "PING "@ + text,
        None => "PING"@,
    }
}

/// How a command is shown to a reader: its name in upper case and what it
/// holds, the bytes among it as the `bytes` crate shows them.
pub open spec fn spec_show(cmd: CommandView) -> Seq<char> {
    match cmd {
        CommandView::Get(get) => spec_show_get(get.key),
        CommandView::SetValue(set) => spec_show_set(set.key, bytes_debug(set.value), set.expire),
        CommandView::Ping(ping) => spec_show_ping(
            match ping.msg {
                Some(msg) => Some(bytes_debug(msg)),
                None => None,
            },
        ),
    }
}

impl CommandVariant {
    /// The command as a reader sees it.
    pub fn to_string(&self) -> (text: String)
        ensures
            text@ == spec_show(self@),
    {
        match self {
            CommandVariant::Get(cmd) => Self::show_get(cmd.key()),
            CommandVariant::SetValue(cmd) => Self::show_set(
                cmd.key(),
                debug_bytes(cmd.value()).as_str(),
                cmd.expire(),
            ),
            CommandVariant::Ping(cmd) => match cmd.msg() {
                Some(msg) => Self::show_ping(Some(debug_bytes(msg).as_str())),
                None => Self::show_ping(None),
            },
        }
    }

    /// A `GET` of `key` as a reader sees it.
    pub fn show_get(key: &str) -> (text: String)
        ensures
            text@ == spec_show_get(key@),
    {
        String::from_str("GET ").concat(key)
    }

    /// A `SET` of `key` as a reader sees it, where `value` is the text that
    /// stands for the value.
    pub fn show_set(key: &str, value: &str, expire: Option<Duration>) -> (text: String)
        ensures
            text@ == spec_show_set(key@, value@, expire),
    {
        let mut text = String::from_str("SET ");
        text.append(key);
        text.append(" ");
        text.append(value);
        if let Some(ttl) = expire {
            text.append(" EX ");
            text.append(decimal_string(ttl.as_millis()).as_str());
        }
        text
    }

    /// A `PING` as a reader sees it, where `msg` is the text that stands
    /// for the message.
    pub fn show_ping(msg: Option<&str>) -> (text: String)
        ensures
            text@ == spec_show_ping(
                match msg {
                    Some(m) => Some(m@),
                    None => None,
                },
            ),
    {
        match msg {
            Some(m) => String::from_str("PING ").concat(m),
            None => String::from_str("PING"),
        }
    }

    /// Reads a command from a frame.
    pub fn from_frame(frame: Frame) -> (r: Result<Self, Error>)
        ensures
            match r {
                Ok(cmd) => spec_from_frame(frame@) == Ok::<_, ErrorKind>(cmd@),
                Err(e) => spec_from_frame(frame@) == Err::<CommandView, _>(e.kind()),
            },
    {
        let mut parse = Parse::new(frame)?;
        let command_name = parse.next_string()?.to_uppercase();
        Self::from_name(command_name, &mut parse)
    }

    /// Reads the command called `name`, which is the command's name in
    /// upper case, from the fields that follow the name. An unknown command
    /// is reported with its name.
    pub fn from_name(name: String, parse: &mut Parse) -> (r: Result<Self, Error>)
        ensures
            match r {
                Ok(cmd) => spec_command(name@, old(parse).remaining()) == Ok::<_, ErrorKind>(cmd@),
                Err(e) => {
                    &&& spec_command(name@, old(parse).remaining()) == Err::<CommandView, _>(
                        e.kind(),
                    )
                    &&& e matches Error::UnknownCommand(unknown) ==> unknown@ == name@
                        && name@ != "GET"@ && name@ != "SET"@ && name@ != "PING"@
                },
            },
    {
        let command = if same_text(name.as_str(), "GET") {
            CommandVariant::Get(GetCmd::parse_frames(parse)?)
        } else if same_text(name.as_str(), "SET") {
            CommandVariant::SetValue(SetCmd::parse_frames(parse)?)
        } else if same_text(name.as_str(), "PING") {
            CommandVariant::Ping(PingCmd::parse_frames(parse)?)
        } else {
            return Err(Error::UnknownCommand(name));
        };
        parse.finish()?;
        Ok(command)
    }

    /// Applies the command to the store at the instant `now`. Returns the
    /// reply, and whether the task that purges the store has to be woken.
    pub fn apply(self, db: &mut DbState, now: u64) -> (r: (Frame, bool))
        requires
            old(db).wf(),
            self@ matches CommandView::SetValue(set) ==> (set.expire matches Some(ttl) ==> now
                + ttl.spec_nanos() <= u64::MAX),
        ensures
            final(db).wf(),
            (r.0@, final(db)@, r.1) == spec_apply(self@, old(db)@, now),
    {
        match self {
            CommandVariant::Get(cmd) => (cmd.apply(db, now), false),
            CommandVariant::SetValue(cmd) => cmd.apply(db, now),
            CommandVariant::Ping(cmd) => (cmd.apply(), false),
        }
    }
}

/// The frame that a client sends for a command, where there is one.
pub open spec fn spec_into_frame(cmd: CommandView) -> Option<FrameView> {
    match cmd {
        CommandView::Get(get) => Some(spec_get_frame(get)),
        CommandView::SetValue(set) => spec_set_frame(set),
        CommandView::Ping(ping) => Some(spec_ping_frame(ping)),
    }
}

/// The name of a command in upper case, as the server compares it.
pub open spec fn spec_name(cmd: CommandView) -> Seq<char> {
    match cmd {
        CommandView::Get(_) => "GET"@,
        CommandView::SetValue(_) => "SET"@,
        CommandView::Ping(_) => "PING"@,
    }
}

/// What a client sends for a command goes over the wire unharmed: the
/// frame holds bulk strings and integers only, so nothing in it can be
/// taken for a line end.
pub proof fn lemma_request_is_wire_safe(cmd: CommandView)
    requires
        spec_into_frame(cmd) is Some,
        forall|i: int|
            0 <= i < spec_into_frame(cmd).unwrap()->Array_0.len() ==> (#[trigger] spec_into_frame(
                cmd,
            ).unwrap()->Array_0[i] matches FrameView::BulkString(data) ==> sendable_len(
                data.len(),
            )),
    ensures
        wire_safe(spec_into_frame(cmd).unwrap()),
        canonical(spec_into_frame(cmd).unwrap()) == spec_into_frame(cmd).unwrap(),
{
    let frame = spec_into_frame(cmd).unwrap();
    let fields = frame->Array_0;
    assert forall|i: int| 0 <= i < fields.len() implies wire_safe(#[trigger] fields[i]) && canonical(
        fields[i],
    ) == fields[i] by {}
    assert(canonical(frame)->Array_0 =~= fields);
}

/// What a client sends for a command, the server reads as that command,
/// once it has found the command's name: the fields after the name give
/// back the key, the value and the message as they were. (A time to live
/// is read back by `lemma_expiration_read_back`.)
pub proof fn lemma_request_read_back(cmd: CommandView)
    requires
        !(cmd matches CommandView::SetValue(set) && set.expire is Some),
    ensures
        spec_into_frame(cmd) matches Some(FrameView::Array(fields)) && spec_command(
            spec_name(cmd),
            fields.skip(1),
        ) == Ok::<_, ErrorKind>(cmd),
{
    reveal_strlit("GET");
    reveal_strlit("SET");
    reveal_strlit("PING");
    assert("GET"@[0] != "SET"@[0] && "GET"@[0] != "PING"@[0] && "SET"@[0] != "PING"@[0]);
    match cmd {
        CommandView::Get(get) => {
            encode_utf8_valid_utf8(get.key);
            encode_utf8_decode_utf8(get.key);
        },
        CommandView::SetValue(set) => {
            encode_utf8_valid_utf8(set.key);
            encode_utf8_decode_utf8(set.key);
        },
        CommandView::Ping(_) => {},
    }
}

} // verus!
