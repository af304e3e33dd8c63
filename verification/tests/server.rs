use bytes::Bytes;
use loja::cmd::{CommandVariant, GetCmd};
use loja::connection::{Connection, ReadStep};
use loja::db::DbState;
use loja::error::Error;
use loja::frame::Frame;
use loja::server::{Backoff, Handler, HandlerAction, HandlerEvent, MAX_BACKOFF_SECS, MAX_CONNECTIONS};
use loja::shutdown::Shutdown;
use loja::{DEFAULT_HOST, DEFAULT_PORT};

const MS: u64 = 1_000_000;

/// Serves what a client has written on one connection, at the instant
/// `now`, and returns what the server writes back.
fn serve(db: &mut DbState, now: u64, written: &[u8]) -> Result<Vec<u8>, Error> {
    let mut conn = Connection::new();
    let mut handler = Handler::new();
    conn.buffer_mut().extend_from_slice(written);
    let mut replies = Vec::new();
    let mut received = None;
    while handler.is_running() {
        let frame = match conn.read_frame(received)? {
            ReadStep::Frame(frame) => Some(frame),
            ReadStep::Closed => None,
            ReadStep::NeedMore => {
                received = Some(0);
                continue;
            }
        };
        match handler.on_event(HandlerEvent::Read(frame))? {
            HandlerAction::Apply(cmd) => {
                let (reply, _notify) = cmd.apply(db, now);
                replies.extend_from_slice(&Connection::write_frame(&reply));
            }
            HandlerAction::Stop => break,
        }
    }
    Ok(replies)
}

#[test]
fn ping_without_an_argument() {
    let mut db = DbState::new();
    assert_eq!(serve(&mut db, 0, b"*1\r\n$4\r\nping\r\n").unwrap(), b"+PONG\r\n");
}

#[test]
fn ping_with_an_argument() {
    let mut db = DbState::new();
    assert_eq!(
        serve(&mut db, 0, b"*2\r\n$4\r\nping\r\n$5\r\nhello\r\n").unwrap(),
        b"$5\r\nhello\r\n"
    );
}

#[test]
fn set_then_get() {
    let mut db = DbState::new();
    assert_eq!(
        serve(&mut db, 0, b"*3\r\n$3\r\nset\r\n$3\r\nfoo\r\n$3\r\nbar\r\n").unwrap(),
        b"+OK\r\n"
    );
    assert_eq!(
        serve(&mut db, 1, b"*2\r\n$3\r\nget\r\n$3\r\nfoo\r\n").unwrap(),
        b"$3\r\nbar\r\n"
    );
}

#[test]
fn set_then_get_on_one_connection() {
    let mut db = DbState::new();
    assert_eq!(
        serve(
            &mut db,
            0,
            b"*3\r\n$3\r\nset\r\n$3\r\nfoo\r\n$3\r\nbar\r\n*2\r\n$3\r\nget\r\n$3\r\nfoo\r\n"
        )
        .unwrap(),
        b"+OK\r\n$3\r\nbar\r\n"
    );
}

#[test]
fn get_of_a_missing_key() {
    let mut db = DbState::new();
    assert_eq!(
        serve(&mut db, 0, b"*2\r\n$3\r\nget\r\n$4\r\nmiss\r\n").unwrap(),
        b"$-1\r\n"
    );
}

#[test]
fn set_with_px_then_get_after_the_time() {
    let mut db = DbState::new();
    assert_eq!(
        serve(
            &mut db,
            1000 * MS,
            b"*5\r\n$3\r\nset\r\n$3\r\nfoo\r\n$3\r\nbar\r\n$2\r\nPX\r\n$2\r\n50\r\n"
        )
        .unwrap(),
        b"+OK\r\n"
    );
    assert_eq!(
        serve(&mut db, 1010 * MS, b"*2\r\n$3\r\nget\r\n$3\r\nfoo\r\n").unwrap(),
        b"$3\r\nbar\r\n"
    );
    assert_eq!(
        serve(&mut db, 1100 * MS, b"*2\r\n$3\r\nget\r\n$3\r\nfoo\r\n").unwrap(),
        b"$-1\r\n"
    );
    // with the purge task having run in between, too
    db.purge_step(1100 * MS);
    assert_eq!(
        serve(&mut db, 1100 * MS, b"*2\r\n$3\r\nget\r\n$3\r\nfoo\r\n").unwrap(),
        b"$-1\r\n"
    );
}

#[test]
fn an_unknown_command_ends_its_connection_only() {
    let mut db = DbState::new();
    serve(&mut db, 0, b"*3\r\n$3\r\nset\r\n$3\r\nfoo\r\n$3\r\nbar\r\n").unwrap();
    match serve(&mut db, 0, b"*1\r\n$4\r\nNOPE\r\n") {
        Err(Error::UnknownCommand(name)) => assert_eq!(name, "NOPE"),
        other => panic!("unexpected result: {:?}", other),
    }
    // another connection goes on as before
    assert_eq!(
        serve(&mut db, 0, b"*2\r\n$3\r\nget\r\n$3\r\nfoo\r\n").unwrap(),
        b"$3\r\nbar\r\n"
    );
    assert_eq!(serve(&mut db, 0, b"*1\r\n$4\r\nping\r\n").unwrap(), b"+PONG\r\n");
}

#[test]
fn a_null_array_is_no_command() {
    let mut db = DbState::new();
    assert!(matches!(serve(&mut db, 0, b"*-1\r\n"), Err(Error::Protocol(_))));
    assert!(matches!(serve(&mut db, 0, b"+PING\r\n"), Err(Error::Protocol(_))));
}

#[test]
fn a_set_that_becomes_the_next_to_expire_wakes_the_purge_task() {
    let mut db = DbState::new();
    let set = |db: &mut DbState, ms: &str| {
        let frame = Frame::Array(vec![
            Frame::BulkString(Bytes::from("set")),
            Frame::BulkString(Bytes::from(format!("key{ms}"))),
            Frame::BulkString(Bytes::from("v")),
            Frame::BulkString(Bytes::from("px")),
            Frame::BulkString(Bytes::copy_from_slice(ms.as_bytes())),
        ]);
        CommandVariant::from_frame(frame).unwrap().apply(db, 0)
    };
    assert_eq!(set(&mut db, "100"), (Frame::SimpleString("OK".to_string()), true));
    assert_eq!(set(&mut db, "200"), (Frame::SimpleString("OK".to_string()), false));
    assert_eq!(set(&mut db, "50"), (Frame::SimpleString("OK".to_string()), true));
    let get = CommandVariant::Get(GetCmd::new("key50"));
    assert_eq!(get.apply(&mut db, 0), (Frame::BulkString(Bytes::from("v")), false));
}

#[test]
fn the_shutdown_notice_stops_the_handler_for_good() {
    let mut handler = Handler::new();
    assert!(handler.is_running());
    let ping = Frame::Array(vec![Frame::BulkString(Bytes::from("ping"))]);
    assert!(matches!(
        handler.on_event(HandlerEvent::Read(Some(ping.clone()))).unwrap(),
        HandlerAction::Apply(CommandVariant::Ping(_))
    ));
    assert!(handler.is_running());
    assert!(matches!(
        handler.on_event(HandlerEvent::Shutdown).unwrap(),
        HandlerAction::Stop
    ));
    assert!(!handler.is_running());
    // whatever arrives afterwards, nothing is applied
    assert!(matches!(
        handler.on_event(HandlerEvent::Read(Some(ping))).unwrap(),
        HandlerAction::Stop
    ));
    assert!(matches!(
        handler.on_event(HandlerEvent::Read(Some(Frame::Integer(1)))).unwrap(),
        HandlerAction::Stop
    ));
    assert!(matches!(
        handler.on_event(HandlerEvent::Shutdown).unwrap(),
        HandlerAction::Stop
    ));
    assert!(!handler.is_running());
}

#[test]
fn the_end_of_the_stream_stops_the_handler() {
    let mut handler = Handler::new();
    assert!(matches!(
        handler.on_event(HandlerEvent::Read(None)).unwrap(),
        HandlerAction::Stop
    ));
    assert!(handler.is_running());
}

#[test]
fn a_frame_that_is_no_command_is_an_error() {
    let mut handler = Handler::new();
    assert!(matches!(
        handler.on_event(HandlerEvent::Read(Some(Frame::Integer(1)))),
        Err(Error::Protocol(_))
    ));
    assert!(handler.is_running());
}

#[test]
fn the_shutdown_latch_fires_once() {
    let mut shutdown = Shutdown::new();
    assert!(!shutdown.is_shutdown());
    shutdown.fire();
    assert!(shutdown.is_shutdown());
    shutdown.fire();
    assert!(shutdown.is_shutdown());
}

#[test]
fn accept_backs_off_from_one_second_to_sixty_four() {
    let mut backoff = Backoff::new();
    let mut waits = Vec::new();
    while let Some(secs) = backoff.next_wait() {
        waits.push(secs);
    }
    assert_eq!(waits, vec![1, 2, 4, 8, 16, 32, 64]);
    assert_eq!(backoff.next_wait(), None);
    assert_eq!(Backoff::new().next_wait(), Some(1));
    assert_eq!(MAX_BACKOFF_SECS, 64);
}

#[test]
fn defaults() {
    assert_eq!(MAX_CONNECTIONS, 250);
    assert_eq!(DEFAULT_PORT, 6379);
    assert_eq!(DEFAULT_HOST, "0.0.0.0");
}
