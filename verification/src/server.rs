//! What the server decides: how long to wait after a failed accept, and
//! what a connection handler does with what happens on its connection.
use vstd::prelude::*;
use crate::cmd::{spec_from_frame, CommandVariant, CommandView};
use crate::error::{Error, ErrorKind};
use crate::frame::Frame;
use crate::shutdown::Shutdown;

verus! {

/// How many connections the server serves at a time.
pub const MAX_CONNECTIONS: usize = 250;

/// The longest wait between two attempts to accept, in seconds.
pub const MAX_BACKOFF_SECS: u64 = 64;

/// How long to wait after a failed accept whose wait would be `secs`
/// seconds: `secs`, or not at all where that is longer than the longest
/// wait, and the failure is final.
pub open spec fn spec_wait(secs: u64) -> Option<u64> {
    if secs > MAX_BACKOFF_SECS {
        None
    } else {
        Some(secs)
    }
}

/// The wait that the next failure would get after `failures` failures in a
/// row, in seconds: one second at first, twice as long after each failure
/// that was waited for.
pub open spec fn spec_backoff(failures: nat) -> u64
    decreases failures,
{
    if failures == 0 {
        1
    } else {
        let before = spec_backoff((failures - 1) as nat);
        if before > MAX_BACKOFF_SECS {
            before
        } else {
            (before * 2) as u64
        }
    }
}

/// The waits after failures in a row are 1, 2, 4, 8, 16, 32 and 64 seconds,
/// and the failure after the wait of 64 seconds is final.
pub proof fn lemma_backoff_schedule()
    ensures
        spec_wait(spec_backoff(0)) == Some(1u64),
        spec_wait(spec_backoff(1)) == Some(2u64),
        spec_wait(spec_backoff(2)) == Some(4u64),
        spec_wait(spec_backoff(3)) == Some(8u64),
        spec_wait(spec_backoff(4)) == Some(16u64),
        spec_wait(spec_backoff(5)) == Some(32u64),
        spec_wait(spec_backoff(6)) == Some(64u64),
        forall|failures: nat| failures >= 7 ==> spec_wait(#[trigger] spec_backoff(failures)) is None,
{
    reveal_with_fuel(spec_backoff, 8);
    assert forall|failures: nat| failures >= 7 implies spec_wait(
        #[trigger] spec_backoff(failures),
    ) is None by {
        lemma_backoff_gives_up(failures);
    }
}

/// From the eighth failure in a row on, the server gives up.
proof fn lemma_backoff_gives_up(failures: nat)
    requires
        failures >= 7,
    ensures
        spec_backoff(failures) == 128,
    decreases failures,
{
    reveal_with_fuel(spec_backoff, 8);
    if failures > 7 {
        lemma_backoff_gives_up((failures - 1) as nat);
    }
}

/// The wait between attempts to accept a connection, which grows with each
/// failure in a row.
#[derive(Debug)]
pub struct Backoff {
    secs: u64,
}

impl Backoff {
    /// The wait that the next failure gets, in seconds.
    pub closed spec fn secs(&self) -> u64 {
        self.secs
    }

    /// The backoff before any failure: the first wait is one second.
    pub fn new() -> (b: Self)
        ensures
            b.secs() == spec_backoff(0),
    {
        Backoff { secs: 1 }
    }

    /// Takes note of a failed accept. Returns the seconds to wait before
    /// the next attempt, or nothing where the server has waited long enough
    /// and the failure is final.
    pub fn next_wait(&mut self) -> (wait: Option<u64>)
        ensures
            wait == spec_wait(old(self).secs()),
            final(self).secs() == if old(self).secs() > MAX_BACKOFF_SECS {
                old(self).secs()
            } else {
                (old(self).secs() * 2) as u64
            },
            forall|failures: nat|
                old(self).secs() == #[trigger] spec_backoff(failures) ==> final(self).secs()
                    == spec_backoff(failures + 1),
    {
        if self.secs > MAX_BACKOFF_SECS {
            return None;
        }
        let wait = self.secs;
        self.secs = self.secs * 2;
        Some(wait)
    }
}

/// What happens on a connection while its handler waits.
#[derive(Debug)]
pub enum HandlerEvent {
    /// A read has ended: with a frame, or without one where the peer has
    /// closed the connection.
    Read(Option<Frame>),
    /// The shutdown notice has arrived.
    Shutdown,
}

/// What a connection handler does next.
#[derive(Debug)]
pub enum HandlerAction {
    /// Apply the command, send its reply, and wait again.
    Apply(CommandVariant),
    /// Leave the loop and let go of the connection.
    Stop,
}

/// What a handler does with an event, as mathematical values. The first
/// part is whether the shutdown notice has arrived by then; the second is
/// the command to apply, or nothing where the handler stops.
pub open spec fn spec_on_event(fired: bool, event: HandlerEvent) -> (
    bool,
    Result<Option<CommandView>, ErrorKind>,
) {
    if fired {
        (true, Ok(None))
    } else {
        match event {
            HandlerEvent::Shutdown => (true, Ok(None)),
            HandlerEvent::Read(None) => (false, Ok(None)),
            HandlerEvent::Read(Some(frame)) => (
                false,
                match spec_from_frame(frame@) {
                    Ok(cmd) => Ok(Some(cmd)),
                    Err(e) => Err(e),
                },
            ),
        }
    }
}

/// The shutdown notice stops a handler where it waits, and a handler that
/// has been told to shut down applies no command any more, whatever
/// arrives.
pub proof fn lemma_shutdown_stops(fired: bool, event: HandlerEvent, later: HandlerEvent)
    ensures
        spec_on_event(fired, HandlerEvent::Shutdown) == (true, Ok::<_, ErrorKind>(
            None::<CommandView>,
        )),
        spec_on_event(fired, event).0 ==> spec_on_event(fired, event).1 == Ok::<_, ErrorKind>(
            None::<CommandView>,
        ),
        fired ==> spec_on_event(fired, later) == (true, Ok::<_, ErrorKind>(None::<CommandView>)),
{
}

/// The loop of a connection handler, without the connection.
#[derive(Debug)]
pub struct Handler {
    shutdown: Shutdown,
}

impl Handler {
    /// Whether the shutdown notice has arrived.
    pub closed spec fn fired(&self) -> bool {
        self.shutdown.fired()
    }

    /// A handler for a new connection.
    pub fn new() -> (h: Self)
        ensures
            !h.fired(),
    {
        Handler { shutdown: Shutdown::new() }
    }

    /// Whether the handler goes on: it does until the shutdown notice
    /// arrives.
    pub fn is_running(&self) -> (b: bool)
        ensures
            b == !self.fired(),
    {
        !self.shutdown.is_shutdown()
    }

    /// Decides what to do with `event`. A frame becomes a command to
    /// apply; a frame that is no command is an error, which ends the
    /// connection. The end of the stream and the shutdown notice stop the
    /// handler.
    pub fn on_event(&mut self, event: HandlerEvent) -> (r: Result<HandlerAction, Error>)
        ensures
            final(self).fired() == spec_on_event(old(self).fired(), event).0,
            match r {
                Ok(HandlerAction::Apply(cmd)) => spec_on_event(old(self).fired(), event).1
                    == Ok::<_, ErrorKind>(Some(cmd@)),
                Ok(HandlerAction::Stop) => spec_on_event(old(self).fired(), event).1 == Ok::<
                    _,
                    ErrorKind,
                >(None::<CommandView>),
                Err(e) => spec_on_event(old(self).fired(), event).1 == Err::<
                    Option<CommandView>,
                    _,
                >(e.kind()),
            },
    {
        if self.shutdown.is_shutdown() {
            return Ok(HandlerAction::Stop);
        }
        match event {
            HandlerEvent::Shutdown => {
                self.shutdown.fire();
                Ok(HandlerAction::Stop)
            },
            HandlerEvent::Read(None) => Ok(HandlerAction::Stop),
            HandlerEvent::Read(Some(frame)) => {
                let cmd = CommandVariant::from_frame(frame)?;
                Ok(HandlerAction::Apply(cmd))
            },
        }
    }
}

} // verus!
