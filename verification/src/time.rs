//! Spans of time, as the commands and the store count them.
use vstd::prelude::*;

verus! {

/// The number of nanoseconds in a second.
pub const NANOS_PER_SEC: u32 = 1_000_000_000;

/// The number of nanoseconds in a millisecond.
pub const NANOS_PER_MILLI: u32 = 1_000_000;

/// The number of milliseconds in a second.
pub const MILLIS_PER_SEC: u64 = 1_000;

/// A span of time: whole seconds and the nanoseconds of a started second.
#[derive(Debug, Clone, Copy, PartialEq, Eq, Structural)]
pub struct Duration {
    secs: u64,
    nanos: u32,
}

impl Duration {
    /// Whether the nanoseconds stay under a second. Every span that the
    /// program holds is of this kind.
    #[verifier::type_invariant]
    pub closed spec fn wf(self) -> bool {
        self.nanos < NANOS_PER_SEC
    }

    /// The whole seconds of the span.
    pub closed spec fn spec_secs(self) -> nat {
        self.secs as nat
    }

    /// The nanoseconds of the span beyond its whole seconds.
    pub closed spec fn spec_subsec_nanos(self) -> nat {
        self.nanos as nat
    }

    /// The span in nanoseconds.
    pub open spec fn spec_nanos(self) -> nat {
        self.spec_secs() * NANOS_PER_SEC as nat + self.spec_subsec_nanos()
    }

    /// The milliseconds of the span beyond its whole seconds.
    pub open spec fn spec_subsec_millis(self) -> nat {
        self.spec_subsec_nanos() / NANOS_PER_MILLI as nat
    }

    /// The whole milliseconds of the span.
    pub open spec fn spec_millis(self) -> nat {
        self.spec_secs() * MILLIS_PER_SEC as nat + self.spec_subsec_millis()
    }

    /// Two spans of the same seconds and nanoseconds are the same span.
    pub proof fn lemma_same(self, other: Duration)
        requires
            self.spec_secs() == other.spec_secs(),
            self.spec_subsec_nanos() == other.spec_subsec_nanos(),
        ensures
            self == other,
    {
    }

    /// The nanoseconds beyond the whole seconds stay under a second.
    pub proof fn lemma_subsec_bound(self)
        requires
            self.wf(),
        ensures
            self.spec_subsec_nanos() < NANOS_PER_SEC,
    {
    }

    /// The span of `secs` seconds.
    pub closed spec fn spec_from_secs(secs: u64) -> Duration {
        Duration { secs, nanos: 0 }
    }

    /// The span of `millis` milliseconds.
    pub closed spec fn spec_from_millis(millis: u64) -> Duration {
        Duration {
            secs: millis / MILLIS_PER_SEC,
            nanos: ((millis % MILLIS_PER_SEC) * NANOS_PER_MILLI) as u32,
        }
    }

    /// What a span made from seconds measures.
    pub proof fn lemma_from_secs(secs: u64)
        ensures
            Self::spec_from_secs(secs).wf(),
            Self::spec_from_secs(secs).spec_secs() == secs,
            Self::spec_from_secs(secs).spec_subsec_nanos() == 0,
    {
    }

    /// What a span made from milliseconds measures.
    pub proof fn lemma_from_millis(millis: u64)
        ensures
            Self::spec_from_millis(millis).wf(),
            Self::spec_from_millis(millis).spec_secs() == millis / MILLIS_PER_SEC,
            Self::spec_from_millis(millis).spec_subsec_nanos() == (millis % MILLIS_PER_SEC)
                * NANOS_PER_MILLI,
            Self::spec_from_millis(millis).spec_millis() == millis,
    {
    }

    /// A span of `secs` seconds.
    #[verifier::when_used_as_spec(spec_from_secs)]
    pub fn from_secs(secs: u64) -> (d: Self)
        ensures
            d.wf(),
            d == Self::spec_from_secs(secs),
            d.spec_secs() == secs,
            d.spec_subsec_nanos() == 0,
    {
        Duration { secs, nanos: 0 }
    }

    /// A span of `millis` milliseconds.
    #[verifier::when_used_as_spec(spec_from_millis)]
    pub fn from_millis(millis: u64) -> (d: Self)
        ensures
            d.wf(),
            d == Self::spec_from_millis(millis),
            d.spec_secs() == millis / MILLIS_PER_SEC,
            d.spec_subsec_nanos() == (millis % MILLIS_PER_SEC) * NANOS_PER_MILLI,
    {
        let rest: u32 = (millis % MILLIS_PER_SEC) as u32;
        Duration { secs: millis / MILLIS_PER_SEC, nanos: rest * NANOS_PER_MILLI }
    }

    /// A span of `secs` seconds and `nanos` nanoseconds. Nanoseconds that
    /// make up whole seconds are carried over; `None` where the seconds then
    /// no longer fit.
    pub fn new(secs: u64, nanos: u32) -> (r: Option<Self>)
        ensures
            match r {
                Some(d) => d.wf() && d.spec_nanos() == secs * NANOS_PER_SEC + nanos,
                None => secs + nanos / NANOS_PER_SEC > u64::MAX,
            },
    {
        let carry: u64 = (nanos / NANOS_PER_SEC) as u64;
        if secs > u64::MAX - carry {
            return None;
        }
        let d = Duration { secs: secs + carry, nanos: nanos % NANOS_PER_SEC };
        assert(d.spec_nanos() == secs * NANOS_PER_SEC + nanos) by (nonlinear_arith)
            requires
                d.spec_secs() == secs + nanos / NANOS_PER_SEC,
                d.spec_subsec_nanos() == nanos % NANOS_PER_SEC,
                d.spec_nanos() == d.spec_secs() * NANOS_PER_SEC as nat + d.spec_subsec_nanos(),
        ;
        Some(d)
    }

    /// The whole seconds of the span.
    pub fn as_secs(&self) -> (s: u64)
        ensures
            s == self.spec_secs(),
    {
        self.secs
    }

    /// The nanoseconds of the span beyond its whole seconds.
    pub fn subsec_nanos(&self) -> (n: u32)
        ensures
            n == self.spec_subsec_nanos(),
            n < NANOS_PER_SEC,
    {
        proof {
            use_type_invariant(self);
        }
        self.nanos
    }

    /// The milliseconds of the span beyond its whole seconds.
    pub fn subsec_millis(&self) -> (m: u32)
        ensures
            m == self.spec_subsec_millis(),
            m < MILLIS_PER_SEC,
    {
        proof {
            use_type_invariant(self);
        }
        self.nanos / NANOS_PER_MILLI
    }

    /// The whole milliseconds of the span.
    pub fn as_millis(&self) -> (m: u128)
        ensures
            m == self.spec_millis(),
    {
        proof {
            use_type_invariant(self);
        }
        let secs: u128 = self.secs as u128;
        let millis: u128 = (self.nanos / NANOS_PER_MILLI) as u128;
        secs * 1_000u128 + millis
    }

    /// The span in nanoseconds.
    pub fn as_nanos(&self) -> (n: u128)
        ensures
            n == self.spec_nanos(),
    {
        proof {
            use_type_invariant(self);
        }
        let secs: u128 = self.secs as u128;
        let nanos: u128 = self.nanos as u128;
        secs * 1_000_000_000u128 + nanos
    }
}

/// The unit in which a time to live is given on the command line.
#[derive(Debug, Clone, Copy, PartialEq, Eq, Structural)]
pub enum ExpirationUnit {
    /// Seconds.
    EX,
    /// Milliseconds.
    PX,
}

/// The time to live that a unit and a number stand for; none where either
/// is missing.
pub fn to_duration(unit: Option<ExpirationUnit>, expires: Option<u64>) -> (d: Option<Duration>)
    ensures
        d == match (unit, expires) {
            (Some(ExpirationUnit::EX), Some(n)) => Some(Duration::from_secs(n)),
            (Some(ExpirationUnit::PX), Some(n)) => Some(Duration::from_millis(n)),
            _ => None,
        },
{
    match (unit, expires) {
        (Some(ExpirationUnit::EX), Some(expires)) => Some(Duration::from_secs(expires)),
        (Some(ExpirationUnit::PX), Some(expires)) => Some(Duration::from_millis(expires)),
        _ => None,
    }
}

} // verus!
