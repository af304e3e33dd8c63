//! The store: keys and their values, with the instants at which values
//! expire kept in order.
//!
//! Instants are nanoseconds on a clock that the caller reads; the store
//! never reads a clock itself.
use vstd::prelude::*;
use vstd::hash_map::StringHashMap;
use bytes::Bytes;
use crate::buf::bytes_view;
use crate::order::{
    expiration_before,
    expiration_less,
    lemma_expiration_less_irreflexive,
    lemma_expiration_less_total,
    lemma_expiration_less_transitive,
};
use crate::text::same_text;
use crate::time::Duration;

verus! {

/// A stored value.
struct Entry {
    /// The stored bytes.
    data: Bytes,
    /// The instant from which on the value is gone, if it expires at all.
    expires_at: Option<u64>,
}

/// What a stored value is, as mathematical values.
pub struct EntryView {
    pub data: Seq<u8>,
    pub expires_at: Option<u64>,
}

/// What the store holds, as mathematical values.
pub struct DbView {
    pub entries: Map<Seq<char>, EntryView>,
    pub shutdown: bool,
}

/// Whether `entry` has expired at the instant `now`.
pub open spec fn expired(entry: EntryView, now: u64) -> bool {
    entry.expires_at matches Some(t) && t <= now
}

/// Whether `t` is the earliest instant at which an entry expires; `None`
/// stands for no entry that expires.
pub open spec fn is_earliest(entries: Map<Seq<char>, EntryView>, t: Option<u64>) -> bool {
    match t {
        Some(t) => {
            &&& exists|k: Seq<char>| #[trigger]
                entries.contains_key(k) && entries[k].expires_at == Some(t)
            &&& forall|k: Seq<char>| #[trigger]
                entries.contains_key(k) ==> (entries[k].expires_at matches Some(u) ==> t <= u)
        },
        None => forall|k: Seq<char>| #[trigger]
            entries.contains_key(k) ==> entries[k].expires_at is None,
    }
}

/// The instant at which a value set at `now` expires.
pub open spec fn expiry(expire: Option<Duration>, now: u64) -> Option<u64> {
    match expire {
        Some(d) => Some((now + d.spec_nanos()) as u64),
        None => None,
    }
}

/// What reading `key` at the instant `now` yields: the stored bytes, unless
/// their time has passed.
pub open spec fn spec_get(db: DbView, key: Seq<char>, now: u64) -> Option<Seq<u8>> {
    if db.entries.contains_key(key) && !(db.entries[key].expires_at matches Some(t) && t < now) {
        Some(db.entries[key].data)
    } else {
        None
    }
}

/// The store after `key` has been set at the instant `now`. A store that
/// has been shut down takes nothing in.
pub open spec fn spec_set(
    db: DbView,
    key: Seq<char>,
    value: Seq<u8>,
    expire: Option<Duration>,
    now: u64,
) -> DbView {
    if db.shutdown {
        db
    } else {
        DbView {
            entries: db.entries.insert(
                key,
                EntryView { data: value, expires_at: expiry(expire, now) },
            ),
            shutdown: db.shutdown,
        }
    }
}

/// Whether setting a value at `now` makes it the next to expire, so that
/// whoever waits for the next expiration has to be woken.
pub open spec fn spec_must_notify(db: DbView, expire: Option<Duration>, now: u64) -> bool {
    &&& !db.shutdown
    &&& expiry(expire, now) matches Some(when)
    &&& forall|k: Seq<char>| #[trigger]
        db.entries.contains_key(k) ==> (db.entries[k].expires_at matches Some(t) ==> when < t)
}

/// The store after everything that has expired at `now` has been thrown
/// out. A store that has been shut down is left alone.
pub open spec fn spec_purge(db: DbView, now: u64) -> DbView {
    if db.shutdown {
        db
    } else {
        DbView {
            entries: Map::new(
                |k: Seq<char>| db.entries.contains_key(k) && !expired(db.entries[k], now),
                |k: Seq<char>| db.entries[k],
            ),
            shutdown: db.shutdown,
        }
    }
}

/// What the task that purges the store does next.
#[derive(Debug, Clone, Copy, PartialEq, Eq, Structural)]
pub enum PurgeWait {
    /// The store has been shut down: the task ends.
    Exit,
    /// Sleep until this instant or until woken, whichever comes first.
    Until(u64),
    /// Nothing is due to expire: wait to be woken.
    Notified,
}

/// The store.
pub struct DbState {
    /// The values by key.
    entries: StringHashMap<Entry>,
    /// The instants at which values expire, each with its key, earliest
    /// first.
    expirations: Vec<(u64, String)>,
    /// Whether the store has been shut down.
    shutdown: bool,
}

impl View for DbState {
    type V = DbView;

    closed spec fn view(&self) -> DbView {
        DbView {
            entries: Map::new(
                |k: Seq<char>| self.entries@.contains_key(k),
                |k: Seq<char>|
                    EntryView {
                        data: bytes_view(self.entries@[k].data),
                        expires_at: self.entries@[k].expires_at,
                    },
            ),
            shutdown: self.shutdown,
        }
    }
}

/// Whether `pending` stands in order, earliest first.
spec fn sorted(pending: Seq<(u64, String)>) -> bool {
    forall|i: int, j: int|
        0 <= i < j < pending.len() ==> expiration_less(
            #[trigger] pending[i].0,
            pending[i].1@,
            #[trigger] pending[j].0,
            pending[j].1@,
        )
}

/// Whether `pending` holds an expiration for `key`.
spec fn listed(pending: Seq<(u64, String)>, key: Seq<char>) -> bool {
    exists|i: int| 0 <= i < pending.len() && (#[trigger] pending[i]).1@ == key
}

/// Whether `pending` holds exactly the expirations of `entries`, in order.
spec fn tracks(pending: Seq<(u64, String)>, entries: Map<Seq<char>, Entry>) -> bool {
    &&& sorted(pending)
    &&& forall|i: int|
        0 <= i < pending.len() ==> entries.contains_key((#[trigger] pending[i]).1@)
            && entries[pending[i].1@].expires_at == Some(pending[i].0)
    &&& forall|k: Seq<char>| #[trigger]
        entries.contains_key(k) && entries[k].expires_at is Some ==> listed(pending, k)
}

impl DbState {
    /// Whether the expirations kept in order are those of the entries: one
    /// for each entry that expires, at the entry's instant, and no other.
    pub closed spec fn wf(&self) -> bool {
        tracks(self.expirations@, self.entries@)
    }

    /// The pending expirations in the order in which they are kept: each
    /// an instant and the key whose entry expires then.
    pub closed spec fn expirations(&self) -> Seq<(u64, Seq<char>)> {
        Seq::new(
            self.expirations@.len(),
            |i: int| (self.expirations@[i].0, self.expirations@[i].1@),
        )
    }

    /// A pair of instant and key is pending exactly where the key's entry
    /// expires at that instant.
    pub proof fn lemma_pending(&self, t: u64, key: Seq<char>)
        requires
            self.wf(),
        ensures
            self.expirations().contains((t, key)) <==> (self@.entries.contains_key(key)
                && self@.entries[key].expires_at == Some(t)),
    {
        let pending = self.expirations();
        if self@.entries.contains_key(key) && self@.entries[key].expires_at == Some(t) {
            let i = choose|i: int|
                0 <= i < self.expirations@.len() && (#[trigger] self.expirations@[i]).1@ == key;
            assert(pending[i] == (t, key));
        }
    }

    /// The pending expirations stand earliest first, and those of one
    /// instant by the bytes of their keys; none stands twice.
    pub proof fn lemma_pending_in_order(&self, i: int, j: int)
        requires
            self.wf(),
            0 <= i < j < self.expirations().len(),
        ensures
            expiration_less(
                self.expirations()[i].0,
                self.expirations()[i].1,
                self.expirations()[j].0,
                self.expirations()[j].1,
            ),
    {
    }

    /// An empty store.
    pub fn new() -> (db: Self)
        ensures
            db.wf(),
            db@.entries == Map::<Seq<char>, EntryView>::empty(),
            !db@.shutdown,
    {
        let db = DbState { entries: StringHashMap::new(), expirations: Vec::new(), shutdown: false };
        db
    }

    /// Whether the store has been shut down.
    pub fn is_shutdown(&self) -> (b: bool)
        ensures
            b == self@.shutdown,
    {
        self.shutdown
    }

    /// Shuts the store down, for good. The entries stay as they are.
    pub fn shutdown(&mut self)
        requires
            old(self).wf(),
        ensures
            final(self).wf(),
            final(self)@ == (DbView { shutdown: true, ..old(self)@ }),
    {
        self.shutdown = true;
    }

    /// The value of `key` at the instant `now`: the stored bytes, which the
    /// result shares with the store, or nothing where the key has no value
    /// or the value's time has passed.
    pub fn get(&self, key: &str, now: u64) -> (r: Option<Bytes>)
        ensures
            match r {
                Some(data) => spec_get(self@, key@, now) == Some(bytes_view(data)),
                None => spec_get(self@, key@, now) is None,
            },
    {
        match self.entries.get(key) {
            Some(entry) => {
                let gone = match entry.expires_at {
                    Some(t) => t < now,
                    None => false,
                };
                if gone {
                    None
                } else {
                    Some(entry.data.clone())
                }
            },
            None => None,
        }
    }

    /// The earliest instant at which an entry expires.
    pub fn next_expiration(&self) -> (r: Option<u64>)
        requires
            self.wf(),
        ensures
            is_earliest(self@.entries, r),
    {
        if self.expirations.len() > 0 {
            let t: u64 = self.expirations[0].0;
            proof {
                let first = self.expirations@[0];
                assert(self@.entries.contains_key(first.1@) && self@.entries[first.1@].expires_at
                    == Some(t));
            }
            Some(t)
        } else {
            None
        }
    }

    /// The place of the expiration of `key` among the pending ones, if there
    /// is one.
    fn position_of(&self, key: &str) -> (r: Option<usize>)
        ensures
            match r {
                Some(i) => i < self.expirations@.len() && self.expirations@[i as int].1@ == key@,
                None => !listed(self.expirations@, key@),
            },
    {
        let mut i: usize = 0;
        while i < self.expirations.len()
            invariant
                i <= self.expirations@.len(),
                forall|j: int| 0 <= j < i ==> (#[trigger] self.expirations@[j]).1@ != key@,
            decreases self.expirations@.len() - i,
        {
            if same_text(self.expirations[i].1.as_str(), key) {
                return Some(i);
            }
            i = i + 1;
        }
        None
    }

    /// The place at which the expiration `(when, key)` has to go for the
    /// pending ones to stay in order.
    fn insertion_point(&self, when: u64, key: &str) -> (r: usize)
        ensures
            r <= self.expirations@.len(),
            forall|j: int|
                0 <= j < r ==> expiration_less(
                    (#[trigger] self.expirations@[j]).0,
                    self.expirations@[j].1@,
                    when,
                    key@,
                ),
            r < self.expirations@.len() ==> !expiration_less(
                self.expirations@[r as int].0,
                self.expirations@[r as int].1@,
                when,
                key@,
            ),
    {
        let mut i: usize = 0;
        while i < self.expirations.len()
            invariant
                i <= self.expirations@.len(),
                forall|j: int|
                    0 <= j < i ==> expiration_less(
                        (#[trigger] self.expirations@[j]).0,
                        self.expirations@[j].1@,
                        when,
                        key@,
                    ),
            decreases self.expirations@.len() - i,
        {
            if !expiration_before(
                self.expirations[i].0,
                self.expirations[i].1.as_str(),
                when,
                key,
            ) {
                return i;
            }
            i = i + 1;
        }
        i
    }

    /// Sets `key` to `value` at the instant `now`, in place of any value
    /// that the key had. With `expire` the value is gone once that span has
    /// passed. The result tells whether the new value has become the next
    /// to expire: whoever waits for the next expiration must then be woken.
    ///
    /// A store that has been shut down takes nothing in.
    pub fn set(
        &mut self,
        key: String,
        value: Bytes,
        expire: Option<Duration>,
        now: u64,
    ) -> (notify: bool)
        requires
            old(self).wf(),
            expire matches Some(d) ==> now + d.spec_nanos() <= u64::MAX,
        ensures
            final(self).wf(),
            final(self)@ == spec_set(old(self)@, key@, bytes_view(value), expire, now),
            notify == spec_must_notify(old(self)@, expire, now),
    {
        if self.shutdown {
            return false;
        }
        let mut notify = false;
        let expires_at: Option<u64> = match expire {
            Some(duration) => {
                let when: u64 = now + (duration.as_nanos() as u64);
                notify = match self.next_expiration() {
                    Some(expiration) => expiration > when,
                    None => true,
                };
                Some(when)
            },
            None => None,
        };
        let prev = match self.entries.get(key.as_str()) {
            Some(entry) => entry.expires_at,
            None => None,
        };
        let ghost old_entries = self.entries@;
        let ghost old_pending = self.expirations@;
        self.entries.insert(key.clone(), Entry { data: value, expires_at });
        if prev.is_some() {
            if let Some(at) = self.position_of(key.as_str()) {
                let _ = self.expirations.remove(at);
                proof {
                    lemma_remove_tracks(old_pending, old_entries, at as int);
                }
            }
        } else {
            proof {
                lemma_unlisted(old_pending, old_entries, key@);
            }
        }
        let ghost mid_pending = self.expirations@;
        if let Some(when) = expires_at {
            let at: usize = self.insertion_point(when, key.as_str());
            let ghost item = (when, key);
            self.expirations.insert(at, (when, key));
            proof {
                lemma_insert_tracks(mid_pending, at as int, item);
            }
        }
        assert(self@.entries =~= spec_set(
            old(self)@,
            key@,
            bytes_view(value),
            expire,
            now,
        ).entries);
        notify
    }

    /// Throws out every entry that has expired at the instant `now`, and
    /// returns the earliest instant at which one of those left expires.
    /// Entries that expire later than `now` stay. A store that has been shut
    /// down is left alone, and nothing is returned.
    pub fn purge_expired_keys(&mut self, now: u64) -> (next: Option<u64>)
        requires
            old(self).wf(),
        ensures
            final(self).wf(),
            final(self)@ == spec_purge(old(self)@, now),
            if old(self)@.shutdown {
                next is None
            } else {
                is_earliest(final(self)@.entries, next)
            },
    {
        if self.shutdown {
            return None;
        }
        let ghost old_entries = self.entries@;
        let ghost pending = self.expirations@;
        let mut count: usize = 0;
        while count < self.expirations.len() && self.expirations[count].0 <= now
            invariant
                tracks(pending, old_entries),
                self.expirations@ == pending,
                self.shutdown == old(self).shutdown,
                count <= pending.len(),
                forall|j: int| 0 <= j < count ==> (#[trigger] pending[j]).0 <= now,
                forall|k: Seq<char>|
                    self.entries@.contains_key(k) <==> (old_entries.contains_key(k) && !listed(
                        pending.take(count as int),
                        k,
                    )),
                forall|k: Seq<char>| #[trigger]
                    self.entries@.contains_key(k) ==> self.entries@[k] == old_entries[k],
            decreases pending.len() - count,
        {
            self.entries.remove(self.expirations[count].1.as_str());
            assert(pending.take(count + 1)[count as int] == pending[count as int]);
            count = count + 1;
        }
        let rest = self.expirations.split_off(count);
        self.expirations = rest;
        proof {
            let gone = pending.take(count as int);
            let kept = self.expirations@;
            assert forall|k: Seq<char>| old_entries.contains_key(k) implies (listed(gone, k) <==> (
            old_entries[k].expires_at matches Some(t) && t <= now)) by {
                if old_entries[k].expires_at matches Some(t) && t <= now {
                    let i = choose|i: int|
                        0 <= i < pending.len() && (#[trigger] pending[i]).1@ == k;
                    assert(gone[i] == pending[i]);
                }
            }
            assert forall|k: Seq<char>| #[trigger]
                self.entries@.contains_key(k) && self.entries@[k].expires_at is Some implies listed(
                kept,
                k,
            ) by {
                assert(old_entries.contains_key(k) && !listed(gone, k));
                let i = choose|i: int| 0 <= i < pending.len() && (#[trigger] pending[i]).1@ == k;
                assert(kept[i - count] == pending[i]);
            }
            assert(self@.entries =~= spec_purge(old(self)@, now).entries);
        }
        self.next_expiration()
    }

    /// One turn of the task that purges the store: throws out what has
    /// expired at `now`, unless the store has been shut down, and tells the
    /// task what to wait for.
    pub fn purge_step(&mut self, now: u64) -> (wait: PurgeWait)
        requires
            old(self).wf(),
        ensures
            final(self).wf(),
            final(self)@ == spec_purge(old(self)@, now),
            match wait {
                PurgeWait::Exit => old(self)@.shutdown,
                PurgeWait::Until(t) => !old(self)@.shutdown && is_earliest(
                    final(self)@.entries,
                    Some(t),
                ),
                PurgeWait::Notified => !old(self)@.shutdown && is_earliest(
                    final(self)@.entries,
                    None,
                ),
            },
    {
        if self.is_shutdown() {
            return PurgeWait::Exit;
        }
        match self.purge_expired_keys(now) {
            Some(when) => PurgeWait::Until(when),
            None => PurgeWait::Notified,
        }
    }
}

/// Whether `pending` holds `item`.
spec fn listed_at(pending: Seq<(u64, String)>, item: (u64, String)) -> bool {
    exists|i: int| 0 <= i < pending.len() && #[trigger] pending[i] == item
}

/// Whether every item of `part` is an item of `whole`.
spec fn within(part: Seq<(u64, String)>, whole: Seq<(u64, String)>) -> bool {
    forall|i: int| 0 <= i < part.len() ==> listed_at(whole, #[trigger] part[i])
}

/// A key whose entry does not expire has no pending expiration.
proof fn lemma_unlisted(pending: Seq<(u64, String)>, entries: Map<Seq<char>, Entry>, key: Seq<char>)
    requires
        tracks(pending, entries),
        !(entries.contains_key(key) && entries[key].expires_at is Some),
    ensures
        !listed(pending, key),
{
}

/// Taking one expiration out leaves the others in order, and leaves none
/// for its key.
proof fn lemma_remove_tracks(pending: Seq<(u64, String)>, entries: Map<Seq<char>, Entry>, at: int)
    requires
        tracks(pending, entries),
        0 <= at < pending.len(),
    ensures
        sorted(pending.remove(at)),
        !listed(pending.remove(at), pending[at].1@),
        within(pending.remove(at), pending),
        forall|k: Seq<char>|
            k != pending[at].1@ && listed(pending, k) ==> #[trigger] listed(pending.remove(at), k),
{
    let rest = pending.remove(at);
    let key = pending[at].1@;
    assert forall|i: int| 0 <= i < rest.len() implies (#[trigger] rest[i]).1@ != key by {
        let a = if i < at {
            i
        } else {
            i + 1
        };
        if pending[a].1@ == key {
            lemma_expiration_less_irreflexive(pending[a].0, key);
        }
    }
    assert forall|k: Seq<char>| k != key && listed(pending, k) implies #[trigger] listed(
        rest,
        k,
    ) by {
        let a = choose|a: int| 0 <= a < pending.len() && (#[trigger] pending[a]).1@ == k;
        let i = if a < at {
            a
        } else {
            a - 1
        };
        assert(rest[i] == pending[a]);
    }
}

/// Putting an expiration in at its place keeps the pending ones in order.
proof fn lemma_insert_tracks(pending: Seq<(u64, String)>, at: int, item: (u64, String))
    requires
        sorted(pending),
        !listed(pending, item.1@),
        0 <= at <= pending.len(),
        forall|j: int|
            0 <= j < at ==> expiration_less(
                (#[trigger] pending[j]).0,
                pending[j].1@,
                item.0,
                item.1@,
            ),
        at < pending.len() ==> !expiration_less(
            pending[at].0,
            pending[at].1@,
            item.0,
            item.1@,
        ),
    ensures
        sorted(pending.insert(at, item)),
        listed_at(pending.insert(at, item), item),
        listed(pending.insert(at, item), item.1@),
        within(pending, pending.insert(at, item)),
        forall|i: int|
            0 <= i < pending.len() + 1 ==> (#[trigger] pending.insert(at, item)[i]) == item
                || listed_at(pending, pending.insert(at, item)[i]),
        forall|k: Seq<char>| listed(pending, k) ==> #[trigger] listed(pending.insert(at, item), k),
{
    let more = pending.insert(at, item);
    assert forall|j: int| at <= j < pending.len() implies expiration_less(
        item.0,
        item.1@,
        (#[trigger] pending[j]).0,
        pending[j].1@,
    ) by {
        lemma_expiration_less_total(item.0, item.1@, pending[at].0, pending[at].1@);
        if j > at {
            lemma_expiration_less_transitive(
                item.0,
                item.1@,
                pending[at].0,
                pending[at].1@,
                pending[j].0,
                pending[j].1@,
            );
        }
    }
    assert(more[at] == item);
    assert forall|i: int| 0 <= i < pending.len() implies listed_at(more, #[trigger] pending[i]) by {
        let a = if i < at {
            i
        } else {
            i + 1
        };
        assert(more[a] == pending[i]);
    }
}

/// Something that happens to the store.
pub enum Step {
    /// A key is set at an instant.
    Write { key: Seq<char>, value: Seq<u8>, expire: Option<Duration>, now: u64 },
    /// What has expired at an instant is thrown out.
    Purge { now: u64 },
    /// The store is shut down.
    Shutdown,
}

/// The store after `step`.
pub open spec fn spec_step(db: DbView, step: Step) -> DbView {
    match step {
        Step::Write { key, value, expire, now } => spec_set(db, key, value, expire, now),
        Step::Purge { now } => spec_purge(db, now),
        Step::Shutdown => DbView { shutdown: true, ..db },
    }
}

/// The store after each of `steps` in turn.
pub open spec fn spec_steps(db: DbView, steps: Seq<Step>) -> DbView
    decreases steps.len(),
{
    if steps.len() == 0 {
        db
    } else {
        spec_step(spec_steps(db, steps.drop_last()), steps.last())
    }
}

/// Whether none of `steps` sets `key`.
pub open spec fn leaves_alone(steps: Seq<Step>, key: Seq<char>) -> bool {
    forall|i: int|
        0 <= i < steps.len() ==> !((#[trigger] steps[i]) matches Step::Write { key: k, .. } && k
            == key)
}

/// A value set with a time to live is never read once that time has passed,
/// whatever has happened to the store in between, as long as the key has
/// not been set again.
pub proof fn lemma_expired_value_is_gone(
    db: DbView,
    key: Seq<char>,
    value: Seq<u8>,
    ttl: Duration,
    set_at: u64,
    steps: Seq<Step>,
    read_at: u64,
)
    requires
        !db.shutdown,
        set_at + ttl.spec_nanos() <= u64::MAX,
        leaves_alone(steps, key),
        read_at > set_at + ttl.spec_nanos(),
    ensures
        spec_get(spec_steps(spec_set(db, key, value, Some(ttl), set_at), steps), key, read_at)
            is None,
{
    lemma_expiry_stays(spec_set(db, key, value, Some(ttl), set_at), key, steps);
}

/// An entry's instant of expiry stays what it is, for as long as the entry
/// is there, unless its key is set again.
pub proof fn lemma_expiry_stays(db: DbView, key: Seq<char>, steps: Seq<Step>)
    requires
        db.entries.contains_key(key),
        leaves_alone(steps, key),
    ensures
        spec_steps(db, steps).entries.contains_key(key) ==> spec_steps(db, steps).entries[key]
            == db.entries[key],
    decreases steps.len(),
{
    if steps.len() > 0 {
        let earlier = steps.drop_last();
        lemma_expiry_stays(db, key, earlier);
    }
}

/// Purging at `now` removes exactly the entries that have expired at `now`:
/// an entry that expires later, or never, stays as it is.
pub proof fn lemma_purge_keeps(db: DbView, now: u64, key: Seq<char>)
    requires
        !db.shutdown,
        db.entries.contains_key(key),
    ensures
        spec_purge(db, now).entries.contains_key(key) <==> !expired(db.entries[key], now),
        spec_purge(db, now).entries.contains_key(key) ==> spec_purge(db, now).entries[key]
            == db.entries[key],
{
}

/// After a purge at `now` no key reads as a value that had expired at
/// `now`.
pub proof fn lemma_purged_value_is_gone(db: DbView, now: u64, key: Seq<char>, read_at: u64)
    requires
        !db.shutdown,
        db.entries.contains_key(key),
        expired(db.entries[key], now),
    ensures
        spec_get(spec_purge(db, now), key, read_at) is None,
{
}

/// Once the store has been shut down it stays shut down, and nothing that
/// happens to it creates an entry.
pub proof fn lemma_shutdown_is_final(db: DbView, steps: Seq<Step>)
    requires
        db.shutdown,
    ensures
        spec_steps(db, steps) == db,
    decreases steps.len(),
{
    if steps.len() > 0 {
        lemma_shutdown_is_final(db, steps.drop_last());
    }
}

/// A set wakes the purge task exactly where its value expires before every
/// entry that was pending: where nothing was pending, or where the value's
/// instant lies strictly before the earliest pending one.
pub proof fn lemma_must_notify(
    db: DbView,
    expire: Option<Duration>,
    now: u64,
    earliest: Option<u64>,
)
    requires
        !db.shutdown,
        is_earliest(db.entries, earliest),
    ensures
        spec_must_notify(db, expire, now) <==> (expiry(expire, now) matches Some(when) && (
        earliest matches Some(t) ==> when < t)),
{
}

} // verus!
