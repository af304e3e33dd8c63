use bytes::Bytes;
use loja::db::{DbState, PurgeWait};
use loja::time::Duration;

const MS: u64 = 1_000_000;

fn set(db: &mut DbState, key: &str, value: &str, ttl_ms: Option<u64>, now: u64) -> bool {
    db.set(
        key.to_string(),
        Bytes::copy_from_slice(value.as_bytes()),
        ttl_ms.map(Duration::from_millis),
        now,
    )
}

#[test]
fn a_new_store_is_empty() {
    let mut db = DbState::new();
    assert!(!db.is_shutdown());
    assert_eq!(db.get("foo", 0), None);
    assert_eq!(db.next_expiration(), None);
    assert_eq!(db.purge_expired_keys(0), None);
}

#[test]
fn get_returns_what_was_set() {
    let mut db = DbState::new();
    assert!(!set(&mut db, "foo", "bar", None, 0));
    assert_eq!(db.get("foo", 0), Some(Bytes::from("bar")));
    assert_eq!(db.get("foo", u64::MAX), Some(Bytes::from("bar")));
    assert_eq!(db.get("fo", 0), None);
    assert_eq!(db.get("", 0), None);
    assert!(!set(&mut db, "foo", "baz", None, 1));
    assert_eq!(db.get("foo", 1), Some(Bytes::from("baz")));
    assert!(!set(&mut db, "", "empty key", None, 1));
    assert_eq!(db.get("", 1), Some(Bytes::from("empty key")));
}

#[test]
fn get_shares_the_payload_with_the_store() {
    let mut db = DbState::new();
    let value = Bytes::from(vec![1u8, 2, 3]);
    let stored_at = value.as_ptr();
    db.set("k".to_string(), value, None, 0);
    let read = db.get("k", 0).unwrap();
    assert_eq!(read.as_ptr(), stored_at);
}

#[test]
fn a_value_is_gone_once_its_time_has_passed() {
    let mut db = DbState::new();
    set(&mut db, "foo", "bar", Some(50), 1000 * MS);
    assert_eq!(db.get("foo", 1000 * MS), Some(Bytes::from("bar")));
    assert_eq!(db.get("foo", 1049 * MS), Some(Bytes::from("bar")));
    assert_eq!(db.get("foo", 1050 * MS), Some(Bytes::from("bar")));
    assert_eq!(db.get("foo", 1050 * MS + 1), None);
    assert_eq!(db.get("foo", 1100 * MS), None);
    assert_eq!(db.get("foo", u64::MAX), None);
}

#[test]
fn a_value_is_gone_after_its_time_whatever_happens_in_between() {
    let mut db = DbState::new();
    set(&mut db, "foo", "bar", Some(50), 1000 * MS);
    set(&mut db, "other", "x", Some(10), 1001 * MS);
    assert_eq!(db.purge_expired_keys(1020 * MS), Some(1050 * MS));
    set(&mut db, "third", "y", None, 1030 * MS);
    assert_eq!(db.get("foo", 1040 * MS), Some(Bytes::from("bar")));
    assert_eq!(db.get("foo", 1051 * MS), None);
    assert_eq!(db.purge_expired_keys(1060 * MS), None);
    assert_eq!(db.get("foo", 1061 * MS), None);
    assert_eq!(db.get("third", 1061 * MS), Some(Bytes::from("y")));
}

#[test]
fn setting_again_replaces_the_value_and_its_time() {
    let mut db = DbState::new();
    set(&mut db, "foo", "bar", Some(50), 0);
    set(&mut db, "foo", "baz", None, 10 * MS);
    assert_eq!(db.next_expiration(), None);
    assert_eq!(db.get("foo", 1000 * MS), Some(Bytes::from("baz")));
    assert_eq!(db.purge_expired_keys(1000 * MS), None);
    assert_eq!(db.get("foo", 1000 * MS), Some(Bytes::from("baz")));

    set(&mut db, "foo", "qux", Some(5), 1000 * MS);
    assert_eq!(db.next_expiration(), Some(1005 * MS));
    set(&mut db, "foo", "quux", Some(7), 1000 * MS);
    assert_eq!(db.next_expiration(), Some(1007 * MS));
    assert_eq!(db.purge_expired_keys(1006 * MS), Some(1007 * MS));
    assert_eq!(db.get("foo", 1006 * MS), Some(Bytes::from("quux")));
}

#[test]
fn set_tells_when_the_value_is_the_next_to_expire() {
    let mut db = DbState::new();
    // nothing pending: notify
    assert!(set(&mut db, "a", "1", Some(100), 0));
    // later than the earliest: do not
    assert!(!set(&mut db, "b", "2", Some(200), 0));
    // at the same instant as the earliest: do not
    assert!(!set(&mut db, "c", "3", Some(100), 0));
    // strictly earlier: notify
    assert!(set(&mut db, "d", "4", Some(99), 0));
    // without a time to live: never
    assert!(!set(&mut db, "e", "5", None, 0));
    // the key's own earlier expiration still counts as pending
    assert!(!set(&mut db, "d", "4", Some(99), 0));
    assert!(set(&mut db, "d", "4", Some(98), 0));
    assert_eq!(db.next_expiration(), Some(98 * MS));
}

#[test]
fn purge_removes_what_has_expired_and_nothing_else() {
    let mut db = DbState::new();
    set(&mut db, "a", "1", Some(10), 0);
    set(&mut db, "b", "2", Some(20), 0);
    set(&mut db, "c", "3", Some(20), 0);
    set(&mut db, "d", "4", Some(30), 0);
    set(&mut db, "e", "5", None, 0);
    assert_eq!(db.next_expiration(), Some(10 * MS));

    assert_eq!(db.purge_expired_keys(9 * MS), Some(10 * MS));
    assert_eq!(db.get("a", 0), Some(Bytes::from("1")));

    // an entry is purged at its instant, not only after it
    assert_eq!(db.purge_expired_keys(10 * MS), Some(20 * MS));
    assert_eq!(db.get("a", 0), None);
    assert_eq!(db.get("b", 0), Some(Bytes::from("2")));

    assert_eq!(db.purge_expired_keys(25 * MS), Some(30 * MS));
    assert_eq!(db.get("b", 0), None);
    assert_eq!(db.get("c", 0), None);
    assert_eq!(db.get("d", 0), Some(Bytes::from("4")));

    assert_eq!(db.purge_expired_keys(u64::MAX), None);
    assert_eq!(db.get("d", 0), None);
    assert_eq!(db.get("e", u64::MAX), Some(Bytes::from("5")));
    assert_eq!(db.next_expiration(), None);
}

#[test]
fn keys_that_expire_together_are_kept_apart() {
    let mut db = DbState::new();
    for key in ["b", "a", "ab", "", "c", "aa", "\u{e9}"] {
        set(&mut db, key, key, Some(5), 0);
    }
    set(&mut db, "ab", "again", Some(5), 0);
    set(&mut db, "c", "later", Some(6), 0);
    assert_eq!(db.next_expiration(), Some(5 * MS));
    assert_eq!(db.purge_expired_keys(5 * MS), Some(6 * MS));
    for key in ["b", "a", "ab", "", "aa", "\u{e9}"] {
        assert_eq!(db.get(key, 0), None);
    }
    assert_eq!(db.get("c", 0), Some(Bytes::from("later")));
}

#[test]
fn the_purge_task_waits_for_the_next_expiration() {
    let mut db = DbState::new();
    assert_eq!(db.purge_step(0), PurgeWait::Notified);
    set(&mut db, "a", "1", Some(10), 0);
    set(&mut db, "b", "2", Some(20), 0);
    assert_eq!(db.purge_step(5 * MS), PurgeWait::Until(10 * MS));
    assert_eq!(db.purge_step(10 * MS), PurgeWait::Until(20 * MS));
    assert_eq!(db.purge_step(20 * MS), PurgeWait::Notified);
    assert_eq!(db.get("a", 0), None);
    assert_eq!(db.get("b", 0), None);
}

#[test]
fn a_store_that_is_shut_down_takes_nothing_in() {
    let mut db = DbState::new();
    set(&mut db, "a", "1", Some(10), 0);
    db.shutdown();
    assert!(db.is_shutdown());
    assert!(!set(&mut db, "b", "2", Some(1), 0));
    assert!(!set(&mut db, "a", "3", None, 0));
    assert_eq!(db.get("b", 0), None);
    assert_eq!(db.get("a", 0), Some(Bytes::from("1")));
    assert_eq!(db.purge_step(100 * MS), PurgeWait::Exit);
    assert_eq!(db.purge_expired_keys(100 * MS), None);
    assert_eq!(db.get("a", 0), Some(Bytes::from("1")));
    db.shutdown();
    assert!(db.is_shutdown());
}

#[test]
fn times_to_live_are_counted_in_nanoseconds() {
    let mut db = DbState::new();
    db.set("k".to_string(), Bytes::from("v"), Duration::new(1, 500), 7);
    assert_eq!(db.next_expiration(), Some(1_000_000_507));
    db.set("z".to_string(), Bytes::from("v"), Some(Duration::from_secs(0)), 9);
    assert_eq!(db.next_expiration(), Some(9));
    assert_eq!(db.get("z", 9), Some(Bytes::from("v")));
    assert_eq!(db.get("z", 10), None);
    db.set("m".to_string(), Bytes::from("v"), Some(Duration::from_secs(1)), u64::MAX - 1_000_000_000);
    assert_eq!(db.get("m", u64::MAX), Some(Bytes::from("v")));
}
