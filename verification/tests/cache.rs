use remo_broker::cache::BoundedCache;
use remo_broker::clock::{Moment, Span};
use remo_broker::secret::Secret;

fn make(max: usize, default_ttl: Span) -> BoundedCache {
    BoundedCache::new(max, default_ttl)
}

fn at(millis: u64) -> Moment {
    Moment { nanos: 1_000_000_000 + Span::from_millis(millis).nanos }
}

fn put(c: &mut BoundedCache, name: &str, value: &str, ttl: Option<Span>, millis: u64) {
    c.insert(name.to_owned(), Secret::new(value), ttl, at(millis));
}

#[test]
fn miss_on_empty_cache() {
    let mut c = make(4, Span::from_secs(60));
    assert!(c.get("X", at(0)).is_none());
    assert_eq!(c.len(), 0);
}

#[test]
fn hit_returns_value_and_ttl() {
    let mut c = make(4, Span::from_secs(60));
    put(&mut c, "FOO", "bar", None, 0);
    let hit = c.get("FOO", at(1)).unwrap();
    assert_eq!(hit.value.expose(), "bar");
    assert!(hit.ttl_seconds >= 59 && hit.ttl_seconds <= 60);
    assert_eq!(c.get("FOO", at(0)).unwrap().ttl_seconds, 60);
    assert_eq!(c.get("FOO", at(30_500)).unwrap().ttl_seconds, 29);
}

#[test]
fn expired_entry_is_dropped_on_get() {
    let mut c = make(4, Span::from_secs(60));
    put(&mut c, "FOO", "bar", Some(Span::from_secs(0)), 0);
    assert_eq!(c.len(), 1);
    assert!(c.get("FOO", at(0)).is_none(), "ZERO-ttl entry must miss");
    assert_eq!(c.len(), 0, "expired entry must be removed on get");
}

#[test]
fn insert_at_cap_evicts_oldest() {
    let mut c = make(2, Span::from_secs(60));
    put(&mut c, "A", "1", None, 0);
    put(&mut c, "B", "2", None, 2);
    put(&mut c, "C", "3", None, 4);

    // A was oldest → evicted.
    assert!(c.get("A", at(5)).is_none(), "A should have been evicted");
    assert!(c.get("B", at(5)).is_some());
    assert!(c.get("C", at(5)).is_some());
    assert_eq!(c.len(), 2);
}

#[test]
fn reinsert_replaces_in_place_without_evicting_others() {
    let mut c = make(2, Span::from_secs(60));
    put(&mut c, "A", "1", None, 0);
    put(&mut c, "B", "2", None, 0);
    // Re-inserting A while at cap must not evict B.
    put(&mut c, "A", "1-updated", None, 0);
    assert_eq!(c.get("A", at(0)).unwrap().value.expose(), "1-updated");
    assert_eq!(c.get("B", at(0)).unwrap().value.expose(), "2");
}

#[test]
fn clear_drops_all_entries() {
    let mut c = make(4, Span::from_secs(60));
    put(&mut c, "A", "1", None, 0);
    put(&mut c, "B", "2", None, 0);
    c.clear();
    assert!(c.is_empty());
    assert!(c.get("A", at(0)).is_none());
}

#[test]
fn set_config_applies_to_new_inserts_only() {
    let mut c = make(4, Span::from_secs(60));
    put(&mut c, "A", "1", None, 0);
    // A was inserted with the original 60s default.
    let a = c.get("A", at(1)).unwrap();
    assert!(a.ttl_seconds >= 59);

    // Reduce default TTL; existing entries keep their original TTL.
    c.set_config(4, Span::from_secs(10));
    let a = c.get("A", at(2)).unwrap();
    assert!(a.ttl_seconds >= 59, "existing entry must keep original ttl");

    // New insert picks up the new default.
    put(&mut c, "B", "2", None, 3);
    let b = c.get("B", at(3)).unwrap();
    assert!(b.ttl_seconds <= 10);
}

#[test]
fn set_config_smaller_cap_does_not_actively_evict() {
    let mut c = make(4, Span::from_secs(60));
    put(&mut c, "A", "1", None, 0);
    put(&mut c, "B", "2", None, 1);
    put(&mut c, "C", "3", None, 2);
    c.set_config(1, Span::from_secs(60));
    // Existing entries stay; documented behavior.
    assert_eq!(c.len(), 3);

    // One entry is evicted per insert, so the number stays.
    put(&mut c, "D", "4", None, 3);
    assert_eq!(c.len(), 3);
}

#[test]
fn explicit_ttl_overrides_default() {
    let mut c = make(4, Span::from_secs(60));
    put(&mut c, "FOO", "bar", Some(Span::from_secs(5)), 0);
    let hit = c.get("FOO", at(0)).unwrap();
    assert!(hit.ttl_seconds <= 5);
}

#[test]
fn debug_redacts_value() {
    let mut c = make(4, Span::from_secs(60));
    put(&mut c, "FOO", "super-secret", None, 0);
    let dbg = format!("{c:?}");
    assert!(!dbg.contains("super-secret"), "cache Debug leaked secret: {dbg}");
    assert!(dbg.contains("[REDACTED]"));
    let hit = c.get("FOO", at(0)).unwrap();
    assert!(!format!("{hit:?}").contains("super-secret"));
}

#[test]
fn values_are_served_up_to_their_expiry() {
    let mut c = make(4, Span::from_secs(1));
    put(&mut c, "A", "1", None, 0);
    assert_eq!(c.get("A", at(999)).unwrap().ttl_seconds, 0);
    assert!(c.get("A", at(1000)).is_none());
    assert!(c.get("A", at(0)).is_none(), "an expired entry is gone for good");
}

#[test]
fn reinsert_renews_the_age() {
    let mut c = make(2, Span::from_secs(60));
    put(&mut c, "A", "1", None, 0);
    put(&mut c, "B", "2", None, 1);
    put(&mut c, "A", "1", None, 2);
    put(&mut c, "C", "3", None, 3);
    assert!(c.get("B", at(4)).is_none(), "B is the oldest now");
    assert!(c.get("A", at(4)).is_some());
}

#[test]
fn bound_of_none_holds_one() {
    let mut c = make(0, Span::from_secs(60));
    put(&mut c, "A", "1", None, 0);
    assert_eq!(c.len(), 1);
    put(&mut c, "B", "2", None, 1);
    assert_eq!(c.len(), 1);
    assert!(c.get("B", at(1)).is_some());
}

#[test]
fn clock_that_runs_back_keeps_entries_fresh() {
    let mut c = make(2, Span::from_secs(60));
    put(&mut c, "A", "1", None, 5000);
    assert_eq!(c.get("A", at(0)).unwrap().ttl_seconds, 60);
}

#[test]
fn secrets_give_back_their_text() {
    let s = Secret::new("tëxt");
    assert_eq!(s.expose(), "tëxt");
    assert_eq!(s.duplicate().expose(), "tëxt");
    assert_eq!(format!("{s:?}").contains("tëxt"), false);
}
