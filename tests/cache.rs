use rust_cache::cache::{new, new_cache, new_from};
use rust_cache::item::{Expiry, Item, Ttl, NANOS_PER_SEC};
use rust_cache::table::{Cache, Janitor};
use serde_json::Value;

const S: u64 = NANOS_PER_SEC;

fn at(secs: u64) -> u128 {
    (secs as u128) * (S as u128)
}

#[test]
fn test_cache() {
    let mut tc = new(Ttl::UseDefault, 0);

    assert!(tc.get("a").is_none());
    assert!(tc.get("b").is_none());
    assert!(tc.get("c").is_none());

    tc.set("a", Value::from(1), Ttl::UseDefault);
    tc.set("b", Value::from(2), Ttl::UseDefault);
    tc.set("C", Value::from(3), Ttl::UseDefault);

    assert_eq!(tc.get("a").unwrap(), 1);
    assert_eq!(tc.get("b").unwrap(), 2);
    assert_eq!(tc.get("C").unwrap(), 3);
}

#[test]
fn test_type() {
    let mut tc = new(Ttl::UseDefault, 0);
    tc.set("a", Value::from(1), Ttl::UseDefault);
    tc.set("b", Value::from(true), Ttl::UseDefault);
    tc.set("c", Value::from("c-value"), Ttl::UseDefault);

    assert_eq!(tc.get("a").unwrap(), 1);
    assert_eq!(tc.get("b").unwrap(), true);
    assert_eq!(tc.get("c").unwrap(), "c-value");
}

// The same timeline as with a real clock and sleeps of 25 s, 30 s and 20 s,
// with the instants handed to the table directly.
#[test]
fn test_cache_times() {
    let t0 = at(1_000);
    let mut tc = Cache::empty(Ttl::For(50 * S), S);
    tc.set_at("a", Value::from(1), Ttl::UseDefault, t0);
    tc.set_at("b", Value::from(2), Ttl::Never, t0);
    tc.set_at("c", Value::from(3), Ttl::For(20 * S), t0);
    tc.set_at("d", Value::from(4), Ttl::For(70 * S), t0);

    let t1 = t0 + at(25);
    assert!(tc.get_at("c", t1).is_none());
    assert_eq!(tc.get_at("b", t1).unwrap(), 2);

    let t2 = t1 + at(30);
    assert!(tc.get_at("a", t2).is_none());

    assert_eq!(tc.get_at("d", t2).unwrap(), 4);
    let t3 = t2 + at(20);
    assert!(tc.get_at("d", t3).is_none());
}

#[test]
fn test_new_from() {
    let items = vec![
        ("a".to_string(), Item::new(Value::from(1), Expiry::Never)),
        ("b".to_string(), Item::new(Value::from(2), Expiry::Never)),
    ];

    let tc = new_from(Ttl::UseDefault, 0, items);
    assert_eq!(tc.get("a").unwrap(), 1);
    assert_eq!(tc.get("b").unwrap(), 2);
}

#[test]
fn never_set_keys_are_absent() {
    let mut tc = Cache::empty(Ttl::For(10 * S), 0);
    assert!(tc.get_at("x", at(0)).is_none());
    tc.set_at("y", Value::from(1), Ttl::Never, at(0));
    assert!(tc.get_at("x", at(5)).is_none());
    assert!(tc.get_at("x", u128::MAX).is_none());
}

#[test]
fn never_expiring_value_stays() {
    let mut tc = Cache::empty(Ttl::For(S), 0);
    tc.set_at("k", Value::from("v"), Ttl::Never, at(3));
    assert_eq!(tc.get_at("k", at(3)).unwrap(), "v");
    assert_eq!(tc.get_at("k", at(1_000_000_000)).unwrap(), "v");
    assert_eq!(tc.get_at("k", u128::MAX).unwrap(), "v");
}

#[test]
fn finite_ttl_boundary() {
    let mut tc = Cache::empty(Ttl::Never, 0);
    let t0 = at(100);
    tc.set_at("k", Value::from(7), Ttl::For(10), t0);
    assert_eq!(tc.get_at("k", t0).unwrap(), 7);
    assert_eq!(tc.get_at("k", t0 + 9).unwrap(), 7);
    assert!(tc.get_at("k", t0 + 10).is_none());
    assert!(tc.get_at("k", t0 + 11).is_none());
}

#[test]
fn zero_ttl_expires_at_once() {
    let mut tc = Cache::empty(Ttl::Never, 0);
    tc.set_at("k", Value::from(1), Ttl::For(0), at(5));
    assert!(tc.get_at("k", at(5)).is_none());
    assert_eq!(tc.item_count(), 1);
}

#[test]
fn use_default_matches_the_default() {
    let t0 = at(50);
    let mut a = Cache::empty(Ttl::For(30 * S), 0);
    let mut b = Cache::empty(Ttl::For(30 * S), 0);
    a.set_at("k", Value::from(1), Ttl::UseDefault, t0);
    b.set_at("k", Value::from(1), Ttl::For(30 * S), t0);
    for dt in [0u128, at(29), at(30), at(31)] {
        assert_eq!(a.get_at("k", t0 + dt), b.get_at("k", t0 + dt));
    }
    assert!(a.get_at("k", t0 + at(30)).is_none());
}

#[test]
fn use_default_on_a_cache_without_default_never_expires() {
    let mut c = Cache::empty(Ttl::UseDefault, 0);
    assert_eq!(c.default_expiration(), Ttl::Never);
    c.set_at("k", Value::from(1), Ttl::UseDefault, at(1));
    assert_eq!(c.get_at("k", u128::MAX).unwrap(), 1);
}

#[test]
fn sweep_removes_one_expired_entry() {
    let t0 = at(10);
    let mut c = Cache::empty(Ttl::Never, 0);
    c.set_at("a", Value::from(1), Ttl::Never, t0);
    c.set_at("b", Value::from(2), Ttl::For(5 * S), t0);
    c.set_at("c", Value::from(3), Ttl::For(100 * S), t0);
    assert_eq!(c.item_count(), 3);
    c.delete_expired_at(t0 + at(4));
    assert_eq!(c.item_count(), 3);
    c.delete_expired_at(t0 + at(5));
    assert_eq!(c.item_count(), 2);
    assert!(c.get_at("b", t0).is_none());
    assert_eq!(c.get_at("a", t0 + at(5)).unwrap(), 1);
    assert_eq!(c.get_at("c", t0 + at(5)).unwrap(), 3);
}

#[test]
fn sweep_twice_is_sweep_once() {
    let t0 = at(10);
    let mut c = Cache::empty(Ttl::Never, 0);
    c.set_at("a", Value::from(1), Ttl::For(S), t0);
    c.set_at("b", Value::from(2), Ttl::For(2 * S), t0);
    c.set_at("c", Value::from(3), Ttl::Never, t0);
    let now = t0 + at(1);
    c.delete_expired_at(now);
    let first = c.item_count();
    let keys_first: Vec<String> = c.entries().into_iter().map(|(k, _)| k).collect();
    c.delete_expired_at(now);
    let keys_second: Vec<String> = c.entries().into_iter().map(|(k, _)| k).collect();
    assert_eq!(first, 2);
    assert_eq!(c.item_count(), first);
    assert_eq!(keys_first, keys_second);
}

#[test]
fn value_stored_during_a_sweep_survives() {
    let t0 = at(10);
    let mut c = Cache::empty(Ttl::Never, 0);
    c.set_at("k", Value::from(1), Ttl::For(S), t0);
    let now = t0 + at(2);
    let snapshot = c.expired_keys_at(now);
    assert_eq!(snapshot, vec!["k".to_string()]);
    c.set_at("k", Value::from(2), Ttl::For(60 * S), now);
    c.remove_expired(&snapshot, now);
    assert_eq!(c.get_at("k", now).unwrap(), 2);
    assert_eq!(c.item_count(), 1);
}

#[test]
fn scenario_default_never_and_short_ttl() {
    let t0 = at(0);
    let mut c = Cache::empty(Ttl::For(50 * S), S);
    c.set_at("a", Value::from(1), Ttl::UseDefault, t0);
    c.set_at("b", Value::from(2), Ttl::Never, t0);
    c.set_at("c", Value::from(3), Ttl::For(20 * S), t0);
    assert_eq!(c.get_at("a", at(25)).unwrap(), 1);
    assert_eq!(c.get_at("b", at(25)).unwrap(), 2);
    assert!(c.get_at("c", at(25)).is_none());
    assert!(c.get_at("a", at(55)).is_none());
    assert_eq!(c.get_at("b", at(55)).unwrap(), 2);
}

#[test]
fn flush_empties_the_cache() {
    let mut tc = new(Ttl::Never, 0);
    tc.set("a", Value::from(1), Ttl::UseDefault);
    tc.set("b", Value::from(2), Ttl::Never);
    assert_eq!(tc.item_count(), 2);
    tc.flush();
    assert_eq!(tc.item_count(), 0);
    assert!(tc.get("a").is_none());
    assert!(tc.get("b").is_none());
}

#[test]
fn delete_removes_only_its_key() {
    let mut tc = new(Ttl::Never, 0);
    tc.set("a", Value::from(1), Ttl::Never);
    tc.set("b", Value::from(2), Ttl::Never);
    tc.delete("a");
    tc.delete("missing");
    assert!(tc.get("a").is_none());
    assert_eq!(tc.get("b").unwrap(), 2);
    assert_eq!(tc.item_count(), 1);
}

#[test]
fn set_overwrites_value_and_expiration() {
    let mut c = Cache::empty(Ttl::Never, 0);
    c.set_at("k", Value::from(1), Ttl::For(0), at(1));
    assert!(c.get_at("k", at(1)).is_none());
    c.set_at("k", Value::from(2), Ttl::Never, at(1));
    assert_eq!(c.get_at("k", at(1)).unwrap(), 2);
    assert_eq!(c.item_count(), 1);
}

#[test]
fn replace_needs_a_live_value() {
    let mut c = Cache::empty(Ttl::Never, 0);
    c.replace_at("k", Value::from(1), Ttl::Never, at(1));
    assert!(c.get_at("k", at(1)).is_none());
    c.set_at("k", Value::from(1), Ttl::For(S), at(1));
    c.replace_at("k", Value::from(2), Ttl::Never, at(3));
    assert!(c.get_at("k", at(3)).is_none());
    c.set_at("k", Value::from(1), Ttl::For(S), at(4));
    c.replace_at("k", Value::from(3), Ttl::Never, at(4));
    assert_eq!(c.get_at("k", at(100)).unwrap(), 3);

    let mut tc = new(Ttl::Never, 0);
    tc.replace("x", Value::from(1), Ttl::Never);
    assert!(tc.get("x").is_none());
    tc.set_with_default_exp("x", Value::from(1));
    tc.replace("x", Value::from(5), Ttl::Never);
    assert_eq!(tc.get("x").unwrap(), 5);
}

#[test]
fn later_pairs_replace_earlier_ones() {
    let items = vec![
        ("a".to_string(), Item::new(Value::from(1), Expiry::Never)),
        ("a".to_string(), Item::new(Value::from(9), Expiry::Never)),
    ];
    let tc = new_cache(Ttl::Never, 0, items);
    assert_eq!(tc.item_count(), 1);
    assert_eq!(tc.get("a").unwrap(), 9);
    let all = tc.get_items();
    assert_eq!(all.len(), 1);
    assert_eq!(all[0].0, "a");
    assert_eq!(all[0].1.object, 9);
}

#[test]
fn expired_items_count_until_swept() {
    let items = vec![
        ("old".to_string(), Item::new(Value::from(1), Expiry::At(1))),
        ("new".to_string(), Item::new(Value::from(2), Expiry::Never)),
    ];
    let mut tc = new_from(Ttl::Never, 0, items);
    assert!(tc.get("old").is_none());
    assert_eq!(tc.item_count(), 2);
    tc.delete_expired();
    assert_eq!(tc.item_count(), 1);
    assert_eq!(tc.get("new").unwrap(), 2);
}

#[test]
fn item_expiry_against_the_clock() {
    assert!(Item::new(Value::from(1), Expiry::At(0)).is_expired());
    assert!(Item::new(Value::from(1), Expiry::At(1)).is_expired());
    assert!(!Item::new(Value::from(1), Expiry::Never).is_expired());
    assert!(!Item::new(Value::from(1), Expiry::At(u128::MAX)).is_expired());
    let mut tc = new(Ttl::For(3600 * S), 0);
    tc.set_with_default_exp("k", Value::from(1));
    assert_eq!(tc.get("k").unwrap(), 1);
    tc.set("z", Value::from(1), Ttl::For(0));
    assert!(tc.get("z").is_none());
}

#[test]
fn handle_sweep_in_two_phases_spares_a_fresh_value() {
    let items = vec![("k".to_string(), Item::new(Value::from(1), Expiry::At(1)))];
    let mut tc = new_from(Ttl::Never, 0, items);
    let (keys, now) = tc.expired_keys();
    assert_eq!(keys, vec!["k".to_string()]);
    tc.set("k", Value::from(2), Ttl::Never);
    tc.remove_expired(&keys, now);
    assert_eq!(tc.get("k").unwrap(), 2);
    assert_eq!(tc.item_count(), 1);
}

#[test]
fn janitor_runs_only_for_positive_interval() {
    assert!(!Janitor { interval: 0 }.enabled());
    assert!(Janitor { interval: 1 }.enabled());
    let c = Cache::empty(Ttl::Never, 5);
    assert_eq!(c.janitor().interval, 5);
}
