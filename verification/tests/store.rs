use dnd::{Kv, Update};
use serde_json::Value;

fn pair(key: &str, value: i64) -> (String, Value) {
    (key.to_string(), Value::from(value))
}

fn sorted(mut entries: Vec<(String, Value)>) -> Vec<(String, Value)> {
    entries.sort_by(|left, right| left.0.cmp(&right.0));
    entries
}

#[test]
fn store_starts_empty_at_version_zero() {
    let kv = Kv::new();
    assert_eq!(kv.counter(), 0);
    assert_eq!(kv.get("x"), None);
    let snapshot = kv.snapshot();
    assert_eq!(snapshot.counter, 0);
    assert!(snapshot.entries.is_empty());
}

#[test]
fn local_write_stores_and_counts() {
    let mut kv = Kv::new();
    assert_eq!(kv.local_write("x".to_string(), Value::from(1)), 1);
    assert_eq!(kv.get("x"), Some(Value::from(1)));
    assert_eq!(kv.get("y"), None);
    assert_eq!(kv.counter(), 1);
}

#[test]
fn local_write_overwrites_and_still_counts() {
    let mut kv = Kv::new();
    assert_eq!(kv.local_write("x".to_string(), Value::from(1)), 1);
    assert_eq!(kv.local_write("x".to_string(), Value::from("two")), 2);
    assert_eq!(kv.get("x"), Some(Value::from("two")));
    assert_eq!(kv.counter(), 2);
    assert_eq!(kv.snapshot().entries, vec![("x".to_string(), Value::from("two"))]);
}

#[test]
fn writes_raise_the_version_one_by_one() {
    let mut kv = Kv::new();
    let first = Update { counter: 40, entries: vec![] };
    assert!(kv.merge_remote(&first));
    let mut seen: Vec<u64> = Vec::new();
    let mut n: i64 = 0;
    while n < 25 {
        seen.push(kv.local_write(format!("key{}", n % 5), Value::from(n)));
        n += 1;
    }
    assert_eq!(kv.counter(), 65);
    let expected: Vec<u64> = (41..=65).collect();
    assert_eq!(seen, expected);
}

#[test]
fn write_at_the_last_version_but_one_reaches_the_maximum() {
    let mut kv = Kv::new();
    assert!(kv.merge_remote(&Update { counter: u64::MAX - 1, entries: vec![] }));
    assert_eq!(kv.local_write("x".to_string(), Value::Null), u64::MAX);
    assert_eq!(kv.counter(), u64::MAX);
}

#[test]
fn snapshot_lists_every_entry_once() {
    let mut kv = Kv::new();
    kv.local_write("b".to_string(), Value::from(2));
    kv.local_write("a".to_string(), Value::from(1));
    kv.local_write("c".to_string(), Value::Bool(true));
    kv.local_write("a".to_string(), Value::from(10));
    let snapshot = kv.snapshot();
    assert_eq!(snapshot.counter, 4);
    assert_eq!(
        sorted(snapshot.entries),
        vec![pair("a", 10), pair("b", 2), ("c".to_string(), Value::Bool(true))]
    );
}

#[test]
fn snapshot_is_a_copy() {
    let mut kv = Kv::new();
    kv.local_write("a".to_string(), Value::from(1));
    let before = kv.snapshot();
    kv.local_write("a".to_string(), Value::from(2));
    assert_eq!(before.entries, vec![pair("a", 1)]);
    assert_eq!(before.counter, 1);
}

#[test]
fn merge_adopts_a_newer_snapshot() {
    let mut kv = Kv::new();
    kv.local_write("x".to_string(), Value::from(1));
    kv.local_write("only-local".to_string(), Value::from(7));
    let remote = Update { counter: 9, entries: vec![pair("x", 5), pair("only-remote", 6)] };
    assert!(kv.merge_remote(&remote));
    assert_eq!(kv.counter(), 9);
    assert_eq!(kv.get("x"), Some(Value::from(5)));
    assert_eq!(kv.get("only-remote"), Some(Value::from(6)));
    assert_eq!(kv.get("only-local"), Some(Value::from(7)));
    assert_eq!(kv.snapshot().entries.len(), 3);
}

#[test]
fn merge_discards_an_older_snapshot() {
    let mut kv = Kv::new();
    assert!(kv.merge_remote(&Update { counter: 5, entries: vec![pair("x", 2)] }));
    let stale = Update { counter: 3, entries: vec![pair("x", 1), pair("y", 1)] };
    assert!(!kv.merge_remote(&stale));
    assert_eq!(kv.get("x"), Some(Value::from(2)));
    assert_eq!(kv.get("y"), None);
    assert_eq!(kv.counter(), 5);
}

#[test]
fn merge_discards_a_snapshot_of_the_same_version() {
    let mut kv = Kv::new();
    assert!(kv.merge_remote(&Update { counter: 5, entries: vec![pair("x", 2)] }));
    assert!(!kv.merge_remote(&Update { counter: 5, entries: vec![pair("x", 3)] }));
    assert_eq!(kv.get("x"), Some(Value::from(2)));
    assert_eq!(kv.counter(), 5);
}

#[test]
fn merge_into_a_fresh_store_at_version_zero_is_discarded() {
    let mut kv = Kv::new();
    assert!(!kv.merge_remote(&Update { counter: 0, entries: vec![pair("x", 3)] }));
    assert_eq!(kv.get("x"), None);
    assert_eq!(kv.counter(), 0);
}

#[test]
fn merge_twice_is_merge_once() {
    let mut once = Kv::new();
    let mut twice = Kv::new();
    once.local_write("keep".to_string(), Value::from(1));
    twice.local_write("keep".to_string(), Value::from(1));
    let remote = Update { counter: 4, entries: vec![pair("x", 5), pair("keep", 2)] };
    assert!(once.merge_remote(&remote));
    assert!(twice.merge_remote(&remote));
    assert!(!twice.merge_remote(&remote));
    assert_eq!(once.counter(), twice.counter());
    assert_eq!(sorted(once.snapshot().entries), sorted(twice.snapshot().entries));
    assert_eq!(twice.counter(), 4);
    assert_eq!(twice.get("keep"), Some(Value::from(2)));
}

#[test]
fn merge_takes_the_last_of_two_pairs_with_one_key() {
    let mut kv = Kv::new();
    let remote = Update { counter: 1, entries: vec![pair("x", 1), pair("y", 2), pair("x", 3)] };
    assert!(kv.merge_remote(&remote));
    assert_eq!(kv.get("x"), Some(Value::from(3)));
    assert_eq!(kv.get("y"), Some(Value::from(2)));
    assert_eq!(kv.snapshot().entries.len(), 2);
}

#[test]
fn merge_never_lowers_the_version() {
    let mut kv = Kv::new();
    let mut last = kv.counter();
    for counter in [3u64, 1, 3, 7, 2, 7, 8, 0] {
        kv.merge_remote(&Update { counter, entries: vec![pair("x", counter as i64)] });
        assert!(kv.counter() >= last);
        assert!(kv.counter() >= counter);
        last = kv.counter();
    }
    assert_eq!(last, 8);
    assert_eq!(kv.get("x"), Some(Value::from(8)));
}

#[test]
fn values_of_any_shape_are_kept_as_they_are() {
    let mut kv = Kv::new();
    let nested = Value::Array(vec![Value::Null, Value::from("text"), Value::from(2)]);
    kv.local_write("nested".to_string(), nested);
    kv.local_write("".to_string(), Value::Bool(false));
    assert_eq!(
        kv.get("nested"),
        Some(Value::Array(vec![Value::Null, Value::from("text"), Value::from(2)]))
    );
    assert_eq!(kv.get(""), Some(Value::Bool(false)));
}
