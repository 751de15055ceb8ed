use std::cell::Cell;

use worksteal::cache::{CacheEntry, ConcurrentCache};
use worksteal::record::format_record;
use worksteal::text::decimal_string;

const SECOND: u64 = 1_000_000_000;
const MILLISECOND: u64 = 1_000_000;

#[test]
fn test_cache_basic_operations() {
    let mut cache = ConcurrentCache::new("test_cache.log".to_string(), 5 * SECOND);

    cache.put("key1".to_string(), "value1".to_string(), 0, 1_700_000_000);

    let value = cache
        .get(&"key1".to_string(), 0, 1_700_000_000, || Ok("recomputed".to_string()))
        .unwrap();
    assert_eq!(value, "value1");
}

#[test]
fn test_cache_expiration() {
    let mut cache = ConcurrentCache::new("test_cache_exp.log".to_string(), 100 * MILLISECOND);

    cache.put("key1".to_string(), "value1".to_string(), 0, 1_700_000_000);

    let value = cache
        .get(&"key1".to_string(), 0, 1_700_000_000, || Ok("recomputed".to_string()))
        .unwrap();
    assert_eq!(value, "value1");

    let later = 150 * MILLISECOND;
    let value = cache
        .get(&"key1".to_string(), later, 1_700_000_000, || Ok("recomputed".to_string()))
        .unwrap();
    assert_eq!(value, "recomputed");
}

#[test]
fn test_concurrent_access() {
    let mut cache = ConcurrentCache::new("test_cache_concurrent.log".to_string(), SECOND);
    let counter = Cell::new(0usize);

    for i in 0..5 {
        let key = format!("key{}", i % 2);
        let value = cache
            .get(&key, 0, 1_700_000_000, || {
                counter.set(counter.get() + 1);
                Ok(format!("computed_value_{}", i))
            })
            .unwrap();
        println!("Thread {} got value: {}", i, value);
    }

    let computations = counter.get();
    assert!(computations <= 2, "Too many computations: {}", computations);
}

#[test]
fn entry_expires_after_its_deadline() {
    let entry = CacheEntry::new(7u64, 10, 5);
    assert_eq!(entry.expires_at, 15);
    assert!(!entry.is_expired(14));
    assert!(!entry.is_expired(15));
    assert!(entry.is_expired(16));
    let forever = CacheEntry::new(7u64, u64::MAX, u64::MAX);
    assert_eq!(forever.expires_at, 2 * (u64::MAX as u128));
    assert!(!forever.is_expired(u64::MAX));
}

#[test]
fn get_never_calls_the_function_while_the_entry_is_good() {
    let mut cache = ConcurrentCache::new("unused.log".to_string(), 10);
    cache.put("k".to_string(), 42u64, 100, 0);
    for now in [100u64, 105, 110] {
        let value = cache.get(&"k".to_string(), now, 0, || panic!("not to be called"));
        assert_eq!(value, Ok(42));
    }
    assert_eq!(cache.size(), 1);
    assert_eq!(cache.take_records().len(), 1);
}

#[test]
fn failed_recomputation_is_passed_on_and_not_cached() {
    let mut cache: ConcurrentCache<u64> = ConcurrentCache::new("unused.log".to_string(), 10);
    let result = cache.get(&"k".to_string(), 0, 0, || Err("no luck".to_string()));
    assert_eq!(result, Err("no luck".to_string()));
    assert_eq!(cache.size(), 0);
    assert!(cache.take_records().is_empty());
    assert_eq!(cache.get(&"k".to_string(), 1, 0, || Ok(3)), Ok(3));
    assert_eq!(cache.get(&"k".to_string(), 2, 0, || Ok(4)), Ok(3));
}

#[test]
fn every_put_makes_one_record() {
    let mut cache = ConcurrentCache::new("store.log".to_string(), 10);
    assert_eq!(cache.backing_store_path(), "store.log");
    assert_eq!(cache.default_ttl(), 10);
    cache.put("k".to_string(), "v".to_string(), 0, 1_700_000_000);
    cache.put("k".to_string(), "v".to_string(), 5, 1_700_000_001);
    assert_eq!(cache.size(), 1);
    // the second put has set the deadline
    assert_eq!(cache.lookup(&"k".to_string(), 15), Some("v".to_string()));
    assert_eq!(cache.lookup(&"k".to_string(), 16), None);
    assert_eq!(
        cache.take_records(),
        vec![
            "1700000000: \"k\" -> \"v\"\n".to_string(),
            "1700000001: \"k\" -> \"v\"\n".to_string(),
        ]
    );
    assert!(cache.take_records().is_empty());

    let mut numbers = ConcurrentCache::new("store.log".to_string(), 10);
    numbers.put("a \"b\"".to_string(), 12u64, 0, 7);
    assert_eq!(numbers.take_records(), vec!["7: \"a \\\"b\\\"\" -> 12\n".to_string()]);
}

#[test]
fn cleanup_removes_exactly_the_expired_entries() {
    let mut cache = ConcurrentCache::new("store.log".to_string(), 10);
    cache.put("a".to_string(), 1u64, 0, 0);
    cache.put("b".to_string(), 2u64, 5, 0);
    cache.put("c".to_string(), 3u64, 20, 0);
    cache.put("d".to_string(), 4u64, 1, 0);
    assert_eq!(cache.size(), 4);
    assert_eq!(cache.cleanup_expired(10), 0);
    let before = cache.size();
    let removed = cache.cleanup_expired(12);
    assert_eq!(removed, 2);
    assert_eq!(cache.size(), before - removed);
    assert_eq!(cache.lookup(&"a".to_string(), 12), None);
    assert_eq!(cache.lookup(&"b".to_string(), 12), Some(2));
    assert_eq!(cache.lookup(&"c".to_string(), 12), Some(3));
    assert_eq!(cache.collect_garbage(16), 1);
    assert_eq!(cache.collect_garbage(31), 0);
    assert_eq!(cache.size(), 0);
}

#[test]
fn records_are_framed_as_lines() {
    assert_eq!(decimal_string(0), "0");
    assert_eq!(decimal_string(9), "9");
    assert_eq!(decimal_string(10), "10");
    assert_eq!(decimal_string(u64::MAX), "18446744073709551615");
    assert_eq!(format_record(1234567890, "key", "value"), "1234567890: key -> value\n");
}

#[test]
fn cache_coalescing() {
    let mut cache = ConcurrentCache::new("coalescing.log".to_string(), 5 * SECOND);
    let counter = Cell::new(0usize);
    let mut values = Vec::new();
    for reader in 0..5u64 {
        let value = cache
            .get(&"k".to_string(), reader * 200 * MILLISECOND, 0, || {
                counter.set(counter.get() + 1);
                Ok(format!("computed by {}", reader))
            })
            .unwrap();
        values.push(value);
    }
    assert_eq!(counter.get(), 1);
    assert!(values.iter().all(|value| value == "computed by 0"));
}
