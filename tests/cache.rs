use accounts::cache::{CacheValue, MemoryCache, FIVE_MINUTES};

fn value(data: &str, read_ttl: u64, write_ttl: u64, now: u64) -> CacheValue<String> {
    CacheValue::with_duration(data.to_string(), read_ttl, write_ttl, now)
}

#[test]
fn write_then_access_within_ttl_returns_value() {
    let mut cache = MemoryCache::new();
    cache.write("k".to_string(), value("v", 60, 120, 1000));
    assert_eq!(cache.access(&"k".to_string(), 1000), Some("v".to_string()));
    assert_eq!(cache.access(&"k".to_string(), 1059), Some("v".to_string()));
}

#[test]
fn access_after_read_expiry_is_absent_without_prune() {
    let mut cache = MemoryCache::new();
    cache.write("k".to_string(), value("v", 60, 600, 1000));
    assert_eq!(cache.access(&"k".to_string(), 1060), None);
    assert_eq!(cache.access(&"k".to_string(), 1000), None);
}

#[test]
fn access_slides_read_clock_but_not_write_clock() {
    let mut cache = MemoryCache::new();
    cache.write("k".to_string(), value("v", 60, 150, 1000));
    assert_eq!(cache.access(&"k".to_string(), 1050), Some("v".to_string()));
    assert_eq!(cache.access(&"k".to_string(), 1100), Some("v".to_string()));
    assert_eq!(cache.access(&"k".to_string(), 1149), Some("v".to_string()));
    assert_eq!(cache.access(&"k".to_string(), 1150), None);
}

#[test]
fn write_replaces_value_and_restarts_clocks() {
    let mut cache = MemoryCache::new();
    cache.write("k".to_string(), value("old", 10, 10, 0));
    cache.write("k".to_string(), value("new", 10, 10, 100));
    assert_eq!(cache.access(&"k".to_string(), 105), Some("new".to_string()));
}

#[test]
fn prune_removes_only_expired_entries() {
    let mut cache = MemoryCache::new();
    cache.write("short".to_string(), value("a", 10, 10, 0));
    cache.write("long".to_string(), value("b", 1000, 1000, 0));
    cache.write("fixed".to_string(), value("c", 1000, 20, 0));
    cache.prune(15);
    cache.prune(15);
    cache.prune(19);
    assert_eq!(cache.access(&"short".to_string(), 0), None);
    assert_eq!(cache.access(&"fixed".to_string(), 0), Some("c".to_string()));
    cache.prune(20);
    assert_eq!(cache.access(&"fixed".to_string(), 0), None);
    assert_eq!(cache.access(&"long".to_string(), 20), Some("b".to_string()));
}

#[test]
fn live_entries_survive_many_prunes() {
    let mut cache = MemoryCache::new();
    cache.write("k".to_string(), value("v", 500, 500, 0));
    for t in 0..100u64 {
        cache.prune(t * 4);
    }
    assert_eq!(cache.access(&"k".to_string(), 499), Some("v".to_string()));
}

#[test]
fn delete_is_idempotent() {
    let mut cache = MemoryCache::new();
    cache.write("k".to_string(), value("v", 60, 60, 0));
    cache.delete(&"k".to_string());
    cache.delete(&"k".to_string());
    cache.delete(&"never".to_string());
    assert_eq!(cache.access(&"k".to_string(), 1), None);
}

#[test]
fn take_hands_out_once() {
    let mut cache = MemoryCache::new();
    cache.write("k".to_string(), value("v", 60, 60, 0));
    assert_eq!(cache.take(&"k".to_string(), 30), Some("v".to_string()));
    assert_eq!(cache.take(&"k".to_string(), 31), None);
}

#[test]
fn live_at_checks_both_clocks() {
    let v = value("v", 10, 30, 100);
    assert!(v.live_at(109));
    assert!(!v.live_at(110));
    assert!(v.live_at(50));
    assert_eq!(FIVE_MINUTES, 300);
}
