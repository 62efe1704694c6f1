use hyper_http_connector::time::Duration;
use hyper_http_connector::timed_cache::TimedCache;
use std::sync::Arc;

fn wait(secs: u64) {
    let start = std::time::Instant::now();
    while start.elapsed() < std::time::Duration::from_secs(secs) {
        std::hint::spin_loop();
    }
}

#[test]
fn works_as_expected() {
    let mut cache: TimedCache<Arc<&str>, usize> = TimedCache::new();

    let key = Arc::new("hello");
    assert!(cache.get(&key).is_none());
    cache.set(Arc::clone(&key), 10, Duration::from_secs(1));
    assert_eq!(Some(&10), cache.get(&key));
    wait(2);
    assert!(cache.get(&key).is_none());
}

fn secs(secs: u64) -> Duration {
    Duration::from_secs(secs)
}

#[test]
fn a_value_is_found_until_its_time_has_passed() {
    let mut cache: TimedCache<String, u8> = TimedCache::new();
    let key = String::from("a");
    cache.set_at(key.clone(), 7, secs(10), secs(100));
    assert_eq!(cache.get_at(&key, secs(100)), Some(&7));
    assert_eq!(cache.get_at(&key, Duration { secs: 109, nanos: 999_999_999 }), Some(&7));
    assert_eq!(cache.get_at(&key, secs(110)), None);
    assert_eq!(cache.get_at(&key, secs(111)), None);
}

#[test]
fn overwriting_starts_the_time_anew() {
    let mut cache: TimedCache<String, u8> = TimedCache::new();
    let key = String::from("a");
    cache.set_at(key.clone(), 1, secs(10), secs(0));
    cache.set_at(key.clone(), 2, secs(10), secs(5));
    assert_eq!(cache.get_at(&key, secs(12)), Some(&2));
    cache.set_at(key.clone(), 3, secs(1), secs(6));
    assert_eq!(cache.get_at(&key, secs(8)), None);
}

#[test]
fn keys_are_told_apart_by_their_text() {
    let mut cache: TimedCache<Arc<String>, u8> = TimedCache::new();
    cache.set_at(Arc::new(String::from("a")), 1, secs(10), secs(0));
    cache.set_at(Arc::new(String::from("b")), 2, secs(20), secs(0));
    assert_eq!(cache.get_at(&Arc::new(String::from("a")), secs(1)), Some(&1));
    assert_eq!(cache.get_at(&Arc::new(String::from("b")), secs(15)), Some(&2));
    assert_eq!(cache.get_at(&Arc::new(String::from("a")), secs(15)), None);
    assert_eq!(cache.get_at(&Arc::new(String::from("c")), secs(0)), None);
}

#[test]
fn a_plain_text_can_be_a_key() {
    let mut cache: TimedCache<&'static str, u8> = TimedCache::new();
    cache.set_at("a", 1, secs(10), secs(0));
    assert_eq!(cache.get_at(&"a", secs(9)), Some(&1));
    assert_eq!(cache.get_at(&"b", secs(9)), None);
}

#[test]
fn a_value_without_time_is_never_found() {
    let mut cache: TimedCache<String, u8> = TimedCache::new();
    let key = String::from("a");
    cache.set_at(key.clone(), 1, secs(0), secs(3));
    assert_eq!(cache.get_at(&key, secs(3)), None);
    assert_eq!(cache.get_at(&key, secs(2)), Some(&1));
}

#[test]
fn the_clock_moves_on() {
    let mut cache: TimedCache<String, u8> = TimedCache::new();
    let key = String::from("a");
    wait(1);
    cache.set(key.clone(), 1, secs(3600));
    assert_eq!(cache.get_at(&key, Duration { secs: 3600, nanos: 999_999_999 }), Some(&1));
    assert_eq!(cache.get_at(&key, secs(3700)), None);
}

#[test]
fn the_longest_time_is_kept() {
    let mut cache: TimedCache<String, u8> = TimedCache::new();
    let key = String::from("a");
    cache.set(key.clone(), 1, secs(u64::MAX));
    assert_eq!(cache.get(&key), Some(&1));
    assert_eq!(secs(u64::MAX).as_nanos(), 18_446_744_073_709_551_615_000_000_000);
}
