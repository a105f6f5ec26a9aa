use harbor_router::cache::{
    sentinel_urls, settle, CacheBackend, MokaCache, RedisCache, RedisCommand, RedisSetupError, Unreachable,
};
use std::sync::{Arc, Mutex};
use std::time::{Duration, Instant};

#[test]
fn test_moka_cache_set_and_get() {
    let mut cache = MokaCache::build(60_000);

    cache.set("key1".to_string(), "value1".to_string());
    cache.set("key2".to_string(), "value2".to_string());

    assert_eq!(cache.get("key1"), Some("value1".to_string()));
    assert_eq!(cache.get("key2"), Some("value2".to_string()));
}

#[test]
fn test_moka_cache_miss() {
    let cache = MokaCache::build(60_000);
    assert_eq!(cache.get("nonexistent"), None);
}

#[test]
fn test_moka_cache_overwrite() {
    let mut cache = MokaCache::build(60_000);

    cache.set("key".to_string(), "value1".to_string());
    assert_eq!(cache.get("key"), Some("value1".to_string()));

    cache.set("key".to_string(), "value2".to_string());
    assert_eq!(cache.get("key"), Some("value2".to_string()));
}

#[test]
fn test_moka_cache_delete() {
    let mut cache = MokaCache::build(60_000);

    cache.set("key".to_string(), "value".to_string());
    assert_eq!(cache.get("key"), Some("value".to_string()));

    cache.delete("key");
    assert_eq!(cache.get("key"), None);
}

#[test]
fn test_moka_cache_delete_nonexistent() {
    let mut cache = MokaCache::build(60_000);
    cache.delete("nonexistent");
}

#[test]
fn test_moka_cache_clone_shares_data() {
    let cache1 = Arc::new(Mutex::new(MokaCache::build(60_000)));
    let cache2 = cache1.clone();

    cache1
        .lock()
        .unwrap()
        .set("key".to_string(), "value".to_string());

    assert_eq!(
        cache2.lock().unwrap().get("key"),
        Some("value".to_string())
    );
}

#[test]
fn test_moka_cache_expiry() {
    let mut cache = MokaCache::build(50);

    cache.set("key".to_string(), "value".to_string());
    assert_eq!(cache.get("key"), Some("value".to_string()));

    let start = Instant::now();
    while start.elapsed() < Duration::from_millis(100) {}

    assert_eq!(cache.get("key"), None);
}

#[test]
fn deleting_one_key_keeps_the_others() {
    let mut cache = MokaCache::build(60_000);
    cache.set("a".to_string(), "1".to_string());
    cache.set("b".to_string(), "2".to_string());
    cache.delete("a");
    assert_eq!(cache.get("a"), None);
    assert_eq!(cache.get("b"), Some("2".to_string()));
}

#[test]
fn the_last_change_of_a_key_decides() {
    let mut cache = MokaCache::build(60_000);
    cache.set("a".to_string(), "1".to_string());
    for i in 0..5_000 {
        cache.set(format!("other{}", i), "x".to_string());
    }
    cache.delete("a");
    cache.set("a".to_string(), "2".to_string());
    cache.delete("other7");
    cache.delete("never");
    assert_eq!(cache.get("a"), Some("2".to_string()));
    assert_eq!(cache.get("other7"), None);
    assert_eq!(cache.get("never"), None);
    assert!((0..5_000)
        .filter(|i| *i != 7)
        .all(|i| cache.get(&format!("other{}", i)) == Some("x".to_string())));
}

#[test]
fn sentinel_list_is_split_at_commas_and_trimmed() {
    assert_eq!(
        sentinel_urls("sentinel1:26379, sentinel2:26379", false),
        vec!["redis://sentinel1:26379", "redis://sentinel2:26379"]
    );
    assert_eq!(sentinel_urls(" ,a:1,, ", false), vec!["redis://a:1"]);
    assert!(sentinel_urls("", false).is_empty());
    assert!(sentinel_urls(" , \t,", true).is_empty());
}

#[test]
fn tls_has_its_own_scheme() {
    assert_eq!(
        sentinel_urls("sentinel1:26379, sentinel2:26379", true),
        vec!["rediss://sentinel1:26379", "rediss://sentinel2:26379"]
    );
    let cache = RedisCache::from_sentinel("s:1", "m", None, 0, 1_000, "hr".to_string(), true);
    assert_eq!(cache.ok().unwrap().prefixed("a"), "hr:a");
}

fn shared(prefix: &str, ttl_ms: u64) -> RedisCache<MokaCache> {
    RedisCache::from_sentinel(
        "sentinel1:26379,sentinel2:26379",
        "mymaster",
        Some("secret"),
        3,
        ttl_ms,
        prefix.to_string(),
        false,
    )
    .ok()
    .unwrap()
}

#[test]
fn redis_cache_needs_an_endpoint() {
    let r = RedisCache::from_sentinel(" , ", "mymaster", None, 0, 1_000, "hr".to_string(), false);
    let e = r.err().unwrap();
    assert!(matches!(e, RedisSetupError::NoSentinels));
    assert_eq!(
        e.message(),
        Some("REDIS_SENTINELS: no valid host:port pairs")
    );
}

#[test]
fn redis_cache_refuses_an_endpoint_that_is_no_url() {
    let r = RedisCache::from_sentinel("host:notaport", "m", None, 0, 1_000, "hr".to_string(), false);
    let e = r.err().unwrap();
    assert!(matches!(e, RedisSetupError::Client(_)));
    assert_eq!(e.message(), None);
}

#[test]
fn redis_commands_carry_prefix_and_whole_seconds() {
    let cache = shared("hr", 300_999);
    match cache.get_command("nginx:latest") {
        RedisCommand::Get { key } => assert_eq!(key, "hr:nginx:latest"),
        _ => panic!("not a read"),
    }
    match cache.set_command("img:nginx", "dockerhub") {
        RedisCommand::SetEx {
            key,
            value,
            seconds,
        } => {
            assert_eq!(key, "hr:img:nginx");
            assert_eq!(value, "dockerhub");
            assert_eq!(seconds, 300);
        }
        _ => panic!("not a write"),
    }
    match cache.delete_command("x") {
        RedisCommand::Del { key } => assert_eq!(key, "hr:x"),
        _ => panic!("not a removal"),
    }
}

#[test]
fn redis_keeps_an_entry_for_a_second_at_least() {
    match shared("", 10).set_command("k", "v") {
        RedisCommand::SetEx { key, seconds, .. } => {
            assert_eq!(key, "k");
            assert_eq!(seconds, 1);
        }
        _ => panic!("not a write"),
    }
}

#[test]
fn different_keys_stay_different_under_a_prefix() {
    let cache = shared("hr", 1_000);
    assert_eq!(cache.prefixed("a"), "hr:a");
    assert_ne!(cache.prefixed("a"), cache.prefixed("b"));
}

#[test]
fn local_cache_answers_while_redis_is_unreachable() {
    let mut cache = shared("hr", 60_000);
    cache.set("k".to_string(), "v".to_string(), Err(Unreachable));
    assert_eq!(cache.get("k", Err(Unreachable)), Some("v".to_string()));
    assert_eq!(
        cache.get("k", Ok(Some("other".to_string()))),
        Some("other".to_string())
    );
    assert_eq!(cache.get("k", Ok(None)), None);
    cache.delete("k");
    assert_eq!(cache.get("k", Err(Unreachable)), None);
}

#[test]
fn local_cache_is_left_alone_while_redis_answers() {
    let mut cache = shared("hr", 60_000);
    cache.set("k".to_string(), "v".to_string(), Ok(()));
    assert_eq!(cache.get("k", Err(Unreachable)), None);
}

#[test]
fn the_local_answer_counts_only_where_redis_gave_none() {
    let local = || Some("local".to_string());
    assert_eq!(settle(Err(Unreachable), local()), local());
    assert_eq!(settle(Err(Unreachable), None), None);
    assert_eq!(settle(Ok(None), local()), None);
    assert_eq!(
        settle(Ok(Some("shared".to_string())), local()),
        Some("shared".to_string())
    );
}
