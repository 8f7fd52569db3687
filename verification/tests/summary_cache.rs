use posthaste::summary_cache::{CachedSummary, SummaryCache};

fn summary(id: &str, subject: &str) -> CachedSummary {
    CachedSummary {
        message_id: id.to_string(),
        summary: format!("{{\"id\":\"{id}\",\"subject\":\"{subject}\"}}"),
    }
}

#[test]
fn passthrough_never_retains() {
    let mut cache = SummaryCache::passthrough();
    cache.record(summary("m1", "hello"));
    cache.warm(vec![summary("m2", "x")]);
    assert!(cache.lookup("m1").is_none());
    assert!(cache.lookup("m2").is_none());
}

#[test]
fn retaining_serves_a_point_read_from_cache_after_the_first() {
    let mut cache = SummaryCache::retaining();
    // The first read misses and goes through; what came back is kept.
    assert!(cache.lookup("m1").is_none());
    cache.record(summary("m1", "hello"));
    assert_eq!(cache.lookup("m1").as_deref(), Some("{\"id\":\"m1\",\"subject\":\"hello\"}"));
}

#[test]
fn a_query_warms_the_message_cache() {
    let mut cache = SummaryCache::retaining();
    cache.warm(vec![summary("m1", "a"), summary("m2", "b"), summary("m1", "c")]);
    // Page order: the later entry for a message wins.
    assert_eq!(cache.lookup("m1").as_deref(), Some("{\"id\":\"m1\",\"subject\":\"c\"}"));
    assert_eq!(cache.lookup("m2").as_deref(), Some("{\"id\":\"m2\",\"subject\":\"b\"}"));
}

#[test]
fn a_coherence_frame_evicts_so_the_next_read_refetches() {
    let mut cache = SummaryCache::retaining();
    cache.warm(vec![summary("m1", "a"), summary("m2", "b"), summary("m3", "c")]);
    cache.apply_coherence(&vec!["m1".to_string(), "m3".to_string()]);
    assert!(cache.lookup("m1").is_none());
    assert!(cache.lookup("m2").is_some());
    assert!(cache.lookup("m3").is_none());
    cache.evict("m2");
    assert!(cache.lookup("m2").is_none());
}

#[test]
fn a_reset_drops_everything() {
    let mut cache = SummaryCache::retaining();
    cache.warm(vec![summary("m1", "a"), summary("m2", "b")]);
    cache.evict_all();
    assert!(cache.lookup("m1").is_none());
    cache.record(summary("m1", "z"));
    assert!(cache.lookup("m1").is_some());
}
