use traylingo::cache::{CacheStore, CACHE_TTL_SECS, MAX_TRANSLATION_CACHE};

#[test]
fn test_store_then_lookup_same_key_hits() {
    let mut c = CacheStore::with_default_capacity(true);
    c.store("hello", "こんにちは", "model-a", 100);
    let got = c.lookup("hello", "model-a", 150);
    assert_eq!(got.as_deref(), Some("こんにちは"));
}

#[test]
fn test_lookup_other_model_misses() {
    let mut c = CacheStore::with_default_capacity(true);
    c.store("hello", "こんにちは", "model-a", 100);
    assert!(c.lookup("hello", "model-b", 150).is_none());
}

#[test]
fn test_expired_entry_not_returned_and_purged_on_write() {
    let mut c = CacheStore::with_default_capacity(true);
    c.store("hello", "こんにちは", "model-a", 0);
    // One second short of the boundary: still live.
    assert!(c.lookup("hello", "model-a", CACHE_TTL_SECS - 1).is_some());
    // At the boundary: stale.
    assert!(c.lookup("hello", "model-a", CACHE_TTL_SECS).is_none());
    // The next write purges it.
    c.store("other", "ほか", "model-a", CACHE_TTL_SECS);
    assert_eq!(c.entries.len(), 1);
    assert_eq!(c.get_cache_stats().entry_count, 1);
}

#[test]
fn test_eviction_drops_oldest_first() {
    let mut c = CacheStore::new(true, 2);
    c.store("one", "1", "m", 10);
    c.store("two", "2", "m", 20);
    c.store("three", "3", "m", 30);
    assert_eq!(c.entries.len(), 2);
    assert!(c.lookup("one", "m", 40).is_none());
    assert!(c.lookup("two", "m", 40).is_some());
    assert!(c.lookup("three", "m", 40).is_some());
}

#[test]
fn test_store_at_capacity_with_equal_timestamps_evicts_newcomer() {
    // A full cache whose every entry carries the store's own timestamp
    // evicts the newcomer itself: among equal timestamps the last-
    // positioned minimum goes first.
    let mut c = CacheStore::new(true, 2);
    c.store("one", "1", "m", 10);
    c.store("two", "2", "m", 10);
    c.store("three", "3", "m", 10);
    assert_eq!(c.entries.len(), 2);
    assert!(c.lookup("three", "m", 10).is_none());
    assert!(c.lookup("one", "m", 10).is_some());
    assert!(c.lookup("two", "m", 10).is_some());
}

#[test]
fn test_refresh_updates_in_place_without_duplicate() {
    let mut c = CacheStore::with_default_capacity(true);
    c.store("hello", "first", "m", 10);
    c.store("hello", "second", "m", 20);
    assert_eq!(c.entries.len(), 1);
    assert_eq!(c.entries[0].timestamp, 20);
    assert_eq!(c.lookup("hello", "m", 30).as_deref(), Some("second"));
}

#[test]
fn test_counters_step_once_per_lookup_never_on_store() {
    let mut c = CacheStore::with_default_capacity(true);
    c.store("hello", "x", "m", 10);
    let s = c.get_cache_stats();
    assert_eq!((s.hits, s.misses), (0, 0));
    c.lookup("hello", "m", 20);
    let s = c.get_cache_stats();
    assert_eq!((s.hits, s.misses), (1, 0));
    c.lookup("absent", "m", 20);
    let s = c.get_cache_stats();
    assert_eq!((s.hits, s.misses), (1, 1));
    c.store("more", "y", "m", 30);
    let s = c.get_cache_stats();
    assert_eq!((s.hits, s.misses), (1, 1));
}

#[test]
fn test_disabled_cache_answers_nothing_and_counts_nothing() {
    let mut c = CacheStore::with_default_capacity(false);
    c.store("hello", "x", "m", 10);
    assert_eq!(c.entries.len(), 0);
    assert!(c.lookup("hello", "m", 20).is_none());
    let s = c.get_cache_stats();
    assert_eq!((s.hits, s.misses), (0, 0));
}

#[test]
fn test_entry_key_is_sha256_of_source() {
    let mut c = CacheStore::with_default_capacity(true);
    c.store("abc", "x", "m", 10);
    assert_eq!(
        c.entries[0].source_hash,
        "ba7816bf8f01cfea414140de5dae2223b00361a396177a9cb410ff61f20015ad"
    );
}

#[test]
fn test_entry_preview_is_truncated_and_masked() {
    let mut c = CacheStore::with_default_capacity(true);
    let long = format!("write to user@example.com {}", "x".repeat(50));
    c.store(&long, "t", "m", 10);
    let preview = &c.entries[0].source_preview;
    assert!(preview.contains("[EMAIL]"));
    assert!(preview.chars().count() <= 30);
}

#[test]
fn test_clear_empties_entries_and_stats() {
    let mut c = CacheStore::with_default_capacity(true);
    c.store("hello", "x", "m", 10);
    c.lookup("hello", "m", 20);
    c.clear();
    assert_eq!(c.entries.len(), 0);
    let s = c.get_cache_stats();
    assert_eq!((s.entry_count, s.hits, s.misses), (0, 0, 0));
}

#[test]
fn test_try_from_parts_validates() {
    let mut c = CacheStore::with_default_capacity(true);
    c.store("hello", "x", "m", 10);
    c.store("other", "y", "m", 20);
    let entries = std::mem::take(&mut c.entries);
    let restored = CacheStore::try_from_parts(entries, 3, 4, true, MAX_TRANSLATION_CACHE);
    let restored = restored.unwrap();
    assert_eq!(restored.entries.len(), 2);
    let s = restored.get_cache_stats();
    assert_eq!((s.entry_count, s.hits, s.misses), (2, 3, 4));

    // A duplicated key is refused.
    let mut d = CacheStore::with_default_capacity(true);
    d.store("hello", "x", "m", 10);
    let mut dup = Vec::new();
    for e in d.entries.iter() {
        dup.push(traylingo::cache::CachedTranslation {
            source_hash: e.source_hash.clone(),
            source_preview: e.source_preview.clone(),
            translated_text: e.translated_text.clone(),
            model: e.model.clone(),
            timestamp: e.timestamp,
        });
    }
    for e in d.entries.iter() {
        dup.push(traylingo::cache::CachedTranslation {
            source_hash: e.source_hash.clone(),
            source_preview: e.source_preview.clone(),
            translated_text: e.translated_text.clone(),
            model: e.model.clone(),
            timestamp: e.timestamp,
        });
    }
    assert!(CacheStore::try_from_parts(dup, 0, 0, true, 10).is_none());
}
