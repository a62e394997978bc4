use std::time::Duration;

use ttsmate::tts::cache::TTSCache;
use ttsmate::tts::client::{AudioData, AudioFormat};

fn create_test_audio_data() -> AudioData {
    AudioData {
        data: vec![1, 2, 3, 4, 5],
        format: AudioFormat::Wav,
        duration_ms: 1000,
        sample_rate: 44100,
    }
}

#[test]
fn test_cache_basic_operations() {
    let mut cache = TTSCache::new(2);
    let audio_data = create_test_audio_data();

    cache.insert("key1".to_string(), audio_data.clone());
    assert_eq!(cache.len(), 1);

    let retrieved = cache.get("key1");
    assert!(retrieved.is_some());

    let not_found = cache.get("nonexistent");
    assert!(not_found.is_none());
}

#[test]
fn test_cache_lru_eviction() {
    let mut cache = TTSCache::new(2);
    let audio_data = create_test_audio_data();

    cache.insert("key1".to_string(), audio_data.clone());
    cache.insert("key2".to_string(), audio_data.clone());
    assert_eq!(cache.len(), 2);

    cache.get("key1");

    cache.insert("key3".to_string(), audio_data.clone());
    assert_eq!(cache.len(), 2);
    assert!(cache.get("key1").is_some());
    assert!(cache.get("key2").is_none());
    assert!(cache.get("key3").is_some());
}

#[test]
fn test_cache_clear() {
    let mut cache = TTSCache::new(10);
    let audio_data = create_test_audio_data();

    cache.insert("key1".to_string(), audio_data.clone());
    cache.insert("key2".to_string(), audio_data.clone());
    assert_eq!(cache.len(), 2);

    cache.clear();
    assert_eq!(cache.len(), 0);
    assert!(cache.is_empty());
}

#[test]
fn test_cache_stats() {
    let mut cache = TTSCache::new(10);
    let audio_data = create_test_audio_data();

    cache.insert("key1".to_string(), audio_data.clone());
    cache.get("key1");

    let stats = cache.stats();
    assert_eq!(stats.entries, 1);
    assert_eq!(stats.capacity, 10);
    assert_eq!(stats.total_accesses, 2);
    assert!(stats.hit_rate.hits as f64 / stats.hit_rate.accesses as f64 > 0.0);
}

#[test]
fn eviction_prefers_fewer_reads_at_given_times() {
    let mut cache = TTSCache::new(2);
    cache.insert_at("a".to_string(), create_test_audio_data(), 10);
    cache.insert_at("b".to_string(), create_test_audio_data(), 20);
    assert!(cache.get_at("a", 30).is_some());
    cache.insert_at("c".to_string(), create_test_audio_data(), 40);
    assert_eq!(cache.len(), 2);
    assert!(cache.get_at("b", 50).is_none());
    assert!(cache.get_at("a", 50).is_some());
    assert!(cache.get_at("c", 50).is_some());
}

#[test]
fn eviction_tie_goes_to_older_read() {
    let mut cache = TTSCache::new(2);
    cache.insert_at("a".to_string(), create_test_audio_data(), 10);
    cache.insert_at("b".to_string(), create_test_audio_data(), 20);
    assert!(cache.get_at("b", 30).is_some());
    assert!(cache.get_at("a", 40).is_some());
    cache.insert_at("c".to_string(), create_test_audio_data(), 50);
    assert!(cache.get_at("b", 60).is_none());
    assert!(cache.get_at("a", 60).is_some());
}

#[test]
fn capacity_holds_after_every_insert() {
    let mut cache = TTSCache::new(3);
    for i in 0..20u64 {
        cache.insert_at(format!("k{}", i), create_test_audio_data(), i);
        assert!(cache.len() <= 3);
    }
    assert_eq!(cache.len(), 3);
}

#[test]
fn zero_capacity_keeps_nothing() {
    let mut cache = TTSCache::new(0);
    cache.insert_at("a".to_string(), create_test_audio_data(), 1);
    cache.insert("b".to_string(), create_test_audio_data());
    assert_eq!(cache.len(), 0);
    assert!(cache.get_at("b", 3).is_none());
}

#[test]
fn entry_expires_after_max_age() {
    let mut cache = TTSCache::new(4).with_max_age_ms(1000);
    cache.insert_at("a".to_string(), create_test_audio_data(), 0);
    assert!(cache.get_at("a", 999).is_some());
    assert!(cache.get_at("a", 1000).is_none());
    assert!(cache.is_empty());
}

#[test]
fn default_max_age_is_one_hour() {
    let mut cache = TTSCache::new(4);
    cache.insert_at("a".to_string(), create_test_audio_data(), 0);
    assert!(cache.get_at("a", 3_599_999).is_some());
    assert!(cache.get_at("a", 3_600_000).is_none());
}

#[test]
fn max_age_from_duration() {
    let mut cache = TTSCache::new(4).with_max_age(Duration::from_millis(5));
    cache.insert_at("a".to_string(), create_test_audio_data(), 100);
    assert!(cache.get_at("a", 104).is_some());
    assert!(cache.get_at("a", 105).is_none());
}

#[test]
fn earlier_clock_reading_is_ignored() {
    let mut cache = TTSCache::new(4).with_max_age_ms(10);
    cache.insert_at("a".to_string(), create_test_audio_data(), 100);
    assert!(cache.get_at("a", 5).is_some());
    assert!(cache.get_at("a", 110).is_none());
}

#[test]
fn insert_same_key_replaces_entry() {
    let mut cache = TTSCache::new(4);
    cache.insert_at("a".to_string(), create_test_audio_data(), 0);
    let mut other = create_test_audio_data();
    other.data = vec![9];
    cache.insert_at("a".to_string(), other, 1);
    assert_eq!(cache.len(), 1);
    assert_eq!(cache.get_at("a", 2).unwrap().data, vec![9]);
}

#[test]
fn remove_returns_buffer() {
    let mut cache = TTSCache::new(4);
    cache.insert_at("a".to_string(), create_test_audio_data(), 0);
    assert_eq!(cache.remove("a").unwrap().data, vec![1, 2, 3, 4, 5]);
    assert!(cache.remove("a").is_none());
    assert!(cache.is_empty());
}

#[test]
fn set_capacity_evicts_least_read() {
    let mut cache = TTSCache::new(4);
    cache.insert_at("a".to_string(), create_test_audio_data(), 1);
    cache.insert_at("b".to_string(), create_test_audio_data(), 2);
    cache.insert_at("c".to_string(), create_test_audio_data(), 3);
    assert!(cache.get_at("c", 4).is_some());
    cache.set_capacity(1);
    assert_eq!(cache.capacity(), 1);
    assert_eq!(cache.len(), 1);
    assert!(cache.get_at("c", 5).is_some());
}

#[test]
fn warmup_stops_when_full() {
    let mut cache = TTSCache::new(2);
    let items = vec![
        ("a".to_string(), create_test_audio_data()),
        ("b".to_string(), create_test_audio_data()),
        ("c".to_string(), create_test_audio_data()),
    ];
    cache.warmup(items);
    assert_eq!(cache.len(), 2);
    assert!(cache.remove("c").is_none());
    assert!(cache.remove("a").is_some());
}

#[test]
fn stats_sum_sizes_and_ages() {
    let mut cache = TTSCache::new(4);
    cache.insert_at("a".to_string(), create_test_audio_data(), 0);
    cache.insert_at("b".to_string(), create_test_audio_data(), 10);
    assert!(cache.get_at("a", 20).is_some());
    let stats = cache.stats_at(30);
    assert_eq!(stats.entries, 2);
    assert_eq!(stats.total_accesses, 3);
    assert_eq!(stats.hit_rate.hits, 1);
    assert_eq!(stats.hit_rate.accesses, 3);
    assert_eq!(stats.total_size_bytes, 10);
    assert_eq!(stats.average_age_ms, 25);
}

#[test]
fn hit_rate_of_empty_cache_is_zero() {
    let cache = TTSCache::new(4);
    let rate = cache.hit_rate();
    assert_eq!(rate.hits, 0);
    assert_eq!(rate.accesses, 0);
}

#[test]
fn hot_entries_most_read_first() {
    let mut cache = TTSCache::new(4);
    cache.insert_at("a".to_string(), create_test_audio_data(), 1);
    cache.insert_at("b".to_string(), create_test_audio_data(), 2);
    cache.insert_at("c".to_string(), create_test_audio_data(), 3);
    cache.get_at("b", 4);
    cache.get_at("b", 5);
    cache.get_at("c", 6);
    let hot = cache.get_hot_entries(2);
    assert_eq!(hot, vec![("b".to_string(), 3), ("c".to_string(), 2)]);
    assert_eq!(cache.get_hot_entries(10).len(), 3);
    assert!(cache.get_hot_entries(0).is_empty());
}

#[test]
fn recent_entries_latest_first() {
    let mut cache = TTSCache::new(4);
    cache.insert_at("a".to_string(), create_test_audio_data(), 1);
    cache.insert_at("b".to_string(), create_test_audio_data(), 2);
    cache.get_at("a", 7);
    let recent = cache.get_recent_entries(5);
    assert_eq!(recent, vec![("a".to_string(), 7), ("b".to_string(), 2)]);
}

#[test]
fn max_age_from_whole_seconds() {
    let cache = TTSCache::new(4).with_max_age(Duration::from_secs(2));
    let mut cache = cache;
    cache.insert_at("a".to_string(), create_test_audio_data(), 0);
    assert!(cache.get_at("a", 1999).is_some());
    assert!(cache.get_at("a", 2000).is_none());
}
