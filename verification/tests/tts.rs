use ellen_rust_backend::tts::{
    after_attempt, lookup_cached, make_cache_key, parse_wav_duration, should_synthesize,
    store_synthesis, tts_endpoint, AttemptOutcome, RetryDecision, Synthesis, SynthesisAction,
    TTSCache, WavDuration, CACHE_MAX_SIZE, CACHE_TTL_MS, SAMPLE_RATE,
};

fn seconds(d: WavDuration) -> f64 {
    d.numerator as f64 / d.denominator as f64
}

// -- cache key --------------------------------------------------------

#[test]
fn test_cache_key_basic() {
    let key1 = make_cache_key("hello world", "lazy");
    let key2 = make_cache_key("hello world", "lazy");
    let key3 = make_cache_key("hello world", "happy");
    let key4 = make_cache_key("different text", "lazy");

    assert_eq!(key1, key2, "same inputs should yield same key");
    assert_ne!(key1, key3, "different expression → different key");
    assert_ne!(key1, key4, "different text → different key");
    assert_eq!(key1.len(), 16, "key must be 16 hex chars");
    assert!(key1.chars().all(|c| c.is_ascii_hexdigit()), "key must be hex only");
}

#[test]
fn test_cache_key_empty() {
    let key = make_cache_key("", "");
    assert_eq!(key.len(), 16);
    assert!(key.chars().all(|c| c.is_ascii_hexdigit()));
}

#[test]
fn test_cache_key_unicode() {
    let key = make_cache_key("おはようございます", "maid");
    assert_eq!(key.len(), 16);
    assert!(key.chars().all(|c| c.is_ascii_hexdigit()));
}

#[test]
fn cache_key_is_sha256_prefix() {
    // sha256("hello world:lazy") starts with 62416239bc0b1bfa.
    assert_eq!(make_cache_key("hello world", "lazy"), "62416239bc0b1bfa");
    assert_eq!(make_cache_key("", ""), "e7ac0786668e0ff0");
    assert!(make_cache_key("A", "b").chars().all(|c| c.is_ascii_digit() || ('a'..='f').contains(&c)));
}

// -- WAV duration ------------------------------------------------------

fn build_wav(num_channels: u16, bits_per_sample: u16, sample_rate: u32, data_payload_len: u32) -> Vec<u8> {
    let byte_rate = sample_rate * num_channels as u32 * bits_per_sample as u32 / 8;
    let block_align = num_channels * bits_per_sample / 8;
    let file_size = 44 + data_payload_len;

    let mut wav = Vec::with_capacity(file_size as usize);
    wav.extend_from_slice(b"RIFF");
    wav.extend_from_slice(&(file_size - 8).to_le_bytes());
    wav.extend_from_slice(b"WAVE");
    wav.extend_from_slice(b"fmt ");
    wav.extend_from_slice(&16_u32.to_le_bytes());
    wav.extend_from_slice(&1_u16.to_le_bytes());
    wav.extend_from_slice(&num_channels.to_le_bytes());
    wav.extend_from_slice(&sample_rate.to_le_bytes());
    wav.extend_from_slice(&byte_rate.to_le_bytes());
    wav.extend_from_slice(&block_align.to_le_bytes());
    wav.extend_from_slice(&bits_per_sample.to_le_bytes());
    wav.extend_from_slice(b"data");
    wav.extend_from_slice(&data_payload_len.to_le_bytes());
    wav.resize(file_size as usize, 0);
    wav
}

#[test]
fn test_parse_wav_duration_mono_16bit_1s() {
    let data_size = 32_000_u32 * 1 * 16 / 8;
    let wav = build_wav(1, 16, 32_000, data_size);
    let duration = seconds(parse_wav_duration(&wav, 32_000));
    assert!((duration - 1.0).abs() < 0.01, "expected ~1.0s, got {}", duration);
}

#[test]
fn test_parse_wav_duration_stereo_16bit_1s() {
    let data_size = 32_000_u32 * 2 * 16 / 8;
    let wav = build_wav(2, 16, 32_000, data_size);
    let duration = seconds(parse_wav_duration(&wav, 32_000));
    assert!((duration - 1.0).abs() < 0.01, "expected ~1.0s for stereo, got {}", duration);
}

#[test]
fn test_parse_wav_duration_short_buffer_fallback() {
    let short = vec![0u8; 10];
    let duration = seconds(parse_wav_duration(&short, 32_000));
    assert_eq!(duration, 0.0);
}

#[test]
fn test_parse_wav_duration_zero_bps_fallback() {
    let mut wav = vec![0u8; 48];
    wav[0..4].copy_from_slice(b"RIFF");
    wav[4..8].copy_from_slice(&40_u32.to_le_bytes());
    wav[8..12].copy_from_slice(b"WAVE");
    wav[12..16].copy_from_slice(b"fmt ");
    wav[16..20].copy_from_slice(&16_u32.to_le_bytes());
    wav[20..22].copy_from_slice(&1_u16.to_le_bytes());
    wav[22..24].copy_from_slice(&1_u16.to_le_bytes());
    wav[24..28].copy_from_slice(&32_000_u32.to_le_bytes());
    wav[28..32].copy_from_slice(&64_000_u32.to_le_bytes());
    wav[32..34].copy_from_slice(&2_u16.to_le_bytes());
    wav[34..36].copy_from_slice(&0_u16.to_le_bytes());
    wav[36..40].copy_from_slice(b"data");
    wav[40..44].copy_from_slice(&64_000_u32.to_le_bytes());

    let duration = seconds(parse_wav_duration(&wav, 32_000));
    assert!((duration - 0.0000625).abs() < 0.000001, "expected fallback ~0.0000625, got {}", duration);
}

#[test]
fn wav_duration_exact_fraction() {
    let wav = build_wav(1, 16, 32_000, 96_000);
    assert_eq!(parse_wav_duration(&wav, 32_000), WavDuration { numerator: 768_000, denominator: 512_000 });
    assert_eq!(parse_wav_duration(&[], 32_000), WavDuration { numerator: 0, denominator: 64_000 });
}

// -- cache behaviour ---------------------------------------------------

#[test]
fn test_cache_lru_eviction() {
    let mut cache = TTSCache::new(3, 60_000);
    let one = WavDuration { numerator: 1, denominator: 1 };

    cache.put("k1".into(), "a1".into(), 32_000, one, 1);
    cache.put("k2".into(), "a2".into(), 32_000, one, 2);
    cache.put("k3".into(), "a3".into(), 32_000, one, 3);

    assert!(cache.get("k1", 4).is_some());

    cache.put("k4".into(), "a4".into(), 32_000, one, 5);

    assert!(cache.get("k1", 6).is_some(), "k1 should survive");
    assert!(cache.get("k2", 6).is_none(), "k2 should be evicted (LRU)");
    assert!(cache.get("k3", 6).is_some(), "k3 should survive");
    assert!(cache.get("k4", 6).is_some(), "k4 should exist");
}

#[test]
fn test_cache_ttl_expiry() {
    let mut cache = TTSCache::new(10, 50);
    let one = WavDuration { numerator: 1, denominator: 1 };

    cache.put("k1".into(), "a1".into(), 32_000, one, 0);
    assert!(cache.get("k1", 0).is_some(), "fresh entry should exist");

    assert!(cache.get("k1", 100).is_none(), "entry should have expired");
}

#[test]
fn test_cache_update_existing() {
    let mut cache = TTSCache::new(2, 60_000);

    cache.put("k1".into(), "audio1".into(), 32_000, WavDuration { numerator: 1, denominator: 1 }, 0);
    cache.put("k1".into(), "audio1_updated".into(), 32_000, WavDuration { numerator: 5, denominator: 2 }, 1);

    let result = cache.get("k1", 2);
    assert!(result.is_some());
    let (audio, _, duration) = result.unwrap();
    assert_eq!(audio, "audio1_updated");
    assert!((seconds(duration) - 2.5).abs() < 0.001);
}

#[test]
fn test_cache_purges_expired_on_put() {
    let mut cache = TTSCache::new(10, 50);
    let one = WavDuration { numerator: 1, denominator: 1 };

    cache.put("old".into(), "audio_old".into(), 32_000, one, 0);
    cache.put("new".into(), "audio_new".into(), 32_000, one, 100);
    assert_eq!(cache.len(), 1);
    assert!(cache.get("old", 100).is_none(), "old should be purged");
    assert!(cache.get("new", 100).is_some(), "new should exist");
}

#[test]
fn cache_entry_at_exactly_ttl_is_still_fresh() {
    let mut cache = TTSCache::new(CACHE_MAX_SIZE, CACHE_TTL_MS);
    let one = WavDuration { numerator: 1, denominator: 1 };
    cache.put("k".into(), "a".into(), 32_000, one, 1_000);
    assert!(cache.get("k", 1_000 + CACHE_TTL_MS).is_some());
    assert!(cache.get("k", 1_001 + CACHE_TTL_MS).is_none());
    assert_eq!(cache.len(), 0);
}

#[test]
fn cache_never_exceeds_capacity() {
    let mut cache = TTSCache::new(2, 1_000_000);
    let one = WavDuration { numerator: 1, denominator: 1 };
    for i in 0..10u64 {
        cache.put(format!("k{i}"), "a".into(), 32_000, one, i);
        assert!(cache.len() <= 2);
    }
    assert!(cache.get("k9", 10).is_some());
    assert!(cache.get("k8", 10).is_some());
    assert!(cache.get("k7", 10).is_none());

    let mut zero = TTSCache::new(0, 1_000_000);
    zero.put("a".into(), "x".into(), 32_000, one, 0);
    zero.put("b".into(), "y".into(), 32_000, one, 1);
    assert_eq!(zero.len(), 1);
    assert_eq!(zero.get("b", 2).map(|r| r.0), Some("y".to_string()));
}

// -- synthesis steps ---------------------------------------------------

#[test]
fn endpoint_url() {
    assert_eq!(tts_endpoint("http://127.0.0.1:9880"), "http://127.0.0.1:9880/tts");
    assert_eq!(tts_endpoint("http://127.0.0.1:9880/"), "http://127.0.0.1:9880/tts");
    assert_eq!(tts_endpoint("http://h//"), "http://h/tts");
    assert_eq!(tts_endpoint(""), "/tts");
}

#[test]
fn blank_text_is_not_synthesized() {
    assert!(!should_synthesize(""));
    assert!(!should_synthesize(" \t\n\u{3000}"));
    assert!(should_synthesize(" はぁ "));
}

#[test]
fn retry_schedule() {
    let failed = AttemptOutcome::Failed("HTTP 500".into());
    assert_eq!(after_attempt(0, &failed), RetryDecision::RetryAfter(1));
    assert_eq!(after_attempt(1, &failed), RetryDecision::RetryAfter(2));
    assert_eq!(after_attempt(2, &failed), RetryDecision::GiveUpAfter(4));
    assert_eq!(after_attempt(1, &AttemptOutcome::Body(Vec::new())), RetryDecision::RetryAfter(2));
    assert_eq!(after_attempt(2, &AttemptOutcome::Body(vec![1])), RetryDecision::Accept);
}

#[test]
fn store_then_lookup() {
    let mut cache = TTSCache::new(CACHE_MAX_SIZE, CACHE_TTL_MS);
    let key = make_cache_key("はぁ…", "lazy");
    assert!(lookup_cached(&mut cache, &key, 0, "はぁ…", "lazy", "idle").is_none());

    let wav = b"RIFF".to_vec();
    let stored = store_synthesis(&mut cache, key.clone(), &wav, 10, "はぁ…", "lazy", "idle");
    assert_eq!(stored.audio_data, "UklGRg==");
    assert_eq!(stored.sample_rate, SAMPLE_RATE);
    assert_eq!(stored.duration, WavDuration { numerator: 0, denominator: 64_000 });
    assert_eq!(stored.motion_id, "idle");

    let hit = lookup_cached(&mut cache, &key, 20, "はぁ…", "lazy", "alert").unwrap();
    assert_eq!(hit.audio_data, "UklGRg==");
    assert_eq!(hit.motion_id, "alert");
    assert_eq!(hit.expression_id, "lazy");
    assert_eq!(hit.text, "はぁ…");
}

// -- one synthesis ----------------------------------------------------

#[test]
fn synthesis_of_blank_text_makes_no_request() {
    let mut cache = TTSCache::new(CACHE_MAX_SIZE, CACHE_TTL_MS);
    let (_s, action) = Synthesis::start(&mut cache, " \u{3000}", "lazy", "idle", 0);
    assert!(matches!(action, SynthesisAction::Finish(None)));
    assert_eq!(cache.len(), 0);
}

#[test]
fn synthesis_waits_one_two_four_seconds_then_fails() {
    let mut cache = TTSCache::new(CACHE_MAX_SIZE, CACHE_TTL_MS);
    let (mut s, action) = Synthesis::start(&mut cache, "はぁ…", "lazy", "idle", 0);
    assert!(matches!(action, SynthesisAction::Request(0)));

    let a = s.on_response(&mut cache, AttemptOutcome::Failed("HTTP 500".into()), 1);
    assert!(matches!(a, SynthesisAction::Wait(1)));
    assert!(matches!(s.on_waited(), SynthesisAction::Request(1)));

    let a = s.on_response(&mut cache, AttemptOutcome::Body(Vec::new()), 2);
    assert!(matches!(a, SynthesisAction::Wait(2)));
    assert!(matches!(s.on_waited(), SynthesisAction::Request(2)));

    let a = s.on_response(&mut cache, AttemptOutcome::Failed("timeout".into()), 3);
    assert!(matches!(a, SynthesisAction::Wait(4)));
    assert!(matches!(s.on_waited(), SynthesisAction::Finish(None)));
    assert_eq!(cache.len(), 0);
}

#[test]
fn synthesis_success_is_cached_and_then_hit_without_request() {
    let mut cache = TTSCache::new(CACHE_MAX_SIZE, CACHE_TTL_MS);
    let (mut s, action) = Synthesis::start(&mut cache, "はぁ…", "lazy", "idle", 0);
    assert!(matches!(action, SynthesisAction::Request(0)));
    let a = s.on_response(&mut cache, AttemptOutcome::Body(b"RIFF".to_vec()), 5);
    match a {
        SynthesisAction::Finish(Some(r)) => {
            assert_eq!(r.audio_data, "UklGRg==");
            assert_eq!(r.sample_rate, SAMPLE_RATE);
            assert_eq!(r.motion_id, "idle");
        }
        _ => panic!("expected a result"),
    }
    assert_eq!(cache.len(), 1);

    let (_s2, again) = Synthesis::start(&mut cache, "はぁ…", "lazy", "alert", 10);
    match again {
        SynthesisAction::Finish(Some(r)) => {
            assert_eq!(r.audio_data, "UklGRg==");
            assert_eq!(r.motion_id, "alert");
        }
        _ => panic!("expected a cache hit"),
    }
}

#[test]
fn synthesis_retry_then_success() {
    let mut cache = TTSCache::new(CACHE_MAX_SIZE, CACHE_TTL_MS);
    let (mut s, _) = Synthesis::start(&mut cache, "もう…", "shy", "shy_fidget", 0);
    assert!(matches!(s.on_response(&mut cache, AttemptOutcome::Failed("x".into()), 0), SynthesisAction::Wait(1)));
    assert!(matches!(s.on_waited(), SynthesisAction::Request(1)));
    assert!(matches!(
        s.on_response(&mut cache, AttemptOutcome::Body(vec![0u8; 4]), 1000),
        SynthesisAction::Finish(Some(_))
    ));
}
