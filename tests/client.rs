use ttsmate::tts::cache::TTSCache;
use ttsmate::tts::client::{
    answer_status, audio_from_samples, complete_synthesis, generate_cache_key, is_success_status,
    lookup_cached, select_voice, AudioData, AudioFormat, SynthesizeOptions,
};
use ttsmate::tts::error::{ErrorSeverity, TTSError};
use ttsmate::tts::wav::decode_wav;
use ttsmate::{APP_DESCRIPTION, APP_NAME, VERSION};

fn options(voice: Option<&str>, speed: Option<f32>) -> Option<SynthesizeOptions> {
    Some(SynthesizeOptions {
        voice: voice.map(|v| v.to_string()),
        speed_bits: speed.map(|s| s.to_bits()),
        pitch_bits: None,
        volume_bits: None,
        format: None,
    })
}

#[test]
fn fingerprint_is_stable_for_equal_requests() {
    let a = generate_cache_key("hello", &options(Some("Timbre1"), Some(1.0)));
    let b = generate_cache_key("hello", &options(Some("Timbre1"), Some(1.0)));
    assert_eq!(a, b);
    assert!(a.starts_with("tts_"));
}

#[test]
fn fingerprint_differs_per_field() {
    let base = generate_cache_key("hello", &options(Some("Timbre1"), Some(1.0)));
    assert_ne!(base, generate_cache_key("hello!", &options(Some("Timbre1"), Some(1.0))));
    assert_ne!(base, generate_cache_key("hello", &options(Some("Timbre2"), Some(1.0))));
    assert_ne!(base, generate_cache_key("hello", &options(Some("Timbre1"), Some(1.5))));
    assert_ne!(base, generate_cache_key("hello", &options(None, Some(1.0))));
    let mut pitched = options(Some("Timbre1"), Some(1.0));
    pitched.as_mut().unwrap().pitch_bits = Some(2.0f32.to_bits());
    assert_ne!(base, generate_cache_key("hello", &pitched));
    let mut louder = options(Some("Timbre1"), Some(1.0));
    louder.as_mut().unwrap().volume_bits = Some(0.5f32.to_bits());
    assert_ne!(base, generate_cache_key("hello", &louder));
}

#[test]
fn fingerprint_of_absent_options() {
    let none = generate_cache_key("ab", &None);
    assert_eq!(none, generate_cache_key("ab", &options(None, None)));
    assert_eq!(none, "tts_0200000000000000616200000000");
}

#[test]
fn voice_defaults_when_absent() {
    assert_eq!(select_voice(&None, "Default"), "Default");
    assert_eq!(select_voice(&options(None, None), "Default"), "Default");
    assert_eq!(select_voice(&options(Some("Timbre3"), None), "Default"), "Timbre3");
}

#[test]
fn samples_become_a_container() {
    let frames = vec![vec![1i16, -1], vec![256]];
    let audio = audio_from_samples(Some(8000), &frames).unwrap();
    assert_eq!(audio.format, AudioFormat::Wav);
    assert_eq!(audio.sample_rate, 8000);
    let back = decode_wav(&audio.data).unwrap();
    assert_eq!(back.pcm, vec![1, 0, 0xff, 0xff, 0, 1]);
    assert_eq!(back.channels, 1);
    assert_eq!(audio.duration_ms, 0);
}

#[test]
fn duration_follows_sample_count() {
    let frames = vec![vec![0i16; 12000]];
    let audio = audio_from_samples(None, &frames).unwrap();
    assert_eq!(audio.sample_rate, 24000);
    assert_eq!(audio.duration_ms, 500);
}

#[test]
fn no_samples_is_an_audio_format_error() {
    let frames: Vec<Vec<i16>> = vec![vec![], vec![]];
    assert!(matches!(
        audio_from_samples(Some(24000), &frames),
        Err(TTSError::AudioFormatError(_))
    ));
    assert!(matches!(
        audio_from_samples(Some(0), &vec![vec![1i16]]),
        Err(TTSError::AudioFormatError(_))
    ));
}

fn sample_audio() -> AudioData {
    AudioData { data: vec![7, 7], format: AudioFormat::Wav, duration_ms: 1, sample_rate: 8000 }
}

#[test]
fn failure_leaves_cache_untouched() {
    let mut cache = TTSCache::new(4);
    let r = complete_synthesis(
        &mut cache,
        true,
        "k".to_string(),
        Err(TTSError::server_error(500, "boom".to_string())),
    );
    assert_eq!(r.unwrap_err(), TTSError::ServerError { status_code: 500, message: "boom".to_string() });
    assert!(cache.is_empty());
}

#[test]
fn success_is_cached_when_enabled() {
    let mut cache = TTSCache::new(4);
    let r = complete_synthesis(&mut cache, true, "k".to_string(), Ok(sample_audio()));
    assert_eq!(r.unwrap().data, vec![7, 7]);
    assert_eq!(lookup_cached(&mut cache, true, "k").unwrap().data, vec![7, 7]);
    assert!(lookup_cached(&mut cache, false, "k").is_none());

    let mut off = TTSCache::new(4);
    let r = complete_synthesis(&mut off, false, "k".to_string(), Ok(sample_audio()));
    assert!(r.is_ok());
    assert!(off.is_empty());
}

#[test]
fn error_classification() {
    assert!(TTSError::server_error(503, String::new()).is_retryable());
    assert!(!TTSError::server_error(404, String::new()).is_retryable());
    assert!(TTSError::TimeoutError.is_retryable());
    assert!(TTSError::NetworkError(String::new()).is_network_error());
    assert!(!TTSError::parse("x".to_string()).is_retryable());
    assert!(TTSError::server_error(404, String::new()).is_server_error());
    assert_eq!(TTSError::server_error(500, String::new()).severity(), ErrorSeverity::High);
    assert_eq!(TTSError::server_error(400, String::new()).severity(), ErrorSeverity::Medium);
    assert_eq!(TTSError::cache("c".to_string()).severity(), ErrorSeverity::Low);
    assert_eq!(TTSError::audio_format("a".to_string()).severity(), ErrorSeverity::High);
    assert_eq!(ErrorSeverity::Critical.as_str(), "严重");
    assert_eq!(ErrorSeverity::Low.as_str(), "低");
}

#[test]
fn test_version_info() {
    assert_eq!(VERSION, "1.0.0");
    assert_eq!(APP_NAME, "TTSmate V1");
    assert_eq!(APP_DESCRIPTION, "智能语音合成客户端");
}

#[test]
fn offered_voices() {
    let voices = ttsmate::tts::client::get_voices();
    assert_eq!(voices.len(), 10);
    assert_eq!(voices[0], "Default");
    assert_eq!(voices[9], "Timbre9");
}

#[test]
fn status_codes() {
    assert!(is_success_status(200));
    assert!(is_success_status(202));
    assert!(!is_success_status(199));
    assert!(!is_success_status(300));
    assert!(answer_status(204, String::new()).is_ok());
    assert_eq!(
        answer_status(503, "busy".to_string()),
        Err(TTSError::ServerError { status_code: 503, message: "busy".to_string() })
    );
}
