use ttsmate::audio::device::{AudioDevice, DeviceType};
use ttsmate::audio::stream::{AudioFormat, StreamStatus};
use ttsmate::config::TTSConfig;

#[test]
fn device_roles_and_description() {
    let d = AudioDevice::new("id".to_string(), "Mic".to_string(), DeviceType::Input, 2, 44100);
    assert!(d.is_input());
    assert!(!d.is_output());
    assert!(d.is_available);
    assert!(!d.is_default);
    assert_eq!(d.device_type_name(), "输入");
    assert_eq!(d.description(), "Mic (输入, 2 通道, 44100 Hz)");
    assert!(d.supports_sample_rate(48000));
    assert!(!d.supports_sample_rate(12345));
    assert!(d.supports_channels(2));
    assert!(!d.supports_channels(3));
    let duplex = AudioDevice::new("x".to_string(), "Card".to_string(), DeviceType::Duplex, 1, 8000);
    assert!(duplex.is_input() && duplex.is_output());
}

#[test]
fn stream_states_and_formats() {
    assert!(StreamStatus::Running.is_active());
    assert!(StreamStatus::Starting.is_active());
    assert!(!StreamStatus::Paused.is_active());
    assert!(StreamStatus::Error.is_error());
    assert_eq!(StreamStatus::Stopped.display_name(), "已停止");
    assert_eq!(AudioFormat::I24.byte_size(), 3);
    assert_eq!(AudioFormat::F32.byte_size(), 4);
    assert!(AudioFormat::F32.is_float());
    assert!(!AudioFormat::I16.is_float());
    assert_eq!(AudioFormat::I16.display_name(), "16位整数");
}

#[test]
fn tts_config_defaults() {
    let c = TTSConfig::default();
    assert_eq!(c.server_url, "http://192.168.11.153:8080");
    assert_eq!(c.timeout_seconds, 30);
    assert!(c.cache_enabled);
    assert_eq!(c.default_voice, "Default");
}
