//! The settings that the synthesis client consumes.
use vstd::prelude::*;

verus! {

/// Settings of the speech-synthesis client.
#[derive(Debug, Clone)]
pub struct TTSConfig {
    pub server_url: String,
    pub timeout_seconds: u64,
    pub retry_count: u32,
    pub cache_enabled: bool,
    pub default_voice: String,
    pub audio_format: String,
}

impl Default for TTSConfig {
    fn default() -> (r: Self)
        ensures
            r.server_url@ == "http://192.168.11.153:8080"@,
            r.timeout_seconds == 30,
            r.retry_count == 3,
            r.cache_enabled,
            r.default_voice@ == "Default"@,
            r.audio_format@ == "wav"@,
    {
        TTSConfig {
            server_url: "http://192.168.11.153:8080".to_owned(),
            timeout_seconds: 30,
            retry_count: 3,
            cache_enabled: true,
            default_voice: "Default".to_owned(),
            audio_format: "wav".to_owned(),
        }
    }
}

} // verus!
