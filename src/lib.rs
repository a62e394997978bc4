//! The core of a speech-synthesis client: the remote submit/poll protocol as
//! a state machine, the uncompressed audio container, a bounded cache of
//! results and the request fingerprint that keys it, each with its contract
//! proved.
use vstd::prelude::*;

pub mod audio;
pub mod config;
pub mod platform;
pub mod soundboard;
pub mod status;
pub mod tts;

verus! {

/// Version of the library.
pub const VERSION: &'static str = "1.0.0";

/// Application name.
pub const APP_NAME: &'static str = "TTSmate V1";

/// Application description.
pub const APP_DESCRIPTION: &'static str = "智能语音合成客户端";

} // verus!
