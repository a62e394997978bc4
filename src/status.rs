//! What the application is busy with, as shown to the user.
use vstd::prelude::*;

verus! {

/// The application's activity.
#[derive(Debug, Clone, Copy, PartialEq, Eq, Structural)]
pub enum AppState {
    Idle,
    GeneratingText,
    SynthesizingAudio,
}

/// The status line shown for each activity.
pub open spec fn state_label(s: AppState) -> Seq<char> {
    match s {
        AppState::Idle => "就绪"@,
        AppState::GeneratingText => "正在生成文本..."@,
        AppState::SynthesizingAudio => "正在合成语音..."@,
    }
}

impl AppState {
    /// The status line for this activity.
    pub fn to_string(&self) -> (r: String)
        ensures
            r@ == state_label(*self),
    {
        match self {
            AppState::Idle => "就绪".to_owned(),
            AppState::GeneratingText => "正在生成文本...".to_owned(),
            AppState::SynthesizingAudio => "正在合成语音...".to_owned(),
        }
    }
}

} // verus!
