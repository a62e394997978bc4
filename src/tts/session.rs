//! The remote synthesis protocol as a state machine.
//!
//! The service only offers submit/poll pairs: a submit starts a job and
//! answers with an event id, and a poll on that id answers with the job's
//! result. One synthesis takes six such pairs, each fed by the ones before.
//! A `SynthesisSession` decides what to send next from what came back; the
//! caller performs each action and hands the outcome back as an event.
use vstd::prelude::*;

use crate::tts::cache::CacheView;
use crate::tts::client::{
    audio_decodable, audio_from_samples, completion_result, effective_rate, flatten, pcm_bytes,
    result_view, AudioData, AudioDataView, AudioFormat,
};
use crate::tts::error::TTSError;
use crate::tts::wav::wav_bytes;

verus! {

/// The six steps of one synthesis, in order.
#[derive(Debug, Clone, Copy, PartialEq, Eq, Structural)]
pub enum ProtocolStep {
    /// Select the voice.
    VoiceChange,
    /// Draw the audio seed.
    AudioSeed,
    /// Draw the text seed.
    TextSeed,
    /// Derive the speaker embedding from the audio seed.
    SpeakerEmbedding,
    /// Refine the input text.
    RefineText,
    /// Generate the audio.
    GenerateAudio,
}

/// The endpoint path of each step.
pub open spec fn endpoint_of(step: ProtocolStep) -> &'static str {
    match step {
        ProtocolStep::VoiceChange => "/on_voice_change",
        ProtocolStep::AudioSeed => "/generate_seed",
        ProtocolStep::TextSeed => "/generate_seed_1",
        ProtocolStep::SpeakerEmbedding => "/on_audio_seed_change",
        ProtocolStep::RefineText => "/refine_text",
        ProtocolStep::GenerateAudio => "/generate_audio",
    }
}

impl ProtocolStep {
    /// The endpoint path of this step.
    pub fn endpoint(&self) -> (r: &'static str)
        ensures
            r == endpoint_of(*self),
    {
        match self {
            ProtocolStep::VoiceChange => "/on_voice_change",
            ProtocolStep::AudioSeed => "/generate_seed",
            ProtocolStep::TextSeed => "/generate_seed_1",
            ProtocolStep::SpeakerEmbedding => "/on_audio_seed_change",
            ProtocolStep::RefineText => "/refine_text",
            ProtocolStep::GenerateAudio => "/generate_audio",
        }
    }
}

/// One argument of a submit. A decimal is `units / 10^scale`.
#[derive(Debug, Clone, PartialEq, Eq)]
pub enum CallArg {
    Text(String),
    Integer(i64),
    Flag(bool),
    Decimal { units: i64, scale: u32 },
}

/// The value of a `CallArg`.
pub enum ArgView {
    Text(Seq<char>),
    Integer(i64),
    Flag(bool),
    Decimal { units: i64, scale: u32 },
}

/// The view of an argument.
pub open spec fn arg_view(a: CallArg) -> ArgView {
    match a {
        CallArg::Text(s) => ArgView::Text(s@),
        CallArg::Integer(i) => ArgView::Integer(i),
        CallArg::Flag(b) => ArgView::Flag(b),
        CallArg::Decimal { units, scale } => ArgView::Decimal { units, scale },
    }
}

/// The views of a list of arguments.
pub open spec fn arg_views(v: Seq<CallArg>) -> Seq<ArgView> {
    v.map_values(|a: CallArg| arg_view(a))
}

/// What the caller is asked to do next.
#[derive(Debug)]
pub enum SessionAction {
    /// Post the arguments to the step's endpoint and report the event id.
    Submit { step: ProtocolStep, args: Vec<CallArg> },
    /// Wait `delay_ms` milliseconds, then fetch the result of the step's job
    /// with this event id.
    Poll { step: ProtocolStep, event_id: String, delay_ms: u64 },
    /// The synthesis is over, with this outcome.
    Done(Result<AudioData, TTSError>),
}

/// What the caller reports back.
#[derive(Debug)]
pub enum SessionEvent {
    /// A submit was accepted under this event id.
    Submitted(String),
    /// A poll answered with a number.
    Number(i64),
    /// A poll answered with a string.
    Text(String),
    /// A poll answered that the job is not done yet.
    Pending,
    /// The final poll answered with a sample rate, where it gave one, and
    /// the 16-bit samples of each frame.
    Audio { sample_rate: Option<u64>, frames: Vec<Vec<i16>> },
    /// The call failed.
    Failed(TTSError),
}

/// The value of a `SessionEvent`.
pub enum EventView {
    Submitted(Seq<char>),
    Number(i64),
    Text(Seq<char>),
    Pending,
    Audio { sample_rate: Option<u64>, frames: Seq<Seq<i16>> },
    Failed(TTSError),
}

impl View for SessionEvent {
    type V = EventView;

    open spec fn view(&self) -> EventView {
        match self {
            SessionEvent::Submitted(s) => EventView::Submitted(s@),
            SessionEvent::Number(n) => EventView::Number(*n),
            SessionEvent::Text(s) => EventView::Text(s@),
            SessionEvent::Pending => EventView::Pending,
            SessionEvent::Audio { sample_rate, frames } => EventView::Audio {
                sample_rate: *sample_rate,
                frames: frames.deep_view(),
            },
            SessionEvent::Failed(e) => EventView::Failed(*e),
        }
    }
}

/// The progress of one synthesis.
pub struct SynthesisSession {
    text: String,
    voice: String,
    step: ProtocolStep,
    event_id: Option<String>,
    polls: u32,
    audio_seed: i64,
    text_seed: i64,
    embedding: String,
    refined: String,
    finished: bool,
}

/// The value of a session: the request, the step it is at, the event id it
/// is polling (none while a submit is due), what earlier steps produced,
/// and whether it is over.
pub struct SessionView {
    pub text: Seq<char>,
    pub voice: Seq<char>,
    pub step: ProtocolStep,
    pub event_id: Option<Seq<char>>,
    pub polls: u32,
    pub audio_seed: i64,
    pub text_seed: i64,
    pub embedding: Seq<char>,
    pub refined: Seq<char>,
    pub finished: bool,
}

impl View for SynthesisSession {
    type V = SessionView;

    closed spec fn view(&self) -> SessionView {
        SessionView {
            text: self.text@,
            voice: self.voice@,
            step: self.step,
            event_id: match self.event_id {
                Some(e) => Some(e@),
                None => None,
            },
            polls: self.polls,
            audio_seed: self.audio_seed,
            text_seed: self.text_seed,
            embedding: self.embedding@,
            refined: self.refined@,
            finished: self.finished,
        }
    }
}

/// The sampling temperature sent with the text and audio steps: 0.3.
pub open spec fn temperature_arg() -> ArgView {
    ArgView::Decimal { units: 3, scale: 1 }
}

/// The nucleus-sampling bound sent with the text and audio steps: 0.7.
pub open spec fn top_p_arg() -> ArgView {
    ArgView::Decimal { units: 7, scale: 1 }
}

/// The arguments of the submit that `s` is at.
pub open spec fn submit_args(s: SessionView) -> Seq<ArgView> {
    match s.step {
        ProtocolStep::VoiceChange => seq![ArgView::Text(s.voice)],
        ProtocolStep::AudioSeed => seq![],
        ProtocolStep::TextSeed => seq![],
        ProtocolStep::SpeakerEmbedding => seq![ArgView::Integer(s.audio_seed)],
        ProtocolStep::RefineText => seq![
            ArgView::Text(s.text),
            ArgView::Integer(s.text_seed),
            ArgView::Flag(true),
            temperature_arg(),
            top_p_arg(),
            ArgView::Integer(20),
            ArgView::Integer(4),
        ],
        ProtocolStep::GenerateAudio => seq![
            ArgView::Text(s.refined),
            temperature_arg(),
            top_p_arg(),
            ArgView::Integer(20),
            ArgView::Text(s.embedding),
            ArgView::Flag(false),
            ArgView::Integer(s.audio_seed),
            ArgView::Text(Seq::empty()),
            ArgView::Text(Seq::empty()),
            ArgView::Integer(4),
        ],
    }
}

/// Whether `a` asks for the submit that `s` is at.
pub open spec fn asks_submit(s: SessionView, a: SessionAction) -> bool {
    match a {
        SessionAction::Submit { step, args } => step == s.step && arg_views(args@) == submit_args(
            s,
        ),
        _ => false,
    }
}

/// Whether `a` asks for the poll of `step` under `event_id` after `delay_ms`.
pub open spec fn asks_poll(
    step: ProtocolStep,
    event_id: Seq<char>,
    delay_ms: u64,
    a: SessionAction,
) -> bool {
    match a {
        SessionAction::Poll { step: s, event_id: id, delay_ms: d } => s == step && id@ == event_id
            && d == delay_ms,
        _ => false,
    }
}

/// Whether `a` ends the session with the error `e`.
pub open spec fn ends_with_error(a: SessionAction, e: TTSError) -> bool {
    match a {
        SessionAction::Done(Err(x)) => x == e,
        _ => false,
    }
}

/// The most polls of one job before the step is given up.
pub const MAX_POLLS: u32 = 8;

/// The wait before the first repeated poll, in milliseconds.
pub const FIRST_RETRY_DELAY_MS: u64 = 250;

/// The longest wait between two polls, in milliseconds.
pub const MAX_POLL_DELAY_MS: u64 = 4000;

/// The wait before poll number `polls + 1` of a job: none before the
/// first, then doubling from `FIRST_RETRY_DELAY_MS` up to `MAX_POLL_DELAY_MS`.
pub open spec fn poll_delay(polls: u32) -> u64
    decreases polls,
{
    if polls == 0 {
        0
    } else if polls == 1 {
        FIRST_RETRY_DELAY_MS
    } else {
        let d = 2 * poll_delay((polls - 1) as u32);
        if d > MAX_POLL_DELAY_MS {
            MAX_POLL_DELAY_MS
        } else {
            d as u64
        }
    }
}

proof fn lemma_poll_delay_bounded(polls: u32)
    ensures
        poll_delay(polls) <= MAX_POLL_DELAY_MS,
    decreases polls,
{
    if polls > 1 {
        lemma_poll_delay_bounded((polls - 1) as u32);
    }
}

/// The wait before poll number `polls + 1` of a job (see `poll_delay`).
pub fn poll_delay_ms(polls: u32) -> (r: u64)
    ensures
        r == poll_delay(polls),
{
    if polls == 0 {
        return 0;
    }
    let mut d: u64 = FIRST_RETRY_DELAY_MS;
    let mut k: u32 = 1;
    while k < polls
        invariant
            1 <= k <= polls,
            d == poll_delay(k),
        decreases polls - k,
    {
        proof {
            lemma_poll_delay_bounded(k);
        }
        d = if 2 * d > MAX_POLL_DELAY_MS {
            MAX_POLL_DELAY_MS
        } else {
            2 * d
        };
        k = k + 1;
    }
    d
}

/// The step after `step`.
pub open spec fn next_step(step: ProtocolStep) -> ProtocolStep {
    match step {
        ProtocolStep::VoiceChange => ProtocolStep::AudioSeed,
        ProtocolStep::AudioSeed => ProtocolStep::TextSeed,
        ProtocolStep::TextSeed => ProtocolStep::SpeakerEmbedding,
        ProtocolStep::SpeakerEmbedding => ProtocolStep::RefineText,
        ProtocolStep::RefineText => ProtocolStep::GenerateAudio,
        ProtocolStep::GenerateAudio => ProtocolStep::GenerateAudio,
    }
}

/// Whether the poll result `ev` is of the kind that `step` answers with.
pub open spec fn answers(step: ProtocolStep, ev: EventView) -> bool {
    match step {
        ProtocolStep::VoiceChange | ProtocolStep::AudioSeed | ProtocolStep::TextSeed => ev is Number,
        ProtocolStep::SpeakerEmbedding | ProtocolStep::RefineText => ev is Text,
        ProtocolStep::GenerateAudio => ev is Audio,
    }
}

/// `s` once the poll of its step has answered `ev`, and before the next submit.
pub open spec fn record(s: SessionView, ev: EventView) -> SessionView {
    let base = SessionView { step: next_step(s.step), event_id: None, polls: 0, ..s };
    match (s.step, ev) {
        (ProtocolStep::AudioSeed, EventView::Number(n)) => SessionView { audio_seed: n, ..base },
        (ProtocolStep::TextSeed, EventView::Number(n)) => SessionView { text_seed: n, ..base },
        (ProtocolStep::SpeakerEmbedding, EventView::Text(t)) => SessionView {
            embedding: t,
            ..base
        },
        (ProtocolStep::RefineText, EventView::Text(t)) => SessionView { refined: t, ..base },
        _ => base,
    }
}

/// What the decoding of a final answer gives: the container where the
/// samples are usable, an `AudioFormatError` otherwise.
pub open spec fn decoded(sample_rate: Option<u64>, frames: Seq<Seq<i16>>, r: Result<
    AudioData,
    TTSError,
>) -> bool {
    let rate = effective_rate(sample_rate);
    if audio_decodable(rate, frames) {
        r is Ok && r->Ok_0@ == (AudioDataView {
            data: wav_bytes(pcm_bytes(flatten(frames)), rate as u32, 1),
            format: AudioFormat::Wav,
            duration_ms: (flatten(frames).len() * 1000 / (rate as nat)) as u64,
            sample_rate: rate as u32,
        })
    } else {
        r matches Err(TTSError::AudioFormatError(_))
    }
}

/// One move of the protocol: from session `s0` on event `ev` to session
/// `s1`, asking for action `a`.
/// - A failure ends the session with that failure, unchanged.
/// - At a submit, an event id starts the poll of the same step, at once.
/// - At a poll, a job that is not done yet is polled again after a delay
///   that doubles from one poll to the next, up to `MAX_POLLS` polls in all;
///   after that the session ends with a `TimeoutError`.
/// - At a poll, a result of the step's kind is recorded and the next step's
///   submit is asked for; the result of the last step is decoded and ends
///   the session.
/// - Any other event ends the session with a `ParseError`, as does any
///   event after the end with an `Unknown` error.
pub open spec fn advance_result(
    s0: SessionView,
    ev: EventView,
    s1: SessionView,
    a: SessionAction,
) -> bool {
    if s0.finished {
        s1 == s0 && a matches SessionAction::Done(Err(TTSError::Unknown(_)))
    } else if ev is Failed {
        s1 == SessionView { finished: true, ..s0 } && ends_with_error(a, ev->Failed_0)
    } else if s0.event_id is None {
        if ev is Submitted {
            s1 == SessionView { event_id: Some(ev->Submitted_0), polls: 1, ..s0 } && asks_poll(
                s0.step,
                ev->Submitted_0,
                0,
                a,
            )
        } else {
            s1 == SessionView { finished: true, ..s0 } && a matches SessionAction::Done(
                Err(TTSError::ParseError(_)),
            )
        }
    } else if ev is Pending {
        if s0.polls < MAX_POLLS {
            s1 == SessionView { polls: (s0.polls + 1) as u32, ..s0 } && asks_poll(
                s0.step,
                s0.event_id->0,
                poll_delay(s0.polls),
                a,
            )
        } else {
            s1 == SessionView { finished: true, ..s0 } && ends_with_error(a, TTSError::TimeoutError)
        }
    } else if !answers(s0.step, ev) {
        s1 == SessionView { finished: true, ..s0 } && a matches SessionAction::Done(
            Err(TTSError::ParseError(_)),
        )
    } else if s0.step == ProtocolStep::GenerateAudio {
        s1 == SessionView { finished: true, ..s0 } && match (ev, a) {
            (EventView::Audio { sample_rate, frames }, SessionAction::Done(r)) => decoded(
                sample_rate,
                frames,
                r,
            ),
            _ => false,
        }
    } else {
        s1 == record(s0, ev) && asks_submit(s1, a)
    }
}

fn temperature() -> (r: CallArg)
    ensures
        arg_view(r) == temperature_arg(),
{
    CallArg::Decimal { units: 3, scale: 1 }
}

fn top_p() -> (r: CallArg)
    ensures
        arg_view(r) == top_p_arg(),
{
    CallArg::Decimal { units: 7, scale: 1 }
}

fn copy_string(s: &String) -> (r: String)
    ensures
        r@ == s@,
{
    s.clone()
}

impl SynthesisSession {
    /// A session for `text` in `voice`, and the first submit.
    pub fn start(text: String, voice: String) -> (r: (SynthesisSession, SessionAction))
        ensures
            r.0@ == (SessionView {
                text: text@,
                voice: voice@,
                step: ProtocolStep::VoiceChange,
                event_id: None,
                polls: 0,
                audio_seed: 0,
                text_seed: 0,
                embedding: Seq::empty(),
                refined: Seq::empty(),
                finished: false,
            }),
            asks_submit(r.0@, r.1),
    {
        let s = SynthesisSession {
            text,
            voice,
            step: ProtocolStep::VoiceChange,
            event_id: None,
            polls: 0,
            audio_seed: 0,
            text_seed: 0,
            embedding: String::new(),
            refined: String::new(),
            finished: false,
        };
        let a = s.submit_action();
        (s, a)
    }

    /// The submit of the step the session is at.
    fn submit_action(&self) -> (a: SessionAction)
        ensures
            asks_submit(self@, a),
    {
        let mut args: Vec<CallArg> = Vec::new();
        match self.step {
            ProtocolStep::VoiceChange => {
                args.push(CallArg::Text(copy_string(&self.voice)));
            },
            ProtocolStep::AudioSeed => {},
            ProtocolStep::TextSeed => {},
            ProtocolStep::SpeakerEmbedding => {
                args.push(CallArg::Integer(self.audio_seed));
            },
            ProtocolStep::RefineText => {
                args.push(CallArg::Text(copy_string(&self.text)));
                args.push(CallArg::Integer(self.text_seed));
                args.push(CallArg::Flag(true));
                args.push(temperature());
                args.push(top_p());
                args.push(CallArg::Integer(20));
                args.push(CallArg::Integer(4));
            },
            ProtocolStep::GenerateAudio => {
                args.push(CallArg::Text(copy_string(&self.refined)));
                args.push(temperature());
                args.push(top_p());
                args.push(CallArg::Integer(20));
                args.push(CallArg::Text(copy_string(&self.embedding)));
                args.push(CallArg::Flag(false));
                args.push(CallArg::Integer(self.audio_seed));
                args.push(CallArg::Text(String::new()));
                args.push(CallArg::Text(String::new()));
                args.push(CallArg::Integer(4));
            },
        }
        assert(arg_views(args@) =~= submit_args(self@));
        SessionAction::Submit { step: self.step, args }
    }

    /// Whether the session is over.
    pub fn is_finished(&self) -> (r: bool)
        ensures
            r == self@.finished,
    {
        self.finished
    }

    /// Takes the outcome of the last action and decides the next one (see
    /// `advance_result`).
    pub fn advance(&mut self, event: SessionEvent) -> (a: SessionAction)
        ensures
            advance_result(old(self)@, event@, final(self)@, a),
    {
        if self.finished {
            return SessionAction::Done(Err(TTSError::Unknown(String::new())));
        }
        match event {
            SessionEvent::Failed(e) => {
                self.finished = true;
                SessionAction::Done(Err(e))
            },
            SessionEvent::Pending => {
                match &self.event_id {
                    None => {
                        self.finished = true;
                        SessionAction::Done(Err(TTSError::ParseError(String::new())))
                    },
                    Some(id) => {
                        if self.polls < MAX_POLLS {
                            let event_id = copy_string(id);
                            let delay_ms = poll_delay_ms(self.polls);
                            self.polls = self.polls + 1;
                            SessionAction::Poll { step: self.step, event_id, delay_ms }
                        } else {
                            self.finished = true;
                            SessionAction::Done(Err(TTSError::TimeoutError))
                        }
                    },
                }
            },
            SessionEvent::Submitted(id) => {
                if self.event_id.is_none() {
                    let event_id = copy_string(&id);
                    self.event_id = Some(id);
                    self.polls = 1;
                    SessionAction::Poll { step: self.step, event_id, delay_ms: 0 }
                } else {
                    self.finished = true;
                    SessionAction::Done(Err(TTSError::ParseError(String::new())))
                }
            },
            SessionEvent::Number(n) => {
                if self.event_id.is_none() {
                    self.finished = true;
                    return SessionAction::Done(Err(TTSError::ParseError(String::new())));
                }
                match self.step {
                    ProtocolStep::VoiceChange => {},
                    ProtocolStep::AudioSeed => {
                        self.audio_seed = n;
                    },
                    ProtocolStep::TextSeed => {
                        self.text_seed = n;
                    },
                    _ => {
                        self.finished = true;
                        return SessionAction::Done(Err(TTSError::ParseError(String::new())));
                    },
                }
                self.move_on()
            },
            SessionEvent::Text(t) => {
                if self.event_id.is_none() {
                    self.finished = true;
                    return SessionAction::Done(Err(TTSError::ParseError(String::new())));
                }
                match self.step {
                    ProtocolStep::SpeakerEmbedding => {
                        self.embedding = t;
                    },
                    ProtocolStep::RefineText => {
                        self.refined = t;
                    },
                    _ => {
                        self.finished = true;
                        return SessionAction::Done(Err(TTSError::ParseError(String::new())));
                    },
                }
                self.move_on()
            },
            SessionEvent::Audio { sample_rate, frames } => {
                if self.event_id.is_none() || self.step != ProtocolStep::GenerateAudio {
                    self.finished = true;
                    return SessionAction::Done(Err(TTSError::ParseError(String::new())));
                }
                self.finished = true;
                SessionAction::Done(audio_from_samples(sample_rate, &frames))
            },
        }
    }

    /// Goes to the next step and asks for its submit.
    fn move_on(&mut self) -> (a: SessionAction)
        requires
            old(self).step != ProtocolStep::GenerateAudio,
        ensures
            final(self)@ == (SessionView {
                step: next_step(old(self)@.step),
                event_id: None,
                polls: 0,
                ..old(self)@
            }),
            asks_submit(final(self)@, a),
    {
        self.step = match self.step {
            ProtocolStep::VoiceChange => ProtocolStep::AudioSeed,
            ProtocolStep::AudioSeed => ProtocolStep::TextSeed,
            ProtocolStep::TextSeed => ProtocolStep::SpeakerEmbedding,
            ProtocolStep::SpeakerEmbedding => ProtocolStep::RefineText,
            _ => ProtocolStep::GenerateAudio,
        };
        self.event_id = None;
        self.polls = 0;
        self.submit_action()
    }
}

/// When the audio generation step fails with an error status, the session
/// ends with exactly that `ServerError`, and finishing the synthesis with
/// it hands it back and leaves the cache as it was: nothing partial is stored.
pub proof fn lemma_generation_failure_not_cached(
    s0: SessionView,
    status_code: u16,
    message: String,
    s1: SessionView,
    outcome: Result<AudioData, TTSError>,
    c0: CacheView,
    c1: CacheView,
    cache_enabled: bool,
    key: Seq<char>,
    r: Result<AudioDataView, TTSError>,
)
    requires
        !s0.finished,
        s0.step == ProtocolStep::GenerateAudio,
        advance_result(
            s0,
            EventView::Failed(TTSError::ServerError { status_code, message }),
            s1,
            SessionAction::Done(outcome),
        ),
        completion_result(c0, c1, cache_enabled, key, result_view(outcome), r),
    ensures
        r == Err::<AudioDataView, TTSError>(TTSError::ServerError { status_code, message }),
        c1 == c0,
        s1.finished,
{
}

} // verus!