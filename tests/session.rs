use ttsmate::tts::error::TTSError;
use ttsmate::tts::session::{
    poll_delay_ms, CallArg, ProtocolStep, SessionAction, SessionEvent, SynthesisSession,
};

fn expect_submit(a: &SessionAction, step: ProtocolStep) -> Vec<CallArg> {
    match a {
        SessionAction::Submit { step: s, args } => {
            assert_eq!(*s, step);
            args.clone()
        }
        other => panic!("expected a submit of {:?}, got {:?}", step, other),
    }
}

fn expect_poll(a: &SessionAction, step: ProtocolStep, id: &str) {
    match a {
        SessionAction::Poll { step: s, event_id, delay_ms } => {
            assert_eq!(*s, step);
            assert_eq!(event_id, id);
            assert_eq!(*delay_ms, 0);
        }
        other => panic!("expected a poll of {:?}, got {:?}", step, other),
    }
}

/// Runs a session up to the submit of the generation step.
fn run_to_generation() -> (SynthesisSession, SessionAction) {
    let (mut s, a) = SynthesisSession::start("hi".to_string(), "Timbre1".to_string());
    assert_eq!(
        expect_submit(&a, ProtocolStep::VoiceChange),
        vec![CallArg::Text("Timbre1".to_string())]
    );
    let a = s.advance(SessionEvent::Submitted("e1".to_string()));
    expect_poll(&a, ProtocolStep::VoiceChange, "e1");
    let a = s.advance(SessionEvent::Number(7));
    assert!(expect_submit(&a, ProtocolStep::AudioSeed).is_empty());
    s.advance(SessionEvent::Submitted("e2".to_string()));
    let a = s.advance(SessionEvent::Number(1234));
    assert!(expect_submit(&a, ProtocolStep::TextSeed).is_empty());
    s.advance(SessionEvent::Submitted("e3".to_string()));
    let a = s.advance(SessionEvent::Number(55));
    assert_eq!(
        expect_submit(&a, ProtocolStep::SpeakerEmbedding),
        vec![CallArg::Integer(1234)]
    );
    s.advance(SessionEvent::Submitted("e4".to_string()));
    let a = s.advance(SessionEvent::Text("emb".to_string()));
    assert_eq!(
        expect_submit(&a, ProtocolStep::RefineText),
        vec![
            CallArg::Text("hi".to_string()),
            CallArg::Integer(55),
            CallArg::Flag(true),
            CallArg::Decimal { units: 3, scale: 1 },
            CallArg::Decimal { units: 7, scale: 1 },
            CallArg::Integer(20),
            CallArg::Integer(4),
        ]
    );
    s.advance(SessionEvent::Submitted("e5".to_string()));
    let a = s.advance(SessionEvent::Text("hi [uv_break]".to_string()));
    assert_eq!(
        expect_submit(&a, ProtocolStep::GenerateAudio),
        vec![
            CallArg::Text("hi [uv_break]".to_string()),
            CallArg::Decimal { units: 3, scale: 1 },
            CallArg::Decimal { units: 7, scale: 1 },
            CallArg::Integer(20),
            CallArg::Text("emb".to_string()),
            CallArg::Flag(false),
            CallArg::Integer(1234),
            CallArg::Text(String::new()),
            CallArg::Text(String::new()),
            CallArg::Integer(4),
        ]
    );
    (s, a)
}

#[test]
fn six_steps_end_in_audio() {
    let (mut s, _) = run_to_generation();
    let a = s.advance(SessionEvent::Submitted("e6".to_string()));
    expect_poll(&a, ProtocolStep::GenerateAudio, "e6");
    let a = s.advance(SessionEvent::Audio { sample_rate: Some(24000), frames: vec![vec![1, 2, 3]] });
    match a {
        SessionAction::Done(Ok(audio)) => {
            assert_eq!(audio.sample_rate, 24000);
            assert_eq!(audio.data.len(), 44 + 6);
        }
        other => panic!("expected audio, got {:?}", other),
    }
    assert!(s.is_finished());
}

#[test]
fn server_error_in_generation_ends_session() {
    let (mut s, _) = run_to_generation();
    s.advance(SessionEvent::Submitted("e6".to_string()));
    let a = s.advance(SessionEvent::Failed(TTSError::server_error(502, "bad gateway".to_string())));
    match a {
        SessionAction::Done(Err(e)) => {
            assert_eq!(e, TTSError::ServerError { status_code: 502, message: "bad gateway".to_string() })
        }
        other => panic!("expected the server error, got {:?}", other),
    }
    assert!(s.is_finished());
    assert!(matches!(
        s.advance(SessionEvent::Number(1)),
        SessionAction::Done(Err(TTSError::Unknown(_)))
    ));
}

#[test]
fn empty_audio_is_a_format_error() {
    let (mut s, _) = run_to_generation();
    s.advance(SessionEvent::Submitted("e6".to_string()));
    let a = s.advance(SessionEvent::Audio { sample_rate: Some(24000), frames: vec![] });
    assert!(matches!(a, SessionAction::Done(Err(TTSError::AudioFormatError(_)))));
}

#[test]
fn unexpected_answer_is_a_parse_error() {
    let (mut s, _) = SynthesisSession::start("hi".to_string(), "v".to_string());
    s.advance(SessionEvent::Submitted("e1".to_string()));
    let a = s.advance(SessionEvent::Text("not a number".to_string()));
    assert!(matches!(a, SessionAction::Done(Err(TTSError::ParseError(_)))));
}

#[test]
fn endpoints_of_steps() {
    assert_eq!(ProtocolStep::VoiceChange.endpoint(), "/on_voice_change");
    assert_eq!(ProtocolStep::AudioSeed.endpoint(), "/generate_seed");
    assert_eq!(ProtocolStep::TextSeed.endpoint(), "/generate_seed_1");
    assert_eq!(ProtocolStep::SpeakerEmbedding.endpoint(), "/on_audio_seed_change");
    assert_eq!(ProtocolStep::RefineText.endpoint(), "/refine_text");
    assert_eq!(ProtocolStep::GenerateAudio.endpoint(), "/generate_audio");
}

#[test]
fn pending_job_is_polled_with_growing_delays() {
    let (mut s, _) = SynthesisSession::start("hi".to_string(), "v".to_string());
    s.advance(SessionEvent::Submitted("e1".to_string()));
    let mut delays = Vec::new();
    for _ in 0..7 {
        match s.advance(SessionEvent::Pending) {
            SessionAction::Poll { step, event_id, delay_ms } => {
                assert_eq!(step, ProtocolStep::VoiceChange);
                assert_eq!(event_id, "e1");
                delays.push(delay_ms);
            }
            other => panic!("expected a poll, got {:?}", other),
        }
    }
    assert_eq!(delays, vec![250, 500, 1000, 2000, 4000, 4000, 4000]);
    assert!(matches!(s.advance(SessionEvent::Pending), SessionAction::Done(Err(TTSError::TimeoutError))));
    assert!(s.is_finished());
}

#[test]
fn answer_after_pending_moves_on() {
    let (mut s, _) = SynthesisSession::start("hi".to_string(), "v".to_string());
    s.advance(SessionEvent::Submitted("e1".to_string()));
    s.advance(SessionEvent::Pending);
    let a = s.advance(SessionEvent::Number(3));
    assert!(expect_submit(&a, ProtocolStep::AudioSeed).is_empty());
    s.advance(SessionEvent::Submitted("e2".to_string()));
    match s.advance(SessionEvent::Pending) {
        SessionAction::Poll { delay_ms, .. } => assert_eq!(delay_ms, 250),
        other => panic!("expected a poll, got {:?}", other),
    }
}

#[test]
fn poll_delays() {
    assert_eq!(poll_delay_ms(0), 0);
    assert_eq!(poll_delay_ms(1), 250);
    assert_eq!(poll_delay_ms(3), 1000);
    assert_eq!(poll_delay_ms(20), 4000);
}
