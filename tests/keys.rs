use ttsmate::soundboard::keybinding::KeyCode;
use ttsmate::status::AppState;

#[test]
fn key_labels() {
    assert_eq!(KeyCode::F1.display_name(), "F1");
    assert_eq!(KeyCode::Num0.display_name(), "0");
    assert_eq!(KeyCode::ShiftF12.display_name(), "Shift+F12");
    assert_eq!(KeyCode::CtrlA.display_name(), "Ctrl+A");
}

#[test]
fn offered_keys() {
    let keys = KeyCode::all_keys();
    assert_eq!(keys.len(), 50);
    assert_eq!(keys[0], KeyCode::F1);
    assert_eq!(keys[49], KeyCode::ShiftF8);
}

#[test]
fn key_names_ignore_case() {
    assert_eq!(KeyCode::from_string("f5"), Some(KeyCode::F5));
    assert_eq!(KeyCode::from_string("ctrl+c"), Some(KeyCode::CtrlC));
    assert_eq!(KeyCode::from_string("Esc"), Some(KeyCode::Escape));
    assert_eq!(KeyCode::from_string("escape"), Some(KeyCode::Escape));
    assert_eq!(KeyCode::from_string("7"), Some(KeyCode::Num7));
    assert_eq!(KeyCode::from_string("ctrl+z"), None);
    assert_eq!(KeyCode::from_string(""), None);
}

#[test]
fn status_lines() {
    assert_eq!(AppState::Idle.to_string(), "就绪");
    assert_eq!(AppState::SynthesizingAudio.to_string(), "正在合成语音...");
}

#[test]
fn upper_case_names() {
    assert_eq!(KeyCode::from_upper_name("ALT+B"), Some(KeyCode::AltB));
    assert_eq!(KeyCode::from_upper_name("alt+b"), None);
    assert_eq!(KeyCode::from_upper_name("SPACE"), Some(KeyCode::Space));
}
