use asnap::hotkeys::{handle_event, Command, DaemonState, InputEvent, Key};

fn state(alt_held: bool, capture_active: bool, recording: bool) -> DaemonState {
    DaemonState { alt_held, capture_active, recording }
}

#[test]
fn alt_tracking() {
    let s = state(false, false, false);
    assert_eq!(handle_event(&s, InputEvent::KeyPress(Key::Alt)), Command::SetAltHeld(true));
    assert_eq!(handle_event(&s, InputEvent::KeyRelease(Key::Alt)), Command::SetAltHeld(false));
}

#[test]
fn scroll_counts_only_during_capture() {
    let ev = InputEvent::Wheel { delta_y: -3 };
    assert_eq!(handle_event(&state(false, true, false), ev), Command::AddScroll(-3));
    assert_eq!(handle_event(&state(true, false, false), ev), Command::Ignore);
}

#[test]
fn screenshot_hotkey() {
    let ev = InputEvent::KeyPress(Key::LeftBracket);
    assert_eq!(handle_event(&state(true, false, false), ev), Command::Screenshot);
    assert_eq!(handle_event(&state(true, true, false), ev), Command::Ignore);
    assert_eq!(handle_event(&state(false, false, false), ev), Command::Ignore);
}

#[test]
fn recording_hotkey_toggles() {
    let ev = InputEvent::KeyPress(Key::RightBracket);
    assert_eq!(handle_event(&state(true, false, false), ev), Command::StartRecording);
    assert_eq!(handle_event(&state(true, false, true), ev), Command::StopRecording);
    assert_eq!(handle_event(&state(false, false, true), ev), Command::Ignore);
}

#[test]
fn ocr_hotkey() {
    let ev = InputEvent::KeyPress(Key::BackSlash);
    assert_eq!(handle_event(&state(true, true, true), ev), Command::Ocr);
    assert_eq!(handle_event(&state(false, false, false), ev), Command::Ignore);
}

#[test]
fn other_events_ignored() {
    let s = state(true, true, true);
    assert_eq!(handle_event(&s, InputEvent::KeyPress(Key::Other)), Command::Ignore);
    assert_eq!(handle_event(&s, InputEvent::KeyRelease(Key::LeftBracket)), Command::Ignore);
    assert_eq!(handle_event(&s, InputEvent::Other), Command::Ignore);
}
