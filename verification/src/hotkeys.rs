//! The global hotkey dispatcher: what each input event asks of the daemon.
//!
//! Alt + `[` takes a (possibly scrolling) screenshot, Alt + `]` starts or
//! stops a region recording, Alt + `\` recognises text in a region.
use vstd::prelude::*;

verus! {

/// The keys that the daemon tells apart.
#[derive(Debug, Clone, Copy, PartialEq, Eq, Structural)]
pub enum Key {
    Alt,
    LeftBracket,
    RightBracket,
    BackSlash,
    Other,
}

/// A global input event.
#[derive(Debug, Clone, Copy, PartialEq, Eq, Structural)]
pub enum InputEvent {
    KeyPress(Key),
    KeyRelease(Key),
    /// A scroll-wheel step; negative values scroll down.
    Wheel { delta_y: i64 },
    Other,
}

/// The shared flags that the dispatcher reads.
#[derive(Debug, Clone, Copy, PartialEq, Eq, Structural)]
pub struct DaemonState {
    /// The Alt / Option key is held.
    pub alt_held: bool,
    /// A screenshot selection is in progress, so scrolling is recorded.
    pub capture_active: bool,
    /// A screen recording is running.
    pub recording: bool,
}

/// What the daemon does in answer to an event.
#[derive(Debug, Clone, Copy, PartialEq, Eq, Structural)]
pub enum Command {
    /// Record whether Alt is held.
    SetAltHeld(bool),
    /// Add this vertical scroll delta to the running total.
    AddScroll(i64),
    /// Start a screenshot worker.
    Screenshot,
    /// Start a recording worker.
    StartRecording,
    /// Stop the running recording.
    StopRecording,
    /// Start a text recognition worker.
    Ocr,
    /// Nothing to do.
    Ignore,
}

/// The command for `event` in `state`.
pub open spec fn command_for(state: DaemonState, event: InputEvent) -> Command {
    match event {
        InputEvent::KeyPress(Key::Alt) => Command::SetAltHeld(true),
        InputEvent::KeyRelease(Key::Alt) => Command::SetAltHeld(false),
        InputEvent::Wheel { delta_y } => if state.capture_active {
            Command::AddScroll(delta_y)
        } else {
            Command::Ignore
        },
        InputEvent::KeyPress(Key::LeftBracket) => if state.alt_held && !state.capture_active {
            Command::Screenshot
        } else {
            Command::Ignore
        },
        InputEvent::KeyPress(Key::RightBracket) => if !state.alt_held {
            Command::Ignore
        } else if state.recording {
            Command::StopRecording
        } else {
            Command::StartRecording
        },
        InputEvent::KeyPress(Key::BackSlash) => if state.alt_held {
            Command::Ocr
        } else {
            Command::Ignore
        },
        _ => Command::Ignore,
    }
}

/// Decides what to do with one input event.
pub fn handle_event(state: &DaemonState, event: InputEvent) -> (r: Command)
    ensures
        r == command_for(*state, event),
        event == InputEvent::KeyPress(Key::Alt) ==> r == Command::SetAltHeld(true),
        event == InputEvent::KeyRelease(Key::Alt) ==> r == Command::SetAltHeld(false),
        forall|d: i64| event == (InputEvent::Wheel { delta_y: d }) ==> r == if state.capture_active {
            Command::AddScroll(d)
        } else {
            Command::Ignore
        },
        // Alt + [ starts a screenshot whenever Alt is held and none is in
        // progress, whether or not a recording runs.
        event == InputEvent::KeyPress(Key::LeftBracket) ==> r == if state.alt_held && !state.capture_active {
            Command::Screenshot
        } else {
            Command::Ignore
        },
        event == InputEvent::KeyPress(Key::RightBracket) ==> r == if !state.alt_held {
            Command::Ignore
        } else if state.recording {
            Command::StopRecording
        } else {
            Command::StartRecording
        },
        event == InputEvent::KeyPress(Key::BackSlash) ==> r == if state.alt_held {
            Command::Ocr
        } else {
            Command::Ignore
        },
        event == InputEvent::Other || event == InputEvent::KeyPress(Key::Other) ==> r == Command::Ignore,
        // No worker starts or stops unless Alt is held.
        (r is Screenshot || r is StartRecording || r is StopRecording || r is Ocr) ==> state.alt_held,
        // Scrolling counts only while a screenshot selection is in progress.
        r is AddScroll ==> state.capture_active,
        // A second screenshot never starts during one in progress.
        r is Screenshot ==> !state.capture_active,
        // The recording hotkey toggles.
        r is StartRecording ==> !state.recording,
        r is StopRecording ==> state.recording,
{
    match event {
        InputEvent::KeyPress(Key::Alt) => Command::SetAltHeld(true),
        InputEvent::KeyRelease(Key::Alt) => Command::SetAltHeld(false),
        InputEvent::Wheel { delta_y } => {
            if state.capture_active {
                Command::AddScroll(delta_y)
            } else {
                Command::Ignore
            }
        },
        InputEvent::KeyPress(Key::LeftBracket) => {
            if state.alt_held && !state.capture_active {
                Command::Screenshot
            } else {
                Command::Ignore
            }
        },
        InputEvent::KeyPress(Key::RightBracket) => {
            if !state.alt_held {
                Command::Ignore
            } else if state.recording {
                Command::StopRecording
            } else {
                Command::StartRecording
            }
        },
        InputEvent::KeyPress(Key::BackSlash) => {
            if state.alt_held {
                Command::Ocr
            } else {
                Command::Ignore
            }
        },
        _ => Command::Ignore,
    }
}


/// Alt + `[` starts a screenshot whenever Alt is held and no screenshot is in
/// progress, whether or not a recording runs; Alt + `\` always starts text
/// recognition while Alt is held.
pub proof fn lemma_hotkeys_independent_of_recording(state: DaemonState)
    ensures
        state.alt_held && !state.capture_active ==> command_for(state, InputEvent::KeyPress(Key::LeftBracket))
            == Command::Screenshot,
        state.alt_held ==> command_for(state, InputEvent::KeyPress(Key::BackSlash)) == Command::Ocr,
{
}

} // verus!
