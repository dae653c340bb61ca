use asnap::session::{
    CaptureOutcome, ScrollSession, SessionAction, MAX_FRAMES, POLL_MS, SCROLL_FRAME_MS,
};

const MS: u64 = 1_000_000;

#[test]
fn static_screenshot_ends_after_wait() {
    let mut s = ScrollSession::new();
    assert_eq!(s.on_poll(0, 0), SessionAction::Poll { after_ms: POLL_MS });
    assert_eq!(s.on_poll(0, 700 * MS), SessionAction::Poll { after_ms: POLL_MS });
    assert_eq!(s.on_poll(0, 700 * MS + 1), SessionAction::Finish { settle_ms: 0 });
    assert_eq!(s.frames, 1);
    assert!(!s.scrolling);
}

#[test]
fn scrolling_captures_frames() {
    let mut s = ScrollSession::new();
    assert_eq!(
        s.on_poll(-120, 100 * MS),
        SessionAction::Capture { settle_ms: SCROLL_FRAME_MS, index: 1 }
    );
    assert!(s.scrolling);
    assert_eq!(s.last_activity_ns, 100 * MS);
    assert_eq!(
        s.on_capture(CaptureOutcome::Captured, 330 * MS),
        SessionAction::Poll { after_ms: POLL_MS }
    );
    assert_eq!(s.frames, 2);
    assert_eq!(s.next_index, 2);
    // Long past the static wait window, but scrolling is only idle 1.1 s.
    assert_eq!(s.on_poll(0, 1200 * MS), SessionAction::Poll { after_ms: POLL_MS });
    assert_eq!(s.on_poll(0, 1300 * MS + 1), SessionAction::Finish { settle_ms: 0 });
}

#[test]
fn capture_outcomes_count_differently() {
    let mut s = ScrollSession::new();
    s.on_poll(5, 0);
    s.on_capture(CaptureOutcome::Failed, 10 * MS);
    assert_eq!((s.frames, s.next_index), (1, 1));
    s.on_poll(5, 20 * MS);
    s.on_capture(CaptureOutcome::Unreadable, 30 * MS);
    assert_eq!((s.frames, s.next_index), (1, 2));
    assert_eq!(
        s.on_poll(5, 40 * MS),
        SessionAction::Capture { settle_ms: SCROLL_FRAME_MS, index: 2 }
    );
}

#[test]
fn capture_ends_when_idle_too_long() {
    let mut s = ScrollSession::new();
    s.on_poll(1, 0);
    assert_eq!(
        s.on_capture(CaptureOutcome::Captured, 1200 * MS + 1),
        SessionAction::Finish { settle_ms: 0 }
    );
}

#[test]
fn frame_limit_ends_session() {
    let mut s = ScrollSession::new();
    let mut t = 0;
    while s.frames < MAX_FRAMES {
        match s.on_poll(1, t) {
            SessionAction::Capture { .. } => {}
            other => panic!("unexpected {:?}", other),
        }
        s.on_capture(CaptureOutcome::Captured, t + MS);
        t += 10 * MS;
    }
    assert_eq!(s.frames, 60);
    assert_eq!(s.on_poll(1, t), SessionAction::Finish { settle_ms: SCROLL_FRAME_MS });
    assert_eq!(s.frames, 60);
}

#[test]
fn clock_going_back_counts_as_no_idle_time() {
    let mut s = ScrollSession::new();
    s.on_poll(1, 5000 * MS);
    assert_eq!(s.on_capture(CaptureOutcome::Failed, 0), SessionAction::Poll { after_ms: POLL_MS });
}
