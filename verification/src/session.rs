//! The screenshot session that follows a region selection.
//!
//! After the first frame is captured the session waits for scrolling. With
//! no scrolling within the wait window it ends as a plain screenshot. Each
//! scroll step (while the mouse button is still held) captures one more
//! frame after the scroll animation settles, up to a frame limit; the
//! session ends once scrolling has been idle long enough.
//!
//! The caller runs the clock, the sleeps and the captures: it reports each
//! poll of the scroll accumulator and each capture result, and performs the
//! action that comes back. Times are nanoseconds since the first frame.
use vstd::prelude::*;

verus! {

/// Without scrolling within this time the session is a plain screenshot.
pub const SCROLL_WAIT_NS: u64 = 700_000_000;

/// Pause after a scroll step before capturing, for the scroll to settle.
pub const SCROLL_FRAME_MS: u64 = 220;

/// Scrolling idle for longer than this ends a scrolling session.
pub const SCROLL_IDLE_NS: u64 = 1_200_000_000;

/// Most frames a session holds, the first one included.
pub const MAX_FRAMES: usize = 60;

/// Pause between two polls of the scroll accumulator.
pub const POLL_MS: u64 = 30;

/// What the caller does next.
#[derive(Debug, Clone, Copy, PartialEq, Eq, Structural)]
pub enum SessionAction {
    /// Sleep `settle_ms`, capture frame number `index`, and report the
    /// result with `on_capture`.
    Capture { settle_ms: u64, index: usize },
    /// Sleep `after_ms`, then poll the scroll accumulator and report it with
    /// `on_poll`.
    Poll { after_ms: u64 },
    /// Sleep `settle_ms`, then compose the frames taken so far.
    Finish { settle_ms: u64 },
}

/// The result of one capture.
#[derive(Debug, Clone, Copy, PartialEq, Eq, Structural)]
pub enum CaptureOutcome {
    /// The capture tool failed; no file was written.
    Failed,
    /// A file was written but could not be read as an image.
    Unreadable,
    /// The frame was captured and kept.
    Captured,
}

/// The state of a session.
#[derive(Debug, Clone, Copy, PartialEq, Eq, Structural)]
pub struct ScrollSession {
    /// Frames kept so far, the first one included.
    pub frames: usize,
    /// Number given to the next capture's temporary file.
    pub next_index: usize,
    /// Scrolling has been seen.
    pub scrolling: bool,
    /// Time of the latest scroll step.
    pub last_activity_ns: u64,
}

/// Time elapsed from `since` to `now`, zero if the clock reads earlier.
pub open spec fn elapsed(since: u64, now: u64) -> int {
    if now >= since {
        now - since
    } else {
        0
    }
}

impl ScrollSession {
    /// At least the first frame is held and the limit is kept.
    pub open spec fn wf(&self) -> bool {
        1 <= self.frames <= MAX_FRAMES
    }

    /// The session has lasted long enough to end at time `now`.
    pub open spec fn expired(&self, now: u64) -> bool {
        if self.scrolling {
            elapsed(self.last_activity_ns, now) > SCROLL_IDLE_NS
        } else {
            now > SCROLL_WAIT_NS
        }
    }

    /// The action after a poll or capture at time `now` that did not start
    /// a capture: end, or poll again.
    pub open spec fn idle_action(&self, now: u64) -> SessionAction {
        if self.expired(now) {
            SessionAction::Finish { settle_ms: 0 }
        } else {
            SessionAction::Poll { after_ms: POLL_MS }
        }
    }

    /// A session that holds the first frame.
    pub fn new() -> (s: Self)
        ensures
            s.wf(),
            s.frames == 1,
            s.next_index == 1,
            !s.scrolling,
            s.last_activity_ns == 0,
    {
        ScrollSession { frames: 1, next_index: 1, scrolling: false, last_activity_ns: 0 }
    }

    /// Reports that the scroll accumulator held `delta` at time `now` (and
    /// was reset). Any scrolling starts or continues scrolling mode and asks
    /// for a capture, or ends the session when the frame limit is reached;
    /// otherwise the session ends if it has expired and polls again if not.
    pub fn on_poll(&mut self, delta: i64, now: u64) -> (r: SessionAction)
        requires
            old(self).wf(),
            delta != i64::MIN,
        ensures
            final(self).wf(),
            delta != 0 ==> {
                &&& *final(self) == ScrollSession {
                    scrolling: true,
                    last_activity_ns: now,
                    ..*old(self)
                }
                &&& r == if old(self).frames >= MAX_FRAMES {
                    SessionAction::Finish { settle_ms: SCROLL_FRAME_MS }
                } else {
                    SessionAction::Capture { settle_ms: SCROLL_FRAME_MS, index: old(self).next_index }
                }
            },
            delta == 0 ==> *final(self) == *old(self) && r == old(self).idle_action(now),
            // Without a scroll step, a scrolling session ends only once the
            // latest step is more than the idle time in the past ...
            delta == 0 && old(self).scrolling ==> r == if now > old(self).last_activity_ns + SCROLL_IDLE_NS {
                SessionAction::Finish { settle_ms: 0 }
            } else {
                SessionAction::Poll { after_ms: POLL_MS }
            },
            // ... and a session that never scrolled ends after the wait time.
            delta == 0 && !old(self).scrolling ==> r == if now > SCROLL_WAIT_NS {
                SessionAction::Finish { settle_ms: 0 }
            } else {
                SessionAction::Poll { after_ms: POLL_MS }
            },
            r is Capture ==> old(self).frames < MAX_FRAMES,
    {
        if delta != 0 {
            self.scrolling = true;
            self.last_activity_ns = now;
            if self.frames >= MAX_FRAMES {
                SessionAction::Finish { settle_ms: SCROLL_FRAME_MS }
            } else {
                SessionAction::Capture { settle_ms: SCROLL_FRAME_MS, index: self.next_index }
            }
        } else {
            self.idle_action_at(now)
        }
    }

    /// Reports the result of the capture asked for by `on_poll`, at time
    /// `now`. A capture that wrote a file uses up its number; a readable one
    /// adds a frame. The session then ends if it has expired and polls again
    /// if not.
    pub fn on_capture(&mut self, outcome: CaptureOutcome, now: u64) -> (r: SessionAction)
        requires
            old(self).wf(),
            old(self).frames < MAX_FRAMES,
            old(self).next_index < usize::MAX,
        ensures
            final(self).wf(),
            *final(self) == match outcome {
                CaptureOutcome::Failed => *old(self),
                CaptureOutcome::Unreadable => ScrollSession { next_index: (old(self).next_index + 1) as usize, ..*old(self) },
                CaptureOutcome::Captured => ScrollSession {
                    frames: (old(self).frames + 1) as usize,
                    next_index: (old(self).next_index + 1) as usize,
                    ..*old(self)
                },
            },
            r == final(self).idle_action(now),
            old(self).scrolling ==> r == if now > old(self).last_activity_ns + SCROLL_IDLE_NS {
                SessionAction::Finish { settle_ms: 0 }
            } else {
                SessionAction::Poll { after_ms: POLL_MS }
            },
            !old(self).scrolling ==> r == if now > SCROLL_WAIT_NS {
                SessionAction::Finish { settle_ms: 0 }
            } else {
                SessionAction::Poll { after_ms: POLL_MS }
            },
    {
        match outcome {
            CaptureOutcome::Failed => {},
            CaptureOutcome::Unreadable => {
                self.next_index = self.next_index + 1;
            },
            CaptureOutcome::Captured => {
                self.frames = self.frames + 1;
                self.next_index = self.next_index + 1;
            },
        }
        self.idle_action_at(now)
    }

    fn idle_action_at(&self, now: u64) -> (r: SessionAction)
        ensures
            r == self.idle_action(now),
    {
        let expired = if self.scrolling {
            let idle: u64 = if now >= self.last_activity_ns { now - self.last_activity_ns } else { 0 };
            idle > SCROLL_IDLE_NS
        } else {
            now > SCROLL_WAIT_NS
        };
        if expired {
            SessionAction::Finish { settle_ms: 0 }
        } else {
            SessionAction::Poll { after_ms: POLL_MS }
        }
    }
}


/// A scrolling session polled without a new scroll step ends exactly when
/// its latest step lies more than the idle time before `now`, however long
/// the session has run; a session that never scrolled ends exactly when
/// the wait time has passed.
pub proof fn lemma_idle_measured_from_last_step(s: ScrollSession, now: u64)
    ensures
        s.scrolling ==> (s.idle_action(now) is Finish <==> now > s.last_activity_ns + SCROLL_IDLE_NS),
        !s.scrolling ==> (s.idle_action(now) is Finish <==> now > SCROLL_WAIT_NS),
        !(s.idle_action(now) is Finish) ==> s.idle_action(now) == (SessionAction::Poll { after_ms: POLL_MS }),
{
}

} // verus!
