//! The capture loop step by step: each event that the world reports leads to the next action.
//!
//! ```text
//! start:  open duplication (three times, 200 ms apart), else open GDI, else fail
//! round:  wait for the frame interval; in GDI mode try duplication every 30 s;
//!         capture; encode unless nothing changed; hand the frame over
//! reset:  after five failures in a row open GDI, wait 500 ms, open duplication again
//! ```

use crate::agent::services::video;
use crate::agent::services::video::{
    after_attempt, pace, CaptureLoop, CaptureMode, Handover, Round, Startup, DXGI_PAUSE_MILLIS,
    GDI_PAUSE_MILLIS, RESET_PAUSE_MILLIS,
};
use vstd::prelude::*;

verus! {

/// What the loop waits for.
#[derive(Clone, Copy, Debug, PartialEq, Eq, Structural)]
pub enum Phase {
    /// Attempt number `attempt` to open desktop duplication at the start.
    Starting { attempt: u8 },
    /// The pause before attempt number `attempt`.
    StartPause { attempt: u8 },
    /// GDI at the start.
    StartingGdi,
    /// The next round.
    Between,
    /// The rest of the frame interval.
    Pacing,
    /// An attempt to return to desktop duplication.
    Probing,
    /// A picture, whose frame has to be a key frame or not.
    Capturing { force_key: bool },
    /// The pause after a failed capture, and whether desktop duplication is torn down then.
    FailPause { reset: bool },
    /// An encoded frame.
    Encoding,
    /// What becomes of the frame.
    Handing,
    /// GDI, while desktop duplication is torn down.
    ResettingGdi,
    /// The pause before desktop duplication is set up anew.
    ResetPause,
    /// Desktop duplication, set up anew.
    ResettingDxgi,
    /// Nothing: the loop has ended.
    Ended,
}

/// What the world reports to the loop.
#[derive(Clone, Copy, Debug)]
pub enum CaptureEvent<'a> {
    /// Desktop duplication was opened or not.
    DxgiOpened { ok: bool, now: u64 },
    /// GDI was opened or not.
    GdiOpened { ok: bool, now: u64 },
    /// A round begins: whether nobody takes frames any more, and the time since the last one.
    RoundBegins { closed: bool, elapsed: u64 },
    /// The wait is over.
    Woke { now: u64 },
    /// A picture from desktop duplication: the whole screen or regions, named by the system or not.
    DxgiFrame { bgra: &'a [u8], full: bool, named: bool },
    /// Desktop duplication reports no change.
    DxgiUnchanged,
    /// Desktop duplication failed.
    DxgiFailed,
    /// A picture from GDI.
    GdiFrame { bgra: &'a [u8] },
    /// GDI failed.
    GdiFailed,
    /// A frame came out of the encoder or not.
    Encoded { some: bool },
    /// What became of the frame.
    Handed { outcome: Handover },
}

/// What the loop asks for.
#[derive(Clone, Copy, Debug, PartialEq, Eq, Structural)]
pub enum CaptureAction {
    OpenDxgi,
    OpenGdi,
    /// A wait, in milliseconds.
    Sleep { millis: u64 },
    /// A wait for the rest of the frame interval, in nanoseconds.
    Pace { nanos: u64 },
    /// The next round.
    NextRound,
    /// A picture.
    Capture,
    /// The frame of the picture that was captured, a key frame if `force_key` says so.
    Encode { force_key: bool },
    /// The frame is handed on.
    HandOver,
    /// The loop ends.
    Stop,
    /// The loop cannot start.
    Fail,
}

/// The capture loop.
#[derive(Clone, Copy, Debug, PartialEq, Eq, Structural)]
pub struct CaptureRun {
    pub phase: Phase,
    pub core: CaptureLoop,
}

impl CaptureRun {
    /// The counts are sound, and desktop duplication is torn down with no failure counted.
    pub open spec fn wf(self) -> bool {
        &&& self.core.wf()
        &&& self.phase is Starting ==> 1 <= self.phase->Starting_attempt <= 3
        &&& self.phase is StartPause ==> 2 <= self.phase->StartPause_attempt <= 3
        &&& (self.phase == (Phase::FailPause { reset: true }) || self.phase == Phase::ResettingGdi
            || self.phase == Phase::ResetPause || self.phase == Phase::ResettingDxgi)
            ==> self.core.fail_streak == 0
    }

    /// The loop at the start.
    pub open spec fn at_start() -> CaptureRun {
        CaptureRun {
            phase: Phase::Starting { attempt: 1 },
            core: CaptureLoop::started(CaptureMode::Dxgi, 0),
        }
    }

    /// The loop in another phase.
    pub open spec fn in_phase(self, phase: Phase) -> CaptureRun {
        CaptureRun { phase, ..self }
    }

    /// The event is what the loop waits for, and no count gets out of range.
    pub open spec fn awaits(self, e: CaptureEvent<'_>) -> bool {
        match self.phase {
            Phase::Starting { .. } => e is DxgiOpened,
            Phase::StartPause { .. } => e is Woke,
            Phase::StartingGdi => e is GdiOpened,
            Phase::Between => e is RoundBegins,
            Phase::Pacing => e is Woke,
            Phase::Probing => e is DxgiOpened,
            Phase::Capturing { .. } => if self.core.mode == CaptureMode::Dxgi {
                e is DxgiFrame || e is DxgiUnchanged || e is DxgiFailed
            } else {
                e is GdiFrame || e is GdiFailed
            },
            Phase::FailPause { .. } => e is Woke,
            Phase::Encoding => e is Encoded,
            Phase::Handing => {
                &&& e matches CaptureEvent::Handed { outcome }
                &&& outcome != Handover::Closed ==> self.core.frames < u64::MAX
                &&& outcome == Handover::QueueFull ==> self.core.drop_count < u32::MAX
            },
            Phase::ResettingGdi => e is GdiOpened,
            Phase::ResetPause => e is Woke,
            Phase::ResettingDxgi => e is DxgiOpened,
            Phase::Ended => false,
        }
    }

    /// The loop after an event, and what it asks for.
    pub open spec fn step(self, e: CaptureEvent<'_>) -> (CaptureRun, CaptureAction) {
        let next_round = (self.in_phase(Phase::Between), CaptureAction::NextRound);
        match (self.phase, e) {
            (Phase::Starting { attempt }, CaptureEvent::DxgiOpened { ok, now }) => if ok {
                (
                    CaptureRun {
                        phase: Phase::Between,
                        core: CaptureLoop::started(CaptureMode::Dxgi, now),
                    },
                    CaptureAction::NextRound,
                )
            } else if attempt < 3 {
                (
                    self.in_phase(Phase::StartPause { attempt: (attempt + 1) as u8 }),
                    CaptureAction::Sleep { millis: 200 },
                )
            } else {
                (self.in_phase(Phase::StartingGdi), CaptureAction::OpenGdi)
            },
            (Phase::StartPause { attempt }, CaptureEvent::Woke { .. }) => (
                self.in_phase(Phase::Starting { attempt }),
                CaptureAction::OpenDxgi,
            ),
            (Phase::StartingGdi, CaptureEvent::GdiOpened { ok, now }) => if ok {
                (
                    CaptureRun {
                        phase: Phase::Between,
                        core: CaptureLoop::started(CaptureMode::Gdi, now),
                    },
                    CaptureAction::NextRound,
                )
            } else {
                (self.in_phase(Phase::Ended), CaptureAction::Fail)
            },
            (Phase::Between, CaptureEvent::RoundBegins { closed, elapsed }) => if closed {
                (self.in_phase(Phase::Ended), CaptureAction::Stop)
            } else {
                (
                    self.in_phase(Phase::Pacing),
                    CaptureAction::Pace {
                        nanos: if elapsed < video::FRAME_INTERVAL_NANOS {
                            (video::FRAME_INTERVAL_NANOS - elapsed) as u64
                        } else {
                            0
                        },
                    },
                )
            },
            (Phase::Pacing, CaptureEvent::Woke { now }) => if self.core.retry_due(now) {
                (
                    CaptureRun {
                        phase: Phase::Probing,
                        core: CaptureLoop { last_retry: now, ..self.core },
                    },
                    CaptureAction::OpenDxgi,
                )
            } else {
                self.captures()
            },
            (Phase::Probing, CaptureEvent::DxgiOpened { ok, .. }) => if ok {
                (
                    CaptureRun { phase: Phase::Between, core: self.core.returned() },
                    CaptureAction::NextRound,
                )
            } else {
                self.captures()
            },
            (
                Phase::Capturing { force_key },
                CaptureEvent::DxgiFrame { bgra, full, named },
            ) => {
                let seen = self.core.seen_dxgi(bgra@, full, named);
                if self.core.skips_dxgi(bgra@, full, named, force_key) {
                    (CaptureRun { phase: Phase::Between, core: seen }, CaptureAction::NextRound)
                } else {
                    (
                        CaptureRun { phase: Phase::Encoding, core: seen },
                        CaptureAction::Encode { force_key },
                    )
                }
            },
            (Phase::Capturing { .. }, CaptureEvent::DxgiUnchanged) => (
                CaptureRun {
                    phase: Phase::Between,
                    core: CaptureLoop { fail_streak: 0, ..self.core },
                },
                CaptureAction::NextRound,
            ),
            (Phase::Capturing { .. }, CaptureEvent::DxgiFailed) => (
                CaptureRun {
                    phase: Phase::FailPause { reset: self.core.tears_down() },
                    core: self.core.failed_once(),
                },
                CaptureAction::Sleep { millis: DXGI_PAUSE_MILLIS },
            ),
            (Phase::Capturing { force_key }, CaptureEvent::GdiFrame { bgra }) => {
                let seen = self.core.seen_gdi(bgra@);
                if self.core.skips_gdi(bgra@, force_key) {
                    (CaptureRun { phase: Phase::Between, core: seen }, CaptureAction::NextRound)
                } else {
                    (
                        CaptureRun { phase: Phase::Encoding, core: seen },
                        CaptureAction::Encode { force_key },
                    )
                }
            },
            (Phase::Capturing { .. }, CaptureEvent::GdiFailed) => (
                self.in_phase(Phase::FailPause { reset: false }),
                CaptureAction::Sleep { millis: GDI_PAUSE_MILLIS },
            ),
            (Phase::FailPause { reset }, CaptureEvent::Woke { .. }) => if reset {
                (self.in_phase(Phase::ResettingGdi), CaptureAction::OpenGdi)
            } else {
                next_round
            },
            (Phase::Encoding, CaptureEvent::Encoded { some }) => if some {
                (self.in_phase(Phase::Handing), CaptureAction::HandOver)
            } else {
                next_round
            },
            (Phase::Handing, CaptureEvent::Handed { outcome }) => {
                let core = self.core.handed(outcome);
                if outcome == Handover::Closed {
                    (CaptureRun { phase: Phase::Ended, core }, CaptureAction::Stop)
                } else {
                    (CaptureRun { phase: Phase::Between, core }, CaptureAction::NextRound)
                }
            },
            (Phase::ResettingGdi, CaptureEvent::GdiOpened { ok, .. }) => if ok {
                (
                    self.in_phase(Phase::ResetPause),
                    CaptureAction::Sleep { millis: RESET_PAUSE_MILLIS },
                )
            } else {
                (self.in_phase(Phase::Ended), CaptureAction::Stop)
            },
            (Phase::ResetPause, CaptureEvent::Woke { .. }) => (
                self.in_phase(Phase::ResettingDxgi),
                CaptureAction::OpenDxgi,
            ),
            (Phase::ResettingDxgi, CaptureEvent::DxgiOpened { ok, now }) => (
                CaptureRun { phase: Phase::Between, core: self.core.set_up_anew(ok, now) },
                CaptureAction::NextRound,
            ),
            _ => (self, CaptureAction::Stop),
        }
    }

    /// The loop asks for a picture.
    pub open spec fn captures(self) -> (CaptureRun, CaptureAction) {
        (
            CaptureRun {
                phase: Phase::Capturing { force_key: self.core.key_due() },
                core: self.core.capturing(),
            },
            CaptureAction::Capture,
        )
    }

    /// Starts the loop: it asks for desktop duplication first.
    pub fn new() -> (r: CaptureRun)
        ensures
            r == CaptureRun::at_start(),
            r.wf(),
    {
        CaptureRun {
            phase: Phase::Starting { attempt: 1 },
            core: CaptureLoop::new(CaptureMode::Dxgi, 0),
        }
    }

    /// Tells whether the event is what the loop waits for, and no count gets out of range.
    pub fn expects(&self, e: CaptureEvent<'_>) -> (b: bool)
        ensures
            b == self.awaits(e),
    {
        let dxgi: bool = self.core.mode == CaptureMode::Dxgi;
        match (self.phase, e) {
            (Phase::Starting { .. }, CaptureEvent::DxgiOpened { .. }) => true,
            (Phase::StartPause { .. }, CaptureEvent::Woke { .. }) => true,
            (Phase::StartingGdi, CaptureEvent::GdiOpened { .. }) => true,
            (Phase::Between, CaptureEvent::RoundBegins { .. }) => true,
            (Phase::Pacing, CaptureEvent::Woke { .. }) => true,
            (Phase::Probing, CaptureEvent::DxgiOpened { .. }) => true,
            (Phase::Capturing { .. }, CaptureEvent::DxgiFrame { .. }) => dxgi,
            (Phase::Capturing { .. }, CaptureEvent::DxgiUnchanged) => dxgi,
            (Phase::Capturing { .. }, CaptureEvent::DxgiFailed) => dxgi,
            (Phase::Capturing { .. }, CaptureEvent::GdiFrame { .. }) => !dxgi,
            (Phase::Capturing { .. }, CaptureEvent::GdiFailed) => !dxgi,
            (Phase::FailPause { .. }, CaptureEvent::Woke { .. }) => true,
            (Phase::Encoding, CaptureEvent::Encoded { .. }) => true,
            (Phase::Handing, CaptureEvent::Handed { outcome }) => match outcome {
                Handover::Taken => self.core.frames < u64::MAX,
                Handover::QueueFull => self.core.frames < u64::MAX && self.core.drop_count
                    < u32::MAX,
                Handover::Closed => true,
            },
            (Phase::ResettingGdi, CaptureEvent::GdiOpened { .. }) => true,
            (Phase::ResetPause, CaptureEvent::Woke { .. }) => true,
            (Phase::ResettingDxgi, CaptureEvent::DxgiOpened { .. }) => true,
            _ => false,
        }
    }

    fn go(&mut self, phase: Phase, action: CaptureAction) -> (a: CaptureAction)
        ensures
            *final(self) == old(self).in_phase(phase),
            a == action,
    {
        self.phase = phase;
        action
    }

    fn next_round(&mut self) -> (a: CaptureAction)
        ensures
            *final(self) == old(self).in_phase(Phase::Between),
            a == CaptureAction::NextRound,
    {
        self.go(Phase::Between, CaptureAction::NextRound)
    }

    /// Takes an event that the loop waits for, and tells what it asks for next.
    pub fn on_event(&mut self, e: CaptureEvent<'_>) -> (a: CaptureAction)
        requires
            old(self).wf(),
            old(self).awaits(e),
        ensures
            final(self).wf(),
            (*final(self), a) == old(self).step(e),
    {
        match (self.phase, e) {
            (Phase::Starting { attempt }, CaptureEvent::DxgiOpened { ok, now }) => {
                match after_attempt(attempt, ok) {
                    Startup::Start(CaptureMode::Dxgi) => {
                        self.core = CaptureLoop::new(CaptureMode::Dxgi, now);
                        self.next_round()
                    },
                    Startup::Start(CaptureMode::Gdi) => {
                        self.go(Phase::StartingGdi, CaptureAction::OpenGdi)
                    },
                    Startup::TryAgain(millis) => self.go(
                        Phase::StartPause { attempt: attempt + 1 },
                        CaptureAction::Sleep { millis },
                    ),
                }
            },
            (Phase::StartPause { attempt }, CaptureEvent::Woke { .. }) => self.go(
                Phase::Starting { attempt },
                CaptureAction::OpenDxgi,
            ),
            (Phase::StartingGdi, CaptureEvent::GdiOpened { ok, now }) => {
                if ok {
                    self.core = CaptureLoop::new(CaptureMode::Gdi, now);
                    self.next_round()
                } else {
                    self.go(Phase::Ended, CaptureAction::Fail)
                }
            },
            (Phase::Between, CaptureEvent::RoundBegins { closed, elapsed }) => {
                if closed {
                    self.go(Phase::Ended, CaptureAction::Stop)
                } else {
                    self.go(Phase::Pacing, CaptureAction::Pace { nanos: pace(elapsed) })
                }
            },
            (Phase::Pacing, CaptureEvent::Woke { now }) => match self.core.begin_round(now) {
                Round::TryDxgi => self.go(Phase::Probing, CaptureAction::OpenDxgi),
                Round::Capture { force_key } => self.go(
                    Phase::Capturing { force_key },
                    CaptureAction::Capture,
                ),
            },
            (Phase::Probing, CaptureEvent::DxgiOpened { ok, .. }) => match self.core.dxgi_tried(
                ok,
            ) {
                Some(force_key) => self.go(
                    Phase::Capturing { force_key },
                    CaptureAction::Capture,
                ),
                None => self.next_round(),
            },
            (
                Phase::Capturing { force_key },
                CaptureEvent::DxgiFrame { bgra, full, named },
            ) => {
                if self.core.dxgi_frame(bgra, full, named, force_key) {
                    self.go(Phase::Encoding, CaptureAction::Encode { force_key })
                } else {
                    self.next_round()
                }
            },
            (Phase::Capturing { .. }, CaptureEvent::DxgiUnchanged) => {
                self.core.dxgi_unchanged();
                self.next_round()
            },
            (Phase::Capturing { .. }, CaptureEvent::DxgiFailed) => {
                let reset: bool = self.core.dxgi_failed();
                self.go(
                    Phase::FailPause { reset },
                    CaptureAction::Sleep { millis: DXGI_PAUSE_MILLIS },
                )
            },
            (Phase::Capturing { force_key }, CaptureEvent::GdiFrame { bgra }) => {
                if self.core.gdi_frame(bgra, force_key) {
                    self.go(Phase::Encoding, CaptureAction::Encode { force_key })
                } else {
                    self.next_round()
                }
            },
            (Phase::Capturing { .. }, CaptureEvent::GdiFailed) => self.go(
                Phase::FailPause { reset: false },
                CaptureAction::Sleep { millis: GDI_PAUSE_MILLIS },
            ),
            (Phase::FailPause { reset }, CaptureEvent::Woke { .. }) => {
                if reset {
                    self.go(Phase::ResettingGdi, CaptureAction::OpenGdi)
                } else {
                    self.next_round()
                }
            },
            (Phase::Encoding, CaptureEvent::Encoded { some }) => {
                if some {
                    self.go(Phase::Handing, CaptureAction::HandOver)
                } else {
                    self.next_round()
                }
            },
            (Phase::Handing, CaptureEvent::Handed { outcome }) => {
                if self.core.handed_over(outcome) {
                    self.next_round()
                } else {
                    self.go(Phase::Ended, CaptureAction::Stop)
                }
            },
            (Phase::ResettingGdi, CaptureEvent::GdiOpened { ok, .. }) => {
                if ok {
                    self.go(
                        Phase::ResetPause,
                        CaptureAction::Sleep { millis: RESET_PAUSE_MILLIS },
                    )
                } else {
                    self.go(Phase::Ended, CaptureAction::Stop)
                }
            },
            (Phase::ResetPause, CaptureEvent::Woke { .. }) => self.go(
                Phase::ResettingDxgi,
                CaptureAction::OpenDxgi,
            ),
            (Phase::ResettingDxgi, CaptureEvent::DxgiOpened { ok, now }) => {
                self.core.reset_done(ok, now);
                self.next_round()
            },
            _ => CaptureAction::Stop,
        }
    }
}

/// A key frame that is asked for is not forgotten: it stays asked for until a picture is captured
/// whose frame has to be one.
pub proof fn asked_key_frame_is_kept(s: CaptureRun, e: CaptureEvent<'_>)
    requires
        s.wf(),
        s.awaits(e),
        s.core.force_keyframe,
        !(s.phase is Starting) && !(s.phase is StartingGdi),
    ensures
        s.step(e).0.core.force_keyframe || s.step(e).0.phase == (Phase::Capturing {
            force_key: true,
        }),
{
}

/// A picture whose frame has to be a key frame is encoded as one, if it is captured at all.
pub proof fn forced_picture_is_encoded(s: CaptureRun, e: CaptureEvent<'_>)
    requires
        s.awaits(e),
        s.phase == (Phase::Capturing { force_key: true }),
        e is DxgiFrame || e is GdiFrame,
    ensures
        s.step(e).1 == (CaptureAction::Encode { force_key: true }),
{
}

/// After a lost frame, and after desktop duplication was set up anew or returned to, a key frame is
/// asked for.
pub proof fn key_frame_is_asked_for(s: CaptureRun, e: CaptureEvent<'_>)
    requires
        s.wf(),
        s.awaits(e),
        match e {
            CaptureEvent::DxgiOpened { ok, .. } => s.phase == Phase::ResettingDxgi || (s.phase
                == Phase::Probing && ok),
            CaptureEvent::Handed { outcome } => outcome == Handover::QueueFull,
            _ => false,
        },
    ensures
        s.step(e).0.core.force_keyframe,
{
}

/// The first picture after the start makes a key frame.
pub proof fn first_picture_makes_key_frame(mode: CaptureMode, start: u64, now: u64)
    ensures
        ({
            let s = CaptureRun {
                phase: Phase::Pacing,
                core: CaptureLoop::started(mode, start),
            };
            !s.core.retry_due(now) ==> s.step(CaptureEvent::Woke { now }).0.phase
                == (Phase::Capturing { force_key: true })
        }),
{
}

/// The loop ends only where nobody takes frames any more, or where no way of capture is left.
pub proof fn loop_ends_for_a_reason(s: CaptureRun, e: CaptureEvent<'_>)
    requires
        s.awaits(e),
        s.step(e).0.phase == Phase::Ended,
    ensures
        match e {
            CaptureEvent::RoundBegins { closed, .. } => closed,
            CaptureEvent::Handed { outcome } => outcome == Handover::Closed,
            CaptureEvent::GdiOpened { ok, .. } => !ok,
            _ => false,
        },
{
}

} // verus!
