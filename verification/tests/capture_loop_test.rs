use vdesk::agent::services::capture_loop::{CaptureAction, CaptureEvent, CaptureRun, Phase};
use vdesk::agent::services::video::{CaptureMode, Handover, DXGI_RETRY_NANOS};

fn tell(run: &mut CaptureRun, e: CaptureEvent<'_>) -> CaptureAction {
    assert!(run.expects(e));
    run.on_event(e)
}

fn started(mode: CaptureMode) -> CaptureRun {
    let mut run = CaptureRun::new();
    if mode == CaptureMode::Dxgi {
        let a = tell(&mut run, CaptureEvent::DxgiOpened { ok: true, now: 0 });
        assert_eq!(a, CaptureAction::NextRound);
        return run;
    }
    for _ in 0..2 {
        let a = tell(&mut run, CaptureEvent::DxgiOpened { ok: false, now: 0 });
        assert_eq!(a, CaptureAction::Sleep { millis: 200 });
        let a = tell(&mut run, CaptureEvent::Woke { now: 0 });
        assert_eq!(a, CaptureAction::OpenDxgi);
    }
    let a = tell(&mut run, CaptureEvent::DxgiOpened { ok: false, now: 0 });
    assert_eq!(a, CaptureAction::OpenGdi);
    let a = tell(&mut run, CaptureEvent::GdiOpened { ok: true, now: 0 });
    assert_eq!(a, CaptureAction::NextRound);
    run
}

fn round(run: &mut CaptureRun, now: u64) -> CaptureAction {
    let a = tell(run, CaptureEvent::RoundBegins { closed: false, elapsed: 16_000_000 });
    assert_eq!(a, CaptureAction::Pace { nanos: 666_000 });
    tell(run, CaptureEvent::Woke { now })
}

fn send(run: &mut CaptureRun, bgra: &[u8], outcome: Handover) -> bool {
    assert_eq!(round(run, 1), CaptureAction::Capture);
    let e = CaptureEvent::DxgiFrame { bgra, full: true, named: true };
    match tell(run, e) {
        CaptureAction::Encode { force_key } => {
            assert_eq!(tell(run, CaptureEvent::Encoded { some: true }), CaptureAction::HandOver);
            assert_eq!(tell(run, CaptureEvent::Handed { outcome }), CaptureAction::NextRound);
            force_key
        }
        other => panic!("{:?}", other),
    }
}

#[test]
fn loop_starts_with_duplication_or_gdi() {
    assert_eq!(started(CaptureMode::Dxgi).core.mode, CaptureMode::Dxgi);
    assert_eq!(started(CaptureMode::Gdi).core.mode, CaptureMode::Gdi);
}

#[test]
fn loop_fails_without_a_way_to_capture() {
    let mut run = CaptureRun::new();
    run.phase = Phase::StartingGdi;
    let a = tell(&mut run, CaptureEvent::GdiOpened { ok: false, now: 0 });
    assert_eq!(a, CaptureAction::Fail);
    assert!(!run.expects(CaptureEvent::Woke { now: 0 }));
}

#[test]
fn frames_go_out_and_lost_ones_are_made_good() {
    let mut run = started(CaptureMode::Dxgi);
    assert!(send(&mut run, &[1], Handover::Taken));
    assert!(!send(&mut run, &[2], Handover::QueueFull));
    assert!(send(&mut run, &[3], Handover::Taken));
    assert!(!send(&mut run, &[4], Handover::Taken));
    assert_eq!(round(&mut run, 1), CaptureAction::Capture);
    let same = CaptureEvent::DxgiFrame { bgra: &[4], full: true, named: true };
    assert_eq!(tell(&mut run, same), CaptureAction::NextRound);
}

#[test]
fn loop_stops_when_nobody_takes_frames() {
    let mut run = started(CaptureMode::Dxgi);
    let a = tell(&mut run, CaptureEvent::RoundBegins { closed: true, elapsed: 0 });
    assert_eq!(a, CaptureAction::Stop);
    let mut run = started(CaptureMode::Dxgi);
    run.phase = Phase::Handing;
    let a = tell(&mut run, CaptureEvent::Handed { outcome: Handover::Closed });
    assert_eq!(a, CaptureAction::Stop);
}

#[test]
fn five_failures_set_duplication_up_anew() {
    let mut run = started(CaptureMode::Dxgi);
    run.core.frames = 1;
    for n in 1..=5 {
        assert_eq!(round(&mut run, 1), CaptureAction::Capture);
        assert_eq!(tell(&mut run, CaptureEvent::DxgiFailed), CaptureAction::Sleep { millis: 100 });
        let a = tell(&mut run, CaptureEvent::Woke { now: 1 });
        assert_eq!(a, if n < 5 { CaptureAction::NextRound } else { CaptureAction::OpenGdi });
    }
    let a = tell(&mut run, CaptureEvent::GdiOpened { ok: true, now: 1 });
    assert_eq!(a, CaptureAction::Sleep { millis: 500 });
    assert_eq!(tell(&mut run, CaptureEvent::Woke { now: 1 }), CaptureAction::OpenDxgi);
    let a = tell(&mut run, CaptureEvent::DxgiOpened { ok: false, now: 7 });
    assert_eq!(a, CaptureAction::NextRound);
    assert_eq!((run.core.mode, run.core.last_retry), (CaptureMode::Gdi, 7));
    assert_eq!(round(&mut run, 8), CaptureAction::Capture);
    assert_eq!(run.phase, Phase::Capturing { force_key: true });
}

#[test]
fn reset_without_gdi_stops() {
    let mut run = started(CaptureMode::Dxgi);
    run.phase = Phase::ResettingGdi;
    let a = tell(&mut run, CaptureEvent::GdiOpened { ok: false, now: 1 });
    assert_eq!(a, CaptureAction::Stop);
}

#[test]
fn gdi_mode_returns_to_duplication() {
    let mut run = started(CaptureMode::Gdi);
    assert_eq!(round(&mut run, 5), CaptureAction::Capture);
    assert_eq!(tell(&mut run, CaptureEvent::GdiFailed), CaptureAction::Sleep { millis: 200 });
    assert_eq!(tell(&mut run, CaptureEvent::Woke { now: 5 }), CaptureAction::NextRound);
    assert_eq!(round(&mut run, DXGI_RETRY_NANOS), CaptureAction::OpenDxgi);
    let a = tell(&mut run, CaptureEvent::DxgiOpened { ok: false, now: DXGI_RETRY_NANOS });
    assert_eq!(a, CaptureAction::Capture);
    let a = tell(&mut run, CaptureEvent::GdiFrame { bgra: &[9] });
    assert!(matches!(a, CaptureAction::Encode { .. }));
    assert_eq!(tell(&mut run, CaptureEvent::Encoded { some: false }), CaptureAction::NextRound);
    assert_eq!(round(&mut run, 2 * DXGI_RETRY_NANOS), CaptureAction::OpenDxgi);
    let a = tell(&mut run, CaptureEvent::DxgiOpened { ok: true, now: 0 });
    assert_eq!(a, CaptureAction::NextRound);
    assert_eq!(run.core.mode, CaptureMode::Dxgi);
    assert_eq!(round(&mut run, 0), CaptureAction::Capture);
    assert_eq!(run.phase, Phase::Capturing { force_key: true });
    assert_eq!(tell(&mut run, CaptureEvent::DxgiUnchanged), CaptureAction::NextRound);
}

#[test]
fn loop_expects_one_kind_of_event() {
    let run = CaptureRun::new();
    assert!(run.expects(CaptureEvent::DxgiOpened { ok: false, now: 0 }));
    assert!(!run.expects(CaptureEvent::Woke { now: 0 }));
    let mut full = started(CaptureMode::Dxgi);
    full.phase = Phase::Handing;
    full.core.frames = u64::MAX;
    assert!(!full.expects(CaptureEvent::Handed { outcome: Handover::Taken }));
    assert!(full.expects(CaptureEvent::Handed { outcome: Handover::Closed }));
}
