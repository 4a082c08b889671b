//! What holds of the capture of the screen from picture to picture.

use crate::agent::services::capture_dxgi;
use crate::agent::services::capture_dxgi::{DirtyRect, DxgiCapture, RawRect};
use crate::agent::services::capture_loop::{CaptureAction, CaptureEvent, CaptureRun, Phase};
use crate::agent::services::video;
use crate::agent::services::video::{CaptureLoop, CaptureMode, Codec, Handover, Prepared};
use crate::grid;
use crate::outside::jpeg;
use vstd::prelude::*;

verus! {

/// A copy of the whole screen has every pixel at its place: the four bytes of the pixel in column
/// `col` of row `row` stand in the mapped picture behind so many rows of `row_pitch` bytes.
pub proof fn whole_screen_is_copied(
    mapped: Seq<u8>,
    w: int,
    h: int,
    row_pitch: int,
    row: int,
    col: int,
    part: int,
)
    requires
        0 <= row < h,
        0 <= col < w,
        0 <= part < 4,
    ensures
        capture_dxgi::full_copy(mapped, w, h, row_pitch).len() == 4 * (w * h),
        capture_dxgi::full_copy(mapped, w, h, row_pitch)[4 * (row * w + col) + part] == mapped[row
            * row_pitch + 4 * col + part],
{
    grid::lemma_cell(w, row, col);
    grid::lemma_cell_bound(w, h, row, col);
    let k = 4 * (row * w + col) + part;
    assert(k / 4 == row * w + col && k % 4 == part);
}

/// A copy of regions takes the pixels of each region from the mapped picture, from its left and upper
/// side up to, but not with, its right and lower side.
pub proof fn regions_are_copied(
    old: Seq<u8>,
    mapped: Seq<u8>,
    w: int,
    h: int,
    row_pitch: int,
    rects: Seq<DirtyRect>,
    i: int,
    row: int,
    col: int,
    part: int,
)
    requires
        old.len() == 4 * (w * h),
        0 <= row < h,
        0 <= col < w,
        0 <= part < 4,
        0 <= i < rects.len(),
        rects[i].left <= col < rects[i].right,
        rects[i].top <= row < rects[i].bottom,
    ensures
        capture_dxgi::region_copy(old, mapped, w, row_pitch, rects)[4 * (row * w + col) + part]
            == mapped[row * row_pitch + 4 * col + part],
{
    grid::lemma_cell(w, row, col);
    grid::lemma_cell_bound(w, h, row, col);
    let k = 4 * (row * w + col) + part;
    assert(k / 4 == row * w + col && k % 4 == part);
    assert(crate::agent::services::yuv::covers_px(rects[i], row, col));
}

/// A copy of regions leaves every other pixel as it was.
pub proof fn other_pixels_are_kept(
    old: Seq<u8>,
    mapped: Seq<u8>,
    w: int,
    h: int,
    row_pitch: int,
    rects: Seq<DirtyRect>,
    row: int,
    col: int,
    part: int,
)
    requires
        old.len() == 4 * (w * h),
        0 <= row < h,
        0 <= col < w,
        0 <= part < 4,
        forall|i: int|
            0 <= i < rects.len() ==> !((#[trigger] rects[i]).left <= col < rects[i].right
                && rects[i].top <= row < rects[i].bottom),
    ensures
        capture_dxgi::region_copy(old, mapped, w, row_pitch, rects).len() == old.len(),
        capture_dxgi::region_copy(old, mapped, w, row_pitch, rects)[4 * (row * w + col) + part]
            == old[4 * (row * w + col) + part],
{
    grid::lemma_cell(w, row, col);
    grid::lemma_cell_bound(w, h, row, col);
    let k = 4 * (row * w + col) + part;
    assert(k / 4 == row * w + col && k % 4 == part);
}

/// What is captured in regions is what a copy of the whole screen would give, where the screen
/// changed in those regions alone.
pub proof fn regions_are_as_good_as_the_whole(
    old: Seq<u8>,
    mapped: Seq<u8>,
    w: int,
    h: int,
    row_pitch: int,
    rects: Seq<DirtyRect>,
)
    requires
        0 <= w,
        0 <= h,
        old.len() == 4 * (w * h),
        forall|k: int|
            0 <= k < old.len() ==> {
                ||| #[trigger] old[k] == mapped[(k / 4 / w) * row_pitch + 4 * (k / 4 % w) + k % 4]
                ||| exists|i: int|
                    0 <= i < rects.len() && (#[trigger] rects[i]).left <= k / 4 % w < rects[i].right
                        && rects[i].top <= k / 4 / w < rects[i].bottom
            },
    ensures
        capture_dxgi::region_copy(old, mapped, w, row_pitch, rects) == capture_dxgi::full_copy(
            mapped,
            w,
            h,
            row_pitch,
        ),
{
    let a = capture_dxgi::region_copy(old, mapped, w, row_pitch, rects);
    let b = capture_dxgi::full_copy(mapped, w, h, row_pitch);
    assert forall|k: int| 0 <= k < a.len() implies a[k] == b[k] by {
        assert(old[k] == old[k]);
        if old[k] != mapped[(k / 4 / w) * row_pitch + 4 * (k / 4 % w) + k % 4] {
            let i = choose|i: int|
                0 <= i < rects.len() && (#[trigger] rects[i]).left <= k / 4 % w < rects[i].right
                    && rects[i].top <= k / 4 / w < rects[i].bottom;
            assert(crate::agent::services::yuv::covers_px(rects[i], k / 4 / w, k / 4 % w));
        }
    }
    assert(a =~= b);
}

/// The regions are counted by their pixels: none gives nothing, and each that has its sides in order
/// adds its width times its height.
pub proof fn pixels_are_counted(rects: Seq<RawRect>, r: RawRect)
    ensures
        capture_dxgi::total_area(Seq::empty()) == 0,
        capture_dxgi::total_area(rects.push(r)) == capture_dxgi::total_area(rects) + if r.left
            < r.right && r.top < r.bottom {
            (r.right - r.left) * (r.bottom - r.top)
        } else {
            0
        },
{
    assert(rects.push(r).drop_last() =~= rects);
}

/// Regions are copied on their own where the system names some that make up less than half of the
/// screen, except for the first frame.
pub proof fn small_changes_are_copied_alone(c: DxgiCapture, rects: Seq<RawRect>)
    ensures
        c.wants_full(rects) <==> c.first_frame || rects.len() == 0 || capture_dxgi::total_area(rects)
            + capture_dxgi::total_area(rects) >= c.width * c.height,
{
}

/// A region keeps its sides, where they are on the screen.
pub proof fn regions_keep_their_sides(r: RawRect)
    requires
        0 <= r.left,
        0 <= r.top,
        0 <= r.right,
        0 <= r.bottom,
    ensures
        capture_dxgi::dirty_of(r).left == r.left,
        capture_dxgi::dirty_of(r).top == r.top,
        capture_dxgi::dirty_of(r).right == r.right,
        capture_dxgi::dirty_of(r).bottom == r.bottom,
{
}

/// The colours of a screen go to the JPEG encoder in the order red, green, blue, pixel by pixel.
pub proof fn colours_keep_their_pixels(bgra: Seq<u8>, p: int)
    requires
        0 <= p,
        4 * p + 4 <= bgra.len(),
    ensures
        video::rgb_of(bgra).len() == 3 * (bgra.len() / 4),
        video::rgb_of(bgra)[3 * p] == bgra[4 * p + 2],
        video::rgb_of(bgra)[3 * p + 1] == bgra[4 * p + 1],
        video::rgb_of(bgra)[3 * p + 2] == bgra[4 * p],
{
    assert((3 * p) / 3 == p && (3 * p) % 3 == 0);
    assert((3 * p + 1) / 3 == p && (3 * p + 1) % 3 == 1);
    assert((3 * p + 2) / 3 == p && (3 * p + 2) % 3 == 2);
}

/// Capture starts with three attempts at desktop duplication, two hundred milliseconds apart. After
/// the third GDI is opened, and where that fails too, capture fails.
pub proof fn start_tries_three_times(s: CaptureRun, attempt: u8, now: u64)
    requires
        1 <= attempt <= 3,
        s.phase == (Phase::Starting { attempt }),
    ensures
        ({
            let no = s.step(CaptureEvent::DxgiOpened { ok: false, now });
            let yes = s.step(CaptureEvent::DxgiOpened { ok: true, now });
            &&& yes.1 == CaptureAction::NextRound
            &&& yes.0.phase == Phase::Between
            &&& yes.0.core.mode == CaptureMode::Dxgi
            &&& attempt < 3 ==> {
                &&& no.1 == (CaptureAction::Sleep { millis: 200 })
                &&& no.0.step(CaptureEvent::Woke { now }).1 == CaptureAction::OpenDxgi
                &&& no.0.step(CaptureEvent::Woke { now }).0.phase == (Phase::Starting {
                    attempt: (attempt + 1) as u8,
                })
            }
            &&& attempt == 3 ==> {
                let there = no.0.step(CaptureEvent::GdiOpened { ok: true, now });
                let lost = no.0.step(CaptureEvent::GdiOpened { ok: false, now });
                &&& no.1 == CaptureAction::OpenGdi
                &&& there.1 == CaptureAction::NextRound
                &&& there.0.phase == Phase::Between
                &&& there.0.core.mode == CaptureMode::Gdi
                &&& there.0.core.last_retry == now
                &&& lost.1 == CaptureAction::Fail
                &&& lost.0.phase == Phase::Ended
            }
        }),
{
}

/// Sixty rounds take a second: a round waits for what is left of its sixtieth of a second, and not
/// where that is over. It ends the loop where nobody takes frames any more.
pub proof fn rounds_are_a_sixtieth_of_a_second_apart(s: CaptureRun, elapsed: u64)
    requires
        s.phase == Phase::Between,
    ensures
        ({
            let go = s.step(CaptureEvent::RoundBegins { closed: false, elapsed });
            let stop = s.step(CaptureEvent::RoundBegins { closed: true, elapsed });
            &&& go.0.phase == Phase::Pacing
            &&& go.0.core == s.core
            &&& go.1 matches CaptureAction::Pace { nanos }
            &&& nanos > 0 ==> 999_950_000 <= 60 * (elapsed + nanos) <= 1_000_000_000
            &&& nanos == 0 ==> 60 * elapsed >= 999_950_000
            &&& stop.1 == CaptureAction::Stop
            &&& stop.0.phase == Phase::Ended
        }),
{
}

/// In GDI mode desktop duplication is tried again when thirty seconds have passed since it was tried
/// last, and in no other case. A picture is taken in every other round, and where the attempt fails.
pub proof fn duplication_is_tried_every_thirty_seconds(s: CaptureRun, now: u64, later: u64)
    requires
        s.phase == Phase::Pacing,
    ensures
        ({
            let due = s.core.mode == CaptureMode::Gdi && now >= s.core.last_retry + 30_000_000_000;
            let next = s.step(CaptureEvent::Woke { now });
            &&& due ==> {
                let back = next.0.step(CaptureEvent::DxgiOpened { ok: true, now: later });
                let not = next.0.step(CaptureEvent::DxgiOpened { ok: false, now: later });
                &&& next.1 == CaptureAction::OpenDxgi
                &&& next.0.core == (CaptureLoop { last_retry: now, ..s.core })
                &&& back.1 == CaptureAction::NextRound
                &&& back.0.phase == Phase::Between
                &&& back.0.core == (CaptureLoop {
                    mode: CaptureMode::Dxgi,
                    last_retry: now,
                    fail_streak: 0,
                    force_keyframe: true,
                    ..s.core
                })
                &&& not.1 == CaptureAction::Capture
                &&& not.0.core == (CaptureLoop {
                    last_retry: now,
                    force_keyframe: false,
                    ..s.core
                })
            }
            &&& !due ==> next.1 == CaptureAction::Capture && next.0.core == (CaptureLoop {
                force_keyframe: false,
                ..s.core
            })
        }),
{
}

/// A picture makes a key frame where one is asked for, and for every six hundredth frame, which is
/// every ten seconds. Asking for one is over once the picture is taken.
pub proof fn key_frames_come_every_ten_seconds(s: CaptureRun, now: u64)
    requires
        s.phase == Phase::Pacing,
        s.core.mode == CaptureMode::Dxgi,
    ensures
        s.step(CaptureEvent::Woke { now }).0.phase == (Phase::Capturing {
            force_key: s.core.force_keyframe || s.core.frames % 600 == 0,
        }),
        !s.step(CaptureEvent::Woke { now }).0.core.force_keyframe,
        s.step(CaptureEvent::Woke { now }).0.core.frames == s.core.frames,
{
}

/// A picture that shows a change is encoded, handed on, and counted; the next round follows. A frame
/// that the queue has no room for is lost and counted, and a key frame is asked for.
pub proof fn changed_picture_is_handed_on(
    s: CaptureRun,
    before: Seq<u8>,
    bgra: &[u8],
    force_key: bool,
    i: int,
)
    requires
        s.phase == (Phase::Capturing { force_key }),
        s.core.mode == CaptureMode::Gdi,
        s.core.last_hash == video::sampled_hash(before),
        s.core.frames < u64::MAX,
        s.core.drop_count < u32::MAX,
        before.len() == bgra@.len(),
        0 <= i < before.len(),
        i % 256 == 0,
        before[i] != bgra@[i],
        forall|k: int|
            0 <= k < before.len() && k % 256 == 0 && k != i ==> #[trigger] before[k] == bgra@[k],
    ensures
        ({
            let seen = s.step(CaptureEvent::GdiFrame { bgra });
            let done = seen.0.step(CaptureEvent::Encoded { some: true });
            let taken = done.0.step(CaptureEvent::Handed { outcome: Handover::Taken });
            let full = done.0.step(CaptureEvent::Handed { outcome: Handover::QueueFull });
            let gone = done.0.step(CaptureEvent::Handed { outcome: Handover::Closed });
            &&& seen.1 == (CaptureAction::Encode { force_key })
            &&& done.1 == CaptureAction::HandOver
            &&& taken.1 == CaptureAction::NextRound
            &&& taken.0.phase == Phase::Between
            &&& taken.0.core == (CaptureLoop {
                frames: (s.core.frames + 1) as u64,
                drop_count: 0,
                ..seen.0.core
            })
            &&& full.1 == CaptureAction::NextRound
            &&& full.0.phase == Phase::Between
            &&& full.0.core == (CaptureLoop {
                frames: (s.core.frames + 1) as u64,
                drop_count: (s.core.drop_count + 1) as u32,
                force_keyframe: true,
                ..seen.0.core
            })
            &&& gone.1 == CaptureAction::Stop
            &&& gone.0.core == seen.0.core
            &&& seen.0.step(CaptureEvent::Encoded { some: false }).1 == CaptureAction::NextRound
            &&& seen.0.step(CaptureEvent::Encoded { some: false }).0.core == seen.0.core
        }),
{
    let dummy = CaptureLoop::started(CaptureMode::Gdi, 0);
    video::change_is_noticed(dummy, before, bgra@, i);
}

/// A picture from desktop duplication in regions, or one whose changes the system did not name, is
/// always encoded.
pub proof fn named_change_is_encoded(
    s: CaptureRun,
    bgra: &[u8],
    full: bool,
    named: bool,
    force_key: bool,
)
    requires
        s.phase == (Phase::Capturing { force_key }),
        !full || !named || force_key,
    ensures
        s.step(CaptureEvent::DxgiFrame { bgra, full, named }).1 == (CaptureAction::Encode {
            force_key,
        }),
{
}

/// A failed capture is followed by a pause: a tenth of a second for desktop duplication, a fifth for
/// GDI. The fifth failure of desktop duplication in a row sets it up anew: GDI is opened, and half a
/// second later desktop duplication. Where that fails the loop goes on with GDI. A key frame follows
/// in either case, and without GDI the loop ends.
pub proof fn failures_are_made_good(s: CaptureRun, force_key: bool, now: u64)
    requires
        s.wf(),
        s.phase == (Phase::Capturing { force_key }),
    ensures
        ({
            let failed = s.step(CaptureEvent::DxgiFailed);
            let woke = failed.0.step(CaptureEvent::Woke { now });
            let gdi = s.step(CaptureEvent::GdiFailed);
            &&& gdi.1 == (CaptureAction::Sleep { millis: 200 })
            &&& gdi.0.step(CaptureEvent::Woke { now }).1 == CaptureAction::NextRound
            &&& gdi.0.core == s.core
            &&& s.step(CaptureEvent::DxgiUnchanged).1 == CaptureAction::NextRound
            &&& s.step(CaptureEvent::DxgiUnchanged).0.core == (CaptureLoop {
                fail_streak: 0,
                ..s.core
            })
            &&& failed.1 == (CaptureAction::Sleep { millis: 100 })
            &&& s.core.fail_streak < 4 ==> {
                &&& failed.0.core == (CaptureLoop {
                    fail_streak: (s.core.fail_streak + 1) as u32,
                    ..s.core
                })
                &&& woke.1 == CaptureAction::NextRound
                &&& woke.0.core == failed.0.core
            }
            &&& s.core.fail_streak >= 4 ==> {
                let opened = woke.0.step(CaptureEvent::GdiOpened { ok: true, now });
                let asks = opened.0.step(CaptureEvent::Woke { now });
                let anew = asks.0.step(CaptureEvent::DxgiOpened { ok: true, now });
                let not = asks.0.step(CaptureEvent::DxgiOpened { ok: false, now });
                &&& failed.0.core == (CaptureLoop { fail_streak: 0, ..s.core })
                &&& woke.1 == CaptureAction::OpenGdi
                &&& woke.0.step(CaptureEvent::GdiOpened { ok: false, now }).1 == CaptureAction::Stop
                &&& opened.1 == (CaptureAction::Sleep { millis: 500 })
                &&& asks.1 == CaptureAction::OpenDxgi
                &&& anew.1 == CaptureAction::NextRound
                &&& anew.0.core == (CaptureLoop {
                    mode: CaptureMode::Dxgi,
                    fail_streak: 0,
                    force_keyframe: true,
                    ..s.core
                })
                &&& not.1 == CaptureAction::NextRound
                &&& not.0.core == (CaptureLoop {
                    mode: CaptureMode::Gdi,
                    fail_streak: 0,
                    last_retry: now,
                    force_keyframe: true,
                    ..s.core
                })
            }
        }),
{
}

/// Without VP9 a picture that JPEG has a file for is sent as that file, at quality 80, as a key frame;
/// any other is not sent.
pub proof fn picture_falls_back_to_jpeg(p: Prepared, bgra: Seq<u8>, w: u32, h: u32)
    requires
        video::jpeg_fallback(p, bgra, w, h),
    ensures
        4 * (w * h) <= bgra.len() && jpeg::jpeg_sized(w, h) ==> {
            &&& p matches Prepared::Encoded(data, codec, is_key)
            &&& data@ == jpeg::jpeg_file(video::rgb_of(bgra), w, h, 80)
            &&& codec == Codec::Jpeg
            &&& is_key
        },
        4 * (w * h) > bgra.len() || !jpeg::jpeg_sized(w, h) ==> p is Nothing,
{
}

/// Every picture with an even number of rows and columns and all its bytes can be turned into I420,
/// and no other with pixels.
pub proof fn even_pictures_are_converted(bgra: Seq<u8>, w: u32, h: u32)
    ensures
        w > 0 && h > 0 ==> (video::convertible(bgra, w, h) <==> w % 2 == 0 && h % 2 == 0 && 4 * (w
            * h) <= bgra.len()),
{
}

/// Every region on a screen can be measured and copied.
pub proof fn regions_on_the_screen_are_taken(r: RawRect, w: int)
    requires
        0 <= r.left <= r.right <= w,
        0 <= r.top <= r.bottom,
    ensures
        capture_dxgi::measurable(r),
        capture_dxgi::copyable(capture_dxgi::dirty_of(r), w),
{
}

/// The codes of desktop duplication are those of the system, as signed numbers of 32 bits; VP9
/// gets eight megabits a second unless another rate is set.
pub proof fn codes_are_those_of_the_system()
    ensures
        capture_dxgi::S_OK == 0,
        capture_dxgi::WAIT_TIMEOUT == 0x887A_0027 - 0x1_0000_0000,
        capture_dxgi::ACCESS_LOST == 0x887A_0026 - 0x1_0000_0000,
        video::BITRATE_KBPS_DEFAULT == 8000,
{
}

/// A picture that looks as the last one did is not sent again, unless a key frame is due; looking at
/// it changes nothing but what is remembered of it. A picture from desktop duplication ends the row of
/// failures, and is remembered only where it is a whole one whose changes the system named.
pub proof fn same_picture_is_not_sent_again(s: CaptureRun, bgra: &[u8])
    requires
        s.phase == (Phase::Capturing { force_key: false }),
    ensures
        ({
            let gdi = s.step(CaptureEvent::GdiFrame { bgra });
            let gdi_again = CaptureRun { core: gdi.0.core, ..s }.step(CaptureEvent::GdiFrame { bgra });
            let dxgi = s.step(CaptureEvent::DxgiFrame { bgra, full: true, named: true });
            let dxgi_again = CaptureRun { core: dxgi.0.core, ..s }.step(
                CaptureEvent::DxgiFrame { bgra, full: true, named: true },
            );
            let part = s.step(CaptureEvent::DxgiFrame { bgra, full: false, named: true });
            let unnamed = s.step(CaptureEvent::DxgiFrame { bgra, full: true, named: false });
            &&& gdi_again.1 == CaptureAction::NextRound
            &&& gdi_again.0.phase == Phase::Between
            &&& gdi.0.core == (CaptureLoop { last_hash: gdi.0.core.last_hash, ..s.core })
            &&& dxgi_again.1 == CaptureAction::NextRound
            &&& dxgi_again.0.phase == Phase::Between
            &&& dxgi.0.core == (CaptureLoop {
                last_hash: dxgi.0.core.last_hash,
                fail_streak: 0,
                ..s.core
            })
            &&& part.0.core == (CaptureLoop { fail_streak: 0, ..s.core })
            &&& unnamed.0.core == (CaptureLoop { fail_streak: 0, ..s.core })
        }),
{
}

/// Every loop begins with no frame, no failure and no loss counted, from the time at which it begins;
/// its first picture is a key frame without being asked for.
pub proof fn counts_begin_at_zero(s: CaptureRun, t: CaptureRun, attempt: u8, now: u64)
    requires
        1 <= attempt <= 3,
        s.phase == (Phase::Starting { attempt }),
        t.phase == Phase::StartingGdi,
    ensures
        s.step(CaptureEvent::DxgiOpened { ok: true, now }).0.core == (CaptureLoop {
            mode: CaptureMode::Dxgi,
            last_hash: 0,
            frames: 0,
            drop_count: 0,
            force_keyframe: false,
            fail_streak: 0,
            last_retry: now,
        }),
        t.step(CaptureEvent::GdiOpened { ok: true, now }).0.core == (CaptureLoop {
            mode: CaptureMode::Gdi,
            last_hash: 0,
            frames: 0,
            drop_count: 0,
            force_keyframe: false,
            fail_streak: 0,
            last_retry: now,
        }),
        CaptureRun::at_start().phase == (Phase::Starting { attempt: 1 }),
{
}

} // verus!
