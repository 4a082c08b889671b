//! Frames of the desktop duplication interface.
//!
//! The interface reports which regions changed since the last frame. Where little changed only
//! those regions are copied; otherwise the whole screen is.

use crate::agent::services::yuv;
use crate::wire;
use vstd::prelude::*;

verus! {

/// A changed region of the screen: columns `left..right` of rows `top..bottom`.
#[derive(Clone, Copy, Debug, PartialEq, Eq, Structural)]
pub struct DirtyRect {
    pub left: u32,
    pub top: u32,
    pub right: u32,
    pub bottom: u32,
}

/// A changed region as the system reports it.
#[derive(Clone, Copy, Debug, PartialEq, Eq, Structural)]
pub struct RawRect {
    pub left: i32,
    pub top: i32,
    pub right: i32,
    pub bottom: i32,
}

/// What to do after asking the system for the next frame.
#[derive(Clone, Copy, Debug, PartialEq, Eq, Structural)]
pub enum Acquired {
    /// No frame came in time.
    Timeout,
    /// The duplication is lost and has to be made anew.
    AccessLost,
    /// The system reported another failure.
    Failed(i32),
    /// A frame came that shows no change; it has to be released.
    Unchanged,
    /// A frame came that shows a change.
    Changed,
}

/// `S_OK`.
pub const S_OK: i32 = 0;

/// `DXGI_ERROR_WAIT_TIMEOUT` (0x887A0027).
pub const WAIT_TIMEOUT: i32 = -2005270489;

/// `DXGI_ERROR_ACCESS_LOST` (0x887A0026).
pub const ACCESS_LOST: i32 = -2005270490;

/// Sorts the outcome of `AcquireNextFrame`: the result code, and the time of the last change,
/// which counts only where a frame came.
pub fn classify_acquire(hr: i32, last_present_time: i64) -> (a: Acquired)
    ensures
        a == Acquired::Timeout <==> hr == WAIT_TIMEOUT,
        a == Acquired::AccessLost <==> hr == ACCESS_LOST,
        a is Failed <==> hr != WAIT_TIMEOUT && hr != ACCESS_LOST && hr != S_OK,
        a matches Acquired::Failed(code) ==> code == hr,
        a == Acquired::Unchanged <==> hr == S_OK && last_present_time == 0,
        a == Acquired::Changed <==> hr == S_OK && last_present_time != 0,
{
    if hr == WAIT_TIMEOUT {
        Acquired::Timeout
    } else if hr == ACCESS_LOST {
        Acquired::AccessLost
    } else if hr != S_OK {
        Acquired::Failed(hr)
    } else if last_present_time == 0 {
        Acquired::Unchanged
    } else {
        Acquired::Changed
    }
}

/// How much of the next frame is copied.
#[derive(Debug)]
pub enum CopyPlan {
    /// The whole screen.
    Full,
    /// These regions only.
    Regions(Vec<DirtyRect>),
}

/// The region with each side taken as an unsigned number.
pub open spec fn dirty_of(r: RawRect) -> DirtyRect {
    DirtyRect {
        left: wire::wrap32(r.left as int) as u32,
        top: wire::wrap32(r.top as int) as u32,
        right: wire::wrap32(r.right as int) as u32,
        bottom: wire::wrap32(r.bottom as int) as u32,
    }
}

/// The number of pixels of a region; none where its sides are out of order.
pub open spec fn area(r: RawRect) -> int {
    if r.right > r.left && r.bottom > r.top {
        (r.right - r.left) * (r.bottom - r.top)
    } else {
        0
    }
}

/// The sum of the areas, regions that overlap counted twice.
pub open spec fn total_area(rects: Seq<RawRect>) -> int
    decreases rects.len(),
{
    if rects.len() == 0 {
        0
    } else {
        total_area(rects.drop_last()) + area(rects.last())
    }
}

/// The sides are near enough for their distance to be an `i32`.
pub open spec fn measurable(r: RawRect) -> bool {
    i32::MIN <= r.right - r.left <= i32::MAX && i32::MIN <= r.bottom - r.top <= i32::MAX
}

/// The columns of the region, cut off at the right end of the screen, are in order.
pub open spec fn copyable(r: DirtyRect, w: int) -> bool {
    r.left <= r.right && r.left <= w
}

/// Where byte number `k` of the frame buffer stands in the mapped picture.
pub open spec fn mapped_at(w: int, row_pitch: int, k: int) -> int {
    (k / 4 / w) * row_pitch + 4 * (k / 4 % w) + k % 4
}

/// The mapped picture holds `h` rows of `w` pixels, `row_pitch` bytes apart.
pub open spec fn mapped_ok(mapped: Seq<u8>, w: int, h: int, row_pitch: int) -> bool {
    4 * w <= row_pitch && (h > 0 ==> (h - 1) * row_pitch + 4 * w <= mapped.len())
}

/// The frame buffer after a copy of the whole mapped picture.
pub open spec fn full_copy(mapped: Seq<u8>, w: int, h: int, row_pitch: int) -> Seq<u8> {
    Seq::new((4 * (w * h)) as nat, |k: int| mapped[mapped_at(w, row_pitch, k)])
}

/// The frame buffer after a copy of the regions.
pub open spec fn region_copy(
    old: Seq<u8>,
    mapped: Seq<u8>,
    w: int,
    row_pitch: int,
    rects: Seq<DirtyRect>,
) -> Seq<u8> {
    Seq::new(
        old.len(),
        |k: int|
            if yuv::covered_px(rects, k / 4 / w, k / 4 % w) {
                mapped[mapped_at(w, row_pitch, k)]
            } else {
                old[k]
            },
    )
}

/// What the last capture gave.
#[derive(Debug)]
pub struct CaptureFrame<'a> {
    /// The whole screen, four bytes a pixel: blue, green, red, and one unused.
    pub bgra: &'a [u8],
    /// The whole screen was copied, not only regions.
    pub is_full_frame: bool,
    /// The regions that were copied.
    pub dirty_rects: &'a [DirtyRect],
    /// The system named the regions that changed.
    pub has_dirty_rects: bool,
}

/// The frame buffer that captures are copied into.
#[derive(Debug)]
pub struct DxgiCapture {
    pub width: u32,
    pub height: u32,
    /// The whole screen, four bytes a pixel.
    pub buf: Vec<u8>,
    /// The regions that the last capture copied.
    pub dirty_rects: Vec<DirtyRect>,
    /// The last capture copied the whole screen.
    pub is_full_frame: bool,
    /// The system named the regions that changed before the last capture.
    pub has_dirty_rects: bool,
    /// Nothing was captured yet.
    pub first_frame: bool,
}

impl DxgiCapture {
    /// The frame buffer holds four bytes for each pixel of the screen.
    pub open spec fn wf(self) -> bool {
        &&& self.buf@.len() == 4 * (self.width * self.height)
        &&& 4 * (self.width * self.height) <= u32::MAX
    }

    /// Every copy of the next frame is a copy of the whole screen: for the first frame, where the
    /// system names no region, and where the regions make up half of the screen or more.
    pub open spec fn wants_full(self, rects: Seq<RawRect>) -> bool {
        self.first_frame || rects.len() == 0 || 2 * total_area(rects) >= self.width * self.height
    }

    /// A black frame buffer for a screen of this size.
    pub fn new(width: u32, height: u32) -> (c: DxgiCapture)
        requires
            4 * (width * height) <= u32::MAX,
        ensures
            c.wf(),
            c.width == width,
            c.height == height,
            c.buf@ == Seq::new((4 * (width * height)) as nat, |k: int| 0u8),
            c.dirty_rects@ == Seq::<DirtyRect>::empty(),
            c.is_full_frame,
            !c.has_dirty_rects,
            c.first_frame,
    {
        proof {
            assert(0 <= width * height) by (nonlinear_arith);
        }
        let size: u32 = width * height * 4;
        let mut buf: Vec<u8> = Vec::new();
        buf.resize(size as usize, 0);
        let c = DxgiCapture {
            width,
            height,
            buf,
            dirty_rects: Vec::new(),
            is_full_frame: true,
            has_dirty_rects: false,
            first_frame: true,
        };
        assert(c.buf@ =~= Seq::new((4 * (width * height)) as nat, |k: int| 0u8));
        c
    }

    /// Tells whether the regions that the system names can be measured.
    pub fn can_plan(&self, rects: &[RawRect]) -> (b: bool)
        ensures
            b == ((forall|i: int| 0 <= i < rects.len() ==> measurable(#[trigger] rects@[i])) && 2
                * total_area(rects@) <= i64::MAX),
    {
        let mut dirty: i64 = 0;
        let mut i: usize = 0;
        proof {
            assert(rects@.take(0) =~= Seq::<RawRect>::empty());
            assert(rects@.take(rects@.len() as int) =~= rects@);
        }
        while i < rects.len()
            invariant
                i <= rects.len(),
                rects@.take(rects@.len() as int) == rects@,
                forall|k: int| 0 <= k < i ==> measurable(#[trigger] rects@[k]),
                dirty == total_area(rects@.take(i as int)),
                0 <= dirty <= 0x3fff_ffff_ffff_ffff,
            decreases rects.len() - i,
        {
            let r: RawRect = rects[i];
            let w: i64 = r.right as i64 - r.left as i64;
            let h: i64 = r.bottom as i64 - r.top as i64;
            if w < -0x8000_0000 || w > 0x7fff_ffff || h < -0x8000_0000 || h > 0x7fff_ffff {
                assert(!measurable(rects@[i as int]));
                return false;
            }
            let a: i64 = if w > 0 && h > 0 {
                proof {
                    assert(0 <= w * h <= 0x7fff_ffff * 0x7fff_ffff) by (nonlinear_arith)
                        requires
                            0 <= w <= 0x7fff_ffff,
                            0 <= h <= 0x7fff_ffff,
                    ;
                }
                w * h
            } else {
                0
            };
            proof {
                assert(rects@.take(i + 1).drop_last() =~= rects@.take(i as int));
                assert(total_area(rects@.take(i + 1)) == dirty + a);
                lemma_area_grows(rects@, i + 1, rects@.len() as int);
            }
            if dirty + a > 0x3fff_ffff_ffff_ffff {
                return false;
            }
            dirty = dirty + a;
            i = i + 1;
        }
        true
    }

    /// Tells whether the regions of a plan can be copied.
    pub fn can_copy(&self, plan: &CopyPlan) -> (b: bool)
        ensures
            b == match *plan {
                CopyPlan::Full => true,
                CopyPlan::Regions(regions) => forall|i: int|
                    0 <= i < regions@.len() ==> copyable(
                        #[trigger] regions@[i],
                        self.width as int,
                    ),
            },
    {
        if let CopyPlan::Regions(regions) = plan {
            let mut i: usize = 0;
            while i < regions.len()
                invariant
                    i <= regions.len(),
                    *plan == CopyPlan::Regions(*regions),
                    forall|k: int|
                        0 <= k < i ==> copyable(#[trigger] regions@[k], self.width as int),
                decreases regions.len() - i,
            {
                if regions[i].left > regions[i].right || regions[i].left > self.width {
                    assert(!copyable(plan->Regions_0@[i as int], self.width as int));
                    return false;
                }
                i = i + 1;
            }
        }
        true
    }

    /// Decides how much of the next frame to copy.
    pub fn plan_copy(&self, rects: &[RawRect]) -> (plan: CopyPlan)
        requires
            self.wf(),
            forall|i: int| 0 <= i < rects.len() ==> measurable(#[trigger] rects@[i]),
            2 * total_area(rects@) <= i64::MAX,
        ensures
            plan is Full <==> self.wants_full(rects@),
            plan matches CopyPlan::Regions(regions) ==> regions@ == rects@.map_values(
                |r: RawRect| dirty_of(r),
            ),
    {
        let mut dirty: i64 = 0;
        let mut regions: Vec<DirtyRect> = Vec::new();
        let mut i: usize = 0;
        proof {
            lemma_area_grows(rects@, 0, rects@.len() as int);
            assert(rects@.take(0) =~= Seq::<RawRect>::empty());
            assert(rects@.take(rects@.len() as int) =~= rects@);
            assert(0 <= self.width * self.height) by (nonlinear_arith);
        }
        while i < rects.len()
            invariant
                i <= rects.len(),
                forall|k: int| 0 <= k < rects.len() ==> measurable(#[trigger] rects@[k]),
                2 * total_area(rects@) <= i64::MAX,
                dirty == total_area(rects@.take(i as int)),
                0 <= dirty,
                regions@ == rects@.take(i as int).map_values(|r: RawRect| dirty_of(r)),
            decreases rects.len() - i,
        {
            let r: RawRect = rects[i];
            assert(measurable(rects@[i as int]));
            proof {
                assert(rects@.take(i + 1).drop_last() =~= rects@.take(i as int));
                lemma_area_grows(rects@, i + 1, rects@.len() as int);
                assert(rects@.take(rects@.len() as int) =~= rects@);
            }
            if r.right > r.left && r.bottom > r.top {
                proof {
                    let a = r.right - r.left;
                    let b = r.bottom - r.top;
                    assert(0 <= a * b <= 0x7fff_ffff * 0x7fff_ffff) by (nonlinear_arith)
                        requires
                            0 <= a <= 0x7fff_ffff,
                            0 <= b <= 0x7fff_ffff,
                    ;
                }
                dirty = dirty + (r.right - r.left) as i64 * (r.bottom - r.top) as i64;
            }
            regions.push(
                DirtyRect {
                    left: to_unsigned(r.left),
                    top: to_unsigned(r.top),
                    right: to_unsigned(r.right),
                    bottom: to_unsigned(r.bottom),
                },
            );
            i = i + 1;
            assert(rects@.take(i as int).map_values(|r: RawRect| dirty_of(r)) =~= rects@.take(
                i - 1,
            ).map_values(|r: RawRect| dirty_of(r)).push(dirty_of(r)));
        }
        let screen: i64 = (self.width * self.height) as i64;
        if self.first_frame || rects.len() == 0 || dirty * 2 >= screen {
            CopyPlan::Full
        } else {
            CopyPlan::Regions(regions)
        }
    }

    /// Copies what the plan says from the mapped picture, and remembers what was copied.
    pub fn capture(&mut self, plan: CopyPlan, has_dirty_rects: bool, mapped: &[u8], row_pitch: usize)
        requires
            old(self).wf(),
            mapped_ok(
                mapped@,
                old(self).width as int,
                old(self).height as int,
                row_pitch as int,
            ),
            plan matches CopyPlan::Regions(regions) ==> forall|i: int|
                0 <= i < regions@.len() ==> copyable(
                    #[trigger] regions@[i],
                    old(self).width as int,
                ),
        ensures
            final(self).wf(),
            final(self).width == old(self).width,
            final(self).height == old(self).height,
            !final(self).first_frame,
            final(self).has_dirty_rects == has_dirty_rects,
            final(self).is_full_frame == (plan is Full),
            match plan {
                CopyPlan::Full => {
                    &&& final(self).buf@ == full_copy(
                        mapped@,
                        old(self).width as int,
                        old(self).height as int,
                        row_pitch as int,
                    )
                    &&& final(self).dirty_rects@ == seq![
                        DirtyRect {
                            left: 0,
                            top: 0,
                            right: old(self).width,
                            bottom: old(self).height,
                        },
                    ]
                },
                CopyPlan::Regions(regions) => {
                    &&& final(self).buf@ == region_copy(
                        old(self).buf@,
                        mapped@,
                        old(self).width as int,
                        row_pitch as int,
                        regions@,
                    )
                    &&& final(self).dirty_rects@ == regions@
                },
            },
    {
        let w: usize = self.width as usize;
        let h: usize = self.height as usize;
        let full = DirtyRect { left: 0, top: 0, right: self.width, bottom: self.height };
        self.has_dirty_rects = has_dirty_rects;
        self.first_frame = false;
        match plan {
            CopyPlan::Full => {
                copy_region(&mut self.buf, mapped, w, h, row_pitch, full);
                proof {
                    let want = full_copy(mapped@, w as int, h as int, row_pitch as int);
                    assert forall|k: int| 0 <= k < want.len() implies self.buf@[k]
                        == want[k] by {
                        lemma_byte_cell(w as int, h as int, k);
                    }
                    assert(self.buf@ =~= want);
                }
                self.dirty_rects = Vec::new();
                self.dirty_rects.push(full);
                self.is_full_frame = true;
                assert(self.dirty_rects@ =~= seq![full]);
            },
            CopyPlan::Regions(regions) => {
                let ghost start = self.buf@;
                let mut i: usize = 0;
                while i < regions.len()
                    invariant
                        i <= regions.len(),
                        w == self.width,
                        h == self.height,
                        self.wf(),
                        self.width == old(self).width,
                        self.height == old(self).height,
                        !self.first_frame,
                        self.has_dirty_rects == has_dirty_rects,
                        mapped_ok(mapped@, w as int, h as int, row_pitch as int),
                        forall|k: int|
                            0 <= k < regions@.len() ==> copyable(#[trigger] regions@[k], w as int),
                        start.len() == self.buf@.len(),
                        self.buf@ == region_copy(
                            start,
                            mapped@,
                            w as int,
                            row_pitch as int,
                            regions@.take(i as int),
                        ),
                    decreases regions.len() - i,
                {
                    let ghost before = self.buf@;
                    copy_region(&mut self.buf, mapped, w, h, row_pitch, regions[i]);
                    proof {
                        lemma_one_more(
                            start,
                            before,
                            self.buf@,
                            mapped@,
                            w as int,
                            row_pitch as int,
                            regions@,
                            i as int,
                        );
                    }
                    i = i + 1;
                }
                assert(regions@.take(regions@.len() as int) =~= regions@);
                self.dirty_rects = regions;
                self.is_full_frame = false;
            },
        }
    }

    /// The frame that the last capture gave.
    pub fn frame(&self) -> (f: CaptureFrame<'_>)
        ensures
            f.bgra@ == self.buf@,
            f.dirty_rects@ == self.dirty_rects@,
            f.is_full_frame == self.is_full_frame,
            f.has_dirty_rects == self.has_dirty_rects,
    {
        CaptureFrame {
            bgra: self.buf.as_slice(),
            is_full_frame: self.is_full_frame,
            dirty_rects: self.dirty_rects.as_slice(),
            has_dirty_rects: self.has_dirty_rects,
        }
    }
}

proof fn lemma_area_grows(rects: Seq<RawRect>, i: int, j: int)
    requires
        0 <= i <= j <= rects.len(),
    ensures
        0 <= total_area(rects.take(i)) <= total_area(rects.take(j)),
    decreases j,
{
    if j > 0 {
        let r = rects[j - 1];
        assert(rects.take(j).drop_last() =~= rects.take(j - 1));
        assert(0 <= area(r)) by (nonlinear_arith)
            requires
                area(r) == if r.right > r.left && r.bottom > r.top {
                    (r.right - r.left) * (r.bottom - r.top)
                } else {
                    0
                },
        ;
        if i < j {
            lemma_area_grows(rects, i, j - 1);
        } else {
            lemma_area_grows(rects, i - 1, j - 1);
        }
    }
}

fn to_unsigned(v: i32) -> (u: u32)
    ensures
        u == wire::wrap32(v as int),
{
    if v >= 0 {
        v as u32
    } else {
        (v as i64 + 0x1_0000_0000) as u32
    }
}

/// The screen is not empty where the frame buffer has a byte, and the byte's pixel is on it.
proof fn lemma_byte_cell(w: int, h: int, k: int)
    requires
        0 <= w,
        0 <= h,
        0 <= k < 4 * (w * h),
    ensures
        0 < w,
        0 <= k / 4 / w < h,
        0 <= k / 4 % w < w,
        k / 4 == (k / 4 / w) * w + k / 4 % w,
{
    assert(w != 0) by (nonlinear_arith)
        requires
            0 < w * h,
    ;
    crate::grid::lemma_number(w, k / 4);
    crate::grid::lemma_row_bound(w, h, k / 4);
}

/// Byte number `k` after a copy of one region.
spec fn after_region(
    before: Seq<u8>,
    mapped: Seq<u8>,
    w: int,
    row_pitch: int,
    rect: DirtyRect,
    k: int,
) -> u8 {
    if yuv::covers_px(rect, k / 4 / w, k / 4 % w) {
        mapped[mapped_at(w, row_pitch, k)]
    } else {
        before[k]
    }
}

proof fn lemma_one_more(
    start: Seq<u8>,
    before: Seq<u8>,
    after: Seq<u8>,
    mapped: Seq<u8>,
    w: int,
    row_pitch: int,
    rects: Seq<DirtyRect>,
    i: int,
)
    requires
        0 <= i < rects.len(),
        before == region_copy(start, mapped, w, row_pitch, rects.take(i)),
        after.len() == before.len(),
        forall|k: int|
            0 <= k < after.len() ==> #[trigger] after[k] == after_region(
                before,
                mapped,
                w,
                row_pitch,
                rects[i],
                k,
            ),
    ensures
        after == region_copy(start, mapped, w, row_pitch, rects.take(i + 1)),
{
    let done = rects.take(i);
    let next = rects.take(i + 1);
    assert forall|k: int| 0 <= k < after.len() implies after[k] == region_copy(
        start,
        mapped,
        w,
        row_pitch,
        next,
    )[k] by {
        let row = k / 4 / w;
        let col = k / 4 % w;
        if yuv::covered_px(done, row, col) {
            let m = choose|m: int| 0 <= m < done.len() && yuv::covers_px(#[trigger] done[m], row, col);
            assert(next[m] == done[m]);
        }
        if yuv::covers_px(rects[i], row, col) {
            assert(next[i] == rects[i]);
        }
        if yuv::covered_px(next, row, col) {
            let m = choose|m: int| 0 <= m < next.len() && yuv::covers_px(#[trigger] next[m], row, col);
            if m < i {
                assert(done[m] == next[m]);
            }
        }
    }
    assert(after =~= region_copy(start, mapped, w, row_pitch, next));
}

/// Byte number `k` when the pixels before column `col` of row `row` are copied.
spec fn copy_goal(
    start: Seq<u8>,
    mapped: Seq<u8>,
    w: int,
    row_pitch: int,
    x0: int,
    x1: int,
    y0: int,
    row: int,
    col: int,
    k: int,
) -> u8 {
    if crate::grid::passed(w, k / 4, x0, x1, y0, row, col) {
        mapped[mapped_at(w, row_pitch, k)]
    } else {
        start[k]
    }
}

fn copy_region(
    buf: &mut Vec<u8>,
    mapped: &[u8],
    w: usize,
    h: usize,
    row_pitch: usize,
    rect: DirtyRect,
)
    requires
        4 * (w * h) == old(buf).len(),
        mapped_ok(mapped@, w as int, h as int, row_pitch as int),
        copyable(rect, w as int),
    ensures
        final(buf)@.len() == old(buf)@.len(),
        forall|k: int|
            0 <= k < final(buf)@.len() ==> #[trigger] final(buf)@[k] == after_region(
                old(buf)@,
                mapped@,
                w as int,
                row_pitch as int,
                rect,
                k,
            ),
{
    let ghost start = buf@;
    let ghost wi = w as int;
    let ghost pitch = row_pitch as int;
    let x0: usize = rect.left as usize;
    let x1: usize = if rect.right as usize <= w {
        rect.right as usize
    } else {
        w
    };
    let y0: usize = rect.top as usize;
    let y1: usize = if rect.bottom as usize <= h {
        rect.bottom as usize
    } else {
        h
    };
    let mut row: usize = y0;
    while row < y1
        invariant
            x1 <= w,
            y1 <= h,
            y0 <= row,
            row <= y0 || row <= y1,
            wi == w,
            pitch == row_pitch,
            4 * (w * h) == buf.len(),
            mapped_ok(mapped@, w as int, h as int, row_pitch as int),
            buf@.len() == start.len(),
            forall|k: int|
                0 <= k < start.len() ==> #[trigger] buf@[k] == copy_goal(
                    start,
                    mapped@,
                    wi,
                    pitch,
                    x0 as int,
                    x1 as int,
                    y0 as int,
                    row as int,
                    0,
                    k,
                ),
        decreases y1 - row,
    {
        let mut col: usize = x0;
        while col < x1
            invariant
                x1 <= w,
                y1 <= h,
                y0 <= row < y1,
                x0 <= col,
                col <= x0 || col <= x1,
                wi == w,
                pitch == row_pitch,
                4 * (w * h) == buf.len(),
                mapped_ok(mapped@, w as int, h as int, row_pitch as int),
                buf@.len() == start.len(),
                forall|k: int|
                    0 <= k < start.len() ==> #[trigger] buf@[k] == copy_goal(
                        start,
                        mapped@,
                        wi,
                        pitch,
                        x0 as int,
                        x1 as int,
                        y0 as int,
                        row as int,
                        col as int,
                        k,
                    ),
            decreases x1 - col,
        {
            proof {
                crate::grid::lemma_cell(wi, row as int, col as int);
                crate::grid::lemma_cell_bound(wi, h as int, row as int, col as int);
                assert(row * w <= w * h) by (nonlinear_arith)
                    requires
                        row <= h,
                ;
                assert(0 <= row * row_pitch <= (h - 1) * row_pitch) by (nonlinear_arith)
                    requires
                        0 <= row <= h - 1,
                ;
                let len = mapped.len();
            }
            let p: usize = row * w + col;
            let d: usize = 4 * p;
            let s: usize = row * row_pitch + 4 * col;
            let ghost before = buf@;
            buf[d] = mapped[s];
            buf[d + 1] = mapped[s + 1];
            buf[d + 2] = mapped[s + 2];
            buf[d + 3] = mapped[s + 3];
            proof {
                assert forall|k: int| 0 <= k < start.len() implies #[trigger] buf@[k] == copy_goal(
                    start,
                    mapped@,
                    wi,
                    pitch,
                    x0 as int,
                    x1 as int,
                    y0 as int,
                    row as int,
                    col + 1,
                    k,
                ) by {
                    lemma_byte_cell(wi, h as int, k);
                    assert(before[k] == copy_goal(
                        start,
                        mapped@,
                        wi,
                        pitch,
                        x0 as int,
                        x1 as int,
                        y0 as int,
                        row as int,
                        col as int,
                        k,
                    ));
                    if k / 4 == p {
                        assert(mapped_at(wi, pitch, k) == s + k % 4);
                    }
                }
            }
            col = col + 1;
        }
        proof {
            assert forall|k: int| 0 <= k < start.len() implies #[trigger] buf@[k] == copy_goal(
                start,
                mapped@,
                wi,
                pitch,
                x0 as int,
                x1 as int,
                y0 as int,
                row + 1,
                0,
                k,
            ) by {
                lemma_byte_cell(wi, h as int, k);
                assert(buf@[k] == copy_goal(
                    start,
                    mapped@,
                    wi,
                    pitch,
                    x0 as int,
                    x1 as int,
                    y0 as int,
                    row as int,
                    col as int,
                    k,
                ));
            }
        }
        row = row + 1;
    }
    proof {
        assert forall|k: int| 0 <= k < start.len() implies #[trigger] buf@[k] == after_region(
            start,
            mapped@,
            wi,
            pitch,
            rect,
            k,
        ) by {
            lemma_byte_cell(wi, h as int, k);
            assert(buf@[k] == copy_goal(
                start,
                mapped@,
                wi,
                pitch,
                x0 as int,
                x1 as int,
                y0 as int,
                row as int,
                0,
                k,
            ));
        }
    }
}

/// Outside the regions that a capture names, the frame buffer keeps what it held, so converting
/// only those regions brings a converted picture up to date.
pub proof fn regions_hold_all_changes(
    old: Seq<u8>,
    mapped: Seq<u8>,
    w: int,
    h: int,
    row_pitch: int,
    rects: Seq<DirtyRect>,
)
    requires
        0 <= w,
        0 <= h,
        yuv::even_size(w, h),
        old.len() == 4 * (w * h),
    ensures
        ({
            let new = region_copy(old, mapped, w, row_pitch, rects);
            &&& yuv::same_outside(old, new, w, h, rects)
            &&& yuv::i420_update(new, w, h, yuv::i420_picture(old, w, h), rects)
                == yuv::i420_picture(new, w, h)
        }),
{
    let new = region_copy(old, mapped, w, row_pitch, rects);
    assert forall|row: int, col: int| 0 <= row < h && 0 <= col < w implies #[trigger] yuv::same_pixel(
        old,
        new,
        row * w + col,
    ) || yuv::covered_px(rects, row, col) by {
        crate::grid::lemma_cell(w, row, col);
        crate::grid::lemma_cell_bound(w, h, row, col);
        let p = row * w + col;
        assert((4 * p) / 4 == p && (4 * p + 1) / 4 == p && (4 * p + 2) / 4 == p);
    }
    yuv::update_equals_conversion(old, new, w, h, rects);
}

} // verus!
