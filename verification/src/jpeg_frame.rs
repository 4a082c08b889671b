//! The headers of a JPEG file: the size and the layout of its picture, and how large the numbers
//! are that decoding it can give.

use vstd::prelude::*;

verus! {

/// The number in two bytes, the higher first.
pub open spec fn at16(f: Seq<u8>, i: int) -> int {
    f[i] * 0x100 + f[i + 1]
}

fn read16(f: &[u8], i: usize) -> (n: usize)
    requires
        i + 1 < f@.len(),
    ensures
        n == at16(f@, i as int),
        n < 0x1_0000,
{
    f[i] as usize * 0x100 + f[i + 1] as usize
}

/// Where the code of the next marker stands, whose 0xFF stands at or behind `i`: 0xFF itself and
/// zero are no codes. The end of the file, where there is none.
pub open spec fn marker_from(f: Seq<u8>, i: int) -> int
    decreases f.len() - i,
{
    if i + 1 >= f.len() {
        f.len() as int
    } else if f[i] == 0xFF && f[i + 1] != 0 && f[i + 1] != 0xFF {
        i + 1
    } else {
        marker_from(f, i + 1)
    }
}

fn find_marker(f: &[u8], from: usize) -> (j: usize)
    requires
        from <= f@.len(),
    ensures
        j == marker_from(f@, from as int),
        from < j || j == f@.len(),
        j <= f@.len(),
{
    let len: usize = f.len();
    let mut i: usize = from;
    while i < len && len - i > 1
        invariant
            from <= i <= len,
            len == f@.len(),
            marker_from(f@, i as int) == marker_from(f@, from as int),
        decreases len - i,
    {
        if f[i] == 0xFF && f[i + 1] != 0 && f[i + 1] != 0xFF {
            return i + 1;
        }
        i = i + 1;
    }
    len
}

/// What the segments before the first scan tell.
#[derive(Clone, Copy, Debug, PartialEq, Eq, Structural)]
pub struct Headers {
    /// Where the code of the frame's marker stands, or 0.
    pub frame: usize,
    /// Where the code of the first scan's marker stands, or 0.
    pub scan: usize,
    /// The first number of each table of quantisers.
    pub q0: u16,
    pub q1: u16,
    pub q2: u16,
    pub q3: u16,
    /// The largest category in the tables for the first coefficients.
    pub category: u8,
}

impl Headers {
    /// The headers before any segment.
    pub open spec fn none() -> Headers {
        Headers { frame: 0, scan: 0, q0: 0, q1: 0, q2: 0, q3: 0, category: 0 }
    }

    /// The first number of a table of quantisers.
    pub open spec fn quantiser(self, t: int) -> int {
        if t == 0 {
            self.q0 as int
        } else if t == 1 {
            self.q1 as int
        } else if t == 2 {
            self.q2 as int
        } else {
            self.q3 as int
        }
    }

    /// The headers with another first number of a table.
    pub open spec fn with_quantiser(self, t: int, q: int) -> Headers {
        if t == 0 {
            Headers { q0: q as u16, ..self }
        } else if t == 1 {
            Headers { q1: q as u16, ..self }
        } else if t == 2 {
            Headers { q2: q as u16, ..self }
        } else {
            Headers { q3: q as u16, ..self }
        }
    }

    fn get_quantiser(&self, t: u8) -> (q: u16)
        ensures
            q == self.quantiser(t as int),
    {
        match t {
            0 => self.q0,
            1 => self.q1,
            2 => self.q2,
            _ => self.q3,
        }
    }

    fn set_quantiser(&mut self, t: u8, q: u16)
        ensures
            *final(self) == old(self).with_quantiser(t as int, q as int),
    {
        match t {
            0 => self.q0 = q,
            1 => self.q1 = q,
            2 => self.q2 = q,
            _ => self.q3 = q,
        }
    }
}

/// The headers after the tables of quantisers from `i` to `end`: a byte with the width of the
/// numbers and the place of the table, and sixty-four numbers of one or two bytes.
pub open spec fn after_quantisers(f: Seq<u8>, i: int, end: int, h: Headers) -> Headers
    decreases end - i,
{
    if i < 0 || i >= end || end > f.len() {
        h
    } else {
        let wide = f[i] / 16;
        let next = i + 65 + 64 * wide;
        if wide > 1 || f[i] % 16 > 3 || next > end {
            h
        } else {
            after_quantisers(
                f,
                next,
                end,
                h.with_quantiser(
                    f[i] as int % 16,
                    if wide == 0 {
                        f[i + 1] as int
                    } else {
                        at16(f, i + 1)
                    },
                ),
            )
        }
    }
}

fn take_quantisers(f: &[u8], from: usize, end: usize, h: &mut Headers)
    requires
        end <= f@.len(),
    ensures
        *final(h) == after_quantisers(f@, from as int, end as int, *old(h)),
        final(h).category == old(h).category,
{
    let mut i: usize = from;
    while i < end
        invariant
            end <= f@.len(),
            from <= i,
            h.category == old(h).category,
            after_quantisers(f@, i as int, end as int, *h) == after_quantisers(
                f@,
                from as int,
                end as int,
                *old(h),
            ),
        decreases end - i,
    {
        let wide: u8 = f[i] / 16;
        let table: u8 = f[i] % 16;
        let size: usize = 65 + 64 * wide as usize;
        if wide > 1 || table > 3 || size > end - i {
            return;
        }
        let q: u16 = if wide == 0 {
            f[i + 1] as u16
        } else {
            read16(f, i + 1) as u16
        };
        h.set_quantiser(table, q);
        i = i + size;
    }
}

/// The sum of the bytes from `i` to `end`.
pub open spec fn sum_of(f: Seq<u8>, i: int, end: int) -> int
    decreases end - i,
{
    if i >= end {
        0
    } else {
        f[i] + sum_of(f, i + 1, end)
    }
}

/// The largest of `c` and the bytes from `i` to `end`, but no more than 15: there are no other
/// categories.
pub open spec fn largest(f: Seq<u8>, i: int, end: int, c: u8) -> u8
    decreases end - i,
{
    if i >= end {
        c
    } else {
        largest(
            f,
            i + 1,
            end,
            if c < f[i] && f[i] <= 15 {
                f[i]
            } else {
                c
            },
        )
    }
}

/// The largest category after the code tables from `i` to `end`, where it was `c` before: a byte
/// with the class and the place of the table, sixteen counts, and so many categories. Those of
/// class 0 are for the first coefficients.
pub open spec fn after_codes(f: Seq<u8>, i: int, end: int, c: u8) -> u8
    decreases end - i,
{
    if i < 0 || end - i <= 16 || end > f.len() {
        c
    } else {
        let count = sum_of(f, i + 1, i + 17);
        let next = i + 17 + count;
        if f[i] / 16 > 1 || f[i] % 16 > 3 || count < 0 || next > end {
            c
        } else {
            after_codes(
                f,
                next,
                end,
                if f[i] < 16 {
                    largest(f, i + 17, next, c)
                } else {
                    c
                },
            )
        }
    }
}

fn add_up(f: &[u8], from: usize) -> (sum: usize)
    requires
        from + 16 <= f@.len(),
    ensures
        sum == sum_of(f@, from as int, from + 16),
        sum <= 16 * 255,
{
    let len: usize = f.len();
    let mut sum: usize = 0;
    let mut k: usize = 0;
    while k < 16
        invariant
            k <= 16,
            from + 16 <= len,
            len == f@.len(),
            sum <= 255 * k,
            sum + sum_of(f@, from + k, from + 16) == sum_of(f@, from as int, from + 16),
        decreases 16 - k,
    {
        sum = sum + f[from + k] as usize;
        k = k + 1;
    }
    sum
}

fn take_categories(f: &[u8], from: usize, end: usize, c: u8) -> (r: u8)
    requires
        from <= end <= f@.len(),
    ensures
        r == largest(f@, from as int, end as int, c),
        c <= 15 ==> r <= 15,
{
    let mut i: usize = from;
    let mut most: u8 = c;
    while i < end
        invariant
            from <= i <= end <= f@.len(),
            largest(f@, i as int, end as int, most) == largest(f@, from as int, end as int, c),
            c <= 15 ==> most <= 15,
        decreases end - i,
    {
        if most < f[i] && f[i] <= 15 {
            most = f[i];
        }
        i = i + 1;
    }
    most
}

fn take_codes(f: &[u8], from: usize, end: usize, c: u8) -> (r: u8)
    requires
        end <= f@.len(),
    ensures
        r == after_codes(f@, from as int, end as int, c),
        c <= 15 ==> r <= 15,
{
    let mut i: usize = from;
    let mut most: u8 = c;
    while i < end && end - i > 16
        invariant
            end <= f@.len(),
            from <= i,
            c <= 15 ==> most <= 15,
            after_codes(f@, i as int, end as int, most) == after_codes(
                f@,
                from as int,
                end as int,
                c,
            ),
        decreases end - i,
    {
        let count: usize = add_up(f, i + 1);
        if f[i] / 16 > 1 || f[i] % 16 > 3 || 17 + count > end - i {
            return most;
        }
        let next: usize = i + 17 + count;
        if f[i] < 16 {
            most = take_categories(f, i + 17, next, most);
        }
        i = next;
    }
    most
}

/// The headers after a segment whose marker's code stands at `j`: the first frame, tables, and the
/// mark of a file that leaves the usual code tables out, whose categories go up to 11.
pub open spec fn after_segment(f: Seq<u8>, j: int, h: Headers) -> Headers {
    let end = j + 1 + at16(f, j + 1);
    if 0xC0 <= f[j] <= 0xC2 && h.frame == 0 {
        Headers { frame: j as usize, ..h }
    } else if f[j] == 0xDB {
        after_quantisers(f, j + 3, end, h)
    } else if f[j] == 0xC4 {
        Headers { category: after_codes(f, j + 3, end, h.category), ..h }
    } else if f[j] == 0xE0 && end - j >= 7 && is_avi(f, j + 3) && h.category < 11 {
        Headers { category: 11, ..h }
    } else {
        h
    }
}

/// The letters that mark such a file stand at `i`.
pub open spec fn is_avi(f: Seq<u8>, i: int) -> bool {
    &&& i + 4 < f.len()
    &&& f[i] == 0x41
    &&& f[i + 1] == 0x56
    &&& f[i + 2] == 0x49
    &&& f[i + 3] == 0x31
    &&& f[i + 4] == 0
}

/// Where the segment ends whose marker's code stands at `j`: its length is in its first two bytes.
/// Of the first application segment no less than seven bytes are read where there are more than
/// five.
pub open spec fn segment_end(f: Seq<u8>, j: int) -> int {
    let len = at16(f, j + 1);
    if f[j] == 0xE0 && len == 6 {
        j + 8
    } else {
        j + 1 + len
    }
}

/// What the segments from `i` on tell, up to the first scan. Where a segment is cut off, no scan
/// follows.
pub open spec fn headers_from(f: Seq<u8>, i: int, h: Headers) -> Headers
    decreases f.len() - i,
{
    let j = marker_from(f, i);
    if i < 0 || j <= i || j + 2 >= f.len() {
        h
    } else if f[j] == 0xDA {
        Headers { scan: j as usize, ..h }
    } else if at16(f, j + 1) < 2 || segment_end(f, j) > f.len() {
        h
    } else {
        headers_from(f, segment_end(f, j), after_segment(f, j, h))
    }
}

/// What the headers of a file tell.
pub open spec fn headers(f: Seq<u8>) -> Headers {
    if f.len() >= 2 && f[0] == 0xFF && f[1] == 0xD8 {
        headers_from(f, 2, Headers::none())
    } else {
        Headers::none()
    }
}

fn take_segment(f: &[u8], j: usize, h: &mut Headers)
    requires
        0 < j,
        j + 2 < f@.len(),
        at16(f@, j + 1) >= 2,
        j + 1 + at16(f@, j + 1) <= f@.len(),
    ensures
        *final(h) == after_segment(f@, j as int, *old(h)),
        old(h).category <= 15 ==> final(h).category <= 15,
{
    let len: usize = f.len();
    let end: usize = j + 1 + read16(f, j + 1);
    let code: u8 = f[j];
    if 0xC0 <= code && code <= 0xC2 && h.frame == 0 {
        h.frame = j;
    } else if code == 0xDB {
        take_quantisers(f, j + 3, end, h);
    } else if code == 0xC4 {
        h.category = take_codes(f, j + 3, end, h.category);
    } else if code == 0xE0 && end - j >= 7 && h.category < 11 {
        if len - j > 7 && f[j + 3] == 0x41 && f[j + 4] == 0x56 && f[j + 5] == 0x49 && f[j + 6]
            == 0x31 && f[j + 7] == 0 {
            h.category = 11;
        }
    }
}

/// Reads the headers of a file.
fn read_headers(f: &[u8]) -> (h: Headers)
    ensures
        h == headers(f@),
        h.category <= 15,
{
    let mut h: Headers = Headers { frame: 0, scan: 0, q0: 0, q1: 0, q2: 0, q3: 0, category: 0 };
    let len: usize = f.len();
    if len < 2 || f[0] != 0xFF || f[1] != 0xD8 {
        return h;
    }
    let mut i: usize = 2;
    while i < len
        invariant
            2 <= i <= len,
            len == f@.len(),
            headers_from(f@, i as int, h) == headers(f@),
            h.category <= 15,
        decreases len - i,
    {
        let j: usize = find_marker(f, i);
        if j >= len || len - j <= 2 {
            return h;
        }
        if f[j] == 0xDA {
            h.scan = j;
            return h;
        }
        let size: usize = read16(f, j + 1);
        let whole: usize = if f[j] == 0xE0 && size == 6 {
            7
        } else {
            size
        };
        if size < 2 || whole > len - j - 1 {
            return h;
        }
        take_segment(f, j, &mut h);
        i = j + 1 + whole;
    }
    h
}

/// The header of a scan stands at `i`: its marker, its length, and the number of its components,
/// which the length goes by.
pub open spec fn scan_at(f: Seq<u8>, i: int) -> bool {
    &&& i + 4 < f.len()
    &&& f[i] == 0xFF
    &&& f[i + 1] == 0xDA
    &&& at16(f, i + 2) == 6 + 2 * f[i + 4]
    &&& 1 <= f[i + 4] <= 4
}

/// How many headers of scans stand at or behind `i`.
pub open spec fn scans_from(f: Seq<u8>, i: int) -> nat
    decreases f.len() - i,
{
    if i + 4 >= f.len() {
        0
    } else {
        (if scan_at(f, i) {
            1nat
        } else {
            0nat
        }) + scans_from(f, i + 1)
    }
}

/// The largest category after the code tables that stand at or behind `i`, wherever they stand,
/// where it was `c` before.
pub open spec fn codes_from(f: Seq<u8>, i: int, c: u8) -> u8
    decreases f.len() - i,
{
    if i + 4 >= f.len() {
        c
    } else {
        codes_from(
            f,
            i + 1,
            if f[i] == 0xFF && f[i + 1] == 0xC4 {
                after_codes(f, i + 4, i + 2 + at16(f, i + 2), c)
            } else {
                c
            },
        )
    }
}

/// Looks for scans and code tables from `from` on, where the largest category is `c` so far.
fn read_scans(f: &[u8], from: usize, c: u8) -> (r: (usize, u8))
    requires
        from <= f@.len(),
    ensures
        r.0 == scans_from(f@, from as int),
        r.1 == codes_from(f@, from as int, c),
        c <= 15 ==> r.1 <= 15,
{
    let len: usize = f.len();
    let mut i: usize = from;
    let mut scans: usize = 0;
    let mut most: u8 = c;
    while i < len && len - i > 4
        invariant
            from <= i <= len,
            len == f@.len(),
            scans <= i - from,
            c <= 15 ==> most <= 15,
            scans + scans_from(f@, i as int) == scans_from(f@, from as int),
            codes_from(f@, i as int, most) == codes_from(f@, from as int, c),
        decreases len - i,
    {
        if f[i] == 0xFF {
            let size: usize = read16(f, i + 2);
            if f[i + 1] == 0xDA {
                let n: u8 = f[i + 4];
                if 1 <= n && n <= 4 && size == 6 + 2 * n as usize {
                    scans = scans + 1;
                }
            } else if f[i + 1] == 0xC4 && size <= len - i - 2 {
                most = take_codes(f, i + 4, i + 2 + size, most);
            }
        }
        i = i + 1;
    }
    (scans, most)
}

/// A segment of Adobe stands at `i` that names the transform `t` of the colours.
pub open spec fn adobe_at(f: Seq<u8>, i: int, t: u8) -> bool {
    &&& i + 15 < f.len()
    &&& f[i] == 0xFF
    &&& f[i + 1] == 0xEE
    &&& f[i + 4] == 0x41
    &&& f[i + 5] == 0x64
    &&& f[i + 6] == 0x6F
    &&& f[i + 7] == 0x62
    &&& f[i + 8] == 0x65
    &&& f[i + 15] == t
}

/// A segment of Adobe in the file names the transform `t`.
pub open spec fn names_transform(f: Seq<u8>, t: u8) -> bool {
    exists|i: int| 0 <= i && #[trigger] adobe_at(f, i, t)
}

fn has_transform(f: &[u8], t: u8) -> (b: bool)
    ensures
        b == names_transform(f@, t),
{
    let len: usize = f.len();
    let mut i: usize = 0;
    while i < len && len - i > 15
        invariant
            i <= len,
            len == f@.len(),
            forall|k: int| 0 <= k < i ==> !#[trigger] adobe_at(f@, k, t),
        decreases len - i,
    {
        if f[i] == 0xFF && f[i + 1] == 0xEE && f[i + 4] == 0x41 && f[i + 5] == 0x64 && f[i + 6]
            == 0x6F && f[i + 7] == 0x62 && f[i + 8] == 0x65 && f[i + 15] == t {
            assert(adobe_at(f@, i as int, t));
            return true;
        }
        i = i + 1;
    }
    false
}

/// The number of components of a frame, whose marker's code stands at `j`.
pub open spec fn components(f: Seq<u8>, j: int) -> int {
    f[j + 8] as int
}

/// The height of a frame.
pub open spec fn rows(f: Seq<u8>, j: int) -> int {
    at16(f, j + 4)
}

/// The width of a frame.
pub open spec fn cols(f: Seq<u8>, j: int) -> int {
    at16(f, j + 6)
}

/// How many blocks of a component stand side by side in a unit.
pub open spec fn across(f: Seq<u8>, j: int, k: int) -> int {
    f[j + 10 + 3 * k] as int / 16
}

/// How many blocks of a component stand one below the other in a unit.
pub open spec fn down(f: Seq<u8>, j: int, k: int) -> int {
    f[j + 10 + 3 * k] as int % 16
}

/// The table of quantisers of a component.
pub open spec fn table(f: Seq<u8>, j: int, k: int) -> int {
    f[j + 11 + 3 * k] as int
}

/// A component can be read: one, two or four blocks side by side, up to four below each other.
pub open spec fn component_reads(f: Seq<u8>, j: int, k: int) -> bool {
    &&& across(f, j, k) == 1 || across(f, j, k) == 2 || across(f, j, k) == 4
    &&& 1 <= down(f, j, k) <= 4
    &&& table(f, j, k) < 4
}

/// The frame is whole, with a picture of up to four components that can be read.
pub open spec fn frame_reads(f: Seq<u8>, j: int) -> bool {
    &&& 0 < j
    &&& j + 8 < f.len()
    &&& 1 <= components(f, j) <= 4
    &&& at16(f, j + 1) == 8 + 3 * components(f, j)
    &&& j + 9 + 3 * components(f, j) <= f.len()
    &&& rows(f, j) > 0
    &&& cols(f, j) > 0
    &&& forall|k: int| 0 <= k < components(f, j) ==> #[trigger] component_reads(f, j, k)
}

fn check_frame(f: &[u8], j: usize) -> (b: bool)
    ensures
        b == frame_reads(f@, j as int),
{
    let len: usize = f.len();
    if j == 0 || j >= len || len - j <= 8 {
        return false;
    }
    let n: usize = f[j + 8] as usize;
    if n < 1 || n > 4 || read16(f, j + 1) != 8 + 3 * n || len - j < 9 + 3 * n {
        return false;
    }
    if read16(f, j + 4) == 0 || read16(f, j + 6) == 0 {
        return false;
    }
    let mut k: usize = 0;
    while k < n
        invariant
            k <= n,
            1 <= n <= 4,
            n == components(f@, j as int),
            len == f@.len(),
            j + 9 + 3 * n <= len,
            forall|m: int| 0 <= m < k ==> #[trigger] component_reads(f@, j as int, m),
        decreases n - k,
    {
        let a: u8 = f[j + 10 + 3 * k] / 16;
        let d: u8 = f[j + 10 + 3 * k] % 16;
        if !(a == 1 || a == 2 || a == 4) || d < 1 || d > 4 || f[j + 11 + 3 * k] > 3 {
            assert(!component_reads(f@, j as int, k as int));
            return false;
        }
        k = k + 1;
    }
    true
}

/// The most blocks side by side that one of the first `n` components has in a unit.
pub open spec fn most_across(f: Seq<u8>, j: int, n: int) -> int
    decreases n,
{
    if n <= 0 {
        1
    } else if across(f, j, n - 1) > most_across(f, j, n - 1) {
        across(f, j, n - 1)
    } else {
        most_across(f, j, n - 1)
    }
}

/// The most blocks one below the other that one of the first `n` components has in a unit.
pub open spec fn most_down(f: Seq<u8>, j: int, n: int) -> int
    decreases n,
{
    if n <= 0 {
        1
    } else if down(f, j, n - 1) > most_down(f, j, n - 1) {
        down(f, j, n - 1)
    } else {
        most_down(f, j, n - 1)
    }
}

fn find_most(f: &[u8], j: usize) -> (r: (usize, usize))
    requires
        frame_reads(f@, j as int),
    ensures
        r.0 == most_across(f@, j as int, components(f@, j as int)),
        r.1 == most_down(f@, j as int, components(f@, j as int)),
        1 <= r.0 <= 4,
        1 <= r.1 <= 4,
{
    let len: usize = f.len();
    let n: usize = f[j + 8] as usize;
    let mut a: usize = 1;
    let mut d: usize = 1;
    let mut k: usize = 0;
    while k < n
        invariant
            k <= n,
            n == components(f@, j as int),
            len == f@.len(),
            frame_reads(f@, j as int),
            a == most_across(f@, j as int, k as int),
            d == most_down(f@, j as int, k as int),
            1 <= a <= 4,
            1 <= d <= 4,
        decreases n - k,
    {
        assert(component_reads(f@, j as int, k as int));
        let side: usize = (f[j + 10 + 3 * k] / 16) as usize;
        let under: usize = (f[j + 10 + 3 * k] % 16) as usize;
        if side > a {
            a = side;
        }
        if under > d {
            d = under;
        }
        k = k + 1;
    }
    (a, d)
}

/// How many times a component is stretched sideways to the size of the picture.
pub open spec fn stretch_across(f: Seq<u8>, j: int, k: int) -> int {
    most_across(f, j, components(f, j)) / across(f, j, k)
}

/// How many times a component is stretched downwards to the size of the picture.
pub open spec fn stretch_down(f: Seq<u8>, j: int, k: int) -> int {
    most_down(f, j, components(f, j)) / down(f, j, k)
}

/// A component is stretched with a look at the rows above and below: twice downwards, and once or
/// twice sideways.
pub open spec fn blends_rows(f: Seq<u8>, j: int, k: int) -> bool {
    stretch_down(f, j, k) == 2 && stretch_across(f, j, k) <= 2
}

/// How many units a side takes, with so many blocks in each: a block has eight pixels.
pub open spec fn units(side: int, blocks: int) -> int {
    (side + 8 * blocks - 1) / (8 * blocks)
}

/// How many blocks of a component a scan has.
pub open spec fn blocks(f: Seq<u8>, j: int, k: int) -> int {
    units(cols(f, j), most_across(f, j, components(f, j))) * units(
        rows(f, j),
        most_down(f, j, components(f, j)),
    ) * (across(f, j, k) * down(f, j, k))
}

/// The largest number of a category.
pub open spec fn largest_in(category: int) -> int
    decreases category,
{
    if category <= 0 {
        0
    } else {
        2 * largest_in(category - 1) + 1
    }
}

fn find_largest_in(category: u8) -> (r: u64)
    requires
        category <= 15,
    ensures
        r == largest_in(category as int),
        r < 0x8000,
{
    proof {
        reveal_with_fuel(largest_in, 17);
    }
    let mut r: u64 = 0;
    let mut c: u8 = 0;
    while c < category
        invariant
            c <= category <= 15,
            r == largest_in(c as int),
            forall|a: int| 0 <= a <= 15 ==> largest_in(a) < 0x8000,
        decreases category - c,
    {
        r = 2 * r + 1;
        c = c + 1;
    }
    r
}

/// What the decoder multiplies stays within 32 bits: the first coefficient of a block is the sum of
/// up to one difference for each block before it, and is multiplied by the first quantiser. Beside
/// it there is room for the 1028 that are added then.
pub open spec fn product_fits(scans: int, blocks: int, difference: int, quantiser: int) -> bool {
    scans * (blocks * difference * quantiser) + 1028 <= 0x7FFF_FFFF
}

fn check_product(scans: usize, blocks: u64, difference: u64, quantiser: u64) -> (b: bool)
    requires
        blocks <= 0x4000_0000,
        difference < 0x8000,
        quantiser < 0x1_0000,
    ensures
        b == product_fits(scans as int, blocks as int, difference as int, quantiser as int),
{
    assert(blocks * difference <= 0x4000_0000 * 0x8000) by (nonlinear_arith)
        requires
            blocks <= 0x4000_0000,
            difference < 0x8000,
    ;
    let sum: u64 = blocks * difference;
    assert(sum * quantiser <= 0x4000_0000 * 0x8000 * 0x1_0000) by (nonlinear_arith)
        requires
            sum <= 0x4000_0000 * 0x8000,
            quantiser < 0x1_0000,
    ;
    let product: u64 = sum * quantiser;
    if product == 0 || scans == 0 {
        assert(scans * product == 0) by (nonlinear_arith)
            requires
                product == 0 || scans == 0,
        ;
        return true;
    }
    let most: u64 = (0x7FFF_FFFF - 1028) / product;
    assert(scans <= most <==> scans * product <= 0x7FFF_FFFF - 1028) by (nonlinear_arith)
        requires
            product > 0,
            most == (0x7FFF_FFFF - 1028) / (product as int),
    ;
    scans as u64 <= most
}

/// The frame has its coefficients one scan after the other, not bit by bit over many scans.
pub open spec fn is_sequential(f: Seq<u8>, j: int) -> bool {
    f[j] != 0xC2
}

/// How many times larger a component is after it is stretched.
pub open spec fn stretch(f: Seq<u8>, j: int, k: int) -> int {
    stretch_across(f, j, k) * stretch_down(f, j, k)
}

/// The rows of the components have room in the decoder: the first component is the widest, or all
/// come in one scan, and none grows more than eight times where rows are blended.
pub open spec fn rows_have_room(f: Seq<u8>, h: Headers) -> bool {
    let j = h.frame as int;
    let n = components(f, j);
    &&& across(f, j, 0) == most_across(f, j, n) || (is_sequential(f, j) && f[h.scan + 3] == n)
    &&& (exists|k: int| 0 <= k < n && #[trigger] blends_rows(f, j, k)) ==> forall|k: int|
        0 <= k < n ==> #[trigger] stretch(f, j, k) <= 8
}

/// The colours match the components. A picture in many scans has all components where four of them
/// are stretched, and as many as its colours where there are few.
pub open spec fn colours_match(f: Seq<u8>, h: Headers) -> bool {
    let j = h.frame as int;
    let n = components(f, j);
    !is_sequential(f, j) ==> {
        &&& n == 4 && (most_across(f, j, n) > 1 || most_down(f, j, n) > 1) ==> !names_transform(
            f,
            1,
        )
        &&& n < 3 ==> !names_transform(f, 2)
    }
}

/// The sides can be counted in blocks. Those of a single component whose unit has more than one
/// block are rounded up to whole blocks in sixteen bits.
pub open spec fn sides_are_counted(f: Seq<u8>, j: int) -> bool {
    is_sequential(f, j) && components(f, j) == 1 && (across(f, j, 0) != 1 || down(f, j, 0) != 1)
        ==> cols(f, j) <= 65528 && rows(f, j) <= 65528
}

/// The coefficients stay within 32 bits, whatever the data are.
pub open spec fn coefficients_fit(f: Seq<u8>, h: Headers) -> bool {
    let j = h.frame as int;
    is_sequential(f, j) ==> forall|k: int|
        0 <= k < components(f, j) ==> product_fits(
            scans_from(f, h.scan - 1) as int,
            #[trigger] blocks(f, j, k),
            largest_in(codes_from(f, h.scan - 1, h.category) as int),
            h.quantiser(table(f, j, k)),
        )
}

/// A file can be given to the decoder: it has headers that can be read, and nothing in the data
/// behind them makes the decoder leave the range of its numbers or the room that it has.
pub open spec fn can_be_decoded(f: Seq<u8>) -> bool {
    let h = headers(f);
    &&& 0 < h.scan <= 0x7FFF_FFFF
    &&& h.scan + 3 < f.len()
    &&& frame_reads(f, h.frame as int)
    &&& rows_have_room(f, h)
    &&& colours_match(f, h)
    &&& sides_are_counted(f, h.frame as int)
    &&& coefficients_fit(f, h)
}

/// The size that the headers of a file give its picture: its width and its height.
pub open spec fn size_of(f: Seq<u8>) -> (int, int) {
    (cols(f, headers(f).frame as int), rows(f, headers(f).frame as int))
}

fn check_rows(f: &[u8], h: &Headers, side: usize, under: usize) -> (b: bool)
    requires
        frame_reads(f@, h.frame as int),
        h.scan + 3 < f@.len(),
        side == most_across(f@, h.frame as int, components(f@, h.frame as int)),
        under == most_down(f@, h.frame as int, components(f@, h.frame as int)),
        side <= 4,
        under <= 4,
    ensures
        b == rows_have_room(f@, *h),
{
    let len: usize = f.len();
    let j: usize = h.frame;
    let n: usize = f[j + 8] as usize;
    let ghost g = j as int;
    assert(component_reads(f@, g, 0));
    if (f[j + 10] / 16) as usize != side && (f[j] == 0xC2 || f[h.scan + 3] as usize != n) {
        return false;
    }
    let mut blends: bool = false;
    let mut roomy: bool = true;
    let mut k: usize = 0;
    while k < n
        invariant
            k <= n,
            g == j,
            n == components(f@, g),
            len == f@.len(),
            frame_reads(f@, g),
            side == most_across(f@, g, n as int),
            under == most_down(f@, g, n as int),
            side <= 4,
            under <= 4,
            blends == exists|m: int| 0 <= m < k && #[trigger] blends_rows(f@, g, m),
            roomy == forall|m: int| 0 <= m < k ==> #[trigger] stretch(f@, g, m) <= 8,
        decreases n - k,
    {
        assert(component_reads(f@, g, k as int));
        let hs: usize = side / ((f[j + 10 + 3 * k] / 16) as usize);
        let vs: usize = under / ((f[j + 10 + 3 * k] % 16) as usize);
        assert(hs <= 4 && vs <= 4);
        assert(hs * vs <= 16) by (nonlinear_arith)
            requires
                hs <= 4,
                vs <= 4,
        ;
        assert(stretch(f@, g, k as int) == hs * vs);
        if vs == 2 && hs <= 2 {
            assert(blends_rows(f@, g, k as int));
            blends = true;
        }
        if hs * vs > 8 {
            roomy = false;
        }
        k = k + 1;
    }
    !blends || roomy
}

fn check_coefficients(f: &[u8], h: &Headers, side: usize, under: usize) -> (b: bool)
    requires
        frame_reads(f@, h.frame as int),
        0 < h.scan < f@.len(),
        h.category <= 15,
        side == most_across(f@, h.frame as int, components(f@, h.frame as int)),
        under == most_down(f@, h.frame as int, components(f@, h.frame as int)),
        1 <= side <= 4,
        1 <= under <= 4,
    ensures
        b == coefficients_fit(f@, *h),
{
    let len: usize = f.len();
    let j: usize = h.frame;
    if f[j] == 0xC2 {
        return true;
    }
    let n: usize = f[j + 8] as usize;
    let ghost g = j as int;
    let (scans, category) = read_scans(f, h.scan - 1, h.category);
    let difference: u64 = find_largest_in(category);
    let wide: u64 = ((read16(f, j + 6) + 8 * side - 1) / (8 * side)) as u64;
    let high: u64 = ((read16(f, j + 4) + 8 * under - 1) / (8 * under)) as u64;
    assert(wide <= 8192) by (nonlinear_arith)
        requires
            wide == (cols(f@, g) + 8 * side - 1) / (8 * side),
            cols(f@, g) <= 65535,
            1 <= side,
    ;
    assert(high <= 8192) by (nonlinear_arith)
        requires
            high == (rows(f@, g) + 8 * under - 1) / (8 * under),
            rows(f@, g) <= 65535,
            1 <= under,
    ;
    assert(wide * high <= 8192 * 8192) by (nonlinear_arith)
        requires
            wide <= 8192,
            high <= 8192,
    ;
    let all: u64 = wide * high;
    let mut k: usize = 0;
    while k < n
        invariant
            k <= n,
            g == j,
            n == components(f@, g),
            len == f@.len(),
            frame_reads(f@, g),
            is_sequential(f@, g),
            g == h.frame,
            all == units(cols(f@, g), most_across(f@, g, n as int)) * units(
                rows(f@, g),
                most_down(f@, g, n as int),
            ),
            all <= 8192 * 8192,
            scans == scans_from(f@, h.scan - 1),
            difference == largest_in(codes_from(f@, h.scan - 1, h.category) as int),
            difference < 0x8000,
            forall|m: int|
                0 <= m < k ==> product_fits(
                    scans as int,
                    #[trigger] blocks(f@, g, m),
                    difference as int,
                    h.quantiser(table(f@, g, m)),
                ),
        decreases n - k,
    {
        assert(component_reads(f@, g, k as int));
        let a: u64 = (f[j + 10 + 3 * k] / 16) as u64;
        let d: u64 = (f[j + 10 + 3 * k] % 16) as u64;
        assert(a * d <= 16) by (nonlinear_arith)
            requires
                a <= 4,
                d <= 4,
        ;
        let unit: u64 = a * d;
        assert(all * unit <= 0x4000_0000) by (nonlinear_arith)
            requires
                all <= 8192 * 8192,
                unit <= 16,
        ;
        let count: u64 = all * unit;
        assert(count == blocks(f@, g, k as int));
        let q: u64 = h.get_quantiser(f[j + 11 + 3 * k]) as u64;
        if !check_product(scans, count, difference, q) {
            return false;
        }
        k = k + 1;
    }
    true
}

/// Tells whether a file can be given to the decoder.
pub fn fits(f: &[u8]) -> (b: bool)
    ensures
        b == can_be_decoded(f@),
{
    let len: usize = f.len();
    let h: Headers = read_headers(f);
    if h.scan == 0 || h.scan > 0x7FFF_FFFF || h.scan >= len || len - h.scan <= 3 || !check_frame(
        f,
        h.frame,
    ) {
        return false;
    }
    let j: usize = h.frame;
    let n: usize = f[j + 8] as usize;
    assert(component_reads(f@, j as int, 0));
    let (side, under) = find_most(f, j);
    if !check_rows(f, &h, side, under) {
        return false;
    }
    if f[j] == 0xC2 {
        if n == 4 && (side > 1 || under > 1) && has_transform(f, 1) {
            return false;
        }
        if n < 3 && has_transform(f, 2) {
            return false;
        }
    } else if n == 1 && f[j + 10] != 0x11 && (read16(f, j + 6) > 65528 || read16(f, j + 4)
        > 65528) {
        assert(across(f@, j as int, 0) != 1 || down(f@, j as int, 0) != 1);
        return false;
    }
    check_coefficients(f, &h, side, under)
}

/// The file has the plain layout: a sequential picture of three components that are not stretched,
/// in one scan, with the usual categories, the first quantiser `q` for the first component and `p`
/// for the other two.
pub open spec fn is_plain(f: Seq<u8>, w: int, h: int, q: int, p: int) -> bool {
    let told = headers(f);
    let j = told.frame as int;
    &&& 0 < told.scan <= 0x7FFF_FFFF
    &&& told.scan + 3 < f.len()
    &&& frame_reads(f, j)
    &&& is_sequential(f, j)
    &&& components(f, j) == 3
    &&& cols(f, j) == w
    &&& rows(f, j) == h
    &&& forall|k: int| 0 <= k < 3 ==> #[trigger] across(f, j, k) == 1 && down(f, j, k) == 1
    &&& told.quantiser(table(f, j, 0)) == q
    &&& told.quantiser(table(f, j, 1)) == p
    &&& told.quantiser(table(f, j, 2)) == p
    &&& scans_from(f, told.scan - 1) == 1
    &&& codes_from(f, told.scan - 1, told.category) == 11
}

/// A file with the plain layout can be given to the decoder, up to so many blocks of 2047 times its
/// quantisers.
pub proof fn plain_can_be_decoded(f: Seq<u8>, w: int, h: int, q: int, p: int)
    requires
        is_plain(f, w, h, q, p),
        product_fits(1, units(w, 1) * units(h, 1), 2047, q),
        product_fits(1, units(w, 1) * units(h, 1), 2047, p),
    ensures
        can_be_decoded(f),
        size_of(f) == (w, h),
{
    let told = headers(f);
    let j = told.frame as int;
    reveal_with_fuel(most_across, 4);
    reveal_with_fuel(most_down, 4);
    reveal_with_fuel(largest_in, 12);
    assert(across(f, j, 0) == 1 && across(f, j, 1) == 1 && across(f, j, 2) == 1);
    assert(most_across(f, j, 3) == 1 && most_down(f, j, 3) == 1);
    assert forall|k: int| 0 <= k < 3 implies !#[trigger] blends_rows(f, j, k) by {
        assert(across(f, j, k) == 1);
    }
    assert forall|k: int| 0 <= k < 3 implies product_fits(
        1,
        #[trigger] blocks(f, j, k),
        2047,
        told.quantiser(table(f, j, k)),
    ) by {
        assert(across(f, j, k) == 1);
        let n = units(w, 1) * units(h, 1);
        let (a, d) = (across(f, j, k), down(f, j, k));
        assert(n * (a * d) == n) by (nonlinear_arith)
            requires
                a == 1,
                d == 1,
        ;
    }
}

} // verus!
