//! What holds of the numbers in the headers of a JPEG file.

use crate::jpeg_frame;
use crate::jpeg_frame::Headers;
use vstd::prelude::*;

verus! {

/// The size of a picture stands behind the marker of its frame, the height first, in two bytes each,
/// the higher one first.
pub proof fn size_stands_in_the_frame(f: Seq<u8>, j: int)
    requires
        j == jpeg_frame::headers(f).frame,
    ensures
        jpeg_frame::size_of(f).0 == 256 * f[j + 6] + f[j + 7],
        jpeg_frame::size_of(f).1 == 256 * f[j + 4] + f[j + 5],
{
}

/// The next marker is the first place where a code follows a byte 0xFF: a byte that is neither 0 nor
/// 0xFF.
pub proof fn next_marker_is_the_first(f: Seq<u8>, i: int, j: int)
    requires
        0 <= i < j < f.len(),
        f[j - 1] == 0xFF && f[j] != 0 && f[j] != 0xFF,
        forall|k: int|
            i < k < j ==> #[trigger] f[k] == 0 || f[k] == 0xFF || f[k - 1] != 0xFF,
    ensures
        jpeg_frame::marker_from(f, i) == j,
    decreases j - i,
{
    if i + 1 < j {
        assert(f[i + 1] == 0 || f[i + 1] == 0xFF || f[i] != 0xFF);
        next_marker_is_the_first(f, i + 1, j);
    }
}

/// A side takes as many units as cover it, and no more.
pub proof fn units_cover_a_side(side: int, blocks: int)
    requires
        0 < side,
        0 < blocks,
    ensures
        8 * blocks * (jpeg_frame::units(side, blocks) - 1) < side,
        side <= 8 * blocks * jpeg_frame::units(side, blocks),
{
    let d = 8 * blocks;
    let n = side + d - 1;
    assert(d * (n / d) <= n < d * (n / d) + d && d * (n / d - 1) == d * (n / d) - d)
        by (nonlinear_arith)
        requires
            d > 0,
    ;
}

/// Each category has twice as many numbers as the one before: a number of eleven bits goes up to 2047,
/// one of fifteen up to 32767.
pub proof fn categories_double(category: int)
    requires
        0 <= category,
    ensures
        jpeg_frame::largest_in(0) == 0,
        jpeg_frame::largest_in(category + 1) == jpeg_frame::largest_in(category)
            + jpeg_frame::largest_in(category) + 1,
        jpeg_frame::largest_in(11) == 2047,
        jpeg_frame::largest_in(15) == 32767,
{
    reveal_with_fuel(jpeg_frame::largest_in, 16);
}

/// The most blocks are those of a component, and no component has more.
pub proof fn most_blocks_are_the_most(f: Seq<u8>, j: int, n: int, k: int)
    requires
        0 <= k < n,
    ensures
        jpeg_frame::most_across(f, j, n) >= f[j + 10 + 3 * k] / 16,
        jpeg_frame::most_down(f, j, n) >= f[j + 10 + 3 * k] % 16,
        jpeg_frame::most_across(f, j, n) == 1 || exists|i: int|
            0 <= i < n && jpeg_frame::most_across(f, j, n) == #[trigger] jpeg_frame::across(f, j, i),
        jpeg_frame::most_down(f, j, n) == 1 || exists|i: int|
            0 <= i < n && jpeg_frame::most_down(f, j, n) == #[trigger] jpeg_frame::down(f, j, i),
    decreases n,
{
    reveal_with_fuel(jpeg_frame::most_across, 2);
    reveal_with_fuel(jpeg_frame::most_down, 2);
    if n > 1 {
        most_blocks_are_the_most(f, j, n - 1, if k < n - 1 {
            k
        } else {
            0
        });
    }
}

/// A table of quantisers gives back the number that was put into it, and the others keep theirs.
pub proof fn tables_keep_their_quantisers(h: Headers, t: int, u: int, q: u16)
    requires
        0 <= t <= 3,
        0 <= u <= 3,
    ensures
        h.with_quantiser(t, q as int).quantiser(t) == q,
        u != t ==> h.with_quantiser(t, q as int).quantiser(u) == h.quantiser(u),
        h.with_quantiser(t, q as int).frame == h.frame,
        h.with_quantiser(t, q as int).scan == h.scan,
        h.with_quantiser(t, q as int).category == h.category,
{
}

/// The coefficients of a picture that is given to the decoder stay within 32 bits, with room for the
/// 1028 that are added: for each component, the blocks of all scans times the largest difference times
/// the first quantiser.
pub proof fn coefficients_stay_in_range(f: Seq<u8>, k: int)
    requires
        jpeg_frame::can_be_decoded(f),
        f[jpeg_frame::headers(f).frame as int] != 0xC2,
        0 <= k < f[jpeg_frame::headers(f).frame + 8],
    ensures
        ({
            let h = jpeg_frame::headers(f);
            let j = h.frame as int;
            let scans = jpeg_frame::scans_from(f, h.scan - 1);
            let blocks = jpeg_frame::blocks(f, j, k);
            let largest = jpeg_frame::largest_in(
                jpeg_frame::codes_from(f, h.scan - 1, h.category) as int,
            );
            scans * (blocks * largest * h.quantiser(f[j + 11 + 3 * k] as int)) + 1028 <= i32::MAX
        }),
{
    let h = jpeg_frame::headers(f);
    let j = h.frame as int;
    assert(jpeg_frame::product_fits(
        jpeg_frame::scans_from(f, h.scan - 1) as int,
        jpeg_frame::blocks(f, j, k),
        jpeg_frame::largest_in(jpeg_frame::codes_from(f, h.scan - 1, h.category) as int),
        h.quantiser(jpeg_frame::table(f, j, k)),
    ));
}

} // verus!
