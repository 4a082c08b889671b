//! Numbering of the cells of a grid, row by row.

use vstd::prelude::*;

verus! {

/// Cell number `k` of a grid of width `w` lies in the columns `x0..x1` of the rows from `y0` on,
/// before column `col` of row `row`.
pub open spec fn passed(w: int, k: int, x0: int, x1: int, y0: int, row: int, col: int) -> bool {
    x0 <= k % w < x1 && y0 <= k / w && (k / w < row || (k / w == row && k % w < col))
}

/// `(row, col)` is the only cell of a grid of width `w` that number `row * w + col` names.
pub proof fn lemma_cell(w: int, row: int, col: int)
    requires
        0 <= row,
        0 <= col < w,
    ensures
        (row * w + col) / w == row,
        (row * w + col) % w == col,
{
    vstd::arithmetic::div_mod::lemma_fundamental_div_mod_converse(row * w + col, w, row, col);
}

/// A cell of a grid has a number below that of the cells in the rows after its own.
pub proof fn lemma_cell_bound(w: int, h: int, row: int, col: int)
    requires
        0 <= row < h,
        0 <= col < w,
    ensures
        0 <= row * w + col < h * w,
        h * w == w * h,
{
    assert(0 <= row * w + col < h * w && h * w == w * h) by (nonlinear_arith)
        requires
            0 <= row < h,
            0 <= col < w,
    ;
}

/// Every number names a cell.
pub proof fn lemma_number(w: int, k: int)
    requires
        0 < w,
        0 <= k,
    ensures
        k == (k / w) * w + k % w,
        0 <= k % w < w,
        0 <= k / w,
{
    vstd::arithmetic::div_mod::lemma_fundamental_div_mod(k, w);
    assert(w * (k / w) == (k / w) * w) by (nonlinear_arith);
    assert(0 <= k / w) by (nonlinear_arith)
        requires
            0 < w,
            0 <= k,
    ;
}

/// A number below `w * h` names a cell in the first `h` rows.
pub proof fn lemma_row_bound(w: int, h: int, k: int)
    requires
        0 < w,
        0 <= k < w * h,
    ensures
        k / w < h,
{
    lemma_number(w, k);
    assert(k / w < h) by (nonlinear_arith)
        requires
            k == (k / w) * w + k % w,
            0 <= k % w,
            k < w * h,
            0 < w,
    ;
}

} // verus!
