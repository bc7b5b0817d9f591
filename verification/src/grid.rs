//! Row-major pixel grids.

use vstd::prelude::*;

verus! {

/// Column of the pixel at index `i` of a grid that is `width` pixels wide.
pub open spec fn column(width: int, i: int) -> int {
    i % width
}

/// Row of the pixel at index `i` of a grid that is `width` pixels wide.
pub open spec fn row(width: int, i: int) -> int {
    i / width
}

/// Two pixels touch when they lie at most one column and one row apart, so a
/// pixel touches itself and the up to eight pixels around it.
pub open spec fn touching(width: int, a: int, b: int) -> bool {
    &&& -1 <= column(width, a) - column(width, b) <= 1
    &&& -1 <= row(width, a) - row(width, b) <= 1
}

/// The pixel lies on no edge of the grid.
pub open spec fn interior(width: int, height: int, i: int) -> bool {
    &&& 1 <= column(width, i) < width - 1
    &&& 1 <= row(width, i) < height - 1
}

/// The pixel at column `x` and row `y` has index `y * width + x`.
pub proof fn lemma_pixel(width: int, x: int, y: int)
    requires
        0 <= x < width,
    ensures
        column(width, y * width + x) == x,
        row(width, y * width + x) == y,
{
    vstd::arithmetic::div_mod::lemma_fundamental_div_mod_converse(y * width + x, width, y, x);
}

/// Every index is that of the pixel at its own column and row.
pub proof fn lemma_coordinates(width: int, i: int)
    requires
        width > 0,
    ensures
        i == row(width, i) * width + column(width, i),
        0 <= column(width, i) < width,
        i >= 0 ==> row(width, i) >= 0,
{
    vstd::arithmetic::div_mod::lemma_fundamental_div_mod(i, width);
    vstd::arithmetic::mul::lemma_mul_is_commutative(width, i / width);
    vstd::arithmetic::div_mod::lemma_mod_bound(i, width);
    if i >= 0 {
        vstd::arithmetic::div_mod::lemma_div_pos_is_pos(i, width);
    }
}

/// A pixel whose column and row lie on the grid has an index on the grid.
pub proof fn lemma_index_in_grid(width: int, height: int, x: int, y: int)
    requires
        0 <= x < width,
        0 <= y < height,
    ensures
        0 <= y * width + x < width * height,
        0 <= y * width,
{
    assert(0 <= y * width) by (nonlinear_arith)
        requires
            0 <= y,
            0 < width,
    ;
    assert(y * width + width <= width * height) by (nonlinear_arith)
        requires
            0 <= y < height,
            0 < width,
    ;
}

/// The row of an index on the grid is a row of the grid.
pub proof fn lemma_row_in_grid(width: int, height: int, i: int)
    requires
        width > 0,
        0 <= i < width * height,
    ensures
        0 <= row(width, i) < height,
{
    lemma_coordinates(width, i);
    let y = row(width, i);
    if y >= height {
        assert(y * width >= width * height) by (nonlinear_arith)
            requires
                y >= height,
                width > 0,
        ;
    }
}

/// Pixels touch exactly if neither their columns nor their rows differ by more than one,
/// and a pixel is interior exactly if there is a pixel on each side of it.
pub proof fn law_touching_by_coordinates(
    width: int,
    height: int,
    x: int,
    y: int,
    other_x: int,
    other_y: int,
)
    requires
        0 <= x < width,
        0 <= y < height,
        0 <= other_x < width,
        0 <= other_y < height,
    ensures
        touching(width, y * width + x, other_y * width + other_x) <==> x - 1 <= other_x <= x + 1
            && y - 1 <= other_y <= y + 1,
        interior(width, height, y * width + x) <==> 0 < x && x + 1 < width && 0 < y && y + 1
            < height,
{
    lemma_pixel(width, x, y);
    lemma_pixel(width, other_x, other_y);
}

} // verus!
