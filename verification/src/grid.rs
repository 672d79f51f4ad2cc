//! Arithmetic of grids stored row by row.
use vstd::prelude::*;

verus! {

/// The cell `(x, y)` of a grid stored row by row lies inside the grid.
pub proof fn lemma_row_major_bound(y: int, x: int, width: int, height: int)
    requires
        0 <= x < width,
        0 <= y < height,
    ensures
        0 <= y * width <= y * width + x < width * height,
{
    assert(0 <= y * width <= y * width + x < width * height) by (nonlinear_arith)
        requires
            0 <= x < width,
            0 <= y < height,
    ;
}

/// Row and column of the cell `(x, y)` from its place in a grid stored row
/// by row.
pub proof fn lemma_row_major(y: int, x: int, width: int)
    requires
        0 <= x < width,
        0 <= y,
    ensures
        (y * width + x) / width == y,
        (y * width + x) % width == x,
{
    vstd::arithmetic::div_mod::lemma_fundamental_div_mod_converse(y * width + x, width, y, x);
}

/// The bytes of the sample `(x, row)` lie inside a buffer that holds
/// `height` rows of `width` samples.
pub proof fn lemma_cell_offset(row: int, x: int, width: int, height: int, channels: int)
    requires
        0 <= x < width,
        0 <= row < height,
        3 <= channels,
    ensures
        0 <= row * width <= row * width + x <= (row * width + x) * channels,
        (row * width + x) * channels + 2 < height * (width * channels),
{
    assert(0 <= row * width) by (nonlinear_arith)
        requires
            0 <= row,
            0 <= width,
    ;
    assert(row * width + x <= (row * width + x) * channels) by (nonlinear_arith)
        requires
            0 <= row * width + x,
            3 <= channels,
    ;
    lemma_row_major_bound(row, x, width, height);
    let cell = row * width + x;
    assert(cell * channels + channels <= (width * height) * channels) by (nonlinear_arith)
        requires
            0 <= cell < width * height,
            3 <= channels,
    ;
    assert((width * height) * channels == height * (width * channels)) by (nonlinear_arith);
    assert(0 <= cell * channels) by (nonlinear_arith)
        requires
            0 <= cell,
            3 <= channels,
    ;
}

} // verus!
