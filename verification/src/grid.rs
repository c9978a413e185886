//! The grid of cells that a canvas is cut into.
//!
//! The canvas is first shrunk by the page padding. The region that is left
//! is cut into `rows` by `cols` cells of equal size, row 0 at the bottom and
//! column 0 at the left. The edges of the cells are fractions of a unit, `x`
//! over `cols` and `y` over `rows`: a cell is exactly the `cols`-th part of
//! the region wide and its `rows`-th part high, and the cells fill the
//! region.

use crate::geom::{GridRect, Rect};
use vstd::prelude::*;

verus! {

/// The margin that is applied when `margin` is asked for around a rectangle
/// of the given size: never negative, and capped so that twice the margin
/// stays below both dimensions (at zero if a dimension is below one).
pub open spec fn spec_clamp_margin(margin: int, w: int, h: int) -> int {
    let smaller = if w <= h { w } else { h };
    let cap = if smaller >= 1 { (smaller - 1) / 2 } else { 0 };
    if margin <= 0 {
        0
    } else if margin > cap {
        cap
    } else {
        margin
    }
}

/// The page padding that is applied: the one asked for, clamped to the size
/// of the canvas.
pub open spec fn spec_page_margin(canvas: Rect, page_padding: int) -> int {
    spec_clamp_margin(page_padding, canvas.spec_w(), canvas.spec_h())
}

/// Whether the canvas has a positive width and height.
pub open spec fn canvas_has_area(canvas: Rect) -> bool {
    canvas.spec_w() >= 1 && canvas.spec_h() >= 1
}

/// The drawing region: the canvas shrunk by the page padding that is
/// applied.
pub open spec fn spec_region(canvas: Rect, page_padding: int) -> Rect {
    canvas.spec_pad(spec_page_margin(canvas, page_padding))
}

/// The cell of the grid at (`row`, `col`), with `x` in `cols`-ths and `y` in
/// `rows`-ths of a unit. In these fractions a cell is as wide as the region
/// is in units, and as high.
pub open spec fn spec_cell(region: Rect, rows: int, cols: int, row: int, col: int) -> GridRect {
    GridRect {
        left: (region.left * cols + col * region.spec_w()) as i64,
        right: (region.left * cols + (col + 1) * region.spec_w()) as i64,
        bottom: (region.bottom * rows + row * region.spec_h()) as i64,
        top: (region.bottom * rows + (row + 1) * region.spec_h()) as i64,
        x_den: cols as i32,
        y_den: rows as i32,
    }
}

/// The least whole number that is not below `x / n`.
pub open spec fn spec_ceil_div(x: int, n: int) -> int {
    (x + n - 1) / n
}

/// The gap that is applied: the largest whole number of units up to the one
/// asked for of which twice is less than the width and the height of a cell,
/// and zero if there is none.
pub open spec fn spec_gap(region: Rect, rows: int, cols: int, gap: int) -> int {
    spec_clamp_margin(
        gap,
        spec_ceil_div(region.spec_w(), cols),
        spec_ceil_div(region.spec_h(), rows),
    )
}

/// The margin that is applied when `margin` is asked for around a rectangle
/// of width `w` and height `h`.
pub fn clamp_margin(margin: i32, w: i64, h: i64) -> (r: i32)
    ensures
        r == spec_clamp_margin(margin as int, w as int, h as int),
        0 <= r,
        margin >= 0 ==> r <= margin,
        w >= 1 && h >= 1 ==> 2 * r < w && 2 * r < h,
        2 * r <= w || r == 0,
        2 * r <= h || r == 0,
        0 <= margin && 2 * margin < w && 2 * margin < h ==> r == margin,
{
    let smaller = if w <= h { w } else { h };
    let cap: i64 = if smaller >= 1 { (smaller - 1) / 2 } else { 0 };
    if margin <= 0 {
        0
    } else if margin as i64 > cap {
        cap as i32
    } else {
        margin
    }
}

/// The product of two bounded numbers is bounded by the product of the
/// bounds.
pub proof fn lemma_product_bound(a: int, b: int, bound_a: int, bound_b: int)
    requires
        -bound_a <= a <= bound_a,
        -bound_b <= b <= bound_b,
    ensures
        -(bound_a * bound_b) <= a * b <= bound_a * bound_b,
{
    assert(-(bound_a * bound_b) <= a * b <= bound_a * bound_b) by (nonlinear_arith)
        requires
            -bound_a <= a <= bound_a,
            -bound_b <= b <= bound_b,
    ;
}

/// The drawing region lies within a well-formed canvas and is well formed,
/// and it has a positive width and height where the canvas has.
pub proof fn lemma_region_within_canvas(canvas: Rect, page_padding: int)
    requires
        canvas.wf(),
    ensures
        ({
            let margin = spec_page_margin(canvas, page_padding);
            let region = spec_region(canvas, page_padding);
            &&& 0 <= margin
            &&& 2 * margin <= canvas.spec_w()
            &&& 2 * margin <= canvas.spec_h()
            &&& region.wf()
            &&& region.left == canvas.left + margin
            &&& region.right == canvas.right - margin
            &&& region.bottom == canvas.bottom + margin
            &&& region.top == canvas.top - margin
            &&& canvas_has_area(canvas) ==> canvas_has_area(region)
        }),
{
}

/// The edges of a cell of the grid. The cells of a row follow one another
/// without a space, the first begins at the left edge of the region and the
/// last ends at its right edge; the rows do the same from the bottom of the
/// region to its top.
pub proof fn lemma_cell_edges(region: Rect, rows: int, cols: int, row: int, col: int)
    requires
        region.wf(),
        1 <= rows <= i32::MAX,
        1 <= cols <= i32::MAX,
        0 <= row < rows,
        0 <= col < cols,
    ensures
        ({
            let cell = spec_cell(region, rows, cols, row, col);
            let w = region.spec_w();
            let h = region.spec_h();
            &&& cell.wf()
            &&& cell.x_den == cols
            &&& cell.y_den == rows
            &&& cell.left == region.left * cols + col * w
            &&& cell.right == region.left * cols + col * w + w
            &&& cell.bottom == region.bottom * rows + row * h
            &&& cell.top == region.bottom * rows + row * h + h
            &&& region.left * cols <= cell.left
            &&& cell.right <= region.right * cols
            &&& region.bottom * rows <= cell.bottom
            &&& cell.top <= region.top * rows
            &&& col == 0 ==> cell.left == region.left * cols
            &&& col == cols - 1 ==> cell.right == region.right * cols
            &&& row == 0 ==> cell.bottom == region.bottom * rows
            &&& row == rows - 1 ==> cell.top == region.top * rows
            &&& -0x4000_0000_0000_0000 <= region.left * cols
            &&& region.right * cols <= 0x4000_0000_0000_0000
            &&& -0x4000_0000_0000_0000 <= region.bottom * rows
            &&& region.top * rows <= 0x4000_0000_0000_0000
        }),
{
    let w = region.spec_w();
    let h = region.spec_h();
    let l = region.left as int;
    let r = region.right as int;
    let b = region.bottom as int;
    let t = region.top as int;
    lemma_product_bound(l, cols, 0x8000_0000, 0x8000_0000);
    lemma_product_bound(r, cols, 0x8000_0000, 0x8000_0000);
    lemma_product_bound(b, rows, 0x8000_0000, 0x8000_0000);
    lemma_product_bound(t, rows, 0x8000_0000, 0x8000_0000);
    assert(0x8000_0000int * 0x8000_0000int == 0x4000_0000_0000_0000int);
    assert(0 <= col * w) by (nonlinear_arith)
        requires
            0 <= col,
            w >= 0,
    ;
    assert((col + 1) * w == col * w + w) by (nonlinear_arith);
    assert((col + 1) * w <= cols * w) by (nonlinear_arith)
        requires
            col + 1 <= cols,
            w >= 0,
    ;
    assert(l * cols + cols * w == r * cols) by (nonlinear_arith)
        requires
            w == r - l,
    ;
    assert(0 <= row * h) by (nonlinear_arith)
        requires
            0 <= row,
            h >= 0,
    ;
    assert((row + 1) * h == row * h + h) by (nonlinear_arith);
    assert((row + 1) * h <= rows * h) by (nonlinear_arith)
        requires
            row + 1 <= rows,
            h >= 0,
    ;
    assert(b * rows + rows * h == t * rows) by (nonlinear_arith)
        requires
            h == t - b,
    ;
    if col == cols - 1 {
        assert((col + 1) * w == cols * w);
    }
    if row == rows - 1 {
        assert((row + 1) * h == rows * h);
    }
    if col == 0 {
        assert(col * w == 0) by (nonlinear_arith)
            requires
                col == 0,
        ;
    }
    if row == 0 {
        assert(row * h == 0) by (nonlinear_arith)
            requires
                row == 0,
        ;
    }
}

/// The gap that is applied is not negative, never more than was asked for,
/// and twice the gap is less than the width and the height of a cell where
/// the region has a positive width and height.
pub proof fn lemma_gap_fits(region: Rect, rows: int, cols: int, gap: int)
    requires
        region.wf(),
        rows >= 1,
        cols >= 1,
    ensures
        ({
            let g = spec_gap(region, rows, cols, gap);
            &&& 0 <= g
            &&& gap >= 0 ==> g <= gap
            &&& 0 <= g * cols
            &&& 0 <= g * rows
            &&& 2 * (g * cols) <= region.spec_w()
            &&& 2 * (g * rows) <= region.spec_h()
            &&& region.spec_w() >= 1 && region.spec_h() >= 1 ==> 2 * (g * cols) < region.spec_w() && 2
                * (g * rows) < region.spec_h()
        }),
{
    let w = region.spec_w();
    let h = region.spec_h();
    let g = spec_gap(region, rows, cols, gap);
    let cw = spec_ceil_div(w, cols);
    let ch = spec_ceil_div(h, rows);
    vstd::arithmetic::div_mod::lemma_fundamental_div_mod(w + cols - 1, cols);
    vstd::arithmetic::div_mod::lemma_mod_bound(w + cols - 1, cols);
    vstd::arithmetic::div_mod::lemma_fundamental_div_mod(h + rows - 1, rows);
    vstd::arithmetic::div_mod::lemma_mod_bound(h + rows - 1, rows);
    assert(0 <= g * cols && (2 * g <= cw - 1 ==> 2 * (g * cols) <= w - 1)) by (nonlinear_arith)
        requires
            g >= 0,
            cols >= 1,
            w + cols - 1 == cols * cw + (w + cols - 1) % cols,
            0 <= (w + cols - 1) % cols < cols,
    ;
    assert(0 <= g * rows && (2 * g <= ch - 1 ==> 2 * (g * rows) <= h - 1)) by (nonlinear_arith)
        requires
            g >= 0,
            rows >= 1,
            h + rows - 1 == rows * ch + (h + rows - 1) % rows,
            0 <= (h + rows - 1) % rows < rows,
    ;
}

} // verus!
