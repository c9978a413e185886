//! Generation of the grid layout.
//!
//! Every cell of the grid holds a shape kind. In each row, runs of
//! neighbouring squares are merged into one item; then every item is shrunk
//! by the gap.

use crate::geom::{GridRect, Rect};
use crate::grid::{
    canvas_has_area, clamp_margin, lemma_cell_edges, lemma_gap_fits, lemma_region_within_canvas,
    spec_cell, spec_gap, spec_region,
};
use crate::merge::{
    evenly_spaced, in_band, left_to_right, lemma_merge_row_keeps_band,
    lemma_merge_row_keeps_touch, lemma_merge_row_len, lemma_merged_squares_are_apart, merge_row,
    row_in_band, space_after, spec_merge_row, squares_apart, squares_meet,
};
use crate::model::{LayoutItem, Shapes};
use crate::rng::random_below;
use vstd::prelude::*;

verus! {

/// How many of the draws for a cell give a square, next to one for a circle
/// and one for a triangle.
pub const DEFAULT_SQUARE_WEIGHT: u32 = 8;

/// The kind in column `col` of a row of kinds; `Unset` beyond its end.
pub open spec fn kind_at(kinds: Seq<Shapes>, col: int) -> Shapes {
    if 0 <= col < kinds.len() {
        kinds[col]
    } else {
        Shapes::Unset
    }
}

/// Row `row` of a grid of kinds; empty beyond its end.
pub open spec fn kinds_row(kinds: Seq<Seq<Shapes>>, row: int) -> Seq<Shapes> {
    if 0 <= row < kinds.len() {
        kinds[row]
    } else {
        Seq::empty()
    }
}

/// The cells of one row of the grid before merging, left to right.
pub open spec fn spec_raw_row(region: Rect, rows: int, cols: int, row: int, kinds: Seq<Shapes>) -> Seq<
    LayoutItem,
> {
    Seq::new(
        cols as nat,
        |col: int|
            LayoutItem {
                shape: kind_at(kinds, col),
                dimensions: spec_cell(region, rows, cols, row, col),
            },
    )
}

/// An item with its rectangle shrunk by `gap` units.
pub open spec fn spec_pad_item(item: LayoutItem, gap: int) -> LayoutItem {
    LayoutItem { shape: item.shape, dimensions: item.dimensions.spec_pad(gap) }
}

/// A row with every item shrunk by `gap` units.
pub open spec fn spec_pad_row(items: Seq<LayoutItem>, gap: int) -> Seq<LayoutItem> {
    Seq::new(items.len(), |k: int| spec_pad_item(items[k], gap))
}

/// Row `row` of the layout, for the given kinds of its cells.
pub open spec fn spec_layout_row(
    canvas: Rect,
    page_padding: int,
    rows: int,
    cols: int,
    gap: int,
    row: int,
    kinds: Seq<Shapes>,
) -> Seq<LayoutItem> {
    let region = spec_region(canvas, page_padding);
    spec_pad_row(
        spec_merge_row(spec_raw_row(region, rows, cols, row, kinds)),
        spec_gap(region, rows, cols, gap),
    )
}

/// Whether a layout can be made at all: the grid has at least one row and
/// one column and the canvas is not inverted.
pub open spec fn layout_possible(canvas: Rect, rows: int, cols: int) -> bool {
    rows >= 1 && cols >= 1 && canvas.wf()
}

/// The layout for the given kinds of its cells, bottom row first. It is
/// empty where no layout can be made.
pub open spec fn spec_layout(
    canvas: Rect,
    page_padding: int,
    rows: int,
    cols: int,
    gap: int,
    kinds: Seq<Seq<Shapes>>,
) -> Seq<Seq<LayoutItem>> {
    if layout_possible(canvas, rows, cols) {
        Seq::new(
            rows as nat,
            |row: int|
                spec_layout_row(canvas, page_padding, rows, cols, gap, row, kinds_row(kinds, row)),
        )
    } else {
        Seq::empty()
    }
}

/// The rows that a layout holds.
pub open spec fn layout_view(layout: Vec<Vec<LayoutItem>>) -> Seq<Seq<LayoutItem>> {
    layout@.map_values(|row: Vec<LayoutItem>| row@)
}

/// The rows that a grid of kinds holds.
pub open spec fn kinds_view(kinds: Vec<Vec<Shapes>>) -> Seq<Seq<Shapes>> {
    kinds@.map_values(|row: Vec<Shapes>| row@)
}

/// Whether `kinds` is a full grid of drawn kinds: `rows` rows of `cols`
/// kinds, none of them `Unset`.
pub open spec fn is_drawn_grid(kinds: Seq<Seq<Shapes>>, rows: int, cols: int) -> bool {
    &&& kinds.len() == rows
    &&& forall|row: int| 0 <= row < rows ==> (#[trigger] kinds[row]).len() == cols
    &&& forall|row: int, col: int|
        0 <= row < rows && 0 <= col < cols ==> #[trigger] kinds[row][col] != Shapes::Unset
}

/// Whether a row of a layout is in order: it holds at least one item, and
/// every item is well formed and lies within the canvas; with `positive`,
/// every item has a positive width and height as well.
pub open spec fn row_in_order(items: Seq<LayoutItem>, canvas: Rect, positive: bool) -> bool {
    &&& 1 <= items.len()
    &&& forall|k: int|
        0 <= k < items.len() ==> {
            let d = (#[trigger] items[k]).dimensions;
            &&& d.wf()
            &&& canvas.left * d.x_den <= d.left
            &&& d.right <= canvas.right * d.x_den
            &&& canvas.bottom * d.y_den <= d.bottom
            &&& d.top <= canvas.top * d.y_den
            &&& positive ==> d.spec_w() > 0 && d.spec_h() > 0
        }
}

/// Whether every row of a layout is in order.
pub open spec fn layout_in_order(layout: Seq<Seq<LayoutItem>>, canvas: Rect, positive: bool) -> bool {
    forall|row: int| 0 <= row < layout.len() ==> row_in_order(#[trigger] layout[row], canvas, positive)
}

/// The widths of the items of a row, each with a margin on either side,
/// added up.
pub open spec fn spec_row_span(items: Seq<LayoutItem>, margin: int) -> int
    decreases items.len(),
{
    if items.len() == 0 {
        0
    } else {
        spec_row_span(items.drop_last(), margin) + items.last().dimensions.spec_w() + 2 * margin
    }
}

/// Whether the items of row `row` fill their part of the region, but for the
/// gap `gap` around every item.
///
/// With `x` in `cols`-ths and `y` in `rows`-ths of a unit: the row holds
/// between one and `cols` items; the first begins a gap after the left edge
/// of the region, the last ends a gap before its right edge, and neighbours
/// are two gaps apart and never both squares; the widths of the items, each
/// with the gap on either side, add up to the width of the region; and every
/// item reaches from a gap above the lower edge of its row to a gap below its
/// upper edge, the row being the `rows`-th part of the region high.
pub open spec fn row_tiles(
    items: Seq<LayoutItem>,
    region: Rect,
    rows: int,
    cols: int,
    row: int,
    gap: int,
) -> bool {
    &&& 1 <= items.len() <= cols
    &&& items[0].dimensions.left == region.left * cols + gap * cols
    &&& items.last().dimensions.right == region.right * cols - gap * cols
    &&& evenly_spaced(items, 2 * (gap * cols))
    &&& squares_apart(items)
    &&& spec_row_span(items, gap * cols) == region.spec_w() * cols
    &&& forall|k: int|
        0 <= k < items.len() ==> {
            let d = (#[trigger] items[k]).dimensions;
            &&& d.x_den == cols
            &&& d.y_den == rows
            &&& d.bottom == region.bottom * rows + row * region.spec_h() + gap * rows
            &&& d.top == region.bottom * rows + row * region.spec_h() + region.spec_h() - gap * rows
            &&& row == 0 ==> d.bottom == region.bottom * rows + gap * rows
            &&& row == rows - 1 ==> d.top == region.top * rows - gap * rows
        }
}

/// Whether every row of a layout fills its part of the drawing region, but
/// for the gap that is applied.
pub open spec fn layout_tiles(
    layout: Seq<Seq<LayoutItem>>,
    canvas: Rect,
    page_padding: int,
    rows: int,
    cols: int,
    gap: int,
) -> bool {
    forall|row: int|
        0 <= row < layout.len() ==> row_tiles(
            #[trigger] layout[row],
            spec_region(canvas, page_padding),
            rows,
            cols,
            row,
            spec_gap(spec_region(canvas, page_padding), rows, cols, gap),
        )
}

/// A row of the grid before merging is laid out left to right within the
/// band of its row, one cell after the other without a space.
pub proof fn lemma_raw_row_in_band(region: Rect, rows: int, cols: int, row: int, kinds: Seq<Shapes>)
    requires
        region.wf(),
        1 <= rows <= i32::MAX,
        1 <= cols <= i32::MAX,
        0 <= row < rows,
    ensures
        ({
            let raw = spec_raw_row(region, rows, cols, row, kinds);
            let h = region.spec_h();
            &&& raw.len() == cols
            &&& left_to_right(raw)
            &&& evenly_spaced(raw, 0)
            &&& raw[0].dimensions.left == region.left * cols
            &&& raw.last().dimensions.right == region.right * cols
            &&& row_in_band(
                raw,
                region.left * cols,
                region.right * cols,
                region.bottom * rows + row * h,
                region.bottom * rows + row * h + h,
                region.spec_w(),
                cols,
                rows,
            )
        }),
{
    let raw = spec_raw_row(region, rows, cols, row, kinds);
    let w = region.spec_w();
    let h = region.spec_h();
    lemma_cell_edges(region, rows, cols, row, 0);
    lemma_cell_edges(region, rows, cols, row, cols - 1);
    assert forall|k: int| 0 <= k < raw.len() implies (#[trigger] raw[k]).dimensions.wf()
        && raw[k].dimensions.right == region.left * cols + k * w + w && raw[k].dimensions.left
        == region.left * cols + k * w && in_band(
        raw[k],
        region.left * cols,
        region.right * cols,
        region.bottom * rows + row * h,
        region.bottom * rows + row * h + h,
        w,
        cols,
        rows,
    ) by {
        lemma_cell_edges(region, rows, cols, row, k);
    }
    assert forall|j: int, k: int| 0 <= j <= k < raw.len() implies (
    #[trigger] raw[j]).dimensions.right <= (#[trigger] raw[k]).dimensions.right by {
        assert(j * w <= k * w) by (nonlinear_arith)
            requires
                0 <= j <= k,
                w >= 0,
        ;
    }
    assert forall|k: int| 0 <= k < raw.len() - 1 implies #[trigger] space_after(raw, k) == 0 by {
        assert(raw[k + 1].dimensions.left == region.left * cols + (k + 1) * w);
        assert((k + 1) * w == k * w + w) by (nonlinear_arith);
    }
}

/// The widths of a row of items that follow one another without a space add
/// up to the distance from the left edge of the first to the right edge of
/// the last.
pub proof fn lemma_span_of_touching_row(items: Seq<LayoutItem>)
    requires
        items.len() >= 1,
        evenly_spaced(items, 0),
    ensures
        spec_row_span(items, 0) == items.last().dimensions.right - items[0].dimensions.left,
    decreases items.len(),
{
    let n = items.len() as int;
    let head = items.drop_last();
    if n == 1 {
        assert(spec_row_span(head, 0) == 0);
    } else {
        assert forall|k: int| 0 <= k < head.len() - 1 implies #[trigger] space_after(head, k)
            == 0 by {
            assert(space_after(items, k) == 0);
        }
        lemma_span_of_touching_row(head);
        assert(space_after(items, n - 2) == 0);
    }
}

/// Shrinking every item of a row by a gap leaves the widths, each with the
/// gap on either side, as they were.
pub proof fn lemma_span_of_padded_row(items: Seq<LayoutItem>, gap: int, x_den: int)
    requires
        forall|k: int|
            0 <= k < items.len() ==> (#[trigger] items[k]).dimensions.x_den == x_den && items[k].dimensions.pad_fits(
                gap,
            ),
    ensures
        spec_row_span(spec_pad_row(items, gap), gap * x_den) == spec_row_span(items, 0),
    decreases items.len(),
{
    if items.len() > 0 {
        let head = items.drop_last();
        assert(spec_pad_row(items, gap).drop_last() =~= spec_pad_row(head, gap));
        lemma_span_of_padded_row(head, gap, x_den);
        assert(items.last().dimensions.pad_fits(gap));
    }
}

/// Every row of a layout is in order and fills its part of the region,
/// whatever the kinds of its cells: it holds between one and `cols` items,
/// no item is inverted or leaves the canvas, and where the canvas has a
/// positive width and height every item has.
pub proof fn lemma_layout_row_in_order(
    canvas: Rect,
    page_padding: int,
    rows: int,
    cols: int,
    gap: int,
    row: int,
    kinds: Seq<Shapes>,
)
    requires
        layout_possible(canvas, rows, cols),
        rows <= i32::MAX,
        cols <= i32::MAX,
        0 <= row < rows,
    ensures
        row_in_order(
            spec_layout_row(canvas, page_padding, rows, cols, gap, row, kinds),
            canvas,
            canvas_has_area(canvas),
        ),
        row_tiles(
            spec_layout_row(canvas, page_padding, rows, cols, gap, row, kinds),
            spec_region(canvas, page_padding),
            rows,
            cols,
            row,
            spec_gap(spec_region(canvas, page_padding), rows, cols, gap),
        ),
        ({
            let region = spec_region(canvas, page_padding);
            let merged = spec_merge_row(spec_raw_row(region, rows, cols, row, kinds));
            forall|k: int|
                0 <= k < merged.len() ==> (#[trigger] merged[k]).dimensions.pad_fits(
                    spec_gap(region, rows, cols, gap),
                )
        }),
{
    let region = spec_region(canvas, page_padding);
    let w = region.spec_w();
    let h = region.spec_h();
    let g = spec_gap(region, rows, cols, gap);
    let raw = spec_raw_row(region, rows, cols, row, kinds);
    let merged = spec_merge_row(raw);
    let items = spec_layout_row(canvas, page_padding, rows, cols, gap, row, kinds);
    let bottom = region.bottom * rows + row * h;
    lemma_region_within_canvas(canvas, page_padding);
    lemma_gap_fits(region, rows, cols, gap);
    lemma_cell_edges(region, rows, cols, row, 0);
    lemma_raw_row_in_band(region, rows, cols, row, kinds);
    lemma_merge_row_keeps_band(
        raw,
        region.left * cols,
        region.right * cols,
        bottom,
        bottom + h,
        w,
        cols,
        rows,
    );
    lemma_merge_row_keeps_touch(
        raw,
        region.left * cols,
        region.right * cols,
        bottom,
        bottom + h,
        w,
        cols,
        rows,
    );
    lemma_merge_row_len(raw);
    lemma_merged_squares_are_apart(raw);
    lemma_span_of_touching_row(merged);
    let margin = region.left - canvas.left;
    assert(region.left * cols == canvas.left * cols + margin * cols && region.right * cols
        == canvas.right * cols - margin * cols && margin * cols >= 0 && w * cols
        == region.right * cols - region.left * cols) by (nonlinear_arith)
        requires
            margin >= 0,
            cols >= 1,
            region.left == canvas.left + margin,
            region.right == canvas.right - margin,
            w == region.right - region.left,
    ;
    assert(region.bottom * rows == canvas.bottom * rows + margin * rows && region.top * rows
        == canvas.top * rows - margin * rows && margin * rows >= 0) by (nonlinear_arith)
        requires
            margin >= 0,
            rows >= 1,
            region.bottom == canvas.bottom + margin,
            region.top == canvas.top - margin,
    ;
    assert forall|k: int| 0 <= k < merged.len() implies (#[trigger] merged[k]).dimensions.pad_fits(
        g,
    ) && merged[k].dimensions.x_den == cols by {
        assert(in_band(
            merged[k],
            region.left * cols,
            region.right * cols,
            bottom,
            bottom + h,
            w,
            cols,
            rows,
        ));
    }
    lemma_span_of_padded_row(merged, g, cols);
    assert(items.len() == merged.len());
    assert forall|k: int| 0 <= k < items.len() implies {
        let d = (#[trigger] items[k]).dimensions;
        &&& d.wf()
        &&& canvas.left * d.x_den <= d.left
        &&& d.right <= canvas.right * d.x_den
        &&& canvas.bottom * d.y_den <= d.bottom
        &&& d.top <= canvas.top * d.y_den
        &&& canvas_has_area(canvas) ==> d.spec_w() > 0 && d.spec_h() > 0
        &&& d.x_den == cols
        &&& d.y_den == rows
        &&& d.bottom == bottom + g * rows
        &&& d.top == bottom + h - g * rows
        &&& d.left == merged[k].dimensions.left + g * cols
        &&& d.right == merged[k].dimensions.right - g * cols
    } by {
        assert(in_band(
            merged[k],
            region.left * cols,
            region.right * cols,
            bottom,
            bottom + h,
            w,
            cols,
            rows,
        ));
        assert(items[k] == spec_pad_item(merged[k], g));
    }
    assert forall|k: int| 0 <= k < items.len() - 1 implies !#[trigger] squares_meet(items, k) by {
        assert(!squares_meet(merged, k));
    }
    assert forall|k: int| 0 <= k < items.len() - 1 implies #[trigger] space_after(items, k) == 2
        * (g * cols) by {
        assert(space_after(merged, k) == 0);
        assert(items[k].dimensions.right == merged[k].dimensions.right - g * cols);
        assert(items[k + 1].dimensions.left == merged[k + 1].dimensions.left + g * cols);
    }
}

/// The cells of row `row` of the grid, left to right, before merging.
fn grid_row(region: Rect, rows: i32, cols: i32, row: i32, kinds: &Vec<Vec<Shapes>>) -> (cells: Vec<
    LayoutItem,
>)
    requires
        region.wf(),
        rows >= 1,
        cols >= 1,
        0 <= row < rows,
    ensures
        cells@ == spec_raw_row(
            region,
            rows as int,
            cols as int,
            row as int,
            kinds_row(kinds_view(*kinds), row as int),
        ),
{
    let ghost kinds_here = kinds_row(kinds_view(*kinds), row as int);
    let w: i64 = region.w();
    let h: i64 = region.h();
    proof {
        lemma_cell_edges(region, rows as int, cols as int, row as int, 0);
    }
    let low: i64 = region.bottom as i64 * rows as i64;
    let bottom: i64 = low + row as i64 * h;
    let top: i64 = bottom + h;
    let start: i64 = region.left as i64 * cols as i64;
    let mut cells: Vec<LayoutItem> = Vec::new();
    let mut col: i32 = 0;
    while col < cols
        invariant
            region.wf(),
            rows >= 1,
            cols >= 1,
            0 <= row < rows,
            0 <= col <= cols,
            w == region.spec_w(),
            h == region.spec_h(),
            start == region.left * cols,
            bottom == region.bottom * rows + row * h,
            top == bottom + h,
            kinds_here == kinds_row(kinds_view(*kinds), row as int),
            cells@.len() == col,
            forall|c: int|
                0 <= c < col ==> #[trigger] cells@[c] == spec_raw_row(
                    region,
                    rows as int,
                    cols as int,
                    row as int,
                    kinds_here,
                )[c],
        decreases cols - col,
    {
        proof {
            lemma_cell_edges(region, rows as int, cols as int, row as int, col as int);
        }
        let left: i64 = start + col as i64 * w;
        let right: i64 = left + w;
        let shape = if (row as usize) < kinds.len() && (col as usize) < kinds[row as usize].len() {
            kinds[row as usize][col as usize]
        } else {
            Shapes::Unset
        };
        let cell = LayoutItem {
            shape,
            dimensions: GridRect { left, right, bottom, top, x_den: cols, y_den: rows },
        };
        cells.push(cell);
        col += 1;
    }
    assert(cells@ =~= spec_raw_row(region, rows as int, cols as int, row as int, kinds_here));
    cells
}

/// Every item of a row, shrunk by `gap` units.
fn pad_row(items: &Vec<LayoutItem>, gap: i32) -> (padded: Vec<LayoutItem>)
    requires
        forall|k: int|
            0 <= k < items@.len() ==> (#[trigger] items@[k]).dimensions.pad_fits(gap as int),
    ensures
        padded@ == spec_pad_row(items@, gap as int),
{
    let mut padded: Vec<LayoutItem> = Vec::new();
    let n = items.len();
    let mut k: usize = 0;
    while k < n
        invariant
            n == items@.len(),
            k <= n,
            forall|j: int|
                0 <= j < items@.len() ==> (#[trigger] items@[j]).dimensions.pad_fits(gap as int),
            padded@.len() == k,
            forall|j: int| 0 <= j < k ==> #[trigger] padded@[j] == spec_pad_item(items@[j], gap as int),
        decreases n - k,
    {
        let item = items[k];
        padded.push(LayoutItem { shape: item.shape, dimensions: item.dimensions.pad(gap) });
        k += 1;
    }
    assert(padded@ =~= spec_pad_row(items@, gap as int));
    padded
}

/// Lays out the canvas for the given kinds of its cells.
///
/// `kinds[row][col]` is the kind of the cell in that row and column, row 0
/// at the bottom; a cell that `kinds` does not reach is `Unset`. The page
/// padding and the gap are clamped: a negative one counts as zero, and one
/// that would leave the region or an item without width or height is cut to
/// the largest that does not. With no row, no column or an inverted canvas
/// the layout is empty.
///
/// Otherwise the layout has `rows` rows of between one and `cols` items;
/// merging only lowers the number of items of a row. The rectangles of the
/// items have `x` in `cols`-ths and `y` in `rows`-ths of a unit. Every row
/// fills its part of the drawing region but for the gap (see
/// [`row_tiles`]). No item is inverted or leaves the canvas, and where the
/// canvas has a positive width and height every item has.
pub fn layout_with_shapes(
    canvas: Rect,
    page_padding: i32,
    rows: i32,
    cols: i32,
    gap: i32,
    kinds: &Vec<Vec<Shapes>>,
) -> (layout: Vec<Vec<LayoutItem>>)
    ensures
        layout_view(layout) == spec_layout(
            canvas,
            page_padding as int,
            rows as int,
            cols as int,
            gap as int,
            kinds_view(*kinds),
        ),
        layout_possible(canvas, rows as int, cols as int) ==> layout@.len() == rows,
        !layout_possible(canvas, rows as int, cols as int) ==> layout@.len() == 0,
        layout_in_order(layout_view(layout), canvas, canvas_has_area(canvas)),
        layout_tiles(
            layout_view(layout),
            canvas,
            page_padding as int,
            rows as int,
            cols as int,
            gap as int,
        ),
{
    let mut layout: Vec<Vec<LayoutItem>> = Vec::new();
    if rows < 1 || cols < 1 || canvas.left > canvas.right || canvas.bottom > canvas.top {
        assert(layout_view(layout) =~= Seq::empty());
        return layout;
    }
    proof {
        lemma_region_within_canvas(canvas, page_padding as int);
    }
    let region = canvas.pad(clamp_margin(page_padding, canvas.w(), canvas.h()));
    let cell_w: i64 = (region.w() + cols as i64 - 1) / (cols as i64);
    let cell_h: i64 = (region.h() + rows as i64 - 1) / (rows as i64);
    let applied_gap = clamp_margin(gap, cell_w, cell_h);
    let ghost all_kinds = kinds_view(*kinds);
    let ghost positive = canvas_has_area(canvas);
    let mut row: i32 = 0;
    assert(layout_view(layout) =~= Seq::empty());
    while row < rows
        invariant
            layout_possible(canvas, rows as int, cols as int),
            0 <= row <= rows,
            region == spec_region(canvas, page_padding as int),
            region.wf(),
            applied_gap == spec_gap(region, rows as int, cols as int, gap as int),
            all_kinds == kinds_view(*kinds),
            positive == canvas_has_area(canvas),
            layout@.len() == row,
            forall|i: int|
                0 <= i < row ==> #[trigger] layout_view(layout)[i] == spec_layout_row(
                    canvas,
                    page_padding as int,
                    rows as int,
                    cols as int,
                    gap as int,
                    i,
                    kinds_row(all_kinds, i),
                ),
            layout_in_order(layout_view(layout), canvas, positive),
            layout_tiles(
                layout_view(layout),
                canvas,
                page_padding as int,
                rows as int,
                cols as int,
                gap as int,
            ),
        decreases rows - row,
    {
        let ghost before = layout_view(layout);
        let cells = grid_row(region, rows, cols, row, kinds);
        let merged = merge_row(&cells);
        proof {
            lemma_layout_row_in_order(
                canvas,
                page_padding as int,
                rows as int,
                cols as int,
                gap as int,
                row as int,
                kinds_row(all_kinds, row as int),
            );
        }
        let padded = pad_row(&merged, applied_gap);
        layout.push(padded);
        proof {
            assert(layout_view(layout) =~= before.push(padded@));
            assert forall|i: int| 0 <= i < layout_view(layout).len() implies row_in_order(
                #[trigger] layout_view(layout)[i],
                canvas,
                positive,
            ) && row_tiles(
                layout_view(layout)[i],
                region,
                rows as int,
                cols as int,
                i,
                applied_gap as int,
            ) by {
                if i < row {
                    assert(layout_view(layout)[i] == before[i]);
                }
            }
        }
        row += 1;
    }
    assert(layout_view(layout) =~= spec_layout(
        canvas,
        page_padding as int,
        rows as int,
        cols as int,
        gap as int,
        all_kinds,
    ));
    layout
}

/// The kind that a draw stands for: 0 is a circle, 1 a triangle, and every
/// other draw a square.
pub open spec fn spec_shape_for_draw(draw: u32) -> Shapes {
    if draw == 0 {
        Shapes::Circle
    } else if draw == 1 {
        Shapes::Triangle
    } else {
        Shapes::Square
    }
}

/// The number of draws to choose from for a cell: one for a circle, one for
/// a triangle and `square_weight` for a square, as far as that fits.
pub open spec fn spec_draw_bound(square_weight: u32) -> u32 {
    if square_weight > u32::MAX - 2 {
        u32::MAX
    } else {
        (square_weight + 2) as u32
    }
}

/// Whether `kinds` can come out of drawing every cell of a grid of `rows`
/// by `cols` cells, with `square_weight` draws for a square.
pub open spec fn is_drawn_with(kinds: Seq<Seq<Shapes>>, rows: int, cols: int, square_weight: u32) -> bool {
    &&& is_drawn_grid(kinds, rows, cols)
    &&& square_weight == 0 ==> forall|row: int, col: int|
        0 <= row < rows && 0 <= col < cols ==> #[trigger] kinds[row][col] != Shapes::Square
}

/// Whether `layout` is a layout of the canvas for some drawing of the kinds
/// of its cells.
pub open spec fn is_generated_layout(
    layout: Seq<Seq<LayoutItem>>,
    canvas: Rect,
    page_padding: int,
    rows: int,
    cols: int,
    gap: int,
    square_weight: u32,
) -> bool {
    exists|kinds: Seq<Seq<Shapes>>|
        is_drawn_with(kinds, rows, cols, square_weight) && layout == #[trigger] spec_layout(
            canvas,
            page_padding,
            rows,
            cols,
            gap,
            kinds,
        )
}

/// The kind that a draw stands for.
pub fn shape_for_draw(draw: u32) -> (kind: Shapes)
    ensures
        kind == spec_shape_for_draw(draw),
{
    match draw {
        0 => Shapes::Circle,
        1 => Shapes::Triangle,
        _ => Shapes::Square,
    }
}

/// Draws the kind of one cell at random: a circle, a triangle or a square,
/// the square `square_weight` times as likely as either of the others.
///
/// The kind is the one that [`shape_for_draw`] gives for a draw below
/// `square_weight + 2`. It is never `Unset`, and no square with a weight of
/// zero.
pub fn get_rnd_shape(square_weight: u32) -> (kind: Shapes)
    ensures
        exists|draw: u32|
            draw < spec_draw_bound(square_weight) && kind == #[trigger] spec_shape_for_draw(draw),
        kind != Shapes::Unset,
        square_weight == 0 ==> kind != Shapes::Square,
{
    let bound = if square_weight > u32::MAX - 2 {
        u32::MAX
    } else {
        square_weight + 2
    };
    let draw = random_below(bound);
    let kind = shape_for_draw(draw);
    kind
}

/// Draws a kind for every cell of a grid of `rows` by `cols` cells.
fn draw_kinds(rows: i32, cols: i32, square_weight: u32) -> (kinds: Vec<Vec<Shapes>>)
    requires
        rows >= 1,
        cols >= 1,
    ensures
        is_drawn_with(kinds_view(kinds), rows as int, cols as int, square_weight),
{
    let mut kinds: Vec<Vec<Shapes>> = Vec::new();
    let mut row: i32 = 0;
    while row < rows
        invariant
            0 <= row <= rows,
            cols >= 1,
            kinds@.len() == row,
            forall|i: int| 0 <= i < row ==> (#[trigger] kinds@[i])@.len() == cols,
            forall|i: int, j: int|
                0 <= i < row && 0 <= j < cols ==> #[trigger] kinds@[i]@[j] != Shapes::Unset && (
                square_weight == 0 ==> kinds@[i]@[j] != Shapes::Square),
        decreases rows - row,
    {
        let mut line: Vec<Shapes> = Vec::new();
        let mut col: i32 = 0;
        while col < cols
            invariant
                0 <= col <= cols,
                line@.len() == col,
                forall|j: int|
                    0 <= j < col ==> #[trigger] line@[j] != Shapes::Unset && (square_weight == 0
                        ==> line@[j] != Shapes::Square),
            decreases cols - col,
        {
            line.push(get_rnd_shape(square_weight));
            col += 1;
        }
        kinds.push(line);
        row += 1;
    }
    kinds
}

/// Generates a layout of the canvas with a kind drawn at random for every
/// cell, a square `square_weight` times as likely as a circle or a triangle.
///
/// The result is what [`layout_with_shapes`] gives for some grid of `rows`
/// by `cols` kinds, none of them `Unset`. Whatever is drawn, the layout is
/// empty with no row, no column or an inverted canvas; otherwise it has
/// `rows` rows of between one and `cols` items, no item is inverted or
/// leaves the canvas, every row fills its part of the drawing region but for
/// the gap, and where the canvas has a positive width and height every item
/// has.
pub fn generate_layout_weighted(
    canvas: Rect,
    page_padding: i32,
    rows: i32,
    cols: i32,
    gap: i32,
    square_weight: u32,
) -> (layout: Vec<Vec<LayoutItem>>)
    ensures
        layout_possible(canvas, rows as int, cols as int) ==> is_generated_layout(
            layout_view(layout),
            canvas,
            page_padding as int,
            rows as int,
            cols as int,
            gap as int,
            square_weight,
        ),
        layout_possible(canvas, rows as int, cols as int) ==> layout@.len() == rows,
        !layout_possible(canvas, rows as int, cols as int) ==> layout@.len() == 0,
        layout_in_order(layout_view(layout), canvas, canvas_has_area(canvas)),
        layout_tiles(
            layout_view(layout),
            canvas,
            page_padding as int,
            rows as int,
            cols as int,
            gap as int,
        ),
{
    if rows < 1 || cols < 1 {
        let layout: Vec<Vec<LayoutItem>> = Vec::new();
        return layout;
    }
    let kinds = draw_kinds(rows, cols, square_weight);
    layout_with_shapes(canvas, page_padding, rows, cols, gap, &kinds)
}

/// Generates a layout of the canvas with a kind drawn at random for every
/// cell, with the default weight of squares.
///
/// See [`generate_layout_weighted`], of which this is the case
/// `DEFAULT_SQUARE_WEIGHT`.
pub fn generate_layout(canvas: Rect, page_padding: i32, rows: i32, cols: i32, gap: i32) -> (layout: Vec<
    Vec<LayoutItem>,
>)
    ensures
        layout_possible(canvas, rows as int, cols as int) ==> is_generated_layout(
            layout_view(layout),
            canvas,
            page_padding as int,
            rows as int,
            cols as int,
            gap as int,
            DEFAULT_SQUARE_WEIGHT,
        ),
        layout_possible(canvas, rows as int, cols as int) ==> layout@.len() == rows,
        !layout_possible(canvas, rows as int, cols as int) ==> layout@.len() == 0,
        layout_in_order(layout_view(layout), canvas, canvas_has_area(canvas)),
        layout_tiles(
            layout_view(layout),
            canvas,
            page_padding as int,
            rows as int,
            cols as int,
            gap as int,
        ),
{
    generate_layout_weighted(canvas, page_padding, rows, cols, gap, DEFAULT_SQUARE_WEIGHT)
}

} // verus!
