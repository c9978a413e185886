//! Merging of neighbouring squares within a row.

use crate::model::{LayoutItem, Shapes};
use vstd::prelude::*;

verus! {

/// A run of squares grown by one more square: the rectangle of the run is
/// stretched to the upper right corner of the new cell.
pub open spec fn spec_merge_pair(run: LayoutItem, cell: LayoutItem) -> LayoutItem {
    LayoutItem {
        shape: cell.shape,
        dimensions: run.dimensions.spec_stretch_to_point(
            cell.dimensions.right,
            cell.dimensions.top,
        ),
    }
}

/// A row with every run of neighbouring squares merged into one item. A cell
/// that is no square, and a square without a square next to it, stay as they
/// are; the order of the row is kept.
pub open spec fn spec_merge_row(cells: Seq<LayoutItem>) -> Seq<LayoutItem>
    decreases cells.len(),
{
    if cells.len() == 0 {
        Seq::empty()
    } else {
        let before = spec_merge_row(cells.drop_last());
        let cell = cells.last();
        if cell.shape == Shapes::Square && cells.len() >= 2 && cells[cells.len() - 2].shape
            == Shapes::Square {
            before.drop_last().push(spec_merge_pair(before.last(), cell))
        } else {
            before.push(cell)
        }
    }
}

/// Whether the cells are well formed and laid out left to right: no right
/// edge lies to the left of the right edge of an earlier cell.
pub open spec fn left_to_right(cells: Seq<LayoutItem>) -> bool {
    &&& forall|k: int| 0 <= k < cells.len() ==> (#[trigger] cells[k]).dimensions.wf()
    &&& forall|j: int, k: int|
        0 <= j <= k < cells.len() ==> (#[trigger] cells[j]).dimensions.right <= (
        #[trigger] cells[k]).dimensions.right
}

/// Whether the cells at `k` and `k + 1` are both squares.
pub open spec fn squares_meet(cells: Seq<LayoutItem>, k: int) -> bool {
    cells[k].shape == Shapes::Square && cells[k + 1].shape == Shapes::Square
}

/// Merging never adds an item, and leaves at least one where there was one.
pub proof fn lemma_merge_row_len(cells: Seq<LayoutItem>)
    ensures
        spec_merge_row(cells).len() <= cells.len(),
        cells.len() >= 1 ==> spec_merge_row(cells).len() >= 1,
    decreases cells.len(),
{
    if cells.len() > 0 {
        lemma_merge_row_len(cells.drop_last());
    }
}

/// A row that consists of squares only, laid out left to right, merges into
/// exactly one item. It reaches from the left edge of the first cell to the
/// right edge of the last one.
pub proof fn lemma_all_squares_merge_to_one(cells: Seq<LayoutItem>)
    requires
        cells.len() >= 1,
        left_to_right(cells),
        forall|k: int| 0 <= k < cells.len() ==> (#[trigger] cells[k]).shape == Shapes::Square,
    ensures
        spec_merge_row(cells).len() == 1,
        spec_merge_row(cells)[0].shape == Shapes::Square,
        spec_merge_row(cells)[0].dimensions.left == cells[0].dimensions.left,
        spec_merge_row(cells)[0].dimensions.right == cells.last().dimensions.right,
        spec_merge_row(cells)[0].dimensions.wf(),
    decreases cells.len(),
{
    let n = cells.len() as int;
    if n > 1 {
        let head = cells.drop_last();
        lemma_all_squares_merge_to_one(head);
        // The run so far ends with the cell before the last, and the last
        // cell does not end to the left of it.
        let run = spec_merge_row(head)[0];
        assert(run.dimensions.right == cells[n - 2].dimensions.right);
        assert(spec_merge_row(cells) =~= seq![spec_merge_pair(run, cells[n - 1])]);
    } else {
        assert(spec_merge_row(cells.drop_last()) =~= Seq::<LayoutItem>::empty());
    }
}

/// A row in which no two neighbours are both squares is left as it is: in
/// particular a cell that is no square is never merged.
pub proof fn lemma_separated_cells_stay(cells: Seq<LayoutItem>)
    requires
        forall|k: int| 0 <= k < cells.len() - 1 ==> !#[trigger] squares_meet(cells, k),
    ensures
        spec_merge_row(cells) == cells,
    decreases cells.len(),
{
    let n = cells.len() as int;
    if n > 0 {
        let head = cells.drop_last();
        assert forall|k: int| 0 <= k < head.len() - 1 implies !#[trigger] squares_meet(
            head,
            k,
        ) by {
            assert(!squares_meet(cells, k));
        }
        lemma_separated_cells_stay(head);
        if n >= 2 {
            assert(!squares_meet(cells, n - 2));
        }
    }
}

/// Whether no two neighbours of a row are both squares.
pub open spec fn squares_apart(items: Seq<LayoutItem>) -> bool {
    forall|k: int| 0 <= k < items.len() - 1 ==> !#[trigger] squares_meet(items, k)
}

/// After merging, no two neighbours of a row are both squares, and the row
/// ends with the kind that it ended with before.
pub proof fn lemma_merged_squares_are_apart(cells: Seq<LayoutItem>)
    ensures
        squares_apart(spec_merge_row(cells)),
        cells.len() >= 1 ==> spec_merge_row(cells).len() >= 1 && spec_merge_row(cells).last().shape
            == cells.last().shape,
    decreases cells.len(),
{
    let n = cells.len() as int;
    if n > 0 {
        let head = cells.drop_last();
        lemma_merged_squares_are_apart(head);
        let before = spec_merge_row(head);
        let cell = cells[n - 1];
        let merged = spec_merge_row(cells);
        if cell.shape == Shapes::Square && n >= 2 && cells[n - 2].shape == Shapes::Square {
            assert(merged == before.drop_last().push(spec_merge_pair(before.last(), cell)));
            assert forall|k: int| 0 <= k < merged.len() - 1 implies !#[trigger] squares_meet(
                merged,
                k,
            ) by {
                assert(!squares_meet(before, k));
            }
        } else {
            assert(merged == before.push(cell));
            assert forall|k: int| 0 <= k < merged.len() - 1 implies !#[trigger] squares_meet(
                merged,
                k,
            ) by {
                if k < before.len() - 1 {
                    assert(!squares_meet(before, k));
                }
            }
        }
    }
}

/// Whether an item is well formed, spans exactly the band from `bottom` to
/// `top`, lies between `left` and `right`, is at least `min_w` wide and has
/// the given denominators.
pub open spec fn in_band(
    item: LayoutItem,
    left: int,
    right: int,
    bottom: int,
    top: int,
    min_w: int,
    x_den: int,
    y_den: int,
) -> bool {
    &&& item.dimensions.wf()
    &&& item.dimensions.bottom == bottom
    &&& item.dimensions.top == top
    &&& left <= item.dimensions.left
    &&& item.dimensions.right <= right
    &&& item.dimensions.spec_w() >= min_w
    &&& item.dimensions.x_den == x_den
    &&& item.dimensions.y_den == y_den
}

/// Whether every item of a row is in the band.
pub open spec fn row_in_band(
    items: Seq<LayoutItem>,
    left: int,
    right: int,
    bottom: int,
    top: int,
    min_w: int,
    x_den: int,
    y_den: int,
) -> bool {
    forall|k: int|
        0 <= k < items.len() ==> in_band(
            #[trigger] items[k],
            left,
            right,
            bottom,
            top,
            min_w,
            x_den,
            y_den,
        )
}

/// The space between the items at `k` and `k + 1`.
pub open spec fn space_after(items: Seq<LayoutItem>, k: int) -> int {
    items[k + 1].dimensions.left - items[k].dimensions.right
}

/// Whether the items follow one another with the space `space` between
/// neighbours.
pub open spec fn evenly_spaced(items: Seq<LayoutItem>, space: int) -> bool {
    forall|k: int| 0 <= k < items.len() - 1 ==> #[trigger] space_after(items, k) == space
}

/// Merging a row that is laid out left to right within a band keeps every
/// item within the band and at least as wide as the narrowest cell, and the
/// merged row ends where the row ends.
pub proof fn lemma_merge_row_keeps_band(
    cells: Seq<LayoutItem>,
    left: int,
    right: int,
    bottom: int,
    top: int,
    min_w: int,
    x_den: int,
    y_den: int,
)
    requires
        left_to_right(cells),
        row_in_band(cells, left, right, bottom, top, min_w, x_den, y_den),
    ensures
        row_in_band(spec_merge_row(cells), left, right, bottom, top, min_w, x_den, y_den),
        cells.len() >= 1 ==> spec_merge_row(cells).len() >= 1 && spec_merge_row(
            cells,
        ).last().dimensions.right == cells.last().dimensions.right,
    decreases cells.len(),
{
    let n = cells.len() as int;
    if n > 0 {
        let head = cells.drop_last();
        lemma_merge_row_keeps_band(head, left, right, bottom, top, min_w, x_den, y_den);
        let cell = cells[n - 1];
        if cell.shape == Shapes::Square && n >= 2 && cells[n - 2].shape == Shapes::Square {
            // The run so far ends with the cell before `cell`, so stretching
            // it to the corner of `cell` moves its right edge only.
            let run = spec_merge_row(head).last();
            assert(run.dimensions.right == cells[n - 2].dimensions.right);
            assert(in_band(spec_merge_pair(run, cell), left, right, bottom, top, min_w, x_den, y_den));
        }
    }
}

/// Merging a row of cells that follow one another without a space, within a
/// band, leaves no space either: the merged row begins where the row begins,
/// ends where it ends, and its items follow one another without a space.
pub proof fn lemma_merge_row_keeps_touch(
    cells: Seq<LayoutItem>,
    left: int,
    right: int,
    bottom: int,
    top: int,
    min_w: int,
    x_den: int,
    y_den: int,
)
    requires
        cells.len() >= 1,
        left_to_right(cells),
        row_in_band(cells, left, right, bottom, top, min_w, x_den, y_den),
        evenly_spaced(cells, 0),
    ensures
        spec_merge_row(cells).len() >= 1,
        evenly_spaced(spec_merge_row(cells), 0),
        spec_merge_row(cells)[0].dimensions.left == cells[0].dimensions.left,
        spec_merge_row(cells).last().dimensions.right == cells.last().dimensions.right,
    decreases cells.len(),
{
    let n = cells.len() as int;
    let head = cells.drop_last();
    let cell = cells[n - 1];
    let merged = spec_merge_row(cells);
    if n == 1 {
        assert(spec_merge_row(head) =~= Seq::<LayoutItem>::empty());
        assert(merged =~= seq![cell]);
    } else {
        assert forall|k: int| 0 <= k < head.len() - 1 implies #[trigger] space_after(head, k)
            == 0 by {
            assert(space_after(cells, k) == 0);
        }
        lemma_merge_row_keeps_touch(head, left, right, bottom, top, min_w, x_den, y_den);
        lemma_merge_row_keeps_band(head, left, right, bottom, top, min_w, x_den, y_den);
        let before = spec_merge_row(head);
        let run = before.last();
        assert(space_after(cells, n - 2) == 0);
        assert(run.dimensions.right == cell.dimensions.left);
        assert(in_band(run, left, right, bottom, top, min_w, x_den, y_den));
        assert(in_band(cell, left, right, bottom, top, min_w, x_den, y_den));
        if cell.shape == Shapes::Square && cells[n - 2].shape == Shapes::Square {
            let joined = spec_merge_pair(run, cell);
            assert(merged == before.drop_last().push(joined));
            assert(joined.dimensions.left == run.dimensions.left);
            assert forall|k: int| 0 <= k < merged.len() - 1 implies #[trigger] space_after(
                merged,
                k,
            ) == 0 by {
                assert(space_after(before, k) == 0);
            }
        } else {
            assert(merged == before.push(cell));
            assert forall|k: int| 0 <= k < merged.len() - 1 implies #[trigger] space_after(
                merged,
                k,
            ) == 0 by {
                if k < before.len() - 1 {
                    assert(space_after(before, k) == 0);
                }
            }
        }
    }
}

/// Merges every run of neighbouring squares of a row into one item.
///
/// The row is swept once from left to right. A square opens a run or joins
/// the run before it: the rectangle of the run is stretched to the upper
/// right corner of the square. Any other cell closes the run before it and is
/// passed on unchanged. The order of the row is kept, and a row that is not
/// empty stays so.
pub fn merge_row(cells: &Vec<LayoutItem>) -> (merged: Vec<LayoutItem>)
    ensures
        merged@ == spec_merge_row(cells@),
        merged@.len() <= cells@.len(),
        cells@.len() >= 1 ==> merged@.len() >= 1,
        squares_apart(merged@),
{
    let mut merged: Vec<LayoutItem> = Vec::new();
    let mut run: Option<LayoutItem> = None;
    let n = cells.len();
    let mut k: usize = 0;
    while k < n
        invariant
            n == cells@.len(),
            k <= n,
            run.is_some() <==> k > 0 && cells@[k - 1].shape == Shapes::Square,
            match run {
                Some(item) => merged@.push(item),
                None => merged@,
            } == spec_merge_row(cells@.take(k as int)),
        decreases n - k,
    {
        let cell = cells[k];
        proof {
            assert(cells@.take(k + 1).drop_last() =~= cells@.take(k as int));
        }
        match cell.shape {
            Shapes::Square => {
                match run {
                    Some(item) => {
                        let joined = LayoutItem {
                            shape: cell.shape,
                            dimensions: item.dimensions.stretch_to_point(
                                cell.dimensions.right,
                                cell.dimensions.top,
                            ),
                        };
                        run = Some(joined);
                    },
                    None => {
                        run = Some(cell);
                    },
                }
            },
            _ => {
                match run {
                    Some(item) => {
                        merged.push(item);
                    },
                    None => {},
                }
                merged.push(cell);
                run = None;
            },
        }
        k += 1;
    }
    proof {
        assert(cells@.take(n as int) =~= cells@);
        lemma_merge_row_len(cells@);
        lemma_merged_squares_are_apart(cells@);
    }
    match run {
        Some(item) => {
            merged.push(item);
        },
        None => {},
    }
    merged
}

} // verus!
