use grid_sketch::geom::{GridRect, Rect};
use grid_sketch::grid::clamp_margin;
use grid_sketch::layout::{
    generate_layout, generate_layout_weighted, get_rnd_shape, layout_with_shapes, shape_for_draw,
    DEFAULT_SQUARE_WEIGHT,
};
use grid_sketch::merge::merge_row;
use grid_sketch::model::{LayoutItem, Shapes};

fn rect(left: i32, right: i32, bottom: i32, top: i32) -> Rect {
    Rect { left, right, bottom, top }
}

fn item(shape: Shapes, left: i64, right: i64, bottom: i64, top: i64) -> LayoutItem {
    LayoutItem { shape, dimensions: GridRect { left, right, bottom, top, x_den: 1, y_den: 1 } }
}

/// An item of a grid of `cols` by `rows` cells: `x` in `cols`-ths, `y` in
/// `rows`-ths of a unit.
fn tile(shape: Shapes, cols: i32, rows: i32, left: i64, right: i64, bottom: i64, top: i64) -> LayoutItem {
    LayoutItem { shape, dimensions: GridRect { left, right, bottom, top, x_den: cols, y_den: rows } }
}

fn centred_canvas() -> Rect {
    rect(-300, 300, -400, 400)
}

#[test]
fn row_of_squares_merges_into_one_item() {
    let cells = vec![
        item(Shapes::Square, 0, 100, 0, 50),
        item(Shapes::Square, 100, 200, 0, 50),
        item(Shapes::Square, 200, 300, 0, 50),
    ];
    let merged = merge_row(&cells);
    assert_eq!(merged.len(), 1);
    assert_eq!(merged[0].shape, Shapes::Square);
    assert_eq!(merged[0].dimensions.left, 0);
    assert_eq!(merged[0].dimensions.right, 300);
    assert_eq!(merged[0].dimensions.w(), 300);
    assert_eq!(merged[0], item(Shapes::Square, 0, 300, 0, 50));
}

#[test]
fn squares_around_a_circle_are_not_merged() {
    let cells = vec![
        item(Shapes::Square, 0, 100, 0, 50),
        item(Shapes::Circle, 100, 200, 0, 50),
        item(Shapes::Square, 200, 300, 0, 50),
    ];
    let merged = merge_row(&cells);
    assert_eq!(merged, cells);
}

#[test]
fn row_without_squares_stays_as_it_is() {
    let cells = vec![
        item(Shapes::Circle, 0, 10, 0, 10),
        item(Shapes::Triangle, 10, 20, 0, 10),
        item(Shapes::Circle, 20, 30, 0, 10),
        item(Shapes::Unset, 30, 40, 0, 10),
    ];
    assert_eq!(merge_row(&cells), cells);
}

#[test]
fn runs_of_squares_merge_run_by_run() {
    let cells = vec![
        item(Shapes::Square, 0, 10, 0, 10),
        item(Shapes::Square, 10, 20, 0, 10),
        item(Shapes::Triangle, 20, 30, 0, 10),
        item(Shapes::Square, 30, 40, 0, 10),
        item(Shapes::Square, 40, 50, 0, 10),
        item(Shapes::Square, 50, 60, 0, 10),
        item(Shapes::Circle, 60, 70, 0, 10),
        item(Shapes::Square, 70, 80, 0, 10),
    ];
    let merged = merge_row(&cells);
    let expected = vec![
        item(Shapes::Square, 0, 20, 0, 10),
        item(Shapes::Triangle, 20, 30, 0, 10),
        item(Shapes::Square, 30, 60, 0, 10),
        item(Shapes::Circle, 60, 70, 0, 10),
        item(Shapes::Square, 70, 80, 0, 10),
    ];
    assert_eq!(merged, expected);
}

#[test]
fn empty_row_and_single_cell() {
    assert_eq!(merge_row(&Vec::new()), Vec::new());
    let one = vec![item(Shapes::Square, 0, 10, 0, 10)];
    assert_eq!(merge_row(&one), one);
    let other = vec![item(Shapes::Circle, 0, 10, 0, 10)];
    assert_eq!(merge_row(&other), other);
}

#[test]
fn merging_stretches_to_the_upper_right_corner() {
    let cells = vec![item(Shapes::Square, 0, 10, 0, 10), item(Shapes::Square, 10, 25, 2, 14)];
    assert_eq!(merge_row(&cells), vec![item(Shapes::Square, 0, 25, 0, 14)]);
}

#[test]
fn margin_is_clamped_to_the_size() {
    assert_eq!(clamp_margin(10, 100, 60), 10);
    assert_eq!(clamp_margin(29, 100, 60), 29);
    assert_eq!(clamp_margin(30, 100, 60), 29);
    assert_eq!(clamp_margin(1000, 100, 60), 29);
    assert_eq!(clamp_margin(1000, 61, 100), 30);
    assert_eq!(clamp_margin(-5, 100, 60), 0);
    assert_eq!(clamp_margin(0, 100, 60), 0);
    assert_eq!(clamp_margin(5, 2, 100), 0);
    assert_eq!(clamp_margin(5, 3, 100), 1);
    assert_eq!(clamp_margin(5, 1, 100), 0);
    assert_eq!(clamp_margin(5, 0, 100), 0);
    assert_eq!(clamp_margin(5, 100, -3), 0);
    assert_eq!(clamp_margin(i32::MAX, 4294967295, 4294967295), i32::MAX);
}

#[test]
fn two_by_two_grid_without_squares() {
    let kinds = vec![
        vec![Shapes::Circle, Shapes::Triangle],
        vec![Shapes::Triangle, Shapes::Circle],
    ];
    let layout = layout_with_shapes(centred_canvas(), 0, 2, 2, 0, &kinds);
    let expected = vec![
        vec![
            tile(Shapes::Circle, 2, 2, -600, 0, -800, 0),
            tile(Shapes::Triangle, 2, 2, 0, 600, -800, 0),
        ],
        vec![
            tile(Shapes::Triangle, 2, 2, -600, 0, 0, 800),
            tile(Shapes::Circle, 2, 2, 0, 600, 0, 800),
        ],
    ];
    assert_eq!(layout, expected);
    let centres = [[(-150, -200), (150, -200)], [(-150, 200), (150, 200)]];
    for (i, row) in layout.iter().enumerate() {
        for (j, it) in row.iter().enumerate() {
            let d = it.dimensions;
            // 300 by 400 units
            assert_eq!(d.w(), 300 * d.x_den as i128);
            assert_eq!(d.h(), 400 * d.y_den as i128);
            assert_eq!(d.center_x2(), 2 * centres[i][j].0 * d.x_den as i128);
            assert_eq!(d.center_y2(), 2 * centres[i][j].1 * d.y_den as i128);
        }
    }
}

#[test]
fn two_by_two_grid_of_squares_merges_each_row() {
    let kinds = vec![vec![Shapes::Square, Shapes::Square], vec![Shapes::Square, Shapes::Square]];
    let layout = layout_with_shapes(centred_canvas(), 0, 2, 2, 0, &kinds);
    let expected = vec![
        vec![tile(Shapes::Square, 2, 2, -600, 600, -800, 0)],
        vec![tile(Shapes::Square, 2, 2, -600, 600, 0, 800)],
    ];
    assert_eq!(layout, expected);
}

#[test]
fn one_by_three_row_of_squares_is_one_item_of_width_300() {
    let kinds = vec![vec![Shapes::Square, Shapes::Square, Shapes::Square]];
    let layout = layout_with_shapes(rect(0, 300, 0, 80), 0, 1, 3, 0, &kinds);
    assert_eq!(layout.len(), 1);
    assert_eq!(layout[0].len(), 1);
    let d = layout[0][0].dimensions;
    assert_eq!(d.w(), 300 * d.x_den as i128);
    assert_eq!(layout[0][0], tile(Shapes::Square, 3, 1, 0, 900, 0, 80));
}

#[test]
fn padding_and_gap_are_applied() {
    let kinds = vec![vec![Shapes::Circle, Shapes::Square, Shapes::Square]];
    let layout = layout_with_shapes(rect(0, 320, 0, 120), 10, 1, 3, 5, &kinds);
    let expected = vec![vec![
        tile(Shapes::Circle, 3, 1, 45, 315, 15, 105),
        tile(Shapes::Square, 3, 1, 345, 915, 15, 105),
    ]];
    assert_eq!(layout, expected);
}

#[test]
fn cells_fill_the_region_whatever_the_number_of_columns() {
    let kinds = vec![vec![Shapes::Circle, Shapes::Circle, Shapes::Circle]];
    let layout = layout_with_shapes(rect(0, 100, 0, 10), 0, 1, 3, 0, &kinds);
    let expected = vec![vec![
        tile(Shapes::Circle, 3, 1, 0, 100, 0, 10),
        tile(Shapes::Circle, 3, 1, 100, 200, 0, 10),
        tile(Shapes::Circle, 3, 1, 200, 300, 0, 10),
    ]];
    assert_eq!(layout, expected);
}

#[test]
fn default_sketch_ends_at_the_edges_of_the_region() {
    let canvas = rect(-225, 225, -300, 300);
    for _ in 0..10 {
        let layout = generate_layout(canvas, 30, 15, 14, 0);
        assert_eq!(layout.len(), 15);
        for (i, row) in layout.iter().enumerate() {
            let first = row[0].dimensions;
            let last = row[row.len() - 1].dimensions;
            assert_eq!(first.x_den, 14);
            assert_eq!(first.y_den, 15);
            assert_eq!(first.left, -195 * 14);
            assert_eq!(last.right, 195 * 14);
            assert_eq!(first.bottom, -270 * 15 + 540 * i as i64);
            let mut widths: i128 = 0;
            for it in row {
                widths += it.dimensions.w();
            }
            assert_eq!(widths, 390 * 14);
        }
        assert_eq!(layout[14][0].dimensions.top, 270 * 15);
        assert_eq!(layout[0][0].dimensions.bottom, -270 * 15);
    }
}

#[test]
fn cells_without_a_kind_are_unset() {
    let kinds = vec![vec![Shapes::Circle]];
    let layout = layout_with_shapes(rect(0, 20, 0, 20), 0, 2, 2, 0, &kinds);
    let expected = vec![
        vec![tile(Shapes::Circle, 2, 2, 0, 20, 0, 20), tile(Shapes::Unset, 2, 2, 20, 40, 0, 20)],
        vec![tile(Shapes::Unset, 2, 2, 0, 20, 20, 40), tile(Shapes::Unset, 2, 2, 20, 40, 20, 40)],
    ];
    assert_eq!(layout, expected);
}

#[test]
fn gap_that_would_invert_a_cell_is_clamped() {
    let kinds = vec![vec![Shapes::Circle, Shapes::Circle]];
    let layout = layout_with_shapes(rect(0, 20, 0, 30), 0, 1, 2, 100, &kinds);
    let expected = vec![vec![
        tile(Shapes::Circle, 2, 1, 8, 12, 4, 26),
        tile(Shapes::Circle, 2, 1, 28, 32, 4, 26),
    ]];
    assert_eq!(layout, expected);
}

#[test]
fn page_padding_that_would_invert_the_canvas_is_clamped() {
    let kinds = vec![vec![Shapes::Triangle]];
    let layout = layout_with_shapes(rect(0, 21, 0, 40), 1000, 1, 1, 0, &kinds);
    assert_eq!(layout, vec![vec![tile(Shapes::Triangle, 1, 1, 10, 11, 10, 30)]]);
}

#[test]
fn negative_padding_and_gap_count_as_zero() {
    let kinds = vec![vec![Shapes::Triangle]];
    let layout = layout_with_shapes(rect(0, 20, 0, 40), -7, 1, 1, -3, &kinds);
    assert_eq!(layout, vec![vec![tile(Shapes::Triangle, 1, 1, 0, 20, 0, 40)]]);
}

#[test]
fn no_rows_or_columns_give_an_empty_layout() {
    let kinds = vec![vec![Shapes::Circle]];
    let empty: Vec<Vec<LayoutItem>> = Vec::new();
    assert_eq!(layout_with_shapes(centred_canvas(), 0, 0, 3, 0, &kinds), empty);
    assert_eq!(layout_with_shapes(centred_canvas(), 0, 3, 0, 0, &kinds), empty);
    assert_eq!(layout_with_shapes(centred_canvas(), 0, -1, 3, 0, &kinds), empty);
    assert_eq!(layout_with_shapes(centred_canvas(), 0, 3, -2, 0, &kinds), empty);
    assert_eq!(generate_layout(centred_canvas(), 30, 0, 14, 1), empty);
    assert_eq!(generate_layout(centred_canvas(), 30, 15, 0, 1), empty);
    assert_eq!(generate_layout(centred_canvas(), 30, -15, -1, 1), empty);
}

#[test]
fn inverted_canvas_gives_an_empty_layout() {
    let kinds = vec![vec![Shapes::Circle]];
    let empty: Vec<Vec<LayoutItem>> = Vec::new();
    assert_eq!(layout_with_shapes(rect(10, 0, 0, 10), 0, 1, 1, 0, &kinds), empty);
    assert_eq!(layout_with_shapes(rect(0, 10, 10, 0), 0, 1, 1, 0, &kinds), empty);
    assert_eq!(generate_layout(rect(10, 0, 0, 10), 0, 2, 2, 0), empty);
}

#[test]
fn canvas_narrower_than_the_grid_still_gives_cells_a_width() {
    let kinds = vec![vec![Shapes::Circle, Shapes::Circle, Shapes::Circle]];
    let layout = layout_with_shapes(rect(0, 2, 0, 10), 0, 1, 3, 4, &kinds);
    let expected = vec![vec![
        tile(Shapes::Circle, 3, 1, 0, 2, 0, 10),
        tile(Shapes::Circle, 3, 1, 2, 4, 0, 10),
        tile(Shapes::Circle, 3, 1, 4, 6, 0, 10),
    ]];
    assert_eq!(layout, expected);
}

#[test]
fn canvas_without_width_gives_items_without_width() {
    let kinds = vec![vec![Shapes::Circle, Shapes::Circle]];
    let layout = layout_with_shapes(rect(5, 5, 0, 10), 3, 1, 2, 4, &kinds);
    let expected = vec![vec![
        tile(Shapes::Circle, 2, 1, 10, 10, 0, 10),
        tile(Shapes::Circle, 2, 1, 10, 10, 0, 10),
    ]];
    assert_eq!(layout, expected);
}

#[test]
fn generated_layout_has_the_rows_and_at_most_the_columns() {
    let canvas = rect(-450, 450, -600, 600);
    for _ in 0..20 {
        let layout = generate_layout(canvas, 30, 15, 14, 1);
        assert_eq!(layout.len(), 15);
        for (i, row) in layout.iter().enumerate() {
            assert!(row.len() >= 1);
            assert!(row.len() <= 14);
            assert_eq!(row[0].dimensions.left, -420 * 14 + 14);
            assert_eq!(row[row.len() - 1].dimensions.right, 420 * 14 - 14);
            let mut covered: i128 = 0;
            for it in row {
                assert!(it.shape != Shapes::Unset);
                assert_eq!(it.dimensions.x_den, 14);
                assert_eq!(it.dimensions.y_den, 15);
                assert!(it.dimensions.w() > 0);
                assert_eq!(it.dimensions.h(), 1140 - 2 * 15);
                assert_eq!(it.dimensions.bottom, -570 * 15 + 1140 * (i as i64) + 15);
                covered += it.dimensions.w() + 2 * 14;
            }
            assert_eq!(covered, 840 * 14);
            for pair in row.windows(2) {
                assert_eq!(pair[0].dimensions.right + 2 * 14, pair[1].dimensions.left);
                assert!(!(pair[0].shape == Shapes::Square && pair[1].shape == Shapes::Square));
            }
        }
    }
}

#[test]
fn weight_zero_draws_no_square() {
    for _ in 0..200 {
        let kind = get_rnd_shape(0);
        assert!(kind == Shapes::Circle || kind == Shapes::Triangle);
    }
    let layout = generate_layout_weighted(rect(0, 100, 0, 100), 0, 4, 5, 0, 0);
    assert_eq!(layout.len(), 4);
    for row in &layout {
        assert_eq!(row.len(), 5);
        for it in row {
            assert!(it.shape == Shapes::Circle || it.shape == Shapes::Triangle);
        }
    }
}

#[test]
fn drawn_kinds_are_never_unset() {
    let mut seen_square = false;
    for _ in 0..500 {
        let kind = get_rnd_shape(DEFAULT_SQUARE_WEIGHT);
        assert!(kind != Shapes::Unset);
        seen_square = seen_square || kind == Shapes::Square;
    }
    assert!(seen_square);
    for _ in 0..50 {
        assert!(get_rnd_shape(u32::MAX) != Shapes::Unset);
    }
}

#[test]
fn kinds_of_draws() {
    assert_eq!(shape_for_draw(0), Shapes::Circle);
    assert_eq!(shape_for_draw(1), Shapes::Triangle);
    assert_eq!(shape_for_draw(2), Shapes::Square);
    assert_eq!(shape_for_draw(9), Shapes::Square);
    assert_eq!(shape_for_draw(u32::MAX), Shapes::Square);
    assert_eq!(DEFAULT_SQUARE_WEIGHT, 8);
}

#[test]
fn page_padding_leaves_a_region_with_an_area() {
    let kinds: Vec<Vec<Shapes>> = Vec::new();
    let layout = layout_with_shapes(rect(0, 100, 0, 100), 100, 15, 14, 30, &kinds);
    assert_eq!(layout.len(), 15);
    for (i, row) in layout.iter().enumerate() {
        assert_eq!(row.len(), 14);
        for (j, it) in row.iter().enumerate() {
            let left = 49 * 14 + 2 * j as i64;
            let bottom = 49 * 15 + 2 * i as i64;
            assert_eq!(*it, tile(Shapes::Unset, 14, 15, left, left + 2, bottom, bottom + 2));
        }
    }
}

#[test]
fn items_have_an_area_where_the_canvas_has() {
    for canvas in [rect(-50, 50, 0, 37), rect(0, 2, 0, 1), rect(7, 8, -3, 40)] {
        for padding in [0, 1, 10, 49, 50, 1000] {
            for gap in [0, 1, 5, 100] {
                let layout = generate_layout(canvas, padding, 7, 9, gap);
                assert_eq!(layout.len(), 7);
                for row in &layout {
                    assert!(row.len() >= 1 && row.len() <= 9);
                    for it in row {
                        let d = it.dimensions;
                        assert!(d.w() > 0);
                        assert!(d.h() > 0);
                        assert!(d.left >= canvas.left as i64 * 9);
                        assert!(d.right <= canvas.right as i64 * 9);
                        assert!(d.bottom >= canvas.bottom as i64 * 7);
                        assert!(d.top <= canvas.top as i64 * 7);
                    }
                }
            }
        }
    }
}
