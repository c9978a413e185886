use grid_sketch::color::{neutral_tone, Rgba};
use grid_sketch::geom::{GridRect, HalfPoint};
use grid_sketch::model::{LayoutItem, Shapes};
use grid_sketch::render::{
    cell_style, color_for_draw, fill_style_for_draw, plan_shape, plan_sketch, seed_for_cell,
    shape_outline, style_for_draws, FillStyle, Outline, StrokeStyle, FILL_STYLE_DRAWS, SEED_STEP,
};

fn palette() -> Vec<String> {
    vec![
        String::from("#FF0000"),
        String::from("#00ff00"),
        String::from("#0000FF"),
        String::from("#102030"),
        String::from("#ffffff"),
    ]
}

fn palette_colors() -> Vec<Rgba> {
    vec![
        Rgba { r: 255, g: 0, b: 0, a: 255 },
        Rgba { r: 0, g: 255, b: 0, a: 255 },
        Rgba { r: 0, g: 0, b: 255, a: 255 },
        Rgba { r: 16, g: 32, b: 48, a: 255 },
        Rgba { r: 255, g: 255, b: 255, a: 255 },
    ]
}

fn point(x2: i128, y2: i128) -> HalfPoint {
    HalfPoint { x2, y2 }
}

#[test]
fn seeds_are_a_thousand_apart() {
    assert_eq!(SEED_STEP, 1000);
    assert_eq!(seed_for_cell(0), 0);
    assert_eq!(seed_for_cell(1), 1000);
    assert_eq!(seed_for_cell(3), 3000);
    assert_eq!(seed_for_cell(209), 209000);
    assert_eq!(seed_for_cell(4294967295), 4294967295000);
}

#[test]
fn seeds_wrap_around() {
    let index = usize::MAX;
    let expected = (((index as u128) * 1000) % (1u128 << 64)) as u64;
    assert_eq!(seed_for_cell(index), expected);
    assert_eq!(seed_for_cell(index), (index as u64).wrapping_mul(1000));
}

#[test]
fn fill_styles_of_draws() {
    assert_eq!(fill_style_for_draw(0), FillStyle::Dashed);
    assert_eq!(fill_style_for_draw(1), FillStyle::Dots);
    assert_eq!(fill_style_for_draw(2), FillStyle::Hachure);
    assert_eq!(fill_style_for_draw(3), FillStyle::CrossHatch);
    assert_eq!(fill_style_for_draw(4), FillStyle::ZigZagLine);
    assert_eq!(fill_style_for_draw(5), FillStyle::ZigZag);
    assert_eq!(fill_style_for_draw(99), FillStyle::ZigZag);
    assert_eq!(FILL_STYLE_DRAWS, 5);
}

fn bounds(left: i64, right: i64, bottom: i64, top: i64) -> GridRect {
    GridRect { left, right, bottom, top, x_den: 3, y_den: 2 }
}

#[test]
fn outline_of_a_square_fills_the_bounds() {
    let b = bounds(-10, 30, 5, 26);
    let expected = Outline::Rectangle {
        lower_left: point(-20, 10),
        upper_right: point(60, 52),
        x_den: 3,
        y_den: 2,
    };
    assert_eq!(shape_outline(Shapes::Square, b), expected);
    assert_eq!(shape_outline(Shapes::Unset, b), expected);
}

#[test]
fn outline_of_a_circle_is_the_ellipse_in_the_bounds() {
    let b = bounds(-10, 31, 5, 26);
    let expected = Outline::Ellipse { center: point(21, 31), rx2: 41, ry2: 21, x_den: 3, y_den: 2 };
    assert_eq!(shape_outline(Shapes::Circle, b), expected);
}

#[test]
fn outline_of_a_triangle_has_its_apex_above_the_middle() {
    let b = bounds(-10, 31, 5, 26);
    let expected = Outline::Triangle {
        apex: point(21, 52),
        base_left: point(-20, 10),
        base_right: point(62, 10),
        x_den: 3,
        y_den: 2,
    };
    assert_eq!(shape_outline(Shapes::Triangle, b), expected);
}

#[test]
fn outlines_at_the_ends_of_the_range() {
    let b = bounds(i64::MIN, i64::MAX, i64::MIN, i64::MAX);
    let expected = Outline::Ellipse {
        center: point(-1, -1),
        rx2: 18446744073709551615,
        ry2: 18446744073709551615,
        x_den: 3,
        y_den: 2,
    };
    assert_eq!(shape_outline(Shapes::Circle, b), expected);
    let square = Outline::Rectangle {
        lower_left: point(-18446744073709551616, -18446744073709551616),
        upper_right: point(18446744073709551614, 18446744073709551614),
        x_den: 3,
        y_den: 2,
    };
    assert_eq!(shape_outline(Shapes::Square, b), square);
}

#[test]
fn colour_of_a_draw_is_the_entry_or_neutral() {
    let p = palette();
    let colors = palette_colors();
    for i in 0..5 {
        assert_eq!(color_for_draw(&p, i as u32), colors[i]);
    }
    assert_eq!(color_for_draw(&p, 5), neutral_tone());
    assert_eq!(color_for_draw(&p, u32::MAX), neutral_tone());
    assert_eq!(color_for_draw(&Vec::new(), 0), neutral_tone());
    let odd = vec![String::from("teal"), String::from("what")];
    assert_eq!(color_for_draw(&odd, 0), Rgba { r: 0, g: 128, b: 128, a: 255 });
    assert_eq!(color_for_draw(&odd, 1), neutral_tone());
}

#[test]
fn style_of_given_draws() {
    let style = style_for_draws(7, &palette(), 3, 2);
    let expected = StrokeStyle {
        seed: 7000,
        fill_style: FillStyle::Hachure,
        fill_color: Rgba { r: 16, g: 32, b: 48, a: 255 },
    };
    assert_eq!(style, expected);
    assert_eq!(style_for_draws(7, &palette(), 3, 2), expected);
}

#[test]
fn drawn_style_has_its_seed_and_a_colour_of_the_palette() {
    let p = palette();
    let colors = palette_colors();
    let mut seen = vec![false; 5];
    for index in 0..300usize {
        let style = cell_style(index, &p);
        assert_eq!(style.seed, (index as u64) * 1000);
        assert!(style.fill_style != FillStyle::ZigZag);
        let at = colors.iter().position(|c| *c == style.fill_color);
        assert!(at.is_some());
        seen[at.unwrap()] = true;
    }
    assert!(seen.iter().all(|s| *s));
}

#[test]
fn drawn_style_of_an_empty_palette_is_neutral() {
    for index in 0..20usize {
        let style = cell_style(index, &Vec::new());
        assert_eq!(style.fill_color, neutral_tone());
        assert_eq!(style.seed, (index as u64) * 1000);
    }
}

#[test]
fn drawn_style_of_a_palette_of_one() {
    let p = vec![String::from("#123456")];
    for index in 0..50usize {
        let style = cell_style(index, &p);
        assert_eq!(style.fill_color, Rgba { r: 0x12, g: 0x34, b: 0x56, a: 255 });
    }
}

#[test]
fn plan_of_one_shape() {
    let it = LayoutItem { shape: Shapes::Circle, dimensions: bounds(0, 10, 0, 20) };
    let plan = plan_shape(4, &it, &palette());
    let expected = Outline::Ellipse { center: point(10, 20), rx2: 10, ry2: 20, x_den: 3, y_den: 2 };
    assert_eq!(plan.outline, expected);
    assert_eq!(plan.style.seed, 4000);
    assert!(palette_colors().contains(&plan.style.fill_color));
}

#[test]
fn plans_follow_the_items_row_by_row() {
    let a = LayoutItem {
        shape: Shapes::Square,
        dimensions: GridRect { left: 0, right: 10, bottom: 0, top: 10, x_den: 1, y_den: 1 },
    };
    let b = LayoutItem {
        shape: Shapes::Circle,
        dimensions: GridRect { left: 10, right: 20, bottom: 0, top: 10, x_den: 1, y_den: 1 },
    };
    let c = LayoutItem {
        shape: Shapes::Triangle,
        dimensions: GridRect { left: 0, right: 20, bottom: 10, top: 20, x_den: 1, y_den: 1 },
    };
    let layout = vec![vec![a, b], Vec::new(), vec![c]];
    let plans = plan_sketch(&layout, &palette());
    assert_eq!(plans.len(), 3);
    assert_eq!(plans[0].outline, shape_outline(a.shape, a.dimensions));
    assert_eq!(plans[1].outline, shape_outline(b.shape, b.dimensions));
    assert_eq!(plans[2].outline, shape_outline(c.shape, c.dimensions));
    assert_eq!(plans[0].style.seed, 0);
    assert_eq!(plans[1].style.seed, 1000);
    assert_eq!(plans[2].style.seed, 2000);
    for plan in &plans {
        assert!(palette_colors().contains(&plan.style.fill_color));
        assert!(plan.style.fill_style != FillStyle::ZigZag);
    }
    assert_eq!(plan_sketch(&Vec::new(), &palette()).len(), 0);
}
