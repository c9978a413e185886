use grid_sketch::color::{neutral_tone, Rgba};
use grid_sketch::geom::{GridRect, HalfPoint};
use grid_sketch::model::{LayoutItem, Shapes};
use grid_sketch::render::{shape_outline, FillStyle, Outline, ShapePlan, StrokeStyle};
use grid_sketch::sketch::{
    line_style, render_plan, render_shape, sketch_layout, sketch_lines, Drawable, PathRole,
    PathSet, StyledLine, FILL_WEIGHT, STROKE_WEIGHT,
};
use grid_sketch::tessellate::PathOp;

type P = (i32, i32);

fn ends(start: P, _c1: P, _c2: P, end: P) -> Vec<P> {
    vec![start, end]
}

fn blue() -> Rgba {
    Rgba { r: 0, g: 0, b: 255, a: 255 }
}

fn style() -> StrokeStyle {
    StrokeStyle { seed: 3000, fill_style: FillStyle::Hachure, fill_color: blue() }
}

#[test]
fn styles_of_the_roles() {
    assert_eq!(STROKE_WEIGHT, 1);
    assert_eq!(FILL_WEIGHT, 2);
    assert_eq!(line_style(PathRole::Stroke, &style()), Some((neutral_tone(), 1)));
    assert_eq!(line_style(PathRole::Fill, &style()), Some((blue(), 2)));
    assert_eq!(line_style(PathRole::FillRegion, &style()), None);
}

#[test]
fn outline_is_neutral_and_fill_has_the_fill_colour() {
    let outline = PathSet {
        role: PathRole::Stroke,
        ops: vec![
            PathOp::Move((0, 0)),
            PathOp::LineTo((10, 0)),
            PathOp::CurveTo((11, 1), (12, 1), (13, 0)),
            PathOp::Move((0, 1)),
            PathOp::LineTo((10, 1)),
        ],
    };
    let region = PathSet {
        role: PathRole::FillRegion,
        ops: vec![PathOp::Move((0, 0)), PathOp::LineTo((10, 10))],
    };
    let hatch = PathSet {
        role: PathRole::Fill,
        ops: vec![
            PathOp::Move((1, 1)),
            PathOp::LineTo((2, 2)),
            PathOp::Move((3, 1)),
            PathOp::LineTo((4, 2)),
        ],
    };
    let drawable = Drawable { sets: vec![outline, region, hatch], style: style() };
    let lines = sketch_lines(&drawable, &ends);
    let expected = vec![
        StyledLine {
            points: vec![(0, 0), (10, 0), (10, 0), (13, 0)],
            color: neutral_tone(),
            weight: 1,
        },
        StyledLine { points: vec![(0, 1), (10, 1)], color: neutral_tone(), weight: 1 },
        StyledLine { points: vec![(1, 1), (2, 2)], color: blue(), weight: 2 },
        StyledLine { points: vec![(3, 1), (4, 2)], color: blue(), weight: 2 },
    ];
    assert_eq!(lines, expected);
}

#[test]
fn nothing_is_drawn_for_a_solid_fill() {
    let region = PathSet {
        role: PathRole::FillRegion,
        ops: vec![PathOp::Move((0, 0)), PathOp::CurveTo((1, 1), (2, 1), (3, 0))],
    };
    let drawable = Drawable { sets: vec![region], style: style() };
    let never = |_s: P, _c1: P, _c2: P, _e: P| -> Vec<P> { panic!("flattened a solid fill") };
    assert_eq!(sketch_lines(&drawable, &never), Vec::new());
}

#[test]
fn drawable_without_paths_gives_no_line() {
    let drawable: Drawable<P> = Drawable { sets: Vec::new(), style: style() };
    assert_eq!(sketch_lines(&drawable, &ends), Vec::new());
    let empty = Drawable {
        sets: vec![PathSet { role: PathRole::Stroke, ops: Vec::<PathOp<P>>::new() }],
        style: style(),
    };
    assert_eq!(sketch_lines(&empty, &ends), Vec::new());
}

#[test]
fn same_drawable_gives_the_same_lines() {
    let hatch = PathSet {
        role: PathRole::Fill,
        ops: vec![PathOp::Move((1, 1)), PathOp::CurveTo((2, 2), (3, 2), (4, 1))],
    };
    let drawable = Drawable { sets: vec![hatch], style: style() };
    assert_eq!(sketch_lines(&drawable, &ends), sketch_lines(&drawable, &ends));
}

fn corners(outline: Outline) -> (P, P) {
    match outline {
        Outline::Rectangle { lower_left, upper_right, .. } => {
            ((lower_left.x2 as i32, lower_left.y2 as i32), (upper_right.x2 as i32, upper_right.y2 as i32))
        }
        Outline::Ellipse { center, rx2, ry2, .. } => (
            ((center.x2 - rx2) as i32, (center.y2 - ry2) as i32),
            ((center.x2 + rx2) as i32, (center.y2 + ry2) as i32),
        ),
        Outline::Triangle { apex, base_left, base_right, .. } => {
            ((base_left.x2 as i32, base_left.y2 as i32), (base_right.x2 as i32, apex.y2 as i32))
        }
    }
}

fn diagonal(outline: Outline, style: StrokeStyle) -> Vec<PathSet<P>> {
    let (low, high) = corners(outline);
    vec![
        PathSet { role: PathRole::Stroke, ops: vec![PathOp::Move(low), PathOp::LineTo(high)] },
        PathSet {
            role: PathRole::Fill,
            ops: vec![PathOp::Move(high), PathOp::LineTo((style.seed as i32, 0))],
        },
    ]
}

#[test]
fn rendering_hands_outline_and_style_to_the_generator() {
    let bounds = GridRect { left: 1, right: 5, bottom: 2, top: 8, x_den: 1, y_den: 1 };
    let drawable = render_shape(Shapes::Circle, bounds, style(), &diagonal);
    assert_eq!(drawable.style, style());
    let expected = vec![
        PathSet { role: PathRole::Stroke, ops: vec![PathOp::Move((2, 4)), PathOp::LineTo((10, 16))] },
        PathSet { role: PathRole::Fill, ops: vec![PathOp::Move((10, 16)), PathOp::LineTo((3000, 0))] },
    ];
    assert_eq!(drawable.sets, expected);
}

#[test]
fn rendering_twice_gives_the_same_drawable() {
    let bounds = GridRect { left: -4, right: 9, bottom: 0, top: 3, x_den: 1, y_den: 1 };
    for kind in [Shapes::Square, Shapes::Circle, Shapes::Triangle, Shapes::Unset] {
        let first = render_shape(kind, bounds, style(), &diagonal);
        let second = render_shape(kind, bounds, style(), &diagonal);
        assert_eq!(first, second);
    }
}

#[test]
fn rendering_a_plan() {
    let plan = ShapePlan {
        outline: Outline::Rectangle {
            lower_left: HalfPoint { x2: 0, y2: 0 },
            upper_right: HalfPoint { x2: 6, y2: 8 },
            x_den: 1,
            y_den: 1,
        },
        style: style(),
    };
    let drawable = render_plan(plan, &diagonal);
    assert_eq!(drawable.style, style());
    assert_eq!(drawable.sets, diagonal(plan.outline, plan.style));
    let bounds = GridRect { left: 0, right: 3, bottom: 0, top: 4, x_den: 1, y_den: 1 };
    assert_eq!(shape_outline(Shapes::Square, bounds), plan.outline);
    assert_eq!(render_shape(Shapes::Square, bounds, style(), &diagonal), drawable);
}

#[test]
fn layout_is_drawn_item_by_item() {
    let a = LayoutItem {
        shape: Shapes::Square,
        dimensions: GridRect { left: 0, right: 10, bottom: 0, top: 10, x_den: 1, y_den: 1 },
    };
    let b = LayoutItem {
        shape: Shapes::Circle,
        dimensions: GridRect { left: 10, right: 20, bottom: 0, top: 10, x_den: 1, y_den: 1 },
    };
    let c = LayoutItem {
        shape: Shapes::Triangle,
        dimensions: GridRect { left: 0, right: 20, bottom: 10, top: 20, x_den: 1, y_den: 1 },
    };
    let layout = vec![vec![a, b], vec![c]];
    let palette = vec![String::from("#0000ff")];
    let lines = sketch_layout(&layout, &palette, &diagonal, &ends);
    let expected = vec![
        StyledLine { points: vec![(0, 0), (20, 20)], color: neutral_tone(), weight: 1 },
        StyledLine { points: vec![(20, 20), (0, 0)], color: blue(), weight: 2 },
        StyledLine { points: vec![(20, 0), (40, 20)], color: neutral_tone(), weight: 1 },
        StyledLine { points: vec![(40, 20), (1000, 0)], color: blue(), weight: 2 },
        StyledLine { points: vec![(0, 20), (40, 40)], color: neutral_tone(), weight: 1 },
        StyledLine { points: vec![(40, 40), (2000, 0)], color: blue(), weight: 2 },
    ];
    assert_eq!(lines, expected);
}

#[test]
fn empty_layout_draws_nothing() {
    let layout: Vec<Vec<LayoutItem>> = Vec::new();
    let lines = sketch_layout(&layout, &Vec::new(), &diagonal, &ends);
    assert_eq!(lines, Vec::new());
}
