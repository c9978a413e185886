//! What is drawn for each item of a layout: the outline of its shape and the
//! style of its strokes.
//!
//! Outlines are given in halves of the fractions of their bounds (see
//! [`HalfPoint`] and [`GridRect`]), so that the centre of an ellipse and the
//! apex of a triangle are exact.

use crate::color::{is_color_of_entry, neutral_tone, resolve_color, spec_neutral_tone, Rgba};
use crate::geom::{GridRect, HalfPoint};
use crate::model::{LayoutItem, Shapes};
use crate::rng::random_below;
use vstd::prelude::*;

verus! {

/// The pattern that fills a shape.
#[derive(Clone, Copy, Debug, PartialEq, Eq, Structural)]
pub enum FillStyle {
    Dashed,
    Dots,
    Hachure,
    CrossHatch,
    ZigZag,
    ZigZagLine,
}

/// The style of one drawn shape.
#[derive(Clone, Copy, Debug, PartialEq, Eq, Structural)]
pub struct StrokeStyle {
    /// Seed of the perturbation of the strokes.
    pub seed: u64,
    pub fill_style: FillStyle,
    pub fill_color: Rgba,
}

/// The outline of a shape. A doubled abscissa `x2` stands for `x2 / (2 *
/// x_den)` units and a doubled ordinate `y2` for `y2 / (2 * y_den)` units;
/// the radii of an ellipse are doubled in the same way.
#[derive(Clone, Copy, Debug, PartialEq, Eq, Structural)]
pub enum Outline {
    /// The rectangle between two opposite corners.
    Rectangle { lower_left: HalfPoint, upper_right: HalfPoint, x_den: i32, y_den: i32 },
    /// The ellipse around `center` with the radii `rx2 / (2 * x_den)` and
    /// `ry2 / (2 * y_den)`.
    Ellipse { center: HalfPoint, rx2: i128, ry2: i128, x_den: i32, y_den: i32 },
    /// The triangle with its apex above the middle of its base.
    Triangle {
        apex: HalfPoint,
        base_left: HalfPoint,
        base_right: HalfPoint,
        x_den: i32,
        y_den: i32,
    },
}

/// The outline and the style of one item of a layout.
#[derive(Clone, Copy, Debug, PartialEq, Eq, Structural)]
pub struct ShapePlan {
    pub outline: Outline,
    pub style: StrokeStyle,
}

/// The seeds of successive shapes are this far apart.
pub const SEED_STEP: u64 = 1000;

/// The number of draws to choose a fill style from.
pub const FILL_STYLE_DRAWS: u32 = 5;

/// The seed of the shape with the given index: `SEED_STEP` times the index,
/// wrapping around at 2^64.
pub open spec fn spec_seed_for_cell(index: usize) -> u64 {
    ((index * SEED_STEP) % 0x1_0000_0000_0000_0000) as u64
}

/// The fill style that a draw stands for.
pub open spec fn spec_fill_style_for_draw(draw: u32) -> FillStyle {
    if draw == 0 {
        FillStyle::Dashed
    } else if draw == 1 {
        FillStyle::Dots
    } else if draw == 2 {
        FillStyle::Hachure
    } else if draw == 3 {
        FillStyle::CrossHatch
    } else if draw == 4 {
        FillStyle::ZigZagLine
    } else {
        FillStyle::ZigZag
    }
}

/// The outline of a shape of the given kind within `bounds`.
///
/// A square fills the bounds. A circle is the ellipse that touches the four
/// edges. A triangle has its apex at the middle of the top edge and its base
/// on the bottom edge. A cell without a kind is drawn as a square.
pub open spec fn spec_shape_outline(kind: Shapes, bounds: GridRect) -> Outline {
    match kind {
        Shapes::Circle => Outline::Ellipse {
            center: HalfPoint {
                x2: (bounds.left + bounds.right) as i128,
                y2: (bounds.bottom + bounds.top) as i128,
            },
            rx2: (bounds.right - bounds.left) as i128,
            ry2: (bounds.top - bounds.bottom) as i128,
            x_den: bounds.x_den,
            y_den: bounds.y_den,
        },
        Shapes::Triangle => Outline::Triangle {
            apex: HalfPoint {
                x2: (bounds.left + bounds.right) as i128,
                y2: (2 * bounds.top) as i128,
            },
            base_left: HalfPoint { x2: (2 * bounds.left) as i128, y2: (2 * bounds.bottom) as i128 },
            base_right: HalfPoint {
                x2: (2 * bounds.right) as i128,
                y2: (2 * bounds.bottom) as i128,
            },
            x_den: bounds.x_den,
            y_den: bounds.y_den,
        },
        _ => Outline::Rectangle {
            lower_left: HalfPoint { x2: (2 * bounds.left) as i128, y2: (2 * bounds.bottom) as i128 },
            upper_right: HalfPoint { x2: (2 * bounds.right) as i128, y2: (2 * bounds.top) as i128 },
            x_den: bounds.x_den,
            y_den: bounds.y_den,
        },
    }
}

/// Whether `color` is the colour picked from the palette with the given
/// draw: the colour of the entry at the draw, or the neutral tone where the
/// palette has no such entry.
pub open spec fn is_color_for_draw(palette: Seq<String>, draw: int, color: Rgba) -> bool {
    if 0 <= draw < palette.len() {
        is_color_of_entry(palette[draw]@, color)
    } else {
        color == spec_neutral_tone()
    }
}

/// The seed of the shape with the given index.
pub fn seed_for_cell(index: usize) -> (seed: u64)
    ensures
        seed == spec_seed_for_cell(index),
        index * SEED_STEP <= u64::MAX ==> seed == index * SEED_STEP,
{
    let wide: u128 = (index as u128) * (SEED_STEP as u128);
    (wide % 0x1_0000_0000_0000_0000u128) as u64
}

/// The fill style that a draw stands for.
pub fn fill_style_for_draw(draw: u32) -> (style: FillStyle)
    ensures
        style == spec_fill_style_for_draw(draw),
{
    match draw {
        0 => FillStyle::Dashed,
        1 => FillStyle::Dots,
        2 => FillStyle::Hachure,
        3 => FillStyle::CrossHatch,
        4 => FillStyle::ZigZagLine,
        _ => FillStyle::ZigZag,
    }
}

/// The outline of a shape of the given kind within `bounds`.
pub fn shape_outline(kind: Shapes, bounds: GridRect) -> (outline: Outline)
    ensures
        outline == spec_shape_outline(kind, bounds),
{
    let left2: i128 = 2 * (bounds.left as i128);
    let right2: i128 = 2 * (bounds.right as i128);
    let bottom2: i128 = 2 * (bounds.bottom as i128);
    let top2: i128 = 2 * (bounds.top as i128);
    let x_den = bounds.x_den;
    let y_den = bounds.y_den;
    match kind {
        Shapes::Circle => Outline::Ellipse {
            center: HalfPoint { x2: bounds.center_x2(), y2: bounds.center_y2() },
            rx2: bounds.w(),
            ry2: bounds.h(),
            x_den,
            y_den,
        },
        Shapes::Triangle => Outline::Triangle {
            apex: HalfPoint { x2: bounds.center_x2(), y2: top2 },
            base_left: HalfPoint { x2: left2, y2: bottom2 },
            base_right: HalfPoint { x2: right2, y2: bottom2 },
            x_den,
            y_den,
        },
        _ => Outline::Rectangle {
            lower_left: HalfPoint { x2: left2, y2: bottom2 },
            upper_right: HalfPoint { x2: right2, y2: top2 },
            x_den,
            y_den,
        },
    }
}

/// The colour picked from the palette with the given draw: the colour of the
/// entry at the draw, or the neutral tone where the palette has no such
/// entry.
pub fn color_for_draw(palette: &Vec<String>, draw: u32) -> (color: Rgba)
    ensures
        is_color_for_draw(palette@, draw as int, color),
{
    if (draw as usize) < palette.len() {
        resolve_color(&palette[draw as usize])
    } else {
        neutral_tone()
    }
}

/// The style of the shape with the given index, for the given draws of its
/// colour and its fill style.
pub fn style_for_draws(index: usize, palette: &Vec<String>, color_draw: u32, style_draw: u32) -> (style:
    StrokeStyle)
    ensures
        style.seed == spec_seed_for_cell(index),
        style.fill_style == spec_fill_style_for_draw(style_draw),
        is_color_for_draw(palette@, color_draw as int, style.fill_color),
{
    StrokeStyle {
        seed: seed_for_cell(index),
        fill_style: fill_style_for_draw(style_draw),
        fill_color: color_for_draw(palette, color_draw),
    }
}

/// The number of draws to choose a colour from: the length of the palette,
/// as far as it can be drawn from, and one for an empty palette.
pub open spec fn spec_color_draws(len: int) -> u32 {
    if len < 1 {
        1
    } else if len > u32::MAX {
        u32::MAX
    } else {
        len as u32
    }
}

/// The style of the shape with the given index, with its colour drawn from
/// the palette and its fill style drawn from the first `FILL_STYLE_DRAWS`
/// styles, both at random.
///
/// With an empty palette the colour is the neutral tone.
pub fn cell_style(index: usize, palette: &Vec<String>) -> (style: StrokeStyle)
    ensures
        style.seed == spec_seed_for_cell(index),
        exists|draw: u32|
            draw < FILL_STYLE_DRAWS && style.fill_style == #[trigger] spec_fill_style_for_draw(draw),
        style.fill_style != FillStyle::ZigZag,
        exists|draw: int|
            0 <= draw < spec_color_draws(palette@.len() as int) && #[trigger] is_color_for_draw(
                palette@,
                draw,
                style.fill_color,
            ),
        palette@.len() == 0 ==> style.fill_color == spec_neutral_tone(),
{
    let len = palette.len();
    let bound: u32 = if len < 1 {
        1
    } else if len > u32::MAX as usize {
        u32::MAX
    } else {
        len as u32
    };
    let color_draw = random_below(bound);
    let style_draw = random_below(FILL_STYLE_DRAWS);
    let style = style_for_draws(index, palette, color_draw, style_draw);
    style
}

/// Whether `plan` is a plan for drawing `item` as the shape with the given
/// index: the outline is that of the item, the seed that of the index, the
/// fill style one of the first `FILL_STYLE_DRAWS` styles and the colour one
/// that can be picked from the palette.
pub open spec fn is_plan_for(plan: ShapePlan, index: int, item: LayoutItem, palette: Seq<String>) -> bool {
    &&& plan.outline == spec_shape_outline(item.shape, item.dimensions)
    &&& plan.style.seed == spec_seed_for_cell(index as usize)
    &&& exists|draw: u32|
        draw < FILL_STYLE_DRAWS && plan.style.fill_style == #[trigger] spec_fill_style_for_draw(
            draw,
        )
    &&& exists|draw: int|
        0 <= draw < spec_color_draws(palette.len() as int) && #[trigger] is_color_for_draw(
            palette,
            draw,
            plan.style.fill_color,
        )
}

/// The items of a layout in the order in which they are drawn: row by row
/// from the bottom, each row from the left.
pub open spec fn items_in_order(layout: Seq<Seq<LayoutItem>>) -> Seq<LayoutItem>
    decreases layout.len(),
{
    if layout.len() == 0 {
        Seq::empty()
    } else {
        items_in_order(layout.drop_last()) + layout.last()
    }
}

/// The plan for drawing `item` as the shape with the given index: its
/// outline, and a style with a colour and a fill style drawn at random.
pub fn plan_shape(index: usize, item: &LayoutItem, palette: &Vec<String>) -> (plan: ShapePlan)
    ensures
        is_plan_for(plan, index as int, *item, palette@),
{
    ShapePlan {
        outline: shape_outline(item.shape, item.dimensions),
        style: cell_style(index, palette),
    }
}

/// The plans for drawing a layout: one for every item, in the order in which
/// the items are drawn, the index of a shape being its place in that order.
pub fn plan_sketch(layout: &Vec<Vec<LayoutItem>>, palette: &Vec<String>) -> (plans: Vec<ShapePlan>)
    ensures
        plans@.len() == items_in_order(crate::layout::layout_view(*layout)).len(),
        forall|c: int|
            0 <= c < plans@.len() ==> is_plan_for(
                #[trigger] plans@[c],
                c,
                items_in_order(crate::layout::layout_view(*layout))[c],
                palette@,
            ),
{
    let ghost rows = crate::layout::layout_view(*layout);
    let mut plans: Vec<ShapePlan> = Vec::new();
    let n = layout.len();
    let mut r: usize = 0;
    while r < n
        invariant
            n == layout@.len(),
            r <= n,
            rows == crate::layout::layout_view(*layout),
            plans@.len() == items_in_order(rows.take(r as int)).len(),
            forall|c: int|
                0 <= c < plans@.len() ==> is_plan_for(
                    #[trigger] plans@[c],
                    c,
                    items_in_order(rows.take(r as int))[c],
                    palette@,
                ),
        decreases n - r,
    {
        let row = &layout[r];
        let ghost done = items_in_order(rows.take(r as int));
        proof {
            assert(rows.take(r + 1).drop_last() =~= rows.take(r as int));
        }
        let m = row.len();
        let mut k: usize = 0;
        while k < m
            invariant
                m == row@.len(),
                k <= m,
                plans@.len() == done.len() + k,
                forall|c: int|
                    0 <= c < plans@.len() ==> is_plan_for(
                        #[trigger] plans@[c],
                        c,
                        (done + row@)[c],
                        palette@,
                    ),
            decreases m - k,
        {
            let plan = plan_shape(plans.len(), &row[k], palette);
            plans.push(plan);
            k += 1;
        }
        r += 1;
    }
    assert(rows.take(n as int) =~= rows);
    plans
}

} // verus!
