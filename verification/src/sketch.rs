//! From the paths of a drawn shape to the styled polylines that a drawing
//! backend takes.

use crate::color::{neutral_tone, spec_neutral_tone, Rgba};
use crate::geom::GridRect;
use crate::layout::layout_view;
use crate::model::{LayoutItem, Shapes};
use crate::render::{
    is_plan_for, items_in_order, plan_sketch, shape_outline, spec_shape_outline, Outline,
    ShapePlan, StrokeStyle,
};
use crate::tessellate::{all_nonempty, flatten, is_flattening, polylines, PathOp};
use vstd::prelude::*;

verus! {

/// What a set of path operations is for.
#[derive(Clone, Copy, Debug, PartialEq, Eq, Structural)]
pub enum PathRole {
    /// The outline of the shape.
    Stroke,
    /// The strokes of the pattern that fills the shape.
    Fill,
    /// The boundary of a solid fill. Nothing is drawn for it.
    FillRegion,
}

/// A path and its role.
#[derive(Clone, Debug, PartialEq, Eq)]
pub struct PathSet<P> {
    pub role: PathRole,
    pub ops: Vec<PathOp<P>>,
}

/// The paths of one drawn shape, with the style they were made for.
#[derive(Clone, Debug, PartialEq, Eq)]
pub struct Drawable<P> {
    pub sets: Vec<PathSet<P>>,
    pub style: StrokeStyle,
}

/// A polyline with the colour and the weight to draw it in.
#[derive(Clone, Debug, PartialEq, Eq)]
pub struct StyledLine<P> {
    pub points: Vec<P>,
    pub color: Rgba,
    pub weight: u32,
}

/// What a [`StyledLine`] holds.
pub struct LineModel<P> {
    pub points: Seq<P>,
    pub color: Rgba,
    pub weight: u32,
}

/// The weight of the lines of an outline.
pub const STROKE_WEIGHT: u32 = 1;

/// The weight of the lines of a fill pattern.
pub const FILL_WEIGHT: u32 = 2;

/// The colour and weight of the lines of a path with the given role, or
/// `None` where nothing is drawn for it. An outline is drawn in the neutral
/// tone whatever the style; a fill pattern in the fill colour of the style.
pub open spec fn spec_line_style(role: PathRole, style: StrokeStyle) -> Option<(Rgba, u32)> {
    match role {
        PathRole::Stroke => Some((spec_neutral_tone(), STROKE_WEIGHT)),
        PathRole::Fill => Some((style.fill_color, FILL_WEIGHT)),
        PathRole::FillRegion => None,
    }
}

/// The polylines `flat`, each with the given colour and weight.
pub open spec fn styled<P>(flat: Seq<Seq<P>>, color: Rgba, weight: u32) -> Seq<LineModel<P>> {
    Seq::new(flat.len(), |k: int| LineModel { points: flat[k], color, weight })
}

/// The styled lines of one path, of which `flat` are the polylines.
pub open spec fn spec_set_lines<P>(role: PathRole, style: StrokeStyle, flat: Seq<Seq<P>>) -> Seq<
    LineModel<P>,
> {
    match spec_line_style(role, style) {
        Some((color, weight)) => styled(flat, color, weight),
        None => Seq::empty(),
    }
}

/// The styled lines of the paths `sets`, in order, where `flats[s]` are the
/// polylines of `sets[s]`.
pub open spec fn spec_sketch_lines<P>(
    sets: Seq<PathSet<P>>,
    style: StrokeStyle,
    flats: Seq<Seq<Seq<P>>>,
) -> Seq<LineModel<P>>
    decreases sets.len(),
{
    if sets.len() == 0 {
        Seq::empty()
    } else {
        spec_sketch_lines(sets.drop_last(), style, flats) + spec_set_lines(
            sets.last().role,
            style,
            flats[sets.len() - 1],
        )
    }
}

/// Whether `flats[s]` are polylines of `sets[s]`, for every path that is
/// drawn.
pub open spec fn flats_come_from<P, F: Fn(P, P, P, P) -> Vec<P>>(
    sets: Seq<PathSet<P>>,
    flats: Seq<Seq<Seq<P>>>,
    flatten_curve: F,
) -> bool {
    &&& flats.len() == sets.len()
    &&& forall|s: int|
        0 <= s < sets.len() && (#[trigger] sets[s]).role != PathRole::FillRegion ==> is_flattening(
            sets[s].ops@,
            flatten_curve,
            flats[s],
        ) && all_nonempty(flats[s])
}

/// Whether `lines` are the styled lines of a drawable for some choice of
/// results of `flatten_curve`.
pub open spec fn is_sketch_of<P, F: Fn(P, P, P, P) -> Vec<P>>(
    lines: Seq<LineModel<P>>,
    sets: Seq<PathSet<P>>,
    style: StrokeStyle,
    flatten_curve: F,
) -> bool {
    exists|flats: Seq<Seq<Seq<P>>>|
        flats_come_from(sets, flats, flatten_curve) && lines == #[trigger] spec_sketch_lines(
            sets,
            style,
            flats,
        )
}

/// What a vector of styled lines holds.
pub open spec fn lines_view<P>(lines: Vec<StyledLine<P>>) -> Seq<LineModel<P>> {
    lines@.map_values(
        |line: StyledLine<P>| LineModel { points: line.points@, color: line.color, weight: line.weight },
    )
}

/// The styled lines of the paths depend only on the polylines of their own
/// paths.
pub proof fn lemma_sketch_reads_own_flats<P>(
    sets: Seq<PathSet<P>>,
    style: StrokeStyle,
    flats: Seq<Seq<Seq<P>>>,
    other: Seq<Seq<Seq<P>>>,
)
    requires
        forall|s: int| 0 <= s < sets.len() ==> flats[s] == other[s],
    ensures
        spec_sketch_lines(sets, style, flats) == spec_sketch_lines(sets, style, other),
    decreases sets.len(),
{
    if sets.len() > 0 {
        lemma_sketch_reads_own_flats(sets.drop_last(), style, flats, other);
    }
}

/// Every line of an outline is in the neutral tone and every line of a fill
/// pattern in the fill colour of the style, and no line is empty where no
/// polyline is.
pub proof fn lemma_sketch_line_styles<P>(
    sets: Seq<PathSet<P>>,
    style: StrokeStyle,
    flats: Seq<Seq<Seq<P>>>,
)
    requires
        forall|s: int|
            0 <= s < sets.len() && (#[trigger] sets[s]).role != PathRole::FillRegion ==> all_nonempty(
                flats[s],
            ),
    ensures
        forall|k: int|
            0 <= k < spec_sketch_lines(sets, style, flats).len() ==> {
                let line = #[trigger] spec_sketch_lines(sets, style, flats)[k];
                &&& line.points.len() > 0
                &&& (line.color == spec_neutral_tone() && line.weight == STROKE_WEIGHT) || (
                line.color == style.fill_color && line.weight == FILL_WEIGHT)
            },
    decreases sets.len(),
{
    if sets.len() > 0 {
        let head = sets.drop_last();
        lemma_sketch_line_styles(head, style, flats);
        let before = spec_sketch_lines(head, style, flats);
        let added = spec_set_lines(sets.last().role, style, flats[sets.len() - 1]);
        assert(spec_sketch_lines(sets, style, flats) == before + added);
    }
}

/// The colour and weight of the lines of a path with the given role, or
/// `None` where nothing is drawn for it.
pub fn line_style(role: PathRole, style: &StrokeStyle) -> (r: Option<(Rgba, u32)>)
    ensures
        r == spec_line_style(role, *style),
{
    match role {
        PathRole::Stroke => Some((neutral_tone(), STROKE_WEIGHT)),
        PathRole::Fill => Some((style.fill_color, FILL_WEIGHT)),
        PathRole::FillRegion => None,
    }
}

/// Turns the paths of a drawn shape into styled polylines, path by path in
/// order.
///
/// The path of an outline gives its polylines in the neutral tone with the
/// weight `STROKE_WEIGHT`, whatever the style of the shape. The path of a
/// fill pattern gives its polylines in the fill colour of the style with the
/// weight `FILL_WEIGHT`. For the boundary of a solid fill nothing is given
/// and `flatten_curve` is not called. The polylines of a path are those of
/// [`flatten`]; none is empty.
pub fn sketch_lines<P: Copy, F: Fn(P, P, P, P) -> Vec<P>>(
    drawable: &Drawable<P>,
    flatten_curve: &F,
) -> (lines: Vec<StyledLine<P>>)
    requires
        forall|a: P, b: P, c: P, d: P| call_requires(*flatten_curve, (a, b, c, d)),
    ensures
        is_sketch_of(lines_view(lines), drawable.sets@, drawable.style, *flatten_curve),
        forall|k: int|
            0 <= k < lines@.len() ==> {
                let line = #[trigger] lines_view(lines)[k];
                &&& line.points.len() > 0
                &&& (line.color == spec_neutral_tone() && line.weight == STROKE_WEIGHT) || (
                line.color == drawable.style.fill_color && line.weight == FILL_WEIGHT)
            },
{
    let mut lines: Vec<StyledLine<P>> = Vec::new();
    let ghost sets = drawable.sets@;
    let ghost style = drawable.style;
    let ghost mut flats: Seq<Seq<Seq<P>>> = Seq::new(sets.len(), |s: int| Seq::empty());
    let n = drawable.sets.len();
    let mut s: usize = 0;
    while s < n
        invariant
            n == sets.len(),
            sets == drawable.sets@,
            style == drawable.style,
            s <= n,
            flats.len() == n,
            forall|a: P, b: P, c: P, d: P| call_requires(*flatten_curve, (a, b, c, d)),
            forall|t: int|
                0 <= t < s && (#[trigger] sets[t]).role != PathRole::FillRegion ==> is_flattening(
                    sets[t].ops@,
                    *flatten_curve,
                    flats[t],
                ) && all_nonempty(flats[t]),
            lines_view(lines) == spec_sketch_lines(sets.take(s as int), style, flats),
        decreases n - s,
    {
        let set = &drawable.sets[s];
        let ghost before = lines_view(lines);
        let ghost old_flats = flats;
        proof {
            assert(sets.take(s + 1).drop_last() =~= sets.take(s as int));
        }
        match line_style(set.role, &drawable.style) {
            Some((color, weight)) => {
                let flat = flatten(&set.ops, flatten_curve);
                proof {
                    flats = flats.update(s as int, polylines(flat));
                }
                let m = flat.len();
                let mut k: usize = 0;
                while k < m
                    invariant
                        m == flat@.len(),
                        k <= m,
                        lines_view(lines) == before + styled(polylines(flat), color, weight).take(
                            k as int,
                        ),
                    decreases m - k,
                {
                    let ghost so_far = lines_view(lines);
                    let points = copy_points(&flat[k]);
                    lines.push(StyledLine { points, color, weight });
                    k += 1;
                    proof {
                        let all = styled(polylines(flat), color, weight);
                        assert(lines_view(lines) =~= so_far.push(all[k - 1]));
                    }
                }
            },
            None => {},
        }
        proof {
            lemma_sketch_reads_own_flats(sets.take(s as int), style, old_flats, flats);
        }
        s += 1;
    }
    proof {
        assert(sets.take(n as int) =~= sets);
        lemma_sketch_line_styles(sets, style, flats);
    }
    lines
}

/// A copy of a polyline.
fn copy_points<P: Copy>(points: &Vec<P>) -> (copy: Vec<P>)
    ensures
        copy@ == points@,
{
    let mut copy: Vec<P> = Vec::new();
    let n = points.len();
    let mut k: usize = 0;
    while k < n
        invariant
            n == points@.len(),
            k <= n,
            copy@ == points@.take(k as int),
        decreases n - k,
    {
        copy.push(points[k]);
        k += 1;
    }
    copy
}

/// Whether `drawable` is a rendering of the plan: it carries the style of
/// the plan, and its paths are what `generator` can return for the outline
/// and the style of the plan.
pub open spec fn is_rendering_of<P, G: Fn(Outline, StrokeStyle) -> Vec<PathSet<P>>>(
    drawable: Drawable<P>,
    plan: ShapePlan,
    generator: G,
) -> bool {
    drawable.style == plan.style && call_ensures(
        generator,
        (plan.outline, plan.style),
        drawable.sets,
    )
}

/// Whether `generator` gives the same paths whenever it is given the same
/// outline and style.
pub open spec fn generator_is_deterministic<P, G: Fn(Outline, StrokeStyle) -> Vec<PathSet<P>>>(
    generator: G,
) -> bool {
    forall|args: (Outline, StrokeStyle), a: Vec<PathSet<P>>, b: Vec<PathSet<P>>|
        call_ensures(generator, args, a) && call_ensures(generator, args, b) ==> a == b
}

/// Rendering is reproducible: with a deterministic generator, the same kind,
/// bounds and style always give the same drawable, down to every operation
/// of every path.
pub proof fn lemma_rendering_is_unique<P, G: Fn(Outline, StrokeStyle) -> Vec<PathSet<P>>>(
    a: Drawable<P>,
    b: Drawable<P>,
    kind: Shapes,
    bounds: GridRect,
    style: StrokeStyle,
    generator: G,
)
    requires
        generator_is_deterministic(generator),
        is_rendering_of(a, ShapePlan { outline: spec_shape_outline(kind, bounds), style }, generator),
        is_rendering_of(b, ShapePlan { outline: spec_shape_outline(kind, bounds), style }, generator),
    ensures
        a == b,
{
}

/// Renders a plan: hands its outline and its style to `generator` and keeps
/// the paths that come back together with the style.
pub fn render_plan<P, G: Fn(Outline, StrokeStyle) -> Vec<PathSet<P>>>(
    plan: ShapePlan,
    generator: &G,
) -> (drawable: Drawable<P>)
    requires
        forall|outline: Outline, style: StrokeStyle| call_requires(*generator, (outline, style)),
    ensures
        is_rendering_of(drawable, plan, *generator),
{
    Drawable { sets: generator(plan.outline, plan.style), style: plan.style }
}

/// Renders a shape of the given kind within `bounds` in the given style.
///
/// The outline of the shape (see [`shape_outline`]) and the style are handed
/// to `generator`, which makes the paths; the drawable carries the style
/// unchanged, so its fill paths belong to exactly the fill colour and fill
/// style that were asked for.
pub fn render_shape<P, G: Fn(Outline, StrokeStyle) -> Vec<PathSet<P>>>(
    kind: Shapes,
    bounds: GridRect,
    style: StrokeStyle,
    generator: &G,
) -> (drawable: Drawable<P>)
    requires
        forall|outline: Outline, style: StrokeStyle| call_requires(*generator, (outline, style)),
    ensures
        is_rendering_of(
            drawable,
            ShapePlan { outline: spec_shape_outline(kind, bounds), style },
            *generator,
        ),
{
    render_plan(ShapePlan { outline: shape_outline(kind, bounds), style }, generator)
}

/// Whether `lines` are the styled lines of `item`, drawn as the shape with
/// the given index: those of some rendering of some plan for the item.
pub open spec fn is_item_sketch<
    P,
    G: Fn(Outline, StrokeStyle) -> Vec<PathSet<P>>,
    F: Fn(P, P, P, P) -> Vec<P>,
>(
    lines: Seq<LineModel<P>>,
    index: int,
    item: LayoutItem,
    palette: Seq<String>,
    generator: G,
    flatten_curve: F,
) -> bool {
    exists|plan: ShapePlan, drawable: Drawable<P>|
        is_plan_for(plan, index, item, palette) && #[trigger] is_rendering_of(
            drawable,
            plan,
            generator,
        ) && is_sketch_of(lines, drawable.sets@, plan.style, flatten_curve)
}

/// The parts, one after the other.
pub open spec fn joined<A>(parts: Seq<Seq<A>>) -> Seq<A>
    decreases parts.len(),
{
    if parts.len() == 0 {
        Seq::empty()
    } else {
        joined(parts.drop_last()) + parts.last()
    }
}

/// Whether `lines` are the styled lines of a layout: those of its items, one
/// item after the other in the order in which they are drawn.
pub open spec fn is_layout_sketch<
    P,
    G: Fn(Outline, StrokeStyle) -> Vec<PathSet<P>>,
    F: Fn(P, P, P, P) -> Vec<P>,
>(
    lines: Seq<LineModel<P>>,
    items: Seq<LayoutItem>,
    palette: Seq<String>,
    generator: G,
    flatten_curve: F,
) -> bool {
    exists|parts: Seq<Seq<LineModel<P>>>|
        {
            &&& parts.len() == items.len()
            &&& forall|c: int|
                0 <= c < items.len() ==> is_item_sketch(
                    #[trigger] parts[c],
                    c,
                    items[c],
                    palette,
                    generator,
                    flatten_curve,
                )
            &&& lines == #[trigger] joined(parts)
        }
}

/// Draws a whole layout: the styled lines of every item, one item after the
/// other, row by row from the bottom and each row from the left.
///
/// Every item gets a plan of its own (see [`plan_sketch`]): its outline, the
/// seed of its place in the order, and a colour and a fill style drawn at
/// random. The plan is rendered with `generator` and the paths are turned
/// into lines with [`sketch_lines`].
pub fn sketch_layout<
    P: Copy,
    G: Fn(Outline, StrokeStyle) -> Vec<PathSet<P>>,
    F: Fn(P, P, P, P) -> Vec<P>,
>(
    layout: &Vec<Vec<LayoutItem>>,
    palette: &Vec<String>,
    generator: &G,
    flatten_curve: &F,
) -> (lines: Vec<StyledLine<P>>)
    requires
        forall|outline: Outline, style: StrokeStyle| call_requires(*generator, (outline, style)),
        forall|a: P, b: P, c: P, d: P| call_requires(*flatten_curve, (a, b, c, d)),
    ensures
        is_layout_sketch(
            lines_view(lines),
            items_in_order(layout_view(*layout)),
            palette@,
            *generator,
            *flatten_curve,
        ),
{
    let ghost items = items_in_order(layout_view(*layout));
    let plans = plan_sketch(layout, palette);
    let mut lines: Vec<StyledLine<P>> = Vec::new();
    let ghost mut parts: Seq<Seq<LineModel<P>>> = Seq::empty();
    let n = plans.len();
    let mut c: usize = 0;
    while c < n
        invariant
            n == plans@.len(),
            n == items.len(),
            c <= n,
            forall|outline: Outline, style: StrokeStyle| call_requires(*generator, (outline, style)),
            forall|a: P, b: P, c: P, d: P| call_requires(*flatten_curve, (a, b, c, d)),
            forall|k: int| 0 <= k < n ==> is_plan_for(#[trigger] plans@[k], k, items[k], palette@),
            parts.len() == c,
            forall|k: int|
                0 <= k < c ==> is_item_sketch(
                    #[trigger] parts[k],
                    k,
                    items[k],
                    palette@,
                    *generator,
                    *flatten_curve,
                ),
            lines_view(lines) == joined(parts),
        decreases n - c,
    {
        let plan = plans[c];
        let drawable = render_plan(plan, generator);
        let mut part = sketch_lines(&drawable, flatten_curve);
        let ghost added = lines_view(part);
        lines.append(&mut part);
        proof {
            let ghost old_parts = parts;
            parts = parts.push(added);
            assert(parts.drop_last() =~= old_parts);
        }
        c += 1;
    }
    lines
}

} // verus!
