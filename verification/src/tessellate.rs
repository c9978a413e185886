//! Flattening of path operations into polylines.
//!
//! A path is a sequence of [`PathOp`]s. Walking it yields polylines: a `Move`
//! closes the polyline in progress and starts the next one, a `LineTo` adds a
//! point, and a `CurveTo` adds the points of a flattened cubic Bezier segment
//! that starts at the last point of the polyline in progress.
//!
//! The points are opaque to this module. The flattening of a single Bezier
//! segment is supplied by the caller as a function from the four control
//! points to the points that replace the segment.

use vstd::prelude::*;

verus! {

/// One operation of a path over points of type `P`.
#[derive(Clone, Copy, Debug, PartialEq, Eq)]
pub enum PathOp<P> {
    /// Start a new polyline at the point.
    Move(P),
    /// Continue the polyline with a straight segment to the point.
    LineTo(P),
    /// Continue the polyline with a cubic Bezier segment: the two control
    /// points, then the end point.
    CurveTo(P, P, P),
}

/// What a walk over a path has produced so far: the polylines that are
/// closed, and the points of the polyline in progress.
pub struct Trace<P> {
    pub done: Seq<Seq<P>>,
    pub open: Seq<P>,
}

/// The polylines of a trace once the walk ends: the closed ones, followed by
/// the polyline in progress if it has any point.
pub open spec fn flush<P>(t: Trace<P>) -> Seq<Seq<P>> {
    if t.open.len() > 0 {
        t.done.push(t.open)
    } else {
        t.done
    }
}

/// The trace after one more operation. `curve` is the flattening of the
/// operation if it is a `CurveTo`; a `CurveTo` with no point to start from
/// contributes nothing.
pub open spec fn step<P>(t: Trace<P>, op: PathOp<P>, curve: Seq<P>) -> Trace<P> {
    match op {
        PathOp::Move(p) => Trace { done: flush(t), open: seq![p] },
        PathOp::LineTo(p) => Trace { done: t.done, open: t.open.push(p) },
        PathOp::CurveTo(_, _, _) => if t.open.len() > 0 {
            Trace { done: t.done, open: t.open + curve }
        } else {
            t
        },
    }
}

/// The trace after all of `ops`, where `curves[i]` is the flattening used
/// for `ops[i]`.
pub open spec fn trace<P>(ops: Seq<PathOp<P>>, curves: Seq<Seq<P>>) -> Trace<P>
    decreases ops.len(),
{
    if ops.len() == 0 {
        Trace { done: Seq::empty(), open: Seq::empty() }
    } else {
        step(trace(ops.drop_last(), curves), ops.last(), curves[ops.len() - 1])
    }
}

/// The polylines of a path, where `curves[i]` is the flattening used for
/// `ops[i]`.
pub open spec fn spec_flatten<P>(ops: Seq<PathOp<P>>, curves: Seq<Seq<P>>) -> Seq<Seq<P>> {
    flush(trace(ops, curves))
}

/// The control points of the Bezier segment that `ops[i]` asks to flatten:
/// the last point before it, its two control points and its end point.
/// `None` if `ops[i]` is no `CurveTo` or has no point to start from.
pub open spec fn curve_request<P>(ops: Seq<PathOp<P>>, curves: Seq<Seq<P>>, i: int) -> Option<
    (P, P, P, P),
> {
    let before = trace(ops.take(i), curves);
    match ops[i] {
        PathOp::CurveTo(c1, c2, end) => if before.open.len() > 0 {
            Some((before.open.last(), c1, c2, end))
        } else {
            None
        },
        _ => None,
    }
}

/// Whether every flattening in `curves` that a walk over `ops` uses is one
/// that `flatten_curve` can return for the segment in question.
pub open spec fn curves_come_from<P, F: Fn(P, P, P, P) -> Vec<P>>(
    ops: Seq<PathOp<P>>,
    curves: Seq<Seq<P>>,
    flatten_curve: F,
) -> bool {
    &&& curves.len() == ops.len()
    &&& forall|i: int|
        0 <= i < ops.len() ==> (#[trigger] curve_request(ops, curves, i) matches Some(args)
            ==> exists|points: Vec<P>|
            points@ == curves[i] && call_ensures(flatten_curve, args, points))
}

/// Whether `lines` are the polylines of `ops` for some choice of results of
/// `flatten_curve`.
pub open spec fn is_flattening<P, F: Fn(P, P, P, P) -> Vec<P>>(
    ops: Seq<PathOp<P>>,
    flatten_curve: F,
    lines: Seq<Seq<P>>,
) -> bool {
    exists|curves: Seq<Seq<P>>|
        curves_come_from(ops, curves, flatten_curve) && lines == #[trigger] spec_flatten(
            ops,
            curves,
        )
}

/// The polylines held by a vector of vectors of points.
pub open spec fn polylines<P>(lines: Vec<Vec<P>>) -> Seq<Seq<P>> {
    lines@.map_values(|line: Vec<P>| line@)
}

/// A trace depends only on the flattenings of its own operations.
pub proof fn lemma_trace_reads_own_curves<P>(
    ops: Seq<PathOp<P>>,
    curves: Seq<Seq<P>>,
    other: Seq<Seq<P>>,
)
    requires
        forall|i: int| 0 <= i < ops.len() ==> curves[i] == other[i],
    ensures
        trace(ops, curves) == trace(ops, other),
    decreases ops.len(),
{
    if ops.len() > 0 {
        lemma_trace_reads_own_curves(ops.drop_last(), curves, other);
    }
}

/// Whether every polyline of `lines` has at least one point.
pub open spec fn all_nonempty<P>(lines: Seq<Seq<P>>) -> bool {
    forall|k: int| 0 <= k < lines.len() ==> (#[trigger] lines[k]).len() > 0
}

/// No polyline of a path is empty.
pub proof fn lemma_polylines_nonempty<P>(ops: Seq<PathOp<P>>, curves: Seq<Seq<P>>)
    ensures
        all_nonempty(trace(ops, curves).done),
        all_nonempty(spec_flatten(ops, curves)),
    decreases ops.len(),
{
    if ops.len() > 0 {
        lemma_polylines_nonempty(ops.drop_last(), curves);
        assert(all_nonempty(flush(trace(ops.drop_last(), curves))));
    }
}

/// Whether `flatten_curve` gives the same points whenever it is given the
/// same segment.
pub open spec fn is_deterministic<P, F: Fn(P, P, P, P) -> Vec<P>>(flatten_curve: F) -> bool {
    forall|args: (P, P, P, P), a: Vec<P>, b: Vec<P>|
        call_ensures(flatten_curve, args, a) && call_ensures(flatten_curve, args, b) ==> a@ == b@
}

/// With a deterministic flattening of curves, two walks over the same path
/// agree after every operation.
pub proof fn lemma_walks_agree<P, F: Fn(P, P, P, P) -> Vec<P>>(
    ops: Seq<PathOp<P>>,
    flatten_curve: F,
    curves: Seq<Seq<P>>,
    other: Seq<Seq<P>>,
    n: int,
)
    requires
        is_deterministic(flatten_curve),
        curves_come_from(ops, curves, flatten_curve),
        curves_come_from(ops, other, flatten_curve),
        0 <= n <= ops.len(),
    ensures
        trace(ops.take(n), curves) == trace(ops.take(n), other),
    decreases n,
{
    if n > 0 {
        lemma_walks_agree(ops, flatten_curve, curves, other, n - 1);
        assert(ops.take(n).drop_last() =~= ops.take(n - 1));
        let before = trace(ops.take(n - 1), curves);
        if ops[n - 1] is CurveTo && before.open.len() > 0 {
            let args = curve_request(ops, curves, n - 1)->0;
            assert(curve_request(ops, other, n - 1) == Some(args));
            let a = choose|points: Vec<P>|
                points@ == curves[n - 1] && call_ensures(flatten_curve, args, points);
            let b = choose|points: Vec<P>|
                points@ == other[n - 1] && call_ensures(flatten_curve, args, points);
            assert(a@ == b@);
        }
    }
}

/// The polylines of a path are restartable: with a deterministic flattening
/// of curves, the same path always gives the same polylines.
pub proof fn lemma_flattening_is_unique<P, F: Fn(P, P, P, P) -> Vec<P>>(
    ops: Seq<PathOp<P>>,
    flatten_curve: F,
    a: Seq<Seq<P>>,
    b: Seq<Seq<P>>,
)
    requires
        is_deterministic(flatten_curve),
        is_flattening(ops, flatten_curve, a),
        is_flattening(ops, flatten_curve, b),
    ensures
        a == b,
{
    let curves = choose|curves: Seq<Seq<P>>|
        curves_come_from(ops, curves, flatten_curve) && a == #[trigger] spec_flatten(ops, curves);
    let other = choose|curves: Seq<Seq<P>>|
        curves_come_from(ops, curves, flatten_curve) && b == #[trigger] spec_flatten(ops, curves);
    lemma_walks_agree(ops, flatten_curve, curves, other, ops.len() as int);
    assert(ops.take(ops.len() as int) =~= ops);
}

/// Walks `ops` and returns its polylines, in order.
///
/// `Move` closes the polyline in progress, if it has any point, and starts a
/// new one at its point. `LineTo` appends its point. `CurveTo` calls
/// `flatten_curve` with the last point of the polyline in progress and its
/// own three points, and appends every point that comes back; where no
/// polyline is in progress it is skipped and `flatten_curve` is not called.
/// At the end the polyline in progress is closed, if it has any point, so no
/// polyline of the result is empty.
pub fn flatten<P: Copy, F: Fn(P, P, P, P) -> Vec<P>>(
    ops: &Vec<PathOp<P>>,
    flatten_curve: &F,
) -> (lines: Vec<Vec<P>>)
    requires
        forall|a: P, b: P, c: P, d: P| call_requires(*flatten_curve, (a, b, c, d)),
    ensures
        is_flattening(ops@, *flatten_curve, polylines(lines)),
        all_nonempty(polylines(lines)),
{
    let mut done: Vec<Vec<P>> = Vec::new();
    let mut open: Vec<P> = Vec::new();
    let ghost mut curves: Seq<Seq<P>> = Seq::new(ops@.len(), |i: int| Seq::empty());
    let n = ops.len();
    let mut i: usize = 0;
    while i < n
        invariant
            n == ops@.len(),
            i <= n,
            curves.len() == n,
            forall|a: P, b: P, c: P, d: P| call_requires(*flatten_curve, (a, b, c, d)),
            trace(ops@.take(i as int), curves).done == polylines(done),
            trace(ops@.take(i as int), curves).open == open@,
            forall|k: int|
                0 <= k < i ==> (#[trigger] curve_request(ops@, curves, k) matches Some(args)
                    ==> exists|points: Vec<P>|
                    points@ == curves[k] && call_ensures(*flatten_curve, args, points)),
        decreases n - i,
    {
        let ghost before = trace(ops@.take(i as int), curves);
        let ghost old_curves = curves;
        let op = ops[i];
        match op {
            PathOp::Move(p) => {
                if open.len() > 0 {
                    done.push(open);
                    open = Vec::new();
                }
                open.push(p);
            },
            PathOp::LineTo(p) => {
                open.push(p);
            },
            PathOp::CurveTo(c1, c2, end) => {
                if open.len() > 0 {
                    let start = open[open.len() - 1];
                    let points = flatten_curve(start, c1, c2, end);
                    proof {
                        curves = curves.update(i as int, points@);
                        lemma_trace_reads_own_curves(ops@.take(i as int), old_curves, curves);
                    }
                    let m = points.len();
                    let mut k: usize = 0;
                    while k < m
                        invariant
                            m == points@.len(),
                            k <= m,
                            open@ == before.open + points@.take(k as int),
                        decreases m - k,
                    {
                        open.push(points[k]);
                        k += 1;
                    }
                }
            },
        }
        proof {
            assert(ops@.take(i as int + 1).drop_last() =~= ops@.take(i as int));
            lemma_trace_reads_own_curves(ops@.take(i as int), old_curves, curves);
            assert forall|k: int| 0 <= k < i + 1 implies (#[trigger] curve_request(
                ops@,
                curves,
                k,
            ) matches Some(args) ==> exists|points: Vec<P>|
                points@ == curves[k] && call_ensures(*flatten_curve, args, points)) by {
                lemma_trace_reads_own_curves(ops@.take(k), old_curves, curves);
            }
        }
        i += 1;
    }
    proof {
        assert(ops@.take(n as int) =~= ops@);
        lemma_polylines_nonempty(ops@, curves);
    }
    if open.len() > 0 {
        let ghost closed = polylines(done);
        done.push(open);
        assert(polylines(done) =~= closed.push(open@));
    }
    done
}

} // verus!
