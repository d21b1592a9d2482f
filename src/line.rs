use vstd::prelude::*;

use vstd::arithmetic::div_mod::{
    lemma_div_is_ordered,
    lemma_div_pos_is_pos,
    lemma_fundamental_div_mod,
    lemma_fundamental_div_mod_converse,
    lemma_mod_pos_bound,
};

use crate::num::LineRSInt;
use crate::signed::{abs, Sign, SignedInt};

verus! {

/// A grid point.
#[derive(Debug, Copy, Clone, PartialEq)]
pub struct Point<T> {
    pub x: T,
    pub y: T,
}

impl<T> Point<T> {
    pub fn new(x: T, y: T) -> (r: Point<T>)
        ensures
            r.x == x,
            r.y == y,
    {
        Point { x, y }
    }
}

impl<T: LineRSInt> Point<T> {
    /// The point's coordinates as mathematical integers.
    pub open spec fn coords(self) -> (int, int) {
        (self.x.as_int(), self.y.as_int())
    }
}

/// `n` unit steps in the direction of `v`: `n`, `-n`, or `0` when `v` is zero.
pub open spec fn step_toward(v: int, n: int) -> int {
    if v > 0 {
        n
    } else if v < 0 {
        -n
    } else {
        0
    }
}

/// How many minor-axis steps a Bresenham line has taken after `k` steps
/// along its major axis, where the deltas along the major and the minor
/// axis have magnitudes `a` and `b`. This is `k * b / a` rounded to the
/// nearest integer, halves rounded down.
pub open spec fn minor_steps(a: int, b: int, k: int) -> int {
    if a <= 0 {
        0
    } else {
        (2 * b * k + a) / (2 * a)
    }
}

/// The Bresenham decision variable after `k` major-axis steps, scaled by two.
/// The minor axis advances on step `k + 1` exactly when it is non-negative.
pub open spec fn decision(a: int, b: int, k: int) -> int {
    2 * b * (k + 1) - a - 2 * a * minor_steps(a, b, k)
}

/// Whether the line from `p` to `q` moves further along y than along x, so
/// that y is its major axis.
pub open spec fn is_steep(p: (int, int), q: (int, int)) -> bool {
    abs(q.0 - p.0) < abs(q.1 - p.1)
}

/// Number of points on the line from `p` to `q`, both ends included:
/// `max(|dx|, |dy|) + 1`.
pub open spec fn line_len(p: (int, int), q: (int, int)) -> int {
    if is_steep(p, q) {
        abs(q.1 - p.1) + 1
    } else {
        abs(q.0 - p.0) + 1
    }
}

/// The `k`-th point of the Bresenham line from `p` to `q`: `k` steps along
/// the major axis, and the rounded share of them along the minor axis.
pub open spec fn line_point(p: (int, int), q: (int, int), k: int) -> (int, int) {
    let dx = q.0 - p.0;
    let dy = q.1 - p.1;
    if is_steep(p, q) {
        (p.0 + step_toward(dx, minor_steps(abs(dy), abs(dx), k)), p.1 + step_toward(dy, k))
    } else {
        (p.0 + step_toward(dx, k), p.1 + step_toward(dy, minor_steps(abs(dx), abs(dy), k)))
    }
}

/// The minor axis advances by one exactly when the decision variable is
/// non-negative, and the decision variable stays in `[2b - 2a, 2b)`.
proof fn lemma_minor_step(a: int, b: int, k: int)
    requires
        1 <= a,
        0 <= b <= a,
        0 <= k,
    ensures
        2 * b - 2 * a <= decision(a, b, k) < 2 * b,
        minor_steps(a, b, k + 1) == minor_steps(a, b, k) + if decision(a, b, k) >= 0 {
            1int
        } else {
            0int
        },
        decision(a, b, k + 1) == decision(a, b, k) + 2 * b - if decision(a, b, k) >= 0 {
            2 * a
        } else {
            0int
        },
{
    let n = 2 * b * k + a;
    let m = n / (2 * a);
    let r = n % (2 * a);
    assert(0 <= n) by (nonlinear_arith)
        requires
            n == 2 * b * k + a,
            0 <= b,
            0 <= k,
            1 <= a,
    ;
    lemma_fundamental_div_mod(n, 2 * a);
    lemma_mod_pos_bound(n, 2 * a);
    assert(2 * b * (k + 1) + a == n + 2 * b) by (nonlinear_arith)
        requires
            n == 2 * b * k + a,
    ;
    assert(decision(a, b, k) == r + 2 * b - 2 * a) by (nonlinear_arith)
        requires
            n == 2 * a * m + r,
            m == minor_steps(a, b, k),
            n == 2 * b * k + a,
            decision(a, b, k) == 2 * b * (k + 1) - a - 2 * a * m,
    ;
    if r + 2 * b >= 2 * a {
        assert(n + 2 * b == (m + 1) * (2 * a) + (r + 2 * b - 2 * a)) by (nonlinear_arith)
            requires
                n == 2 * a * m + r,
        ;
        lemma_fundamental_div_mod_converse(n + 2 * b, 2 * a, m + 1, r + 2 * b - 2 * a);
    } else {
        assert(n + 2 * b == m * (2 * a) + (r + 2 * b)) by (nonlinear_arith)
            requires
                n == 2 * a * m + r,
        ;
        lemma_fundamental_div_mod_converse(n + 2 * b, 2 * a, m, r + 2 * b);
    }
    let m1 = minor_steps(a, b, k + 1);
    assert(decision(a, b, k + 1) == decision(a, b, k) + 2 * b - 2 * a * (m1 - m)) by (nonlinear_arith)
        requires
            decision(a, b, k) == 2 * b * (k + 1) - a - 2 * a * m,
            decision(a, b, k + 1) == 2 * b * (k + 1 + 1) - a - 2 * a * m1,
    ;
    assert(2 * a * (m1 - m) == if decision(a, b, k) >= 0 {
        2 * a
    } else {
        0int
    }) by (nonlinear_arith)
        requires
            m1 - m == if decision(a, b, k) >= 0 {
                1int
            } else {
                0int
            },
    ;
}

/// No minor-axis steps at the start, all `b` of them at the end, and never
/// more than `b` in between.
proof fn lemma_minor_steps_bounds(a: int, b: int, k: int)
    requires
        0 <= b <= a,
        0 <= k <= a,
    ensures
        0 <= minor_steps(a, b, k) <= b,
        minor_steps(a, b, 0) == 0,
        minor_steps(a, b, a) == b,
        decision(a, b, 0) == 2 * b - a,
{
    if a >= 1 {
        lemma_fundamental_div_mod_converse(a, 2 * a, 0, a);
        assert(2 * b * a + a == b * (2 * a) + a) by (nonlinear_arith);
        lemma_fundamental_div_mod_converse(2 * b * a + a, 2 * a, b, a);
        assert(0 <= 2 * b * k + a <= 2 * b * a + a) by (nonlinear_arith)
            requires
                0 <= b,
                0 <= k <= a,
        ;
        lemma_div_pos_is_pos(2 * b * k + a, 2 * a);
        lemma_div_is_ordered(2 * b * k + a, 2 * b * a + a, 2 * a);
    }
}

/// The line starts at `p` and ends at `q`.
pub proof fn lemma_line_endpoints(p: (int, int), q: (int, int))
    ensures
        line_point(p, q, 0) == p,
        line_point(p, q, line_len(p, q) - 1) == q,
{
    let (ax, ay) = (abs(q.0 - p.0), abs(q.1 - p.1));
    if is_steep(p, q) {
        lemma_minor_steps_bounds(ay, ax, 0);
    } else {
        lemma_minor_steps_bounds(ax, ay, 0);
    }
}

/// Consecutive points of a line differ by at most one unit on each axis, and
/// no point repeats the one before it.
pub proof fn lemma_line_steps(p: (int, int), q: (int, int))
    ensures
        forall|k: int|
            0 <= k < line_len(p, q) - 1 ==> {
                let u = #[trigger] line_point(p, q, k);
                let v = line_point(p, q, k + 1);
                &&& abs(v.0 - u.0) <= 1
                &&& abs(v.1 - u.1) <= 1
                &&& v != u
            },
{
    let (ax, ay) = (abs(q.0 - p.0), abs(q.1 - p.1));
    assert forall|k: int| 0 <= k < line_len(p, q) - 1 implies {
        let u = #[trigger] line_point(p, q, k);
        let v = line_point(p, q, k + 1);
        &&& abs(v.0 - u.0) <= 1
        &&& abs(v.1 - u.1) <= 1
        &&& v != u
    } by {
        if is_steep(p, q) {
            lemma_minor_step(ay, ax, k);
        } else {
            lemma_minor_step(ax, ay, k);
        }
    }
}

/// Along each axis the points move one way only: x never decreases when
/// `q.0 >= p.0` and never increases otherwise, and likewise for y.
pub proof fn lemma_line_monotone(p: (int, int), q: (int, int))
    ensures
        forall|k: int|
            0 <= k < line_len(p, q) - 1 ==> {
                let u = #[trigger] line_point(p, q, k);
                let v = line_point(p, q, k + 1);
                &&& (q.0 >= p.0 ==> u.0 <= v.0)
                &&& (q.0 < p.0 ==> u.0 >= v.0)
                &&& (q.1 >= p.1 ==> u.1 <= v.1)
                &&& (q.1 < p.1 ==> u.1 >= v.1)
            },
{
    let (ax, ay) = (abs(q.0 - p.0), abs(q.1 - p.1));
    assert forall|k: int| 0 <= k < line_len(p, q) - 1 implies {
        let u = #[trigger] line_point(p, q, k);
        let v = line_point(p, q, k + 1);
        &&& (q.0 >= p.0 ==> u.0 <= v.0)
        &&& (q.0 < p.0 ==> u.0 >= v.0)
        &&& (q.1 >= p.1 ==> u.1 <= v.1)
        &&& (q.1 < p.1 ==> u.1 >= v.1)
    } by {
        if is_steep(p, q) {
            lemma_minor_step(ay, ax, k);
        } else {
            lemma_minor_step(ax, ay, k);
        }
    }
}

/// The points of a line depend on the endpoints' integer values alone, not
/// on the coordinate type: two results of `calculate_line`, say one over a
/// signed and one over an unsigned type, whose endpoints have the same
/// values hold the same points in the same order.
pub proof fn lemma_line_type_independent<T: LineRSInt, U: LineRSInt>(
    p1: Point<T>,
    p2: Point<T>,
    line_t: Seq<Point<T>>,
    q1: Point<U>,
    q2: Point<U>,
    line_u: Seq<Point<U>>,
)
    requires
        p1.coords() == q1.coords(),
        p2.coords() == q2.coords(),
        line_t.len() == line_len(p1.coords(), p2.coords()),
        forall|k: int|
            0 <= k < line_t.len() ==> #[trigger] line_t[k].coords() == line_point(
                p1.coords(),
                p2.coords(),
                k,
            ),
        line_u.len() == line_len(q1.coords(), q2.coords()),
        forall|k: int|
            0 <= k < line_u.len() ==> #[trigger] line_u[k].coords() == line_point(
                q1.coords(),
                q2.coords(),
                k,
            ),
    ensures
        line_t.len() == line_u.len(),
        forall|k: int| 0 <= k < line_t.len() ==> #[trigger] line_t[k].coords() == line_u[k].coords(),
{
    assert forall|k: int| 0 <= k < line_t.len() implies #[trigger] line_t[k].coords()
        == line_u[k].coords() by {
        assert(line_u[k].coords() == line_point(q1.coords(), q2.coords(), k));
    }
}

/// One unit step of `c` in the direction of `dir`; no step where `dir` is
/// zero.
fn step_once<T: LineRSInt>(c: T, dir: SignedInt<T>) -> (r: T)
    requires
        dir.wf(),
        T::min_int() <= c.as_int() + step_toward(dir.value(), 1) <= T::max_int(),
    ensures
        r.as_int() == c.as_int() + step_toward(dir.value(), 1),
{
    match dir.sign {
        Sign::Pos => {
            if dir.magnitude.line_rs_eq(T::line_rs_zero()) {
                c
            } else {
                c.line_rs_add(T::line_rs_one())
            }
        },
        // a negative value has a non-zero magnitude, so there is always a step
        Sign::Neg => c.line_rs_sub(T::line_rs_one()),
    }
}

/// The grid points of the Bresenham line from `p1` to `p2`, in order, both
/// ends included.
///
/// All eight directions are reduced to one by swapping the axes when the line
/// is steeper than 45 degrees. Every signed quantity is carried as a
/// `SignedInt`, so `T` may be unsigned. Twice the larger coordinate distance
/// must fit in `T`.
pub fn calculate_line<T: LineRSInt>(p1: Point<T>, p2: Point<T>) -> (line: Vec<Point<T>>)
    requires
        2 * abs(p2.x.as_int() - p1.x.as_int()) <= T::max_int(),
        2 * abs(p2.y.as_int() - p1.y.as_int()) <= T::max_int(),
    ensures
        line@.len() == line_len(p1.coords(), p2.coords()),
        forall|k: int|
            0 <= k < line@.len() ==> #[trigger] line@[k].coords() == line_point(
                p1.coords(),
                p2.coords(),
                k,
            ),
        line@[0] == p1,
        line@[line@.len() - 1] == p2,
{
    let ghost p = p1.coords();
    let ghost q = p2.coords();
    proof {
        T::lemma_in_range(p1.x);
        T::lemma_in_range(p1.y);
        T::lemma_in_range(p2.x);
        T::lemma_in_range(p2.y);
        T::lemma_range_holds_small_constants();
        lemma_line_endpoints(p, q);
    }
    // the signed run and rise
    let mut x_diff = SignedInt::diff_of(p2.x, p1.x);
    let mut y_diff = SignedInt::diff_of(p2.y, p1.y);

    // make x the major axis: swap the axes where the line is steeper than 45
    // degrees, and swap back when emitting points
    let swap_axes = x_diff.magnitude.line_rs_lt(y_diff.magnitude);
    let mut x = p1.x;
    let mut y = p1.y;
    if swap_axes {
        let tmp_diff = x_diff;
        x_diff = y_diff;
        y_diff = tmp_diff;
        let tmp = x;
        x = y;
        y = tmp;
    }
    let ghost a = x_diff.magnitude.as_int();
    let ghost b = y_diff.magnitude.as_int();
    let ghost x0 = x.as_int();
    let ghost y0 = y.as_int();

    let two = T::line_rs_two();
    let two_a = x_diff.magnitude.line_rs_mul(two);
    let two_b = y_diff.magnitude.line_rs_mul(two);
    let mut bresenham_diff = SignedInt::diff_of(two_b, x_diff.magnitude);
    proof {
        lemma_minor_steps_bounds(a, b, 0);
    }

    let mut line = vec![p1];
    let high = x_diff.magnitude;
    let mut i = T::line_rs_zero();
    while i.line_rs_lt(high)
        invariant
            swap_axes == is_steep(p, q),
            x_diff.wf(),
            y_diff.wf(),
            a == x_diff.magnitude.as_int(),
            b == y_diff.magnitude.as_int(),
            0 <= b <= a,
            2 * a <= T::max_int(),
            T::min_int() <= 0,
            two_a.as_int() == 2 * a,
            two_b.as_int() == 2 * b,
            high.as_int() == a,
            !swap_axes ==> x0 == p.0 && y0 == p.1 && x_diff.value() == q.0 - p.0 && y_diff.value()
                == q.1 - p.1,
            swap_axes ==> x0 == p.1 && y0 == p.0 && x_diff.value() == q.1 - p.1 && y_diff.value()
                == q.0 - p.0,
            T::min_int() <= x0 <= T::max_int(),
            T::min_int() <= y0 <= T::max_int(),
            T::min_int() <= x0 + x_diff.value() <= T::max_int(),
            T::min_int() <= y0 + y_diff.value() <= T::max_int(),
            0 <= i.as_int() <= a,
            x.as_int() == x0 + step_toward(x_diff.value(), i.as_int()),
            y.as_int() == y0 + step_toward(y_diff.value(), minor_steps(a, b, i.as_int())),
            bresenham_diff.wf(),
            bresenham_diff.value() == decision(a, b, i.as_int()),
            line@.len() == i.as_int() + 1,
            forall|k: int| 0 <= k < line@.len() ==> #[trigger] line@[k].coords() == line_point(p, q, k),
            line@[0] == p1,
        decreases a - i.as_int(),
    {
        let ghost k = i.as_int();
        proof {
            lemma_minor_step(a, b, k);
            lemma_minor_steps_bounds(a, b, k);
            lemma_minor_steps_bounds(a, b, k + 1);
        }
        i = i.line_rs_add(T::line_rs_one());
        x = step_once(x, x_diff);
        if let Sign::Neg = bresenham_diff.sign {
            bresenham_diff = bresenham_diff.add(two_b);
        } else {
            y = step_once(y, y_diff);
            // subtracting before adding keeps every intermediate value within
            // [-2a, 2b], so nothing beyond twice the major distance is needed
            bresenham_diff = bresenham_diff.sub(two_a).add(two_b);
        }
        if swap_axes {
            line.push(Point { x: y, y: x });
        } else {
            line.push(Point { x, y });
        }
    }
    proof {
        let last = line@[line@.len() - 1];
        assert(last.coords() == line_point(p, q, line@.len() - 1));
        assert(last.coords() == q);
        T::lemma_as_int_injective(last.x, p2.x);
        T::lemma_as_int_injective(last.y, p2.y);
    }
    line
}

} // verus!
