use vstd::prelude::*;
use crate::types::{Point2D, COORD_BOUND};
use crate::types::rat::{Rat, lemma_mul_in_bound};

verus! {

/// Bound on the `a` and `b` coefficients of a well-formed line; a line
/// through two in-range points never exceeds it.
pub const LINE_AB_BOUND: i64 = 2 * COORD_BOUND;

/// Bound on the `c` coefficient of a well-formed line.
pub const LINE_C_BOUND: i64 = 4 * COORD_BOUND * COORD_BOUND;

/// An infinite line in implicit form `a·x + b·y + c = 0`.
#[derive(Debug, Clone, Copy, PartialEq, Eq, Structural)]
pub struct Line {
    pub a: i64,
    pub b: i64,
    pub c: i64,
}

/// The magnitude of `v`.
pub open spec fn abs_i(v: int) -> int {
    if v >= 0 {
        v
    } else {
        -v
    }
}

/// Determinant of the linear system formed by two implicit lines; zero
/// exactly for parallel or coincident (or degenerate) lines.
pub open spec fn det_spec(l1: Line, l2: Line) -> int {
    l1.a * l2.b - l2.a * l1.b
}

/// Numerator of the intersection's x coordinate by Cramer's rule; the
/// denominator is `det_spec`.
pub open spec fn x_num_spec(l1: Line, l2: Line) -> int {
    l1.b * l2.c - l2.b * l1.c
}

/// Numerator of the intersection's y coordinate by Cramer's rule.
pub open spec fn y_num_spec(l1: Line, l2: Line) -> int {
    l2.a * l1.c - l1.a * l2.c
}

/// Two lines that share the horizontal direction (such as two sweep lines at
/// different heights) always have a zero determinant, so `get_intersection_point`
/// returns nothing for them, whether they are distinct or coincident.
pub proof fn lemma_horizontal_lines_are_parallel(l1: Line, l2: Line)
    requires
        l1.a == 0,
        l2.a == 0,
    ensures
        det_spec(l1, l2) == 0,
{
}

impl Line {
    pub open spec fn wf(self) -> bool {
        &&& -LINE_AB_BOUND <= self.a <= LINE_AB_BOUND
        &&& -LINE_AB_BOUND <= self.b <= LINE_AB_BOUND
        &&& -LINE_C_BOUND <= self.c <= LINE_C_BOUND
    }

    pub fn new(a: i64, b: i64, c: i64) -> (r: Line)
        requires
            -LINE_AB_BOUND <= a <= LINE_AB_BOUND,
            -LINE_AB_BOUND <= b <= LINE_AB_BOUND,
            -LINE_C_BOUND <= c <= LINE_C_BOUND,
        ensures
            r == (Line { a, b, c }),
            r.wf(),
    {
        Line { a, b, c }
    }

    /// The line through two points:
    /// `a = y2 - y1`, `b = x1 - x2`, `c = (x2 - x1)·y1 - (y2 - y1)·x1`.
    /// Coinciding points yield the degenerate zero line.
    pub fn from_points(x1: i64, y1: i64, x2: i64, y2: i64) -> (r: Line)
        requires
            -COORD_BOUND <= x1 <= COORD_BOUND,
            -COORD_BOUND <= y1 <= COORD_BOUND,
            -COORD_BOUND <= x2 <= COORD_BOUND,
            -COORD_BOUND <= y2 <= COORD_BOUND,
        ensures
            r.wf(),
            r.a == y2 - y1,
            r.b == x1 - x2,
            r.c == (x2 - x1) * y1 - (y2 - y1) * x1,
    {
        let dx: i64 = x2 - x1;
        let dy: i64 = y2 - y1;
        proof {
            lemma_mul_in_bound(dx as int, y1 as int, 2 * COORD_BOUND as int, COORD_BOUND as int);
            lemma_mul_in_bound(dy as int, x1 as int, 2 * COORD_BOUND as int, COORD_BOUND as int);
        }
        Line::new(dy, -dx, (dx * y1) - (dy * x1))
    }

    /// Solves the two implicit equations by Cramer's rule. `None` exactly
    /// when the determinant is zero (parallel, coincident, or degenerate
    /// lines); otherwise the exact rational solution, with the positive
    /// determinant magnitude as denominator.
    pub fn get_intersection_point(&self, line: &Line) -> (r: Option<Point2D>)
        requires
            self.wf(),
            line.wf(),
        ensures
            r is Some <==> det_spec(*self, *line) != 0,
            r matches Some(p) ==> p.x.wf() && p.y.wf() && p.x.den == abs_i(det_spec(*self, *line))
                && p.y.den == abs_i(det_spec(*self, *line)) && p.x.num == (if det_spec(*self, *line)
                > 0 {
                x_num_spec(*self, *line)
            } else {
                -x_num_spec(*self, *line)
            }) && p.y.num == (if det_spec(*self, *line) > 0 {
                y_num_spec(*self, *line)
            } else {
                -y_num_spec(*self, *line)
            }),
            r matches Some(p) ==> p.x.num * det_spec(*self, *line) == x_num_spec(*self, *line)
                * p.x.den && p.y.num * det_spec(*self, *line) == y_num_spec(*self, *line) * p.y.den,
    {
        let a1 = self.a as i128;
        let b1 = self.b as i128;
        let c1 = self.c as i128;
        let a2 = line.a as i128;
        let b2 = line.b as i128;
        let c2 = line.c as i128;
        proof {
            lemma_mul_in_bound(a1 as int, b2 as int, LINE_AB_BOUND as int, LINE_AB_BOUND as int);
            lemma_mul_in_bound(a2 as int, b1 as int, LINE_AB_BOUND as int, LINE_AB_BOUND as int);
            lemma_mul_in_bound(b1 as int, c2 as int, LINE_AB_BOUND as int, LINE_C_BOUND as int);
            lemma_mul_in_bound(b2 as int, c1 as int, LINE_AB_BOUND as int, LINE_C_BOUND as int);
            lemma_mul_in_bound(a2 as int, c1 as int, LINE_AB_BOUND as int, LINE_C_BOUND as int);
            lemma_mul_in_bound(a1 as int, c2 as int, LINE_AB_BOUND as int, LINE_C_BOUND as int);
        }
        let d = a1 * b2 - a2 * b1;
        if d == 0 {
            return None;
        }
        let xn = b1 * c2 - b2 * c1;
        let yn = a2 * c1 - a1 * c2;
        if d > 0 {
            Some(Point2D { x: Rat { num: xn, den: d }, y: Rat { num: yn, den: d } })
        } else {
            proof {
                assert((-xn) * d == xn * (-d)) by (nonlinear_arith);
                assert((-yn) * d == yn * (-d)) by (nonlinear_arith);
            }
            Some(Point2D { x: Rat { num: -xn, den: -d }, y: Rat { num: -yn, den: -d } })
        }
    }
}

} // verus!
