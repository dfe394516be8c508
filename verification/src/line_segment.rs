use vstd::prelude::*;
use crate::line::{Line, det_spec, x_num_spec, y_num_spec, abs_i, LINE_AB_BOUND};
use crate::sweep_line::SweepLine;
use crate::types::{Point2D, Order, COORD_BOUND};
use crate::types::rat::{Rat, lemma_mul_in_bound};

verus! {

/// A bounded segment given by its two endpoints, in the order they were
/// supplied. Two segments are equal only when all four coordinates match in
/// the same endpoint order.
#[derive(Debug, Clone, Copy, PartialEq, Eq, Structural, Hash)]
pub struct LineSegment {
    pub x1: i64,
    pub y1: i64,
    pub x2: i64,
    pub y2: i64,
}

/// The signed-distance value `a·x + b·y + c` of a point against a line.
pub open spec fn side_at(l: Line, x: int, y: int) -> int {
    l.a * x + l.b * y + l.c
}

/// The inclusive straddle test: the segment's endpoints lie on opposite
/// sides of the line, or one of them lies exactly on it.
pub open spec fn touches_spec(s: LineSegment, l: Line) -> bool {
    side_at(l, s.x1 as int, s.y1 as int) * side_at(l, s.x2 as int, s.y2 as int) <= 0
}

/// Segment-versus-segment intersection: each segment's endpoints must
/// straddle (or touch) the other's infinite line.
pub open spec fn seg_intersects_spec(s1: LineSegment, s2: LineSegment) -> bool {
    touches_spec(s1, s2.line_spec()) && touches_spec(s2, s1.line_spec())
}

/// Determinant of a segment's line against `l` (the segment's line first).
pub open spec fn det_sl(s: LineSegment, l: Line) -> int {
    det_spec(s.line_spec(), l)
}

/// The sweep-ordering key of a segment against a horizontal-ish line: the x
/// coordinate where the segment's line meets `l`, as a normalized rational
/// (positive denominator), falling back to the segment's own `x1` when the
/// two lines are parallel.
pub open spec fn key_num(s: LineSegment, l: Line) -> int {
    if det_sl(s, l) == 0 {
        s.x1 as int
    } else if det_sl(s, l) > 0 {
        x_num_spec(s.line_spec(), l)
    } else {
        -x_num_spec(s.line_spec(), l)
    }
}

pub open spec fn key_den(s: LineSegment, l: Line) -> int {
    if det_sl(s, l) == 0 {
        1
    } else {
        abs_i(det_sl(s, l))
    }
}

/// The key of `s1` is strictly below the key of `s2` against `l`.
pub open spec fn key_lt(s1: LineSegment, s2: LineSegment, l: Line) -> bool {
    key_num(s1, l) * key_den(s2, l) < key_num(s2, l) * key_den(s1, l)
}

/// The keys of `s1` and `s2` against `l` denote the same value.
pub open spec fn key_eq(s1: LineSegment, s2: LineSegment, l: Line) -> bool {
    key_num(s1, l) * key_den(s2, l) == key_num(s2, l) * key_den(s1, l)
}

/// How the inclusive straddle test decides, by the signs of the two
/// signed-distance values: endpoints on strictly opposite sides touch, an
/// endpoint exactly on the line touches, and a segment entirely on one
/// strict side does not.
pub proof fn lemma_touches_by_sides(s: LineSegment, l: Line)
    by (nonlinear_arith)
    ensures
        side_at(l, s.x1 as int, s.y1 as int) == 0 ==> touches_spec(s, l),
        side_at(l, s.x2 as int, s.y2 as int) == 0 ==> touches_spec(s, l),
        side_at(l, s.x1 as int, s.y1 as int) < 0 && side_at(l, s.x2 as int, s.y2 as int) > 0
            ==> touches_spec(s, l),
        side_at(l, s.x1 as int, s.y1 as int) > 0 && side_at(l, s.x2 as int, s.y2 as int) < 0
            ==> touches_spec(s, l),
        side_at(l, s.x1 as int, s.y1 as int) > 0 && side_at(l, s.x2 as int, s.y2 as int) > 0
            ==> !touches_spec(s, l),
        side_at(l, s.x1 as int, s.y1 as int) < 0 && side_at(l, s.x2 as int, s.y2 as int) < 0
            ==> !touches_spec(s, l),
{
}

impl LineSegment {
    pub open spec fn wf(self) -> bool {
        &&& -COORD_BOUND <= self.x1 <= COORD_BOUND
        &&& -COORD_BOUND <= self.y1 <= COORD_BOUND
        &&& -COORD_BOUND <= self.x2 <= COORD_BOUND
        &&& -COORD_BOUND <= self.y2 <= COORD_BOUND
    }

    /// The implicit line through the segment's endpoints, as exact integers.
    pub open spec fn line_spec(self) -> Line {
        Line {
            a: (self.y2 - self.y1) as i64,
            b: (self.x1 - self.x2) as i64,
            c: ((self.x2 - self.x1) * self.y1 - (self.y2 - self.y1) * self.x1) as i64,
        }
    }

    pub fn new(x1: i64, y1: i64, x2: i64, y2: i64) -> (r: LineSegment)
        requires
            -COORD_BOUND <= x1 <= COORD_BOUND,
            -COORD_BOUND <= y1 <= COORD_BOUND,
            -COORD_BOUND <= x2 <= COORD_BOUND,
            -COORD_BOUND <= y2 <= COORD_BOUND,
        ensures
            r == (LineSegment { x1, y1, x2, y2 }),
            r.wf(),
    {
        LineSegment { x1, y1, x2, y2 }
    }

    /// The values of `line_spec` fit `i64` for a well-formed segment.
    proof fn lemma_line_spec_fits(self)
        requires
            self.wf(),
        ensures
            self.line_spec().a == self.y2 - self.y1,
            self.line_spec().b == self.x1 - self.x2,
            self.line_spec().c == (self.x2 - self.x1) * self.y1 - (self.y2 - self.y1) * self.x1,
            self.line_spec().wf(),
    {
        lemma_mul_in_bound(
            self.x2 - self.x1,
            self.y1 as int,
            2 * COORD_BOUND as int,
            COORD_BOUND as int,
        );
        lemma_mul_in_bound(
            self.y2 - self.y1,
            self.x1 as int,
            2 * COORD_BOUND as int,
            COORD_BOUND as int,
        );
    }

    pub fn to_line(&self) -> (r: Line)
        requires
            self.wf(),
        ensures
            r == self.line_spec(),
            r.wf(),
    {
        proof {
            self.lemma_line_spec_fits();
        }
        Line::from_points(self.x1, self.y1, self.x2, self.y2)
    }

    /// The inclusive signed-distance test of this segment against a line:
    /// true when the endpoints straddle the line or touch it.
    pub fn intersects(&self, line: &Line) -> (r: bool)
        requires
            self.wf(),
            line.wf(),
        ensures
            r == touches_spec(*self, *line),
    {
        proof {
            lemma_mul_in_bound(line.a as int, self.x1 as int, LINE_AB_BOUND as int, COORD_BOUND as int);
            lemma_mul_in_bound(line.b as int, self.y1 as int, LINE_AB_BOUND as int, COORD_BOUND as int);
            lemma_mul_in_bound(line.a as int, self.x2 as int, LINE_AB_BOUND as int, COORD_BOUND as int);
            lemma_mul_in_bound(line.b as int, self.y2 as int, LINE_AB_BOUND as int, COORD_BOUND as int);
        }
        let t1 = line.a as i128 * self.x1 as i128 + line.b as i128 * self.y1 as i128
            + line.c as i128;
        let t2 = line.a as i128 * self.x2 as i128 + line.b as i128 * self.y2 as i128
            + line.c as i128;
        proof {
            lemma_mul_in_bound(t1 as int, t2 as int, 40_000_000_000_000, 40_000_000_000_000);
        }
        t1 * t2 <= 0
    }

    /// Mutual straddle test against the other segment.
    pub fn intersects_segment(&self, segment: &LineSegment) -> (r: bool)
        requires
            self.wf(),
            segment.wf(),
        ensures
            r == seg_intersects_spec(*self, *segment),
    {
        self.intersects(&segment.to_line()) && segment.intersects(&self.to_line())
    }

    /// `None` unless this segment touches the line; otherwise the
    /// intersection of the line with this segment's infinite line.
    pub fn get_intersection_point(&self, line: &Line) -> (r: Option<Point2D>)
        requires
            self.wf(),
            line.wf(),
        ensures
            r is Some <==> touches_spec(*self, *line) && det_spec(*line, self.line_spec()) != 0,
            r matches Some(p) ==> p.x.wf() && p.y.wf() && p.x.num * det_spec(
                *line,
                self.line_spec(),
            ) == x_num_spec(*line, self.line_spec()) * p.x.den && p.y.num * det_spec(
                *line,
                self.line_spec(),
            ) == y_num_spec(*line, self.line_spec()) * p.y.den,
    {
        if !self.intersects(line) {
            return None;
        }
        line.get_intersection_point(&self.to_line())
    }

    /// The one-sided variant the pair record uses: only this segment's touch
    /// test against the other's line guards the computation, so the result
    /// may be present even when the segments do not mutually intersect.
    pub fn get_intersection_point_from_segment(&self, segment: &LineSegment) -> (r: Option<
        Point2D,
    >)
        requires
            self.wf(),
            segment.wf(),
        ensures
            r is Some <==> touches_spec(*self, segment.line_spec()) && det_spec(
                segment.line_spec(),
                self.line_spec(),
            ) != 0,
            r matches Some(p) ==> p.x.den == abs_i(det_spec(segment.line_spec(), self.line_spec()))
                && p.y.den == p.x.den && p.x.num == (if det_spec(
                segment.line_spec(),
                self.line_spec(),
            ) > 0 {
                x_num_spec(segment.line_spec(), self.line_spec())
            } else {
                -x_num_spec(segment.line_spec(), self.line_spec())
            }) && p.y.num == (if det_spec(segment.line_spec(), self.line_spec()) > 0 {
                y_num_spec(segment.line_spec(), self.line_spec())
            } else {
                -y_num_spec(segment.line_spec(), self.line_spec())
            }),
            r matches Some(p) ==> p.x.wf() && p.y.wf() && p.x.num * det_spec(
                segment.line_spec(),
                self.line_spec(),
            ) == x_num_spec(segment.line_spec(), self.line_spec()) * p.x.den && p.y.num * det_spec(
                segment.line_spec(),
                self.line_spec(),
            ) == y_num_spec(segment.line_spec(), self.line_spec()) * p.y.den,
    {
        if !self.intersects(&segment.to_line()) {
            return None;
        }
        segment.to_line().get_intersection_point(&self.to_line())
    }

    /// Orders this segment against another by where their lines cross `line`
    /// (falling back to each segment's own `x1` when parallel), exactly.
    pub fn compare_by_line(&self, other: &LineSegment, line: &Line) -> (r: Order)
        requires
            self.wf(),
            other.wf(),
            line.wf(),
        ensures
            r == Order::Less <==> key_lt(*self, *other, *line),
            r == Order::Equal <==> key_eq(*self, *other, *line),
            r == Order::Greater <==> key_lt(*other, *self, *line),
    {
        proof {
            self.lemma_line_spec_fits();
            other.lemma_line_spec_fits();
        }
        let k1 = self.sweep_key(line);
        let k2 = other.sweep_key(line);
        k1.cmp_rat(&k2)
    }

    /// The ordering key of this segment against `line`, as a well-formed
    /// rational equal to `key_num / key_den`.
    fn sweep_key(&self, line: &Line) -> (r: Rat)
        requires
            self.wf(),
            line.wf(),
        ensures
            r.wf(),
            r.num == key_num(*self, *line),
            r.den == key_den(*self, *line),
    {
        let own = self.to_line();
        let p = own.get_intersection_point(line);
        match p {
            Option::Some(q) => q.x,
            Option::None => Rat::from_int(self.x1),
        }
    }

    /// The full sweep ordering: by the key against the sweep line, then,
    /// on a tie, by the key against the below line.
    pub fn compare(&self, other: &LineSegment, state: &SweepLine) -> (r: Order)
        requires
            self.wf(),
            other.wf(),
            state.wf(),
        ensures
            r == Order::Less <==> key_lt(*self, *other, state.sweep_line_spec()) || (key_eq(
                *self,
                *other,
                state.sweep_line_spec(),
            ) && key_lt(*self, *other, state.below_line_spec())),
            r == Order::Greater <==> key_lt(*other, *self, state.sweep_line_spec()) || (key_eq(
                *self,
                *other,
                state.sweep_line_spec(),
            ) && key_lt(*other, *self, state.below_line_spec())),
            r == Order::Equal <==> key_eq(*self, *other, state.sweep_line_spec()) && key_eq(
                *self,
                *other,
                state.below_line_spec(),
            ),
    {
        let first = self.compare_by_line(other, state.get_sweep_line());
        match first {
            Order::Less => Order::Less,
            Order::Greater => Order::Greater,
            Order::Equal => self.compare_by_line(other, state.get_below_line()),
        }
    }
}

} // verus!
