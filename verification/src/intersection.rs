use vstd::prelude::*;
use crate::line_segment::{LineSegment, seg_intersects_spec, touches_spec};
use crate::line::{det_spec, x_num_spec, y_num_spec, abs_i};
use crate::types::Point2D;

verus! {

/// An unordered pair of segments found to intersect. The two segments are
/// kept in the order they were supplied; equality is symmetric, so the pair
/// `(A, B)` equals the pair `(B, A)`.
#[derive(Debug, Clone, Copy)]
pub struct InterSection {
    pub segment1: LineSegment,
    pub segment2: LineSegment,
}

/// A fixed total (lexicographic) order on segments, used only to put the two
/// segments of a pair into a canonical order.
pub open spec fn seg_lex_le(a: LineSegment, b: LineSegment) -> bool {
    if a.x1 != b.x1 {
        a.x1 < b.x1
    } else if a.y1 != b.y1 {
        a.y1 < b.y1
    } else if a.x2 != b.x2 {
        a.x2 < b.x2
    } else {
        a.y2 <= b.y2
    }
}

impl InterSection {
    pub open spec fn wf(self) -> bool {
        self.segment1.wf() && self.segment2.wf()
    }

    /// Symmetric pair identity: same segments in the same or the swapped
    /// order.
    pub open spec fn sym_eq_spec(self, other: InterSection) -> bool {
        (self.segment1 == other.segment1 && self.segment2 == other.segment2) || (self.segment1
            == other.segment2 && self.segment2 == other.segment1)
    }

    /// The pair with its segments put into the fixed lexicographic order, so
    /// that symmetric pairs become identical values; hash or deduplicate this
    /// form.
    pub open spec fn canonical_spec(self) -> InterSection {
        if seg_lex_le(self.segment1, self.segment2) {
            self
        } else {
            InterSection { segment1: self.segment2, segment2: self.segment1 }
        }
    }

    pub fn new(segment1: LineSegment, segment2: LineSegment) -> (r: InterSection)
        ensures
            r == (InterSection { segment1, segment2 }),
    {
        InterSection { segment1, segment2 }
    }

    /// Derives the intersection point through the one-sided touch check of
    /// `segment1` against `segment2`'s line (not the mutual test).
    pub fn get_intersection_point(&self) -> (r: Option<Point2D>)
        requires
            self.wf(),
        ensures
            point_result_ok(*self, r),
            r matches Some(p) ==> p.x.wf() && p.y.wf() && p.x.num * det_spec(
                self.segment2.line_spec(),
                self.segment1.line_spec(),
            ) == x_num_spec(self.segment2.line_spec(), self.segment1.line_spec()) * p.x.den
                && p.y.num * det_spec(self.segment2.line_spec(), self.segment1.line_spec())
                == y_num_spec(self.segment2.line_spec(), self.segment1.line_spec()) * p.y.den,
    {
        self.segment1.get_intersection_point_from_segment(&self.segment2)
    }

    /// The executable canonical form.
    pub fn canonical(&self) -> (r: InterSection)
        ensures
            r == self.canonical_spec(),
    {
        let le = if self.segment1.x1 != self.segment2.x1 {
            self.segment1.x1 < self.segment2.x1
        } else if self.segment1.y1 != self.segment2.y1 {
            self.segment1.y1 < self.segment2.y1
        } else if self.segment1.x2 != self.segment2.x2 {
            self.segment1.x2 < self.segment2.x2
        } else {
            self.segment1.y2 <= self.segment2.y2
        };
        if le {
            *self
        } else {
            InterSection { segment1: self.segment2, segment2: self.segment1 }
        }
    }
}

impl PartialEq for InterSection {
    fn eq(&self, other: &InterSection) -> (r: bool) {
        (self.segment1 == other.segment1 && self.segment2 == other.segment2) || (self.segment1
            == other.segment2 && self.segment2 == other.segment1)
    }
}

impl vstd::std_specs::cmp::PartialEqSpecImpl for InterSection {
    open spec fn obeys_eq_spec() -> bool {
        true
    }

    open spec fn eq_spec(&self, other: &InterSection) -> bool {
        self.sym_eq_spec(*other)
    }
}

impl Eq for InterSection {}

/// Exactly the result that deriving the intersection point of the pair `p`
/// must produce: present precisely when `segment1` touches `segment2`'s line
/// and the two lines are not parallel, and then the Cramer solution with the
/// positive determinant magnitude as denominator.
pub open spec fn point_result_ok(p: InterSection, r: Option<Point2D>) -> bool {
    &&& r is Some <==> touches_spec(p.segment1, p.segment2.line_spec()) && det_spec(
        p.segment2.line_spec(),
        p.segment1.line_spec(),
    ) != 0
    &&& r matches Some(q) ==> q.x.den == abs_i(
        det_spec(p.segment2.line_spec(), p.segment1.line_spec()),
    ) && q.y.den == q.x.den && q.x.num == (if det_spec(
        p.segment2.line_spec(),
        p.segment1.line_spec(),
    ) > 0 {
        x_num_spec(p.segment2.line_spec(), p.segment1.line_spec())
    } else {
        -x_num_spec(p.segment2.line_spec(), p.segment1.line_spec())
    }) && q.y.num == (if det_spec(p.segment2.line_spec(), p.segment1.line_spec()) > 0 {
        y_num_spec(p.segment2.line_spec(), p.segment1.line_spec())
    } else {
        -y_num_spec(p.segment2.line_spec(), p.segment1.line_spec())
    })
}

/// Re-deriving the intersection point of the same pair is idempotent: the
/// contract of `get_intersection_point` admits exactly one result, so any
/// two derivations agree.
pub proof fn lemma_point_derivation_deterministic(
    p: InterSection,
    r1: Option<Point2D>,
    r2: Option<Point2D>,
)
    requires
        point_result_ok(p, r1),
        point_result_ok(p, r2),
    ensures
        r1 is Some <==> r2 is Some,
        r1 is Some && r2 is Some ==> r1->Some_0.x == r2->Some_0.x && r1->Some_0.y == r2->Some_0.y,
{
}

/// Pair identity is symmetric, and so is the canonical form: the pair built
/// from `(a, b)` and the pair built from `(b, a)` are equal and canonicalize
/// to the identical value.
pub proof fn lemma_pair_symmetric(a: LineSegment, b: LineSegment)
    ensures
        (InterSection { segment1: a, segment2: b }).sym_eq_spec(
            InterSection { segment1: b, segment2: a },
        ),
        (InterSection { segment1: a, segment2: b }).canonical_spec() == (InterSection {
            segment1: b,
            segment2: a,
        }).canonical_spec(),
{
}

/// The pairs of intersecting segments found in row `i` from column `j`
/// onward, in ascending column order.
pub open spec fn pairs_row(s: Seq<LineSegment>, i: int, j: int) -> Seq<InterSection>
    decreases s.len() - j,
{
    if j < 0 || j >= s.len() || i < 0 || i >= s.len() {
        Seq::empty()
    } else if seg_intersects_spec(s[i], s[j]) {
        seq![InterSection { segment1: s[i], segment2: s[j] }] + pairs_row(s, i, j + 1)
    } else {
        pairs_row(s, i, j + 1)
    }
}

/// All intersecting pairs `(i, j)` with `i < j`, each emitted once, in
/// ascending-index discovery order.
pub open spec fn pairs_table(s: Seq<LineSegment>, i: int) -> Seq<InterSection>
    decreases s.len() - i,
{
    if i < 0 || i >= s.len() {
        Seq::empty()
    } else {
        pairs_row(s, i, i + 1) + pairs_table(s, i + 1)
    }
}

pub open spec fn all_segments_wf(s: Seq<LineSegment>) -> bool {
    forall|i: int| 0 <= i < s.len() ==> (#[trigger] s[i]).wf()
}

/// A strategy producing every intersecting unordered pair of the given
/// segments, one record per pair, in ascending-index discovery order.
pub trait IntersectionDirector {
    fn execute(&self, segments: &Vec<LineSegment>) -> (r: Vec<InterSection>)
        requires
            all_segments_wf(segments@),
        ensures
            r@ == pairs_table(segments@, 0),
    ;
}

/// The quadratic reference detector: tests every pair `(i, j)` with `i < j`.
pub struct BruteForceInterSectionDirector {}

impl IntersectionDirector for BruteForceInterSectionDirector {
    fn execute(&self, segments: &Vec<LineSegment>) -> (r: Vec<InterSection>) {
        let ghost s = segments@;
        let mut intersections: Vec<InterSection> = Vec::new();
        let mut i: usize = 0;
        while i < segments.len()
            invariant
                all_segments_wf(s),
                s == segments@,
                i <= s.len(),
                intersections@ + pairs_table(s, i as int) =~= pairs_table(s, 0),
            decreases s.len() - i,
        {
            let seg1 = segments[i];
            let mut j: usize = i + 1;
            proof {
                assert(pairs_table(s, i as int) == pairs_row(s, i as int, i + 1) + pairs_table(
                    s,
                    i + 1,
                ));
            }
            while j < segments.len()
                invariant
                    all_segments_wf(s),
                    s == segments@,
                    i < s.len(),
                    i + 1 <= j <= s.len(),
                    seg1 == s[i as int],
                    intersections@ + pairs_row(s, i as int, j as int) + pairs_table(s, i + 1)
                        =~= pairs_table(s, 0),
                decreases s.len() - j,
            {
                let seg2 = segments[j];
                let ghost pre = intersections@;
                if seg1.intersects_segment(&seg2) {
                    intersections.push(InterSection::new(seg1, seg2));
                    proof {
                        assert(pairs_row(s, i as int, j as int) == seq![
                            InterSection { segment1: s[i as int], segment2: s[j as int] },
                        ] + pairs_row(s, i as int, j + 1));
                        assert(intersections@ + pairs_row(s, i as int, j + 1) =~= pre + pairs_row(
                            s,
                            i as int,
                            j as int,
                        ));
                        assert(intersections@ + pairs_row(s, i as int, j + 1) + pairs_table(
                            s,
                            i + 1,
                        ) =~= pre + pairs_row(s, i as int, j as int) + pairs_table(s, i + 1));
                    }
                } else {
                    proof {
                        assert(pairs_row(s, i as int, j as int) == pairs_row(s, i as int, j + 1));
                    }
                }
                j += 1;
            }
            proof {
                assert(pairs_row(s, i as int, j as int) =~= Seq::empty());
                assert(intersections@ + pairs_row(s, i as int, j as int) =~= intersections@);
                assert(intersections@ + pairs_table(s, i + 1) =~= pairs_table(s, 0));
            }
            i += 1;
        }
        proof {
            assert(pairs_table(s, i as int) =~= Seq::empty());
            assert(intersections@ + pairs_table(s, i as int) =~= intersections@);
        }
        intersections
    }
}

} // verus!
