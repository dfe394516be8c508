use vstd::prelude::*;
use crate::line_segment::LineSegment;
use crate::types::{EventType, Order};
use crate::types::rat::{Rat, lemma_rat_le_trans, lemma_rat_lt_trans, lemma_rat_lt_eq_trans,
    lemma_rat_eq_lt_trans, lemma_rat_eq_trans};
use crate::types::priority_queue::QueueOrd;

verus! {

/// A sweep occurrence at an exact position: a segment start, a segment end,
/// or an intersection (which carries the second segment involved).
#[derive(Debug, Clone, Copy)]
pub struct Event {
    pub event_type: EventType,
    pub x: Rat,
    pub y: Rat,
    pub segment1: LineSegment,
    pub segment2: Option<LineSegment>,
}

impl Event {
    pub open spec fn wf(self) -> bool {
        self.x.wf() && self.y.wf()
    }

    pub fn new(
        event_type: EventType,
        x: Rat,
        y: Rat,
        segment1: LineSegment,
        segment2: Option<LineSegment>,
    ) -> (r: Event)
        ensures
            r == (Event { event_type, x, y, segment1, segment2 }),
    {
        Event { event_type, x, y, segment1, segment2 }
    }
}

/// The event order: ascending by `y`, then by `x` on ties, over the exact
/// rational values.
pub fn compare(y1: &Rat, y2: &Rat, x1: &Rat, x2: &Rat) -> (r: Order)
    requires
        y1.wf(),
        y2.wf(),
        x1.wf(),
        x2.wf(),
    ensures
        r == Order::Less <==> y1.lt_spec(*y2) || (y1.eq_spec(*y2) && x1.lt_spec(*x2)),
        r == Order::Equal <==> y1.eq_spec(*y2) && x1.eq_spec(*x2),
        r == Order::Greater <==> y2.lt_spec(*y1) || (y1.eq_spec(*y2) && x2.lt_spec(*x1)),
{
    match y1.cmp_rat(y2) {
        Order::Less => Order::Less,
        Order::Greater => Order::Greater,
        Order::Equal => x1.cmp_rat(x2),
    }
}

impl QueueOrd for Event {
    open spec fn inv(self) -> bool {
        self.wf()
    }

    open spec fn le_spec(self, other: Self) -> bool {
        self.y.lt_spec(other.y) || (self.y.eq_spec(other.y) && self.x.le_spec(other.x))
    }

    proof fn lemma_le_total(a: Self, b: Self) {
    }

    proof fn lemma_le_trans(a: Self, b: Self, c: Self) {
        if a.y.lt_spec(b.y) {
            if b.y.lt_spec(c.y) {
                lemma_rat_lt_trans(a.y, b.y, c.y);
            } else {
                lemma_rat_lt_eq_trans(a.y, b.y, c.y);
            }
        } else {
            if b.y.lt_spec(c.y) {
                lemma_rat_eq_lt_trans(a.y, b.y, c.y);
            } else {
                lemma_rat_eq_trans(a.y, b.y, c.y);
                lemma_rat_le_trans(a.x, b.x, c.x);
            }
        }
    }

    fn le(&self, other: &Self) -> (r: bool) {
        match compare(&self.y, &other.y, &self.x, &other.x) {
            Order::Greater => false,
            _ => true,
        }
    }
}

impl PartialEq for Event {
    fn eq(&self, other: &Event) -> (r: bool) {
        let segs2_eq = match (&self.segment2, &other.segment2) {
            (Option::None, Option::None) => true,
            (Option::Some(a), Option::Some(b)) => *a == *b,
            _ => false,
        };
        self.event_type == other.event_type && self.x == other.x && self.y == other.y
            && self.segment1 == other.segment1 && segs2_eq
    }
}

impl vstd::std_specs::cmp::PartialEqSpecImpl for Event {
    open spec fn obeys_eq_spec() -> bool {
        true
    }

    open spec fn eq_spec(&self, other: &Event) -> bool {
        self.event_type == other.event_type && self.x == other.x && self.y == other.y
            && self.segment1 == other.segment1 && self.segment2 == other.segment2
    }
}

impl Eq for Event {}

} // verus!
