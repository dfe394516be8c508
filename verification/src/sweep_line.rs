use vstd::prelude::*;
use crate::line::Line;
use crate::types::COORD_BOUND;

verus! {

/// The shared ordering context of a sweep pass: the horizontal sweep line at
/// the current position `y`, and a second horizontal line a small step below
/// it (at `y + 1/10`) used to break ties. Both are exact: the below line is
/// stored with its coefficients scaled by ten, which denotes the same line.
#[derive(Debug, Clone, Copy, PartialEq, Eq, Structural)]
pub struct SweepLine {
    sweep_line: Line,
    below_line: Line,
}

impl SweepLine {
    /// The horizontal line at the current sweep position.
    pub closed spec fn sweep_line_spec(self) -> Line {
        self.sweep_line
    }

    /// The tie-break line just below the sweep position.
    pub closed spec fn below_line_spec(self) -> Line {
        self.below_line
    }

    /// Both lines are horizontal, in coefficient range, and the below line
    /// sits exactly one tenth under the sweep line.
    pub open spec fn wf(self) -> bool {
        &&& self.sweep_line_spec().a == 0
        &&& self.sweep_line_spec().b == -1
        &&& -COORD_BOUND <= self.sweep_line_spec().c <= COORD_BOUND
        &&& self.below_line_spec().a == 0
        &&& self.below_line_spec().b == -10
        &&& self.below_line_spec().c == 10 * self.sweep_line_spec().c + 1
    }

    /// A sweep state positioned at `y = 0`.
    pub fn new() -> (r: SweepLine)
        ensures
            r.wf(),
            r.sweep_line_spec().c == 0,
    {
        SweepLine {
            sweep_line: Line { a: 0, b: -1, c: 0 },
            below_line: Line { a: 0, b: -10, c: 1 },
        }
    }

    /// Moves the sweep position to `y`, recomputing both lines atomically.
    pub fn set_y(&mut self, y: i64)
        requires
            -COORD_BOUND <= y <= COORD_BOUND,
        ensures
            final(self).wf(),
            final(self).sweep_line_spec().c == y,
    {
        self.sweep_line = Line { a: 0, b: -1, c: y };
        self.below_line = Line { a: 0, b: -10, c: 10 * y + 1 };
    }

    pub fn get_sweep_line(&self) -> (r: &Line)
        ensures
            *r == self.sweep_line_spec(),
    {
        &self.sweep_line
    }

    pub fn get_below_line(&self) -> (r: &Line)
        ensures
            *r == self.below_line_spec(),
    {
        &self.below_line
    }
}

} // verus!
