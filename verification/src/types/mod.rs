pub mod priority_queue;
pub mod rat;

use vstd::prelude::*;
use crate::types::rat::Rat;

verus! {

/// Largest coordinate magnitude the geometry accepts. Keeping endpoints in
/// this range lets every determinant and cross product in the crate stay
/// within the exact `i128` window of `Rat`.
pub const COORD_BOUND: i64 = 1_000_000;

/// A point produced by intersection math: both coordinates are exact
/// rationals, since the solution of two implicit lines is a quotient of
/// determinants.
#[derive(Clone, Copy, Debug)]
pub struct Point2D {
    pub x: Rat,
    pub y: Rat,
}

/// What a sweep occurrence is: a segment starting, a segment ending, or two
/// segments crossing.
#[derive(Clone, Copy, Debug, PartialEq, Eq, Structural)]
pub enum EventType {
    SegmentStart,
    SegmentEnd,
    InterSection,
}

/// Three-way comparison result used by the exact comparators of this crate.
#[derive(Clone, Copy, Debug, PartialEq, Eq, Structural)]
pub enum Order {
    Less,
    Equal,
    Greater,
}

} // verus!
