use std::collections::HashSet;
use sweepline::intersection::{BruteForceInterSectionDirector, InterSection, IntersectionDirector};
use sweepline::line_segment::LineSegment;

#[test]
fn bruteforce_test() {
    let segment1 = LineSegment::new(0, 1, 6, 4);
    let segment2 = LineSegment::new(-3, 4, 6, 1);
    let segment3 = LineSegment::new(0, 4, 6, 1);
    let segment4 = LineSegment::new(0, 10, 12, 20);
    let segment5 = LineSegment::new(20, 1, 12, 4);
    let segment6 = LineSegment::new(12, 4, 20, 1);

    let segments = vec![segment1, segment2, segment3, segment4, segment5, segment6];
    let director = BruteForceInterSectionDirector {};
    let intersections = director.execute(&segments);
    assert_eq!(intersections.len(), 4);

    assert_eq!(intersections[0].segment1, segments[0]);
    assert_eq!(intersections[0].segment2, segments[1]);
    assert_eq!(intersections[1].segment1, segments[0]);
    assert_eq!(intersections[1].segment2, segments[2]);
    assert_eq!(intersections[2].segment1, segments[1]);
    assert_eq!(intersections[2].segment2, segments[2]);
    assert_eq!(intersections[3].segment1, segments[4]);
    assert_eq!(intersections[3].segment2, segments[5]);
}

#[test]
fn hash_test() {
    let mut hash = HashSet::new();
    let segment1 = LineSegment::new(0, 1, 6, 4);
    let segment2 = LineSegment::new(3, 6, 5, 0);
    let segment3 = LineSegment::new(0, 1, 6, 4);
    let segment4 = LineSegment::new(3, 6, 5, 0);
    let segment5 = LineSegment::new(3, 6, 5, 0);
    let segment6 = LineSegment::new(0, 1, 6, 4);

    let intersection1 = InterSection::new(segment1, segment2);
    let intersection2 = InterSection::new(segment3, segment4);
    let intersection3 = InterSection::new(segment5, segment6);

    assert_eq!(intersection1, intersection3);

    // hashing goes through the canonical (sorted) form, which is identical
    // for symmetric pairs
    let key1 = {
        let c = intersection1.canonical();
        (c.segment1, c.segment2)
    };
    let key2 = {
        let c = intersection2.canonical();
        (c.segment1, c.segment2)
    };
    let key3 = {
        let c = intersection3.canonical();
        (c.segment1, c.segment2)
    };

    if !hash.contains(&key1) {
        hash.insert(key1);
    }

    if !hash.contains(&key2) {
        hash.insert(key2);
    }

    if !hash.contains(&key3) {
        hash.insert(key3);
    }

    assert_eq!(hash.len(), 1);
    let other = InterSection::new(LineSegment::new(0, 0, 1, 1), LineSegment::new(1, 0, 0, 1));
    let c = other.canonical();
    hash.insert((c.segment1, c.segment2));
    assert_eq!(hash.len(), 2);
}

#[test]
fn pair_equality_is_symmetric() {
    let a = LineSegment::new(0, 1, 6, 4);
    let b = LineSegment::new(3, 6, 5, 0);
    assert_eq!(InterSection::new(a, b), InterSection::new(b, a));
    let c1 = InterSection::new(a, b).canonical();
    let c2 = InterSection::new(b, a).canonical();
    assert_eq!(c1.segment1, c2.segment1);
    assert_eq!(c1.segment2, c2.segment2);
}

#[test]
fn intersection_point_derivation_is_idempotent() {
    let pair = InterSection::new(LineSegment::new(0, 1, 6, 4), LineSegment::new(3, 6, 5, 0));
    let first = pair.get_intersection_point().unwrap();
    let second = pair.get_intersection_point().unwrap();
    assert_eq!(first.x, second.x);
    assert_eq!(first.y, second.y);
}

#[test]
fn one_sided_touch_check_is_asymmetric() {
    // segment3's line is straddled by segment, but not the other way round
    let segment = LineSegment::new(0, 1, 6, 4);
    let segment3 = LineSegment::new(3, -10, 5, 2);
    assert!(!segment.intersects_segment(&segment3));
    assert!(segment.get_intersection_point_from_segment(&segment3).is_some());
    assert!(segment3.get_intersection_point_from_segment(&segment).is_none());
}
