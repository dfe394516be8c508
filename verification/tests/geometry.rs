use sweepline::line::Line;
use sweepline::line_segment::LineSegment;
use sweepline::sweep_line::SweepLine;
use sweepline::types::rat::Rat;
use sweepline::types::Order;

#[test]
fn line_get_intersection_point_test() {
    let l1 = Line::from_points(0, 1, 6, 4);
    let l2 = Line::from_points(3, 6, 5, 0);

    if let Some(point) = l1.get_intersection_point(&l2) {
        assert!(point.x.eq_rat(&Rat::from_int(4)));
        assert!(point.y.eq_rat(&Rat::from_int(3)));
    } else {
        assert!(false);
    }
}

#[test]
fn intersects_test() {
    let segment = LineSegment::new(0, 1, 6, 4);
    let line = Line::from_points(3, 6, 5, 0);
    let segment2 = LineSegment::new(3, 6, 5, 0);

    assert!(segment.intersects(&line));
    assert!(segment.intersects_segment(&segment2));
}

#[test]
fn line_segment_get_intersection_point_test() {
    let segment = LineSegment::new(0, 1, 6, 4);
    let line = Line::from_points(3, 6, 5, 0);
    let segment2 = LineSegment::new(3, 6, 5, 0);
    let segment3 = LineSegment::new(3, -10, 5, 2);
    let segment4 = LineSegment::new(0, 2, 6, 5);

    if let Some(point) = segment.get_intersection_point(&line) {
        assert!(point.x.eq_rat(&Rat::from_int(4)));
        assert!(point.y.eq_rat(&Rat::from_int(3)));
    } else {
        assert!(false);
    }

    if let Some(point) = segment.get_intersection_point_from_segment(&segment2) {
        assert!(point.x.eq_rat(&Rat::from_int(4)));
        assert!(point.y.eq_rat(&Rat::from_int(3)));
    } else {
        assert!(false);
    }

    assert!(!segment.intersects_segment(&segment3));
    assert!(segment.get_intersection_point_from_segment(&segment3).is_some());
    assert!(segment.get_intersection_point_from_segment(&segment4).is_none());
}

#[test]
fn parallel_lines_have_no_intersection_point() {
    let l1 = Line::from_points(0, 0, 1, 0);
    let l2 = Line::from_points(0, 5, 1, 5);
    assert!(l1.get_intersection_point(&l2).is_none());
    assert!(l2.get_intersection_point(&l1).is_none());
}

#[test]
fn degenerate_segment_yields_no_intersection_point() {
    let zero = Line::from_points(2, 3, 2, 3);
    let other = Line::from_points(0, 0, 1, 1);
    assert!(zero.get_intersection_point(&other).is_none());
    assert!(other.get_intersection_point(&zero).is_none());
}

#[test]
fn touches_is_inclusive_of_endpoints_on_the_line() {
    let horizontal = Line::from_points(0, 0, 1, 0);
    // one endpoint strictly above, one strictly below
    let straddling = LineSegment::new(0, -1, 0, 1);
    assert!(straddling.intersects(&horizontal));
    // entirely on one side
    let above = LineSegment::new(0, 1, 0, 2);
    assert!(!above.intersects(&horizontal));
    // an endpoint exactly on the line
    let touching = LineSegment::new(0, 0, 1, 5);
    assert!(touching.intersects(&horizontal));
}

#[test]
fn sweep_ordering_follows_the_sweep_position() {
    // the diagonals x = y and x = 10 - y
    let rising = LineSegment::new(0, 0, 10, 10);
    let falling = LineSegment::new(10, 0, 0, 10);
    let mut state = SweepLine::new();

    assert_eq!(rising.compare(&falling, &state), Order::Less);
    state.set_y(10);
    assert_eq!(rising.compare(&falling, &state), Order::Greater);
    // at the crossing the below line breaks the tie an instant later
    state.set_y(5);
    assert_eq!(rising.compare(&falling, &state), Order::Greater);
    assert_eq!(rising.compare(&rising, &state), Order::Equal);
}

#[test]
fn horizontal_segment_falls_back_to_its_own_x1() {
    // parallel to every sweep line: the key is the segment's own x1
    let flat_left = LineSegment::new(2, 3, 8, 3);
    let flat_right = LineSegment::new(5, 7, 9, 7);
    let state = SweepLine::new();
    assert_eq!(flat_left.compare(&flat_right, &state), Order::Less);
}
