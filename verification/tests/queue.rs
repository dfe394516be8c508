use sweepline::event::Event;
use sweepline::intersection::{BruteForceInterSectionDirector, IntersectionDirector};
use sweepline::line_segment::LineSegment;
use sweepline::types::priority_queue::MinPriorityQueue;
use sweepline::types::rat::Rat;
use sweepline::types::EventType;

#[test]
fn queue_test() {
    let segment1 = LineSegment::new(0, 1, 6, 4);
    let segment2 = LineSegment::new(-3, 4, 6, 1);
    let segment3 = LineSegment::new(0, 4, 6, 1);
    let segment4 = LineSegment::new(0, 10, 12, 20);
    let segment5 = LineSegment::new(20, 1, 12, 4);
    let segment6 = LineSegment::new(12, 4, 20, 1);

    let mut queue: MinPriorityQueue<Event> = MinPriorityQueue::new(usize::MAX);
    let segments = vec![segment1, segment2, segment3, segment4, segment5, segment6];
    for seg in segments.iter() {
        queue.append(Event::new(
            EventType::SegmentStart,
            Rat::from_int(seg.x1),
            Rat::from_int(seg.y1),
            *seg,
            None,
        ));
        queue.append(Event::new(
            EventType::SegmentEnd,
            Rat::from_int(seg.x2),
            Rat::from_int(seg.y2),
            *seg,
            None,
        ));
    }

    let director = BruteForceInterSectionDirector {};
    let intersections = director.execute(&segments);

    for intersect in intersections {
        if let Some(p) = intersect.get_intersection_point() {
            queue.append(Event::new(
                EventType::InterSection,
                p.x,
                p.y,
                intersect.segment1,
                Some(intersect.segment2),
            ));
        }
    }

    let min = Event::new(
        EventType::SegmentStart,
        Rat::from_int(0),
        Rat::from_int(1),
        LineSegment::new(0, 1, 6, 4),
        None,
    );
    let max = Event::new(
        EventType::SegmentEnd,
        Rat::from_int(12),
        Rat::from_int(20),
        LineSegment::new(0, 10, 12, 20),
        None,
    );
    assert_eq!(queue.get_min_priority().unwrap(), min);
    assert_eq!(queue.get_max_priority().unwrap(), max);

    // twelve endpoint events, plus one event for each of the three pairs
    // with a derivable point (the collinear pair has none)
    let drained = queue.min_sorted();
    assert_eq!(drained.len(), 15);
    assert_eq!(drained[0], min);
    assert_eq!(drained[14], max);
}

#[test]
fn bounded_queue_keeps_the_two_smallest() {
    let mut queue: MinPriorityQueue<i64> = MinPriorityQueue::new(2);
    queue.append(5);
    queue.append(3);
    queue.append(8);
    queue.append(1);
    queue.append(4);

    assert_eq!(queue.get_min_priority(), Some(1));
    assert_eq!(queue.get_max_priority(), Some(3));
    assert_eq!(queue.min_sorted(), vec![1, 3]);
}

#[test]
fn empty_queue_has_no_minimum_or_maximum() {
    let queue: MinPriorityQueue<i64> = MinPriorityQueue::new(4);
    assert_eq!(queue.get_min_priority(), None);
    assert_eq!(queue.get_max_priority(), None);
    assert!(queue.min_sorted().is_empty());
}

#[test]
fn tracked_minimum_survives_eviction() {
    let mut queue: MinPriorityQueue<i64> = MinPriorityQueue::new(1);
    queue.append(2);
    queue.append(9);
    queue.append(7);
    // 9 and 7 are no improvement on the retained maximum 2, so both are
    // discarded and the single retained slot keeps the smallest item seen
    assert_eq!(queue.get_min_priority(), Some(2));
    assert_eq!(queue.get_max_priority(), Some(2));
    assert_eq!(queue.min_sorted(), vec![2]);
}

#[test]
fn event_order_is_by_y_then_x() {
    let seg = LineSegment::new(0, 0, 1, 1);
    let low = Event::new(EventType::SegmentStart, Rat::from_int(9), Rat::from_int(1), seg, None);
    let mid = Event::new(EventType::SegmentStart, Rat::from_int(0), Rat::from_int(2), seg, None);
    let high = Event::new(EventType::SegmentEnd, Rat::from_int(1), Rat::from_int(2), seg, None);

    let mut queue: MinPriorityQueue<Event> = MinPriorityQueue::new(8);
    queue.append(high);
    queue.append(low);
    queue.append(mid);

    let sorted = queue.min_sorted();
    assert_eq!(sorted.len(), 3);
    assert_eq!(sorted[0], low);
    assert_eq!(sorted[1], mid);
    assert_eq!(sorted[2], high);
}
