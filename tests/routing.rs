use keyseebee::coord::{transform, Coordinate, Side, LOCAL_COLUMNS, TOTAL_COLUMNS};
use keyseebee::frame::{decode, Transition};
use keyseebee::queue::{EventQueue, QueueFull, QUEUE_CAPACITY};
use keyseebee::receiver::LinkReceiver;
use keyseebee::router::{RouteError, Router};

fn tr(row: u8, col: u8, pressed: bool) -> Transition {
    Transition { coord: Coordinate { row, col }, pressed }
}

#[test]
fn transform_primary_is_identity() {
    for row in 0..4u8 {
        for col in 0..TOTAL_COLUMNS {
            let c = Coordinate { row, col };
            assert_eq!(transform(Side::Primary, c), c);
        }
    }
}

#[test]
fn transform_secondary_mirrors_columns() {
    assert_eq!(transform(Side::Secondary, Coordinate { row: 0, col: 0 }), Coordinate { row: 0, col: 11 });
    assert_eq!(transform(Side::Secondary, Coordinate { row: 3, col: 5 }), Coordinate { row: 3, col: 6 });
    assert_eq!(transform(Side::Secondary, Coordinate { row: 2, col: 11 }), Coordinate { row: 2, col: 0 });
}

#[test]
fn halves_land_in_disjoint_columns() {
    for row in 0..4u8 {
        for col in 0..LOCAL_COLUMNS {
            let c = Coordinate { row, col };
            assert!(transform(Side::Primary, c).col < LOCAL_COLUMNS);
            assert!(transform(Side::Secondary, c).col >= LOCAL_COLUMNS);
            assert!(transform(Side::Secondary, c).col < TOTAL_COLUMNS);
        }
    }
}

#[test]
fn local_press_on_primary() {
    let mut router = Router::new(Side::Primary);
    let frame = router.on_local_transition(tr(1, 2, true));
    assert_eq!(frame, [b'P', 1, 2, b'\n']);
    assert_eq!(router.next_for_resolver(), Some(tr(1, 2, true)));
    assert_eq!(router.next_for_resolver(), None);
}

#[test]
fn local_press_on_secondary() {
    let mut router = Router::new(Side::Secondary);
    let frame = router.on_local_transition(tr(0, 0, true));
    assert_eq!(frame, [b'P', 0, 0, b'\n']);
    assert_eq!(router.next_for_resolver(), Some(tr(0, 11, true)));
    assert_eq!(router.next_for_resolver(), None);
}

#[test]
fn remote_release_on_primary() {
    let mut router = Router::new(Side::Primary);
    let mut rx = LinkReceiver::new();
    let mut routed = 0;
    for &b in &[b'R', 0, 0, b'\n'] {
        if let Some(t) = rx.push_byte(b) {
            router.on_remote_transition(t).unwrap();
            routed += 1;
        }
    }
    assert_eq!(routed, 1);
    assert_eq!(router.next_for_resolver(), Some(tr(0, 0, false)));
    assert_eq!(router.next_for_resolver(), None);
}

#[test]
fn remote_press_on_secondary_is_mirrored() {
    let mut router = Router::new(Side::Secondary);
    let t = decode([b'P', 1, 2, b'\n']).unwrap();
    assert_eq!(router.on_remote_transition(t), Ok(()));
    assert_eq!(router.next_for_resolver(), Some(tr(1, 9, true)));
}

#[test]
fn remote_column_past_range_is_refused_on_secondary() {
    let mut router = Router::new(Side::Secondary);
    assert_eq!(router.on_remote_transition(tr(0, 12, true)), Err(RouteError::OutOfRange));
    assert_eq!(router.on_remote_transition(tr(0, 200, false)), Err(RouteError::OutOfRange));
    assert_eq!(router.pending_len(), 0);
    // any column the mirror covers is routed, whatever the row
    assert_eq!(router.on_remote_transition(tr(4, 0, true)), Ok(()));
    assert_eq!(router.on_remote_transition(tr(0, 11, true)), Ok(()));
    assert_eq!(router.next_for_resolver(), Some(tr(4, 11, true)));
    assert_eq!(router.next_for_resolver(), Some(tr(0, 0, true)));
}

#[test]
fn remote_any_coordinate_is_routed_on_primary() {
    let mut router = Router::new(Side::Primary);
    let mut rx = LinkReceiver::new();
    let mut routed = 0;
    for &b in &[9, 9, b'P', 0, 8, b'\n', 1, 2] {
        if let Some(t) = rx.push_byte(b) {
            assert_eq!(router.on_remote_transition(t), Ok(()));
            routed += 1;
        }
    }
    assert_eq!(routed, 1);
    assert_eq!(router.on_remote_transition(tr(200, 255, false)), Ok(()));
    assert_eq!(router.next_for_resolver(), Some(tr(0, 8, true)));
    assert_eq!(router.next_for_resolver(), Some(tr(200, 255, false)));
}

#[test]
fn router_keeps_order_of_both_sources() {
    let mut router = Router::new(Side::Secondary);
    router.on_local_transition(tr(0, 1, true));
    router.on_remote_transition(tr(2, 3, true)).unwrap();
    router.on_local_transition(tr(0, 1, false));
    assert_eq!(router.pending_len(), 3);
    assert_eq!(router.next_for_resolver(), Some(tr(0, 10, true)));
    assert_eq!(router.next_for_resolver(), Some(tr(2, 8, true)));
    assert_eq!(router.next_for_resolver(), Some(tr(0, 10, false)));
    assert_eq!(router.next_for_resolver(), None);
    assert_eq!(router.side(), Side::Secondary);
}

#[test]
fn router_reports_full_queue() {
    let mut router = Router::new(Side::Primary);
    assert!(!router.is_full());
    for i in 0..QUEUE_CAPACITY {
        assert!(!router.is_full());
        router.on_local_transition(tr((i / 6 % 4) as u8, (i % 6) as u8, i < 24));
    }
    assert!(router.is_full());
    assert_eq!(router.pending_len(), QUEUE_CAPACITY);
    assert_eq!(router.next_for_resolver(), Some(tr(0, 0, true)));
    assert!(!router.is_full());
    assert_eq!(router.on_remote_transition(tr(1, 1, true)), Ok(()));
    assert!(router.is_full());
}

#[test]
fn queue_holds_one_scan_of_both_halves() {
    assert_eq!(QUEUE_CAPACITY, 2 * 4 * 6);
}

#[test]
fn queue_is_first_in_first_out() {
    let mut q = EventQueue::new();
    assert!(q.is_empty());
    assert_eq!(q.pop(), None);
    for i in 0..QUEUE_CAPACITY {
        assert_eq!(q.push(tr(i as u8, 0, true)), Ok(()));
    }
    assert!(q.is_full());
    assert_eq!(q.push(tr(9, 9, true)), Err(QueueFull));
    assert_eq!(q.len(), QUEUE_CAPACITY);
    for i in 0..QUEUE_CAPACITY {
        assert_eq!(q.pop(), Some(tr(i as u8, 0, true)));
    }
    assert_eq!(q.pop(), None);
    assert!(q.is_empty());
}

#[test]
fn coordinate_is_local() {
    assert!(Coordinate { row: 3, col: 5 }.is_local());
    assert!(!Coordinate { row: 4, col: 0 }.is_local());
    assert!(!Coordinate { row: 0, col: 6 }.is_local());
}
