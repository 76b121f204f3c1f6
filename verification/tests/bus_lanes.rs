//! Tests of the dispatch bus and lane receivers.

use remux::bus::PushOutcome;
use remux::bus::RecvOutcome;
use remux::Bus;

#[test]
fn push_creates_then_delivers_in_order() {
    let mut bus = Bus::<u64, u64>::new(4);

    let rx = match bus.push(7, 10) {
        PushOutcome::Created(rx) => rx,
        _ => panic!("first use of a tag must create its lane"),
    };
    assert_eq!(rx.tag(), &7);
    assert!(!rx.is_closed(&bus));

    assert!(matches!(bus.push(7, 11), PushOutcome::Delivered));
    assert!(matches!(bus.push(7, 12), PushOutcome::Delivered));

    // Per-tag FIFO: values come out in the order they were pushed.
    assert!(matches!(rx.recv(&mut bus), RecvOutcome::Received(10)));
    assert!(matches!(rx.recv(&mut bus), RecvOutcome::Received(11)));
    assert!(matches!(rx.recv(&mut bus), RecvOutcome::Received(12)));
    assert!(matches!(rx.recv(&mut bus), RecvOutcome::Empty));
}

#[test]
fn distinct_tags_get_distinct_lanes() {
    let mut bus = Bus::<String, u64>::new(2);

    let rx_a = match bus.push(String::from("a"), 1) {
        PushOutcome::Created(rx) => rx,
        _ => panic!("tag a is unseen"),
    };
    let rx_b = match bus.push(String::from("b"), 2) {
        PushOutcome::Created(rx) => rx,
        _ => panic!("tag b is unseen"),
    };

    assert!(matches!(rx_a.recv(&mut bus), RecvOutcome::Received(1)));
    assert!(matches!(rx_b.recv(&mut bus), RecvOutcome::Received(2)));
}

#[test]
fn full_lane_hands_the_pair_back() {
    let mut bus = Bus::<u64, u64>::new(1);

    let rx = match bus.push(3, 30) {
        PushOutcome::Created(rx) => rx,
        _ => panic!("tag 3 is unseen"),
    };

    // The lane's buffer holds one value; the second push is handed back
    // untouched rather than dropped.
    match bus.push(3, 31) {
        PushOutcome::Full(tag, value) => {
            assert_eq!(tag, 3);
            assert_eq!(value, 31);
        },
        _ => panic!("a lane at capacity must hand the pair back"),
    }

    // After draining there is room again.
    assert!(matches!(rx.recv(&mut bus), RecvOutcome::Received(30)));
    assert!(matches!(bus.push(3, 31), PushOutcome::Delivered));
}

#[test]
fn close_evicts_and_recreates() {
    let mut bus = Bus::<u64, u64>::new(2);

    let rx = match bus.push(9, 90) {
        PushOutcome::Created(rx) => rx,
        _ => panic!("tag 9 is unseen"),
    };
    assert!(!rx.is_closed(&bus));

    rx.close(&mut bus);
    assert!(rx.is_closed(&bus));
    assert!(matches!(rx.recv(&mut bus), RecvOutcome::Closed));

    // The tag counts as absent now: the next push creates a brand-new lane.
    let rx2 = match bus.push(9, 91) {
        PushOutcome::Created(rx2) => rx2,
        _ => panic!("a closed tag must be recreated"),
    };
    assert!(matches!(rx2.recv(&mut bus), RecvOutcome::Received(91)));
}

#[test]
fn close_is_idempotent_and_scoped_to_its_lane() {
    let mut bus = Bus::<u64, u64>::new(2);

    let rx_a = match bus.push(1, 10) {
        PushOutcome::Created(rx) => rx,
        _ => panic!("tag 1 is unseen"),
    };
    let rx_b = match bus.push(2, 20) {
        PushOutcome::Created(rx) => rx,
        _ => panic!("tag 2 is unseen"),
    };

    rx_a.close(&mut bus);
    rx_a.close(&mut bus);
    rx_a.close(&mut bus);

    // The other tag's lane is untouched.
    assert!(!rx_b.is_closed(&bus));
    assert!(matches!(rx_b.recv(&mut bus), RecvOutcome::Received(20)));
}

#[test]
fn stale_receiver_cannot_evict_its_successor() {
    let mut bus = Bus::<u64, u64>::new(2);

    let rx1 = match bus.push(4, 40) {
        PushOutcome::Created(rx) => rx,
        _ => panic!("tag 4 is unseen"),
    };
    rx1.close(&mut bus);

    let rx2 = match bus.push(4, 41) {
        PushOutcome::Created(rx) => rx,
        _ => panic!("tag 4 was evicted"),
    };

    // Closing the old receiver again must not evict the replacement lane.
    rx1.close(&mut bus);
    assert!(rx1.is_closed(&bus));
    assert!(!rx2.is_closed(&bus));
    assert!(matches!(rx2.recv(&mut bus), RecvOutcome::Received(41)));
}

#[test]
fn clear_closes_every_lane() {
    let mut bus = Bus::<u64, u64>::new(2);

    let rx_a = match bus.push(1, 10) {
        PushOutcome::Created(rx) => rx,
        _ => panic!("tag 1 is unseen"),
    };
    let rx_b = match bus.push(2, 20) {
        PushOutcome::Created(rx) => rx,
        _ => panic!("tag 2 is unseen"),
    };

    bus.clear();

    assert!(rx_a.is_closed(&bus));
    assert!(rx_b.is_closed(&bus));
    assert!(matches!(rx_a.recv(&mut bus), RecvOutcome::Closed));
    assert!(matches!(rx_b.recv(&mut bus), RecvOutcome::Closed));
}
