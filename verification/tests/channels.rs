//! Tests of the channel building blocks, run against the real outside
//! channel primitive.

use remux::channel::duplix;
use remux::channel::multi;
use remux::channel::ConsumeError;
use remux::channel::ProduceError;

#[test]
fn multi_round_trip() {
    let (tx, rx) = multi::unbounded::<u64>();

    assert!(!tx.is_closed());
    assert!(!rx.is_closed());
    assert!(!tx.is_disconnected());
    assert!(!rx.is_disconnected());
    assert!(!rx.is_terminated());

    assert!(matches!(tx.send_sync(41), Ok(())));
    assert!(matches!(tx.send_sync(42), Ok(())));
    assert_eq!(rx.recv(), Ok(41));
    assert_eq!(rx.recv(), Ok(42));
}

#[test]
fn multi_bounded_round_trip() {
    let (tx, rx) = multi::bounded::<String>(4);
    assert!(matches!(tx.send_sync(String::from("ping")), Ok(())));
    assert_eq!(rx.recv(), Ok(String::from("ping")));
}

#[test]
fn multi_maybe_bounded() {
    let (tx1, rx1) = multi::maybe_bounded::<u64>(Some(2));
    assert!(matches!(tx1.send_sync(7), Ok(())));
    assert_eq!(rx1.recv(), Ok(7));

    let (tx2, rx2) = multi::maybe_bounded::<u64>(None);
    assert!(matches!(tx2.send_sync(8), Ok(())));
    assert_eq!(rx2.recv(), Ok(8));
}

#[test]
fn recv_after_producers_gone_reports_producer_closed() {
    let (tx, rx) = multi::unbounded::<u64>();
    assert!(matches!(tx.send_sync(1), Ok(())));
    drop(tx);

    // The buffered value drains first; then the error names the send side.
    assert_eq!(rx.recv(), Ok(1));
    assert_eq!(rx.recv(), Err(ConsumeError::ProducerClosed));
}

#[test]
fn send_after_consumers_gone_reports_consumer_closed() {
    let (tx, rx) = multi::unbounded::<u64>();
    drop(rx);

    assert_eq!(tx.send_sync(1), Err(ProduceError::ConsumerClosed));
}

#[test]
fn duplix_sides_cross() {
    let (side1, side2) = duplix::unbounded::<u64, String>();

    assert!(!side1.is_closed());
    assert!(!side2.is_closed());

    assert!(matches!(side1.send(5), Ok(())));
    assert_eq!(side2.recv(), Ok(5));

    assert!(matches!(side2.send(String::from("five")), Ok(())));
    assert_eq!(side1.recv(), Ok(String::from("five")));
}

#[test]
fn duplix_split_and_bounded() {
    let (side1, side2) = duplix::maybe_bounded::<u64, u64>(Some(3));
    let (tx1, rx1) = side1.split();
    let (tx2, rx2) = side2.split();

    assert!(matches!(tx1.send_sync(10), Ok(())));
    assert!(matches!(tx2.send_sync(20), Ok(())));
    assert_eq!(rx2.recv(), Ok(10));
    assert_eq!(rx1.recv(), Ok(20));
}
