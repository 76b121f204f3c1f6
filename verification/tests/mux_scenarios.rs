//! Tests of the mux: lane creation on first use, per-lane delivery, the
//! reply path into the shared outbound stream, and closing.

use remux::bus::RecvOutcome;
use remux::lane::TxOutcome;
use remux::mux::SendOutcome;
use remux::Lane;
use remux::Mux;

fn expect_lane<K: remux::Key, V>(r: SendOutcome<K, V>) -> Lane<K> {
    match r {
        SendOutcome::Created(lane) => lane,
        _ => panic!("expected a brand-new lane"),
    }
}

#[test]
fn new_tag_then_delivery_then_recreation() {
    let (mut mux, _mux_rx) = Mux::<String, u64>::new(4, 2);

    // First use of "a" creates its lane.
    let mut lane_a = expect_lane(mux.send(String::from("a"), 1));
    assert_eq!(lane_a.sender().tag(), &String::from("a"));

    // A second send to "a" is delivered into the existing lane.
    assert!(matches!(mux.send(String::from("a"), 2), SendOutcome::Delivered));

    // The lane's receiver yields 1 then 2, in send order.
    let (_tx_a, rx_a) = lane_a.split();
    assert!(matches!(rx_a.recv(mux.bus_mut()), RecvOutcome::Received(1)));
    assert!(matches!(rx_a.recv(mux.bus_mut()), RecvOutcome::Received(2)));

    // Closing the receiver evicts the tag; the next send recreates it.
    rx_a.close(mux.bus_mut());
    let mut lane_a2 = expect_lane(mux.send(String::from("a"), 3));
    assert!(matches!(
        lane_a2.receiver().recv(mux.bus_mut()),
        RecvOutcome::Received(3)
    ));
}

#[test]
fn two_sends_to_an_unseen_tag_create_exactly_one_lane() {
    let (mut mux, _mux_rx) = Mux::<String, u64>::new(4, 2);

    let x: u64 = 100;
    let y: u64 = 200;

    // Exactly one of the two sends returns a lane; the other delivers into
    // the winning lane.
    let mut lane = expect_lane(mux.send(String::from("b"), x));
    assert!(matches!(mux.send(String::from("b"), y), SendOutcome::Delivered));

    // Both values appear, none duplicated.
    let rx = lane.receiver();
    assert!(matches!(rx.recv(mux.bus_mut()), RecvOutcome::Received(100)));
    assert!(matches!(rx.recv(mux.bus_mut()), RecvOutcome::Received(200)));
    assert!(matches!(rx.recv(mux.bus_mut()), RecvOutcome::Empty));
}

#[test]
fn replies_converge_tagged_into_one_stream() {
    let (mut mux, mux_rx) = Mux::<u64, u64>::new(8, 2);

    let (tx_a, _rx_a) = expect_lane(mux.send(1, 10)).split();
    let (tx_b, _rx_b) = expect_lane(mux.send(2, 20)).split();

    assert!(matches!(tx_a.send(&mut mux, 11), TxOutcome::Sent));
    assert!(matches!(tx_b.send(&mut mux, 21), TxOutcome::Sent));
    assert!(matches!(tx_a.send(&mut mux, 12), TxOutcome::Sent));

    // One consumer observes all replies, tagged, in acceptance order.
    assert!(matches!(mux_rx.recv(&mut mux), RecvOutcome::Received((1, 11))));
    assert!(matches!(mux_rx.recv(&mut mux), RecvOutcome::Received((2, 21))));
    assert!(matches!(mux_rx.recv(&mut mux), RecvOutcome::Received((1, 12))));
    assert!(matches!(mux_rx.recv(&mut mux), RecvOutcome::Empty));
}

#[test]
fn full_outbound_stream_hands_the_value_back() {
    let (mut mux, mux_rx) = Mux::<u64, u64>::new(1, 2);

    let (tx, _rx) = expect_lane(mux.send(5, 50)).split();

    assert!(matches!(tx.send(&mut mux, 51), TxOutcome::Sent));
    match tx.send(&mut mux, 52) {
        TxOutcome::Full(v) => assert_eq!(v, 52),
        _ => panic!("a full outbound stream must hand the value back"),
    }

    assert!(matches!(mux_rx.recv(&mut mux), RecvOutcome::Received((5, 51))));
    assert!(matches!(tx.send(&mut mux, 52), TxOutcome::Sent));
}

#[test]
fn closed_consumer_refuses_replies_after_draining() {
    let (mut mux, mux_rx) = Mux::<u64, u64>::new(4, 2);

    let (tx, _rx) = expect_lane(mux.send(6, 60)).split();
    assert!(matches!(tx.send(&mut mux, 61), TxOutcome::Sent));
    assert!(!tx.is_closed(&mux));

    mux_rx.close(&mut mux);
    assert!(tx.is_closed(&mux));

    // An undelivered reply comes back rather than being discarded.
    match tx.send(&mut mux, 62) {
        TxOutcome::Closed(v) => assert_eq!(v, 62),
        _ => panic!("a closed outbound stream must hand the value back"),
    }

    // What was accepted before the close can still be drained.
    assert!(matches!(mux_rx.recv(&mut mux), RecvOutcome::Received((6, 61))));
    assert!(matches!(mux_rx.recv(&mut mux), RecvOutcome::Closed));
}

#[test]
fn closing_the_mux_closes_all_lanes() {
    let (mut mux, mux_rx) = Mux::<u64, u64>::new(4, 2);

    let (tx_a, rx_a) = expect_lane(mux.send(1, 10)).split();
    let (_tx_b, rx_b) = expect_lane(mux.send(2, 20)).split();
    assert!(matches!(tx_a.send(&mut mux, 99), TxOutcome::Sent));

    mux.close();

    // Every outstanding receiver observes its lane as closed.
    assert!(rx_a.is_closed(mux.bus()));
    assert!(rx_b.is_closed(mux.bus()));
    assert!(matches!(rx_a.recv(mux.bus_mut()), RecvOutcome::Closed));

    // Replies already accepted drain; then the stream reports closed.
    assert!(matches!(mux_rx.recv(&mut mux), RecvOutcome::Received((1, 99))));
    assert!(matches!(mux_rx.recv(&mut mux), RecvOutcome::Closed));

    // New replies are refused with the value handed back.
    assert!(matches!(tx_a.send(&mut mux, 1), TxOutcome::Closed(1)));
}

#[test]
fn lanes_round_trip_many_messages() {
    let lane_cnt: u64 = 10;
    let msg_cnt: u64 = 20;

    let (mut mux, mux_rx) = Mux::<u64, (u64, u64)>::new(1024, 1024);

    let mut lanes = Vec::new();
    for lane_no in 0..lane_cnt {
        for msg_no in 0..msg_cnt {
            match mux.send(lane_no, (msg_no, lane_no * 1000 + msg_no)) {
                SendOutcome::Created(lane) => {
                    assert_eq!(msg_no, 0);
                    lanes.push(lane);
                },
                SendOutcome::Delivered => assert_ne!(msg_no, 0),
                SendOutcome::Full(_, _) => panic!("lane buffers are large enough"),
            }
        }
    }

    // Each handler drains its lane in order and replies with each value.
    for lane in &mut lanes {
        let tx = lane.sender().clone();
        let lane_no = *tx.tag();
        for msg_no in 0..msg_cnt {
            match lane.receiver().recv(mux.bus_mut()) {
                RecvOutcome::Received((n, v)) => {
                    assert_eq!(n, msg_no);
                    assert_eq!(v, lane_no * 1000 + msg_no);
                    assert!(matches!(tx.send(&mut mux, (n, v)), TxOutcome::Sent));
                },
                _ => panic!("expected a buffered value"),
            }
        }
    }

    // The one consumer observes every reply, tagged with its lane.
    for lane_no in 0..lane_cnt {
        for msg_no in 0..msg_cnt {
            match mux_rx.recv(&mut mux) {
                RecvOutcome::Received((tag, (n, v))) => {
                    assert_eq!(tag, lane_no);
                    assert_eq!(n, msg_no);
                    assert_eq!(v, lane_no * 1000 + msg_no);
                },
                _ => panic!("expected a reply"),
            }
        }
    }

    mux.close();
    assert!(matches!(mux_rx.recv(&mut mux), RecvOutcome::Closed));
}
