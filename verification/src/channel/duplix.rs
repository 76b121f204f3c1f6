//! A duplex channel: each side sends values of its own type and receives
//! the other side's, over two underlying channels crossed between the two
//! [`DuplixSide`] values.

use vstd::prelude::*;

use super::multi;

verus! {

/// One side of a duplex channel: a producer of `T` paired with a consumer
/// of `R`.
#[derive(Clone)]
#[verifier::reject_recursive_types(T)]
#[verifier::reject_recursive_types(R)]
pub struct DuplixSide<T, R> {
    tx: multi::MultiProducer<T>,
    rx: multi::MultiConsumer<R>,
}

impl<T, R> DuplixSide<T, R> {
    /// The producer half, as a value (for contracts).
    pub closed spec fn spec_producer(&self) -> multi::MultiProducer<T> {
        self.tx
    }

    /// The consumer half, as a value (for contracts).
    pub closed spec fn spec_consumer(&self) -> multi::MultiConsumer<R> {
        self.rx
    }

    /// Sends a value towards the consumer of the other side, blocking while
    /// the channel is full.
    pub fn send(&self, value: T) -> Result<(), super::error::ProduceError> {
        self.tx.send_sync(value)
    }

    /// Receives a value sent by the other side's producer, blocking while
    /// the channel is empty.
    pub fn recv(&self) -> Result<R, super::error::ConsumeError> {
        self.rx.recv()
    }

    /// Whether either underlying channel is closed.
    pub fn is_closed(&self) -> bool {
        self.tx.is_closed() || self.rx.is_closed()
    }

    /// Decomposes this side into its producer and consumer.
    pub fn split(self) -> (r: (multi::MultiProducer<T>, multi::MultiConsumer<R>))
        ensures
            r.0 == self.spec_producer(),
            r.1 == self.spec_consumer(),
    {
        (self.tx, self.rx)
    }

    fn new(tx: multi::MultiProducer<T>, rx: multi::MultiConsumer<R>) -> (r: Self)
        ensures
            r.spec_producer() == tx,
            r.spec_consumer() == rx,
    {
        DuplixSide { tx, rx }
    }
}

/// Creates an unbounded (on both sides) duplex channel.
pub fn unbounded<T, R>() -> (DuplixSide<T, R>, DuplixSide<R, T>) {
    let (tx1, rx2) = multi::unbounded::<T>();
    let (tx2, rx1) = multi::unbounded::<R>();
    (DuplixSide::new(tx1, rx1), DuplixSide::new(tx2, rx2))
}

/// Creates a bounded (on both sides) duplex channel, each direction holding
/// at most `bound` values.
pub fn bounded<T, R>(bound: usize) -> (DuplixSide<T, R>, DuplixSide<R, T>) {
    let (tx1, rx2) = multi::bounded::<T>(bound);
    let (tx2, rx1) = multi::bounded::<R>(bound);
    (DuplixSide::new(tx1, rx1), DuplixSide::new(tx2, rx2))
}

/// Creates a duplex channel, bounded in each direction to hold at most
/// `bound` values where one is given.
pub fn maybe_bounded<T, R>(bound: Option<usize>) -> (DuplixSide<T, R>, DuplixSide<R, T>) {
    match bound {
        Some(b) => bounded(b),
        None => unbounded(),
    }
}

} // verus!
