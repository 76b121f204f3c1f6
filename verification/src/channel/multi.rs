//! Multi-producer, multi-consumer channel endpoints.
//!
//! The endpoints wrap an outside channel primitive. What a live concurrent
//! channel returns depends on the other side's timing, so these trusted
//! wrappers state only the error mapping; the crate's own logic never leans
//! on more.

use vstd::prelude::*;

use super::error::ConsumeError;
use super::error::ProduceError;

verus! {

#[verifier::external_type_specification]
#[verifier::external_body]
#[verifier::reject_recursive_types(T)]
pub struct ExAsyncSender<T>(kanal::AsyncSender<T>);

#[verifier::external_type_specification]
#[verifier::external_body]
#[verifier::reject_recursive_types(T)]
pub struct ExAsyncReceiver<T>(kanal::AsyncReceiver<T>);

/// Relies on kanal::AsyncSender's Clone: a clone is another endpoint of the
/// same channel, of which nothing is promised here.
pub assume_specification<T>[ <kanal::AsyncSender<T> as Clone>::clone ](
    s: &kanal::AsyncSender<T>,
) -> kanal::AsyncSender<T>;

/// Relies on kanal::AsyncReceiver's Clone: a clone is another endpoint of
/// the same channel, of which nothing is promised here.
pub assume_specification<T>[ <kanal::AsyncReceiver<T> as Clone>::clone ](
    s: &kanal::AsyncReceiver<T>,
) -> kanal::AsyncReceiver<T>;

/// A multi-producer, multi-consumer sender side.
#[derive(Clone)]
#[verifier::reject_recursive_types(T)]
pub struct MultiProducer<T>(kanal::AsyncSender<T>);

/// A multi-producer, multi-consumer consumer side.
#[derive(Clone)]
#[verifier::reject_recursive_types(T)]
pub struct MultiConsumer<T>(kanal::AsyncReceiver<T>);

impl<T> MultiProducer<T> {
    /// Sends a value to a consumer, blocking while the channel is full.
    ///
    /// Relies on kanal::Sender::send, reached through
    /// kanal::AsyncSender::as_sync; its two error cases map onto
    /// [`ProduceError`] one for one.
    #[verifier::external_body]
    pub fn send_sync(&self, value: T) -> Result<(), ProduceError> {
        match self.0.as_sync().send(value) {
            Ok(()) => Ok(()),
            Err(kanal::SendError::Closed) => Err(ProduceError::Closed),
            Err(kanal::SendError::ReceiveClosed) => Err(ProduceError::ConsumerClosed),
        }
    }

    /// Whether this producer is disconnected from every consumer.
    ///
    /// Relies on kanal::AsyncSender::is_disconnected; the flag is shared
    /// with concurrent holders of the channel, so nothing is promised of it.
    #[verifier::external_body]
    pub fn is_disconnected(&self) -> bool {
        self.0.is_disconnected()
    }

    /// Whether the channel is closed.
    ///
    /// Relies on kanal::AsyncSender::is_closed; the flag is shared with
    /// concurrent holders of the channel, so nothing is promised of it.
    #[verifier::external_body]
    pub fn is_closed(&self) -> bool {
        self.0.is_closed()
    }
}

impl<T> MultiConsumer<T> {
    /// Receives a value from a producer, blocking while the channel is
    /// empty.
    ///
    /// Relies on kanal::Receiver::recv, reached through
    /// kanal::AsyncReceiver::as_sync; its two error cases map onto
    /// [`ConsumeError`] one for one.
    #[verifier::external_body]
    pub fn recv(&self) -> Result<T, ConsumeError> {
        match self.0.as_sync().recv() {
            Ok(v) => Ok(v),
            Err(kanal::ReceiveError::Closed) => Err(ConsumeError::Closed),
            Err(kanal::ReceiveError::SendClosed) => Err(ConsumeError::ProducerClosed),
        }
    }

    /// Whether this consumer is disconnected from every producer.
    ///
    /// Relies on kanal::AsyncReceiver::is_disconnected; the flag is shared
    /// with concurrent holders of the channel, so nothing is promised of it.
    #[verifier::external_body]
    pub fn is_disconnected(&self) -> bool {
        self.0.is_disconnected()
    }

    /// Whether the channel is closed.
    ///
    /// Relies on kanal::AsyncReceiver::is_closed; the flag is shared with
    /// concurrent holders of the channel, so nothing is promised of it.
    #[verifier::external_body]
    pub fn is_closed(&self) -> bool {
        self.0.is_closed()
    }

    /// Whether the channel is terminated: closed, with nothing left to
    /// drain.
    ///
    /// Relies on kanal::AsyncReceiver::is_terminated; the flag is shared
    /// with concurrent holders of the channel, so nothing is promised of it.
    #[verifier::external_body]
    pub fn is_terminated(&self) -> bool {
        self.0.is_terminated()
    }
}

/// Creates an unbounded multi-producer, multi-consumer channel.
///
/// Relies on kanal::unbounded_async; the two endpoints are the halves of one
/// fresh channel.
#[verifier::external_body]
pub fn unbounded<T>() -> (MultiProducer<T>, MultiConsumer<T>) {
    let (sender, receiver) = kanal::unbounded_async();
    (MultiProducer(sender), MultiConsumer(receiver))
}

/// Creates a bounded multi-producer, multi-consumer channel holding at most
/// `bound` values.
///
/// Relies on kanal::bounded_async; the two endpoints are the halves of one
/// fresh channel.
#[verifier::external_body]
pub fn bounded<T>(bound: usize) -> (MultiProducer<T>, MultiConsumer<T>) {
    let (sender, receiver) = kanal::bounded_async(bound);
    (MultiProducer(sender), MultiConsumer(receiver))
}

/// Creates a multi-producer, multi-consumer channel, bounded to hold at most
/// `bound` values where one is given.
pub fn maybe_bounded<T>(bound: Option<usize>) -> (MultiProducer<T>, MultiConsumer<T>) {
    match bound {
        Some(b) => bounded(b),
        None => unbounded(),
    }
}

} // verus!
