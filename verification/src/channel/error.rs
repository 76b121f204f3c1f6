//! Error types for channel operations.

use vstd::prelude::*;

verus! {

/// Why a channel receive failed.
#[derive(Clone, Copy, PartialEq, Eq, Debug)]
pub enum ConsumeError {
    /// The channel is closed on both sides with a call to `close()`.
    Closed,
    /// All sender instances are dropped and the channel is closed from the
    /// send side.
    ProducerClosed,
    /// The channel operation reached a timeout and was canceled.
    Timeout,
}

/// Why a channel send failed.
#[derive(Clone, Copy, PartialEq, Eq, Debug)]
pub enum ProduceError {
    /// The channel is closed on both sides with a call to `close()`.
    Closed,
    /// All receiver instances are dropped and the channel is closed from the
    /// receive side.
    ConsumerClosed,
}

} // verus!
