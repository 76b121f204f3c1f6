//! Lane endpoints: the per-tag receiver handle ([`LaneRx`]), the reply sender
//! ([`LaneTx`]) that writes into a mux's shared outbound stream, and the
//! [`Lane`] pair handed to a handler when a tag is first used.

use vstd::prelude::*;

use crate::bus::Bus;
use crate::bus::RecvOutcome;
use crate::map::Key;
use crate::map::MapSlot;
use crate::mux::Mux;

verus! {

/// What a reply send returns: accepted into the shared outbound stream, the
/// value back because that stream's buffer is at capacity (an asynchronous
/// caller waits for room and retries), or the value back because the stream
/// is closed and will never accept it.
pub enum TxOutcome<V> {
    Sent,
    Full(V),
    Closed(V),
}

/// The sending half of a lane: every value sent through it lands, tagged
/// with the lane's tag, in the owning mux's shared outbound stream.
#[derive(Clone)]
pub struct LaneTx<K: Key> {
    tag: K,
}

impl<K: Key> View for LaneTx<K> {
    type V = <K as View>::V;

    closed spec fn view(&self) -> <K as View>::V {
        self.tag@
    }
}

impl<K: Key> LaneTx<K> {
    /// Wraps a tag as a reply sender.
    pub(crate) fn new(tag: K) -> (r: Self)
        ensures
            r@ == tag@,
    {
        LaneTx { tag }
    }

    /// Gets a reference to the lane's tag.
    pub fn tag(&self) -> (r: &K)
        ensures
            r@ == self@,
    {
        &self.tag
    }

    /// Whether the shared outbound stream no longer accepts values: its
    /// consuming side was closed, or the mux itself was.
    pub fn is_closed<V>(&self, mux: &Mux<K, V>) -> (r: bool)
        ensures
            r == (mux.closed() || !mux.rx_open()),
    {
        mux.agg_is_closed()
    }

    /// Sends `value`, tagged with this lane's tag, into the shared outbound
    /// stream of `mux`.
    ///
    /// A full stream hands the value back as [`TxOutcome::Full`]; a closed
    /// one as [`TxOutcome::Closed`]. Either way the undelivered value is
    /// returned to the caller, never discarded.
    pub fn send<V>(&self, mux: &mut Mux<K, V>, value: V) -> (r: TxOutcome<V>)
        requires
            old(mux).wf(),
        ensures
            final(mux).wf(),
            final(mux).lanes() == old(mux).lanes(),
            final(mux).gens() == old(mux).gens(),
            final(mux).version() == old(mux).version(),
            final(mux).lane_cap() == old(mux).lane_cap(),
            final(mux).agg_cap() == old(mux).agg_cap(),
            final(mux).closed() == old(mux).closed(),
            final(mux).rx_open() == old(mux).rx_open(),
            match r {
                TxOutcome::Sent => {
                    &&& !old(mux).closed() && old(mux).rx_open()
                    &&& old(mux).pending().len() < old(mux).agg_cap()
                    &&& final(mux).pending().len() == old(mux).pending().len() + 1
                    &&& final(mux).pending().drop_last() == old(mux).pending()
                    &&& final(mux).pending().last().0@ == self@
                    &&& final(mux).pending().last().1 == value
                },
                TxOutcome::Full(v) => {
                    &&& !old(mux).closed() && old(mux).rx_open()
                    &&& old(mux).pending().len() >= old(mux).agg_cap()
                    &&& v == value
                    &&& *final(mux) == *old(mux)
                },
                TxOutcome::Closed(v) => {
                    &&& old(mux).closed() || !old(mux).rx_open()
                    &&& v == value
                    &&& *final(mux) == *old(mux)
                },
            },
    {
        mux.agg_send(&self.tag, value)
    }
}

/// A lane: the receiver draining values pushed for one tag, paired with the
/// sender whose replies flow into the mux's shared outbound stream under the
/// same tag.
pub struct Lane<K: Key> {
    tx: LaneTx<K>,
    rx: LaneRx<K>,
}

impl<K: Key> Lane<K> {
    /// The sending half, as a value (for contracts).
    pub closed spec fn spec_sender(&self) -> LaneTx<K> {
        self.tx
    }

    /// The receiving half, as a value (for contracts).
    pub closed spec fn spec_receiver(&self) -> LaneRx<K> {
        self.rx
    }

    /// Pairs a sender and a receiver into a lane. The two must carry the
    /// same tag; pairing mismatched halves is a programming error, which
    /// this contract rules out.
    pub(crate) fn from_parts(tx: LaneTx<K>, rx: LaneRx<K>) -> (r: Self)
        requires
            tx@ == rx@.0,
        ensures
            r.spec_sender() == tx,
            r.spec_receiver() == rx,
    {
        Lane { tx, rx }
    }

    /// Gets the lane's sender.
    pub fn sender(&mut self) -> (r: &mut LaneTx<K>)
        ensures
            *r == old(self).spec_sender(),
            final(self).spec_sender() == *final(r),
            final(self).spec_receiver() == old(self).spec_receiver(),
    {
        &mut self.tx
    }

    /// Gets the lane's receiver.
    pub fn receiver(&mut self) -> (r: &mut LaneRx<K>)
        ensures
            *r == old(self).spec_receiver(),
            final(self).spec_receiver() == *final(r),
            final(self).spec_sender() == old(self).spec_sender(),
    {
        &mut self.rx
    }

    /// Splits the lane into its sender and receiver, so that the two can be
    /// driven independently.
    pub fn split(self) -> (r: (LaneTx<K>, LaneRx<K>))
        ensures
            r.0 == self.spec_sender(),
            r.1 == self.spec_receiver(),
    {
        (self.tx, self.rx)
    }
}

/// The receiving half of a lane.
///
/// It owns the registry handle for its lane's binding: closing the receiver
/// evicts the lane from the bus, after which the tag counts as absent and a
/// later push creates a brand-new lane.
pub struct LaneRx<K: Key> {
    slot: MapSlot<K>,
}

impl<K: Key> View for LaneRx<K> {
    type V = (<K as View>::V, u64);

    closed spec fn view(&self) -> (<K as View>::V, u64) {
        self.slot@
    }
}

impl<K: Key> LaneRx<K> {
    /// Wraps the registry handle minted for a freshly created lane.
    pub(crate) fn new(slot: MapSlot<K>) -> (r: Self)
        ensures
            r@ == slot@,
    {
        LaneRx { slot }
    }

    /// Whether this receiver's lane is still the one registered for its tag
    /// on `bus`.
    pub open spec fn live_in<V>(&self, bus: &Bus<K, V>) -> bool {
        &&& bus.gens().contains_key(self@.0)
        &&& bus.gens()[self@.0] == self@.1
    }

    /// Gets a reference to the lane's tag.
    pub fn tag(&self) -> (r: &K)
        ensures
            r@ == self@.0,
    {
        self.slot.key()
    }

    /// Whether the lane is closed: its binding was evicted, replaced, or
    /// released, so its sender is no longer the registered owner of the tag.
    pub fn is_closed<V>(&self, bus: &Bus<K, V>) -> (r: bool)
        requires
            bus.wf(),
        ensures
            r == !self.live_in(bus),
    {
        !bus.lane_live(&self.slot)
    }

    /// Receives the next value from the lane.
    ///
    /// A closed lane yields [`RecvOutcome::Closed`]; an open lane with an
    /// empty buffer yields [`RecvOutcome::Empty`] (a caller driving the bus
    /// asynchronously waits and retries); otherwise the oldest buffered value
    /// is handed out, in the order the bus accepted it.
    pub fn recv<V>(&self, bus: &mut Bus<K, V>) -> (r: RecvOutcome<V>)
        requires
            old(bus).wf(),
        ensures
            final(bus).wf(),
            final(bus).lane_cap() == old(bus).lane_cap(),
            final(bus).version() == old(bus).version(),
            final(bus).gens() == old(bus).gens(),
            match r {
                RecvOutcome::Closed => !self.live_in(old(bus)) && *final(bus) == *old(bus),
                RecvOutcome::Empty => self.live_in(old(bus)) && old(bus).lanes()[self@.0].queue.len()
                    == 0 && *final(bus) == *old(bus),
                RecvOutcome::Received(v) => {
                    &&& self.live_in(old(bus))
                    &&& old(bus).lanes()[self@.0].queue.len() > 0
                    &&& v == old(bus).lanes()[self@.0].queue[0]
                    &&& final(bus).lanes() == crate::bus::spec_recv(old(bus).lanes(), self@.0)
                },
            },
    {
        bus.lane_recv(&self.slot)
    }

    /// Closes the lane, evicting its binding from the bus so that the tag
    /// counts as absent. Values still buffered in the lane are discarded.
    ///
    /// Closing is idempotent, and closing a receiver whose tag has since been
    /// rebound to a newer lane leaves that newer lane untouched.
    pub fn close<V>(&self, bus: &mut Bus<K, V>)
        requires
            old(bus).wf(),
        ensures
            final(bus).wf(),
            final(bus).lane_cap() == old(bus).lane_cap(),
            final(bus).version() == old(bus).version(),
            self.live_in(old(bus)) ==> final(bus).lanes() == crate::bus::spec_close(
                old(bus).lanes(),
                self@.0,
            ) && final(bus).gens() == old(bus).gens().remove(self@.0),
            !self.live_in(old(bus)) ==> *final(bus) == *old(bus),
            !self.live_in(final(bus)),
    {
        bus.lane_close(&self.slot)
    }
}

} // verus!
