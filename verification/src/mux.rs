//! The multiplexer: a dispatch bus for inbound values plus one shared
//! outbound stream into which every lane's replies converge, tagged with the
//! lane they came from.

use vstd::prelude::*;

use crate::bus::spec_push;
use crate::bus::spec_push_kind;
use crate::bus::Bus;
use crate::bus::PushKind;
use crate::bus::PushOutcome;
use crate::bus::RecvOutcome;
use crate::lane::Lane;
use crate::lane::LaneTx;
use crate::lane::TxOutcome;
use crate::map::Key;

verus! {

/// What a mux send returns: a brand-new lane for the caller to hand to a
/// handler (first use of the tag), nothing (delivered into the existing
/// lane), or the untouched pair back (the lane's buffer is at capacity; an
/// asynchronous caller waits for room and retries).
pub enum SendOutcome<K: Key, V> {
    Created(Lane<K>),
    Delivered,
    Full(K, V),
}

/// A multiplexer: many logically independent conversations, each identified
/// by a tag, share one inbound entry point and one outbound stream.
pub struct Mux<K: Key, V> {
    bus: Bus<K, V>,
    agg: Vec<(K, V)>,
    agg_buf: usize,
    shut: bool,
    drain: bool,
}

/// The capability to consume the mux's shared outbound stream. It is handed
/// out exactly once, by [`Mux::new`].
pub struct MuxRx {
    _private: (),
}

impl<K: Key, V> Mux<K, V> {
    /// The abstract state of every registered lane, keyed by tag.
    pub closed spec fn lanes(&self) -> Map<<K as View>::V, crate::bus::LaneModel<V>> {
        self.bus.lanes()
    }

    /// The generation of each registered lane's binding.
    pub closed spec fn gens(&self) -> Map<<K as View>::V, u64> {
        self.bus.gens()
    }

    /// The bus registry's generation counter.
    pub closed spec fn version(&self) -> u64 {
        self.bus.version()
    }

    /// The buffer capacity of each lane.
    pub closed spec fn lane_cap(&self) -> usize {
        self.bus.lane_cap()
    }

    /// The buffer capacity of the shared outbound stream.
    pub closed spec fn agg_cap(&self) -> usize {
        self.agg_buf
    }

    /// The tagged replies accepted into the shared outbound stream and not
    /// yet consumed, oldest first.
    pub closed spec fn pending(&self) -> Seq<(K, V)> {
        self.agg@
    }

    /// Whether the mux was closed: all lanes evicted, and no sender accepted
    /// into the outbound stream any more.
    pub closed spec fn closed(&self) -> bool {
        self.shut
    }

    /// Whether the outbound stream's consuming side is still attached.
    pub closed spec fn rx_open(&self) -> bool {
        !self.drain
    }

    /// Well-formedness: the bus is well-formed and the outbound buffer holds
    /// at least one value and never exceeds its capacity.
    pub closed spec fn wf(&self) -> bool {
        &&& self.bus.wf()
        &&& self.agg_buf >= 1
        &&& self.agg@.len() <= self.agg_buf
    }

    /// Whether the bus can still mint a generation for a new lane; callers
    /// test this before a send.
    pub fn can_create(&self) -> (r: bool)
        ensures
            r == (self.version() < u64::MAX),
    {
        self.bus.can_create()
    }

    /// Creates a mux whose shared outbound stream buffers up to `buf` tagged
    /// replies and whose lanes each buffer up to `lane_buf` values, along
    /// with the one capability to consume the outbound stream.
    pub fn new(buf: usize, lane_buf: usize) -> (r: (Self, MuxRx))
        requires
            1 <= buf,
            1 <= lane_buf,
        ensures
            r.0.wf(),
            r.0.lanes() == Map::<<K as View>::V, crate::bus::LaneModel<V>>::empty(),
            r.0.gens() == Map::<<K as View>::V, u64>::empty(),
            r.0.version() == 0,
            r.0.lane_cap() == lane_buf,
            r.0.agg_cap() == buf,
            r.0.pending() == Seq::<(K, V)>::empty(),
            !r.0.closed(),
            r.0.rx_open(),
    {
        let mux = Mux {
            bus: Bus::new(lane_buf),
            agg: Vec::new(),
            agg_buf: buf,
            shut: false,
            drain: false,
        };
        (mux, MuxRx { _private: () })
    }

    /// Sends `value` to the lane for `tag`, creating the lane on first use
    /// of the tag.
    ///
    /// A brand-new lane comes back paired with a reply sender bound to this
    /// mux's shared outbound stream, so the handler's replies all converge
    /// there; the caller is responsible for handing the lane to a handler.
    pub fn send(&mut self, tag: K, value: V) -> (r: SendOutcome<K, V>)
        requires
            old(self).wf(),
            old(self).version() < u64::MAX,
            !old(self).closed(),
        ensures
            final(self).wf(),
            final(self).lane_cap() == old(self).lane_cap(),
            final(self).agg_cap() == old(self).agg_cap(),
            final(self).pending() == old(self).pending(),
            final(self).closed() == old(self).closed(),
            final(self).rx_open() == old(self).rx_open(),
            final(self).lanes() == spec_push(
                old(self).lanes(),
                old(self).lane_cap() as nat,
                tag@,
                value,
            ),
            match r {
                SendOutcome::Created(lane) => {
                    &&& spec_push_kind(old(self).lanes(), old(self).lane_cap() as nat, tag@)
                        == PushKind::Created
                    &&& lane.spec_sender()@ == tag@
                    &&& lane.spec_receiver()@ == (tag@, old(self).version())
                    &&& final(self).gens() == old(self).gens().insert(tag@, old(self).version())
                    &&& final(self).version() == old(self).version() + 1
                },
                SendOutcome::Delivered => {
                    &&& spec_push_kind(old(self).lanes(), old(self).lane_cap() as nat, tag@)
                        == PushKind::Delivered
                    &&& final(self).gens() == old(self).gens()
                    &&& final(self).version() == old(self).version()
                },
                SendOutcome::Full(t, v) => {
                    &&& spec_push_kind(old(self).lanes(), old(self).lane_cap() as nat, tag@)
                        == PushKind::Full
                    &&& t == tag
                    &&& v == value
                    &&& final(self).gens() == old(self).gens()
                    &&& final(self).version() == old(self).version()
                },
            },
    {
        match self.bus.push(tag, value) {
            PushOutcome::Created(rx) => {
                let tx = LaneTx::new(rx.tag().key_clone());
                SendOutcome::Created(Lane::from_parts(tx, rx))
            },
            PushOutcome::Delivered => SendOutcome::Delivered,
            PushOutcome::Full(t, v) => SendOutcome::Full(t, v),
        }
    }

    /// Closes the mux: every lane is evicted (outstanding receivers observe
    /// their lanes as closed) and the outbound stream accepts no further
    /// replies. Replies already accepted can still be drained.
    pub fn close(&mut self)
        requires
            old(self).wf(),
        ensures
            final(self).wf(),
            final(self).lanes() == Map::<<K as View>::V, crate::bus::LaneModel<V>>::empty(),
            final(self).gens() == Map::<<K as View>::V, u64>::empty(),
            final(self).version() == old(self).version(),
            final(self).lane_cap() == old(self).lane_cap(),
            final(self).agg_cap() == old(self).agg_cap(),
            final(self).pending() == old(self).pending(),
            final(self).closed(),
            final(self).rx_open() == old(self).rx_open(),
    {
        self.bus.clear();
        self.shut = true;
    }

    /// Gets the mux's bus, through which lane receivers are driven.
    pub fn bus(&self) -> (r: &Bus<K, V>)
        ensures
            r.lanes() == self.lanes(),
            r.gens() == self.gens(),
            r.version() == self.version(),
            r.lane_cap() == self.lane_cap(),
            self.wf() ==> r.wf(),
    {
        &self.bus
    }

    /// Gets the mux's bus mutably, through which lane receivers are driven.
    pub fn bus_mut(&mut self) -> (r: &mut Bus<K, V>)
        ensures
            r.lanes() == old(self).lanes(),
            r.gens() == old(self).gens(),
            r.version() == old(self).version(),
            r.lane_cap() == old(self).lane_cap(),
            old(self).wf() ==> r.wf(),
            final(self).lanes() == final(r).lanes(),
            final(self).gens() == final(r).gens(),
            final(self).version() == final(r).version(),
            final(self).lane_cap() == final(r).lane_cap(),
            final(r).wf() && old(self).wf() ==> final(self).wf(),
            final(self).agg_cap() == old(self).agg_cap(),
            final(self).pending() == old(self).pending(),
            final(self).closed() == old(self).closed(),
            final(self).rx_open() == old(self).rx_open(),
    {
        &mut self.bus
    }

    /// Whether the outbound stream accepts no further replies.
    pub(crate) fn agg_is_closed(&self) -> (r: bool)
        ensures
            r == (self.closed() || !self.rx_open()),
    {
        self.shut || self.drain
    }

    /// Accepts a tagged reply into the outbound stream, or hands it back.
    pub(crate) fn agg_send(&mut self, tag: &K, value: V) -> (r: TxOutcome<V>)
        requires
            old(self).wf(),
        ensures
            final(self).wf(),
            final(self).lanes() == old(self).lanes(),
            final(self).gens() == old(self).gens(),
            final(self).version() == old(self).version(),
            final(self).lane_cap() == old(self).lane_cap(),
            final(self).agg_cap() == old(self).agg_cap(),
            final(self).closed() == old(self).closed(),
            final(self).rx_open() == old(self).rx_open(),
            match r {
                TxOutcome::Sent => {
                    &&& !old(self).closed() && old(self).rx_open()
                    &&& old(self).pending().len() < old(self).agg_cap()
                    &&& final(self).pending().len() == old(self).pending().len() + 1
                    &&& final(self).pending().drop_last() == old(self).pending()
                    &&& final(self).pending().last().0@ == tag@
                    &&& final(self).pending().last().1 == value
                },
                TxOutcome::Full(v) => {
                    &&& !old(self).closed() && old(self).rx_open()
                    &&& old(self).pending().len() >= old(self).agg_cap()
                    &&& v == value
                    &&& *final(self) == *old(self)
                },
                TxOutcome::Closed(v) => {
                    &&& old(self).closed() || !old(self).rx_open()
                    &&& v == value
                    &&& *final(self) == *old(self)
                },
            },
    {
        if self.shut || self.drain {
            return TxOutcome::Closed(value);
        }
        if self.agg.len() >= self.agg_buf {
            return TxOutcome::Full(value);
        }
        self.agg.push((tag.key_clone(), value));
        proof {
            assert(self.agg@.drop_last() =~= old(self).agg@);
        }
        TxOutcome::Sent
    }
}

impl MuxRx {
    /// Consumes the oldest tagged reply of the mux's outbound stream.
    ///
    /// An empty stream yields [`RecvOutcome::Empty`] while replies can still
    /// arrive (an asynchronous caller waits and retries), and
    /// [`RecvOutcome::Closed`] once the mux or this consuming side was
    /// closed and everything accepted has been drained.
    pub fn recv<K: Key, V>(&self, mux: &mut Mux<K, V>) -> (r: RecvOutcome<(K, V)>)
        requires
            old(mux).wf(),
        ensures
            final(mux).wf(),
            final(mux).lanes() == old(mux).lanes(),
            final(mux).gens() == old(mux).gens(),
            final(mux).version() == old(mux).version(),
            final(mux).lane_cap() == old(mux).lane_cap(),
            final(mux).agg_cap() == old(mux).agg_cap(),
            final(mux).closed() == old(mux).closed(),
            final(mux).rx_open() == old(mux).rx_open(),
            match r {
                RecvOutcome::Received(p) => {
                    &&& old(mux).pending().len() > 0
                    &&& p == old(mux).pending()[0]
                    &&& final(mux).pending() == old(mux).pending().drop_first()
                },
                RecvOutcome::Empty => {
                    &&& old(mux).pending().len() == 0
                    &&& !old(mux).closed() && old(mux).rx_open()
                    &&& *final(mux) == *old(mux)
                },
                RecvOutcome::Closed => {
                    &&& old(mux).pending().len() == 0
                    &&& old(mux).closed() || !old(mux).rx_open()
                    &&& *final(mux) == *old(mux)
                },
            },
    {
        if mux.agg.len() > 0 {
            let p = mux.agg.remove(0);
            proof {
                assert(mux.agg@ =~= old(mux).agg@.drop_first());
            }
            RecvOutcome::Received(p)
        } else if mux.shut || mux.drain {
            RecvOutcome::Closed
        } else {
            RecvOutcome::Empty
        }
    }

    /// Detaches this consuming side from the mux's outbound stream: replies
    /// still buffered can be drained, but senders are refused from now on.
    pub fn close<K: Key, V>(&self, mux: &mut Mux<K, V>)
        requires
            old(mux).wf(),
        ensures
            final(mux).wf(),
            final(mux).lanes() == old(mux).lanes(),
            final(mux).gens() == old(mux).gens(),
            final(mux).version() == old(mux).version(),
            final(mux).lane_cap() == old(mux).lane_cap(),
            final(mux).agg_cap() == old(mux).agg_cap(),
            final(mux).pending() == old(mux).pending(),
            final(mux).closed() == old(mux).closed(),
            !final(mux).rx_open(),
    {
        mux.drain = true;
    }
}

} // verus!
