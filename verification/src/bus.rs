//! The dispatch bus: a single point of entry that routes each pushed
//! `(tag, value)` either into the existing lane for that tag or into a lane
//! created on the spot, evicting and retrying over stale registry entries.

use vstd::prelude::*;

use crate::lane::LaneRx;
use crate::map::Key;
use crate::map::MapSlot;
use crate::map::SlotMap;

verus! {

/// The abstract state of one lane: whether its receiving half is still
/// attached, the values accepted but not yet handed out (oldest first), and
/// the values already handed out, in order.
pub ghost struct LaneModel<V> {
    pub open: bool,
    pub queue: Seq<V>,
    pub delivered: Seq<V>,
}

/// Every value a lane has accepted, in acceptance order: first the values
/// already handed to its receiver, then the values still buffered.
pub open spec fn lane_accepted<V>(l: LaneModel<V>) -> Seq<V> {
    l.delivered + l.queue
}

/// Whether `m` registers a lane for `k` whose receiving half is attached.
pub open spec fn lane_active<T, V>(m: Map<T, LaneModel<V>>, k: T) -> bool {
    m.contains_key(k) && m[k].open
}

/// How a push of `k` resolves against the lanes `m` with per-lane capacity
/// `cap`: a missing or stale (receiver-less) lane is created afresh, an
/// active lane with room accepts the value, and an active lane at capacity
/// rejects it.
pub enum PushKind {
    Created,
    Delivered,
    Full,
}

/// The resolution of a push of `k` against lanes `m`.
pub open spec fn spec_push_kind<T, V>(m: Map<T, LaneModel<V>>, cap: nat, k: T) -> PushKind {
    if !lane_active(m, k) {
        PushKind::Created
    } else if m[k].queue.len() < cap {
        PushKind::Delivered
    } else {
        PushKind::Full
    }
}

/// The lanes after a push of `(k, v)`: a created lane buffers exactly `v`, a
/// delivery appends `v` to the lane's buffer, and a rejected value changes
/// nothing.
pub open spec fn spec_push<T, V>(m: Map<T, LaneModel<V>>, cap: nat, k: T, v: V) -> Map<
    T,
    LaneModel<V>,
> {
    match spec_push_kind(m, cap, k) {
        PushKind::Created => m.insert(
            k,
            LaneModel { open: true, queue: seq![v], delivered: Seq::empty() },
        ),
        PushKind::Delivered => m.insert(
            k,
            LaneModel { open: m[k].open, queue: m[k].queue.push(v), delivered: m[k].delivered },
        ),
        PushKind::Full => m,
    }
}

/// The lanes after the lane for `k` is closed: its binding is gone.
pub open spec fn spec_close<T, V>(m: Map<T, LaneModel<V>>, k: T) -> Map<T, LaneModel<V>> {
    m.remove(k)
}

/// The lanes after the lane for `k` hands out its oldest buffered value.
pub open spec fn spec_recv<T, V>(m: Map<T, LaneModel<V>>, k: T) -> Map<T, LaneModel<V>> {
    m.insert(
        k,
        LaneModel {
            open: m[k].open,
            queue: m[k].queue.drop_first(),
            delivered: m[k].delivered.push(m[k].queue[0]),
        },
    )
}

/// No message loss: a push never discards a value. A delivery appends the
/// value to exactly its tag's accepted sequence, a creation starts that
/// sequence with it, a full lane leaves every lane untouched (the caller
/// keeps the value), and no other tag's lane changes in any case.
pub proof fn lemma_push_conserves<T, V>(m: Map<T, LaneModel<V>>, cap: nat, k: T, v: V)
    ensures
        spec_push_kind(m, cap, k) == PushKind::Created ==> lane_accepted(
            spec_push(m, cap, k, v)[k],
        ) == seq![v],
        spec_push_kind(m, cap, k) == PushKind::Delivered ==> lane_accepted(
            spec_push(m, cap, k, v)[k],
        ) == lane_accepted(m[k]).push(v),
        spec_push_kind(m, cap, k) == PushKind::Full ==> spec_push(m, cap, k, v) == m,
        forall|k2: T|
            k2 != k && m.contains_key(k2) ==> spec_push(m, cap, k, v).contains_key(k2) && spec_push(
                m,
                cap,
                k,
                v,
            )[k2] == m[k2],
{
    match spec_push_kind(m, cap, k) {
        PushKind::Created => {
            assert(lane_accepted(spec_push(m, cap, k, v)[k]) =~= seq![v]);
        },
        PushKind::Delivered => {
            assert(lane_accepted(spec_push(m, cap, k, v)[k]) =~= lane_accepted(m[k]).push(v));
        },
        PushKind::Full => {
        },
    }
}

/// Exactly one creation wins per tag: a push of an unseen tag creates its
/// lane, and once a lane was created for a tag, an immediately following
/// push of the same tag cannot create again — it delivers into the winning
/// lane or reports it full.
pub proof fn lemma_single_creation<T, V>(m: Map<T, LaneModel<V>>, cap: nat, k: T, v: V)
    ensures
        !m.contains_key(k) ==> spec_push_kind(m, cap, k) == PushKind::Created,
        spec_push_kind(m, cap, k) == PushKind::Created ==> spec_push_kind(
            spec_push(m, cap, k, v),
            cap,
            k,
        ) != PushKind::Created,
        spec_push_kind(m, cap, k) == PushKind::Created && 1 < cap ==> spec_push_kind(
            spec_push(m, cap, k, v),
            cap,
            k,
        ) == PushKind::Delivered,
{
}

/// Per-tag FIFO: what a lane has delivered is always a prefix of what it
/// accepted, and a receive extends that prefix by exactly the oldest not yet
/// delivered value, losing nothing — so a handler observes values in
/// acceptance order.
pub proof fn lemma_recv_fifo<T, V>(m: Map<T, LaneModel<V>>, k: T)
    requires
        m.contains_key(k),
        m[k].queue.len() > 0,
    ensures
        m[k].delivered == lane_accepted(m[k]).take(m[k].delivered.len() as int),
        spec_recv(m, k)[k].delivered == lane_accepted(m[k]).take(m[k].delivered.len() as int + 1),
        lane_accepted(spec_recv(m, k)[k]) == lane_accepted(m[k]),
        spec_recv(m, k)[k].queue.len() == 0 ==> spec_recv(m, k)[k].delivered == lane_accepted(
            m[k],
        ),
        forall|k2: T|
            k2 != k && m.contains_key(k2) ==> spec_recv(m, k).contains_key(k2) && spec_recv(
                m,
                k,
            )[k2] == m[k2],
{
    assert(m[k].delivered =~= lane_accepted(m[k]).take(m[k].delivered.len() as int));
    assert(spec_recv(m, k)[k].delivered =~= lane_accepted(m[k]).take(m[k].delivered.len() as int + 1));
    assert(lane_accepted(spec_recv(m, k)[k]) =~= lane_accepted(m[k]));
}

/// Eviction on close: after a lane is closed its tag counts as absent, so
/// the next push of that tag creates a brand-new lane holding exactly the
/// pushed value.
pub proof fn lemma_eviction_on_close<T, V>(m: Map<T, LaneModel<V>>, cap: nat, k: T, v: V)
    ensures
        !spec_close(m, k).contains_key(k),
        spec_push_kind(spec_close(m, k), cap, k) == PushKind::Created,
        spec_push(spec_close(m, k), cap, k, v)[k] == (LaneModel {
            open: true,
            queue: seq![v],
            delivered: Seq::<V>::empty(),
        }),
{
}

/// Idempotent close: closing an already-closed lane changes nothing, and a
/// close never evicts another tag's lane.
pub proof fn lemma_close_idempotent<T, V>(m: Map<T, LaneModel<V>>, k: T)
    ensures
        spec_close(spec_close(m, k), k) == spec_close(m, k),
        forall|k2: T|
            k2 != k && m.contains_key(k2) ==> spec_close(m, k).contains_key(k2) && spec_close(
                m,
                k,
            )[k2] == m[k2],
{
    assert(spec_close(spec_close(m, k), k) =~= spec_close(m, k));
}

/// What a push returns: a brand-new lane's receiver (first use of the tag),
/// nothing (delivered into the existing lane), or the untouched pair back
/// (the lane's buffer is at capacity; an asynchronous caller waits for room
/// and retries).
pub enum PushOutcome<K: Key, V> {
    Created(LaneRx<K>),
    Delivered,
    Full(K, V),
}

/// What a lane receive returns: the oldest buffered value, nothing yet (an
/// asynchronous caller waits for data and retries), or closed.
pub enum RecvOutcome<V> {
    Received(V),
    Empty,
    Closed,
}

/// One lane's storage: its buffered values, whether the receiving half is
/// still attached, and the ghost record of what was already handed out.
///
/// A registered lane with `open == false` is a stale binding: its receiver
/// is gone but the binding has not been evicted yet. Receivers driven
/// through this one owned state tear down atomically, so the operations
/// here never leave such a binding behind; the dispatch path still treats
/// it as a first-class state and evicts it before retrying, because a
/// receiver torn down in stages by surrounding concurrent code does leave
/// exactly this transient window, and the bus's contract is proved over
/// every well-formed state, stale bindings included.
struct LaneChannel<V> {
    queue: Vec<V>,
    open: bool,
    delivered: Ghost<Seq<V>>,
}

/// How a single dispatch attempt classifies the registry's state for a tag.
enum Probe {
    Absent,
    Stale,
    Room,
    AtCapacity,
}

/// The backing bus for a mux: owns the tag-to-lane registry and dispatches
/// each pushed value to the single currently valid lane for its tag, or to a
/// fresh lane created for it.
pub struct Bus<K: Key, V> {
    inner: SlotMap<K, LaneChannel<V>>,
    lane_buf: usize,
}

impl<K: Key, V> Bus<K, V> {
    /// The abstract state of every registered lane, keyed by tag.
    pub closed spec fn lanes(&self) -> Map<<K as View>::V, LaneModel<V>> {
        Map::new(
            |k: <K as View>::V| self.inner.table().contains_key(k),
            |k: <K as View>::V|
                LaneModel {
                    open: self.inner.table()[k].value.open,
                    queue: self.inner.table()[k].value.queue@,
                    delivered: self.inner.table()[k].value.delivered@,
                },
        )
    }

    /// The generation of each registered lane's binding; a receiver is live
    /// exactly while its remembered generation is the registered one.
    pub closed spec fn gens(&self) -> Map<<K as View>::V, u64> {
        Map::new(
            |k: <K as View>::V| self.inner.table().contains_key(k),
            |k: <K as View>::V| self.inner.table()[k].gen,
        )
    }

    /// The registry's generation counter; it only grows.
    pub closed spec fn version(&self) -> u64 {
        self.inner.version()
    }

    /// The buffer capacity of each lane.
    pub closed spec fn lane_cap(&self) -> usize {
        self.lane_buf
    }

    /// Well-formedness: the registry is well-formed, the lane capacity
    /// admits at least one value, and no lane's buffer exceeds it.
    pub closed spec fn wf(&self) -> bool {
        &&& self.inner.wf()
        &&& self.lane_buf >= 1
        &&& forall|k: <K as View>::V|
            self.lanes().contains_key(k) ==> (#[trigger] self.lanes()[k]).queue.len()
                <= self.lane_buf
    }

    /// Whether the registry can still mint a generation for a new lane;
    /// callers test this before a push.
    pub fn can_create(&self) -> (r: bool)
        ensures
            r == (self.version() < u64::MAX),
    {
        self.inner.can_mint()
    }

    /// Creates a bus whose lanes each buffer up to `lane_buf` values.
    pub fn new(lane_buf: usize) -> (r: Self)
        requires
            1 <= lane_buf,
        ensures
            r.wf(),
            r.lanes() == Map::<<K as View>::V, LaneModel<V>>::empty(),
            r.gens() == Map::<<K as View>::V, u64>::empty(),
            r.version() == 0,
            r.lane_cap() == lane_buf,
    {
        let r = Bus { inner: SlotMap::new(), lane_buf };
        proof {
            assert(r.lanes() =~= Map::<<K as View>::V, LaneModel<V>>::empty());
            assert(r.gens() =~= Map::<<K as View>::V, u64>::empty());
        }
        r
    }

    /// Dispatches `value` to the lane for `tag`, creating the lane if the
    /// tag is absent (or registered to a lane whose receiver is gone).
    ///
    /// On first use of a tag the new lane's receiver is returned and the
    /// caller is responsible for draining it; on delivery into an existing
    /// lane nothing is returned; and a lane at capacity hands the pair back
    /// unchanged, so no accepted value is ever lost.
    pub fn push(&mut self, tag: K, value: V) -> (r: PushOutcome<K, V>)
        requires
            old(self).wf(),
            old(self).version() < u64::MAX,
        ensures
            final(self).wf(),
            final(self).lane_cap() == old(self).lane_cap(),
            final(self).lanes() == spec_push(
                old(self).lanes(),
                old(self).lane_cap() as nat,
                tag@,
                value,
            ),
            match r {
                PushOutcome::Created(rx) => {
                    &&& spec_push_kind(old(self).lanes(), old(self).lane_cap() as nat, tag@)
                        == PushKind::Created
                    &&& rx@ == (tag@, old(self).version())
                    &&& final(self).gens() == old(self).gens().insert(tag@, old(self).version())
                    &&& final(self).version() == old(self).version() + 1
                },
                PushOutcome::Delivered => {
                    &&& spec_push_kind(old(self).lanes(), old(self).lane_cap() as nat, tag@)
                        == PushKind::Delivered
                    &&& final(self).gens() == old(self).gens()
                    &&& final(self).version() == old(self).version()
                },
                PushOutcome::Full(t, v) => {
                    &&& spec_push_kind(old(self).lanes(), old(self).lane_cap() as nat, tag@)
                        == PushKind::Full
                    &&& t == tag
                    &&& v == value
                    &&& *final(self) == *old(self)
                },
            },
    {
        match self.push_item(tag, value) {
            Ok(r) => r,
            Err((tag, value)) => {
                // The stale binding was just evicted, so this attempt finds
                // the tag absent and creates the replacement lane. Under
                // concurrent use the window can recur, but every retry either
                // delivers or observes the registry's change, so the loop
                // this unrolls makes progress; here one retry settles it.
                match self.push_item(tag, value) {
                    Ok(r) => {
                        proof {
                            assert(self.lanes() =~= spec_push(
                                old(self).lanes(),
                                old(self).lane_cap() as nat,
                                tag@,
                                value,
                            ));
                            assert(self.gens() =~= old(self).gens().insert(
                                tag@,
                                old(self).version(),
                            ));
                        }
                        r
                    },
                    Err(_) => vstd::pervasive::unreached(),
                }
            },
        }
    }

    /// One dispatch attempt: create the lane if the tag is absent, evict and
    /// report a stale binding (receiver gone) so the caller retries with the
    /// same pair, or deliver into the active lane if it has room.
    fn push_item(&mut self, tag: K, value: V) -> (r: Result<PushOutcome<K, V>, (K, V)>)
        requires
            old(self).wf(),
            old(self).version() < u64::MAX,
        ensures
            final(self).wf(),
            final(self).lane_cap() == old(self).lane_cap(),
            match r {
                Ok(outcome) => final(self).lanes() == spec_push(
                    old(self).lanes(),
                    old(self).lane_cap() as nat,
                    tag@,
                    value,
                ) && match outcome {
                    PushOutcome::Created(rx) => {
                        &&& spec_push_kind(old(self).lanes(), old(self).lane_cap() as nat, tag@)
                            == PushKind::Created
                        &&& !old(self).lanes().contains_key(tag@)
                        &&& rx@ == (tag@, old(self).version())
                        &&& final(self).gens() == old(self).gens().insert(
                            tag@,
                            old(self).version(),
                        )
                        &&& final(self).version() == old(self).version() + 1
                    },
                    PushOutcome::Delivered => {
                        &&& spec_push_kind(old(self).lanes(), old(self).lane_cap() as nat, tag@)
                            == PushKind::Delivered
                        &&& final(self).gens() == old(self).gens()
                        &&& final(self).version() == old(self).version()
                    },
                    PushOutcome::Full(t, v) => {
                        &&& spec_push_kind(old(self).lanes(), old(self).lane_cap() as nat, tag@)
                            == PushKind::Full
                        &&& t == tag
                        &&& v == value
                        &&& *final(self) == *old(self)
                    },
                },
                Err(p) => {
                    &&& p.0 == tag
                    &&& p.1 == value
                    &&& old(self).lanes().contains_key(tag@)
                    &&& !old(self).lanes()[tag@].open
                    &&& final(self).lanes() == old(self).lanes().remove(tag@)
                    &&& final(self).gens() == old(self).gens().remove(tag@)
                    &&& final(self).version() == old(self).version()
                },
            },
    {
        let probe = match self.inner.get(&tag) {
            None => Probe::Absent,
            Some(ch) => {
                if !ch.open {
                    Probe::Stale
                } else if ch.queue.len() < self.lane_buf {
                    Probe::Room
                } else {
                    Probe::AtCapacity
                }
            },
        };
        match probe {
            Probe::Absent => {
                let mut queue: Vec<V> = Vec::new();
                queue.push(value);
                let ch = LaneChannel { queue, open: true, delivered: Ghost(Seq::empty()) };
                let slot = self.inner.insert_or_replace(tag, ch);
                proof {
                    assert(self.lanes() =~= spec_push(
                        old(self).lanes(),
                        old(self).lane_cap() as nat,
                        tag@,
                        value,
                    ));
                    assert(self.gens() =~= old(self).gens().insert(
                        tag@,
                        old(self).version(),
                    ));
                }
                Ok(PushOutcome::Created(LaneRx::new(slot)))
            },
            Probe::Stale => {
                let _ = self.inner.remove(&tag);
                proof {
                    assert(self.lanes() =~= old(self).lanes().remove(tag@));
                    assert(self.gens() =~= old(self).gens().remove(tag@));
                }
                Err((tag, value))
            },
            Probe::Room => {
                let ch = self.inner.get_mut(&tag);
                ch.queue.push(value);
                proof {
                    assert(self.lanes() =~= spec_push(
                        old(self).lanes(),
                        old(self).lane_cap() as nat,
                        tag@,
                        value,
                    ));
                    assert(self.gens() =~= old(self).gens());
                }
                Ok(PushOutcome::Delivered)
            },
            Probe::AtCapacity => {
                Ok(PushOutcome::Full(tag, value))
            },
        }
    }

    /// Closes every lane: the registry is emptied, so every outstanding
    /// receiver observes its lane as closed.
    pub fn clear(&mut self)
        requires
            old(self).wf(),
        ensures
            final(self).wf(),
            final(self).lane_cap() == old(self).lane_cap(),
            final(self).version() == old(self).version(),
            final(self).lanes() == Map::<<K as View>::V, LaneModel<V>>::empty(),
            final(self).gens() == Map::<<K as View>::V, u64>::empty(),
    {
        self.inner.clear();
        proof {
            assert(self.lanes() =~= Map::<<K as View>::V, LaneModel<V>>::empty());
            assert(self.gens() =~= Map::<<K as View>::V, u64>::empty());
        }
    }

    /// Whether `slot` still holds the registered binding for its tag.
    pub(crate) fn lane_live(&self, slot: &MapSlot<K>) -> (r: bool)
        requires
            self.wf(),
        ensures
            r == (self.gens().contains_key(slot@.0) && self.gens()[slot@.0] == slot@.1),
    {
        slot.is_valid(&self.inner)
    }

    /// Hands out the oldest buffered value of the lane owned by `slot`, or
    /// reports the lane empty or closed.
    pub(crate) fn lane_recv(&mut self, slot: &MapSlot<K>) -> (r: RecvOutcome<V>)
        requires
            old(self).wf(),
        ensures
            final(self).wf(),
            final(self).lane_cap() == old(self).lane_cap(),
            final(self).version() == old(self).version(),
            final(self).gens() == old(self).gens(),
            match r {
                RecvOutcome::Closed => !(old(self).gens().contains_key(slot@.0) && old(
                    self,
                ).gens()[slot@.0] == slot@.1) && *final(self) == *old(self),
                RecvOutcome::Empty => old(self).gens().contains_key(slot@.0) && old(
                    self,
                ).gens()[slot@.0] == slot@.1 && old(self).lanes()[slot@.0].queue.len() == 0
                    && *final(self) == *old(self),
                RecvOutcome::Received(v) => {
                    &&& old(self).gens().contains_key(slot@.0)
                    &&& old(self).gens()[slot@.0] == slot@.1
                    &&& old(self).lanes()[slot@.0].queue.len() > 0
                    &&& v == old(self).lanes()[slot@.0].queue[0]
                    &&& final(self).lanes() == spec_recv(old(self).lanes(), slot@.0)
                },
            },
    {
        if !slot.is_valid(&self.inner) {
            return RecvOutcome::Closed;
        }
        let empty = match self.inner.get(slot.key()) {
            Some(ch) => ch.queue.len() == 0,
            None => true,
        };
        if empty {
            return RecvOutcome::Empty;
        }
        let ch = self.inner.get_mut(slot.key());
        let v = ch.queue.remove(0);
        ch.delivered = Ghost(ch.delivered@.push(v));
        proof {
            assert(self.lanes() =~= spec_recv(old(self).lanes(), slot@.0));
            assert(self.gens() =~= old(self).gens());
        }
        RecvOutcome::Received(v)
    }

    /// Releases `slot`'s binding if it is still the current one; the lane's
    /// buffered values are discarded with it.
    pub(crate) fn lane_close(&mut self, slot: &MapSlot<K>)
        requires
            old(self).wf(),
        ensures
            final(self).wf(),
            final(self).lane_cap() == old(self).lane_cap(),
            final(self).version() == old(self).version(),
            (old(self).gens().contains_key(slot@.0) && old(self).gens()[slot@.0] == slot@.1)
                ==> (final(self).lanes() == spec_close(old(self).lanes(), slot@.0) && final(self).gens()
                == old(self).gens().remove(slot@.0)),
            !(old(self).gens().contains_key(slot@.0) && old(self).gens()[slot@.0] == slot@.1)
                ==> *final(self) == *old(self),
            !(final(self).gens().contains_key(slot@.0) && final(self).gens()[slot@.0] == slot@.1),
    {
        let ghost valid = slot.valid_in(&self.inner);
        slot.release(&mut self.inner);
        proof {
            if valid {
                assert(self.lanes() =~= old(self).lanes().remove(slot@.0));
                assert(self.gens() =~= old(self).gens().remove(slot@.0));
            }
        }
    }
}

} // verus!
