//! Per-client registry of active bridges, indexed by stream id.
//!
//! The registry is mutated only by the owning control session: entries
//! appear on `Add`, vanish on `Remove`, and are never replaced in place.
//! Inbound frames from the client are routed to the entry with the
//! frame's stream id; a frame for an id that is no longer present is
//! dropped, which is normal at end-of-stream.
//!
//! The registry carries the trace of `Add` and `Remove` events it has
//! accepted, and maintains that the trace is valid: an id is added only
//! while absent and removed only while present.  From that, an id is
//! never removed twice for one `Add`, and once the registry has been
//! drained every `Add` has been matched by exactly one `Remove`.
use vstd::prelude::*;

use crate::bridge::BridgeData;

verus! {

/// A registration event the registry has accepted.
pub enum UserIncoming {
    Add(u128),
    Remove(u128),
}

/// The registry's record of one live bridge: the stream id, the frames
/// delivered on `to_client` and not yet consumed by the worker, whether
/// the `Sender` handshake frame has been minted for it, and whether the
/// client has closed its half of the stream.
pub struct BridgeEntry {
    pub id: u128,
    pub pending: Vec<BridgeData>,
    pub sender_delivered: bool,
    pub client_cancel: bool,
}

/// Opens a fresh bridge for a new user connection: a newly minted
/// stream id, an empty `to_client` queue, no handshake yet, no cancel.
pub fn open_bridge() -> (b: BridgeEntry)
    ensures
        b.pending@ == Seq::<BridgeData>::empty(),
        !b.sender_delivered,
        !b.client_cancel,
{
    BridgeEntry {
        id: crate::bridge::mint_stream_id(),
        pending: Vec::new(),
        sender_delivered: false,
        client_cancel: false,
    }
}

/// One inbound multiplexed frame from the client.
pub struct TrafficToServer {
    pub stream_id: u128,
    pub action: StreamAction,
    pub payload: Vec<u8>,
}

/// The action field of an inbound frame.
pub enum StreamAction {
    /// Arm the stream: the session must answer with a `Sender` handshake.
    Start,
    /// A chunk of client-side bytes destined for the user.
    Sending,
    /// The client closes its half of the stream.
    Close,
}

/// Whether `id` is live after the events `evs`: added and not since
/// removed.
pub open spec fn live_after(evs: Seq<UserIncoming>, id: u128) -> bool
    decreases evs.len(),
{
    if evs.len() == 0 {
        false
    } else {
        match evs.last() {
            UserIncoming::Add(i) => i == id || live_after(evs.drop_last(), id),
            UserIncoming::Remove(i) => i != id && live_after(evs.drop_last(), id),
        }
    }
}

/// A trace is valid when every `Add` is of an id that is not live and
/// every `Remove` is of an id that is.
pub open spec fn valid_trace(evs: Seq<UserIncoming>) -> bool
    decreases evs.len(),
{
    if evs.len() == 0 {
        true
    } else {
        valid_trace(evs.drop_last()) && match evs.last() {
            UserIncoming::Add(i) => !live_after(evs.drop_last(), i),
            UserIncoming::Remove(i) => live_after(evs.drop_last(), i),
        }
    }
}

/// How many `Add(id)` events the trace holds.
pub open spec fn count_adds(evs: Seq<UserIncoming>, id: u128) -> nat
    decreases evs.len(),
{
    if evs.len() == 0 {
        0
    } else {
        count_adds(evs.drop_last(), id) + if evs.last() == UserIncoming::Add(id) {
            1nat
        } else {
            0nat
        }
    }
}

/// How many `Remove(id)` events the trace holds.
pub open spec fn count_removes(evs: Seq<UserIncoming>, id: u128) -> nat
    decreases evs.len(),
{
    if evs.len() == 0 {
        0
    } else {
        count_removes(evs.drop_last(), id) + if evs.last() == UserIncoming::Remove(id) {
            1nat
        } else {
            0nat
        }
    }
}

/// In a valid trace the adds and removes of an id balance exactly: one
/// more `Add` than `Remove` while the id is live, equal counts once it
/// is not.
pub proof fn lemma_trace_balance(evs: Seq<UserIncoming>, id: u128)
    requires
        valid_trace(evs),
    ensures
        count_adds(evs, id) == count_removes(evs, id) + if live_after(evs, id) {
            1nat
        } else {
            0nat
        },
    decreases evs.len(),
{
    if evs.len() > 0 {
        lemma_trace_balance(evs.drop_last(), id);
    }
}

/// No id is ever removed more often than it was added.
pub proof fn lemma_no_double_remove(evs: Seq<UserIncoming>, id: u128)
    requires
        valid_trace(evs),
    ensures
        count_removes(evs, id) <= count_adds(evs, id),
{
    lemma_trace_balance(evs, id);
}

/// Once a registry has been drained, every `Add` it ever accepted has
/// been matched by exactly one `Remove`: no leaked entry, no double
/// remove.
pub proof fn lemma_drained_registry_balanced(r: UserIncomingRegistry, id: u128)
    requires
        r.wf(),
        forall|q: u128| !r.contains_id(q),
    ensures
        count_adds(r.trace(), id) == count_removes(r.trace(), id),
{
    assert(!r.contains_id(id));
    lemma_trace_balance(r.trace(), id);
}

/// The per-client map of active bridges.
pub struct UserIncomingRegistry {
    entries: Vec<BridgeEntry>,
    history: Ghost<Seq<UserIncoming>>,
}

/// Bridge `q` is recorded identically in `a` and `b`: same pending
/// frames, same handshake mark, same cancel signal.
pub open spec fn same_bridge_state(a: UserIncomingRegistry, b: UserIncomingRegistry, q: u128) -> bool {
    &&& b.pending_of(q) == a.pending_of(q)
    &&& b.sender_delivered_of(q) == a.sender_delivered_of(q)
    &&& b.cancel_of(q) == a.cancel_of(q)
}

impl UserIncomingRegistry {
    /// The trace of accepted `Add` and `Remove` events, oldest first.
    pub closed spec fn trace(self) -> Seq<UserIncoming> {
        self.history@
    }

    /// Whether a bridge with stream id `id` is currently registered.
    pub closed spec fn contains_id(self, id: u128) -> bool {
        exists|i: int| 0 <= i < self.entries@.len() && self.entries@[i].id == id
    }

    /// Index of the entry for `id`.
    spec fn idx_of(self, id: u128) -> int {
        choose|i: int| 0 <= i < self.entries@.len() && self.entries@[i].id == id
    }

    /// The undelivered `to_client` frames of the bridge `id`.
    pub closed spec fn pending_of(self, id: u128) -> Seq<BridgeData> {
        self.entries@[self.idx_of(id)].pending@
    }

    /// Whether the `Sender` handshake frame has been minted for `id`.
    pub closed spec fn sender_delivered_of(self, id: u128) -> bool {
        self.entries@[self.idx_of(id)].sender_delivered
    }

    /// Whether the client has closed its half of stream `id`.
    pub closed spec fn cancel_of(self, id: u128) -> bool {
        self.entries@[self.idx_of(id)].client_cancel
    }

    /// Ids are unique, the trace is valid, and an id is registered
    /// exactly while it is live in the trace.
    pub closed spec fn wf(self) -> bool {
        &&& forall|i: int, j: int|
            0 <= i < j < self.entries@.len() ==> self.entries@[i].id != self.entries@[j].id
        &&& valid_trace(self.history@)
        &&& forall|q: u128| self.contains_id(q) <==> live_after(self.history@, q)
    }

    /// Every lookup of a present id lands on the entry with that id.
    proof fn lemma_entry_lookup(&self)
        requires
            forall|i: int, j: int|
                0 <= i < j < self.entries@.len() ==> self.entries@[i].id != self.entries@[j].id,
        ensures
            forall|q: u128| #[trigger]
                self.contains_id(q) ==> 0 <= self.idx_of(q) < self.entries@.len()
                    && self.entries@[self.idx_of(q)].id == q,
    {
    }

    /// An empty registry with an empty trace.
    pub fn new() -> (r: UserIncomingRegistry)
        ensures
            r.wf(),
            r.trace() == Seq::<UserIncoming>::empty(),
            forall|q: u128| !r.contains_id(q),
    {
        UserIncomingRegistry { entries: Vec::new(), history: Ghost(Seq::empty()) }
    }

    /// Index of the entry with id `id`, if present.
    fn find(&self, id: u128) -> (r: Option<usize>)
        ensures
            r matches Some(i) ==> i < self.entries@.len() && self.entries@[i as int].id == id,
            r is None ==> !self.contains_id(id),
    {
        let mut i: usize = 0;
        while i < self.entries.len()
            invariant
                i <= self.entries@.len(),
                forall|j: int| 0 <= j < i ==> self.entries@[j].id != id,
            decreases self.entries@.len() - i,
        {
            if self.entries[i].id == id {
                return Some(i);
            }
            i = i + 1;
        }
        None
    }

    /// Registers a new bridge.  The add is accepted exactly when no
    /// bridge with this id is present; on acceptance the entry is stored
    /// and `Add(id)` joins the trace.
    pub fn add(&mut self, entry: BridgeEntry) -> (ok: bool)
        requires
            old(self).wf(),
        ensures
            final(self).wf(),
            ok == !old(self).contains_id(entry.id),
            !ok ==> *final(self) == *old(self),
            ok ==> final(self).trace() == old(self).trace().push(UserIncoming::Add(entry.id)),
            ok ==> forall|q: u128|
                final(self).contains_id(q) == (old(self).contains_id(q) || q == entry.id),
            ok ==> final(self).pending_of(entry.id) == entry.pending@,
            ok ==> final(self).sender_delivered_of(entry.id) == entry.sender_delivered,
            ok ==> final(self).cancel_of(entry.id) == entry.client_cancel,
            forall|q: u128|
                q != entry.id && old(self).contains_id(q) ==> same_bridge_state(
                    *old(self),
                    *final(self),
                    q,
                ),
    {
        let ghost id = entry.id;
        match self.find(entry.id) {
            Some(_) => {
                proof {
                    assert(old(self).contains_id(id));
                }
                false
            },
            None => {
                let ghost pre = self.entries@;
                self.entries.push(entry);
                proof {
                    self.history = Ghost(self.history@.push(UserIncoming::Add(id)));
                    assert(self.entries@ == pre.push(self.entries@.last()));
                    assert(self.entries@.last().id == id);
                    assert forall|q: u128|
                        self.contains_id(q) == (old(self).contains_id(q) || q == id) by {
                        if old(self).contains_id(q) {
                            let i = choose|i: int| 0 <= i < pre.len() && pre[i].id == q;
                            assert(self.entries@[i].id == q);
                        }
                        if self.contains_id(q) && q != id {
                            let i = choose|i: int|
                                0 <= i < self.entries@.len() && self.entries@[i].id == q;
                            assert(i < pre.len());
                            assert(pre[i].id == q);
                        }
                        if q == id {
                            assert(self.entries@[pre.len() as int].id == id);
                        }
                    }
                    assert(self.history@.drop_last() =~= old(self).history@);
                    assert(!live_after(old(self).history@, id));
                    assert(valid_trace(self.history@));
                    assert forall|q: u128|
                        self.contains_id(q) <==> live_after(self.history@, q) by {}
                    assert(forall|i: int, j: int|
                        0 <= i < j < self.entries@.len() ==> self.entries@[i].id
                            != self.entries@[j].id) by {
                        assert(forall|i: int| 0 <= i < pre.len() ==> self.entries@[i] == pre[i]);
                        assert(!old(self).contains_id(id));
                    }
                    old(self).lemma_entry_lookup();
                    self.lemma_entry_lookup();
                    assert(self.contains_id(id));
                    assert(self.entries@[self.idx_of(id)].id == id);
                    assert(self.idx_of(id) == pre.len() as int);
                    assert forall|q: u128|
                        q != id && old(self).contains_id(q) implies same_bridge_state(
                        *old(self),
                        *self,
                        q,
                    ) by {
                        let j = old(self).idx_of(q);
                        assert(pre[j].id == q);
                        assert(self.entries@[j].id == q);
                        assert(self.contains_id(q));
                        let k = self.idx_of(q);
                        assert(self.entries@[k].id == q);
                        if k < pre.len() {
                            assert(pre[k].id == q);
                            assert(k == j);
                        } else {
                            assert(self.entries@[k].id == id);
                        }
                        assert(self.entries@[j] == pre[j]);
                    }
                }
                true
            },
        }
    }

    /// Deregisters the bridge `id`.  The remove is accepted exactly when
    /// the id is present; on acceptance the entry vanishes and
    /// `Remove(id)` joins the trace.
    pub fn remove(&mut self, id: u128) -> (ok: bool)
        requires
            old(self).wf(),
        ensures
            final(self).wf(),
            ok == old(self).contains_id(id),
            !ok ==> *final(self) == *old(self),
            ok ==> final(self).trace() == old(self).trace().push(UserIncoming::Remove(id)),
            forall|q: u128| final(self).contains_id(q) == (old(self).contains_id(q) && q != id),
            forall|q: u128|
                q != id && old(self).contains_id(q) ==> same_bridge_state(
                    *old(self),
                    *final(self),
                    q,
                ),
    {
        match self.find(id) {
            None => false,
            Some(i) => {
                let ghost pre = self.entries@;
                self.entries.remove(i);
                proof {
                    self.history = Ghost(self.history@.push(UserIncoming::Remove(id)));
                    assert(self.entries@ == pre.remove(i as int));
                    pre.remove_ensures(i as int);
                    assert(old(self).contains_id(id));
                    assert forall|q: u128|
                        self.contains_id(q) == (old(self).contains_id(q) && q != id) by {
                        if self.contains_id(q) {
                            let j = choose|j: int|
                                0 <= j < self.entries@.len() && self.entries@[j].id == q;
                            let j0: int = if j < i {
                                j
                            } else {
                                j + 1
                            };
                            assert(self.entries@[j] == pre[j0]);
                            assert(pre[j0].id == q);
                            assert(j0 != i);
                        }
                        if old(self).contains_id(q) && q != id {
                            let j = choose|j: int| 0 <= j < pre.len() && pre[j].id == q;
                            assert(j != i);
                            if j < i {
                                assert(self.entries@[j] == pre[j]);
                            } else {
                                assert(self.entries@[j - 1] == pre[j]);
                            }
                        }
                    }
                    assert(forall|j: int, k: int|
                        0 <= j < k < self.entries@.len() ==> self.entries@[j].id
                            != self.entries@[k].id) by {
                        assert forall|j: int, k: int|
                            0 <= j < k < self.entries@.len() implies self.entries@[j].id
                            != self.entries@[k].id by {
                            let j0: int = if j < i {
                                j
                            } else {
                                j + 1
                            };
                            let k0: int = if k < i {
                                k
                            } else {
                                k + 1
                            };
                            assert(self.entries@[j] == pre[j0] && self.entries@[k] == pre[k0]);
                            assert(j0 < k0);
                        }
                    }
                    assert(self.history@.drop_last() =~= old(self).history@);
                    assert(live_after(old(self).history@, id));
                    assert(valid_trace(self.history@));
                    old(self).lemma_entry_lookup();
                    self.lemma_entry_lookup();
                    assert forall|q: u128|
                        q != id && old(self).contains_id(q) implies same_bridge_state(
                        *old(self),
                        *self,
                        q,
                    ) by {
                        let j = old(self).idx_of(q);
                        assert(pre[j].id == q);
                        assert(self.contains_id(q));
                        let k = self.idx_of(q);
                        let k0: int = if k < i {
                            k
                        } else {
                            k + 1
                        };
                        assert(self.entries@[k] == pre[k0]);
                        assert(pre[k0].id == q);
                        assert(k0 == j);
                    }
                }
                true
            },
        }
    }

    /// Routes one inbound frame to the bridge it names.  A frame for an
    /// absent id is dropped.  `Start` delivers the `Sender` handshake
    /// frame carrying `handle`; `Sending` delivers the payload as `Data`;
    /// `Close` raises the bridge's client-cancel signal.
    pub fn route(&mut self, frame: TrafficToServer, handle: u64) -> (delivered: bool)
        requires
            old(self).wf(),
        ensures
            final(self).wf(),
            delivered == old(self).contains_id(frame.stream_id),
            !delivered ==> *final(self) == *old(self),
            final(self).trace() == old(self).trace(),
            forall|q: u128| final(self).contains_id(q) == old(self).contains_id(q),
            forall|q: u128|
                q != frame.stream_id && old(self).contains_id(q) ==> same_bridge_state(
                    *old(self),
                    *final(self),
                    q,
                ),
            delivered && frame.action is Start ==> {
                &&& final(self).pending_of(frame.stream_id) == old(self).pending_of(
                    frame.stream_id,
                ).push(BridgeData::Sender(handle))
                &&& final(self).sender_delivered_of(frame.stream_id)
                &&& final(self).cancel_of(frame.stream_id) == old(self).cancel_of(frame.stream_id)
            },
            delivered && frame.action is Sending ==> {
                &&& final(self).pending_of(frame.stream_id) == old(self).pending_of(
                    frame.stream_id,
                ).push(BridgeData::Data(frame.payload))
                &&& final(self).sender_delivered_of(frame.stream_id) == old(self).sender_delivered_of(frame.stream_id)
                &&& final(self).cancel_of(frame.stream_id) == old(self).cancel_of(frame.stream_id)
            },
            delivered && frame.action is Close ==> {
                &&& final(self).pending_of(frame.stream_id) == old(self).pending_of(
                    frame.stream_id,
                )
                &&& final(self).sender_delivered_of(frame.stream_id) == old(self).sender_delivered_of(frame.stream_id)
                &&& final(self).cancel_of(frame.stream_id)
            },
    {
        let sid = frame.stream_id;
        match self.find(sid) {
            None => false,
            Some(i) => {
                let ghost pre = self.entries@;
                let mut entry = self.entries.remove(i);
                let ghost e0 = entry;
                match frame.action {
                    StreamAction::Start => {
                        entry.pending.push(BridgeData::Sender(handle));
                        entry.sender_delivered = true;
                    },
                    StreamAction::Sending => {
                        entry.pending.push(BridgeData::Data(frame.payload));
                    },
                    StreamAction::Close => {
                        entry.client_cancel = true;
                    },
                }
                self.entries.insert(i, entry);
                proof {
                    let cur = self.entries@;
                    pre.remove_ensures(i as int);
                    assert(cur == pre.remove(i as int).insert(i as int, cur[i as int]));
                    assert(cur =~= pre.update(i as int, cur[i as int])) by {
                        assert(cur.len() == pre.len());
                        assert forall|j: int| 0 <= j < cur.len() && j != i implies cur[j]
                            == pre[j] by {
                            if j < i {
                                assert(cur[j] == pre.remove(i as int)[j]);
                            } else {
                                assert(cur[j] == pre.remove(i as int)[j - 1]);
                            }
                        }
                    }
                    assert(cur[i as int].id == sid);
                    assert(cur[i as int].id == e0.id);
                    assert(old(self).contains_id(sid));
                    assert forall|q: u128| self.contains_id(q) == old(self).contains_id(q) by {
                        if self.contains_id(q) {
                            let j = choose|j: int| 0 <= j < cur.len() && cur[j].id == q;
                            assert(pre[j].id == q);
                        }
                        if old(self).contains_id(q) {
                            let j = choose|j: int| 0 <= j < pre.len() && pre[j].id == q;
                            if j == i {
                                assert(cur[i as int].id == q);
                            } else {
                                assert(cur[j].id == q);
                            }
                        }
                    }
                    assert(forall|j: int, k: int|
                        0 <= j < k < cur.len() ==> cur[j].id != cur[k].id) by {
                        assert(forall|j: int| 0 <= j < cur.len() ==> cur[j].id == pre[j].id);
                    }
                    old(self).lemma_entry_lookup();
                    self.lemma_entry_lookup();
                    assert(self.contains_id(sid));
                    assert(self.idx_of(sid) == i as int) by {
                        let k = self.idx_of(sid);
                        assert(cur[k].id == sid);
                        assert(pre[k].id == sid);
                        assert(pre[i as int].id == sid);
                    }
                    assert(old(self).idx_of(sid) == i as int) by {
                        let k = old(self).idx_of(sid);
                        assert(pre[k].id == sid);
                        assert(pre[i as int].id == sid);
                    }
                    assert(pre[i as int] == e0);
                    assert forall|q: u128|
                        q != sid && old(self).contains_id(q) implies self.pending_of(q) == old(self).pending_of(q) && self.sender_delivered_of(q) == old(self).sender_delivered_of(q) && self.cancel_of(q) == old(self).cancel_of(q) by {
                        let j = old(self).idx_of(q);
                        assert(pre[j].id == q);
                        assert(j != i);
                        assert(cur[j] == pre[j]);
                        assert(self.contains_id(q));
                        let k = self.idx_of(q);
                        assert(cur[k].id == q);
                        assert(pre[k].id == q);
                        assert(k == j);
                    }
                }
                true
            },
        }
    }

    /// Whether any bridge is registered.
    pub fn is_empty(&self) -> (r: bool)
        ensures
            r <==> forall|q: u128| !self.contains_id(q),
    {
        let n = self.entries.len();
        proof {
            if n > 0 {
                assert(self.contains_id(self.entries@[0].id));
            }
        }
        n == 0
    }

    /// Whether a bridge with stream id `id` is registered.
    pub fn has_bridge(&self, id: u128) -> (r: bool)
        ensures
            r == self.contains_id(id),
    {
        match self.find(id) {
            Some(_) => true,
            None => false,
        }
    }

    /// Whether the client has closed its half of stream `id`; false for
    /// an id that is not registered.
    pub fn cancelled(&self, id: u128) -> (r: bool)
        requires
            self.wf(),
        ensures
            r == (self.contains_id(id) && self.cancel_of(id)),
    {
        match self.find(id) {
            None => false,
            Some(i) => {
                proof {
                    assert(self.contains_id(id));
                    self.lemma_entry_lookup();
                    assert(self.entries@[self.idx_of(id)].id == id);
                    assert(self.idx_of(id) == i as int);
                }
                self.entries[i].client_cancel
            },
        }
    }

    /// Hands the worker the next undelivered `to_client` frame of the
    /// bridge `id`, oldest first; `None` when the bridge is absent or
    /// its queue is empty.
    pub fn pop_frame(&mut self, id: u128) -> (r: Option<BridgeData>)
        requires
            old(self).wf(),
        ensures
            final(self).wf(),
            final(self).trace() == old(self).trace(),
            forall|q: u128| final(self).contains_id(q) == old(self).contains_id(q),
            forall|q: u128|
                q != id && old(self).contains_id(q) ==> same_bridge_state(
                    *old(self),
                    *final(self),
                    q,
                ),
            !old(self).contains_id(id) || old(self).contains_id(id) && old(self).pending_of(
                id,
            ).len() == 0 ==> r is None && *final(self) == *old(self),
            old(self).contains_id(id) && old(self).pending_of(id).len() > 0 ==> {
                &&& r == Some(old(self).pending_of(id)[0])
                &&& final(self).pending_of(id) == old(self).pending_of(id).drop_first()
                &&& final(self).sender_delivered_of(id) == old(self).sender_delivered_of(id)
                &&& final(self).cancel_of(id) == old(self).cancel_of(id)
            },
    {
        match self.find(id) {
            None => None,
            Some(i) => {
                proof {
                    old(self).lemma_entry_lookup();
                    assert(old(self).contains_id(id));
                    assert(old(self).idx_of(id) == i as int);
                }
                if self.entries[i].pending.len() == 0 {
                    return None;
                }
                let ghost pre = self.entries@;
                let mut entry = self.entries.remove(i);
                let ghost e0 = entry;
                let frame = entry.pending.remove(0);
                self.entries.insert(i, entry);
                proof {
                    let cur = self.entries@;
                    pre.remove_ensures(i as int);
                    assert(cur == pre.remove(i as int).insert(i as int, cur[i as int]));
                    assert(cur =~= pre.update(i as int, cur[i as int])) by {
                        assert(cur.len() == pre.len());
                        assert forall|j: int| 0 <= j < cur.len() && j != i implies cur[j]
                            == pre[j] by {
                            if j < i {
                                assert(cur[j] == pre.remove(i as int)[j]);
                            } else {
                                assert(cur[j] == pre.remove(i as int)[j - 1]);
                            }
                        }
                    }
                    assert(pre[i as int] == e0);
                    assert(cur[i as int].id == id);
                    assert(frame == e0.pending@[0]);
                    assert(cur[i as int].pending@ == e0.pending@.remove(0));
                    assert(e0.pending@.remove(0) =~= e0.pending@.drop_first());
                    assert forall|q: u128| self.contains_id(q) == old(self).contains_id(q) by {
                        if self.contains_id(q) {
                            let j = choose|j: int| 0 <= j < cur.len() && cur[j].id == q;
                            assert(pre[j].id == q);
                        }
                        if old(self).contains_id(q) {
                            let j = choose|j: int| 0 <= j < pre.len() && pre[j].id == q;
                            if j == i {
                                assert(cur[i as int].id == q);
                            } else {
                                assert(cur[j].id == q);
                            }
                        }
                    }
                    assert(forall|j: int, k: int|
                        0 <= j < k < cur.len() ==> cur[j].id != cur[k].id) by {
                        assert(forall|j: int| 0 <= j < cur.len() ==> cur[j].id == pre[j].id);
                    }
                    self.lemma_entry_lookup();
                    assert(self.contains_id(id));
                    assert(self.idx_of(id) == i as int) by {
                        let k = self.idx_of(id);
                        assert(cur[k].id == id);
                        assert(pre[k].id == id);
                        assert(pre[i as int].id == id);
                    }
                    assert forall|q: u128|
                        q != id && old(self).contains_id(q) implies same_bridge_state(
                        *old(self),
                        *self,
                        q,
                    ) by {
                        let j = old(self).idx_of(q);
                        assert(pre[j].id == q);
                        assert(j != i);
                        assert(cur[j] == pre[j]);
                        assert(self.contains_id(q));
                        let k = self.idx_of(q);
                        assert(cur[k].id == q);
                        assert(pre[k].id == q);
                        assert(k == j);
                    }
                }
                Some(frame)
            },
        }
    }

    /// Raises the client-cancel signal on every registered bridge, as
    /// the session does when it starts closing.
    pub fn cancel_all(&mut self)
        requires
            old(self).wf(),
        ensures
            final(self).wf(),
            final(self).trace() == old(self).trace(),
            forall|q: u128| final(self).contains_id(q) == old(self).contains_id(q),
            forall|q: u128| old(self).contains_id(q) ==> final(self).cancel_of(q),
            forall|q: u128|
                old(self).contains_id(q) ==> final(self).pending_of(q) == old(self).pending_of(q)
                    && final(self).sender_delivered_of(q) == old(self).sender_delivered_of(q),
    {
        let ghost pre = self.entries@;
        let n = self.entries.len();
        let mut i: usize = 0;
        while i < n
            invariant
                old(self).wf(),
                pre == old(self).entries@,
                n == pre.len(),
                i <= n,
                self.history == old(self).history,
                self.entries@.len() == pre.len(),
                forall|j: int|
                    0 <= j < pre.len() ==> (#[trigger] self.entries@[j]).id == pre[j].id
                        && self.entries@[j].pending == pre[j].pending
                        && self.entries@[j].sender_delivered == pre[j].sender_delivered,
                forall|j: int| 0 <= j < i ==> (#[trigger] self.entries@[j]).client_cancel,
            decreases n - i,
        {
            let ghost cur0 = self.entries@;
            let mut entry = self.entries.remove(i);
            entry.client_cancel = true;
            self.entries.insert(i, entry);
            proof {
                let cur = self.entries@;
                cur0.remove_ensures(i as int);
                assert(cur == cur0.remove(i as int).insert(i as int, cur[i as int]));
                assert(cur =~= cur0.update(i as int, cur[i as int])) by {
                    assert(cur.len() == cur0.len());
                    assert forall|j: int| 0 <= j < cur.len() && j != i implies cur[j]
                        == cur0[j] by {
                        if j < i {
                            assert(cur[j] == cur0.remove(i as int)[j]);
                        } else {
                            assert(cur[j] == cur0.remove(i as int)[j - 1]);
                        }
                    }
                }
                assert(cur[i as int].id == cur0[i as int].id);
                assert(cur[i as int].pending == cur0[i as int].pending);
                assert(cur[i as int].sender_delivered == cur0[i as int].sender_delivered);
                assert(cur[i as int].client_cancel);
            }
            i = i + 1;
        }
        proof {
            self.lemma_same_shape_views(*old(self));
            assert forall|q: u128| old(self).contains_id(q) implies self.cancel_of(q)
                && self.pending_of(q) == old(self).pending_of(q) && self.sender_delivered_of(q)
                == old(self).sender_delivered_of(q) by {
                let j = old(self).idx_of(q);
                assert(pre[j].id == q);
                assert(self.idx_of(q) == j);
            }
        }
    }

    /// When ids and the trace are unchanged, the registry stays well
    /// formed and each id keeps its index.
    proof fn lemma_same_shape_views(&self, prev: UserIncomingRegistry)
        requires
            prev.wf(),
            self.history == prev.history,
            self.entries@.len() == prev.entries@.len(),
            forall|j: int|
                0 <= j < prev.entries@.len() ==> (#[trigger] self.entries@[j]).id
                    == prev.entries@[j].id,
        ensures
            self.wf(),
            forall|q: u128| self.contains_id(q) == prev.contains_id(q),
            forall|q: u128| #[trigger]
                prev.contains_id(q) ==> self.idx_of(q) == prev.idx_of(q),
    {
        assert forall|q: u128| self.contains_id(q) == prev.contains_id(q) by {
            if self.contains_id(q) {
                let j = choose|j: int| 0 <= j < self.entries@.len() && self.entries@[j].id == q;
                assert(prev.entries@[j].id == q);
            }
            if prev.contains_id(q) {
                let j = choose|j: int| 0 <= j < prev.entries@.len() && prev.entries@[j].id == q;
                assert(self.entries@[j].id == q);
            }
        }
        assert(forall|i: int, j: int|
            0 <= i < j < self.entries@.len() ==> self.entries@[i].id != self.entries@[j].id);
        prev.lemma_entry_lookup();
        self.lemma_entry_lookup();
        assert forall|q: u128| #[trigger] prev.contains_id(q) implies self.idx_of(q)
            == prev.idx_of(q) by {
            let j = prev.idx_of(q);
            assert(prev.entries@[j].id == q);
            assert(self.entries@[j].id == q);
            assert(self.contains_id(q));
            let k = self.idx_of(q);
            assert(self.entries@[k].id == q);
            assert(prev.entries@[k].id == q);
        }
    }

    /// Removes every bridge, recording one `Remove` per entry, as the
    /// session does when it drains the registry on close.
    pub fn clear(&mut self)
        requires
            old(self).wf(),
        ensures
            final(self).wf(),
            forall|q: u128| !final(self).contains_id(q),
            forall|q: u128| count_adds(final(self).trace(), q) == count_adds(old(self).trace(), q),
            forall|q: u128|
                count_removes(final(self).trace(), q) == count_removes(old(self).trace(), q)
                    + if old(self).contains_id(q) {
                    1nat
                } else {
                    0nat
                },
    {
        loop
            invariant
                self.wf(),
                forall|q: u128| count_adds(self.trace(), q) == count_adds(old(self).trace(), q),
                forall|q: u128|
                    count_removes(self.trace(), q) + if self.contains_id(q) {
                        1nat
                    } else {
                        0nat
                    } == count_removes(old(self).trace(), q) + if old(self).contains_id(q) {
                        1nat
                    } else {
                        0nat
                    },
            ensures
                self.wf(),
                forall|q: u128| !self.contains_id(q),
                forall|q: u128| count_adds(self.trace(), q) == count_adds(old(self).trace(), q),
                forall|q: u128|
                    count_removes(self.trace(), q) == count_removes(old(self).trace(), q) + if old(self).contains_id(q) {
                        1nat
                    } else {
                        0nat
                    },
            decreases self.entries@.len(),
        {
            let ghost snap = *self;
            if self.entries.len() == 0 {
                proof {
                    assert forall|q: u128| !self.contains_id(q) by {}
                }
                break;
            }
            let entry = self.entries.pop().unwrap();
            let ghost id = entry.id;
            proof {
                let pv = snap.entries@;
                assert(self.entries@ == pv.drop_last());
                assert(pv.last().id == id);
                assert(forall|j: int| 0 <= j < self.entries@.len() ==> self.entries@[j] == pv[j]);
                assert(forall|j: int, k: int|
                    0 <= j < k < self.entries@.len() ==> self.entries@[j].id
                        != self.entries@[k].id);
                assert(snap.contains_id(id));
                self.history = Ghost(self.history@.push(UserIncoming::Remove(id)));
                assert(self.history@.drop_last() =~= snap.history@);
                assert forall|q: u128| self.contains_id(q) == (snap.contains_id(q) && q != id) by {
                    if self.contains_id(q) {
                        let j = choose|j: int|
                            0 <= j < self.entries@.len() && self.entries@[j].id == q;
                        assert(self.entries@[j] == pv[j]);
                        assert(pv[j].id == q);
                        assert(j != pv.len() - 1);
                    }
                    if snap.contains_id(q) && q != id {
                        let j = choose|j: int| 0 <= j < pv.len() && pv[j].id == q;
                        assert(j != pv.len() - 1);
                        assert(self.entries@[j] == pv[j]);
                    }
                }
                assert(live_after(snap.history@, id));
                assert(valid_trace(self.history@));
                assert forall|q: u128|
                    live_after(self.history@, q) == (live_after(snap.history@, q) && q
                        != id) by {}
                assert forall|q: u128|
                    count_adds(self.history@, q) == count_adds(snap.history@, q) by {}
                assert forall|q: u128|
                    count_removes(self.history@, q) == count_removes(snap.history@, q) + if q
                        == id {
                        1nat
                    } else {
                        0nat
                    } by {}
                assert(valid_trace(self.history@));
                assert forall|q: u128|
                    self.contains_id(q) <==> live_after(self.history@, q) by {
                    assert(self.contains_id(q) == (snap.contains_id(q) && q != id));
                    assert(live_after(self.history@, q) == (live_after(snap.history@, q) && q
                        != id));
                    assert(snap.contains_id(q) <==> live_after(snap.history@, q));
                }
                assert(self.wf());
            }
        }
    }
}

} // verus!
