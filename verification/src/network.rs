//! An in-memory, seeded-randomized message bus between a fixed set of
//! replicas. Broadcasts are delivered to every other replica's inbox with
//! randomized duplication (one to three copies) and randomized ordering,
//! subject to one guarantee: messages broadcast by the same sender are never
//! observed in reverse order by any receiver.

use vstd::prelude::*;
use crate::rng::RandomSource;

verus! {

/// One logical participant in the replicated data structure under test.
/// Identifiers are assigned by the test author, never by the simulator.
pub type ReplicaId = u16;

/// The position a delivered message occupies in the broadcast history: which
/// broadcast call produced it, and where it stood in that call's batch. Every
/// duplicated copy of one message shares its origin.
pub ghost struct Origin {
    pub call: nat,
    pub index: nat,
}

/// `a` was broadcast no later than `b`: in an earlier call, or at an earlier
/// or equal position of the same call.
pub open spec fn origin_le(a: Origin, b: Origin) -> bool {
    a.call < b.call || (a.call == b.call && a.index <= b.index)
}

/// `a` was broadcast strictly earlier than `b`.
pub open spec fn origin_lt(a: Origin, b: Origin) -> bool {
    a.call < b.call || (a.call == b.call && a.index < b.index)
}

/// An immutable pair of a message payload and the replica that broadcast it,
/// tagged (in ghost state) with its position in the broadcast history.
pub struct Envelope<T> {
    pub message: T,
    pub sender: ReplicaId,
    pub origin: Ghost<Origin>,
}

/// Every envelope of `ib` is a copy of a recorded broadcast: it was not sent
/// by `owner` itself, its origin points into `history`, its sender is the
/// replica recorded for that call, and its payload is a clone of the recorded
/// message.
pub open spec fn inbox_entries_wf<T: Clone>(
    owner: ReplicaId,
    ib: Seq<Envelope<T>>,
    history: Seq<Seq<T>>,
    senders: Seq<ReplicaId>,
) -> bool {
    forall|k: int|
        0 <= k < ib.len() ==> {
            let e = #[trigger] ib[k];
            &&& e.sender != owner
            &&& e.origin@.call < history.len()
            &&& e.origin@.index < history[e.origin@.call as int].len()
            &&& e.sender == senders[e.origin@.call as int]
            &&& cloned::<T>(history[e.origin@.call as int][e.origin@.index as int], e.message)
        }
}

/// Per-sender FIFO: two envelopes of one sender always appear in broadcast
/// order.
pub open spec fn inbox_fifo<T>(ib: Seq<Envelope<T>>) -> bool {
    forall|k1: int, k2: int|
        0 <= k1 < k2 < ib.len() && (#[trigger] ib[k1]).sender == (#[trigger] ib[k2]).sender
            ==> origin_le(ib[k1].origin@, ib[k2].origin@)
}

/// How many copies of the message broadcast as entry `index` of call `call`
/// stand in `ib`.
pub open spec fn copies_of<T>(ib: Seq<Envelope<T>>, call: int, index: int) -> nat
    decreases ib.len(),
{
    if ib.len() == 0 {
        0
    } else {
        copies_of(ib.drop_last(), call, index) + if ib.last().origin@.call == call
            && ib.last().origin@.index == index {
            1nat
        } else {
            0nat
        }
    }
}

proof fn lemma_copies_insert<T>(ib: Seq<Envelope<T>>, e: Envelope<T>, pos: int, call: int, index: int)
    requires
        0 <= pos <= ib.len(),
    ensures
        copies_of(ib.insert(pos, e), call, index) == copies_of(ib, call, index) + if e.origin@.call
            == call && e.origin@.index == index {
            1nat
        } else {
            0nat
        },
    decreases ib.len(),
{
    ib.insert_ensures(pos, e);
    if pos == ib.len() {
        assert(ib.insert(pos, e) =~= ib.push(e));
        assert(ib.push(e).drop_last() =~= ib);
        assert(ib.push(e).last() == e);
    } else {
        assert(ib.insert(pos, e).last() == ib.last());
        ib.drop_last().insert_ensures(pos, e);
        assert(ib.insert(pos, e).drop_last() =~= ib.drop_last().insert(pos, e));
        lemma_copies_insert(ib.drop_last(), e, pos, call, index);
    }
}

proof fn lemma_copies_absent<T>(ib: Seq<Envelope<T>>, call: int, index: int)
    requires
        forall|t: int| 0 <= t < ib.len() ==> (#[trigger] ib[t]).origin@.call < call,
    ensures
        copies_of(ib, call, index) == 0,
    decreases ib.len(),
{
    if ib.len() > 0 {
        lemma_copies_absent(ib.drop_last(), call, index);
    }
}

proof fn lemma_insert_fifo<T>(ib: Seq<Envelope<T>>, e: Envelope<T>, pos: int)
    requires
        0 <= pos <= ib.len(),
        inbox_fifo(ib),
        forall|t: int|
            0 <= t < pos && (#[trigger] ib[t]).sender == e.sender ==> origin_le(
                ib[t].origin@,
                e.origin@,
            ),
        forall|t: int|
            pos <= t < ib.len() && (#[trigger] ib[t]).sender == e.sender ==> origin_le(
                e.origin@,
                ib[t].origin@,
            ),
    ensures
        inbox_fifo(ib.insert(pos, e)),
{
    let s = ib.insert(pos, e);
    ib.insert_ensures(pos, e);
    assert forall|k1: int, k2: int|
        0 <= k1 < k2 < s.len() && (#[trigger] s[k1]).sender == (#[trigger] s[k2]).sender
        implies origin_le(s[k1].origin@, s[k2].origin@) by {
        if k1 == pos {
            assert(s[k2] == ib[k2 - 1]);
        } else if k2 == pos {
            assert(s[k1] == ib[k1]);
        } else {
            let o1: int = if k1 < pos { k1 } else { k1 - 1 };
            let o2: int = if k2 < pos { k2 } else { k2 - 1 };
            assert(s[k1] == ib[o1]);
            assert(s[k2] == ib[o2]);
            assert(o1 < o2);
        }
    }
}

proof fn lemma_insert_entries_wf<T: Clone>(
    owner: ReplicaId,
    ib: Seq<Envelope<T>>,
    e: Envelope<T>,
    pos: int,
    history: Seq<Seq<T>>,
    senders: Seq<ReplicaId>,
)
    requires
        0 <= pos <= ib.len(),
        inbox_entries_wf(owner, ib, history, senders),
        e.sender != owner,
        e.origin@.call < history.len(),
        e.origin@.index < history[e.origin@.call as int].len(),
        e.sender == senders[e.origin@.call as int],
        cloned::<T>(history[e.origin@.call as int][e.origin@.index as int], e.message),
    ensures
        inbox_entries_wf(owner, ib.insert(pos, e), history, senders),
{
    let s = ib.insert(pos, e);
    ib.insert_ensures(pos, e);
    assert forall|k: int| 0 <= k < s.len() implies {
        let x = #[trigger] s[k];
        &&& x.sender != owner
        &&& x.origin@.call < history.len()
        &&& x.origin@.index < history[x.origin@.call as int].len()
        &&& x.sender == senders[x.origin@.call as int]
        &&& cloned::<T>(history[x.origin@.call as int][x.origin@.index as int], x.message)
    } by {
        if k < pos {
            assert(s[k] == ib[k]);
        } else if k > pos {
            assert(s[k] == ib[k - 1]);
        }
    }
}

proof fn lemma_entries_wf_extend<T: Clone>(
    owner: ReplicaId,
    ib: Seq<Envelope<T>>,
    history: Seq<Seq<T>>,
    senders: Seq<ReplicaId>,
    batch: Seq<T>,
    sender: ReplicaId,
)
    requires
        inbox_entries_wf(owner, ib, history, senders),
        senders.len() == history.len(),
    ensures
        inbox_entries_wf(owner, ib, history.push(batch), senders.push(sender)),
{
    assert forall|k: int| 0 <= k < ib.len() implies {
        let e = #[trigger] ib[k];
        &&& e.sender != owner
        &&& e.origin@.call < history.push(batch).len()
        &&& e.origin@.index < history.push(batch)[e.origin@.call as int].len()
        &&& e.sender == senders.push(sender)[e.origin@.call as int]
        &&& cloned::<T>(
            history.push(batch)[e.origin@.call as int][e.origin@.index as int],
            e.message,
        )
    } by {
        let e = ib[k];
        assert(history.push(batch)[e.origin@.call as int] == history[e.origin@.call as int]);
        assert(senders.push(sender)[e.origin@.call as int] == senders[e.origin@.call as int]);
    }
}

/// The network simulator: one inbox per registered replica, an append-only
/// log of everything broadcast, and the injected random source that drives
/// every nondeterministic choice.
pub struct Network<T, R> {
    inboxes: Vec<(ReplicaId, Vec<Envelope<T>>)>,
    all_messages: Vec<T>,
    rng: R,
    history: Ghost<Seq<Seq<T>>>,
    hist_senders: Ghost<Seq<ReplicaId>>,
}

impl<T: Clone, R> Network<T, R> {
    /// The batches handed to `broadcast`, in call order.
    pub closed spec fn history(self) -> Seq<Seq<T>> {
        self.history@
    }

    /// The replica that issued each broadcast call, in call order.
    pub closed spec fn senders(self) -> Seq<ReplicaId> {
        self.hist_senders@
    }

    /// The append-only log of every broadcast message, in issue order.
    pub closed spec fn log(self) -> Seq<T> {
        self.all_messages@
    }

    /// Whether `r` was registered by `add_peer`.
    pub closed spec fn is_replica(self, r: ReplicaId) -> bool {
        exists|i: int| 0 <= i < self.inboxes@.len() && (#[trigger] self.inboxes@[i]).0 == r
    }

    closed spec fn idx_of(self, r: ReplicaId) -> int {
        choose|i: int| 0 <= i < self.inboxes@.len() && (#[trigger] self.inboxes@[i]).0 == r
    }

    /// The pending-delivery queue of replica `r`.
    pub closed spec fn inbox(self, r: ReplicaId) -> Seq<Envelope<T>> {
        self.inboxes@[self.idx_of(r)].1@
    }

    spec fn ids_unique(self) -> bool {
        forall|i: int, j: int|
            0 <= i < j < self.inboxes@.len() ==> (#[trigger] self.inboxes@[i]).0 != (
            #[trigger] self.inboxes@[j]).0
    }

    /// The simulator's invariant: replica ids are unique, the log is exactly
    /// the concatenation of the broadcast batches in call order, and every
    /// inbox holds only well-tagged envelopes in per-sender FIFO order.
    pub closed spec fn wf(self) -> bool {
        &&& self.ids_unique()
        &&& self.hist_senders@.len() == self.history@.len()
        &&& self.all_messages@ == self.history@.flatten()
        &&& forall|i: int|
            0 <= i < self.inboxes@.len() ==> inbox_entries_wf(
                (#[trigger] self.inboxes@[i]).0,
                self.inboxes@[i].1@,
                self.history@,
                self.hist_senders@,
            )
        &&& forall|i: int|
            0 <= i < self.inboxes@.len() ==> inbox_fifo((#[trigger] self.inboxes@[i]).1@)
    }

    proof fn lemma_idx(self, i: int)
        requires
            self.ids_unique(),
            0 <= i < self.inboxes@.len(),
        ensures
            self.is_replica(self.inboxes@[i].0),
            self.idx_of(self.inboxes@[i].0) == i,
            self.inbox(self.inboxes@[i].0) == self.inboxes@[i].1@,
    {
        assert(self.is_replica(self.inboxes@[i].0));
        let j = self.idx_of(self.inboxes@[i].0);
        assert(0 <= j < self.inboxes@.len() && self.inboxes@[j].0 == self.inboxes@[i].0);
        if i != j {
            assert(false);
        }
    }

    /// Law: a sender never holds a copy of its own broadcast in its inbox,
    /// whatever the seed, the peer set and the broadcast schedule.
    pub proof fn lemma_no_self_delivery(self, r: ReplicaId, k: int)
        requires
            self.wf(),
            self.is_replica(r),
            0 <= k < self.inbox(r).len(),
        ensures
            self.inbox(r)[k].sender != r,
    {
        let i = self.idx_of(r);
        assert(inbox_entries_wf(
            self.inboxes@[i].0,
            self.inboxes@[i].1@,
            self.history@,
            self.hist_senders@,
        ));
    }

    /// Law: per-sender FIFO. Two inbox entries of one sender stand in
    /// broadcast order: the earlier position carries the earlier (or equal)
    /// origin.
    pub proof fn lemma_per_sender_fifo(self, r: ReplicaId, k1: int, k2: int)
        requires
            self.wf(),
            self.is_replica(r),
            0 <= k1 < k2 < self.inbox(r).len(),
            self.inbox(r)[k1].sender == self.inbox(r)[k2].sender,
        ensures
            origin_le(self.inbox(r)[k1].origin@, self.inbox(r)[k2].origin@),
    {
        let i = self.idx_of(r);
        assert(inbox_fifo(self.inboxes@[i].1@));
    }

    /// Law: for two messages broadcast by one sender in one call, every copy
    /// of the earlier message precedes every copy of the later one in every
    /// inbox.
    pub proof fn lemma_batch_order(self, r: ReplicaId, k1: int, k2: int)
        requires
            self.wf(),
            self.is_replica(r),
            0 <= k1 < self.inbox(r).len(),
            0 <= k2 < self.inbox(r).len(),
            k1 != k2,
            self.inbox(r)[k1].origin@.call == self.inbox(r)[k2].origin@.call,
            self.inbox(r)[k1].origin@.index < self.inbox(r)[k2].origin@.index,
        ensures
            k1 < k2,
    {
        let i = self.idx_of(r);
        assert(inbox_entries_wf(
            self.inboxes@[i].0,
            self.inboxes@[i].1@,
            self.history@,
            self.hist_senders@,
        ));
        let e1 = self.inbox(r)[k1];
        let e2 = self.inbox(r)[k2];
        assert(e1.sender == self.hist_senders@[e1.origin@.call as int]);
        assert(e2.sender == self.hist_senders@[e2.origin@.call as int]);
        if k2 < k1 {
            self.lemma_per_sender_fifo(r, k2, k1);
            assert(false);
        }
    }

    /// Law: every inbox entry is traceable to the broadcast history — it
    /// originates from a recorded call, was sent by the replica recorded for
    /// that call, never by the inbox's owner, and its payload is a clone of
    /// the recorded message.
    pub proof fn lemma_inbox_entry_traceable(self, r: ReplicaId, k: int)
        requires
            self.wf(),
            self.is_replica(r),
            0 <= k < self.inbox(r).len(),
        ensures
            ({
                let e = self.inbox(r)[k];
                &&& e.sender != r
                &&& e.origin@.call < self.history().len()
                &&& e.origin@.index < self.history()[e.origin@.call as int].len()
                &&& e.sender == self.senders()[e.origin@.call as int]
                &&& cloned::<T>(
                    self.history()[e.origin@.call as int][e.origin@.index as int],
                    e.message,
                )
            }),
    {
        let i = self.idx_of(r);
        assert(inbox_entries_wf(
            self.inboxes@[i].0,
            self.inboxes@[i].1@,
            self.history@,
            self.hist_senders@,
        ));
    }

    /// Law: the log of all messages equals the concatenation of every
    /// broadcast's batch in call order.
    pub proof fn lemma_log_is_concat(self)
        requires
            self.wf(),
        ensures
            self.log() == self.history().flatten(),
    {
    }
}

impl<T: Clone, R: RandomSource> Network<T, R> {
    /// An empty network parameterized by a random source: no replicas, no
    /// broadcast history.
    pub fn new(rng: R) -> (n: Network<T, R>)
        ensures
            n.wf(),
            n.history() == Seq::<Seq<T>>::empty(),
            n.senders() == Seq::<ReplicaId>::empty(),
            n.log() == Seq::<T>::empty(),
            forall|r: ReplicaId| !(#[trigger] n.is_replica(r)),
    {
        let n = Network {
            inboxes: Vec::new(),
            all_messages: Vec::new(),
            rng,
            history: Ghost(Seq::empty()),
            hist_senders: Ghost(Seq::empty()),
        };
        proof {
            assert(n.history@.flatten() =~= Seq::<T>::empty());
        }
        n
    }

    /// Register a replica with an empty inbox. The id must be fresh.
    pub fn add_peer(&mut self, id: ReplicaId)
        requires
            old(self).wf(),
            !old(self).is_replica(id),
        ensures
            final(self).wf(),
            final(self).history() == old(self).history(),
            final(self).senders() == old(self).senders(),
            final(self).log() == old(self).log(),
            forall|r: ReplicaId|
                #[trigger] final(self).is_replica(r) == (old(self).is_replica(r) || r == id),
            final(self).inbox(id) == Seq::<Envelope<T>>::empty(),
            forall|r: ReplicaId|
                old(self).is_replica(r) ==> #[trigger] final(self).inbox(r) == old(self).inbox(r),
    {
        let ghost pre = *self;
        self.inboxes.push((id, Vec::new()));
        proof {
            let n = self.inboxes@.len() - 1;
            assert(self.inboxes@[n].0 == id);
            assert forall|r: ReplicaId| #[trigger]
                self.is_replica(r) == (pre.is_replica(r) || r == id) by {
                if pre.is_replica(r) {
                    let i = pre.idx_of(r);
                    assert(self.inboxes@[i].0 == r);
                }
                if r == id {
                    assert(self.inboxes@[n].0 == r);
                }
                if self.is_replica(r) {
                    let i = self.idx_of(r);
                    if i < n {
                        assert(pre.inboxes@[i].0 == r);
                    }
                }
            }
            self.lemma_idx(n);
            assert(self.inbox(id) =~= Seq::<Envelope<T>>::empty());
            assert forall|r: ReplicaId| pre.is_replica(r) implies #[trigger] self.inbox(r)
                == pre.inbox(r) by {
                let i = pre.idx_of(r);
                pre.lemma_idx(i);
                self.lemma_idx(i);
            }
            assert forall|i: int| 0 <= i < self.inboxes@.len() implies inbox_entries_wf(
                (#[trigger] self.inboxes@[i]).0,
                self.inboxes@[i].1@,
                self.history@,
                self.hist_senders@,
            ) && inbox_fifo(self.inboxes@[i].1@) by {
                if i < n {
                    assert(self.inboxes@[i] == pre.inboxes@[i]);
                }
            }
        }
    }

    /// Whether every registered inbox is empty.
    pub fn is_idle(&self) -> (r: bool)
        requires
            self.wf(),
        ensures
            r == forall|x: ReplicaId|
                #[trigger] self.is_replica(x) ==> self.inbox(x).len() == 0,
    {
        let n = self.inboxes.len();
        let mut i: usize = 0;
        while i < n
            invariant
                self.wf(),
                0 <= i <= n,
                n == self.inboxes@.len(),
                forall|j: int| 0 <= j < i ==> (#[trigger] self.inboxes@[j]).1@.len() == 0,
            decreases n - i,
        {
            if self.inboxes[i].1.len() > 0 {
                proof {
                    self.lemma_idx(i as int);
                    assert(self.is_replica(self.inboxes@[i as int].0) && self.inbox(
                        self.inboxes@[i as int].0,
                    ).len() > 0);
                }
                return false;
            }
            i = i + 1;
        }
        proof {
            assert forall|x: ReplicaId| #[trigger]
                self.is_replica(x) implies self.inbox(x).len() == 0 by {
                let i = self.idx_of(x);
                assert(self.inboxes@[i].1@.len() == 0);
            }
        }
        true
    }

    fn find_index(&self, id: ReplicaId) -> (i: usize)
        requires
            self.wf(),
            self.is_replica(id),
        ensures
            i < self.inboxes@.len(),
            self.inboxes@[i as int].0 == id,
            self.idx_of(id) == i,
    {
        let n = self.inboxes.len();
        let mut i: usize = 0;
        while i < n
            invariant
                self.wf(),
                self.is_replica(id),
                0 <= i <= n,
                n == self.inboxes@.len(),
                forall|j: int| 0 <= j < i ==> (#[trigger] self.inboxes@[j]).0 != id,
            decreases n - i,
        {
            if self.inboxes[i].0 == id {
                proof {
                    self.lemma_idx(i as int);
                }
                return i;
            }
            i = i + 1;
        }
        proof {
            let w = choose|w: int| 0 <= w < self.inboxes@.len() && (#[trigger] self.inboxes@[w]).0
                == id;
            assert(false);
        }
        0
    }

    /// The earliest position at which a fresh message from `sender` may be
    /// inserted without overtaking an earlier message of the same sender: one
    /// past the last envelope of `sender`, or `0` if there is none.
    fn fifo_floor(ib: &Vec<Envelope<T>>, sender: ReplicaId) -> (min_index: usize)
        ensures
            min_index <= ib@.len(),
            forall|t: int| min_index <= t < ib@.len() ==> (#[trigger] ib@[t]).sender != sender,
    {
        let n = ib.len();
        let mut min_index: usize = 0;
        let mut j: usize = 0;
        while j < n
            invariant
                0 <= j <= n,
                n == ib@.len(),
                min_index <= j,
                forall|t: int| min_index <= t < j ==> (#[trigger] ib@[t]).sender != sender,
            decreases n - j,
        {
            if ib[j].sender == sender {
                min_index = j + 1;
            }
            j = j + 1;
        }
        min_index
    }

    /// Insert one to three copies of `message` into `ib`, each at a random
    /// position no earlier than `min_index`, as the delivery of entry `index`
    /// of broadcast call `call`.
    fn insert_copies(
        ib: &mut Vec<Envelope<T>>,
        rng: &mut R,
        message: &T,
        sender: ReplicaId,
        min_index: usize,
        index: usize,
        Ghost(owner): Ghost<ReplicaId>,
        Ghost(call): Ghost<int>,
        Ghost(history): Ghost<Seq<Seq<T>>>,
        Ghost(senders): Ghost<Seq<ReplicaId>>,
    )
        requires
            min_index <= old(ib)@.len(),
            old(ib)@.len() + 3 <= usize::MAX,
            inbox_entries_wf(owner, old(ib)@, history, senders),
            inbox_fifo(old(ib)@),
            owner != sender,
            0 <= call < history.len(),
            senders[call] == sender,
            index < history[call].len(),
            history[call][index as int] == *message,
            forall|t: int|
                0 <= t < old(ib)@.len() && (#[trigger] old(ib)@[t]).sender == sender ==> t
                    < min_index && origin_lt(
                    old(ib)@[t].origin@,
                    Origin { call: call as nat, index: index as nat },
                ),
        ensures
            inbox_entries_wf(owner, final(ib)@, history, senders),
            inbox_fifo(final(ib)@),
            copies_of(old(ib)@, call, index as int) + 1 <= copies_of(
                final(ib)@,
                call,
                index as int,
            ) <= copies_of(old(ib)@, call, index as int) + 3,
            forall|c: int, i: int|
                !(c == call && i == index) ==> #[trigger] copies_of(final(ib)@, c, i)
                    == copies_of(old(ib)@, c, i),
            final(ib)@.len() <= old(ib)@.len() + 3,
            forall|t: int|
                0 <= t < final(ib)@.len() && (#[trigger] final(ib)@[t]).sender == sender
                    ==> origin_le(
                    final(ib)@[t].origin@,
                    Origin { call: call as nat, index: index as nat },
                ),
    {
        let ghost o = Origin { call: call as nat, index: index as nat };
        let k = rng.gen_range(1, 4);
        let mut c: usize = 0;
        while c < k
            invariant
                c <= k,
                1 <= k <= 3,
                min_index <= ib@.len(),
                old(ib)@.len() + 3 <= usize::MAX,
                ib@.len() == old(ib)@.len() + c,
                inbox_entries_wf(owner, ib@, history, senders),
                inbox_fifo(ib@),
                owner != sender,
                0 <= call < history.len(),
                senders[call] == sender,
                index < history[call].len(),
                history[call][index as int] == *message,
                o == (Origin { call: call as nat, index: index as nat }),
                copies_of(ib@, call, index as int) == copies_of(old(ib)@, call, index as int) + c,
                forall|ci: int, i: int|
                    !(ci == call && i == index) ==> #[trigger] copies_of(ib@, ci, i) == copies_of(
                        old(ib)@,
                        ci,
                        i,
                    ),
                forall|t: int|
                    0 <= t < ib@.len() && (#[trigger] ib@[t]).sender == sender && ib@[t].origin@
                        != o ==> t < min_index && origin_lt(ib@[t].origin@, o),
                forall|t: int|
                    0 <= t < ib@.len() && (#[trigger] ib@[t]).sender == sender ==> origin_le(
                        ib@[t].origin@,
                        o,
                    ),
            decreases k - c,
        {
            let ghost before = ib@;
            let pos = rng.gen_range(min_index, ib.len() + 1);
            let env = Envelope { message: message.clone(), sender, origin: Ghost(o) };
            proof {
                assert(cloned::<T>(*message, env.message));
            }
            ib.insert(pos, env);
            proof {
                assert(ib@ == before.insert(pos as int, env));
                lemma_copies_insert(before, env, pos as int, call, index as int);
                assert forall|ci: int, i: int| !(ci == call && i == index) implies #[trigger]
                    copies_of(ib@, ci, i) == copies_of(old(ib)@, ci, i) by {
                    lemma_copies_insert(before, env, pos as int, ci, i);
                }
                lemma_insert_entries_wf(owner, before, env, pos as int, history, senders);
                lemma_insert_fifo(before, env, pos as int);
                before.insert_ensures(pos as int, env);
                assert forall|t: int|
                    0 <= t < ib@.len() && (#[trigger] ib@[t]).sender == sender && ib@[t].origin@
                        != o implies t < min_index && origin_lt(ib@[t].origin@, o) by {
                    if t < pos {
                        assert(ib@[t] == before[t]);
                    } else if t > pos {
                        assert(ib@[t] == before[t - 1]);
                    }
                }
            }
            c = c + 1;
        }
    }

    /// Deliver the whole batch of one broadcast call into one receiver's
    /// inbox, message by message in batch order.
    fn deliver_batch(
        ib: &mut Vec<Envelope<T>>,
        rng: &mut R,
        sender: ReplicaId,
        messages: &Vec<T>,
        Ghost(owner): Ghost<ReplicaId>,
        Ghost(call): Ghost<int>,
        Ghost(history): Ghost<Seq<Seq<T>>>,
        Ghost(senders): Ghost<Seq<ReplicaId>>,
    )
        requires
            old(ib)@.len() + 3 * messages@.len() <= usize::MAX,
            inbox_entries_wf(owner, old(ib)@, history, senders),
            inbox_fifo(old(ib)@),
            owner != sender,
            0 <= call < history.len(),
            senders.len() == history.len(),
            senders[call] == sender,
            history[call] == messages@,
            forall|t: int| 0 <= t < old(ib)@.len() ==> (#[trigger] old(ib)@[t]).origin@.call < call,
        ensures
            inbox_entries_wf(owner, final(ib)@, history, senders),
            inbox_fifo(final(ib)@),
            final(ib)@.len() <= old(ib)@.len() + 3 * messages@.len(),
            forall|i: int|
                0 <= i < messages@.len() ==> 1 <= #[trigger] copies_of(final(ib)@, call, i) <= 3,
            forall|c: int, i: int|
                c != call ==> #[trigger] copies_of(final(ib)@, c, i) == copies_of(old(ib)@, c, i),
    {
        proof {
            assert forall|i: int| 0 <= i < messages@.len() implies #[trigger] copies_of(
                old(ib)@,
                call,
                i,
            ) == 0 by {
                lemma_copies_absent(old(ib)@, call, i);
            }
        }
        let len = messages.len();
        let mut mi: usize = 0;
        while mi < len
            invariant
                0 <= mi <= len,
                len == messages@.len(),
                old(ib)@.len() + 3 * messages@.len() <= usize::MAX,
                ib@.len() <= old(ib)@.len() + 3 * mi,
                inbox_entries_wf(owner, ib@, history, senders),
                inbox_fifo(ib@),
                owner != sender,
                0 <= call < history.len(),
                senders.len() == history.len(),
                senders[call] == sender,
                history[call] == messages@,
                forall|i: int| 0 <= i < mi ==> 1 <= #[trigger] copies_of(ib@, call, i) <= 3,
                forall|c: int, i: int|
                    c != call ==> #[trigger] copies_of(ib@, c, i) == copies_of(old(ib)@, c, i),
                forall|i: int| mi <= i < len ==> #[trigger] copies_of(ib@, call, i) == 0,
                forall|t: int|
                    0 <= t < ib@.len() && (#[trigger] ib@[t]).sender == sender ==> origin_lt(
                        ib@[t].origin@,
                        Origin { call: call as nat, index: mi as nat },
                    ),
            decreases len - mi,
        {
            let min_index = Self::fifo_floor(ib, sender);
            let ghost before = ib@;
            Self::insert_copies(
                ib,
                rng,
                &messages[mi],
                sender,
                min_index,
                mi,
                Ghost(owner),
                Ghost(call),
                Ghost(history),
                Ghost(senders),
            );
            proof {
                assert forall|i: int| 0 <= i < mi + 1 implies 1 <= #[trigger] copies_of(
                    ib@,
                    call,
                    i,
                ) <= 3 by {
                    if i < mi {
                        assert(copies_of(ib@, call, i) == copies_of(before, call, i));
                    }
                }
                assert forall|t: int|
                    0 <= t < ib@.len() && (#[trigger] ib@[t]).sender == sender implies origin_lt(
                    ib@[t].origin@,
                    Origin { call: call as nat, index: (mi + 1) as nat },
                ) by {
                    assert(origin_le(
                        ib@[t].origin@,
                        Origin { call: call as nat, index: mi as nat },
                    ));
                }
            }
            mi = mi + 1;
        }
    }

    /// Enqueue each message of `messages` into every other replica's inbox,
    /// with one to three randomized copies per receiver, at randomized
    /// positions that respect per-sender FIFO order, then append the batch to
    /// the log of all messages.
    pub fn broadcast(&mut self, sender: ReplicaId, messages: Vec<T>)
        requires
            old(self).wf(),
            forall|x: ReplicaId| #[trigger]
                old(self).is_replica(x) ==> old(self).inbox(x).len() + 3 * messages@.len()
                    <= usize::MAX,
        ensures
            final(self).wf(),
            final(self).history() == old(self).history().push(messages@),
            final(self).senders() == old(self).senders().push(sender),
            final(self).log() == old(self).log() + messages@,
            forall|x: ReplicaId| #[trigger]
                final(self).is_replica(x) == old(self).is_replica(x),
            old(self).is_replica(sender) ==> final(self).inbox(sender) == old(self).inbox(sender),
            forall|x: ReplicaId, i: int|
                #![trigger copies_of(final(self).inbox(x), old(self).history().len() as int, i)]
                old(self).is_replica(x) && x != sender && 0 <= i < messages@.len() ==> 1
                    <= copies_of(final(self).inbox(x), old(self).history().len() as int, i) <= 3,
            forall|x: ReplicaId, c: int, i: int|
                #![trigger copies_of(final(self).inbox(x), c, i)]
                old(self).is_replica(x) && x != sender && c != old(self).history().len() as int
                    ==> copies_of(final(self).inbox(x), c, i) == copies_of(old(self).inbox(x), c, i),
            forall|x: ReplicaId|
                old(self).is_replica(x) && x != sender ==> #[trigger] final(self).inbox(x).len()
                    <= old(self).inbox(x).len() + 3 * messages@.len(),
    {
        let ghost call: int = old(self).history@.len() as int;
        let ghost msgs = messages@;
        self.history = Ghost(self.history@.push(msgs));
        self.hist_senders = Ghost(self.hist_senders@.push(sender));
        proof {
            assert forall|j: int| 0 <= j < self.inboxes@.len() implies inbox_entries_wf(
                (#[trigger] self.inboxes@[j]).0,
                self.inboxes@[j].1@,
                self.history@,
                self.hist_senders@,
            ) by {
                lemma_entries_wf_extend(
                    self.inboxes@[j].0,
                    self.inboxes@[j].1@,
                    old(self).history@,
                    old(self).hist_senders@,
                    msgs,
                    sender,
                );
            }
        }
        let n = self.inboxes.len();
        let mut ri: usize = 0;
        while ri < n
            invariant
                0 <= ri <= n,
                n == self.inboxes@.len(),
                n == old(self).inboxes@.len(),
                old(self).wf(),
                forall|x: ReplicaId| #[trigger]
                    old(self).is_replica(x) ==> old(self).inbox(x).len() + 3 * messages@.len()
                        <= usize::MAX,
                call == old(self).history@.len() as int,
                msgs == messages@,
                self.history@ == old(self).history@.push(msgs),
                self.hist_senders@ == old(self).hist_senders@.push(sender),
                self.all_messages@ == old(self).all_messages@,
                forall|j: int|
                    0 <= j < n ==> (#[trigger] self.inboxes@[j]).0 == old(self).inboxes@[j].0,
                forall|j: int|
                    0 <= j < n ==> inbox_entries_wf(
                        (#[trigger] self.inboxes@[j]).0,
                        self.inboxes@[j].1@,
                        self.history@,
                        self.hist_senders@,
                    ),
                forall|j: int| 0 <= j < n ==> inbox_fifo((#[trigger] self.inboxes@[j]).1@),
                forall|j: int|
                    ri <= j < n ==> (#[trigger] self.inboxes@[j]).1@ == old(self).inboxes@[j].1@,
                forall|j: int|
                    0 <= j < ri && (#[trigger] self.inboxes@[j]).0 == sender ==> self.inboxes@[j].1@
                        == old(self).inboxes@[j].1@,
                forall|j: int, i: int|
                    #![trigger copies_of(self.inboxes@[j].1@, call, i)]
                    0 <= j < ri && (self.inboxes@[j]).0 != sender && 0 <= i < msgs.len() ==> 1
                        <= copies_of(self.inboxes@[j].1@, call, i) <= 3,
                forall|j: int, c: int, i: int|
                    #![trigger copies_of(self.inboxes@[j].1@, c, i)]
                    0 <= j < ri && (self.inboxes@[j]).0 != sender && c != call ==> copies_of(
                        self.inboxes@[j].1@,
                        c,
                        i,
                    ) == copies_of(old(self).inboxes@[j].1@, c, i),
                forall|j: int|
                    0 <= j < ri ==> (#[trigger] self.inboxes@[j]).1@.len()
                        <= old(self).inboxes@[j].1@.len() + 3 * msgs.len(),
            decreases n - ri,
        {
            if self.inboxes[ri].0 != sender {
                let ghost snap = self.inboxes@;
                let mut pair = self.inboxes.remove(ri);
                proof {
                    assert(pair == snap[ri as int]);
                    assert(pair.1@ == old(self).inboxes@[ri as int].1@);
                    assert(inbox_entries_wf(
                        old(self).inboxes@[ri as int].0,
                        old(self).inboxes@[ri as int].1@,
                        old(self).history@,
                        old(self).hist_senders@,
                    ));
                    old(self).lemma_idx(ri as int);
                    assert(old(self).inbox(pair.0) == pair.1@);
                    assert(pair.1@.len() + 3 * messages@.len() <= usize::MAX);
                }
                Self::deliver_batch(
                    &mut pair.1,
                    &mut self.rng,
                    sender,
                    &messages,
                    Ghost(pair.0),
                    Ghost(call),
                    Ghost(self.history@),
                    Ghost(self.hist_senders@),
                );
                self.inboxes.insert(ri, pair);
                proof {
                    snap.remove(ri as int).insert_ensures(ri as int, pair);
                    snap.remove_ensures(ri as int);
                    assert(self.inboxes@ =~= snap.update(ri as int, pair));
                }
            }
            ri = ri + 1;
        }
        let mut messages = messages;
        self.all_messages.append(&mut messages);
        proof {
            old(self).history@.lemma_flatten_push(msgs);
            assert(self.all_messages@ == self.history@.flatten());
            assert forall|i: int, j: int|
                0 <= i < j < self.inboxes@.len() implies (#[trigger] self.inboxes@[i]).0 != (
            #[trigger] self.inboxes@[j]).0 by {
                assert(old(self).inboxes@[i].0 != old(self).inboxes@[j].0);
            }
            assert(self.wf());
            assert forall|x: ReplicaId| #[trigger]
                self.is_replica(x) == old(self).is_replica(x) by {
                if old(self).is_replica(x) {
                    let i = old(self).idx_of(x);
                    assert(self.inboxes@[i].0 == x);
                }
                if self.is_replica(x) {
                    let i = self.idx_of(x);
                    assert(old(self).inboxes@[i].0 == x);
                }
            }
            if old(self).is_replica(sender) {
                let i = old(self).idx_of(sender);
                old(self).lemma_idx(i);
                self.lemma_idx(i);
            }
            assert forall|x: ReplicaId| old(self).is_replica(x) && x != sender implies {
                &&& (forall|i: int|
                    0 <= i < msgs.len() ==> 1 <= #[trigger] copies_of(self.inbox(x), call, i) <= 3)
                &&& (forall|c: int, i: int|
                    c != call ==> #[trigger] copies_of(self.inbox(x), c, i) == copies_of(
                        old(self).inbox(x),
                        c,
                        i,
                    ))
                &&& self.inbox(x).len() <= old(self).inbox(x).len() + 3 * msgs.len()
            } by {
                let i = old(self).idx_of(x);
                old(self).lemma_idx(i);
                self.lemma_idx(i);
                assert(self.inbox(x) == self.inboxes@[i].1@);
                assert(old(self).inbox(x) == old(self).inboxes@[i].1@);
            }
        }
    }

    /// Drain a uniformly random prefix of `receiver`'s inbox (its length
    /// drawn from `[0, inbox.len()]` inclusive) and return the drained
    /// messages in delivery order. The log of all messages is not consumed.
    #[verifier::loop_isolation(false)]
    pub fn receive(&mut self, receiver: ReplicaId) -> (r: Vec<T>)
        requires
            old(self).wf(),
            old(self).is_replica(receiver),
            old(self).inbox(receiver).len() < usize::MAX,
        ensures
            final(self).wf(),
            final(self).history() == old(self).history(),
            final(self).senders() == old(self).senders(),
            final(self).log() == old(self).log(),
            forall|x: ReplicaId| #[trigger]
                final(self).is_replica(x) == old(self).is_replica(x),
            forall|x: ReplicaId|
                old(self).is_replica(x) && x != receiver ==> #[trigger] final(self).inbox(x)
                    == old(self).inbox(x),
            r@.len() <= old(self).inbox(receiver).len(),
            final(self).inbox(receiver) == old(self).inbox(receiver).skip(r@.len() as int),
            r@ == old(self).inbox(receiver).take(r@.len() as int).map_values(
                |e: Envelope<T>| e.message,
            ),
    {
        let ri = self.find_index(receiver);
        let ghost snap = self.inboxes@;
        proof {
            old(self).lemma_idx(ri as int);
        }
        let mut pair = self.inboxes.remove(ri);
        let count = self.rng.gen_range(0, pair.1.len() + 1);
        let ghost orig = pair.1@;
        let mut result: Vec<T> = Vec::new();
        let mut t: usize = 0;
        proof {
            assert(pair.1@ =~= orig.skip(0));
            assert(result@ =~= orig.take(0).map_values(|e: Envelope<T>| e.message));
        }
        while t < count
            invariant
                t <= count,
                count <= orig.len(),
                pair.0 == old(self).inboxes@[ri as int].0,
                pair.1@ == orig.skip(t as int),
                result@ == orig.take(t as int).map_values(|e: Envelope<T>| e.message),
            decreases count - t,
        {
            let ghost before = pair.1@;
            let env = pair.1.remove(0);
            result.push(env.message);
            proof {
                before.remove_ensures(0);
                assert(pair.1@ =~= orig.skip(t + 1));
                assert(env == orig[t as int]);
                assert(result@ =~= orig.take(t + 1).map_values(|e: Envelope<T>| e.message));
            }
            t = t + 1;
        }
        self.inboxes.insert(ri, pair);
        proof {
            snap.remove(ri as int).insert_ensures(ri as int, pair);
            snap.remove_ensures(ri as int);
            assert(self.inboxes@ =~= snap.update(ri as int, pair));
            assert(pair.1@ == orig.skip(count as int));
            assert forall|i: int, j: int|
                0 <= i < j < self.inboxes@.len() implies (#[trigger] self.inboxes@[i]).0 != (
            #[trigger] self.inboxes@[j]).0 by {
                assert(old(self).inboxes@[i].0 != old(self).inboxes@[j].0);
            }
            assert forall|j: int| 0 <= j < self.inboxes@.len() implies inbox_entries_wf(
                (#[trigger] self.inboxes@[j]).0,
                self.inboxes@[j].1@,
                self.history@,
                self.hist_senders@,
            ) && inbox_fifo(self.inboxes@[j].1@) by {
                if j == ri as int {
                    assert(inbox_entries_wf(
                        old(self).inboxes@[j].0,
                        orig,
                        self.history@,
                        self.hist_senders@,
                    ));
                    assert(inbox_fifo(orig));
                    assert forall|k: int| 0 <= k < pair.1@.len() implies {
                        let e = #[trigger] pair.1@[k];
                        &&& e.sender != self.inboxes@[j].0
                        &&& e.origin@.call < self.history@.len()
                        &&& e.origin@.index < self.history@[e.origin@.call as int].len()
                        &&& e.sender == self.hist_senders@[e.origin@.call as int]
                        &&& cloned::<T>(
                            self.history@[e.origin@.call as int][e.origin@.index as int],
                            e.message,
                        )
                    } by {
                        assert(pair.1@[k] == orig[k + count]);
                    }
                    assert forall|k1: int, k2: int|
                        0 <= k1 < k2 < pair.1@.len() && (#[trigger] pair.1@[k1]).sender == (
                    #[trigger] pair.1@[k2]).sender implies origin_le(
                        pair.1@[k1].origin@,
                        pair.1@[k2].origin@,
                    ) by {
                        assert(pair.1@[k1] == orig[k1 + count]);
                        assert(pair.1@[k2] == orig[k2 + count]);
                    }
                } else {
                    assert(self.inboxes@[j] == snap[j]);
                }
            }
            assert(self.wf());
            assert forall|x: ReplicaId| #[trigger]
                self.is_replica(x) == old(self).is_replica(x) by {
                if old(self).is_replica(x) {
                    let i = old(self).idx_of(x);
                    assert(self.inboxes@[i].0 == x);
                }
                if self.is_replica(x) {
                    let i = self.idx_of(x);
                    assert(old(self).inboxes@[i].0 == x);
                }
            }
            assert forall|x: ReplicaId|
                old(self).is_replica(x) && x != receiver implies #[trigger] self.inbox(x)
                == old(self).inbox(x) by {
                let i = old(self).idx_of(x);
                old(self).lemma_idx(i);
                self.lemma_idx(i);
            }
            self.lemma_idx(ri as int);
        }
        result
    }

    /// The append-only log of everything broadcast so far, in issue order.
    /// It is never consumed by `receive`.
    pub fn all_messages(&self) -> (r: &Vec<T>)
        ensures
            r@ == self.log(),
    {
        &self.all_messages
    }

    /// Whether `receiver` has pending messages.
    pub fn has_unreceived(&self, receiver: ReplicaId) -> (r: bool)
        requires
            self.wf(),
            self.is_replica(receiver),
        ensures
            r == (self.inbox(receiver).len() > 0),
    {
        let i = self.find_index(receiver);
        self.inboxes[i].1.len() > 0
    }
}

} // verus!
