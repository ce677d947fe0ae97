//! The mempool: a bounded first-in first-out queue of transactions that
//! refuses any id it has seen before.
use vstd::prelude::*;

use crate::types::transaction::L2Transaction;

verus! {

/// The most transactions the mempool holds at once.
pub const MAX_PENDING: usize = 10_000;

/// The contents of a mempool: the queued transactions, oldest first, and every
/// id ever accepted.
pub struct MempoolView {
    pub queue: Seq<L2Transaction>,
    pub seen: Seq<Seq<char>>,
}

/// Accepting `tx`: refused (and nothing changes) when its id was seen before or
/// the queue is full; otherwise queued at the back and its id remembered.
pub open spec fn spec_accept(m: MempoolView, tx: L2Transaction) -> (bool, MempoolView) {
    if m.seen.contains(tx.id@) || m.queue.len() >= MAX_PENDING {
        (false, m)
    } else {
        (true, MempoolView { queue: m.queue.push(tx), seen: m.seen.push(tx.id@) })
    }
}

/// The number of transactions a drain of `limit` takes.
pub open spec fn drain_count(m: MempoolView, limit: nat) -> nat {
    if limit < m.queue.len() { limit } else { m.queue.len() }
}

/// Draining up to `limit`: the oldest transactions leave the queue, in order;
/// the remembered ids stay.
pub open spec fn spec_drain(m: MempoolView, limit: nat) -> (Seq<L2Transaction>, MempoolView) {
    let n = drain_count(m, limit) as int;
    (m.queue.take(n), MempoolView { queue: m.queue.skip(n), seen: m.seen })
}

/// The ids of a run of transactions.
pub open spec fn ids_of(txs: Seq<L2Transaction>) -> Seq<Seq<char>> {
    txs.map_values(|t: L2Transaction| t.id@)
}

/// No two of the transactions carry the same id.
pub open spec fn ids_distinct(txs: Seq<L2Transaction>) -> bool {
    forall|i: int, j: int| 0 <= i < j < txs.len() ==> #[trigger] txs[i].id@ != #[trigger] txs[j].id@
}

/// The mempool.
pub struct Mempool {
    queue: Vec<L2Transaction>,
    seen: Vec<String>,
}

impl View for Mempool {
    type V = MempoolView;

    closed spec fn view(&self) -> MempoolView {
        MempoolView { queue: self.queue@, seen: self.seen@.map_values(|s: String| s@) }
    }
}

impl Mempool {
    #[verifier::type_invariant]
    spec fn inv(&self) -> bool {
        &&& self.queue@.len() <= MAX_PENDING
        &&& forall|i: int| 0 <= i < self.queue@.len() ==> self@.seen.contains(#[trigger] self.queue@[i].id@)
        &&& ids_distinct(self.queue@)
    }

    /// An empty mempool that has seen nothing.
    pub fn new() -> (r: Self)
        ensures
            r@.queue.len() == 0,
            r@.seen.len() == 0,
    {
        let r = Mempool { queue: Vec::new(), seen: Vec::new() };
        assert(r@.seen =~= Seq::<Seq<char>>::empty());
        r
    }

    /// Whether `id` was ever accepted.
    fn has_seen(&self, id: &String) -> (r: bool)
        ensures
            r == self@.seen.contains(id@),
    {
        let n = self.seen.len();
        let mut i: usize = 0;
        while i < n
            invariant
                n == self.seen@.len(),
                i <= n,
                forall|j: int| 0 <= j < i ==> self@.seen[j] != id@,
            decreases n - i,
        {
            if self.seen[i] == *id {
                assert(self@.seen[i as int] == id@);
                return true;
            }
            i = i + 1;
        }
        false
    }

    /// Queues `tx` unless its id was seen before or the queue is full; tells
    /// whether it was queued.
    pub fn accept(&mut self, tx: L2Transaction) -> (r: bool)
        ensures
            (r, final(self)@) == spec_accept(old(self)@, tx),
    {
        proof {
            use_type_invariant(&*self);
        }
        if self.has_seen(&tx.id) {
            return false;
        }
        if self.queue.len() >= MAX_PENDING {
            return false;
        }
        let ghost before = self@;
        let id = tx.id.clone();
        let mut queue: Vec<L2Transaction> = Vec::new();
        let mut seen: Vec<String> = Vec::new();
        std::mem::swap(&mut queue, &mut self.queue);
        std::mem::swap(&mut seen, &mut self.seen);
        seen.push(id);
        queue.push(tx);
        let ghost sv = seen@.map_values(|s: String| s@);
        assert(sv =~= before.seen.push(tx.id@));
        assert forall|i: int| 0 <= i < queue@.len() implies sv.contains(#[trigger] queue@[i].id@) by {
            if i < before.queue.len() {
                assert(before.seen.contains(before.queue[i].id@));
                let j = choose|j: int| 0 <= j < before.seen.len() && before.seen[j] == before.queue[i].id@;
                assert(sv[j] == before.seen[j]);
            } else {
                assert(sv[before.seen.len() as int] == tx.id@);
            }
        }
        assert forall|i: int, j: int| 0 <= i < j < queue@.len() implies #[trigger] queue@[i].id@ != #[trigger] queue@[j].id@ by {
            if j == before.queue.len() {
                assert(before.seen.contains(before.queue[i].id@));
            } else {
                assert(queue@[i] == before.queue[i] && queue@[j] == before.queue[j]);
            }
        }
        *self = Mempool { queue, seen };
        true
    }

    /// Takes up to `limit` transactions from the front of the queue, oldest first.
    pub fn drain(&mut self, limit: usize) -> (r: Vec<L2Transaction>)
        ensures
            (r@, final(self)@) == spec_drain(old(self)@, limit as nat),
    {
        proof {
            use_type_invariant(&*self);
        }
        let ghost before = self@;
        let take = if limit < self.queue.len() { limit } else { self.queue.len() };
        let mut queue: Vec<L2Transaction> = Vec::new();
        std::mem::swap(&mut queue, &mut self.queue);
        let rest = queue.split_off(take);
        proof {
            assert forall|i: int| 0 <= i < rest@.len() implies self@.seen.contains(#[trigger] rest@[i].id@) by {
                assert(rest@[i] == before.queue[i + take]);
            }
            assert forall|i: int, j: int| 0 <= i < j < rest@.len() implies #[trigger] rest@[i].id@ != #[trigger] rest@[j].id@ by {
                assert(rest@[i] == before.queue[i + take] && rest@[j] == before.queue[j + take]);
            }
        }
        self.queue = rest;
        assert(self@.queue =~= before.queue.skip(take as int));
        assert(queue@ =~= before.queue.take(take as int));
        queue
    }

    /// The number of queued transactions.
    pub fn pending_count(&self) -> (r: usize)
        ensures
            r == self@.queue.len(),
            r <= MAX_PENDING,
    {
        proof {
            use_type_invariant(self);
        }
        self.queue.len()
    }

    /// The ids of the queued transactions, oldest first; no id occurs twice.
    pub fn pending_ids(&self) -> (r: Vec<String>)
        ensures
            r@.map_values(|s: String| s@) == ids_of(self@.queue),
            r@.map_values(|s: String| s@).no_duplicates(),
    {
        proof {
            use_type_invariant(self);
        }
        let n = self.queue.len();
        let mut r: Vec<String> = Vec::new();
        let mut i: usize = 0;
        while i < n
            invariant
                n == self.queue@.len(),
                i <= n,
                r@.map_values(|s: String| s@) == ids_of(self@.queue.take(i as int)),
            decreases n - i,
        {
            let ghost before = r@;
            let id = self.queue[i].id.clone();
            r.push(id);
            assert(r@ == before.push(id));
            assert(ids_of(self@.queue.take(i + 1)) =~= ids_of(self@.queue.take(i as int)).push(self@.queue[i as int].id@));
            assert(r@.map_values(|s: String| s@) =~= before.map_values(|s: String| s@).push(id@));
            i = i + 1;
        }
        assert(self@.queue.take(n as int) =~= self@.queue);
        let ghost rv = r@.map_values(|s: String| s@);
        assert forall|i: int, j: int| 0 <= i < rv.len() && 0 <= j < rv.len() && i != j
            implies #[trigger] rv[i] != #[trigger] rv[j] by {
            assert(ids_of(self@.queue)[i] == self@.queue[i].id@);
            assert(ids_of(self@.queue)[j] == self@.queue[j].id@);
        }
        r
    }
}

impl Default for Mempool {
    /// An empty mempool that has seen nothing.
    fn default() -> (r: Self)
        ensures
            r@.queue.len() == 0,
            r@.seen.len() == 0,
    {
        Self::new()
    }
}

/// One call on the mempool: an `accept` of a transaction, or a `drain` with a
/// limit.
pub enum MempoolStep {
    Accept(L2Transaction),
    Drain(nat),
}

/// The mempool after a run of calls, in order.
pub open spec fn spec_steps(m: MempoolView, steps: Seq<MempoolStep>) -> MempoolView
    decreases steps.len(),
{
    if steps.len() == 0 {
        m
    } else {
        let prev = spec_steps(m, steps.drop_last());
        match steps.last() {
            MempoolStep::Accept(t) => spec_accept(prev, t).1,
            MempoolStep::Drain(limit) => spec_drain(prev, limit).1,
        }
    }
}

/// An id once remembered stays remembered, whatever calls follow.
proof fn lemma_steps_remember(m: MempoolView, steps: Seq<MempoolStep>, id: Seq<char>)
    requires
        m.seen.contains(id),
    ensures
        spec_steps(m, steps).seen.contains(id),
    decreases steps.len(),
{
    if steps.len() > 0 {
        lemma_steps_remember(m, steps.drop_last(), id);
        let prev = spec_steps(m, steps.drop_last());
        let j = choose|j: int| 0 <= j < prev.seen.len() && prev.seen[j] == id;
        match steps.last() {
            MempoolStep::Accept(t) => {
                assert(spec_accept(prev, t).1.seen[j] == id);
            },
            MempoolStep::Drain(limit) => {},
        }
    }
}

/// A transaction once accepted is refused ever after: whatever accepts and
/// drains follow (draining does not make the mempool forget an id), a
/// transaction with the same id is turned away, and the mempool stays as it was.
pub proof fn law_accepted_id_never_accepted_again(m: MempoolView, tx: L2Transaction, steps: Seq<MempoolStep>, again: L2Transaction)
    requires
        spec_accept(m, tx).0,
        again.id@ == tx.id@,
    ensures
        !spec_accept(spec_steps(spec_accept(m, tx).1, steps), again).0,
        spec_accept(spec_steps(spec_accept(m, tx).1, steps), again).1 == spec_steps(spec_accept(m, tx).1, steps),
{
    let m1 = spec_accept(m, tx).1;
    assert(m1.seen[m1.seen.len() - 1] == tx.id@);
    lemma_steps_remember(m1, steps, tx.id@);
}

/// Transactions leave the mempool in the order they were accepted: after two
/// accepted transactions, draining everything yields what was queued before,
/// then the first, then the second.
pub proof fn law_drain_is_first_in_first_out(m: MempoolView, a: L2Transaction, b: L2Transaction)
    requires
        spec_accept(m, a).0,
        spec_accept(spec_accept(m, a).1, b).0,
    ensures
        spec_drain(spec_accept(spec_accept(m, a).1, b).1, (m.queue.len() + 2) as nat).0
            == m.queue.push(a).push(b),
{
    let m2 = spec_accept(spec_accept(m, a).1, b).1;
    assert(m2.queue.take(m2.queue.len() as int) =~= m2.queue);
}

/// The mempool never holds more than `MAX_PENDING` transactions: accepting at
/// the limit is refused.
pub proof fn law_accept_respects_capacity(m: MempoolView, tx: L2Transaction)
    requires
        m.queue.len() <= MAX_PENDING,
    ensures
        spec_accept(m, tx).1.queue.len() <= MAX_PENDING,
        m.queue.len() == MAX_PENDING ==> !spec_accept(m, tx).0,
{
}

} // verus!
