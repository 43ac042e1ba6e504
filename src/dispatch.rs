//! Deferred dispatch: handles are queued during the scan of the widgets and
//! resolved, in the order they were queued, only once the scan is over.
use crate::registry::{resolve_spec, ActionId, ActionRegistry, UnknownHandle};
use vstd::prelude::*;

verus! {

/// What flushing the queue `q` against a registry holding `m` hands out:
/// one resolution per queued handle, in queue order.
pub open spec fn flushed_spec<A>(q: Seq<ActionId>, m: Map<ActionId, A>) -> Seq<
    Result<A, UnknownHandle>,
> {
    q.map_values(|h: ActionId| resolve_spec(m, h))
}

/// The queue of handles whose actions are still to run this tick.
pub struct DeferredQueue {
    queue: Vec<ActionId>,
}

impl View for DeferredQueue {
    type V = Seq<ActionId>;

    closed spec fn view(&self) -> Seq<ActionId> {
        self.queue@
    }
}

impl DeferredQueue {
    /// An empty queue.
    pub fn new() -> (r: DeferredQueue)
        ensures
            r@ == Seq::<ActionId>::empty(),
    {
        DeferredQueue { queue: Vec::new() }
    }

    /// Appends `handle`; the same handle may be queued any number of times.
    pub fn defer(&mut self, handle: ActionId)
        ensures
            final(self)@ == old(self)@.push(handle),
    {
        self.queue.push(handle);
    }

    /// The number of queued handles.
    pub fn len(&self) -> (r: usize)
        ensures
            r == self@.len(),
    {
        self.queue.len()
    }

    /// Empties the queue and hands out, first queued first, the action that
    /// each queued handle resolves to in `registry`. A handle that resolves to
    /// nothing gives its own `UnknownHandle` entry and does not stop the rest.
    /// The caller runs the actions; since the result is its own, they may
    /// register actions and build widgets without touching this flush.
    pub fn flush<A: Copy>(&mut self, registry: &ActionRegistry<A>) -> (r: Vec<
        Result<A, UnknownHandle>,
    >)
        ensures
            r@ == flushed_spec(old(self)@, registry@),
            final(self)@ == Seq::<ActionId>::empty(),
    {
        let mut r: Vec<Result<A, UnknownHandle>> = Vec::new();
        let n = self.queue.len();
        for i in 0..n
            invariant
                n == self.queue@.len(),
                self.queue@ == old(self)@,
                r@ == flushed_spec(self.queue@.take(i as int), registry@),
        {
            r.push(registry.lookup(self.queue[i]));
            assert(self.queue@.take(i + 1) =~= self.queue@.take(i as int).push(self.queue@[i as int]));
            assert(r@ =~= flushed_spec(self.queue@.take(i + 1), registry@));
        }
        assert(self.queue@.take(n as int) =~= self.queue@);
        self.queue.clear();
        r
    }
}

/// Entries of one queue that hold the same handle resolve alike: a handle
/// queued twice runs the same action twice, each entry on its own.
pub proof fn lemma_flush_repeats<A>(q: Seq<ActionId>, m: Map<ActionId, A>, i: int, j: int)
    requires
        0 <= i < q.len(),
        0 <= j < q.len(),
        q[i] == q[j],
    ensures
        flushed_spec(q, m).len() == q.len(),
        flushed_spec(q, m)[i] == flushed_spec(q, m)[j],
        flushed_spec(q, m)[i] == resolve_spec(m, q[i]),
{
}

/// Flushing keeps the order of the queue: an entry queued before another is
/// handed out before it.
pub proof fn lemma_flush_order<A>(q: Seq<ActionId>, r: Seq<ActionId>, m: Map<ActionId, A>)
    ensures
        flushed_spec(q + r, m) == flushed_spec(q, m) + flushed_spec(r, m),
{
    assert(flushed_spec(q + r, m) =~= flushed_spec(q, m) + flushed_spec(r, m));
}

/// Registering a fresh action changes the resolution of no handle that was
/// already queued and known: a registration made while the actions of a
/// flush run leaves that flush as it was.
pub proof fn lemma_flush_isolated<A>(q: Seq<ActionId>, m: Map<ActionId, A>, h: ActionId, a: A)
    requires
        !m.contains_key(h),
        forall|i: int| 0 <= i < q.len() ==> m.contains_key(#[trigger] q[i]),
    ensures
        flushed_spec(q, m.insert(h, a)) == flushed_spec(q, m),
{
    assert(flushed_spec(q, m.insert(h, a)) =~= flushed_spec(q, m));
}

} // verus!
