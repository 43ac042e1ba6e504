//! The action registry: actions stored behind opaque handles.
use vstd::prelude::*;

verus! {

/// An opaque handle to an action of an [`ActionRegistry`].
#[derive(Clone, Copy, Debug, PartialEq, Eq, Structural)]
pub struct ActionId {
    index: usize,
}

/// A handle that resolves to no action.
#[derive(Clone, Copy, Debug, PartialEq, Eq, Structural)]
pub struct UnknownHandle {
    pub handle: ActionId,
}

/// The result of resolving `h` in a registry whose contents are `m`.
pub open spec fn resolve_spec<A>(m: Map<ActionId, A>, h: ActionId) -> Result<A, UnknownHandle> {
    if m.contains_key(h) {
        Ok(m[h])
    } else {
        Err(UnknownHandle { handle: h })
    }
}

/// Stores actions and hands out a fresh handle for each. Entries are never
/// removed, so a handle stays valid for the registry's lifetime.
pub struct ActionRegistry<A> {
    actions: Vec<A>,
}

impl<A> View for ActionRegistry<A> {
    type V = Map<ActionId, A>;

    closed spec fn view(&self) -> Map<ActionId, A> {
        Map::new(
            |h: ActionId| h.index < self.actions@.len(),
            |h: ActionId| self.actions@[h.index as int],
        )
    }
}

impl<A: Copy> ActionRegistry<A> {
    /// An empty registry.
    pub fn new() -> (r: ActionRegistry<A>)
        ensures
            r@ == Map::<ActionId, A>::empty(),
    {
        let r = ActionRegistry { actions: Vec::new() };
        assert(r@ =~= Map::<ActionId, A>::empty());
        r
    }

    /// Stores `action` under a handle that no earlier call returned.
    pub fn register(&mut self, action: A) -> (h: ActionId)
        ensures
            !old(self)@.contains_key(h),
            final(self)@ == old(self)@.insert(h, action),
    {
        let h = ActionId { index: self.actions.len() };
        self.actions.push(action);
        assert(self@ =~= old(self)@.insert(h, action));
        h
    }

    /// Resolves `handle` to the action that invoking it runs. Looking up
    /// changes nothing, so every lookup of a handle yields the same action.
    pub fn lookup(&self, handle: ActionId) -> (r: Result<A, UnknownHandle>)
        ensures
            r == resolve_spec(self@, handle),
    {
        if handle.index < self.actions.len() {
            Ok(self.actions[handle.index])
        } else {
            Err(UnknownHandle { handle })
        }
    }
}

} // verus!
