use std::collections::HashMap;
use std::collections::hash_map::Entry;
use vstd::prelude::*;

verus! {

broadcast use vstd::std_specs::hash::group_hash_axioms;

/// The live engines, each under the integer handle it was given when it was
/// registered.  Handles start at 1 and are never handed out twice.
pub struct EngineRegistry<S> {
    engines: HashMap<i32, S>,
    next_id: i32,
}

/// A call made on a registry, with the handle it names or returns.
#[derive(Clone, Copy, Debug, PartialEq, Eq, Structural)]
pub enum RegistryCall {
    /// A registration, which returned this handle.
    Register(i32),
    /// A removal of this handle.
    Remove(i32),
    /// A lookup of this handle, to poll or update its engine.
    Access(i32),
}

/// What a call does to the handles: a registration returns the next handle
/// and moves the next one up by one; other calls leave the next handle.
pub open spec fn call_step<S>(before: EngineRegistry<S>, call: RegistryCall, after: EngineRegistry<S>) -> bool {
    match call {
        RegistryCall::Register(id) => id == before.next_handle() && after.next_handle()
            == before.next_handle() + 1,
        RegistryCall::Remove(_) => after.next_handle() == before.next_handle(),
        RegistryCall::Access(_) => after.next_handle() == before.next_handle(),
    }
}

/// The handles the registrations among `calls` returned, in order.
pub open spec fn issued(calls: Seq<RegistryCall>) -> Seq<i32>
    decreases calls.len(),
{
    if calls.len() == 0 {
        Seq::empty()
    } else {
        let rest = issued(calls.drop_last());
        match calls.last() {
            RegistryCall::Register(id) => rest.push(id),
            _ => rest,
        }
    }
}

/// Over any sequence of calls on a registry that starts at handle 1, the
/// registrations return 1, 2, 3, ... in order, whatever removals and
/// lookups come between: no handle is ever handed out twice, a removed one
/// included.
pub proof fn lemma_handles_count_up<S>(states: Seq<EngineRegistry<S>>, calls: Seq<RegistryCall>)
    requires
        states.len() == calls.len() + 1,
        states[0].next_handle() == 1,
        forall|i: int| 0 <= i < calls.len() ==> call_step(#[trigger] states[i], calls[i], states[i + 1]),
    ensures
        forall|k: int| 0 <= k < issued(calls).len() ==> #[trigger] issued(calls)[k] == k + 1,
        issued(calls).no_duplicates(),
        states.last().next_handle() == issued(calls).len() + 1,
    decreases calls.len(),
{
    if calls.len() > 0 {
        let n = calls.len() - 1;
        let s0 = states.drop_last();
        let c0 = calls.drop_last();
        assert forall|i: int| 0 <= i < c0.len() implies call_step(#[trigger] s0[i], c0[i], s0[i + 1]) by {
            assert(call_step(states[i], calls[i], states[i + 1]));
        }
        lemma_handles_count_up(s0, c0);
        assert(call_step(states[n], calls[n], states[n + 1]));
        assert(s0.last() == states[n]);
    }
}

impl<S> View for EngineRegistry<S> {
    type V = Map<i32, S>;

    closed spec fn view(&self) -> Map<i32, S> {
        self.engines@
    }
}

impl<S> EngineRegistry<S> {
    /// The handle that the next registration will receive.
    pub closed spec fn next_handle(&self) -> int {
        self.next_id as int
    }

    /// Every live handle lies in `1 .. next_handle()`.
    pub open spec fn wf(&self) -> bool {
        &&& 1 <= self.next_handle()
        &&& forall|h: i32| #[trigger] self@.contains_key(h) ==> 1 <= h < self.next_handle()
    }

    /// An empty registry whose first handle is 1.
    pub fn new() -> (r: Self)
        ensures
            r.wf(),
            r@ == Map::<i32, S>::empty(),
            r.next_handle() == 1,
    {
        EngineRegistry { engines: HashMap::new(), next_id: 1 }
    }

    /// The handle that the next registration will receive.
    pub fn peek_next_handle(&self) -> (h: i32)
        ensures
            h == self.next_handle(),
    {
        self.next_id
    }

    /// Stores `strategy` under a fresh handle and returns that handle.
    pub fn register(&mut self, strategy: S) -> (id: i32)
        requires
            old(self).wf(),
            old(self).next_handle() < i32::MAX,
        ensures
            final(self).wf(),
            id == old(self).next_handle(),
            !old(self)@.contains_key(id),
            final(self)@ == old(self)@.insert(id, strategy),
            final(self).next_handle() == old(self).next_handle() + 1,
            call_step(*old(self), RegistryCall::Register(id), *final(self)),
    {
        let id = self.next_id;
        self.next_id = self.next_id + 1;
        self.engines.insert(id, strategy);
        assert forall|h: i32| #[trigger] self@.contains_key(h) implies 1 <= h < self.next_handle() by {
            if h != id {
                assert(old(self)@.contains_key(h));
            }
        }
        id
    }

    /// Whether `id` names a live engine.
    pub fn contains(&self, id: i32) -> (b: bool)
        ensures
            b == self@.contains_key(id),
    {
        self.engines.contains_key(&id)
    }

    /// A mutable reference to the engine under `id`, if there is one.
    pub fn get_mut(&mut self, id: i32) -> (r: Option<&mut S>)
        ensures
            final(self).next_handle() == old(self).next_handle(),
            call_step(*old(self), RegistryCall::Access(id), *final(self)),
            match r {
                Some(_) => {
                    &&& old(self)@.contains_key(id)
                    &&& *r.unwrap() == old(self)@[id]
                    &&& final(self)@ == old(self)@.insert(id, *final(r.unwrap()))
                },
                None => {
                    &&& !old(self)@.contains_key(id)
                    &&& final(self)@ == old(self)@
                },
            },
    {
        match self.engines.entry(id) {
            Entry::Occupied(o) => Some(o.into_mut()),
            Entry::Vacant(_) => None,
        }
    }

    /// Drops the engine under `id`; says whether there was one.
    pub fn remove(&mut self, id: i32) -> (removed: bool)
        requires
            old(self).wf(),
        ensures
            final(self).wf(),
            removed == old(self)@.contains_key(id),
            final(self)@ == old(self)@.remove(id),
            final(self).next_handle() == old(self).next_handle(),
            call_step(*old(self), RegistryCall::Remove(id), *final(self)),
    {
        let removed = self.engines.remove(&id).is_some();
        assert forall|h: i32| #[trigger] self@.contains_key(h) implies 1 <= h < self.next_handle() by {
            assert(old(self)@.contains_key(h));
        }
        removed
    }
}

/// Registering an engine and then destroying it under the handle it got
/// leaves the other engines as they were.
pub proof fn lemma_register_then_remove<S>(before: Map<i32, S>, id: i32, strategy: S)
    requires
        !before.contains_key(id),
    ensures
        before.insert(id, strategy).remove(id) == before,
{
    assert(before.insert(id, strategy).remove(id) =~= before);
}

/// A handle that has been destroyed names no engine any more, so
/// destroying it again reports that there was none.
pub proof fn lemma_remove_is_final<S>(before: Map<i32, S>, id: i32)
    ensures
        !before.remove(id).contains_key(id),
        before.remove(id).remove(id) == before.remove(id),
{
    assert(before.remove(id).remove(id) =~= before.remove(id));
}

} // verus!
