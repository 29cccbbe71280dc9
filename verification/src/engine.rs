use vstd::prelude::*;

use crate::registry::{call_step, EngineRegistry, RegistryCall};
use crate::types::Signal;

verus! {

/// What an engine is asked when a caller polls it for a symbol's signal.
/// `answer` is the signal an engine in a given state gives for a symbol;
/// polling gives exactly that and leaves the engine as it was.  The
/// library's implementation is `SignalBook`'s, which answers its
/// `signal_for`.
pub trait SignalSource: Sized {
    spec fn answer(&self, symbol: Seq<char>) -> Signal;

    fn signal(&mut self, symbol: &str) -> (s: Signal)
        ensures
            s == old(self).answer(symbol@),
            *final(self) == *old(self),
    ;
}

/// Creates the registry if there is none yet; an existing one is kept as it is.
pub fn init_registry<S>(reg: &mut Option<EngineRegistry<S>>)
    requires
        *old(reg) matches Some(r) ==> r.wf(),
    ensures
        match *old(reg) {
            Some(r) => *final(reg) == Some(r),
            None => *final(reg) matches Some(r) && r@ == Map::<i32, S>::empty() && r.next_handle()
                == 1,
        },
        *final(reg) matches Some(r) && r.wf(),
{
    if reg.is_none() {
        *reg = Some(EngineRegistry::new());
    }
}

/// Registers `strategy` and returns its handle.
pub fn create_engine<S>(reg: &mut Option<EngineRegistry<S>>, strategy: S) -> (id: i32)
    requires
        *old(reg) matches Some(r) && r.wf() && r.next_handle() < i32::MAX,
    ensures
        *final(reg) matches Some(r) && r.wf(),
        id == old(reg).unwrap().next_handle(),
        !old(reg).unwrap()@.contains_key(id),
        final(reg).unwrap()@ == old(reg).unwrap()@.insert(id, strategy),
        final(reg).unwrap().next_handle() == id + 1,
        call_step(old(reg).unwrap(), RegistryCall::Register(id), final(reg).unwrap()),
{
    match reg {
        Some(r) => r.register(strategy),
        None => 0,
    }
}

/// Drops the engine under `handle`; says whether there was one.
pub fn destroy_engine<S>(reg: &mut Option<EngineRegistry<S>>, handle: i32) -> (removed: bool)
    requires
        *old(reg) matches Some(r) && r.wf(),
    ensures
        *final(reg) matches Some(r) && r.wf(),
        removed == old(reg).unwrap()@.contains_key(handle),
        final(reg).unwrap()@ == old(reg).unwrap()@.remove(handle),
        final(reg).unwrap().next_handle() == old(reg).unwrap().next_handle(),
        call_step(old(reg).unwrap(), RegistryCall::Remove(handle), final(reg).unwrap()),
{
    match reg {
        Some(r) => r.remove(handle),
        None => false,
    }
}

/// Asks the engine under `handle` for the signal of `symbol`; an unknown
/// handle gives `Signal::Error`.  No engine changes, so polling twice
/// gives the same answer twice.
pub fn get_signal<S: SignalSource>(reg: &mut Option<EngineRegistry<S>>, handle: i32, symbol: &str) -> (sig: Signal)
    requires
        *old(reg) matches Some(r) && r.wf(),
    ensures
        *final(reg) matches Some(r) && r.wf(),
        final(reg).unwrap().next_handle() == old(reg).unwrap().next_handle(),
        final(reg).unwrap()@ == old(reg).unwrap()@,
        !old(reg).unwrap()@.contains_key(handle) ==> sig == Signal::Error,
        old(reg).unwrap()@.contains_key(handle) ==> sig == old(reg).unwrap()@[handle].answer(symbol@),
        call_step(old(reg).unwrap(), RegistryCall::Access(handle), final(reg).unwrap()),
{
    match reg {
        Some(r) => match r.get_mut(handle) {
            Some(engine) => engine.signal(symbol),
            None => Signal::Error,
        },
        None => Signal::Error,
    }
}

} // verus!

verus! {

/// Hands the engine under `handle` to `event` and returns what `event`
/// answers; an unknown handle gives `Signal::Error` and calls nothing.
/// Only that engine can change.
pub fn dispatch<S, F: FnOnce(&mut S) -> Signal>(
    reg: &mut Option<EngineRegistry<S>>,
    handle: i32,
    event: F,
) -> (sig: Signal)
    requires
        *old(reg) matches Some(r) && r.wf(),
        forall|e: &mut S| #[trigger] call_requires(event, (e,)),
    ensures
        *final(reg) matches Some(r) && r.wf(),
        final(reg).unwrap()@.dom() == old(reg).unwrap()@.dom(),
        forall|h: i32| h != handle ==> #[trigger] final(reg).unwrap()@.get(h) == old(reg).unwrap()@.get(h),
        !old(reg).unwrap()@.contains_key(handle) ==> sig == Signal::Error && final(reg).unwrap()@ == old(reg).unwrap()@,
        old(reg).unwrap()@.contains_key(handle) ==> exists|e: &mut S|
            *e == old(reg).unwrap()@[handle] && *final(e) == final(reg).unwrap()@[handle]
                && #[trigger] call_ensures(event, (e,), sig),
        call_step(old(reg).unwrap(), RegistryCall::Access(handle), final(reg).unwrap()),
{
    match reg {
        Some(r) => match r.get_mut(handle) {
            Some(engine) => event(engine),
            None => Signal::Error,
        },
        None => Signal::Error,
    }
}

} // verus!
