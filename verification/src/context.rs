//! Reactive context: provide and read signal-backed shared state.
//!
//! A [`ContextHandle`] is the slot of one context value: an optional value
//! and the signal its readers depend on. Providing a value stores it and
//! always wakes the readers, so that readers created before the value was
//! provided refresh; setting a value wakes them only when it changed. The
//! host keeps one slot per context type.
use vstd::prelude::*;

use crate::runtime::{ReactiveRuntime, RuntimeView, SignalId, SignalNotifications};
use crate::signal::{Signal, set_outcome};

verus! {

/// The slot of a context value.
pub struct ContextHandle<T> {
    slot: Signal<Option<T>>,
}

impl<T> ContextHandle<T> {
    /// The provided value, if any.
    pub closed spec fn spec_value(&self) -> Option<T> {
        self.slot.spec_value()
    }

    /// The identity of the slot's signal.
    pub closed spec fn spec_id(&self) -> SignalId {
        self.slot.spec_id()
    }

    /// Create an empty slot with a fresh signal.
    pub fn new(rt: &mut ReactiveRuntime) -> (h: Self)
        requires
            old(rt).wf(),
            old(rt)@.next_signal < u64::MAX,
        ensures
            final(rt).wf(),
            h.spec_value() is None,
            h.spec_id() == SignalId(old(rt)@.next_signal),
            final(rt)@ == (RuntimeView { next_signal: (old(rt)@.next_signal + 1) as u64, ..old(rt)@ }),
    {
        ContextHandle { slot: Signal::new(rt, None) }
    }

    /// The identity of the slot's signal.
    pub fn signal_id(&self) -> (id: SignalId)
        ensures
            id == self.spec_id(),
    {
        self.slot.id()
    }

    /// Replace the context value; readers are notified only when it changed.
    pub fn set(&mut self, rt: &mut ReactiveRuntime, value: T) -> (n: SignalNotifications) where
        T: PartialEq,
        requires
            old(rt).wf(),
        ensures
            final(rt).wf(),
            final(self).spec_id() == old(self).spec_id(),
            set_outcome(
                old(self).spec_value(),
                final(self).spec_value(),
                Some(value),
                old(rt)@,
                final(rt)@,
                old(self).spec_id(),
                n,
            ),
    {
        self.slot.set(rt, Some(value))
    }
}

/// Provide the context value `value` in `handle`'s slot and notify its
/// readers, whether or not the value changed.
pub fn provide_context<T>(rt: &mut ReactiveRuntime, handle: &mut ContextHandle<T>, value: T) -> (n:
    SignalNotifications)
    requires
        old(rt).wf(),
    ensures
        final(rt).wf(),
        final(handle).spec_id() == old(handle).spec_id(),
        final(handle).spec_value() == Some(value),
        old(rt)@.notified(final(rt)@, old(handle).spec_id(), n),
{
    handle.slot.set_silent(Some(value));
    handle.slot.notify(rt)
}

/// Read the context value with dependency tracking; `None` when nothing was
/// provided.
pub fn use_context<T: Clone>(rt: &mut ReactiveRuntime, handle: &ContextHandle<T>) -> (v: Option<T>)
    requires
        old(rt).wf(),
    ensures
        final(rt).wf(),
        final(rt)@ == old(rt)@.after_track(handle.spec_id()),
        match handle.spec_value() {
            Some(x) => v is Some && cloned(x, v->0),
            None => v is None,
        },
{
    match handle.slot.read(rt) {
        Some(x) => Some(x.clone()),
        None => None,
    }
}

} // verus!
