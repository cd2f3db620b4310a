//! Reactive values.
//!
//! A [`Signal`] owns one value together with its runtime identity. Reads
//! through [`Signal::read`] or [`Signal::get`] are recorded as dependencies of
//! the innermost tracking scope; writes through [`Signal::set`] or
//! [`Signal::update`] wake the signal's observers. The `*_silent` writes and
//! the `peek` reads touch neither.
use vstd::prelude::*;

use crate::runtime::{ReactiveRuntime, RuntimeView, SignalId, SignalNotifications};
use crate::shared::{ReadSignal, SignalStore, WriteSignal};
use vstd::std_specs::cmp::PartialEqSpec;

verus! {

/// A read/write reactive value.
///
/// A signal is shallow: the runtime tracks reads and writes of the signal as a
/// whole, not of fields inside `T`.
pub struct Signal<T> {
    id: SignalId,
    value: T,
}

/// What a write that may or may not change a signal does: when `changed`, the
/// observers are woken as [`RuntimeView::notified`] says; otherwise nothing
/// happens and nothing is woken.
pub open spec fn written(
    pre: RuntimeView,
    post: RuntimeView,
    id: SignalId,
    changed: bool,
    n: SignalNotifications,
) -> bool {
    if changed {
        pre.notified(post, id, n)
    } else {
        post == pre && n.spec_is_empty()
    }
}

/// What `set` does: a value equal to the current one leaves the signal and
/// the runtime alone; any other value is stored and wakes the observers. When
/// `T`'s equality is not specified, one of the two happens.
pub open spec fn set_outcome<T: PartialEq>(
    before: T,
    after: T,
    value: T,
    pre: RuntimeView,
    post: RuntimeView,
    id: SignalId,
    n: SignalNotifications,
) -> bool {
    let unchanged = after == before && written(pre, post, id, false, n);
    let changed = after == value && written(pre, post, id, true, n);
    if T::obeys_eq_spec() {
        if before.eq_spec(&value) {
            unchanged
        } else {
            changed
        }
    } else {
        unchanged || changed
    }
}

impl<T> Signal<T> {
    /// The runtime identity of this signal.
    pub closed spec fn spec_id(&self) -> SignalId {
        self.id
    }

    /// The current value of this signal.
    pub closed spec fn spec_value(&self) -> T {
        self.value
    }

    /// Create a signal and allocate its runtime identity.
    pub fn new(rt: &mut ReactiveRuntime, value: T) -> (s: Self)
        requires
            old(rt).wf(),
            old(rt)@.next_signal < u64::MAX,
        ensures
            final(rt).wf(),
            s.spec_id() == SignalId(old(rt)@.next_signal),
            s.spec_value() == value,
            final(rt)@ == (RuntimeView { next_signal: (old(rt)@.next_signal + 1) as u64, ..old(rt)@ }),
    {
        let id = rt.allocate_signal();
        Signal { id, value }
    }

    /// Return this signal's runtime identity.
    pub fn id(&self) -> (id: SignalId)
        ensures
            id == self.spec_id(),
    {
        self.id
    }

    /// Read with dependency tracking and without cloning.
    pub fn read<'a>(&'a self, rt: &mut ReactiveRuntime) -> (v: &'a T)
        requires
            old(rt).wf(),
        ensures
            final(rt).wf(),
            *v == self.spec_value(),
            final(rt)@ == old(rt)@.after_track(self.spec_id()),
    {
        rt.track_signal(self.id);
        &self.value
    }

    /// Read without dependency tracking and without cloning.
    pub fn peek(&self) -> (v: &T)
        ensures
            *v == self.spec_value(),
    {
        &self.value
    }

    /// Wake this signal's observers without changing its value.
    pub(crate) fn notify(&self, rt: &mut ReactiveRuntime) -> (n: SignalNotifications)
        requires
            old(rt).wf(),
        ensures
            final(rt).wf(),
            old(rt)@.notified(final(rt)@, self.spec_id(), n),
    {
        rt.notify_signal(self.id)
    }

    /// Replace the value without notifying, returning the previous value.
    pub(crate) fn swap_silent(&mut self, value: T) -> (previous: T)
        ensures
            previous == old(self).spec_value(),
            final(self).spec_value() == value,
            final(self).spec_id() == old(self).spec_id(),
    {
        let mut value = value;
        std::mem::swap(&mut self.value, &mut value);
        value
    }

    /// Set the signal and notify dependents when the value changed.
    pub fn set(&mut self, rt: &mut ReactiveRuntime, value: T) -> (n: SignalNotifications) where
        T: PartialEq,
        requires
            old(rt).wf(),
        ensures
            final(rt).wf(),
            final(self).spec_id() == old(self).spec_id(),
            set_outcome(
                old(self).spec_value(),
                final(self).spec_value(),
                value,
                old(rt)@,
                final(rt)@,
                old(self).spec_id(),
                n,
            ),
    {
        if self.value == value {
            return SignalNotifications::empty();
        }
        self.value = value;
        rt.notify_signal(self.id)
    }

    /// Mutate the signal and notify dependents when asked to.
    ///
    /// `update` receives the current value and returns the new value together
    /// with whether dependents should be notified. This keeps the API useful
    /// for values without `PartialEq` and avoids comparing large snapshots.
    pub fn update(
        &mut self,
        rt: &mut ReactiveRuntime,
        update: impl FnOnce(&T) -> (T, bool),
    ) -> (n: SignalNotifications)
        requires
            old(rt).wf(),
            call_requires(update, (&old(self).spec_value(),)),
        ensures
            final(rt).wf(),
            final(self).spec_id() == old(self).spec_id(),
            exists|r: (T, bool)|
                {
                    &&& #[trigger] call_ensures(update, (&old(self).spec_value(),), r)
                    &&& final(self).spec_value() == r.0
                    &&& written(old(rt)@, final(rt)@, old(self).spec_id(), r.1, n)
                },
    {
        let r = update(&self.value);
        let ghost witness = r;
        let (value, changed) = r;
        self.value = value;
        let n = if changed {
            rt.notify_signal(self.id)
        } else {
            SignalNotifications::empty()
        };
        proof {
            assert(call_ensures(update, (&old(self).spec_value(),), witness));
        }
        n
    }

    /// Mutate the signal without notifying dependents.
    ///
    /// Use this when an effect needs to write back to a signal it also reads,
    /// or for internal state that should not trigger a refresh on its own.
    pub fn update_silent(&mut self, f: impl FnOnce(&T) -> T)
        requires
            call_requires(f, (&old(self).spec_value(),)),
        ensures
            final(self).spec_id() == old(self).spec_id(),
            call_ensures(f, (&old(self).spec_value(),), final(self).spec_value()),
    {
        self.value = f(&self.value);
    }

    /// Set the signal value without notifying dependents.
    pub fn set_silent(&mut self, value: T)
        ensures
            final(self).spec_id() == old(self).spec_id(),
            final(self).spec_value() == value,
    {
        self.value = value;
    }
    /// Split the signal into a read handle and a write handle of it. Its
    /// value moves into `store`, where both handles reach it: what the write
    /// handle writes is what the read handle reads.
    pub fn split(self, store: &mut SignalStore<T>) -> (handles: (ReadSignal<T>, WriteSignal<T>))
        requires
            old(store).wf(),
        ensures
            final(store).wf(),
            final(store).stored(old(store), self.spec_id(), self.spec_value()),
            handles.0.spec_id() == self.spec_id(),
            handles.1.spec_id() == self.spec_id(),
    {
        let id = self.id;
        store.insert(self);
        (ReadSignal::new(id), WriteSignal::new(id))
    }
}

impl<T: Clone> Signal<T> {
    /// Clone the current value with dependency tracking.
    pub fn get(&self, rt: &mut ReactiveRuntime) -> (v: T)
        requires
            old(rt).wf(),
        ensures
            final(rt).wf(),
            cloned(self.spec_value(), v),
            final(rt)@ == old(rt)@.after_track(self.spec_id()),
    {
        rt.track_signal(self.id);
        self.value.clone()
    }

    /// Clone the current value without dependency tracking.
    pub fn get_untracked(&self) -> (v: T)
        ensures
            cloned(self.spec_value(), v),
    {
        self.value.clone()
    }
}

} // verus!
