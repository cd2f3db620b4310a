//! Derived values.
//!
//! A [`Memo`] is a signal whose value is recomputed from other signals. A
//! memo made with [`Memo::new`] is driven by an effect: the host keeps the
//! compute function under the memo's effect identity and, whenever that
//! effect is woken, stores the recomputed value with [`Memo::refresh`], which
//! notifies readers only when the value changed. The models of this crate
//! keep their own derived flags up to date directly.
use vstd::prelude::*;

use crate::runtime::{EffectId, ReactiveRuntime, RuntimeView, SignalId, SignalNotifications};
use crate::signal::{Signal, set_outcome};

verus! {

/// A signal-backed derived value.
pub struct Memo<T> {
    signal: Signal<T>,
    effect: Option<EffectId>,
}

impl<T> Memo<T> {
    /// The current value.
    pub closed spec fn spec_value(&self) -> T {
        self.signal.spec_value()
    }

    /// The identity of the memo's signal.
    pub closed spec fn spec_id(&self) -> SignalId {
        self.signal.spec_id()
    }

    /// The effect that recomputes the memo, if the host drives it.
    pub closed spec fn spec_effect(&self) -> Option<EffectId> {
        self.effect
    }

    /// Create a memo holding `initial`, the first result of its compute
    /// function, and register the effect that recomputes it.
    pub fn new(rt: &mut ReactiveRuntime, initial: T) -> (m: Self)
        requires
            old(rt).wf(),
            old(rt)@.next_signal < u64::MAX,
            old(rt)@.next_effect < u64::MAX,
        ensures
            final(rt).wf(),
            m.spec_value() == initial,
            m.spec_id() == SignalId(old(rt)@.next_signal),
            m.spec_effect() == Some(EffectId(old(rt)@.next_effect)),
            !old(rt)@.effects.contains(EffectId(old(rt)@.next_effect)),
            final(rt)@ == (RuntimeView {
                next_signal: (old(rt)@.next_signal + 1) as u64,
                next_effect: (old(rt)@.next_effect + 1) as u64,
                effects: old(rt)@.effects.insert(EffectId(old(rt)@.next_effect)),
                ..old(rt)@
            }),
    {
        let signal = Signal::new(rt, initial);
        let effect = rt.insert_effect();
        Memo { signal, effect: Some(effect) }
    }

    /// A memo kept up to date by its owner rather than by an effect.
    pub(crate) fn maintained(rt: &mut ReactiveRuntime, initial: T) -> (m: Self)
        requires
            old(rt).wf(),
            old(rt)@.next_signal < u64::MAX,
        ensures
            final(rt).wf(),
            m.spec_value() == initial,
            m.spec_id() == SignalId(old(rt)@.next_signal),
            m.spec_effect() == None::<EffectId>,
            final(rt)@ == (RuntimeView { next_signal: (old(rt)@.next_signal + 1) as u64, ..old(rt)@ }),
    {
        Memo { signal: Signal::new(rt, initial), effect: None }
    }

    /// Return this memo's signal.
    pub fn signal(&self) -> (s: &Signal<T>)
        ensures
            s.spec_id() == self.spec_id(),
            s.spec_value() == self.spec_value(),
    {
        &self.signal
    }

    /// Return the effect that recomputes this memo, if any.
    pub fn effect(&self) -> (e: Option<EffectId>)
        ensures
            e == self.spec_effect(),
    {
        self.effect
    }

    /// Read the memo with dependency tracking and without cloning.
    pub fn read<'a>(&'a self, rt: &mut ReactiveRuntime) -> (v: &'a T)
        requires
            old(rt).wf(),
        ensures
            final(rt).wf(),
            *v == self.spec_value(),
            final(rt)@ == old(rt)@.after_track(self.spec_id()),
    {
        self.signal.read(rt)
    }

    /// Store a recomputed value; readers are notified only when it changed.
    pub fn refresh(&mut self, rt: &mut ReactiveRuntime, value: T) -> (n: SignalNotifications) where
        T: PartialEq,
        requires
            old(rt).wf(),
        ensures
            final(rt).wf(),
            final(self).spec_id() == old(self).spec_id(),
            final(self).spec_effect() == old(self).spec_effect(),
            set_outcome(
                old(self).spec_value(),
                final(self).spec_value(),
                value,
                old(rt)@,
                final(rt)@,
                old(self).spec_id(),
                n,
            ),
    {
        self.signal.set(rt, value)
    }
}

impl Memo<bool> {
    /// Store `value` without notifying; returns whether it differs from the
    /// previous value.
    pub(crate) fn store(&mut self, value: bool) -> (changed: bool)
        ensures
            final(self).spec_id() == old(self).spec_id(),
            final(self).spec_effect() == old(self).spec_effect(),
            final(self).spec_value() == value,
            changed == (old(self).spec_value() != value),
    {
        let changed = *self.signal.peek() != value;
        self.signal.set_silent(value);
        changed
    }
}

impl Memo<usize> {
    /// Store `value` without notifying; returns whether it differs from the
    /// previous value.
    pub(crate) fn store(&mut self, value: usize) -> (changed: bool)
        ensures
            final(self).spec_id() == old(self).spec_id(),
            final(self).spec_effect() == old(self).spec_effect(),
            final(self).spec_value() == value,
            changed == (old(self).spec_value() != value),
    {
        let changed = *self.signal.peek() != value;
        self.signal.set_silent(value);
        changed
    }
}

impl<T: Clone> Memo<T> {
    /// Clone the memo value with dependency tracking.
    pub fn get(&self, rt: &mut ReactiveRuntime) -> (v: T)
        requires
            old(rt).wf(),
        ensures
            final(rt).wf(),
            cloned(self.spec_value(), v),
            final(rt)@ == old(rt)@.after_track(self.spec_id()),
    {
        self.signal.get(rt)
    }

    /// Clone the memo value without dependency tracking.
    pub fn get_untracked(&self) -> (v: T)
        ensures
            cloned(self.spec_value(), v),
    {
        self.signal.get_untracked()
    }
}

} // verus!
