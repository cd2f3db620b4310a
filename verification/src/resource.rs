//! Signal-backed state of an asynchronously loaded value.
//!
//! A [`Resource`] couples a [`ResourceState`] signal with a load generation.
//! Starting a load ([`Resource::begin_load`]) bumps the generation and moves
//! the state to `Pending` or `Reloading`; the host runs the load and hands the
//! result to [`Resource::complete`], which commits it only when no newer load
//! and no cancellation happened in between.
use vstd::prelude::*;

use crate::runtime::{ReactiveRuntime, RuntimeView, SignalId, SignalNotifications};
use crate::signal::{Signal, written};

verus! {

/// Current state of an asynchronous or externally loaded value.
#[derive(Debug, Clone, PartialEq, Eq)]
pub enum ResourceState<T, E> {
    /// The value is loading.
    Pending,
    /// A new value is loading while the previous ready value remains usable.
    Reloading(T),
    /// The value is available.
    Ready(T),
    /// Loading failed.
    Error(E),
}

/// Whether `b` is a clone of `a`, payload by payload.
pub open spec fn cloned_state<T: Clone, E: Clone>(a: ResourceState<T, E>, b: ResourceState<T, E>) -> bool {
    match (a, b) {
        (ResourceState::Pending, ResourceState::Pending) => true,
        (ResourceState::Reloading(x), ResourceState::Reloading(y)) => cloned(x, y),
        (ResourceState::Ready(x), ResourceState::Ready(y)) => cloned(x, y),
        (ResourceState::Error(x), ResourceState::Error(y)) => cloned(x, y),
        _ => false,
    }
}

impl<T, E> ResourceState<T, E> {
    /// The latest usable value, including one retained while reloading.
    pub open spec fn spec_latest(self) -> Option<T> {
        match self {
            ResourceState::Reloading(v) => Some(v),
            ResourceState::Ready(v) => Some(v),
            _ => None,
        }
    }

    /// The current error.
    pub open spec fn spec_error(self) -> Option<E> {
        match self {
            ResourceState::Error(e) => Some(e),
            _ => None,
        }
    }

    /// Return whether the resource has no current value and is loading.
    pub fn is_pending(&self) -> (b: bool)
        ensures
            b == (*self is Pending),
    {
        matches!(self, ResourceState::Pending)
    }

    /// Return whether the resource is loading while retaining a previous value.
    pub fn is_reloading(&self) -> (b: bool)
        ensures
            b == (*self is Reloading),
    {
        matches!(self, ResourceState::Reloading(_))
    }

    /// Return whether the resource is currently loading.
    pub fn is_loading(&self) -> (b: bool)
        ensures
            b == (*self is Pending || *self is Reloading),
    {
        matches!(self, ResourceState::Pending | ResourceState::Reloading(_))
    }

    /// Return whether the resource has a ready value.
    pub fn is_ready(&self) -> (b: bool)
        ensures
            b == (*self is Ready),
    {
        matches!(self, ResourceState::Ready(_))
    }

    /// Return whether the resource has a latest usable value.
    pub fn has_latest(&self) -> (b: bool)
        ensures
            b == (*self is Reloading || *self is Ready),
            b == self.spec_latest().is_some(),
    {
        matches!(self, ResourceState::Reloading(_) | ResourceState::Ready(_))
    }

    /// Return whether the resource has an error.
    pub fn is_error(&self) -> (b: bool)
        ensures
            b == (*self is Error),
    {
        matches!(self, ResourceState::Error(_))
    }

    /// Borrow the latest available value, including retained values while reloading.
    pub fn latest(&self) -> (v: Option<&T>)
        ensures
            match (v, self.spec_latest()) {
                (Some(a), Some(b)) => *a == b,
                (None, None) => true,
                _ => false,
            },
    {
        match self {
            ResourceState::Reloading(value) => Some(value),
            ResourceState::Ready(value) => Some(value),
            ResourceState::Pending => None,
            ResourceState::Error(_) => None,
        }
    }

    /// Borrow the current error, if any.
    pub fn error(&self) -> (e: Option<&E>)
        ensures
            match (e, self.spec_error()) {
                (Some(a), Some(b)) => *a == b,
                (None, None) => true,
                _ => false,
            },
    {
        match self {
            ResourceState::Error(error) => Some(error),
            _ => None,
        }
    }

    /// Fold the state into pending, latest-value, and error branches.
    ///
    /// `Reloading` and `Ready` both call `latest`; the boolean passed to
    /// `latest` is `true` when a refresh is in progress.
    pub fn fold_latest<R>(
        &self,
        pending: impl FnOnce() -> R,
        latest: impl FnOnce(&T, bool) -> R,
        error: impl FnOnce(&E) -> R,
    ) -> (r: R)
        requires
            match *self {
                ResourceState::Pending => call_requires(pending, ()),
                ResourceState::Reloading(v) => call_requires(latest, (&v, true)),
                ResourceState::Ready(v) => call_requires(latest, (&v, false)),
                ResourceState::Error(e) => call_requires(error, (&e,)),
            },
        ensures
            match *self {
                ResourceState::Pending => call_ensures(pending, (), r),
                ResourceState::Reloading(v) => call_ensures(latest, (&v, true), r),
                ResourceState::Ready(v) => call_ensures(latest, (&v, false), r),
                ResourceState::Error(e) => call_ensures(error, (&e,), r),
            },
    {
        match self {
            ResourceState::Pending => pending(),
            ResourceState::Reloading(value) => latest(value, true),
            ResourceState::Ready(value) => latest(value, false),
            ResourceState::Error(err) => error(err),
        }
    }
}

impl<T: Clone, E: Clone> ResourceState<T, E> {
    /// Clone the state payload by payload.
    pub fn snapshot(&self) -> (s: Self)
        ensures
            cloned_state(*self, s),
    {
        match self {
            ResourceState::Pending => ResourceState::Pending,
            ResourceState::Reloading(v) => ResourceState::Reloading(v.clone()),
            ResourceState::Ready(v) => ResourceState::Ready(v.clone()),
            ResourceState::Error(e) => ResourceState::Error(e.clone()),
        }
    }
}

/// How a load treats the current value.
#[derive(Clone, Copy, Debug, PartialEq, Eq)]
pub enum LoadMode {
    /// Reset to `Pending`.
    Reset,
    /// Keep a ready or retained value visible as `Reloading`.
    RetainLatest,
}

/// The state a load starts from, and whether the change is visible.
pub open spec fn load_start<T, E>(mode: LoadMode, state: ResourceState<T, E>) -> (
    ResourceState<T, E>,
    bool,
) {
    match mode {
        LoadMode::Reset => (ResourceState::Pending, !(state is Pending)),
        LoadMode::RetainLatest => match state {
            ResourceState::Ready(v) => (ResourceState::Reloading(v), true),
            ResourceState::Reloading(v) => (ResourceState::Reloading(v), false),
            ResourceState::Pending => (ResourceState::Pending, false),
            ResourceState::Error(_) => (ResourceState::Pending, true),
        },
    }
}

/// The state committed by a load result.
pub open spec fn committed<T, E>(result: Result<T, E>) -> ResourceState<T, E> {
    match result {
        Ok(v) => ResourceState::Ready(v),
        Err(e) => ResourceState::Error(e),
    }
}

/// Signal-backed resource state.
///
/// This type is UI-agnostic: higher layers decide how to render pending,
/// reloading, ready, and error states.
pub struct Resource<T, E> {
    state: Signal<ResourceState<T, E>>,
    generation: u64,
}

impl<T, E> Resource<T, E> {
    /// The current state.
    pub closed spec fn spec_state(&self) -> ResourceState<T, E> {
        self.state.spec_value()
    }

    /// The identity of the state signal.
    pub closed spec fn spec_id(&self) -> SignalId {
        self.state.spec_id()
    }

    /// The generation of the latest load or cancellation.
    pub closed spec fn spec_generation(&self) -> u64 {
        self.generation
    }

    fn with_state(rt: &mut ReactiveRuntime, state: ResourceState<T, E>) -> (r: Self)
        requires
            old(rt).wf(),
            old(rt)@.next_signal < u64::MAX,
        ensures
            final(rt).wf(),
            r.spec_state() == state,
            r.spec_generation() == 0,
            r.spec_id() == SignalId(old(rt)@.next_signal),
            final(rt)@ == (RuntimeView { next_signal: (old(rt)@.next_signal + 1) as u64, ..old(rt)@ }),
    {
        Resource { state: Signal::new(rt, state), generation: 0 }
    }

    /// Create a pending resource.
    pub fn pending(rt: &mut ReactiveRuntime) -> (r: Self)
        requires
            old(rt).wf(),
            old(rt)@.next_signal < u64::MAX,
        ensures
            final(rt).wf(),
            r.spec_state() == ResourceState::<T, E>::Pending,
            r.spec_generation() == 0,
            r.spec_id() == SignalId(old(rt)@.next_signal),
            final(rt)@ == (RuntimeView { next_signal: (old(rt)@.next_signal + 1) as u64, ..old(rt)@ }),
    {
        Self::with_state(rt, ResourceState::Pending)
    }

    /// Create a ready resource.
    pub fn ready(rt: &mut ReactiveRuntime, value: T) -> (r: Self)
        requires
            old(rt).wf(),
            old(rt)@.next_signal < u64::MAX,
        ensures
            final(rt).wf(),
            r.spec_state() == ResourceState::<T, E>::Ready(value),
            r.spec_generation() == 0,
            r.spec_id() == SignalId(old(rt)@.next_signal),
            final(rt)@ == (RuntimeView { next_signal: (old(rt)@.next_signal + 1) as u64, ..old(rt)@ }),
    {
        Self::with_state(rt, ResourceState::Ready(value))
    }

    /// Create a failed resource.
    pub fn error(rt: &mut ReactiveRuntime, error: E) -> (r: Self)
        requires
            old(rt).wf(),
            old(rt)@.next_signal < u64::MAX,
        ensures
            final(rt).wf(),
            r.spec_state() == ResourceState::<T, E>::Error(error),
            r.spec_generation() == 0,
            r.spec_id() == SignalId(old(rt)@.next_signal),
            final(rt)@ == (RuntimeView { next_signal: (old(rt)@.next_signal + 1) as u64, ..old(rt)@ }),
    {
        Self::with_state(rt, ResourceState::Error(error))
    }

    /// Return the state signal.
    pub fn signal(&self) -> (s: &Signal<ResourceState<T, E>>)
        ensures
            s.spec_id() == self.spec_id(),
            s.spec_value() == self.spec_state(),
    {
        &self.state
    }

    /// The generation of the latest load or cancellation.
    pub fn generation(&self) -> (g: u64)
        ensures
            g == self.spec_generation(),
    {
        self.generation
    }

    /// Read the state with dependency tracking and without cloning.
    pub fn read<'a>(&'a self, rt: &mut ReactiveRuntime) -> (s: &'a ResourceState<T, E>)
        requires
            old(rt).wf(),
        ensures
            final(rt).wf(),
            *s == self.spec_state(),
            final(rt)@ == old(rt)@.after_track(self.spec_id()),
    {
        self.state.read(rt)
    }

    /// Read the latest available value with dependency tracking.
    pub fn read_latest<'a>(&'a self, rt: &mut ReactiveRuntime) -> (v: Option<&'a T>)
        requires
            old(rt).wf(),
        ensures
            final(rt).wf(),
            final(rt)@ == old(rt)@.after_track(self.spec_id()),
            match (v, self.spec_state().spec_latest()) {
                (Some(a), Some(b)) => *a == b,
                (None, None) => true,
                _ => false,
            },
    {
        self.read(rt).latest()
    }

    /// Read the current error with dependency tracking.
    pub fn read_error<'a>(&'a self, rt: &mut ReactiveRuntime) -> (e: Option<&'a E>)
        requires
            old(rt).wf(),
        ensures
            final(rt).wf(),
            final(rt)@ == old(rt)@.after_track(self.spec_id()),
            match (e, self.spec_state().spec_error()) {
                (Some(a), Some(b)) => *a == b,
                (None, None) => true,
                _ => false,
            },
    {
        self.read(rt).error()
    }

    /// Return whether the resource has no current value and is loading.
    pub fn is_pending(&self, rt: &mut ReactiveRuntime) -> (b: bool)
        requires
            old(rt).wf(),
        ensures
            final(rt).wf(),
            final(rt)@ == old(rt)@.after_track(self.spec_id()),
            b == (self.spec_state() is Pending),
    {
        self.read(rt).is_pending()
    }

    /// Return whether the resource is loading while retaining a previous value.
    pub fn is_reloading(&self, rt: &mut ReactiveRuntime) -> (b: bool)
        requires
            old(rt).wf(),
        ensures
            final(rt).wf(),
            final(rt)@ == old(rt)@.after_track(self.spec_id()),
            b == (self.spec_state() is Reloading),
    {
        self.read(rt).is_reloading()
    }

    /// Return whether the resource is currently loading.
    pub fn is_loading(&self, rt: &mut ReactiveRuntime) -> (b: bool)
        requires
            old(rt).wf(),
        ensures
            final(rt).wf(),
            final(rt)@ == old(rt)@.after_track(self.spec_id()),
            b == (self.spec_state() is Pending || self.spec_state() is Reloading),
    {
        self.read(rt).is_loading()
    }

    /// Return whether the resource has a ready value.
    pub fn is_ready(&self, rt: &mut ReactiveRuntime) -> (b: bool)
        requires
            old(rt).wf(),
        ensures
            final(rt).wf(),
            final(rt)@ == old(rt)@.after_track(self.spec_id()),
            b == (self.spec_state() is Ready),
    {
        self.read(rt).is_ready()
    }

    /// Return whether the resource has a latest usable value.
    pub fn has_latest(&self, rt: &mut ReactiveRuntime) -> (b: bool)
        requires
            old(rt).wf(),
        ensures
            final(rt).wf(),
            final(rt)@ == old(rt)@.after_track(self.spec_id()),
            b == self.spec_state().spec_latest().is_some(),
    {
        self.read(rt).has_latest()
    }

    /// Return whether the resource has an error.
    pub fn is_error(&self, rt: &mut ReactiveRuntime) -> (b: bool)
        requires
            old(rt).wf(),
        ensures
            final(rt).wf(),
            final(rt)@ == old(rt)@.after_track(self.spec_id()),
            b == (self.spec_state() is Error),
    {
        self.read(rt).is_error()
    }

    /// Read the state and fold it into pending, latest-value, and error branches.
    pub fn fold_latest<R>(
        &self,
        rt: &mut ReactiveRuntime,
        pending: impl FnOnce() -> R,
        latest: impl FnOnce(&T, bool) -> R,
        error: impl FnOnce(&E) -> R,
    ) -> (r: R)
        requires
            old(rt).wf(),
            match self.spec_state() {
                ResourceState::Pending => call_requires(pending, ()),
                ResourceState::Reloading(v) => call_requires(latest, (&v, true)),
                ResourceState::Ready(v) => call_requires(latest, (&v, false)),
                ResourceState::Error(e) => call_requires(error, (&e,)),
            },
        ensures
            final(rt).wf(),
            final(rt)@ == old(rt)@.after_track(self.spec_id()),
            match self.spec_state() {
                ResourceState::Pending => call_ensures(pending, (), r),
                ResourceState::Reloading(v) => call_ensures(latest, (&v, true), r),
                ResourceState::Ready(v) => call_ensures(latest, (&v, false), r),
                ResourceState::Error(e) => call_ensures(error, (&e,), r),
            },
    {
        self.read(rt).fold_latest(pending, latest, error)
    }

    /// Move to `Pending` without notifying; returns whether the state changed.
    pub(crate) fn apply_pending(&mut self) -> (changed: bool)
        ensures
            final(self).spec_state() == ResourceState::<T, E>::Pending,
            final(self).spec_id() == old(self).spec_id(),
            final(self).spec_generation() == old(self).spec_generation(),
            changed == !(old(self).spec_state() is Pending),
    {
        if self.state.peek().is_pending() {
            return false;
        }
        self.state.set_silent(ResourceState::Pending);
        true
    }

    /// Store a value or an error without notifying.
    pub(crate) fn apply_state(&mut self, state: ResourceState<T, E>)
        ensures
            final(self).spec_state() == state,
            final(self).spec_id() == old(self).spec_id(),
            final(self).spec_generation() == old(self).spec_generation(),
    {
        self.state.set_silent(state);
    }

    /// Cancel and restore a retained value without notifying; returns whether
    /// the state changed.
    pub(crate) fn apply_cancel_to_latest(&mut self) -> (changed: bool)
        ensures
            final(self).spec_id() == old(self).spec_id(),
            final(self).spec_generation() == old(self).spec_generation().wrapping_add(1),
            final(self).spec_state() == (match old(self).spec_state() {
                ResourceState::Reloading(v) => ResourceState::Ready(v),
                s => s,
            }),
            changed == (old(self).spec_state() is Reloading),
    {
        self.cancel();
        if !self.state.peek().is_reloading() {
            return false;
        }
        let current = self.state.swap_silent(ResourceState::Pending);
        match current {
            ResourceState::Reloading(value) => {
                self.state.set_silent(ResourceState::Ready(value));
            },
            other => {
                self.state.set_silent(other);
            },
        }
        true
    }

    /// Start a load without notifying; returns the new generation and
    /// whether the state changed.
    pub(crate) fn apply_load(&mut self, mode: LoadMode) -> (r: (u64, bool))
        ensures
            final(self).spec_id() == old(self).spec_id(),
            r.0 == old(self).spec_generation().wrapping_add(1),
            final(self).spec_generation() == r.0,
            final(self).spec_state() == load_start(mode, old(self).spec_state()).0,
            r.1 == load_start(mode, old(self).spec_state()).1,
    {
        self.generation = self.generation.wrapping_add(1);
        let generation = self.generation;
        let current = self.state.swap_silent(ResourceState::Pending);
        let changed = match mode {
            LoadMode::Reset => !current.is_pending(),
            LoadMode::RetainLatest => match current {
                ResourceState::Ready(value) => {
                    self.state.set_silent(ResourceState::Reloading(value));
                    true
                },
                ResourceState::Reloading(value) => {
                    self.state.set_silent(ResourceState::Reloading(value));
                    false
                },
                ResourceState::Pending => false,
                ResourceState::Error(_) => true,
            },
        };
        (generation, changed)
    }

    /// Commit a load result without notifying when `generation` is current;
    /// returns whether it was committed.
    pub(crate) fn apply_complete(&mut self, generation: u64, result: Result<T, E>) -> (done: bool)
        ensures
            final(self).spec_id() == old(self).spec_id(),
            final(self).spec_generation() == old(self).spec_generation(),
            done == (generation == old(self).spec_generation()),
            done ==> final(self).spec_state() == committed(result),
            !done ==> final(self).spec_state() == old(self).spec_state(),
    {
        if generation != self.generation {
            return false;
        }
        match result {
            Ok(value) => self.apply_state(ResourceState::Ready(value)),
            Err(error) => self.apply_state(ResourceState::Error(error)),
        }
        true
    }

    /// Mark the resource as pending; already pending notifies nobody.
    pub fn set_pending(&mut self, rt: &mut ReactiveRuntime) -> (n: SignalNotifications)
        requires
            old(rt).wf(),
        ensures
            final(rt).wf(),
            final(self).spec_state() == ResourceState::<T, E>::Pending,
            final(self).spec_id() == old(self).spec_id(),
            final(self).spec_generation() == old(self).spec_generation(),
            written(old(rt)@, final(rt)@, old(self).spec_id(), !(old(self).spec_state() is Pending), n),
    {
        if self.apply_pending() {
            self.state.notify(rt)
        } else {
            SignalNotifications::empty()
        }
    }

    /// Store a ready value.
    pub fn set_ready(&mut self, rt: &mut ReactiveRuntime, value: T) -> (n: SignalNotifications)
        requires
            old(rt).wf(),
        ensures
            final(rt).wf(),
            final(self).spec_state() == ResourceState::<T, E>::Ready(value),
            final(self).spec_id() == old(self).spec_id(),
            final(self).spec_generation() == old(self).spec_generation(),
            old(rt)@.notified(final(rt)@, old(self).spec_id(), n),
    {
        self.apply_state(ResourceState::Ready(value));
        self.state.notify(rt)
    }

    /// Store an error value.
    pub fn set_error(&mut self, rt: &mut ReactiveRuntime, error: E) -> (n: SignalNotifications)
        requires
            old(rt).wf(),
        ensures
            final(rt).wf(),
            final(self).spec_state() == ResourceState::<T, E>::Error(error),
            final(self).spec_id() == old(self).spec_id(),
            final(self).spec_generation() == old(self).spec_generation(),
            old(rt)@.notified(final(rt)@, old(self).spec_id(), n),
    {
        self.apply_state(ResourceState::Error(error));
        self.state.notify(rt)
    }

    /// Mark the current load as cancelled.
    ///
    /// Work already handed to the host may still finish, but its completion
    /// is ignored. The visible state is left unchanged.
    pub fn cancel(&mut self)
        ensures
            final(self).spec_state() == old(self).spec_state(),
            final(self).spec_id() == old(self).spec_id(),
            final(self).spec_generation() == old(self).spec_generation().wrapping_add(1),
    {
        self.generation = self.generation.wrapping_add(1);
    }

    /// Cancel the current load and restore a retained value to ready state.
    ///
    /// If the resource is not reloading, this behaves like [`Resource::cancel`]
    /// and leaves the visible state unchanged.
    pub fn cancel_to_latest(&mut self, rt: &mut ReactiveRuntime) -> (n: SignalNotifications)
        requires
            old(rt).wf(),
        ensures
            final(rt).wf(),
            final(self).spec_id() == old(self).spec_id(),
            final(self).spec_generation() == old(self).spec_generation().wrapping_add(1),
            final(self).spec_state() == (match old(self).spec_state() {
                ResourceState::Reloading(v) => ResourceState::Ready(v),
                s => s,
            }),
            written(old(rt)@, final(rt)@, old(self).spec_id(), old(self).spec_state() is Reloading, n),
    {
        if self.apply_cancel_to_latest() {
            self.state.notify(rt)
        } else {
            SignalNotifications::empty()
        }
    }

    /// Start a load: bump the generation and move to the state the load
    /// starts from. Returns the new generation, which the host passes back to
    /// [`Resource::complete`] together with the load's result.
    pub fn begin_load(&mut self, rt: &mut ReactiveRuntime, mode: LoadMode) -> (r: (
        u64,
        SignalNotifications,
    ))
        requires
            old(rt).wf(),
        ensures
            final(rt).wf(),
            final(self).spec_id() == old(self).spec_id(),
            r.0 == old(self).spec_generation().wrapping_add(1),
            final(self).spec_generation() == r.0,
            final(self).spec_state() == load_start(mode, old(self).spec_state()).0,
            written(
                old(rt)@,
                final(rt)@,
                old(self).spec_id(),
                load_start(mode, old(self).spec_state()).1,
                r.1,
            ),
    {
        let (generation, changed) = self.apply_load(mode);
        let n = if changed {
            self.state.notify(rt)
        } else {
            SignalNotifications::empty()
        };
        (generation, n)
    }

    /// Start loading from scratch: the state resets to `Pending`.
    pub fn load(&mut self, rt: &mut ReactiveRuntime) -> (r: (u64, SignalNotifications))
        requires
            old(rt).wf(),
        ensures
            final(rt).wf(),
            final(self).spec_id() == old(self).spec_id(),
            r.0 == old(self).spec_generation().wrapping_add(1),
            final(self).spec_generation() == r.0,
            final(self).spec_state() == ResourceState::<T, E>::Pending,
            written(old(rt)@, final(rt)@, old(self).spec_id(), !(old(self).spec_state() is Pending), r.1),
    {
        self.begin_load(rt, LoadMode::Reset)
    }

    /// Restart loading while keeping a ready or retained value visible as
    /// `Reloading`.
    pub fn reload(&mut self, rt: &mut ReactiveRuntime) -> (r: (u64, SignalNotifications))
        requires
            old(rt).wf(),
        ensures
            final(rt).wf(),
            final(self).spec_id() == old(self).spec_id(),
            r.0 == old(self).spec_generation().wrapping_add(1),
            final(self).spec_generation() == r.0,
            final(self).spec_state() == load_start(LoadMode::RetainLatest, old(self).spec_state()).0,
            written(
                old(rt)@,
                final(rt)@,
                old(self).spec_id(),
                load_start(LoadMode::RetainLatest, old(self).spec_state()).1,
                r.1,
            ),
    {
        self.begin_load(rt, LoadMode::RetainLatest)
    }

    /// Commit the result of the load started with `generation`, unless a
    /// newer load or a cancellation came after it; a stale result changes
    /// nothing. Returns whether the result was committed.
    pub fn complete(
        &mut self,
        rt: &mut ReactiveRuntime,
        generation: u64,
        result: Result<T, E>,
    ) -> (r: (bool, SignalNotifications))
        requires
            old(rt).wf(),
        ensures
            final(rt).wf(),
            final(self).spec_id() == old(self).spec_id(),
            final(self).spec_generation() == old(self).spec_generation(),
            r.0 == (generation == old(self).spec_generation()),
            r.0 ==> final(self).spec_state() == committed(result) && old(rt)@.notified(
                final(rt)@,
                old(self).spec_id(),
                r.1,
            ),
            !r.0 ==> final(self).spec_state() == old(self).spec_state() && final(rt)@ == old(rt)@
                && r.1.spec_is_empty(),
    {
        if self.apply_complete(generation, result) {
            (true, self.state.notify(rt))
        } else {
            (false, SignalNotifications::empty())
        }
    }
}

impl<T: Clone, E: Clone> Resource<T, E> {
    /// Clone the current resource state with dependency tracking.
    pub fn get(&self, rt: &mut ReactiveRuntime) -> (s: ResourceState<T, E>)
        requires
            old(rt).wf(),
        ensures
            final(rt).wf(),
            final(rt)@ == old(rt)@.after_track(self.spec_id()),
            cloned_state(self.spec_state(), s),
    {
        self.read(rt).snapshot()
    }
}

impl<T: Clone, E> Resource<T, E> {
    /// Clone the latest available value with dependency tracking.
    pub fn latest(&self, rt: &mut ReactiveRuntime) -> (v: Option<T>)
        requires
            old(rt).wf(),
        ensures
            final(rt).wf(),
            final(rt)@ == old(rt)@.after_track(self.spec_id()),
            match (v, self.spec_state().spec_latest()) {
                (Some(a), Some(b)) => cloned(b, a),
                (None, None) => true,
                _ => false,
            },
    {
        match self.read_latest(rt) {
            Some(value) => Some(value.clone()),
            None => None,
        }
    }
}

impl<T, E: Clone> Resource<T, E> {
    /// Clone the current error with dependency tracking.
    pub fn error_value(&self, rt: &mut ReactiveRuntime) -> (e: Option<E>)
        requires
            old(rt).wf(),
        ensures
            final(rt).wf(),
            final(rt)@ == old(rt)@.after_track(self.spec_id()),
            match (e, self.spec_state().spec_error()) {
                (Some(a), Some(b)) => cloned(b, a),
                (None, None) => true,
                _ => false,
            },
    {
        match self.read_error(rt) {
            Some(error) => Some(error.clone()),
            None => None,
        }
    }
}

} // verus!
