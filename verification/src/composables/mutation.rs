//! Action-driven asynchronous mutations.
//!
//! A [`Mutation`] keeps a [`MutationState`] signal, status flags derived from
//! it, a run generation and whether an optimistic update of the active run
//! still needs undoing. Every operation here decides; the host acts: it runs
//! the async work, and whenever an operation answers `true` for "rollback", it
//! runs the undo that the optimistic update of the superseded, failed,
//! cancelled or reset run handed it. Completions of superseded runs are
//! ignored.
use vstd::prelude::*;

use crate::key_vec::push_id;
use crate::memo::Memo;
use crate::runtime::{ReactiveRuntime, RuntimeView, SignalId, SignalNotifications};
use crate::signal::Signal;

verus! {

broadcast use {vstd::seq_lib::group_seq_properties, vstd::set_lib::group_set_properties};

/// Current state of an asynchronous mutation.
///
/// The latest successful result is retained across retries so UI code can
/// keep showing the last committed outcome while a new mutation is pending or
/// after a failure.
#[derive(Debug, Clone, PartialEq, Eq)]
pub enum MutationState<T, E> {
    /// No mutation has run yet, or the state has been reset.
    Idle,
    /// A mutation is currently running.
    Pending {
        /// The latest successful result, if any.
        last_success: Option<T>,
    },
    /// The latest mutation completed successfully.
    Succeeded(T),
    /// The latest mutation failed.
    Failed {
        /// The current error.
        error: E,
        /// The latest successful result retained across retries.
        last_success: Option<T>,
    },
}

impl<T, E> MutationState<T, E> {
    /// The latest successful result, including retained values.
    pub open spec fn spec_last_success(self) -> Option<T> {
        match self {
            MutationState::Idle => None,
            MutationState::Pending { last_success } => last_success,
            MutationState::Succeeded(v) => Some(v),
            MutationState::Failed { last_success, .. } => last_success,
        }
    }

    /// The current error.
    pub open spec fn spec_error(self) -> Option<E> {
        match self {
            MutationState::Failed { error, .. } => Some(error),
            _ => None,
        }
    }

    /// Return whether the mutation is idle.
    pub fn is_idle(&self) -> (b: bool)
        ensures
            b == (*self is Idle),
    {
        matches!(self, MutationState::Idle)
    }

    /// Return whether the mutation is currently pending.
    pub fn is_pending(&self) -> (b: bool)
        ensures
            b == (*self is Pending),
    {
        matches!(self, MutationState::Pending { .. })
    }

    /// Return whether the latest mutation succeeded.
    pub fn is_succeeded(&self) -> (b: bool)
        ensures
            b == (*self is Succeeded),
    {
        matches!(self, MutationState::Succeeded(_))
    }

    /// Return whether the latest mutation failed.
    pub fn is_failed(&self) -> (b: bool)
        ensures
            b == (*self is Failed),
    {
        matches!(self, MutationState::Failed { .. })
    }

    /// Return whether the mutation retains a latest successful result.
    pub fn has_last_success(&self) -> (b: bool)
        ensures
            b == self.spec_last_success().is_some(),
    {
        self.last_success().is_some()
    }

    /// Borrow the latest successful result, including retained values.
    pub fn last_success(&self) -> (v: Option<&T>)
        ensures
            match (v, self.spec_last_success()) {
                (Some(a), Some(b)) => *a == b,
                (None, None) => true,
                _ => false,
            },
    {
        match self {
            MutationState::Idle => None,
            MutationState::Pending { last_success } => last_success.as_ref(),
            MutationState::Failed { last_success, .. } => last_success.as_ref(),
            MutationState::Succeeded(value) => Some(value),
        }
    }

    /// Borrow the current error, if any.
    pub fn error(&self) -> (e: Option<&E>)
        ensures
            match (e, self.spec_error()) {
                (Some(a), Some(b)) => *a == b,
                (None, None) => true,
                _ => false,
            },
    {
        match self {
            MutationState::Failed { error, .. } => Some(error),
            _ => None,
        }
    }

    /// Fold the state into idle, pending, success, and failure branches.
    pub fn fold<R>(
        &self,
        idle: impl FnOnce() -> R,
        pending: impl FnOnce(Option<&T>) -> R,
        success: impl FnOnce(&T) -> R,
        failed: impl FnOnce(&E, Option<&T>) -> R,
    ) -> (r: R)
        requires
            match *self {
                MutationState::Idle => call_requires(idle, ()),
                MutationState::Pending { last_success } => call_requires(
                    pending,
                    (match last_success {
                        Some(v) => Some(&v),
                        None => None,
                    },),
                ),
                MutationState::Succeeded(v) => call_requires(success, (&v,)),
                MutationState::Failed { error, last_success } => call_requires(
                    failed,
                    (
                        &error,
                        match last_success {
                            Some(v) => Some(&v),
                            None => None,
                        },
                    ),
                ),
            },
        ensures
            match *self {
                MutationState::Idle => call_ensures(idle, (), r),
                MutationState::Pending { last_success } => call_ensures(
                    pending,
                    (match last_success {
                        Some(v) => Some(&v),
                        None => None,
                    },),
                    r,
                ),
                MutationState::Succeeded(v) => call_ensures(success, (&v,), r),
                MutationState::Failed { error, last_success } => call_ensures(
                    failed,
                    (
                        &error,
                        match last_success {
                            Some(v) => Some(&v),
                            None => None,
                        },
                    ),
                    r,
                ),
            },
    {
        match self {
            MutationState::Idle => idle(),
            MutationState::Pending { last_success } => pending(last_success.as_ref()),
            MutationState::Succeeded(value) => success(value),
            MutationState::Failed { error, last_success } => failed(error, last_success.as_ref()),
        }
    }

    fn into_last_success(self) -> (v: Option<T>)
        ensures
            v == self.spec_last_success(),
    {
        match self {
            MutationState::Idle => None,
            MutationState::Pending { last_success } => last_success,
            MutationState::Failed { last_success, .. } => last_success,
            MutationState::Succeeded(value) => Some(value),
        }
    }
}

/// Whether `b` is a clone of `a`, payload by payload.
pub open spec fn cloned_option<T: Clone>(a: Option<T>, b: Option<T>) -> bool {
    match (a, b) {
        (Some(x), Some(y)) => cloned(x, y),
        (None, None) => true,
        _ => false,
    }
}

/// Whether `b` is a clone of `a`, payload by payload.
pub open spec fn cloned_mutation_state<T: Clone, E: Clone>(
    a: MutationState<T, E>,
    b: MutationState<T, E>,
) -> bool {
    match (a, b) {
        (MutationState::Idle, MutationState::Idle) => true,
        (
            MutationState::Pending { last_success: x },
            MutationState::Pending { last_success: y },
        ) => cloned_option(x, y),
        (MutationState::Succeeded(x), MutationState::Succeeded(y)) => cloned(x, y),
        (
            MutationState::Failed { error: e1, last_success: x },
            MutationState::Failed { error: e2, last_success: y },
        ) => cloned(e1, e2) && cloned_option(x, y),
        _ => false,
    }
}

fn clone_option<T: Clone>(v: &Option<T>) -> (r: Option<T>)
    ensures
        cloned_option(*v, r),
{
    match v {
        Some(x) => Some(x.clone()),
        None => None,
    }
}

impl<T: Clone, E: Clone> MutationState<T, E> {
    /// Clone the state payload by payload.
    pub fn snapshot(&self) -> (s: Self)
        ensures
            cloned_mutation_state(*self, s),
    {
        match self {
            MutationState::Idle => MutationState::Idle,
            MutationState::Pending { last_success } => MutationState::Pending {
                last_success: clone_option(last_success),
            },
            MutationState::Succeeded(v) => MutationState::Succeeded(v.clone()),
            MutationState::Failed { error, last_success } => MutationState::Failed {
                error: error.clone(),
                last_success: clone_option(last_success),
            },
        }
    }
}

/// The state a newly started run enters.
pub open spec fn run_started<T, E>(state: MutationState<T, E>) -> MutationState<T, E> {
    MutationState::Pending { last_success: state.spec_last_success() }
}

/// The state a run's result commits.
pub open spec fn result_committed<T, E>(state: MutationState<T, E>, result: Result<T, E>) -> MutationState<
    T,
    E,
> {
    match result {
        Ok(v) => MutationState::Succeeded(v),
        Err(e) => MutationState::Failed { error: e, last_success: state.spec_last_success() },
    }
}

/// The latest stable state restored by a cancellation.
pub open spec fn cancelled<T, E>(state: MutationState<T, E>) -> MutationState<T, E> {
    match state {
        MutationState::Pending { last_success } => match last_success {
            Some(v) => MutationState::Succeeded(v),
            None => MutationState::Idle,
        },
        s => s,
    }
}

/// A higher-level async mutation model.
pub struct Mutation<T, E> {
    state: Signal<MutationState<T, E>>,
    generation: u64,
    rollback_armed: bool,
    idle: Memo<bool>,
    pending: Memo<bool>,
    succeeded: Memo<bool>,
    failed: Memo<bool>,
    has_last_success: Memo<bool>,
}

impl<T, E> Mutation<T, E> {
    /// The current state.
    pub closed spec fn spec_state(&self) -> MutationState<T, E> {
        self.state.spec_value()
    }

    /// The identity of the state signal.
    pub closed spec fn spec_id(&self) -> SignalId {
        self.state.spec_id()
    }

    /// The generation of the latest run, cancellation or reset.
    pub closed spec fn spec_generation(&self) -> u64 {
        self.generation
    }

    /// Whether an optimistic update of the active run still needs undoing
    /// if that run does not succeed.
    pub closed spec fn spec_rollback_armed(&self) -> bool {
        self.rollback_armed
    }

    /// The identity of the `idle` status memo.
    pub closed spec fn idle_id(&self) -> SignalId {
        self.idle.spec_id()
    }

    /// The identity of the `pending` status memo.
    pub closed spec fn pending_id(&self) -> SignalId {
        self.pending.spec_id()
    }

    /// The identity of the `succeeded` status memo.
    pub closed spec fn succeeded_id(&self) -> SignalId {
        self.succeeded.spec_id()
    }

    /// The identity of the `failed` status memo.
    pub closed spec fn failed_id(&self) -> SignalId {
        self.failed.spec_id()
    }

    /// The identity of the `has_last_success` status memo.
    pub closed spec fn has_last_success_id(&self) -> SignalId {
        self.has_last_success.spec_id()
    }

    /// Every status flag agrees with `s`.
    closed spec fn flags_match(&self, s: MutationState<T, E>) -> bool {
        &&& self.idle.spec_value() == (s is Idle)
        &&& self.pending.spec_value() == (s is Pending)
        &&& self.succeeded.spec_value() == (s is Succeeded)
        &&& self.failed.spec_value() == (s is Failed)
        &&& self.has_last_success.spec_value() == s.spec_last_success().is_some()
    }

    /// Every status flag agrees with the state.
    pub closed spec fn wf(&self) -> bool {
        self.flags_match(self.state.spec_value())
    }

    /// The signals a move from `from` to `to` writes: the state signal when
    /// `notify_state`, and each status flag whose value changes.
    pub open spec fn touched(
        &self,
        from: MutationState<T, E>,
        to: MutationState<T, E>,
        notify_state: bool,
    ) -> Set<SignalId> {
        let s0 = if notify_state {
            Set::empty().insert(self.spec_id())
        } else {
            Set::empty()
        };
        let s1 = if (from is Idle) != (to is Idle) {
            s0.insert(self.idle_id())
        } else {
            s0
        };
        let s2 = if (from is Pending) != (to is Pending) {
            s1.insert(self.pending_id())
        } else {
            s1
        };
        let s3 = if (from is Succeeded) != (to is Succeeded) {
            s2.insert(self.succeeded_id())
        } else {
            s2
        };
        let s4 = if (from is Failed) != (to is Failed) {
            s3.insert(self.failed_id())
        } else {
            s3
        };
        if from.spec_last_success().is_some() != to.spec_last_success().is_some() {
            s4.insert(self.has_last_success_id())
        } else {
            s4
        }
    }

    /// Both models own the same signals.
    pub open spec fn same_signals(&self, other: &Self) -> bool {
        &&& self.spec_id() == other.spec_id()
        &&& self.idle_id() == other.idle_id()
        &&& self.pending_id() == other.pending_id()
        &&& self.succeeded_id() == other.succeeded_id()
        &&& self.failed_id() == other.failed_id()
        &&& self.has_last_success_id() == other.has_last_success_id()
    }

    /// Build a mutation model from an existing state signal.
    pub fn from_state(rt: &mut ReactiveRuntime, state: Signal<MutationState<T, E>>) -> (m: Self)
        requires
            old(rt).wf(),
            old(rt)@.next_signal < u64::MAX - 5,
        ensures
            final(rt).wf(),
            m.wf(),
            m.spec_state() == state.spec_value(),
            m.spec_id() == state.spec_id(),
            m.spec_generation() == 0,
            !m.spec_rollback_armed(),
            final(rt)@ == (RuntimeView { next_signal: (old(rt)@.next_signal + 5) as u64, ..old(rt)@ }),
    {
        let idle_flag = state.peek().is_idle();
        let pending_flag = state.peek().is_pending();
        let succeeded_flag = state.peek().is_succeeded();
        let failed_flag = state.peek().is_failed();
        let latest_flag = state.peek().has_last_success();
        let idle = Memo::maintained(rt, idle_flag);
        let pending = Memo::maintained(rt, pending_flag);
        let succeeded = Memo::maintained(rt, succeeded_flag);
        let failed = Memo::maintained(rt, failed_flag);
        let has_last_success = Memo::maintained(rt, latest_flag);
        Mutation {
            state,
            generation: 0,
            rollback_armed: false,
            idle,
            pending,
            succeeded,
            failed,
            has_last_success,
        }
    }

    /// Create an idle mutation model.
    pub fn new(rt: &mut ReactiveRuntime) -> (m: Self)
        requires
            old(rt).wf(),
            old(rt)@.next_signal < u64::MAX - 6,
        ensures
            final(rt).wf(),
            m.wf(),
            m.spec_state() == MutationState::<T, E>::Idle,
            m.spec_generation() == 0,
            !m.spec_rollback_armed(),
            final(rt)@ == (RuntimeView { next_signal: (old(rt)@.next_signal + 6) as u64, ..old(rt)@ }),
    {
        let state = Signal::new(rt, MutationState::Idle);
        Self::from_state(rt, state)
    }

    /// Move from `from`, the state the flags describe, to `to`; refresh the
    /// status flags and wake the readers of every written signal as one batch.
    fn transition(
        &mut self,
        rt: &mut ReactiveRuntime,
        Ghost(from): Ghost<MutationState<T, E>>,
        to: MutationState<T, E>,
        notify_state: bool,
    ) -> (n: SignalNotifications)
        requires
            old(rt).wf(),
            old(self).flags_match(from),
        ensures
            final(rt).wf(),
            final(self).wf(),
            final(self).spec_state() == to,
            final(self).spec_generation() == old(self).spec_generation(),
            final(self).spec_rollback_armed() == old(self).spec_rollback_armed(),
            final(self).same_signals(old(self)),
            old(rt)@.wrote(final(rt)@, old(self).touched(from, to, notify_state), n),
    {
        let mut ids: Vec<SignalId> = Vec::new();
        if notify_state {
            push_id(&mut ids, self.state.id());
        }
        proof {
            assert(ids@.to_set() =~= (if notify_state {
                Set::empty().insert(old(self).state.spec_id())
            } else {
                Set::empty()
            }));
        }
        let idle_flag = to.is_idle();
        let pending_flag = to.is_pending();
        let succeeded_flag = to.is_succeeded();
        let failed_flag = to.is_failed();
        let latest_flag = to.has_last_success();
        self.state.set_silent(to);
        if self.idle.store(idle_flag) {
            push_id(&mut ids, self.idle.signal().id());
        }
        if self.pending.store(pending_flag) {
            push_id(&mut ids, self.pending.signal().id());
        }
        if self.succeeded.store(succeeded_flag) {
            push_id(&mut ids, self.succeeded.signal().id());
        }
        if self.failed.store(failed_flag) {
            push_id(&mut ids, self.failed.signal().id());
        }
        if self.has_last_success.store(latest_flag) {
            push_id(&mut ids, self.has_last_success.signal().id());
        }
        rt.notify_all(&ids)
    }

    /// Take the state out, leaving a placeholder that the next transition replaces.
    fn take_state(&mut self) -> (s: MutationState<T, E>)
        ensures
            s == old(self).spec_state(),
            final(self).same_signals(old(self)),
            final(self).flags_match(s) == old(self).wf(),
            final(self).spec_generation() == old(self).spec_generation(),
            final(self).spec_rollback_armed() == old(self).spec_rollback_armed(),
            forall|a: MutationState<T, E>, b: MutationState<T, E>, f: bool| final(self).touched(a, b, f)
                == old(self).touched(a, b, f),
    {
        self.state.swap_silent(MutationState::Idle)
    }

    /// Return the underlying state signal.
    pub fn signal(&self) -> (s: &Signal<MutationState<T, E>>)
        ensures
            s.spec_id() == self.spec_id(),
            s.spec_value() == self.spec_state(),
    {
        &self.state
    }

    /// A memo that is `true` when the mutation is idle.
    pub fn idle(&self) -> (m: &Memo<bool>)
        requires
            self.wf(),
        ensures
            m.spec_value() == (self.spec_state() is Idle),
            m.spec_id() == self.idle_id(),
    {
        &self.idle
    }

    /// A memo that is `true` while the mutation is running.
    pub fn pending(&self) -> (m: &Memo<bool>)
        requires
            self.wf(),
        ensures
            m.spec_value() == (self.spec_state() is Pending),
            m.spec_id() == self.pending_id(),
    {
        &self.pending
    }

    /// A memo that is `true` when the latest mutation succeeded.
    pub fn succeeded(&self) -> (m: &Memo<bool>)
        requires
            self.wf(),
        ensures
            m.spec_value() == (self.spec_state() is Succeeded),
            m.spec_id() == self.succeeded_id(),
    {
        &self.succeeded
    }

    /// A memo that is `true` when the latest mutation failed.
    pub fn failed(&self) -> (m: &Memo<bool>)
        requires
            self.wf(),
        ensures
            m.spec_value() == (self.spec_state() is Failed),
            m.spec_id() == self.failed_id(),
    {
        &self.failed
    }

    /// A memo that is `true` when the mutation retains a successful result.
    pub fn has_last_success(&self) -> (m: &Memo<bool>)
        requires
            self.wf(),
        ensures
            m.spec_value() == self.spec_state().spec_last_success().is_some(),
            m.spec_id() == self.has_last_success_id(),
    {
        &self.has_last_success
    }

    /// The generation of the latest run, cancellation or reset.
    pub fn generation(&self) -> (g: u64)
        ensures
            g == self.spec_generation(),
    {
        self.generation
    }

    /// Read the current state with dependency tracking and without cloning.
    pub fn read<'a>(&'a self, rt: &mut ReactiveRuntime) -> (s: &'a MutationState<T, E>)
        requires
            old(rt).wf(),
        ensures
            final(rt).wf(),
            *s == self.spec_state(),
            final(rt)@ == old(rt)@.after_track(self.spec_id()),
    {
        self.state.read(rt)
    }

    /// Read the latest successful result with dependency tracking.
    pub fn read_last_success<'a>(&'a self, rt: &mut ReactiveRuntime) -> (v: Option<&'a T>)
        requires
            old(rt).wf(),
        ensures
            final(rt).wf(),
            final(rt)@ == old(rt)@.after_track(self.spec_id()),
            match (v, self.spec_state().spec_last_success()) {
                (Some(a), Some(b)) => *a == b,
                (None, None) => true,
                _ => false,
            },
    {
        self.read(rt).last_success()
    }

    /// Read the current error with dependency tracking.
    pub fn read_error<'a>(&'a self, rt: &mut ReactiveRuntime) -> (e: Option<&'a E>)
        requires
            old(rt).wf(),
        ensures
            final(rt).wf(),
            final(rt)@ == old(rt)@.after_track(self.spec_id()),
            match (e, self.spec_state().spec_error()) {
                (Some(a), Some(b)) => *a == b,
                (None, None) => true,
                _ => false,
            },
    {
        self.read(rt).error()
    }

    /// Fold the current state, read with dependency tracking, into idle,
    /// pending, success, and failure branches.
    pub fn fold<R>(
        &self,
        rt: &mut ReactiveRuntime,
        idle: impl FnOnce() -> R,
        pending: impl FnOnce(Option<&T>) -> R,
        success: impl FnOnce(&T) -> R,
        failed: impl FnOnce(&E, Option<&T>) -> R,
    ) -> (r: R)
        requires
            old(rt).wf(),
            match self.spec_state() {
                MutationState::Idle => call_requires(idle, ()),
                MutationState::Pending { last_success } => call_requires(
                    pending,
                    (match last_success {
                        Some(v) => Some(&v),
                        None => None,
                    },),
                ),
                MutationState::Succeeded(v) => call_requires(success, (&v,)),
                MutationState::Failed { error, last_success } => call_requires(
                    failed,
                    (
                        &error,
                        match last_success {
                            Some(v) => Some(&v),
                            None => None,
                        },
                    ),
                ),
            },
        ensures
            final(rt).wf(),
            final(rt)@ == old(rt)@.after_track(self.spec_id()),
            match self.spec_state() {
                MutationState::Idle => call_ensures(idle, (), r),
                MutationState::Pending { last_success } => call_ensures(
                    pending,
                    (match last_success {
                        Some(v) => Some(&v),
                        None => None,
                    },),
                    r,
                ),
                MutationState::Succeeded(v) => call_ensures(success, (&v,), r),
                MutationState::Failed { error, last_success } => call_ensures(
                    failed,
                    (
                        &error,
                        match last_success {
                            Some(v) => Some(&v),
                            None => None,
                        },
                    ),
                    r,
                ),
            },
    {
        self.read(rt).fold(idle, pending, success, failed)
    }

    /// Return whether the mutation is idle, with dependency tracking.
    pub fn is_idle(&self, rt: &mut ReactiveRuntime) -> (b: bool)
        requires
            old(rt).wf(),
        ensures
            final(rt).wf(),
            final(rt)@ == old(rt)@.after_track(self.spec_id()),
            b == (self.spec_state() is Idle),
    {
        self.read(rt).is_idle()
    }

    /// Return whether the mutation is pending, with dependency tracking.
    pub fn is_pending(&self, rt: &mut ReactiveRuntime) -> (b: bool)
        requires
            old(rt).wf(),
        ensures
            final(rt).wf(),
            final(rt)@ == old(rt)@.after_track(self.spec_id()),
            b == (self.spec_state() is Pending),
    {
        self.read(rt).is_pending()
    }

    /// Return whether the latest mutation succeeded, with dependency tracking.
    pub fn is_succeeded(&self, rt: &mut ReactiveRuntime) -> (b: bool)
        requires
            old(rt).wf(),
        ensures
            final(rt).wf(),
            final(rt)@ == old(rt)@.after_track(self.spec_id()),
            b == (self.spec_state() is Succeeded),
    {
        self.read(rt).is_succeeded()
    }

    /// Return whether the latest mutation failed, with dependency tracking.
    pub fn is_failed(&self, rt: &mut ReactiveRuntime) -> (b: bool)
        requires
            old(rt).wf(),
        ensures
            final(rt).wf(),
            final(rt)@ == old(rt)@.after_track(self.spec_id()),
            b == (self.spec_state() is Failed),
    {
        self.read(rt).is_failed()
    }

    /// Reset the mutation back to the idle state. Any run in flight is
    /// superseded; returns whether its optimistic update must be undone.
    pub fn reset(&mut self, rt: &mut ReactiveRuntime) -> (r: (bool, SignalNotifications))
        requires
            old(rt).wf(),
            old(self).wf(),
        ensures
            final(rt).wf(),
            final(self).wf(),
            final(self).same_signals(old(self)),
            final(self).spec_state() == MutationState::<T, E>::Idle,
            final(self).spec_generation() == old(self).spec_generation().wrapping_add(1),
            r.0 == old(self).spec_rollback_armed(),
            !final(self).spec_rollback_armed(),
            old(rt)@.wrote(
                final(rt)@,
                old(self).touched(old(self).spec_state(), MutationState::Idle, true),
                r.1,
            ),
    {
        self.generation = self.generation.wrapping_add(1);
        let rollback = self.rollback_armed;
        self.rollback_armed = false;
        let ghost from = self.spec_state();
        let n = self.transition(rt, Ghost(from), MutationState::Idle, true);
        (rollback, n)
    }

    /// Store a successful mutation result. An armed optimistic update is
    /// discarded, not undone.
    pub fn set_succeeded(&mut self, rt: &mut ReactiveRuntime, value: T) -> (n: SignalNotifications)
        requires
            old(rt).wf(),
            old(self).wf(),
        ensures
            final(rt).wf(),
            final(self).wf(),
            final(self).same_signals(old(self)),
            final(self).spec_state() == MutationState::<T, E>::Succeeded(value),
            final(self).spec_generation() == old(self).spec_generation(),
            !final(self).spec_rollback_armed(),
            old(rt)@.wrote(
                final(rt)@,
                old(self).touched(old(self).spec_state(), MutationState::Succeeded(value), true),
                n,
            ),
    {
        self.rollback_armed = false;
        let ghost from = self.spec_state();
        self.transition(rt, Ghost(from), MutationState::Succeeded(value), true)
    }

    /// Store a failed mutation result, retaining the latest success. Returns
    /// whether an optimistic update must be undone.
    pub fn set_failed(&mut self, rt: &mut ReactiveRuntime, error: E) -> (r: (
        bool,
        SignalNotifications,
    ))
        requires
            old(rt).wf(),
            old(self).wf(),
        ensures
            final(rt).wf(),
            final(self).wf(),
            final(self).same_signals(old(self)),
            final(self).spec_state() == (MutationState::<T, E>::Failed {
                error,
                last_success: old(self).spec_state().spec_last_success(),
            }),
            final(self).spec_generation() == old(self).spec_generation(),
            r.0 == old(self).spec_rollback_armed(),
            !final(self).spec_rollback_armed(),
            old(rt)@.wrote(
                final(rt)@,
                old(self).touched(
                    old(self).spec_state(),
                    MutationState::Failed {
                        error,
                        last_success: old(self).spec_state().spec_last_success(),
                    },
                    true,
                ),
                r.1,
            ),
    {
        let rollback = self.rollback_armed;
        self.rollback_armed = false;
        let current = self.take_state();
        let ghost from = current;
        let last_success = current.into_last_success();
        let n = self.transition(
            rt,
            Ghost(from),
            MutationState::Failed { error, last_success },
            true,
        );
        (rollback, n)
    }

    /// Cancel the active run and restore the latest stable state: a pending
    /// run falls back to its retained success, or to idle. Returns whether an
    /// optimistic update must be undone.
    pub fn cancel(&mut self, rt: &mut ReactiveRuntime) -> (r: (bool, SignalNotifications))
        requires
            old(rt).wf(),
            old(self).wf(),
        ensures
            final(rt).wf(),
            final(self).wf(),
            final(self).same_signals(old(self)),
            final(self).spec_state() == cancelled(old(self).spec_state()),
            final(self).spec_generation() == old(self).spec_generation().wrapping_add(1),
            r.0 == old(self).spec_rollback_armed(),
            !final(self).spec_rollback_armed(),
            old(rt)@.wrote(
                final(rt)@,
                old(self).touched(
                    old(self).spec_state(),
                    cancelled(old(self).spec_state()),
                    old(self).spec_state() is Pending,
                ),
                r.1,
            ),
    {
        self.generation = self.generation.wrapping_add(1);
        let rollback = self.rollback_armed;
        self.rollback_armed = false;
        let current = self.take_state();
        let ghost from = current;
        let n = match current {
            MutationState::Pending { last_success } => {
                let next = match last_success {
                    Some(value) => MutationState::Succeeded(value),
                    None => MutationState::Idle,
                };
                self.transition(rt, Ghost(from), next, true)
            },
            other => self.transition(rt, Ghost(from), other, false),
        };
        (rollback, n)
    }

    /// Start a new run: supersede any run in flight and enter `Pending`,
    /// retaining the latest success. Returns the run's generation, which the
    /// host hands back to [`Mutation::commit_result`], and whether the
    /// superseded run's optimistic update must be undone first.
    pub fn begin_run(&mut self, rt: &mut ReactiveRuntime) -> (r: (u64, bool, SignalNotifications))
        requires
            old(rt).wf(),
            old(self).wf(),
        ensures
            final(rt).wf(),
            final(self).wf(),
            final(self).same_signals(old(self)),
            final(self).spec_state() == run_started(old(self).spec_state()),
            r.0 == old(self).spec_generation().wrapping_add(1),
            final(self).spec_generation() == r.0,
            r.1 == old(self).spec_rollback_armed(),
            !final(self).spec_rollback_armed(),
            old(rt)@.wrote(
                final(rt)@,
                old(self).touched(old(self).spec_state(), run_started(old(self).spec_state()), true),
                r.2,
            ),
    {
        self.generation = self.generation.wrapping_add(1);
        let generation = self.generation;
        let rollback = self.rollback_armed;
        self.rollback_armed = false;
        let current = self.take_state();
        let ghost from = current;
        let last_success = current.into_last_success();
        let n = self.transition(rt, Ghost(from), MutationState::Pending { last_success }, true);
        (generation, rollback, n)
    }

    /// Record that the active run applied an optimistic update whose undo
    /// the host holds.
    pub fn arm_rollback(&mut self)
        ensures
            final(self).wf() == old(self).wf(),
            final(self).same_signals(old(self)),
            final(self).spec_state() == old(self).spec_state(),
            final(self).spec_generation() == old(self).spec_generation(),
            final(self).spec_rollback_armed(),
            forall|a: MutationState<T, E>, b: MutationState<T, E>, f: bool| final(self).touched(a, b, f)
                == old(self).touched(a, b, f),
    {
        self.rollback_armed = true;
    }

    /// Commit the result of the run started with `generation`, unless a newer
    /// run, a cancellation or a reset came after it; a stale result changes
    /// nothing. Returns whether it was committed and whether an optimistic
    /// update must be undone (a committed failure of an optimistic run).
    pub fn commit_result(
        &mut self,
        rt: &mut ReactiveRuntime,
        generation: u64,
        result: Result<T, E>,
    ) -> (r: (bool, bool, SignalNotifications))
        requires
            old(rt).wf(),
            old(self).wf(),
        ensures
            final(rt).wf(),
            final(self).wf(),
            final(self).same_signals(old(self)),
            final(self).spec_generation() == old(self).spec_generation(),
            r.0 == (generation == old(self).spec_generation()),
            !r.0 ==> {
                &&& !r.1
                &&& final(self).spec_state() == old(self).spec_state()
                &&& final(self).spec_rollback_armed() == old(self).spec_rollback_armed()
                &&& final(rt)@ == old(rt)@
                &&& r.2.spec_is_empty()
            },
            r.0 ==> {
                &&& final(self).spec_state() == result_committed(old(self).spec_state(), result)
                &&& r.1 == (result is Err && old(self).spec_rollback_armed())
                &&& !final(self).spec_rollback_armed()
                &&& old(rt)@.wrote(
                    final(rt)@,
                    old(self).touched(
                        old(self).spec_state(),
                        result_committed(old(self).spec_state(), result),
                        true,
                    ),
                    r.2,
                )
            },
    {
        if generation != self.generation {
            return (false, false, SignalNotifications::empty());
        }
        let rollback = self.rollback_armed && result.is_err();
        self.rollback_armed = false;
        let current = self.take_state();
        let ghost from = current;
        let next = match result {
            Ok(value) => MutationState::Succeeded(value),
            Err(error) => MutationState::Failed { error, last_success: current.into_last_success() },
        };
        let n = self.transition(rt, Ghost(from), next, true);
        (true, rollback, n)
    }
}

impl<T: Clone, E: Clone> Mutation<T, E> {
    /// Clone the current mutation state with dependency tracking.
    pub fn get(&self, rt: &mut ReactiveRuntime) -> (s: MutationState<T, E>)
        requires
            old(rt).wf(),
        ensures
            final(rt).wf(),
            final(rt)@ == old(rt)@.after_track(self.spec_id()),
            cloned_mutation_state(self.spec_state(), s),
    {
        self.read(rt).snapshot()
    }
}

impl<T: Clone, E> Mutation<T, E> {
    /// Clone the latest successful result with dependency tracking.
    pub fn last_success_value(&self, rt: &mut ReactiveRuntime) -> (v: Option<T>)
        requires
            old(rt).wf(),
        ensures
            final(rt).wf(),
            final(rt)@ == old(rt)@.after_track(self.spec_id()),
            cloned_option(self.spec_state().spec_last_success(), v),
    {
        match self.read_last_success(rt) {
            Some(value) => Some(value.clone()),
            None => None,
        }
    }
}

impl<T, E: Clone> Mutation<T, E> {
    /// Clone the current error with dependency tracking.
    pub fn error_value(&self, rt: &mut ReactiveRuntime) -> (e: Option<E>)
        requires
            old(rt).wf(),
        ensures
            final(rt).wf(),
            final(rt)@ == old(rt)@.after_track(self.spec_id()),
            cloned_option(self.spec_state().spec_error(), e),
    {
        match self.read_error(rt) {
            Some(error) => Some(error.clone()),
            None => None,
        }
    }
}

/// Create a mutation model in the idle state.
pub fn use_mutation<T, E>(rt: &mut ReactiveRuntime) -> (m: Mutation<T, E>)
    requires
        old(rt).wf(),
        old(rt)@.next_signal < u64::MAX - 6,
    ensures
        final(rt).wf(),
        m.wf(),
        m.spec_state() == MutationState::<T, E>::Idle,
        m.spec_generation() == 0,
        !m.spec_rollback_armed(),
        final(rt)@ == (RuntimeView { next_signal: (old(rt)@.next_signal + 6) as u64, ..old(rt)@ }),
{
    Mutation::new(rt)
}

} // verus!
