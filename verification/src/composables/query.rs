//! Asynchronous queries: a [`Resource`] packaged with status flags derived
//! from its state.
use vstd::prelude::*;

use crate::key_vec::push_id;
use crate::memo::Memo;
use crate::resource::{
    LoadMode, Resource, ResourceState, cloned_state, committed, load_start,
};
use crate::runtime::{ReactiveRuntime, RuntimeView, SignalId, SignalNotifications};

verus! {

broadcast use {vstd::seq_lib::group_seq_properties, vstd::set_lib::group_set_properties};

/// A higher-level async query model built on top of [`Resource`].
///
/// `Query` packages the underlying resource together with its status flags
/// so app code consumes one query model rather than wiring the same loading
/// flags in every surface.
pub struct Query<T, E> {
    resource: Resource<T, E>,
    pending: Memo<bool>,
    loading: Memo<bool>,
    reloading: Memo<bool>,
    ready: Memo<bool>,
    errored: Memo<bool>,
    has_latest: Memo<bool>,
}

impl<T, E> Query<T, E> {
    /// The underlying resource.
    pub closed spec fn spec_resource(&self) -> Resource<T, E> {
        self.resource
    }

    /// The current state.
    pub closed spec fn spec_state(&self) -> ResourceState<T, E> {
        self.resource.spec_state()
    }

    /// The identity of the `pending` status memo.
    pub closed spec fn pending_id(&self) -> SignalId {
        self.pending.spec_id()
    }

    /// The identity of the `loading` status memo.
    pub closed spec fn loading_id(&self) -> SignalId {
        self.loading.spec_id()
    }

    /// The identity of the `reloading` status memo.
    pub closed spec fn reloading_id(&self) -> SignalId {
        self.reloading.spec_id()
    }

    /// The identity of the `ready` status memo.
    pub closed spec fn ready_id(&self) -> SignalId {
        self.ready.spec_id()
    }

    /// The identity of the `errored` status memo.
    pub closed spec fn errored_id(&self) -> SignalId {
        self.errored.spec_id()
    }

    /// The identity of the `has_latest` status memo.
    pub closed spec fn has_latest_id(&self) -> SignalId {
        self.has_latest.spec_id()
    }

    closed spec fn flags_match(&self, s: ResourceState<T, E>) -> bool {
        &&& self.pending.spec_value() == (s is Pending)
        &&& self.loading.spec_value() == (s is Pending || s is Reloading)
        &&& self.reloading.spec_value() == (s is Reloading)
        &&& self.ready.spec_value() == (s is Ready)
        &&& self.errored.spec_value() == (s is Error)
        &&& self.has_latest.spec_value() == s.spec_latest().is_some()
    }

    /// Every status flag agrees with the resource state.
    pub closed spec fn wf(&self) -> bool {
        self.flags_match(self.resource.spec_state())
    }

    /// The signals a move from `from` to `to` writes: the state signal when
    /// `notify_state`, and each status flag whose value changes.
    pub open spec fn touched(
        &self,
        from: ResourceState<T, E>,
        to: ResourceState<T, E>,
        notify_state: bool,
    ) -> Set<SignalId> {
        let s0 = if notify_state {
            Set::empty().insert(self.spec_resource().spec_id())
        } else {
            Set::empty()
        };
        let s1 = if (from is Pending) != (to is Pending) {
            s0.insert(self.pending_id())
        } else {
            s0
        };
        let s2 = if (from is Pending || from is Reloading) != (to is Pending || to is Reloading) {
            s1.insert(self.loading_id())
        } else {
            s1
        };
        let s3 = if (from is Reloading) != (to is Reloading) {
            s2.insert(self.reloading_id())
        } else {
            s2
        };
        let s4 = if (from is Ready) != (to is Ready) {
            s3.insert(self.ready_id())
        } else {
            s3
        };
        let s5 = if (from is Error) != (to is Error) {
            s4.insert(self.errored_id())
        } else {
            s4
        };
        if from.spec_latest().is_some() != to.spec_latest().is_some() {
            s5.insert(self.has_latest_id())
        } else {
            s5
        }
    }

    /// Both models own the same signals.
    pub open spec fn same_signals(&self, other: &Self) -> bool {
        &&& self.spec_resource().spec_id() == other.spec_resource().spec_id()
        &&& self.pending_id() == other.pending_id()
        &&& self.loading_id() == other.loading_id()
        &&& self.reloading_id() == other.reloading_id()
        &&& self.ready_id() == other.ready_id()
        &&& self.errored_id() == other.errored_id()
        &&& self.has_latest_id() == other.has_latest_id()
    }

    /// Build a query model from an existing resource.
    pub fn from_resource(rt: &mut ReactiveRuntime, resource: Resource<T, E>) -> (q: Self)
        requires
            old(rt).wf(),
            old(rt)@.next_signal < u64::MAX - 6,
        ensures
            final(rt).wf(),
            q.wf(),
            q.spec_resource() == resource,
            final(rt)@ == (RuntimeView { next_signal: (old(rt)@.next_signal + 6) as u64, ..old(rt)@ }),
    {
        let s = resource.signal().peek();
        let pending_flag = s.is_pending();
        let loading_flag = s.is_loading();
        let reloading_flag = s.is_reloading();
        let ready_flag = s.is_ready();
        let errored_flag = s.is_error();
        let latest_flag = s.has_latest();
        let pending = Memo::maintained(rt, pending_flag);
        let loading = Memo::maintained(rt, loading_flag);
        let reloading = Memo::maintained(rt, reloading_flag);
        let ready = Memo::maintained(rt, ready_flag);
        let errored = Memo::maintained(rt, errored_flag);
        let has_latest = Memo::maintained(rt, latest_flag);
        Query { resource, pending, loading, reloading, ready, errored, has_latest }
    }

    /// Refresh the flags after the resource moved from `from`, and wake the
    /// readers of every written signal as one batch.
    fn publish(
        &mut self,
        rt: &mut ReactiveRuntime,
        Ghost(from): Ghost<ResourceState<T, E>>,
        notify_state: bool,
    ) -> (n: SignalNotifications)
        requires
            old(rt).wf(),
            old(self).flags_match(from),
        ensures
            final(rt).wf(),
            final(self).wf(),
            final(self).spec_resource() == old(self).spec_resource(),
            final(self).same_signals(old(self)),
            old(rt)@.wrote(final(rt)@, old(self).touched(from, old(self).spec_state(), notify_state), n),
    {
        let ghost to = self.resource.spec_state();
        let mut ids: Vec<SignalId> = Vec::new();
        if notify_state {
            push_id(&mut ids, self.resource.signal().id());
        }
        proof {
            assert(ids@.to_set() =~= (if notify_state {
                Set::empty().insert(old(self).resource.spec_id())
            } else {
                Set::empty()
            }));
        }
        let s = self.resource.signal().peek();
        let pending_flag = s.is_pending();
        let loading_flag = s.is_loading();
        let reloading_flag = s.is_reloading();
        let ready_flag = s.is_ready();
        let errored_flag = s.is_error();
        let latest_flag = s.has_latest();
        if self.pending.store(pending_flag) {
            push_id(&mut ids, self.pending.signal().id());
        }
        if self.loading.store(loading_flag) {
            push_id(&mut ids, self.loading.signal().id());
        }
        if self.reloading.store(reloading_flag) {
            push_id(&mut ids, self.reloading.signal().id());
        }
        if self.ready.store(ready_flag) {
            push_id(&mut ids, self.ready.signal().id());
        }
        if self.errored.store(errored_flag) {
            push_id(&mut ids, self.errored.signal().id());
        }
        if self.has_latest.store(latest_flag) {
            push_id(&mut ids, self.has_latest.signal().id());
        }
        rt.notify_all(&ids)
    }

    /// Return the underlying resource.
    pub fn resource(&self) -> (r: &Resource<T, E>)
        ensures
            *r == self.spec_resource(),
    {
        &self.resource
    }

    /// A memo that is `true` while the query has no value and is loading.
    pub fn pending(&self) -> (m: &Memo<bool>)
        requires
            self.wf(),
        ensures
            m.spec_value() == (self.spec_state() is Pending),
            m.spec_id() == self.pending_id(),
    {
        &self.pending
    }

    /// A memo that is `true` while the query is loading in any mode.
    pub fn loading(&self) -> (m: &Memo<bool>)
        requires
            self.wf(),
        ensures
            m.spec_value() == (self.spec_state() is Pending || self.spec_state() is Reloading),
            m.spec_id() == self.loading_id(),
    {
        &self.loading
    }

    /// A memo that is `true` while the query reloads with a retained value.
    pub fn reloading(&self) -> (m: &Memo<bool>)
        requires
            self.wf(),
        ensures
            m.spec_value() == (self.spec_state() is Reloading),
            m.spec_id() == self.reloading_id(),
    {
        &self.reloading
    }

    /// A memo that is `true` when the query has a ready value.
    pub fn ready(&self) -> (m: &Memo<bool>)
        requires
            self.wf(),
        ensures
            m.spec_value() == (self.spec_state() is Ready),
            m.spec_id() == self.ready_id(),
    {
        &self.ready
    }

    /// A memo that is `true` when the query is in an error state.
    pub fn errored(&self) -> (m: &Memo<bool>)
        requires
            self.wf(),
        ensures
            m.spec_value() == (self.spec_state() is Error),
            m.spec_id() == self.errored_id(),
    {
        &self.errored
    }

    /// A memo that is `true` when the query has a latest usable value.
    pub fn has_latest(&self) -> (m: &Memo<bool>)
        requires
            self.wf(),
        ensures
            m.spec_value() == self.spec_state().spec_latest().is_some(),
            m.spec_id() == self.has_latest_id(),
    {
        &self.has_latest
    }

    /// Read the underlying state with dependency tracking and without cloning.
    pub fn read<'a>(&'a self, rt: &mut ReactiveRuntime) -> (s: &'a ResourceState<T, E>)
        requires
            old(rt).wf(),
        ensures
            final(rt).wf(),
            *s == self.spec_state(),
            final(rt)@ == old(rt)@.after_track(self.spec_resource().spec_id()),
    {
        self.resource.read(rt)
    }

    /// Read the latest available value with dependency tracking.
    pub fn read_latest<'a>(&'a self, rt: &mut ReactiveRuntime) -> (v: Option<&'a T>)
        requires
            old(rt).wf(),
        ensures
            final(rt).wf(),
            final(rt)@ == old(rt)@.after_track(self.spec_resource().spec_id()),
            match (v, self.spec_state().spec_latest()) {
                (Some(a), Some(b)) => *a == b,
                (None, None) => true,
                _ => false,
            },
    {
        self.resource.read_latest(rt)
    }

    /// Read the current error with dependency tracking.
    pub fn read_error<'a>(&'a self, rt: &mut ReactiveRuntime) -> (e: Option<&'a E>)
        requires
            old(rt).wf(),
        ensures
            final(rt).wf(),
            final(rt)@ == old(rt)@.after_track(self.spec_resource().spec_id()),
            match (e, self.spec_state().spec_error()) {
                (Some(a), Some(b)) => *a == b,
                (None, None) => true,
                _ => false,
            },
    {
        self.resource.read_error(rt)
    }

    /// Return whether the query has no current value and is loading.
    pub fn is_pending(&self, rt: &mut ReactiveRuntime) -> (b: bool)
        requires
            old(rt).wf(),
        ensures
            final(rt).wf(),
            final(rt)@ == old(rt)@.after_track(self.spec_resource().spec_id()),
            b == (self.spec_state() is Pending),
    {
        self.resource.is_pending(rt)
    }

    /// Return whether the query is currently loading.
    pub fn is_loading(&self, rt: &mut ReactiveRuntime) -> (b: bool)
        requires
            old(rt).wf(),
        ensures
            final(rt).wf(),
            final(rt)@ == old(rt)@.after_track(self.spec_resource().spec_id()),
            b == (self.spec_state() is Pending || self.spec_state() is Reloading),
    {
        self.resource.is_loading(rt)
    }

    /// Return whether the query is reloading with a retained value.
    pub fn is_reloading(&self, rt: &mut ReactiveRuntime) -> (b: bool)
        requires
            old(rt).wf(),
        ensures
            final(rt).wf(),
            final(rt)@ == old(rt)@.after_track(self.spec_resource().spec_id()),
            b == (self.spec_state() is Reloading),
    {
        self.resource.is_reloading(rt)
    }

    /// Return whether the query has a ready value.
    pub fn is_ready(&self, rt: &mut ReactiveRuntime) -> (b: bool)
        requires
            old(rt).wf(),
        ensures
            final(rt).wf(),
            final(rt)@ == old(rt)@.after_track(self.spec_resource().spec_id()),
            b == (self.spec_state() is Ready),
    {
        self.resource.is_ready(rt)
    }

    /// Return whether the query has a latest usable value.
    pub fn has_latest_value(&self, rt: &mut ReactiveRuntime) -> (b: bool)
        requires
            old(rt).wf(),
        ensures
            final(rt).wf(),
            final(rt)@ == old(rt)@.after_track(self.spec_resource().spec_id()),
            b == self.spec_state().spec_latest().is_some(),
    {
        self.resource.has_latest(rt)
    }

    /// Return whether the query is in an error state.
    pub fn is_error(&self, rt: &mut ReactiveRuntime) -> (b: bool)
        requires
            old(rt).wf(),
        ensures
            final(rt).wf(),
            final(rt)@ == old(rt)@.after_track(self.spec_resource().spec_id()),
            b == (self.spec_state() is Error),
    {
        self.resource.is_error(rt)
    }

    /// Mark the query as pending.
    pub fn set_pending(&mut self, rt: &mut ReactiveRuntime) -> (n: SignalNotifications)
        requires
            old(rt).wf(),
            old(self).wf(),
        ensures
            final(rt).wf(),
            final(self).wf(),
            final(self).same_signals(old(self)),
            final(self).spec_state() == ResourceState::<T, E>::Pending,
            final(self).spec_resource().spec_generation() == old(self).spec_resource().spec_generation(),
            old(rt)@.wrote(
                final(rt)@,
                old(self).touched(
                    old(self).spec_state(),
                    ResourceState::Pending,
                    !(old(self).spec_state() is Pending),
                ),
                n,
            ),
    {
        let ghost from = self.resource.spec_state();
        let changed = self.resource.apply_pending();
        self.publish(rt, Ghost(from), changed)
    }

    /// Store a ready value.
    pub fn set_ready(&mut self, rt: &mut ReactiveRuntime, value: T) -> (n: SignalNotifications)
        requires
            old(rt).wf(),
            old(self).wf(),
        ensures
            final(rt).wf(),
            final(self).wf(),
            final(self).same_signals(old(self)),
            final(self).spec_state() == ResourceState::<T, E>::Ready(value),
            final(self).spec_resource().spec_generation() == old(self).spec_resource().spec_generation(),
            old(rt)@.wrote(
                final(rt)@,
                old(self).touched(old(self).spec_state(), ResourceState::Ready(value), true),
                n,
            ),
    {
        let ghost from = self.resource.spec_state();
        self.resource.apply_state(ResourceState::Ready(value));
        self.publish(rt, Ghost(from), true)
    }

    /// Store an error value.
    pub fn set_error(&mut self, rt: &mut ReactiveRuntime, error: E) -> (n: SignalNotifications)
        requires
            old(rt).wf(),
            old(self).wf(),
        ensures
            final(rt).wf(),
            final(self).wf(),
            final(self).same_signals(old(self)),
            final(self).spec_state() == ResourceState::<T, E>::Error(error),
            final(self).spec_resource().spec_generation() == old(self).spec_resource().spec_generation(),
            old(rt)@.wrote(
                final(rt)@,
                old(self).touched(old(self).spec_state(), ResourceState::Error(error), true),
                n,
            ),
    {
        let ghost from = self.resource.spec_state();
        self.resource.apply_state(ResourceState::Error(error));
        self.publish(rt, Ghost(from), true)
    }

    /// Cancel the active load: its completion will be ignored.
    pub fn cancel(&mut self)
        ensures
            final(self).wf() == old(self).wf(),
            final(self).same_signals(old(self)),
            final(self).spec_state() == old(self).spec_state(),
            final(self).spec_resource().spec_generation() == old(
                self,
            ).spec_resource().spec_generation().wrapping_add(1),
    {
        self.resource.cancel();
    }

    /// Cancel the active load and restore the retained value when reloading.
    pub fn cancel_to_latest(&mut self, rt: &mut ReactiveRuntime) -> (n: SignalNotifications)
        requires
            old(rt).wf(),
            old(self).wf(),
        ensures
            final(rt).wf(),
            final(self).wf(),
            final(self).same_signals(old(self)),
            final(self).spec_state() == (match old(self).spec_state() {
                ResourceState::Reloading(v) => ResourceState::Ready(v),
                s => s,
            }),
            final(self).spec_resource().spec_generation() == old(
                self,
            ).spec_resource().spec_generation().wrapping_add(1),
            old(rt)@.wrote(
                final(rt)@,
                old(self).touched(
                    old(self).spec_state(),
                    final(self).spec_state(),
                    old(self).spec_state() is Reloading,
                ),
                n,
            ),
    {
        let ghost from = self.resource.spec_state();
        let changed = self.resource.apply_cancel_to_latest();
        self.publish(rt, Ghost(from), changed)
    }

    /// Start a load in `mode`; returns the load's generation, which the host
    /// hands back to [`Query::complete`].
    pub fn begin_load(&mut self, rt: &mut ReactiveRuntime, mode: LoadMode) -> (r: (
        u64,
        SignalNotifications,
    ))
        requires
            old(rt).wf(),
            old(self).wf(),
        ensures
            final(rt).wf(),
            final(self).wf(),
            final(self).same_signals(old(self)),
            r.0 == old(self).spec_resource().spec_generation().wrapping_add(1),
            final(self).spec_resource().spec_generation() == r.0,
            final(self).spec_state() == load_start(mode, old(self).spec_state()).0,
            old(rt)@.wrote(
                final(rt)@,
                old(self).touched(
                    old(self).spec_state(),
                    load_start(mode, old(self).spec_state()).0,
                    load_start(mode, old(self).spec_state()).1,
                ),
                r.1,
            ),
    {
        let ghost from = self.resource.spec_state();
        let (generation, changed) = self.resource.apply_load(mode);
        let n = self.publish(rt, Ghost(from), changed);
        (generation, n)
    }

    /// Start loading the query from scratch.
    pub fn load(&mut self, rt: &mut ReactiveRuntime) -> (r: (u64, SignalNotifications))
        requires
            old(rt).wf(),
            old(self).wf(),
        ensures
            final(rt).wf(),
            final(self).wf(),
            final(self).same_signals(old(self)),
            r.0 == old(self).spec_resource().spec_generation().wrapping_add(1),
            final(self).spec_resource().spec_generation() == r.0,
            final(self).spec_state() == ResourceState::<T, E>::Pending,
            old(rt)@.wrote(
                final(rt)@,
                old(self).touched(
                    old(self).spec_state(),
                    ResourceState::Pending,
                    !(old(self).spec_state() is Pending),
                ),
                r.1,
            ),
    {
        self.begin_load(rt, LoadMode::Reset)
    }

    /// Reload the query while retaining the latest ready value.
    pub fn reload(&mut self, rt: &mut ReactiveRuntime) -> (r: (u64, SignalNotifications))
        requires
            old(rt).wf(),
            old(self).wf(),
        ensures
            final(rt).wf(),
            final(self).wf(),
            final(self).same_signals(old(self)),
            r.0 == old(self).spec_resource().spec_generation().wrapping_add(1),
            final(self).spec_resource().spec_generation() == r.0,
            final(self).spec_state() == load_start(LoadMode::RetainLatest, old(self).spec_state()).0,
            old(rt)@.wrote(
                final(rt)@,
                old(self).touched(
                    old(self).spec_state(),
                    load_start(LoadMode::RetainLatest, old(self).spec_state()).0,
                    load_start(LoadMode::RetainLatest, old(self).spec_state()).1,
                ),
                r.1,
            ),
    {
        self.begin_load(rt, LoadMode::RetainLatest)
    }

    /// Commit the result of the load started with `generation` unless it is
    /// stale; returns whether it was committed.
    pub fn complete(
        &mut self,
        rt: &mut ReactiveRuntime,
        generation: u64,
        result: Result<T, E>,
    ) -> (r: (bool, SignalNotifications))
        requires
            old(rt).wf(),
            old(self).wf(),
        ensures
            final(rt).wf(),
            final(self).wf(),
            final(self).same_signals(old(self)),
            final(self).spec_resource().spec_generation() == old(self).spec_resource().spec_generation(),
            r.0 == (generation == old(self).spec_resource().spec_generation()),
            r.0 ==> final(self).spec_state() == committed(result) && old(rt)@.wrote(
                final(rt)@,
                old(self).touched(old(self).spec_state(), committed(result), true),
                r.1,
            ),
            !r.0 ==> final(self).spec_state() == old(self).spec_state() && final(rt)@ == old(rt)@
                && r.1.spec_is_empty(),
    {
        let ghost from = self.resource.spec_state();
        if self.resource.apply_complete(generation, result) {
            let n = self.publish(rt, Ghost(from), true);
            (true, n)
        } else {
            (false, SignalNotifications::empty())
        }
    }
}

impl<T: Clone, E: Clone> Query<T, E> {
    /// Clone the current resource state with dependency tracking.
    pub fn get(&self, rt: &mut ReactiveRuntime) -> (s: ResourceState<T, E>)
        requires
            old(rt).wf(),
        ensures
            final(rt).wf(),
            final(rt)@ == old(rt)@.after_track(self.spec_resource().spec_id()),
            cloned_state(self.spec_state(), s),
    {
        self.resource.get(rt)
    }
}

impl<T: Clone, E> Query<T, E> {
    /// Clone the latest available value with dependency tracking.
    pub fn latest(&self, rt: &mut ReactiveRuntime) -> (v: Option<T>)
        requires
            old(rt).wf(),
        ensures
            final(rt).wf(),
            final(rt)@ == old(rt)@.after_track(self.spec_resource().spec_id()),
            match (v, self.spec_state().spec_latest()) {
                (Some(a), Some(b)) => cloned(b, a),
                (None, None) => true,
                _ => false,
            },
    {
        self.resource.latest(rt)
    }
}

impl<T, E: Clone> Query<T, E> {
    /// Clone the current error with dependency tracking.
    pub fn error_value(&self, rt: &mut ReactiveRuntime) -> (e: Option<E>)
        requires
            old(rt).wf(),
        ensures
            final(rt).wf(),
            final(rt)@ == old(rt)@.after_track(self.spec_resource().spec_id()),
            match (e, self.spec_state().spec_error()) {
                (Some(a), Some(b)) => cloned(b, a),
                (None, None) => true,
                _ => false,
            },
    {
        self.resource.error_value(rt)
    }
}

/// Create a pending query model.
pub fn use_query<T, E>(rt: &mut ReactiveRuntime) -> (q: Query<T, E>)
    requires
        old(rt).wf(),
        old(rt)@.next_signal < u64::MAX - 7,
    ensures
        final(rt).wf(),
        q.wf(),
        q.spec_state() == ResourceState::<T, E>::Pending,
        q.spec_resource().spec_generation() == 0,
        final(rt)@ == (RuntimeView { next_signal: (old(rt)@.next_signal + 7) as u64, ..old(rt)@ }),
{
    let resource = Resource::pending(rt);
    Query::from_resource(rt, resource)
}

/// Create a query model that starts with a ready value.
pub fn use_ready_query<T, E>(rt: &mut ReactiveRuntime, value: T) -> (q: Query<T, E>)
    requires
        old(rt).wf(),
        old(rt)@.next_signal < u64::MAX - 7,
    ensures
        final(rt).wf(),
        q.wf(),
        q.spec_state() == ResourceState::<T, E>::Ready(value),
        q.spec_resource().spec_generation() == 0,
        final(rt)@ == (RuntimeView { next_signal: (old(rt)@.next_signal + 7) as u64, ..old(rt)@ }),
{
    let resource = Resource::ready(rt, value);
    Query::from_resource(rt, resource)
}

/// Create a query model that starts with an error value.
pub fn use_error_query<T, E>(rt: &mut ReactiveRuntime, error: E) -> (q: Query<T, E>)
    requires
        old(rt).wf(),
        old(rt)@.next_signal < u64::MAX - 7,
    ensures
        final(rt).wf(),
        q.wf(),
        q.spec_state() == ResourceState::<T, E>::Error(error),
        q.spec_resource().spec_generation() == 0,
        final(rt)@ == (RuntimeView { next_signal: (old(rt)@.next_signal + 7) as u64, ..old(rt)@ }),
{
    let resource = Resource::error(rt, error);
    Query::from_resource(rt, resource)
}

} // verus!
