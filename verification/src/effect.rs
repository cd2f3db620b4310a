//! Effect handles.
//!
//! An effect is a host callback that re-runs when a signal it read changes.
//! The runtime keeps its identity and dependencies; the host keeps the
//! callback and its cleanups, runs it when a notification names it, and
//! records the signals it read with
//! [`ReactiveRuntime::replace_effect_dependencies`].
use vstd::prelude::*;

use crate::runtime::{EffectId, ObserverId, ReactiveRuntime, RuntimeView};

verus! {

/// Handle to a registered reactive effect.
pub struct Effect {
    id: EffectId,
}

impl Effect {
    /// The identity of this effect.
    pub closed spec fn spec_id(&self) -> EffectId {
        self.id
    }

    /// Return this effect's runtime identity.
    pub fn id(&self) -> (id: EffectId)
        ensures
            id == self.spec_id(),
    {
        self.id
    }

    /// Create an effect handle from a known id.
    pub fn from_id(id: EffectId) -> (e: Self)
        ensures
            e.spec_id() == id,
    {
        Effect { id }
    }

    /// Remove the effect and unsubscribe it from all signals.
    pub fn dispose(self, rt: &mut ReactiveRuntime)
        requires
            old(rt).wf(),
        ensures
            final(rt).wf(),
            final(rt)@ == (RuntimeView {
                graph: old(rt)@.graph_without(ObserverId::Effect(self.spec_id())),
                effects: old(rt)@.effects.remove(self.spec_id()),
                pending_effects: old(rt)@.pending_effects.remove(self.spec_id()),
                ..old(rt)@
            }),
    {
        rt.remove_effect_state(self.id);
    }
}

/// Register a new effect. The host attaches the callback to the returned
/// identity and runs it once to discover its dependencies.
pub fn effect(rt: &mut ReactiveRuntime) -> (e: Effect)
    requires
        old(rt).wf(),
        old(rt)@.next_effect < u64::MAX,
    ensures
        final(rt).wf(),
        e.spec_id() == EffectId(old(rt)@.next_effect),
        !old(rt)@.effects.contains(e.spec_id()),
        final(rt)@ == (RuntimeView {
            next_effect: (old(rt)@.next_effect + 1) as u64,
            effects: old(rt)@.effects.insert(e.spec_id()),
            ..old(rt)@
        }),
{
    let id = rt.insert_effect();
    Effect { id }
}

} // verus!
