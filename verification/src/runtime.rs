//! The reactive runtime: signal and effect identities, the dependency graph
//! between signals and their observers, tracking scopes and batching.
//!
//! The runtime only records *which* observers depend on *which* signals. It
//! never runs an observer itself: every operation that may wake observers
//! returns a [`SignalNotifications`] value naming the entities to refresh and
//! the effects to run, and the host flushes it.
use vstd::prelude::*;

verus! {

broadcast use {vstd::seq_lib::group_seq_properties, vstd::set_lib::group_set_properties};

/// Stable identifier for a reactive signal.
#[derive(Debug, Clone, Copy, PartialEq, Eq, Structural, Hash)]
pub struct SignalId(pub u64);

/// Stable identifier for a reactive effect.
#[derive(Debug, Clone, Copy, PartialEq, Eq, Structural, Hash)]
pub struct EffectId(pub u64);

/// Identifier of a host view entity that renders with dependency tracking.
#[derive(Debug, Clone, Copy, PartialEq, Eq, Structural, Hash)]
pub struct EntityId(pub u64);

/// Something that observes signals: a rendering entity or an effect.
#[derive(Debug, Clone, Copy, PartialEq, Eq, Structural, Hash)]
pub enum ObserverId {
    Entity(EntityId),
    Effect(EffectId),
}

/// One dependency edge: `observer` read `signal` in its latest run.
#[derive(Debug, Clone, Copy, PartialEq, Eq, Structural, Hash)]
pub struct Edge {
    pub signal: SignalId,
    pub observer: ObserverId,
}

/// Observers to wake after a signal write.
#[derive(Debug)]
pub struct SignalNotifications {
    pub entities: Vec<EntityId>,
    pub effects: Vec<EffectId>,
}

impl SignalNotifications {
    /// Notifications that wake nothing.
    pub fn empty() -> (n: Self)
        ensures
            n.entities@.len() == 0,
            n.effects@.len() == 0,
    {
        SignalNotifications { entities: Vec::new(), effects: Vec::new() }
    }

    pub open spec fn spec_is_empty(&self) -> bool {
        self.entities@.len() == 0 && self.effects@.len() == 0
    }

    /// Whether nothing needs to be woken.
    pub fn is_empty(&self) -> (b: bool)
        ensures
            b == self.spec_is_empty(),
    {
        self.entities.len() == 0 && self.effects.len() == 0
    }

    /// Append the notifications of `other` after those of `self`.
    pub fn append(&mut self, other: SignalNotifications)
        ensures
            final(self).entities@ == old(self).entities@ + other.entities@,
            final(self).effects@ == old(self).effects@ + other.effects@,
    {
        let mut other = other;
        self.entities.append(&mut other.entities);
        self.effects.append(&mut other.effects);
    }
}

/// Mathematical view of one tracking scope.
pub struct ScopeView {
    pub deps: Set<SignalId>,
    pub suppress: bool,
}

/// Mathematical view of the runtime.
pub struct RuntimeView {
    pub next_signal: u64,
    pub next_effect: u64,
    pub stack: Seq<ScopeView>,
    pub graph: Set<Edge>,
    pub effects: Set<EffectId>,
    pub batch_depth: nat,
    pub pending_entities: Set<EntityId>,
    pub pending_effects: Set<EffectId>,
    pub release_registered: Set<EntityId>,
}

impl RuntimeView {
    /// Whether `observer` currently depends on `signal`.
    pub open spec fn observes(self, signal: SignalId, observer: ObserverId) -> bool {
        self.graph.contains(Edge { signal, observer })
    }

    /// Every observer of `signal`.
    pub open spec fn observers_of(self, signal: SignalId) -> Set<ObserverId> {
        Set::new(|o: ObserverId| self.observes(signal, o))
    }

    /// Every signal that `observer` depends on.
    pub open spec fn deps_of(self, observer: ObserverId) -> Set<SignalId> {
        Set::new(|s: SignalId| self.observes(s, observer))
    }

    /// The graph after `observer`'s dependencies are replaced by `deps`.
    pub open spec fn graph_with_deps(self, observer: ObserverId, deps: Set<SignalId>) -> Set<Edge> {
        Set::new(
            |e: Edge|
                if e.observer == observer {
                    deps.contains(e.signal)
                } else {
                    self.graph.contains(e)
                },
        )
    }

    /// The graph without any edge of `observer`.
    pub open spec fn graph_without(self, observer: ObserverId) -> Set<Edge> {
        Set::new(|e: Edge| self.graph.contains(e) && e.observer != observer)
    }

    /// Whether a read of `signal` is recorded by the innermost scope.
    pub open spec fn records(self) -> bool {
        self.stack.len() > 0 && !self.stack.last().suppress
    }

    /// The view after a tracked read of `signal`.
    pub open spec fn after_track(self, signal: SignalId) -> RuntimeView {
        if self.records() {
            let top = self.stack.last();
            RuntimeView {
                stack: self.stack.update(
                    self.stack.len() - 1,
                    ScopeView { deps: top.deps.insert(signal), suppress: false },
                ),
                ..self
            }
        } else {
            self
        }
    }

    /// The entities that observe `signal`.
    pub open spec fn entity_observers(self, signal: SignalId) -> Set<EntityId> {
        Set::new(|e: EntityId| self.observes(signal, ObserverId::Entity(e)))
    }

    /// The effects that observe `signal`.
    pub open spec fn effect_observers(self, signal: SignalId) -> Set<EffectId> {
        Set::new(|f: EffectId| self.observes(signal, ObserverId::Effect(f)))
    }

    /// The entities that observe any of `signals`.
    pub open spec fn entities_woken(self, signals: Set<SignalId>) -> Set<EntityId> {
        Set::new(|e: EntityId| exists|s: SignalId| signals.contains(s) && self.observes(s, ObserverId::Entity(e)))
    }

    /// The effects that observe any of `signals`.
    pub open spec fn effects_woken(self, signals: Set<SignalId>) -> Set<EffectId> {
        Set::new(|f: EffectId| exists|s: SignalId| signals.contains(s) && self.observes(s, ObserverId::Effect(f)))
    }

    /// What writes of all of `signals` do, as one batch: outside a batch the
    /// observers of any of them are returned, each once; inside a batch they
    /// are queued and nothing is returned.
    pub open spec fn wrote(
        self,
        post: RuntimeView,
        signals: Set<SignalId>,
        n: SignalNotifications,
    ) -> bool {
        &&& n.entities@.no_duplicates()
        &&& n.effects@.no_duplicates()
        &&& if self.batch_depth > 0 {
            &&& n.spec_is_empty()
            &&& post == RuntimeView {
                pending_entities: self.pending_entities.union(self.entities_woken(signals)),
                pending_effects: self.pending_effects.union(self.effects_woken(signals)),
                ..self
            }
        } else {
            &&& post == self
            &&& n.entities@.to_set() == self.entities_woken(signals)
            &&& n.effects@.to_set() == self.effects_woken(signals)
        }
    }

    /// What leaving a batch does: leaving the outermost batch hands out, and
    /// clears, every queued observer; leaving an inner batch, or leaving when
    /// no batch is open, hands out nothing.
    pub open spec fn batch_exited(self, post: RuntimeView, n: SignalNotifications) -> bool {
        &&& n.entities@.no_duplicates()
        &&& n.effects@.no_duplicates()
        &&& self.batch_depth == 0 ==> post == self && n.spec_is_empty()
        &&& self.batch_depth > 1 ==> n.spec_is_empty() && post == RuntimeView {
            batch_depth: (self.batch_depth - 1) as nat,
            ..self
        }
        &&& self.batch_depth == 1 ==> {
            &&& n.entities@.to_set() == self.pending_entities
            &&& n.effects@.to_set() == self.pending_effects
            &&& post == RuntimeView {
                batch_depth: 0,
                pending_entities: Set::empty(),
                pending_effects: Set::empty(),
                ..self
            }
        }
    }

    /// What a write of `signal` does to the runtime and what it wakes: outside
    /// a batch the observers are returned at once; inside a batch they are
    /// queued and nothing is returned.
    pub open spec fn notified(
        self,
        post: RuntimeView,
        signal: SignalId,
        n: SignalNotifications,
    ) -> bool {
        &&& n.entities@.no_duplicates()
        &&& n.effects@.no_duplicates()
        &&& if self.batch_depth > 0 {
            &&& n.spec_is_empty()
            &&& post == RuntimeView {
                pending_entities: self.pending_entities.union(self.entity_observers(signal)),
                pending_effects: self.pending_effects.union(self.effect_observers(signal)),
                ..self
            }
        } else {
            &&& post == self
            &&& n.entities@.to_set() == self.entity_observers(signal)
            &&& n.effects@.to_set() == self.effect_observers(signal)
        }
    }
}

/// Runtime state of one tracking scope.
struct TrackingScope {
    deps: Vec<SignalId>,
    /// When true, signal reads inside this scope are not recorded.
    suppress: bool,
}

/// Relay's dependency graph and scheduler state.
pub struct ReactiveRuntime {
    next_signal_id: u64,
    next_effect_id: u64,
    tracking_stack: Vec<TrackingScope>,
    edges: Vec<Edge>,
    effects: Vec<EffectId>,
    batch_depth: usize,
    pending_entities: Vec<EntityId>,
    pending_effects: Vec<EffectId>,
    release_registered: Vec<EntityId>,
}

spec fn scope_view(s: TrackingScope) -> ScopeView {
    ScopeView { deps: s.deps@.to_set(), suppress: s.suppress }
}

impl View for ReactiveRuntime {
    type V = RuntimeView;

    closed spec fn view(&self) -> RuntimeView {
        RuntimeView {
            next_signal: self.next_signal_id,
            next_effect: self.next_effect_id,
            stack: self.tracking_stack@.map_values(|s: TrackingScope| scope_view(s)),
            graph: self.edges@.to_set(),
            effects: self.effects@.to_set(),
            batch_depth: self.batch_depth as nat,
            pending_entities: self.pending_entities@.to_set(),
            pending_effects: self.pending_effects@.to_set(),
            release_registered: self.release_registered@.to_set(),
        }
    }
}

fn contains_signal(v: &Vec<SignalId>, s: SignalId) -> (b: bool)
    ensures
        b == v@.contains(s),
{
    let mut i: usize = 0;
    while i < v.len()
        invariant
            i <= v.len(),
            forall|j: int| 0 <= j < i ==> v@[j] != s,
        decreases v.len() - i,
    {
        if v[i] == s {
            return true;
        }
        i = i + 1;
    }
    false
}

fn contains_entity(v: &Vec<EntityId>, e: EntityId) -> (b: bool)
    ensures
        b == v@.contains(e),
{
    let mut i: usize = 0;
    while i < v.len()
        invariant
            i <= v.len(),
            forall|j: int| 0 <= j < i ==> v@[j] != e,
        decreases v.len() - i,
    {
        if v[i] == e {
            return true;
        }
        i = i + 1;
    }
    false
}

fn contains_effect(v: &Vec<EffectId>, e: EffectId) -> (b: bool)
    ensures
        b == v@.contains(e),
{
    let mut i: usize = 0;
    while i < v.len()
        invariant
            i <= v.len(),
            forall|j: int| 0 <= j < i ==> v@[j] != e,
        decreases v.len() - i,
    {
        if v[i] == e {
            return true;
        }
        i = i + 1;
    }
    false
}

fn contains_edge(v: &Vec<Edge>, e: Edge) -> (b: bool)
    ensures
        b == v@.contains(e),
{
    let mut i: usize = 0;
    while i < v.len()
        invariant
            i <= v.len(),
            forall|j: int| 0 <= j < i ==> v@[j] != e,
        decreases v.len() - i,
    {
        if v[i] == e {
            return true;
        }
        i = i + 1;
    }
    false
}

proof fn lemma_push_no_duplicates<A>(s: Seq<A>, x: A)
    requires
        s.no_duplicates(),
        !s.contains(x),
    ensures
        s.push(x).no_duplicates(),
{
    assert forall|i: int, j: int|
        0 <= i < s.push(x).len() && 0 <= j < s.push(x).len() && i != j implies s.push(x)[i] != s.push(
        x,
    )[j] by {
        if i < s.len() && j < s.len() {
        } else if i == s.len() {
            assert(s[j] == s.push(x)[j]);
        } else {
            assert(s[i] == s.push(x)[i]);
        }
    }
}

/// Push `x` unless it is already present.
fn insert_entity(v: &mut Vec<EntityId>, x: EntityId)
    requires
        old(v)@.no_duplicates(),
    ensures
        final(v)@.no_duplicates(),
        final(v)@.to_set() == old(v)@.to_set().insert(x),
{
    if !contains_entity(v, x) {
        v.push(x);
    }
    assert(v@.to_set() =~= old(v)@.to_set().insert(x));
}

fn insert_effect_id(v: &mut Vec<EffectId>, x: EffectId)
    requires
        old(v)@.no_duplicates(),
    ensures
        final(v)@.no_duplicates(),
        final(v)@.to_set() == old(v)@.to_set().insert(x),
{
    if !contains_effect(v, x) {
        v.push(x);
    }
    assert(v@.to_set() =~= old(v)@.to_set().insert(x));
}

fn insert_signal(v: &mut Vec<SignalId>, x: SignalId)
    requires
        old(v)@.no_duplicates(),
    ensures
        final(v)@.no_duplicates(),
        final(v)@.to_set() == old(v)@.to_set().insert(x),
{
    if !contains_signal(v, x) {
        v.push(x);
    }
    assert(v@.to_set() =~= old(v)@.to_set().insert(x));
}

/// Remove every occurrence of `x`.
fn remove_entity_id(v: &mut Vec<EntityId>, x: EntityId)
    requires
        old(v)@.no_duplicates(),
    ensures
        final(v)@.no_duplicates(),
        final(v)@.to_set() == old(v)@.to_set().remove(x),
        final(v)@.len() <= old(v)@.len(),
{
    let ghost start = v@;
    let mut out: Vec<EntityId> = Vec::new();
    let mut i: usize = 0;
    while i < v.len()
        invariant
            i <= v.len(),
            v@ == start,
            start.no_duplicates(),
            out@.no_duplicates(),
            out@.len() <= i,
            forall|y: EntityId| out@.contains(y) <==> (start.subrange(0, i as int).contains(y) && y != x),
        decreases v.len() - i,
    {
        let y = v[i];
        proof {
            assert(start.subrange(0, i + 1) =~= start.subrange(0, i as int).push(y));
        }
        if y != x {
            proof {
                assert(!start.subrange(0, i as int).contains(y));
                lemma_push_no_duplicates(out@, y);
            }
            out.push(y);
        }
        i = i + 1;
    }
    proof {
        assert(start.subrange(0, start.len() as int) =~= start);
        assert(out@.to_set() =~= start.to_set().remove(x));
    }
    *v = out;
}

fn remove_effect_id(v: &mut Vec<EffectId>, x: EffectId)
    requires
        old(v)@.no_duplicates(),
    ensures
        final(v)@.no_duplicates(),
        final(v)@.to_set() == old(v)@.to_set().remove(x),
        final(v)@.len() <= old(v)@.len(),
{
    let ghost start = v@;
    let mut out: Vec<EffectId> = Vec::new();
    let mut i: usize = 0;
    while i < v.len()
        invariant
            i <= v.len(),
            v@ == start,
            start.no_duplicates(),
            out@.no_duplicates(),
            out@.len() <= i,
            forall|y: EffectId| out@.contains(y) <==> (start.subrange(0, i as int).contains(y) && y != x),
        decreases v.len() - i,
    {
        let y = v[i];
        proof {
            assert(start.subrange(0, i + 1) =~= start.subrange(0, i as int).push(y));
        }
        if y != x {
            proof {
                assert(!start.subrange(0, i as int).contains(y));
                lemma_push_no_duplicates(out@, y);
            }
            out.push(y);
        }
        i = i + 1;
    }
    proof {
        assert(start.subrange(0, start.len() as int) =~= start);
        assert(out@.to_set() =~= start.to_set().remove(x));
    }
    *v = out;
}

impl ReactiveRuntime {
    /// The structural invariant of the runtime: no collection holds an element twice.
    pub closed spec fn wf(&self) -> bool {
        &&& self.edges@.no_duplicates()
        &&& self.effects@.no_duplicates()
        &&& self.pending_entities@.no_duplicates()
        &&& self.pending_effects@.no_duplicates()
        &&& self.release_registered@.no_duplicates()
        &&& self.batch_depth == 0 ==> self.pending_entities@.len() == 0 && self.pending_effects@.len() == 0
        &&& forall|f: EffectId| #[trigger] self.effects@.contains(f) ==> f.0 < self.next_effect_id
        &&& forall|i: int|
            0 <= i < self.tracking_stack@.len() ==> (#[trigger] self.tracking_stack@[i]).deps@.no_duplicates()
    }

    /// Create a runtime with no signals, effects, scopes or dependencies.
    pub fn new() -> (rt: Self)
        ensures
            rt.wf(),
            rt@.next_signal == 0,
            rt@.next_effect == 0,
            rt@.stack.len() == 0,
            rt@.graph == Set::<Edge>::empty(),
            rt@.effects == Set::<EffectId>::empty(),
            rt@.batch_depth == 0,
            rt@.pending_entities == Set::<EntityId>::empty(),
            rt@.pending_effects == Set::<EffectId>::empty(),
            rt@.release_registered == Set::<EntityId>::empty(),
    {
        let rt = ReactiveRuntime {
            next_signal_id: 0,
            next_effect_id: 0,
            tracking_stack: Vec::new(),
            edges: Vec::new(),
            effects: Vec::new(),
            batch_depth: 0,
            pending_entities: Vec::new(),
            pending_effects: Vec::new(),
            release_registered: Vec::new(),
        };
        proof {
            assert(rt@.stack =~= Seq::<ScopeView>::empty());
            assert(rt@.graph =~= Set::<Edge>::empty());
            assert(rt@.effects =~= Set::<EffectId>::empty());
            assert(rt@.pending_entities =~= Set::<EntityId>::empty());
            assert(rt@.pending_effects =~= Set::<EffectId>::empty());
            assert(rt@.release_registered =~= Set::<EntityId>::empty());
        }
        rt
    }

    /// Allocate a fresh signal identity.
    pub fn allocate_signal(&mut self) -> (id: SignalId)
        requires
            old(self).wf(),
            old(self)@.next_signal < u64::MAX,
        ensures
            final(self).wf(),
            id == SignalId(old(self)@.next_signal),
            final(self)@ == (RuntimeView { next_signal: (old(self)@.next_signal + 1) as u64, ..old(self)@ }),
    {
        let id = SignalId(self.next_signal_id);
        self.next_signal_id = self.next_signal_id + 1;
        id
    }

    /// Register a new effect and return its identity.
    pub fn insert_effect(&mut self) -> (id: EffectId)
        requires
            old(self).wf(),
            old(self)@.next_effect < u64::MAX,
        ensures
            final(self).wf(),
            id == EffectId(old(self)@.next_effect),
            !old(self)@.effects.contains(id),
            final(self)@ == (RuntimeView {
                next_effect: (old(self)@.next_effect + 1) as u64,
                effects: old(self)@.effects.insert(id),
                ..old(self)@
            }),
    {
        let id = EffectId(self.next_effect_id);
        self.next_effect_id = self.next_effect_id + 1;
        let ghost before = self.effects@;
        insert_effect_id(&mut self.effects, id);
        proof {
            assert forall|f: EffectId| #[trigger] self.effects@.contains(f) implies f.0 < self.next_effect_id by {
                assert(self.effects@.to_set().contains(f));
                if f != id {
                    assert(before.to_set().contains(f));
                }
            }
        }
        id
    }

    /// Whether `effect` is registered.
    pub fn effect_registered(&self, effect: EffectId) -> (b: bool)
        ensures
            b == self@.effects.contains(effect),
    {
        contains_effect(&self.effects, effect)
    }

    /// The number of open tracking scopes.
    pub fn tracking_depth(&self) -> (n: usize)
        ensures
            n == self@.stack.len(),
    {
        self.tracking_stack.len()
    }

    /// The current batch nesting depth.
    pub fn batch_depth(&self) -> (n: usize)
        ensures
            n == self@.batch_depth,
    {
        self.batch_depth
    }

    /// The next signal identity, which `allocate_signal` will hand out.
    pub fn next_signal_id(&self) -> (n: u64)
        ensures
            n == self@.next_signal,
    {
        self.next_signal_id
    }

    /// The next effect identity, which `insert_effect` will hand out.
    pub fn next_effect_id(&self) -> (n: u64)
        ensures
            n == self@.next_effect,
    {
        self.next_effect_id
    }

    /// Record a read of `signal` in the innermost scope, unless there is no
    /// scope or the innermost scope suppresses tracking.
    pub fn track_signal(&mut self, signal: SignalId)
        requires
            old(self).wf(),
        ensures
            final(self).wf(),
            final(self)@ == old(self)@.after_track(signal),
    {
        let n = self.tracking_stack.len();
        if n == 0 {
            return;
        }
        if self.tracking_stack[n - 1].suppress {
            return;
        }
        let ghost old_stack = self.tracking_stack@;
        let mut scope = self.tracking_stack.pop().unwrap();
        proof {
            assert(scope == old_stack[n - 1]);
        }
        insert_signal(&mut scope.deps, signal);
        self.tracking_stack.push(scope);
        proof {
            assert(self.tracking_stack@ =~= old_stack.update(n - 1, scope));
            assert forall|i: int| 0 <= i < self.tracking_stack@.len() implies (
            #[trigger] self.tracking_stack@[i]).deps@.no_duplicates() by {
                if i != n - 1 {
                    assert(self.tracking_stack@[i] == old_stack[i]);
                }
            }
            assert(self@.stack =~= old(self)@.stack.update(
                n - 1,
                ScopeView { deps: old(self)@.stack.last().deps.insert(signal), suppress: false },
            ));
        }
    }

    /// Open a scope that records signal reads.
    pub fn begin_tracking(&mut self)
        requires
            old(self).wf(),
        ensures
            final(self).wf(),
            final(self)@ == (RuntimeView {
                stack: old(self)@.stack.push(ScopeView { deps: Set::empty(), suppress: false }),
                ..old(self)@
            }),
    {
        let ghost old_stack = self.tracking_stack@;
        self.tracking_stack.push(TrackingScope { deps: Vec::new(), suppress: false });
        proof {
            assert(self.tracking_stack@[old_stack.len() as int].deps@ =~= Seq::<SignalId>::empty());
            assert(self@.stack.last().deps =~= Set::<SignalId>::empty());
            assert(self@.stack =~= old(self)@.stack.push(
                ScopeView { deps: Set::empty(), suppress: false },
            ));
        }
    }

    /// Open a scope in which signal reads are not recorded.
    pub fn begin_untracked_scope(&mut self)
        requires
            old(self).wf(),
        ensures
            final(self).wf(),
            final(self)@ == (RuntimeView {
                stack: old(self)@.stack.push(ScopeView { deps: Set::empty(), suppress: true }),
                ..old(self)@
            }),
    {
        let ghost old_stack = self.tracking_stack@;
        self.tracking_stack.push(TrackingScope { deps: Vec::new(), suppress: true });
        proof {
            assert(self.tracking_stack@[old_stack.len() as int].deps@ =~= Seq::<SignalId>::empty());
            assert(self@.stack.last().deps =~= Set::<SignalId>::empty());
            assert(self@.stack =~= old(self)@.stack.push(
                ScopeView { deps: Set::empty(), suppress: true },
            ));
        }
    }

    /// Close the innermost scope and return the signals it recorded; with no
    /// open scope nothing changes and nothing is returned.
    pub fn end_tracking(&mut self) -> (deps: Vec<SignalId>)
        requires
            old(self).wf(),
        ensures
            final(self).wf(),
            deps@.no_duplicates(),
            old(self)@.stack.len() == 0 ==> deps@.len() == 0 && final(self)@ == old(self)@,
            old(self)@.stack.len() > 0 ==> {
                &&& deps@.to_set() == old(self)@.stack.last().deps
                &&& final(self)@ == (RuntimeView { stack: old(self)@.stack.drop_last(), ..old(self)@ })
            },
    {
        let ghost old_stack = self.tracking_stack@;
        match self.tracking_stack.pop() {
            Some(scope) => {
                proof {
                    assert(self.tracking_stack@ =~= old_stack.drop_last());
                    assert(self@.stack =~= old(self)@.stack.drop_last());
                    assert(scope == old_stack[old_stack.len() - 1]);
                }
                scope.deps
            },
            None => Vec::new(),
        }
    }

    /// The entities and effects that observe `signal`, in graph order.
    fn observers_split(&self, signal: SignalId) -> (n: SignalNotifications)
        requires
            self.wf(),
        ensures
            n.entities@.no_duplicates(),
            n.effects@.no_duplicates(),
            n.entities@.to_set() == self@.entity_observers(signal),
            n.effects@.to_set() == self@.effect_observers(signal),
            n.entities@.len() + n.effects@.len() <= self.edges@.len(),
    {
        let mut entities: Vec<EntityId> = Vec::new();
        let mut effects: Vec<EffectId> = Vec::new();
        let mut i: usize = 0;
        while i < self.edges.len()
            invariant
                self.wf(),
                i <= self.edges.len(),
                entities@.no_duplicates(),
                effects@.no_duplicates(),
                entities@.len() + effects@.len() <= i,
                forall|e: EntityId|
                    entities@.contains(e) <==> self.edges@.subrange(0, i as int).contains(
                        Edge { signal, observer: ObserverId::Entity(e) },
                    ),
                forall|f: EffectId|
                    effects@.contains(f) <==> self.edges@.subrange(0, i as int).contains(
                        Edge { signal, observer: ObserverId::Effect(f) },
                    ),
            decreases self.edges.len() - i,
        {
            let edge = self.edges[i];
            proof {
                assert(self.edges@.subrange(0, i + 1) =~= self.edges@.subrange(0, i as int).push(edge));
                assert(!self.edges@.subrange(0, i as int).contains(edge));
            }
            if edge.signal == signal {
                match edge.observer {
                    ObserverId::Entity(e) => {
                        proof {
                            lemma_push_no_duplicates(entities@, e);
                        }
                        entities.push(e);
                    },
                    ObserverId::Effect(f) => {
                        proof {
                            lemma_push_no_duplicates(effects@, f);
                        }
                        effects.push(f);
                    },
                }
            }
            i = i + 1;
        }
        proof {
            assert(self.edges@.subrange(0, self.edges@.len() as int) =~= self.edges@);
            assert(entities@.to_set() =~= self@.entity_observers(signal));
            assert(effects@.to_set() =~= self@.effect_observers(signal));
        }
        SignalNotifications { entities, effects }
    }

    /// Wake the observers of `signal`: outside a batch they are returned;
    /// inside a batch they are queued until the outermost batch exits.
    pub fn notify_signal(&mut self, signal: SignalId) -> (n: SignalNotifications)
        requires
            old(self).wf(),
        ensures
            final(self).wf(),
            old(self)@.notified(final(self)@, signal, n),
    {
        let observers = self.observers_split(signal);
        if self.batch_depth > 0 {
            let mut i: usize = 0;
            let ghost pe0 = self.pending_entities@.to_set();
            proof {
                assert(pe0.union(observers.entities@.subrange(0, 0).to_set()) =~= pe0);
            }
            while i < observers.entities.len()
                invariant
                    self.wf(),
                    self.batch_depth > 0,
                    i <= observers.entities.len(),
                    self@ == (RuntimeView {
                        pending_entities: pe0.union(observers.entities@.subrange(0, i as int).to_set()),
                        ..old(self)@
                    }),
                decreases observers.entities.len() - i,
            {
                let ghost before = self.pending_entities@.to_set();
                insert_entity(&mut self.pending_entities, observers.entities[i]);
                proof {
                    assert(observers.entities@.subrange(0, i + 1) =~= observers.entities@.subrange(
                        0,
                        i as int,
                    ).push(observers.entities@[i as int]));
                    assert(pe0.union(observers.entities@.subrange(0, i + 1).to_set()) =~= before.insert(
                        observers.entities@[i as int],
                    ));
                }
                i = i + 1;
            }
            let mut j: usize = 0;
            let ghost pf0 = self.pending_effects@.to_set();
            let ghost mid = self@;
            proof {
                assert(pf0.union(observers.effects@.subrange(0, 0).to_set()) =~= pf0);
            }
            while j < observers.effects.len()
                invariant
                    self.wf(),
                    self.batch_depth > 0,
                    j <= observers.effects.len(),
                    self@ == (RuntimeView {
                        pending_effects: pf0.union(observers.effects@.subrange(0, j as int).to_set()),
                        ..mid
                    }),
                decreases observers.effects.len() - j,
            {
                let ghost before = self.pending_effects@.to_set();
                insert_effect_id(&mut self.pending_effects, observers.effects[j]);
                proof {
                    assert(observers.effects@.subrange(0, j + 1) =~= observers.effects@.subrange(
                        0,
                        j as int,
                    ).push(observers.effects@[j as int]));
                    assert(pf0.union(observers.effects@.subrange(0, j + 1).to_set()) =~= before.insert(
                        observers.effects@[j as int],
                    ));
                }
                j = j + 1;
            }
            proof {
                assert(observers.entities@.subrange(0, observers.entities@.len() as int)
                    =~= observers.entities@);
                assert(observers.effects@.subrange(0, observers.effects@.len() as int)
                    =~= observers.effects@);
            }
            SignalNotifications::empty()
        } else {
            observers
        }
    }

    /// Wake the observers of every signal in `signals` as one batch.
    pub fn notify_all(&mut self, signals: &Vec<SignalId>) -> (n: SignalNotifications)
        requires
            old(self).wf(),
        ensures
            final(self).wf(),
            old(self)@.wrote(final(self)@, signals@.to_set(), n),
    {
        let mut entities: Vec<EntityId> = Vec::new();
        let mut effects: Vec<EffectId> = Vec::new();
        let mut i: usize = 0;
        let ghost pre = self@;
        proof {
            assert(pre.entities_woken(signals@.subrange(0, 0).to_set()) =~= Set::empty());
            assert(pre.effects_woken(signals@.subrange(0, 0).to_set()) =~= Set::empty());
            assert(pre.pending_entities.union(Set::empty()) =~= pre.pending_entities);
            assert(pre.pending_effects.union(Set::empty()) =~= pre.pending_effects);
        }
        while i < signals.len()
            invariant
                self.wf(),
                i <= signals.len(),
                pre == old(self)@,
                entities@.no_duplicates(),
                effects@.no_duplicates(),
                pre.batch_depth > 0 ==> entities@.len() == 0 && effects@.len() == 0 && self@ == (RuntimeView {
                    pending_entities: pre.pending_entities.union(
                        pre.entities_woken(signals@.subrange(0, i as int).to_set()),
                    ),
                    pending_effects: pre.pending_effects.union(
                        pre.effects_woken(signals@.subrange(0, i as int).to_set()),
                    ),
                    ..pre
                }),
                pre.batch_depth == 0 ==> self@ == pre && entities@.to_set() == pre.entities_woken(
                    signals@.subrange(0, i as int).to_set(),
                ) && effects@.to_set() == pre.effects_woken(signals@.subrange(0, i as int).to_set()),
            decreases signals.len() - i,
        {
            let s = signals[i];
            let ghost before = self@;
            let ghost prefix = signals@.subrange(0, i as int).to_set();
            proof {
                assert(signals@.subrange(0, i + 1) =~= signals@.subrange(0, i as int).push(s));
                assert(signals@.subrange(0, i + 1).to_set() =~= prefix.insert(s));
                assert forall|e: EntityId| pre.entities_woken(prefix.insert(s)).contains(e) <==> pre.entities_woken(
                    prefix,
                ).union(pre.entity_observers(s)).contains(e) by {
                    if pre.entities_woken(prefix.insert(s)).contains(e) {
                        let w = choose|w: SignalId| prefix.insert(s).contains(w) && pre.observes(w, ObserverId::Entity(e));
                        if w != s {
                            assert(prefix.contains(w));
                        }
                    }
                    if pre.entities_woken(prefix).contains(e) {
                        let w = choose|w: SignalId| prefix.contains(w) && pre.observes(w, ObserverId::Entity(e));
                        assert(prefix.insert(s).contains(w));
                    }
                    if pre.entity_observers(s).contains(e) {
                        assert(prefix.insert(s).contains(s));
                    }
                }
                assert forall|f: EffectId| pre.effects_woken(prefix.insert(s)).contains(f) <==> pre.effects_woken(
                    prefix,
                ).union(pre.effect_observers(s)).contains(f) by {
                    if pre.effects_woken(prefix.insert(s)).contains(f) {
                        let w = choose|w: SignalId| prefix.insert(s).contains(w) && pre.observes(w, ObserverId::Effect(f));
                        if w != s {
                            assert(prefix.contains(w));
                        }
                    }
                    if pre.effects_woken(prefix).contains(f) {
                        let w = choose|w: SignalId| prefix.contains(w) && pre.observes(w, ObserverId::Effect(f));
                        assert(prefix.insert(s).contains(w));
                    }
                    if pre.effect_observers(s).contains(f) {
                        assert(prefix.insert(s).contains(s));
                    }
                }
                assert(pre.entities_woken(prefix.insert(s)) =~= pre.entities_woken(prefix).union(
                    pre.entity_observers(s),
                ));
                assert(pre.effects_woken(prefix.insert(s)) =~= pre.effects_woken(prefix).union(
                    pre.effect_observers(s),
                ));
            }
            if self.batch_depth > 0 {
                let _ = self.notify_signal(s);
                proof {
                    assert(before.entity_observers(s) == pre.entity_observers(s));
                    assert(self@.pending_entities =~= pre.pending_entities.union(
                        pre.entities_woken(prefix.insert(s)),
                    ));
                    assert(self@.pending_effects =~= pre.pending_effects.union(
                        pre.effects_woken(prefix.insert(s)),
                    ));
                }
            } else {
                let observers = self.observers_split(s);
                let mut k: usize = 0;
                let ghost e0 = entities@.to_set();
                proof {
                    assert(observers.entities@.subrange(0, 0).to_set() =~= Set::<EntityId>::empty());
                    assert(e0.union(Set::<EntityId>::empty()) =~= e0);
                }
                while k < observers.entities.len()
                    invariant
                        k <= observers.entities.len(),
                        entities@.no_duplicates(),
                        entities@.to_set() == e0.union(observers.entities@.subrange(0, k as int).to_set()),
                    decreases observers.entities.len() - k,
                {
                    let ghost b = entities@.to_set();
                    insert_entity(&mut entities, observers.entities[k]);
                    proof {
                        assert(observers.entities@.subrange(0, k + 1) =~= observers.entities@.subrange(
                            0,
                            k as int,
                        ).push(observers.entities@[k as int]));
                        assert(e0.union(observers.entities@.subrange(0, k + 1).to_set()) =~= b.insert(
                            observers.entities@[k as int],
                        ));
                    }
                    k = k + 1;
                }
                let mut k: usize = 0;
                let ghost f0 = effects@.to_set();
                proof {
                    assert(observers.entities@.subrange(0, observers.entities@.len() as int)
                        =~= observers.entities@);
                    assert(observers.effects@.subrange(0, 0).to_set() =~= Set::<EffectId>::empty());
                    assert(f0.union(Set::<EffectId>::empty()) =~= f0);
                }
                while k < observers.effects.len()
                    invariant
                        k <= observers.effects.len(),
                        effects@.no_duplicates(),
                        effects@.to_set() == f0.union(observers.effects@.subrange(0, k as int).to_set()),
                    decreases observers.effects.len() - k,
                {
                    let ghost b = effects@.to_set();
                    insert_effect_id(&mut effects, observers.effects[k]);
                    proof {
                        assert(observers.effects@.subrange(0, k + 1) =~= observers.effects@.subrange(
                            0,
                            k as int,
                        ).push(observers.effects@[k as int]));
                        assert(f0.union(observers.effects@.subrange(0, k + 1).to_set()) =~= b.insert(
                            observers.effects@[k as int],
                        ));
                    }
                    k = k + 1;
                }
                proof {
                    assert(observers.effects@.subrange(0, observers.effects@.len() as int)
                        =~= observers.effects@);
                    assert(entities@.to_set() =~= pre.entities_woken(prefix.insert(s)));
                    assert(effects@.to_set() =~= pre.effects_woken(prefix.insert(s)));
                }
            }
            i = i + 1;
        }
        proof {
            assert(signals@.subrange(0, signals@.len() as int) =~= signals@);
        }
        SignalNotifications { entities, effects }
    }

    /// Replace every dependency of `observer` with the signals in `deps`.
    pub fn replace_observer_dependencies(&mut self, observer: ObserverId, deps: Vec<SignalId>)
        requires
            old(self).wf(),
        ensures
            final(self).wf(),
            final(self)@ == (RuntimeView {
                graph: old(self)@.graph_with_deps(observer, deps@.to_set()),
                ..old(self)@
            }),
    {
        self.clear_observer(observer);
        proof {
            assert(deps@.subrange(0, 0).to_set() =~= Set::<SignalId>::empty());
        }
        let mut i: usize = 0;
        while i < deps.len()
            invariant
                self.wf(),
                i <= deps.len(),
                self@ == (RuntimeView {
                    graph: old(self)@.graph_with_deps(observer, deps@.subrange(0, i as int).to_set()),
                    ..old(self)@
                }),
            decreases deps.len() - i,
        {
            let edge = Edge { signal: deps[i], observer };
            let ghost before = self@.graph;
            if !contains_edge(&self.edges, edge) {
                self.edges.push(edge);
            }
            proof {
                assert(deps@.subrange(0, i + 1) =~= deps@.subrange(0, i as int).push(deps@[i as int]));
                assert(self.edges@.to_set() =~= before.insert(edge));
                assert(self@.graph =~= old(self)@.graph_with_deps(
                    observer,
                    deps@.subrange(0, i + 1).to_set(),
                ));
            }
            i = i + 1;
        }
        proof {
            assert(deps@.subrange(0, deps@.len() as int) =~= deps@);
        }
    }

    /// Remove every dependency edge of `observer`.
    fn clear_observer(&mut self, observer: ObserverId)
        requires
            old(self).wf(),
        ensures
            final(self).wf(),
            final(self)@ == (RuntimeView {
                graph: old(self)@.graph_with_deps(observer, Set::empty()),
                ..old(self)@
            }),
    {
        let ghost start = self.edges@;
        let mut out: Vec<Edge> = Vec::new();
        let mut i: usize = 0;
        while i < self.edges.len()
            invariant
                i <= self.edges.len(),
                self.edges@ == start,
                start.no_duplicates(),
                out@.no_duplicates(),
                forall|y: Edge|
                    out@.contains(y) <==> (start.subrange(0, i as int).contains(y) && y.observer
                        != observer),
            decreases self.edges.len() - i,
        {
            let y = self.edges[i];
            proof {
                assert(start.subrange(0, i + 1) =~= start.subrange(0, i as int).push(y));
            }
            if y.observer != observer {
                proof {
                    assert(!start.subrange(0, i as int).contains(y));
                    lemma_push_no_duplicates(out@, y);
                }
                out.push(y);
            }
            i = i + 1;
        }
        proof {
            assert(start.subrange(0, start.len() as int) =~= start);
        }
        self.edges = out;
        proof {
            assert(self@.graph =~= old(self)@.graph_with_deps(observer, Set::empty()));
        }
    }

    /// Replace the dependencies of a rendering entity.
    pub fn replace_entity_dependencies(&mut self, entity: EntityId, deps: Vec<SignalId>)
        requires
            old(self).wf(),
        ensures
            final(self).wf(),
            final(self)@ == (RuntimeView {
                graph: old(self)@.graph_with_deps(ObserverId::Entity(entity), deps@.to_set()),
                ..old(self)@
            }),
    {
        self.replace_observer_dependencies(ObserverId::Entity(entity), deps);
    }

    /// Replace the dependencies of an effect.
    pub fn replace_effect_dependencies(&mut self, effect: EffectId, deps: Vec<SignalId>)
        requires
            old(self).wf(),
        ensures
            final(self).wf(),
            final(self)@ == (RuntimeView {
                graph: old(self)@.graph_with_deps(ObserverId::Effect(effect), deps@.to_set()),
                ..old(self)@
            }),
    {
        self.replace_observer_dependencies(ObserverId::Effect(effect), deps);
    }

    /// The number of observers of `signal`.
    pub fn observer_count(&self, signal: SignalId) -> (n: usize)
        requires
            self.wf(),
        ensures
            n == self@.observers_of(signal).len(),
    {
        let observers = self.observers_split(signal);
        let n_edges = self.edges.len();
        let n_entities = observers.entities.len();
        let n_effects = observers.effects.len();
        proof {
            let es = observers.entities@;
            let fs = observers.effects@;
            let all = es.map_values(|e: EntityId| ObserverId::Entity(e)) + fs.map_values(
                |f: EffectId| ObserverId::Effect(f),
            );
            assert(all.no_duplicates()) by {
                assert forall|i: int, j: int|
                    0 <= i < all.len() && 0 <= j < all.len() && i != j implies all[i] != all[j] by {
                    if i < es.len() && j < es.len() {
                        assert(es[i] != es[j]);
                    } else if i >= es.len() && j >= es.len() {
                        assert(fs[i - es.len()] != fs[j - es.len()]);
                    }
                }
            }
            assert(all.to_set() =~= self@.observers_of(signal)) by {
                assert forall|o: ObserverId| all.to_set().contains(o) <==> self@.observers_of(
                    signal,
                ).contains(o) by {
                    match o {
                        ObserverId::Entity(e) => {
                            if es.to_set().contains(e) {
                                let k = choose|k: int| 0 <= k < es.len() && es[k] == e;
                                assert(all[k] == o);
                            }
                            if all.contains(o) {
                                let k = choose|k: int| 0 <= k < all.len() && all[k] == o;
                                assert(k < es.len());
                                assert(es[k] == e);
                                assert(es.to_set().contains(e));
                            }
                        },
                        ObserverId::Effect(f) => {
                            if fs.to_set().contains(f) {
                                let k = choose|k: int| 0 <= k < fs.len() && fs[k] == f;
                                assert(all[es.len() + k] == o);
                            }
                            if all.contains(o) {
                                let k = choose|k: int| 0 <= k < all.len() && all[k] == o;
                                assert(k >= es.len());
                                assert(fs[k - es.len()] == f);
                                assert(fs.to_set().contains(f));
                            }
                        },
                    }
                }
            }
            all.unique_seq_to_set();
        }
        n_entities + n_effects
    }

    /// Enter a batch: writes queue their observers until the outermost batch exits.
    pub fn enter_batch(&mut self)
        requires
            old(self).wf(),
            old(self)@.batch_depth < usize::MAX,
        ensures
            final(self).wf(),
            final(self)@ == (RuntimeView { batch_depth: old(self)@.batch_depth + 1, ..old(self)@ }),
    {
        self.batch_depth = self.batch_depth + 1;
    }

    /// Leave a batch. Leaving the outermost batch hands out, and clears,
    /// every observer queued inside it; leaving an inner batch, or leaving
    /// when no batch is open, hands out nothing.
    pub fn exit_batch(&mut self) -> (n: SignalNotifications)
        requires
            old(self).wf(),
        ensures
            final(self).wf(),
            old(self)@.batch_exited(final(self)@, n),
    {
        if self.batch_depth == 0 {
            return SignalNotifications::empty();
        }
        self.batch_depth = self.batch_depth - 1;
        if self.batch_depth > 0 {
            return SignalNotifications::empty();
        }
        let mut entities: Vec<EntityId> = Vec::new();
        let mut effects: Vec<EffectId> = Vec::new();
        std::mem::swap(&mut entities, &mut self.pending_entities);
        std::mem::swap(&mut effects, &mut self.pending_effects);
        proof {
            assert(self@.pending_entities =~= Set::<EntityId>::empty());
            assert(self@.pending_effects =~= Set::<EffectId>::empty());
        }
        SignalNotifications { entities, effects }
    }

    /// Whether a release hook is already registered for `entity`.
    pub fn has_release_subscription(&self, entity: EntityId) -> (b: bool)
        ensures
            b == self@.release_registered.contains(entity),
    {
        contains_entity(&self.release_registered, entity)
    }

    /// Record that a release hook is registered for `entity`.
    pub fn insert_release_subscription(&mut self, entity: EntityId)
        requires
            old(self).wf(),
        ensures
            final(self).wf(),
            final(self)@ == (RuntimeView {
                release_registered: old(self)@.release_registered.insert(entity),
                ..old(self)@
            }),
    {
        insert_entity(&mut self.release_registered, entity);
    }

    /// Forget a released entity: its dependencies, its queued notification
    /// and its release hook.
    pub fn remove_entity(&mut self, entity: EntityId)
        requires
            old(self).wf(),
        ensures
            final(self).wf(),
            final(self)@ == (RuntimeView {
                graph: old(self)@.graph_without(ObserverId::Entity(entity)),
                pending_entities: old(self)@.pending_entities.remove(entity),
                release_registered: old(self)@.release_registered.remove(entity),
                ..old(self)@
            }),
    {
        self.clear_observer(ObserverId::Entity(entity));
        remove_entity_id(&mut self.pending_entities, entity);
        remove_entity_id(&mut self.release_registered, entity);
        proof {
            assert(self@.graph =~= old(self)@.graph_without(ObserverId::Entity(entity)));
        }
    }

    /// Prepare an effect for a new run: drop its dependencies and its queued
    /// notification. The effect stays registered.
    pub fn prepare_effect_run(&mut self, effect: EffectId)
        requires
            old(self).wf(),
        ensures
            final(self).wf(),
            final(self)@ == (RuntimeView {
                graph: old(self)@.graph_without(ObserverId::Effect(effect)),
                pending_effects: old(self)@.pending_effects.remove(effect),
                ..old(self)@
            }),
    {
        self.clear_observer(ObserverId::Effect(effect));
        remove_effect_id(&mut self.pending_effects, effect);
        proof {
            assert(self@.graph =~= old(self)@.graph_without(ObserverId::Effect(effect)));
        }
    }

    /// Forget an effect: its registration, dependencies and queued notification.
    pub fn remove_effect_state(&mut self, effect: EffectId)
        requires
            old(self).wf(),
        ensures
            final(self).wf(),
            final(self)@ == (RuntimeView {
                graph: old(self)@.graph_without(ObserverId::Effect(effect)),
                effects: old(self)@.effects.remove(effect),
                pending_effects: old(self)@.pending_effects.remove(effect),
                ..old(self)@
            }),
    {
        self.clear_observer(ObserverId::Effect(effect));
        let ghost before = self.effects@;
        remove_effect_id(&mut self.effects, effect);
        remove_effect_id(&mut self.pending_effects, effect);
        proof {
            assert forall|f: EffectId| #[trigger] self.effects@.contains(f) implies f.0 < self.next_effect_id by {
                assert(self.effects@.to_set().contains(f));
                assert(before.to_set().contains(f));
            }
            assert(self@.graph =~= old(self)@.graph_without(ObserverId::Effect(effect)));
        }
    }

    /// Start a run of `effect`: when it is registered, drop its dependencies
    /// and its queued notification and answer `true`, so that the host runs
    /// its cleanups; otherwise change nothing and answer `false`.
    pub fn start_effect_run(&mut self, effect: EffectId) -> (run: bool)
        requires
            old(self).wf(),
        ensures
            final(self).wf(),
            run == old(self)@.effects.contains(effect),
            run ==> final(self)@ == (RuntimeView {
                graph: old(self)@.graph_without(ObserverId::Effect(effect)),
                pending_effects: old(self)@.pending_effects.remove(effect),
                ..old(self)@
            }),
            !run ==> final(self)@ == old(self)@,
    {
        if !self.effect_registered(effect) {
            return false;
        }
        self.prepare_effect_run(effect);
        true
    }

    /// After the cleanups ran: when `effect` is still registered, open the
    /// scope that records its reads and answer `true`, so that the host runs
    /// its callback; otherwise change nothing and answer `false`.
    pub fn begin_effect_body(&mut self, effect: EffectId) -> (run: bool)
        requires
            old(self).wf(),
        ensures
            final(self).wf(),
            run == old(self)@.effects.contains(effect),
            run ==> final(self)@ == (RuntimeView {
                stack: old(self)@.stack.push(ScopeView { deps: Set::empty(), suppress: false }),
                ..old(self)@
            }),
            !run ==> final(self)@ == old(self)@,
    {
        if !self.effect_registered(effect) {
            return false;
        }
        self.begin_tracking();
        true
    }

    /// After the callback ran: close its scope and make what it read the
    /// effect's dependencies.
    pub fn finish_effect_run(&mut self, effect: EffectId)
        requires
            old(self).wf(),
            old(self)@.stack.len() > 0,
        ensures
            final(self).wf(),
            final(self)@ == (RuntimeView {
                stack: old(self)@.stack.drop_last(),
                graph: old(self)@.graph_with_deps(ObserverId::Effect(effect), old(self)@.stack.last().deps),
                ..old(self)@
            }),
    {
        let deps = self.end_tracking();
        self.replace_effect_dependencies(effect, deps);
    }

    /// After a render of `entity` ran inside [`ReactiveRuntime::begin_tracking`]:
    /// close its scope, make what it read the entity's dependencies, and
    /// answer whether the host must install the entity's release hook,
    /// recording it as installed.
    pub fn finish_entity_render(&mut self, entity: EntityId) -> (install_hook: bool)
        requires
            old(self).wf(),
            old(self)@.stack.len() > 0,
        ensures
            final(self).wf(),
            install_hook == !old(self)@.release_registered.contains(entity),
            final(self)@ == (RuntimeView {
                stack: old(self)@.stack.drop_last(),
                graph: old(self)@.graph_with_deps(ObserverId::Entity(entity), old(self)@.stack.last().deps),
                release_registered: old(self)@.release_registered.insert(entity),
                ..old(self)@
            }),
    {
        let deps = self.end_tracking();
        self.replace_entity_dependencies(entity, deps);
        if self.has_release_subscription(entity) {
            proof {
                assert(self@.release_registered.insert(entity) =~= self@.release_registered);
            }
            return false;
        }
        self.insert_release_subscription(entity);
        true
    }
}

} // verus!
