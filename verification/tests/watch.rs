use relay::{
    EffectId, ReactiveRuntime, Resource, ResourceState, Signal, SourceLoad, Watch, effect,
};

/// A host running one watch: sources are read with tracking, the reaction
/// reads without it.
struct WatchHost {
    rt: ReactiveRuntime,
    signals: Vec<Signal<i32>>,
    sources: Vec<usize>,
    react_reads: Vec<usize>,
    watch: Watch,
    effect: EffectId,
    fires: usize,
    last_sum: i32,
}

impl WatchHost {
    fn new(values: &[i32], sources: &[usize], react_reads: &[usize], watch: Watch) -> Self {
        let mut rt = ReactiveRuntime::new();
        let signals = values.iter().map(|v| Signal::new(&mut rt, *v)).collect();
        let effect = effect(&mut rt).id();
        let mut host = WatchHost {
            rt,
            signals,
            sources: sources.to_vec(),
            react_reads: react_reads.to_vec(),
            watch,
            effect,
            fires: 0,
            last_sum: 0,
        };
        host.run();
        host
    }

    fn run(&mut self) {
        if !self.rt.start_effect_run(self.effect) {
            return;
        }
        if !self.rt.begin_effect_body(self.effect) {
            return;
        }
        for i in self.sources.clone() {
            let _ = self.signals[i].get(&mut self.rt);
        }
        if self.watch.on_sources_run() {
            self.rt.begin_untracked_scope();
            let mut sum = 0;
            for i in self.react_reads.clone() {
                sum += self.signals[i].get(&mut self.rt);
            }
            self.rt.end_tracking();
            self.fires += 1;
            self.last_sum = sum;
        }
        self.rt.finish_effect_run(self.effect);
    }

    fn set(&mut self, i: usize, value: i32) {
        let n = self.signals[i].set(&mut self.rt, value);
        if n.effects.contains(&self.effect) {
            self.run();
        }
    }
}

#[test]
fn watch_fires_when_sources_change() {
    let mut host = WatchHost::new(&[1, 2], &[0, 1], &[0, 1], Watch::new());

    assert_eq!(host.last_sum, 3);

    host.set(0, 10);

    assert_eq!(host.last_sum, 12);
}

#[test]
fn watch_does_not_fire_for_non_source_signals() {
    let mut host = WatchHost::new(&[0, 0], &[0], &[], Watch::new());

    assert_eq!(host.fires, 1);

    host.set(1, 99);
    assert_eq!(host.fires, 1);

    host.set(0, 7);
    assert_eq!(host.fires, 2);
}

#[test]
fn watch_does_not_track_react_reads() {
    let mut host = WatchHost::new(&[0, 0], &[0], &[1], Watch::new());

    assert_eq!(host.fires, 1);

    host.set(1, 1);

    assert_eq!(host.fires, 1);
}

#[test]
fn watch_changes_skips_initial_react() {
    let mut host = WatchHost::new(&[0], &[0], &[], Watch::changes_only());

    assert_eq!(host.fires, 0);

    host.set(0, 1);

    assert_eq!(host.fires, 1);
}

#[test]
fn watch_on_sources_run_decides_each_run() {
    let mut plain = Watch::new();
    assert!(plain.on_sources_run());
    assert!(plain.on_sources_run());

    let mut changes = Watch::changes_only();
    assert!(!changes.on_sources_run());
    assert!(changes.on_sources_run());
    assert!(changes.on_sources_run());
}

/// A host running one source-driven resource: the source signal is the
/// watch's source, and each run starts the load its decision names.
struct SourceHost {
    rt: ReactiveRuntime,
    source: Signal<i32>,
    resource: Resource<i32, &'static str>,
    decide: SourceLoad,
    effect: EffectId,
    load_inputs: Vec<i32>,
}

impl SourceHost {
    fn new(resource: fn(&mut ReactiveRuntime) -> Resource<i32, &'static str>, decide: SourceLoad) -> Self {
        let mut rt = ReactiveRuntime::new();
        let source = Signal::new(&mut rt, 0);
        let resource = resource(&mut rt);
        let effect = effect(&mut rt).id();
        let mut host = SourceHost { rt, source, resource, decide, effect, load_inputs: Vec::new() };
        host.run();
        host
    }

    fn run(&mut self) {
        if !self.rt.start_effect_run(self.effect) {
            return;
        }
        if !self.rt.begin_effect_body(self.effect) {
            return;
        }
        let value = self.source.get(&mut self.rt);
        if let Some(mode) = self.decide.on_sources_run() {
            self.rt.begin_untracked_scope();
            self.load_inputs.push(value);
            self.resource.begin_load(&mut self.rt, mode);
            self.rt.end_tracking();
        }
        self.rt.finish_effect_run(self.effect);
    }

    fn set_source(&mut self, value: i32) {
        let n = self.source.set(&mut self.rt, value);
        if n.effects.contains(&self.effect) {
            self.run();
        }
    }
}

#[test]
fn state_scope_reload_resource_from_source_uses_changed_source_snapshot() {
    let mut host = SourceHost::new(|rt| Resource::ready(rt, 10), SourceLoad::reload_on_changes());

    assert!(host.load_inputs.is_empty());

    host.set_source(1);

    assert_eq!(host.load_inputs, vec![1]);
    assert_eq!(host.resource.get(&mut host.rt), ResourceState::Reloading(10));
}

#[test]
fn state_scope_load_resource_from_source_loads_initially_then_reloads() {
    let mut host = SourceHost::new(|rt| Resource::pending(rt), SourceLoad::load_then_reload());

    assert_eq!(host.load_inputs, vec![0]);
    assert_eq!(host.resource.get(&mut host.rt), ResourceState::Pending);

    host.resource.set_ready(&mut host.rt, 20);
    host.set_source(1);

    assert_eq!(host.load_inputs, vec![0, 1]);
    assert_eq!(host.resource.get(&mut host.rt), ResourceState::Reloading(20));
}

#[test]
fn state_scope_reload_resource_on_changes_retains_latest_after_source_change() {
    let mut host = SourceHost::new(|rt| Resource::ready(rt, 10), SourceLoad::reload_on_changes());

    assert_eq!(host.resource.get(&mut host.rt), ResourceState::Ready(10));

    host.set_source(1);

    assert_eq!(host.resource.get(&mut host.rt), ResourceState::Reloading(10));
}

#[test]
fn state_scope_load_resource_on_changes_loads_initially_then_reloads() {
    let mut host = SourceHost::new(|rt| Resource::pending(rt), SourceLoad::load_then_reload());

    assert_eq!(host.resource.get(&mut host.rt), ResourceState::Pending);

    host.resource.set_ready(&mut host.rt, 20);
    host.set_source(1);

    assert_eq!(host.resource.get(&mut host.rt), ResourceState::Reloading(20));
}

#[test]
fn source_load_starts_reset_then_retain_latest() {
    let mut load = SourceLoad::load_then_reload();
    assert_eq!(load.on_sources_run(), Some(relay::LoadMode::Reset));
    assert_eq!(load.on_sources_run(), Some(relay::LoadMode::RetainLatest));

    let mut reload = SourceLoad::reload_on_changes();
    assert_eq!(reload.on_sources_run(), None);
    assert_eq!(reload.on_sources_run(), Some(relay::LoadMode::RetainLatest));
}

#[test]
fn state_scope_watch_fires_on_signal_change() {
    let mut host = WatchHost::new(&[0], &[0], &[], Watch::new());

    assert_eq!(host.fires, 1);

    host.set(0, 5);

    assert_eq!(host.fires, 2);
}

#[test]
fn state_scope_watch_changes_skips_initial_reaction() {
    let mut host = WatchHost::new(&[0], &[0], &[], Watch::changes_only());

    assert_eq!(host.fires, 0);

    host.set(0, 5);

    assert_eq!(host.fires, 1);
}
