//! Source-driven reactions.
//!
//! A watch is an effect in two phases: its sources run with tracking, so
//! that they become the effect's dependencies, and its reaction runs without
//! it. [`Watch`] decides, on each run of the sources, whether the reaction
//! runs; [`SourceLoad`] decides which load a source-driven resource starts.
//! The host runs the phases and the loads.
use vstd::prelude::*;

use crate::resource::LoadMode;

verus! {

/// When the reaction of a watch runs.
pub struct Watch {
    skip_initial: bool,
    started: bool,
}

impl Watch {
    /// Whether the reaction skips the first run of the sources.
    pub closed spec fn spec_skips_initial(&self) -> bool {
        self.skip_initial
    }

    /// Whether the sources have run at least once.
    pub closed spec fn spec_started(&self) -> bool {
        self.started
    }

    /// A watch whose reaction runs on every run of its sources, the first
    /// included.
    pub fn new() -> (w: Self)
        ensures
            !w.spec_skips_initial(),
            !w.spec_started(),
    {
        Watch { skip_initial: false, started: false }
    }

    /// A watch whose first run only records its sources: the reaction runs
    /// on later changes only.
    pub fn changes_only() -> (w: Self)
        ensures
            w.spec_skips_initial(),
            !w.spec_started(),
    {
        Watch { skip_initial: true, started: false }
    }

    /// The sources ran: answer whether the reaction runs now. Only the first
    /// run of a changes-only watch is skipped.
    pub fn on_sources_run(&mut self) -> (react: bool)
        ensures
            react == (old(self).spec_started() || !old(self).spec_skips_initial()),
            final(self).spec_started(),
            final(self).spec_skips_initial() == old(self).spec_skips_initial(),
    {
        let react = self.started || !self.skip_initial;
        self.started = true;
        react
    }
}

/// Which load a source-driven resource starts on a run of its sources.
pub struct SourceLoad {
    load_initially: bool,
    started: bool,
}

/// The load started on a run of the sources: later runs reload, keeping
/// the latest value visible; the first run loads from scratch, or starts
/// nothing when the resource was seeded.
pub open spec fn source_load_mode(load_initially: bool, started: bool) -> Option<LoadMode> {
    if started {
        Some(LoadMode::RetainLatest)
    } else if load_initially {
        Some(LoadMode::Reset)
    } else {
        None
    }
}

impl SourceLoad {
    /// Whether the first run of the sources starts a load.
    pub closed spec fn spec_loads_initially(&self) -> bool {
        self.load_initially
    }

    /// Whether the sources have run at least once.
    pub closed spec fn spec_started(&self) -> bool {
        self.started
    }

    /// Load when the sources first run, reload when they change.
    pub fn load_then_reload() -> (s: Self)
        ensures
            s.spec_loads_initially(),
            !s.spec_started(),
    {
        SourceLoad { load_initially: true, started: false }
    }

    /// Only record the sources on their first run, reload when they change.
    pub fn reload_on_changes() -> (s: Self)
        ensures
            !s.spec_loads_initially(),
            !s.spec_started(),
    {
        SourceLoad { load_initially: false, started: false }
    }

    /// The sources ran: answer which load to start, if any.
    pub fn on_sources_run(&mut self) -> (mode: Option<LoadMode>)
        ensures
            mode == source_load_mode(old(self).spec_loads_initially(), old(self).spec_started()),
            final(self).spec_started(),
            final(self).spec_loads_initially() == old(self).spec_loads_initially(),
    {
        let mode = if self.started {
            Some(LoadMode::RetainLatest)
        } else if self.load_initially {
            Some(LoadMode::Reset)
        } else {
            None
        };
        self.started = true;
        mode
    }
}

} // verus!
