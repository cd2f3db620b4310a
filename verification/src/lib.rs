//! A reactive state runtime: signals, derived values, effects, resources,
//! mutations, keyed selection and tree projection, with the dependency graph
//! and scheduling decisions proved correct.
pub mod runtime;

pub use runtime::{EffectId, EntityId, ObserverId, ReactiveRuntime, SignalId, SignalNotifications};
pub mod signal;
pub mod signal_vec;
pub mod shared;

pub use shared::{ReadSignal, SignalStore, WriteSignal};
pub use signal::Signal;
pub mod resource;

pub use resource::{LoadMode, Resource, ResourceState};
pub mod binding;
pub mod effect;
pub mod memo;

pub use binding::Binding;
pub use effect::{Effect, effect};
pub use memo::Memo;
pub mod composables;
pub mod context;
pub mod gallery;
pub mod key_vec;
pub mod keyed;
pub mod keyed_flags;
pub mod laws;
pub mod selected_item;
pub mod selector;
pub mod watch;

pub use selector::Selector;
pub use watch::{SourceLoad, Watch};

pub use composables::{
    Mutation, MutationState, OrderedSelectionModel, ProjectedTreeNode, Query, SelectionModel,
    SelectionReconcilePolicy, SourceNode, TreeProjection, use_error_query, use_mutation,
    use_ordered_selection_model, use_query, use_ready_query, use_selection_model,
    use_tree_projection,
};
