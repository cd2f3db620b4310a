//! Higher-level models built on the core reactive primitives.
pub mod mutation;
pub mod query;
pub mod selection;
pub mod tree;
pub mod tree_node;

pub use mutation::{Mutation, MutationState, use_mutation};
pub use query::{Query, use_error_query, use_query, use_ready_query};
pub use selection::{
    OrderedSelectionModel, SelectionModel, SelectionReconcilePolicy, use_ordered_selection_model,
    use_selection_model,
};
pub use tree::{TreeProjection, use_tree_projection};
pub use tree_node::{ProjectedTreeNode, SourceNode};
