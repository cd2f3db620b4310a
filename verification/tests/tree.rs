use relay::composables::tree::{build_projection, dedupe_keys, normalize_keys_to_order};
use relay::{EntityId, ProjectedTreeNode, ReactiveRuntime, SourceNode, TreeProjection, use_tree_projection};

#[derive(Clone, Debug, PartialEq, Eq)]
struct TreeNode {
    id: u64,
    label: &'static str,
    children: Vec<TreeNode>,
}

impl TreeNode {
    fn file(id: u64, label: &'static str) -> Self {
        Self {
            id,
            label,
            children: Vec::new(),
        }
    }

    fn dir(id: u64, label: &'static str, children: Vec<TreeNode>) -> Self {
        Self {
            id,
            label,
            children,
        }
    }
}

/// The host's view of a tree: every node keyed by its id, with its children.
fn source(nodes: &[TreeNode]) -> Vec<SourceNode<TreeNode>> {
    nodes
        .iter()
        .map(|node| SourceNode::branch(node.id, node.clone(), source(&node.children)))
        .collect()
}

#[test]
fn projected_tree_node_exposes_visible_shape() {
    let node = ProjectedTreeNode {
        key: 1_u64,
        item: TreeNode::file(1, "main.rs"),
        depth: 2,
        parent: Some(9),
        has_children: false,
        is_expanded: false,
    };

    assert_eq!(node.key(), &1);
    assert_eq!(node.item().label, "main.rs");
    assert_eq!(node.depth(), 2);
    assert_eq!(node.parent(), Some(&9));
    assert!(!node.has_children());
    assert!(!node.is_expanded());
}

#[test]
fn tree_projection_flattens_visible_nodes_from_expansion_state() {
    let mut rt = ReactiveRuntime::new();
    let tree = vec![
        TreeNode::dir(
            1,
            "src",
            vec![TreeNode::file(2, "main.rs"), TreeNode::file(3, "lib.rs")],
        ),
        TreeNode::dir(4, "docs", vec![TreeNode::file(5, "guide.md")]),
    ];
    let mut projection: TreeProjection<TreeNode> = use_tree_projection(&mut rt, Vec::new(), &source(&tree));

    assert_eq!(tree.len(), 2);
    assert_eq!(projection.visible_keys(&mut rt), vec![1, 4]);
    assert_eq!(
        projection
            .read_visible_nodes(&mut rt)
            .iter()
            .map(|node| (
                node.item.label,
                node.depth,
                node.has_children,
                node.is_expanded
            ))
            .collect::<Vec<_>>(),
        vec![("src", 0, true, false), ("docs", 0, true, false)]
    );

    let (changed, _) = projection.expand(&mut rt, 1);
    assert!(changed);
    projection.apply_source(&mut rt, &source(&tree));

    assert_eq!(projection.visible_keys(&mut rt), vec![1, 2, 3, 4]);
    assert_eq!(
        projection
            .read_visible_nodes(&mut rt)
            .iter()
            .map(|node| (node.item.label, node.depth))
            .collect::<Vec<_>>(),
        vec![("src", 0), ("main.rs", 1), ("lib.rs", 1), ("docs", 0)]
    );
    assert_eq!(projection.expanded_keys(&mut rt), vec![1]);
}

#[test]
fn tree_projection_reveal_expands_ancestor_chain() {
    let mut rt = ReactiveRuntime::new();
    let tree = vec![TreeNode::dir(
        1,
        "root",
        vec![TreeNode::dir(2, "src", vec![TreeNode::file(3, "main.rs")])],
    )];
    let mut projection: TreeProjection<TreeNode> = use_tree_projection(&mut rt, Vec::new(), &source(&tree));

    let (revealed, _) = projection.reveal_key(&mut rt, 3);
    assert!(revealed);
    projection.apply_source(&mut rt, &source(&tree));

    assert_eq!(projection.expanded_keys(&mut rt), vec![1, 2]);
    assert_eq!(projection.visible_keys(&mut rt), vec![1, 2, 3]);
    assert_eq!(
        projection
            .read_visible_nodes(&mut rt)
            .iter()
            .map(|node| node.item.label)
            .collect::<Vec<_>>(),
        vec!["root", "src", "main.rs"]
    );
}

#[test]
fn tree_projection_reconciles_expanded_keys_when_source_changes() {
    let mut rt = ReactiveRuntime::new();
    let tree = vec![TreeNode::dir(1, "src", vec![TreeNode::file(2, "main.rs")])];
    let mut projection: TreeProjection<TreeNode> = use_tree_projection(&mut rt, vec![1], &source(&tree));

    let changed_tree = vec![TreeNode::dir(9, "docs", vec![])];
    projection.apply_source(&mut rt, &source(&changed_tree));

    assert_eq!(projection.all_keys(&mut rt), vec![9]);
    assert_eq!(projection.expanded_keys(&mut rt), Vec::<u64>::new());
    assert_eq!(projection.visible_keys(&mut rt), vec![9]);
    assert_eq!(projection.visible_count().get(&mut rt), 1);
}

#[test]
fn tree_projection_expand_all_uses_latest_tree_order() {
    let mut rt = ReactiveRuntime::new();
    let tree = vec![
        TreeNode::dir(2, "docs", vec![TreeNode::file(3, "guide.md")]),
        TreeNode::dir(1, "src", vec![TreeNode::file(4, "main.rs")]),
    ];
    let mut projection: TreeProjection<TreeNode> = use_tree_projection(&mut rt, Vec::new(), &source(&tree));

    let (changed, _) = projection.expand_all(&mut rt);
    assert!(changed);
    projection.apply_source(&mut rt, &source(&tree));

    assert_eq!(projection.expanded_keys(&mut rt), vec![2, 1]);
    assert_eq!(projection.visible_keys(&mut rt), vec![2, 3, 1, 4]);
    assert!(projection.has_visible_nodes().get(&mut rt));
}

#[test]
fn build_projection_lists_keys_parents_and_expandable_keys_in_visit_order() {
    let tree = vec![
        TreeNode::dir(1, "src", vec![TreeNode::dir(2, "bin", vec![TreeNode::file(3, "main.rs")])]),
        TreeNode::file(4, "README.md"),
    ];
    let snapshot = build_projection(&source(&tree), &vec![1]);
    assert_eq!(snapshot.all_keys, vec![1, 2, 3, 4]);
    assert_eq!(snapshot.expandable_keys, vec![1, 2]);
    assert_eq!(snapshot.visible_keys, vec![1, 2, 4]);
    assert_eq!(
        snapshot.parent_by_key,
        vec![(1, None), (2, Some(1)), (3, Some(2)), (4, None)]
    );
    assert_eq!(
        snapshot
            .visible_nodes
            .iter()
            .map(|node| (node.key, node.depth, node.parent, node.is_expanded))
            .collect::<Vec<_>>(),
        vec![(1, 0, None, true), (2, 1, Some(1), false), (4, 0, None, false)]
    );
}

#[test]
fn dedupe_keeps_first_occurrences_and_normalize_follows_tree_order() {
    assert_eq!(dedupe_keys(vec![3, 1, 3, 2, 1]), vec![3, 1, 2]);
    assert_eq!(normalize_keys_to_order(vec![5, 2, 9], &vec![1, 2, 3, 5]), vec![2, 5]);
    assert_eq!(normalize_keys_to_order(Vec::new(), &vec![1, 2]), Vec::<u64>::new());
    assert_eq!(normalize_keys_to_order(vec![1], &Vec::new()), Vec::<u64>::new());
}

#[test]
fn tree_collapse_toggle_and_expanded_flags() {
    let mut rt = ReactiveRuntime::new();
    let tree = vec![TreeNode::dir(1, "src", vec![TreeNode::file(2, "main.rs")])];
    let mut projection: TreeProjection<TreeNode> = use_tree_projection(&mut rt, Vec::new(), &source(&tree));

    rt.begin_tracking();
    assert!(!projection.is_expanded(&mut rt, 1));
    rt.finish_entity_render(EntityId(7));
    let (changed, n) = projection.toggle(&mut rt, 1);
    assert!(changed);
    assert_eq!(n.entities, vec![EntityId(7)]);
    assert!(projection.is_expanded(&mut rt, 1));
    let (changed, _) = projection.expand(&mut rt, 2);
    assert!(!changed, "a leaf is not expandable");
    let (changed, _) = projection.collapse(&mut rt, 1);
    assert!(changed);
    assert_eq!(projection.expanded_keys_untracked(), Vec::<u64>::new());
    let (changed, _) = projection.collapse_all(&mut rt);
    assert!(!changed);
}

#[test]
fn tree_projection_visible_nodes_untracked_copies_visible_nodes() {
    let mut rt = ReactiveRuntime::new();
    let tree = vec![TreeNode::dir(1, "src", vec![TreeNode::file(2, "main.rs")])];
    let projection: TreeProjection<TreeNode> = use_tree_projection(&mut rt, vec![1, 1], &source(&tree));

    let nodes = projection.visible_nodes_untracked();

    assert_eq!(
        nodes.iter().map(|node| (node.key, node.parent, node.is_expanded)).collect::<Vec<_>>(),
        vec![(1, None, true), (2, Some(1), false)]
    );
    assert_eq!(projection.visible_keys_untracked(), vec![1, 2]);
    assert_eq!(projection.expanded_keys_untracked(), vec![1]);
}

#[test]
fn tree_projection_source_effect_depends_on_expanded_keys() {
    let mut rt = ReactiveRuntime::new();
    let tree = vec![TreeNode::dir(1, "src", vec![TreeNode::file(2, "main.rs")])];
    let mut projection: TreeProjection<TreeNode> = use_tree_projection(&mut rt, Vec::new(), &source(&tree));
    let effect = projection.effect().id();

    assert!(rt.start_effect_run(effect));
    assert!(rt.begin_effect_body(effect));
    projection.apply_source(&mut rt, &source(&tree));
    rt.finish_effect_run(effect);

    let (changed, n) = projection.expand(&mut rt, 1);
    assert!(changed);
    assert!(n.effects.contains(&effect));
}

#[test]
fn tree_projection_keys_keep_tree_order_without_repeats() {
    let mut rt = ReactiveRuntime::new();
    let tree = vec![
        TreeNode::dir(2, "docs", vec![TreeNode::file(3, "guide.md")]),
        TreeNode::dir(1, "src", vec![TreeNode::dir(5, "bin", vec![TreeNode::file(4, "main.rs")])]),
    ];
    let mut projection: TreeProjection<TreeNode> =
        use_tree_projection(&mut rt, vec![5, 1, 5, 2], &source(&tree));

    assert_eq!(projection.expanded_keys_untracked(), vec![2, 1, 5]);
    assert_eq!(projection.all_keys_untracked(), vec![2, 3, 1, 5, 4]);
    assert_eq!(projection.visible_keys_untracked(), vec![2, 3, 1, 5, 4]);

    projection.collapse(&mut rt, 1);
    projection.apply_source(&mut rt, &source(&tree));

    assert_eq!(projection.expanded_keys_untracked(), vec![2, 5]);
    assert_eq!(projection.visible_keys_untracked(), vec![2, 3, 1]);
}
