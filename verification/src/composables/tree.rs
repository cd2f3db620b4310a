//! Tree projection.
//!
//! [`build_projection`] flattens a source tree, given its expanded keys, into
//! the visible node list, the visible key order, every key in visit order,
//! the expandable keys and the parent of every key. The flattening is stated
//! by [`node_entries`] and [`forest_entries`]: a pre-order walk in which a
//! node is visible when every ancestor is visible and expanded.
use vstd::prelude::*;

use vstd::std_specs::cmp::PartialEqSpec;

use crate::composables::tree_node::{ProjectedTreeNode, SourceNode};
use crate::effect::{Effect, effect};
use crate::key_vec::{append_ids, contains_key, copy_keys, push_id, same_keys, without_key};
use crate::keyed_flags::KeyFlags;
use crate::memo::Memo;
use crate::runtime::{ReactiveRuntime, RuntimeView, SignalId, SignalNotifications};
use crate::signal::Signal;

verus! {

broadcast use {
    vstd::seq_lib::group_seq_properties,
    vstd::set_lib::group_set_properties,
    vstd::seq_lib::group_filter_ensures,
};

/// One node of the flattened tree and whether it is visible.
pub type TreeEntry<T> = (ProjectedTreeNode<T>, bool);

/// The pre-order walk of `n` and its descendants. `n` sits at `depth` under
/// `parent` and is visible when `visible`; it is expanded when it has
/// children and its key is in `expanded`, and its children are visible when
/// it is visible and expanded.
pub open spec fn node_entries<T>(
    n: SourceNode<T>,
    parent: Option<u64>,
    depth: usize,
    visible: bool,
    expanded: Seq<u64>,
) -> Seq<TreeEntry<T>>
    decreases n,
{
    let has_children = n.children@.len() > 0;
    let is_expanded = has_children && expanded.contains(n.key);
    let node = ProjectedTreeNode { key: n.key, item: n.item, depth, parent, has_children, is_expanded };
    seq![(node, visible)] + forest_entries(
        n.children@,
        Some(n.key),
        (depth + 1) as usize,
        visible && is_expanded,
        expanded,
    )
}

/// The pre-order walks of the sibling nodes `ns`, in order.
pub open spec fn forest_entries<T>(
    ns: Seq<SourceNode<T>>,
    parent: Option<u64>,
    depth: usize,
    visible: bool,
    expanded: Seq<u64>,
) -> Seq<TreeEntry<T>>
    decreases ns,
{
    if ns.len() == 0 {
        Seq::empty()
    } else {
        forest_entries(ns.subrange(0, ns.len() - 1), parent, depth, visible, expanded) + node_entries(
            ns[ns.len() - 1],
            parent,
            depth,
            visible,
            expanded,
        )
    }
}

/// The number of levels of `n` and its descendants.
pub open spec fn node_height<T>(n: SourceNode<T>) -> nat
    decreases n,
{
    1 + forest_height(n.children@)
}

/// The largest height among the sibling nodes `ns`.
pub open spec fn forest_height<T>(ns: Seq<SourceNode<T>>) -> nat
    decreases ns,
{
    if ns.len() == 0 {
        0
    } else {
        let a = forest_height(ns.subrange(0, ns.len() - 1));
        let b = node_height(ns[ns.len() - 1]);
        if a >= b {
            a
        } else {
            b
        }
    }
}

/// The keys of `es`, in order.
pub open spec fn entry_keys<T>(es: Seq<TreeEntry<T>>) -> Seq<u64> {
    es.map_values(|e: TreeEntry<T>| e.0.key)
}

/// Every key of `es` paired with its parent, in order.
pub open spec fn entry_parents<T>(es: Seq<TreeEntry<T>>) -> Seq<(u64, Option<u64>)> {
    es.map_values(|e: TreeEntry<T>| (e.0.key, e.0.parent))
}

/// The keys of the entries of `es` that have children, in order.
pub open spec fn expandable_keys_of<T>(es: Seq<TreeEntry<T>>) -> Seq<u64>
    decreases es.len(),
{
    if es.len() == 0 {
        Seq::empty()
    } else {
        let rest = expandable_keys_of(es.drop_last());
        if es.last().0.has_children {
            rest.push(es.last().0.key)
        } else {
            rest
        }
    }
}

/// The keys of the visible entries of `es`, in order.
pub open spec fn visible_keys_of<T>(es: Seq<TreeEntry<T>>) -> Seq<u64>
    decreases es.len(),
{
    if es.len() == 0 {
        Seq::empty()
    } else {
        let rest = visible_keys_of(es.drop_last());
        if es.last().1 {
            rest.push(es.last().0.key)
        } else {
            rest
        }
    }
}

/// The visible nodes of `es`, in order.
pub open spec fn visible_nodes_of<T>(es: Seq<TreeEntry<T>>) -> Seq<ProjectedTreeNode<T>>
    decreases es.len(),
{
    if es.len() == 0 {
        Seq::empty()
    } else {
        let rest = visible_nodes_of(es.drop_last());
        if es.last().1 {
            rest.push(es.last().0)
        } else {
            rest
        }
    }
}

/// Every visible node that is not a root comes after its parent, which is
/// visible, expanded and one level up.
pub open spec fn children_follow_parents<T>(nodes: Seq<ProjectedTreeNode<T>>) -> bool {
    forall|i: int|
        0 <= i < nodes.len() && (#[trigger] nodes[i]).parent is Some ==> exists|j: int|
            0 <= j < i && nodes[j].key == nodes[i].parent->0 && nodes[j].is_expanded && nodes[j].depth + 1
                == nodes[i].depth
}

/// Every node of `nodes` either sits at `depth` under `parent` or comes
/// after its parent, which is expanded and one level up.
spec fn follows_from<T>(nodes: Seq<ProjectedTreeNode<T>>, parent: Option<u64>, depth: int) -> bool {
    forall|i: int|
        0 <= i < nodes.len() ==> ((#[trigger] nodes[i]).parent == parent && nodes[i].depth == depth) || exists|
            j: int,
        |
            0 <= j < i && nodes[j].key == nodes[i].parent->0 && nodes[i].parent is Some
                && nodes[j].is_expanded && nodes[j].depth + 1 == nodes[i].depth
}

proof fn lemma_visible_nodes_concat<T>(a: Seq<TreeEntry<T>>, b: Seq<TreeEntry<T>>)
    ensures
        visible_nodes_of(a + b) == visible_nodes_of(a) + visible_nodes_of(b),
    decreases b.len(),
{
    if b.len() == 0 {
        assert(a + b =~= a);
        assert(visible_nodes_of(a) + visible_nodes_of(b) =~= visible_nodes_of(a));
    } else {
        lemma_visible_nodes_concat(a, b.drop_last());
        assert((a + b).drop_last() =~= a + b.drop_last());
        assert((a + b).last() == b.last());
        if b.last().1 {
            assert(visible_nodes_of(a) + visible_nodes_of(b) =~= (visible_nodes_of(a) + visible_nodes_of(
                b.drop_last(),
            )).push(b.last().0));
        } else {
            assert(visible_nodes_of(a) + visible_nodes_of(b) =~= visible_nodes_of(a) + visible_nodes_of(
                b.drop_last(),
            ));
        }
    }
}

proof fn lemma_follows_concat<T>(a: Seq<ProjectedTreeNode<T>>, b: Seq<ProjectedTreeNode<T>>, parent: Option<u64>, depth: int)
    requires
        follows_from(a, parent, depth),
        follows_from(b, parent, depth),
    ensures
        follows_from(a + b, parent, depth),
{
    let c = a + b;
    assert forall|i: int| 0 <= i < c.len() implies ((#[trigger] c[i]).parent == parent && c[i].depth == depth)
        || exists|j: int|
        0 <= j < i && c[j].key == c[i].parent->0 && c[i].parent is Some && c[j].is_expanded && c[j].depth + 1
            == c[i].depth by {
        if i < a.len() {
            assert(c[i] == a[i]);
            if !(a[i].parent == parent && a[i].depth == depth) {
                let j = choose|j: int|
                    0 <= j < i && a[j].key == a[i].parent->0 && a[i].parent is Some && a[j].is_expanded
                        && a[j].depth + 1 == a[i].depth;
                assert(c[j] == a[j]);
            }
        } else {
            let k = i - a.len();
            assert(c[i] == b[k]);
            if !(b[k].parent == parent && b[k].depth == depth) {
                let j = choose|j: int|
                    0 <= j < k && b[j].key == b[k].parent->0 && b[k].parent is Some && b[j].is_expanded
                        && b[j].depth + 1 == b[k].depth;
                assert(c[j + a.len()] == b[j]);
            }
        }
    }
}

proof fn lemma_node_follows<T>(n: SourceNode<T>, parent: Option<u64>, depth: usize, visible: bool, expanded: Seq<u64>)
    requires
        depth + node_height(n) <= usize::MAX,
    ensures
        follows_from(visible_nodes_of(node_entries(n, parent, depth, visible, expanded)), parent, depth as int),
        !visible ==> visible_nodes_of(node_entries(n, parent, depth, visible, expanded)).len() == 0,
    decreases n,
{
    let has_children = n.children@.len() > 0;
    let is_expanded = has_children && expanded.contains(n.key);
    let node = ProjectedTreeNode { key: n.key, item: n.item, depth, parent, has_children, is_expanded };
    let head: Seq<TreeEntry<T>> = seq![(node, visible)];
    let kids = forest_entries(n.children@, Some(n.key), (depth + 1) as usize, visible && is_expanded, expanded);
    lemma_forest_follows(n.children@, Some(n.key), (depth + 1) as usize, visible && is_expanded, expanded);
    lemma_visible_nodes_concat(head, kids);
    assert(head.drop_last() =~= Seq::<TreeEntry<T>>::empty());
    assert(visible_nodes_of(head.drop_last()) =~= Seq::<ProjectedTreeNode<T>>::empty());
    assert(head.last() == (node, visible));
    let vh = visible_nodes_of(head);
    let vk = visible_nodes_of(kids);
    let v = vh + vk;
    if visible {
        assert(vh =~= seq![node]);
        assert forall|i: int| 0 <= i < v.len() implies ((#[trigger] v[i]).parent == parent && v[i].depth
            == depth as int) || exists|j: int|
            0 <= j < i && v[j].key == v[i].parent->0 && v[i].parent is Some && v[j].is_expanded && v[j].depth
                + 1 == v[i].depth by {
            if i > 0 {
                let k = i - 1;
                assert(v[i] == vk[k]);
                assert(vk.len() > 0);
                if vk[k].parent == Some(n.key) && vk[k].depth == depth + 1 {
                    assert(v[0] == node);
                } else {
                    let j = choose|j: int|
                        0 <= j < k && vk[j].key == vk[k].parent->0 && vk[k].parent is Some && vk[j].is_expanded
                            && vk[j].depth + 1 == vk[k].depth;
                    assert(v[j + 1] == vk[j]);
                }
            }
        }
    } else {
        assert(vh =~= Seq::<ProjectedTreeNode<T>>::empty());
        assert(v =~= Seq::<ProjectedTreeNode<T>>::empty());
    }
}

proof fn lemma_forest_follows<T>(
    ns: Seq<SourceNode<T>>,
    parent: Option<u64>,
    depth: usize,
    visible: bool,
    expanded: Seq<u64>,
)
    requires
        depth + forest_height(ns) <= usize::MAX,
    ensures
        follows_from(visible_nodes_of(forest_entries(ns, parent, depth, visible, expanded)), parent, depth as int),
        !visible ==> visible_nodes_of(forest_entries(ns, parent, depth, visible, expanded)).len() == 0,
    decreases ns,
{
    if ns.len() == 0 {
        assert(visible_nodes_of(Seq::<TreeEntry<T>>::empty()) =~= Seq::<ProjectedTreeNode<T>>::empty());
    } else {
        let init = ns.subrange(0, ns.len() - 1);
        let last = ns[ns.len() - 1];
        lemma_forest_height(ns, ns.len() - 1);
        assert(forest_height(init) <= forest_height(ns));
        lemma_forest_follows(init, parent, depth, visible, expanded);
        lemma_node_follows(last, parent, depth, visible, expanded);
        let a = forest_entries(init, parent, depth, visible, expanded);
        let b = node_entries(last, parent, depth, visible, expanded);
        lemma_visible_nodes_concat(a, b);
        lemma_follows_concat(visible_nodes_of(a), visible_nodes_of(b), parent, depth as int);
    }
}

/// `a` is `b` with some elements left out and the rest kept in order.
pub open spec fn is_subsequence(a: Seq<u64>, b: Seq<u64>) -> bool
    decreases b.len(),
{
    if a.len() == 0 {
        true
    } else if b.len() == 0 {
        false
    } else if a.last() == b.last() {
        is_subsequence(a.drop_last(), b.drop_last())
    } else {
        is_subsequence(a, b.drop_last())
    }
}

proof fn lemma_subsequence_drop_last(a: Seq<u64>, b: Seq<u64>)
    requires
        a.len() > 0,
        is_subsequence(a, b),
    ensures
        is_subsequence(a.drop_last(), b),
    decreases b.len(),
{
    let a1 = a.drop_last();
    if a1.len() > 0 && b.len() > 0 {
        if a.last() == b.last() {
            if a1.last() != b.last() {
                assert(is_subsequence(a1, b.drop_last()));
            } else {
                lemma_subsequence_drop_last(a1, b.drop_last());
            }
        } else {
            lemma_subsequence_drop_last(a, b.drop_last());
            if a1.last() == b.last() {
                lemma_subsequence_drop_last(a1, b.drop_last());
            }
        }
    }
}

proof fn lemma_subsequence_push(a: Seq<u64>, b: Seq<u64>, x: u64)
    requires
        is_subsequence(a, b),
    ensures
        is_subsequence(a, b.push(x)),
        is_subsequence(a.push(x), b.push(x)),
{
    assert(b.push(x).drop_last() =~= b);
    assert(a.push(x).drop_last() =~= a);
    if a.len() > 0 && a.last() == x {
        lemma_subsequence_drop_last(a, b);
    }
}

proof fn lemma_subsequence_contents(a: Seq<u64>, b: Seq<u64>)
    requires
        is_subsequence(a, b),
    ensures
        forall|x: u64| #[trigger] a.contains(x) ==> b.contains(x),
        b.no_duplicates() ==> a.no_duplicates(),
    decreases b.len(),
{
    if a.len() > 0 && b.len() > 0 {
        let b1 = b.drop_last();
        if a.last() == b.last() {
            let a1 = a.drop_last();
            lemma_subsequence_contents(a1, b1);
            assert forall|x: u64| #[trigger] a.contains(x) implies b.contains(x) by {
                let i = choose|i: int| 0 <= i < a.len() && a[i] == x;
                if i < a.len() - 1 {
                    assert(a1[i] == x);
                    assert(a1.contains(x));
                    assert(b1.contains(x));
                    let j = choose|j: int| 0 <= j < b1.len() && b1[j] == x;
                    assert(b1[j] == b[j]);
                } else {
                    assert(b[b.len() - 1] == x);
                }
            }
            if b.no_duplicates() {
                assert(b1.no_duplicates()) by {
                    assert forall|i: int, j: int| 0 <= i < b1.len() && 0 <= j < b1.len() && i != j implies b1[i]
                        != b1[j] by {
                        assert(b[i] == b1[i] && b[j] == b1[j]);
                    }
                }
                assert forall|i: int, j: int| 0 <= i < a.len() && 0 <= j < a.len() && i != j implies a[i] != a[j] by {
                    if i < a.len() - 1 && j < a.len() - 1 {
                        assert(a1[i] == a[i] && a1[j] == a[j]);
                    } else if i < a.len() - 1 {
                        assert(a1.contains(a[i])) by {
                            assert(a1[i] == a[i]);
                        }
                        let k = choose|k: int| 0 <= k < b1.len() && b1[k] == a[i];
                        assert(b[k] == b1[k]);
                        assert(a[j] == b[b.len() - 1]);
                    } else if j < a.len() - 1 {
                        assert(a1.contains(a[j])) by {
                            assert(a1[j] == a[j]);
                        }
                        let k = choose|k: int| 0 <= k < b1.len() && b1[k] == a[j];
                        assert(b[k] == b1[k]);
                        assert(a[i] == b[b.len() - 1]);
                    }
                }
            }
        } else {
            lemma_subsequence_contents(a, b1);
            assert forall|x: u64| #[trigger] a.contains(x) implies b.contains(x) by {
                let j = choose|j: int| 0 <= j < b1.len() && b1[j] == x;
                assert(b[j] == x);
            }
            if b.no_duplicates() {
                assert forall|i: int, j: int| 0 <= i < b1.len() && 0 <= j < b1.len() && i != j implies b1[i] != b1[j] by {
                    assert(b[i] == b1[i] && b[j] == b1[j]);
                }
            }
        }
    }
}

proof fn lemma_filter_subsequence(s: Seq<u64>, p: spec_fn(u64) -> bool)
    ensures
        is_subsequence(s.filter(p), s),
    decreases s.len(),
{
    reveal(Seq::filter);
    if s.len() == 0 {
        assert(s.filter(p).len() == 0);
    } else {
        lemma_filter_subsequence(s.drop_last(), p);
        assert(s.drop_last().push(s.last()) =~= s);
        lemma_subsequence_push(s.drop_last().filter(p), s.drop_last(), s.last());
    }
}

/// Normalizing to an order without repeats gives keys without repeats.
proof fn lemma_normalized_distinct(keys: Seq<u64>, order: Seq<u64>)
    ensures
        is_subsequence(normalized(keys, order), order),
        order.no_duplicates() ==> normalized(keys, order).no_duplicates(),
{
    lemma_filter_subsequence(order, |k: u64| keys.contains(k));
    lemma_subsequence_contents(normalized(keys, order), order);
}

proof fn lemma_entry_subsequences<T>(es: Seq<TreeEntry<T>>)
    ensures
        is_subsequence(visible_keys_of(es), entry_keys(es)),
        is_subsequence(expandable_keys_of(es), entry_keys(es)),
    decreases es.len(),
{
    if es.len() == 0 {
    } else {
        let init = es.drop_last();
        let e = es.last();
        lemma_entry_subsequences(init);
        assert(init.push(e) =~= es);
        lemma_entries_push(init, e);
        lemma_subsequence_push(visible_keys_of(init), entry_keys(init), e.0.key);
        lemma_subsequence_push(expandable_keys_of(init), entry_keys(init), e.0.key);
    }
}

/// Every entry with a parent comes after an entry whose key is that parent.
pub open spec fn parents_point_back(parents: Seq<(u64, Option<u64>)>) -> bool {
    forall|i: int|
        0 <= i < parents.len() && (#[trigger] parents[i]).1 is Some ==> exists|j: int|
            0 <= j < i && parents[j].0 == parents[i].1->0
}

/// Every entry of `es` either sits under `parent` or comes after an entry
/// whose key is its parent.
spec fn parents_back_from<T>(es: Seq<TreeEntry<T>>, parent: Option<u64>) -> bool {
    forall|i: int|
        0 <= i < es.len() ==> (#[trigger] es[i]).0.parent == parent || (es[i].0.parent is Some && exists|j: int|
            0 <= j < i && es[j].0.key == es[i].0.parent->0)
}

proof fn lemma_parents_back_concat<T>(a: Seq<TreeEntry<T>>, b: Seq<TreeEntry<T>>, parent: Option<u64>)
    requires
        parents_back_from(a, parent),
        parents_back_from(b, parent),
    ensures
        parents_back_from(a + b, parent),
{
    let c = a + b;
    assert forall|i: int| 0 <= i < c.len() implies (#[trigger] c[i]).0.parent == parent || (c[i].0.parent is Some
        && exists|j: int| 0 <= j < i && c[j].0.key == c[i].0.parent->0) by {
        if i < a.len() {
            assert(c[i] == a[i]);
            if a[i].0.parent != parent {
                let j = choose|j: int| 0 <= j < i && a[j].0.key == a[i].0.parent->0;
                assert(c[j] == a[j]);
            }
        } else {
            let k = i - a.len();
            assert(c[i] == b[k]);
            if b[k].0.parent != parent {
                let j = choose|j: int| 0 <= j < k && b[j].0.key == b[k].0.parent->0;
                assert(c[j + a.len()] == b[j]);
            }
        }
    }
}

proof fn lemma_node_parents_back<T>(n: SourceNode<T>, parent: Option<u64>, depth: usize, visible: bool, expanded: Seq<u64>)
    ensures
        parents_back_from(node_entries(n, parent, depth, visible, expanded), parent),
    decreases n,
{
    let has_children = n.children@.len() > 0;
    let is_expanded = has_children && expanded.contains(n.key);
    let node = ProjectedTreeNode { key: n.key, item: n.item, depth, parent, has_children, is_expanded };
    let head: Seq<TreeEntry<T>> = seq![(node, visible)];
    let kids = forest_entries(n.children@, Some(n.key), (depth + 1) as usize, visible && is_expanded, expanded);
    lemma_forest_parents_back(n.children@, Some(n.key), (depth + 1) as usize, visible && is_expanded, expanded);
    let all = head + kids;
    assert(all == node_entries(n, parent, depth, visible, expanded));
    assert forall|i: int| 0 <= i < all.len() implies (#[trigger] all[i]).0.parent == parent || (all[i].0.parent is Some
        && exists|j: int| 0 <= j < i && all[j].0.key == all[i].0.parent->0) by {
        if i > 0 {
            let k = i - 1;
            assert(all[i] == kids[k]);
            if kids[k].0.parent == Some(n.key) {
                assert(all[0] == (node, visible));
            } else {
                let j = choose|j: int| 0 <= j < k && kids[j].0.key == kids[k].0.parent->0;
                assert(all[j + 1] == kids[j]);
            }
        }
    }
}

proof fn lemma_forest_parents_back<T>(
    ns: Seq<SourceNode<T>>,
    parent: Option<u64>,
    depth: usize,
    visible: bool,
    expanded: Seq<u64>,
)
    ensures
        parents_back_from(forest_entries(ns, parent, depth, visible, expanded), parent),
    decreases ns,
{
    if ns.len() > 0 {
        let init = ns.subrange(0, ns.len() - 1);
        let last = ns[ns.len() - 1];
        lemma_forest_parents_back(init, parent, depth, visible, expanded);
        lemma_node_parents_back(last, parent, depth, visible, expanded);
        lemma_parents_back_concat(
            forest_entries(init, parent, depth, visible, expanded),
            node_entries(last, parent, depth, visible, expanded),
            parent,
        );
    }
}

proof fn lemma_entry_parents_back<T>(es: Seq<TreeEntry<T>>)
    requires
        parents_back_from(es, None),
    ensures
        parents_point_back(entry_parents(es)),
{
    let ps = entry_parents(es);
    assert forall|i: int| 0 <= i < ps.len() && (#[trigger] ps[i]).1 is Some implies exists|j: int|
        0 <= j < i && ps[j].0 == ps[i].1->0 by {
        assert(ps[i] == (es[i].0.key, es[i].0.parent));
        let j = choose|j: int| 0 <= j < i && es[j].0.key == es[i].0.parent->0;
        assert(ps[j] == (es[j].0.key, es[j].0.parent));
    }
}

/// What every state of a projection satisfies: the visible keys are the
/// keys of the visible nodes, in the order of all keys; every visible child
/// follows its expanded parent; the expanded keys are expandable keys, in
/// the order of the expandable keys; when the source's keys are distinct,
/// neither the expandable nor the expanded keys repeat; and every key's
/// parent comes before it.
pub open spec fn consistent_view<T>(v: TreeView<T>) -> bool {
    &&& v.visible_keys == v.visible_nodes.map_values(|n: ProjectedTreeNode<T>| n.key)
    &&& children_follow_parents(v.visible_nodes)
    &&& v.expanded == normalized(v.expanded, v.expandable)
    &&& is_subsequence(v.visible_keys, v.all_keys)
    &&& is_subsequence(v.expandable, v.all_keys)
    &&& v.all_keys.no_duplicates() ==> v.expandable.no_duplicates() && v.expanded.no_duplicates()
    &&& v.parents.map_values(|e: (u64, Option<u64>)| e.0) == v.all_keys
    &&& parents_point_back(v.parents)
}

/// A snapshot flattened from a source tree, stored as copies, gives a
/// consistent view once its expanded keys are normalized.
proof fn lemma_snapshot_consistent<T: Clone>(v: TreeView<T>, roots: Seq<SourceNode<T>>, requested: Seq<u64>)
    requires
        forest_height(roots) <= usize::MAX,
        ({
            let es = forest_entries(roots, None, 0, true, requested);
            &&& nodes_match(v.visible_nodes, visible_nodes_of(es))
            &&& v.visible_keys == visible_keys_of(es)
            &&& v.all_keys == entry_keys(es)
            &&& v.parents == entry_parents(es)
            &&& v.expandable == expandable_keys_of(es)
            &&& v.expanded == normalized(requested, expandable_keys_of(es))
        }),
    ensures
        consistent_view(v),
{
    lemma_forest_parents_back(roots, None, 0, true, requested);
    lemma_entry_parents_back(forest_entries(roots, None, 0, true, requested));
    assert(v.parents.map_values(|e: (u64, Option<u64>)| e.0) =~= v.all_keys);
    lemma_entry_subsequences(forest_entries(roots, None, 0, true, requested));
    lemma_subsequence_contents(v.expandable, v.all_keys);
    lemma_normalized_distinct(requested, v.expandable);
    let es = forest_entries(roots, None, 0, true, requested);
    let spec = visible_nodes_of(es);
    let nodes = v.visible_nodes;
    lemma_forest_follows(roots, None, 0, true, requested);
    crate::laws::visible_keys_are_visible_node_keys(es);
    crate::laws::normalization_is_idempotent(requested, v.expandable);
    assert(v.visible_keys =~= nodes.map_values(|n: ProjectedTreeNode<T>| n.key)) by {
        assert forall|i: int| 0 <= i < nodes.len() implies #[trigger] nodes[i].key == spec[i].key by {
            assert(same_node(spec[i], nodes[i]));
        }
    }
    assert forall|i: int| 0 <= i < nodes.len() && (#[trigger] nodes[i]).parent is Some implies exists|j: int|
        0 <= j < i && nodes[j].key == nodes[i].parent->0 && nodes[j].is_expanded && nodes[j].depth + 1
            == nodes[i].depth by {
        assert(same_node(spec[i], nodes[i]));
        assert(spec[i].parent is Some);
        let j = choose|j: int|
            0 <= j < i && spec[j].key == spec[i].parent->0 && spec[i].parent is Some && spec[j].is_expanded
                && spec[j].depth + 1 == spec[i].depth;
        assert(same_node(spec[j], nodes[j]));
    }
}

/// `b` is `a` with a copy of its item.
pub open spec fn same_node<T: Clone>(a: ProjectedTreeNode<T>, b: ProjectedTreeNode<T>) -> bool {
    &&& a.key == b.key
    &&& a.depth == b.depth
    &&& a.parent == b.parent
    &&& a.has_children == b.has_children
    &&& a.is_expanded == b.is_expanded
    &&& cloned(a.item, b.item)
}

/// `nodes` holds, in order, copies of the nodes `spec`.
pub open spec fn nodes_match<T: Clone>(nodes: Seq<ProjectedTreeNode<T>>, spec: Seq<ProjectedTreeNode<T>>) -> bool {
    &&& nodes.len() == spec.len()
    &&& forall|i: int| 0 <= i < spec.len() ==> same_node(spec[i], #[trigger] nodes[i])
}

/// The flattened form of a source tree.
pub struct ProjectionSnapshot<T> {
    /// The visible nodes, in visit order.
    pub visible_nodes: Vec<ProjectedTreeNode<T>>,
    /// The keys of the visible nodes, in visit order.
    pub visible_keys: Vec<u64>,
    /// Every key, in visit order.
    pub all_keys: Vec<u64>,
    /// The keys of the nodes that have children, in visit order.
    pub expandable_keys: Vec<u64>,
    /// Every key with its parent's key, in visit order.
    pub parent_by_key: Vec<(u64, Option<u64>)>,
}

impl<T: Clone> ProjectionSnapshot<T> {
    /// The snapshot holds the projections of the flattened entries `es`.
    pub open spec fn matches(&self, es: Seq<TreeEntry<T>>) -> bool {
        &&& nodes_match(self.visible_nodes@, visible_nodes_of(es))
        &&& self.visible_keys@ == visible_keys_of(es)
        &&& self.all_keys@ == entry_keys(es)
        &&& self.expandable_keys@ == expandable_keys_of(es)
        &&& self.parent_by_key@ == entry_parents(es)
    }
}

proof fn lemma_entries_push<T>(es: Seq<TreeEntry<T>>, e: TreeEntry<T>)
    ensures
        entry_keys(es.push(e)) == entry_keys(es).push(e.0.key),
        entry_parents(es.push(e)) == entry_parents(es).push((e.0.key, e.0.parent)),
        expandable_keys_of(es.push(e)) == if e.0.has_children {
            expandable_keys_of(es).push(e.0.key)
        } else {
            expandable_keys_of(es)
        },
        visible_keys_of(es.push(e)) == if e.1 {
            visible_keys_of(es).push(e.0.key)
        } else {
            visible_keys_of(es)
        },
        visible_nodes_of(es.push(e)) == if e.1 {
            visible_nodes_of(es).push(e.0)
        } else {
            visible_nodes_of(es)
        },
{
    assert(es.push(e).drop_last() =~= es);
    assert(entry_keys(es.push(e)) =~= entry_keys(es).push(e.0.key));
    assert(entry_parents(es.push(e)) =~= entry_parents(es).push((e.0.key, e.0.parent)));
}

proof fn lemma_forest_height<T>(ns: Seq<SourceNode<T>>, i: int)
    requires
        0 <= i < ns.len(),
    ensures
        node_height(ns[i]) <= forest_height(ns),
    decreases ns.len(),
{
    if i < ns.len() - 1 {
        lemma_forest_height(ns.subrange(0, ns.len() - 1), i);
    }
}

proof fn lemma_forest_step<T>(
    ns: Seq<SourceNode<T>>,
    i: int,
    parent: Option<u64>,
    depth: usize,
    visible: bool,
    expanded: Seq<u64>,
)
    requires
        0 <= i < ns.len(),
    ensures
        forest_entries(ns.subrange(0, i + 1), parent, depth, visible, expanded) == forest_entries(
            ns.subrange(0, i),
            parent,
            depth,
            visible,
            expanded,
        ) + node_entries(ns[i], parent, depth, visible, expanded),
{
    let sub = ns.subrange(0, i + 1);
    assert(sub.subrange(0, sub.len() - 1) =~= ns.subrange(0, i));
    assert(sub[sub.len() - 1] == ns[i]);
}

/// Append the pre-order walk of `node` to `snapshot`.
fn visit_tree_node<T: Clone>(
    node: &SourceNode<T>,
    parent: Option<u64>,
    depth: usize,
    is_visible: bool,
    expanded: &Vec<u64>,
    snapshot: &mut ProjectionSnapshot<T>,
    Ghost(before): Ghost<Seq<TreeEntry<T>>>,
)
    requires
        old(snapshot).matches(before),
        depth + node_height(*node) <= usize::MAX,
    ensures
        final(snapshot).matches(before + node_entries(*node, parent, depth, is_visible, expanded@)),
    decreases node,
{
    let key = node.key;
    let has_children = node.children.len() > 0;
    let is_expanded = has_children && contains_key(expanded, key);
    let item = node.item.clone();
    let ghost e: TreeEntry<T> = (
        ProjectedTreeNode { key, item: node.item, depth, parent, has_children, is_expanded },
        is_visible,
    );
    snapshot.all_keys.push(key);
    snapshot.parent_by_key.push((key, parent));
    if has_children {
        snapshot.expandable_keys.push(key);
    }
    if is_visible {
        snapshot.visible_keys.push(key);
        snapshot.visible_nodes.push(
            ProjectedTreeNode { key, item, depth, parent, has_children, is_expanded },
        );
    }
    proof {
        lemma_entries_push(before, e);
        assert(snapshot.matches(before.push(e)));
    }
    let ghost start = before.push(e);
    let mut i: usize = 0;
    proof {
        assert(node.children@.subrange(0, 0) =~= Seq::<SourceNode<T>>::empty());
        assert(start + Seq::<TreeEntry<T>>::empty() =~= start);
    }
    while i < node.children.len()
        invariant
            i <= node.children.len(),
            key == node.key,
            has_children == (node.children@.len() > 0),
            is_expanded == (has_children && expanded@.contains(key)),
            depth + node_height(*node) <= usize::MAX,
            snapshot.matches(
                start + forest_entries(
                    node.children@.subrange(0, i as int),
                    Some(key),
                    (depth + 1) as usize,
                    is_visible && is_expanded,
                    expanded@,
                ),
            ),
        decreases node.children.len() - i,
    {
        let ghost so_far = start + forest_entries(
            node.children@.subrange(0, i as int),
            Some(key),
            (depth + 1) as usize,
            is_visible && is_expanded,
            expanded@,
        );
        proof {
            lemma_forest_height(node.children@, i as int);
        }
        visit_tree_node(
            &node.children[i],
            Some(key),
            depth + 1,
            is_visible && is_expanded,
            expanded,
            snapshot,
            Ghost(so_far),
        );
        proof {
            lemma_forest_step(
                node.children@,
                i as int,
                Some(key),
                (depth + 1) as usize,
                is_visible && is_expanded,
                expanded@,
            );
            assert(so_far + node_entries(
                node.children@[i as int],
                Some(key),
                (depth + 1) as usize,
                is_visible && is_expanded,
                expanded@,
            ) =~= start + forest_entries(
                node.children@.subrange(0, i + 1),
                Some(key),
                (depth + 1) as usize,
                is_visible && is_expanded,
                expanded@,
            ));
        }
        i = i + 1;
    }
    proof {
        assert(node.children@.subrange(0, node.children@.len() as int) =~= node.children@);
        assert(start + forest_entries(
            node.children@,
            Some(key),
            (depth + 1) as usize,
            is_visible && is_expanded,
            expanded@,
        ) =~= before + node_entries(*node, parent, depth, is_visible, expanded@));
    }
}

/// Flatten the source tree `roots` given the expanded keys.
pub fn build_projection<T: Clone>(roots: &Vec<SourceNode<T>>, expanded: &Vec<u64>) -> (s: ProjectionSnapshot<T>)
    requires
        forest_height(roots@) <= usize::MAX,
    ensures
        s.matches(forest_entries(roots@, None, 0, true, expanded@)),
{
    let mut snapshot = ProjectionSnapshot {
        visible_nodes: Vec::new(),
        visible_keys: Vec::new(),
        all_keys: Vec::new(),
        expandable_keys: Vec::new(),
        parent_by_key: Vec::new(),
    };
    proof {
        let empty = Seq::<TreeEntry<T>>::empty();
        assert(roots@.subrange(0, 0) =~= Seq::<SourceNode<T>>::empty());
        assert(entry_keys(empty) =~= Seq::<u64>::empty());
        assert(entry_parents(empty) =~= Seq::<(u64, Option<u64>)>::empty());
        assert(snapshot.matches(forest_entries(roots@.subrange(0, 0), None, 0, true, expanded@)));
    }
    let mut i: usize = 0;
    while i < roots.len()
        invariant
            i <= roots.len(),
            forest_height(roots@) <= usize::MAX,
            snapshot.matches(forest_entries(roots@.subrange(0, i as int), None, 0, true, expanded@)),
        decreases roots.len() - i,
    {
        proof {
            lemma_forest_height(roots@, i as int);
            lemma_forest_step(roots@, i as int, None, 0, true, expanded@);
        }
        visit_tree_node(
            &roots[i],
            None,
            0,
            true,
            expanded,
            &mut snapshot,
            Ghost(forest_entries(roots@.subrange(0, i as int), None, 0, true, expanded@)),
        );
        i = i + 1;
    }
    proof {
        assert(roots@.subrange(0, roots@.len() as int) =~= roots@);
    }
    snapshot
}

/// `s` with every repeated key dropped, first occurrences kept in order.
pub open spec fn dedupe(s: Seq<u64>) -> Seq<u64>
    decreases s.len(),
{
    if s.len() == 0 {
        s
    } else {
        let d = dedupe(s.drop_last());
        if d.contains(s.last()) {
            d
        } else {
            d.push(s.last())
        }
    }
}

/// The keys of `order` that occur in `keys`, in the order of `order`.
pub open spec fn normalized(keys: Seq<u64>, order: Seq<u64>) -> Seq<u64> {
    order.filter(|k: u64| keys.contains(k))
}

proof fn lemma_dedupe(s: Seq<u64>)
    ensures
        dedupe(s).no_duplicates(),
        forall|k: u64| #[trigger] dedupe(s).contains(k) <==> s.contains(k),
    decreases s.len(),
{
    if s.len() > 0 {
        lemma_dedupe(s.drop_last());
        let d = dedupe(s.drop_last());
        assert forall|k: u64| #[trigger] dedupe(s).contains(k) <==> s.contains(k) by {
            if s.contains(k) && !d.contains(k) {
                let j = choose|j: int| 0 <= j < s.len() && s[j] == k;
                if j < s.len() - 1 {
                    assert(s.drop_last()[j] == k);
                }
            }
            if d.contains(k) {
                let j = choose|j: int| 0 <= j < s.drop_last().len() && s.drop_last()[j] == k;
                assert(s[j] == k);
            }
        }
    }
}

/// Drop repeated keys, keeping first occurrences in order.
pub fn dedupe_keys(keys: Vec<u64>) -> (r: Vec<u64>)
    ensures
        r@ == dedupe(keys@),
        r@.no_duplicates(),
        forall|k: u64| #[trigger] r@.contains(k) <==> keys@.contains(k),
{
    let mut deduped: Vec<u64> = Vec::new();
    let mut i: usize = 0;
    proof {
        assert(keys@.subrange(0, 0) =~= Seq::<u64>::empty());
    }
    while i < keys.len()
        invariant
            i <= keys.len(),
            deduped@ == dedupe(keys@.subrange(0, i as int)),
        decreases keys.len() - i,
    {
        let key = keys[i];
        proof {
            let sub = keys@.subrange(0, i + 1);
            assert(sub.drop_last() =~= keys@.subrange(0, i as int));
            assert(sub.last() == key);
        }
        if !contains_key(&deduped, key) {
            deduped.push(key);
        }
        i = i + 1;
    }
    proof {
        assert(keys@.subrange(0, keys@.len() as int) =~= keys@);
        lemma_dedupe(keys@);
    }
    deduped
}

/// The keys of `ordered_keys` that occur in `keys`, in the order of
/// `ordered_keys`.
pub fn normalize_keys_to_order(keys: Vec<u64>, ordered_keys: &Vec<u64>) -> (r: Vec<u64>)
    ensures
        r@ == normalized(keys@, ordered_keys@),
{
    let input = dedupe_keys(keys);
    let ghost pred = |k: u64| keys@.contains(k);
    if input.len() == 0 || ordered_keys.len() == 0 {
        proof {
            let f = ordered_keys@.filter(pred);
            if f.len() > 0 {
                assert(pred(f[0]));
                assert(input@.contains(f[0]));
            }
            assert(f =~= Seq::<u64>::empty());
        }
        return Vec::new();
    }
    let mut out: Vec<u64> = Vec::new();
    let mut i: usize = 0;
    proof {
        assert(ordered_keys@.subrange(0, 0) =~= Seq::<u64>::empty());
        reveal(Seq::filter);
        assert(Seq::<u64>::empty().filter(pred) =~= Seq::<u64>::empty());
    }
    while i < ordered_keys.len()
        invariant
            i <= ordered_keys.len(),
            forall|k: u64| #[trigger] input@.contains(k) <==> keys@.contains(k),
            pred == (|k: u64| keys@.contains(k)),
            out@ == ordered_keys@.subrange(0, i as int).filter(pred),
        decreases ordered_keys.len() - i,
    {
        let key = ordered_keys[i];
        proof {
            assert(ordered_keys@.subrange(0, i + 1) =~= ordered_keys@.subrange(0, i as int).push(key));
            ordered_keys@.subrange(0, i as int).lemma_filter_push(key, pred);
        }
        if contains_key(&input, key) {
            out.push(key);
        }
        i = i + 1;
    }
    proof {
        assert(ordered_keys@.subrange(0, ordered_keys@.len() as int) =~= ordered_keys@);
    }
    out
}

/// The parent recorded for `key` in `parents`: the last entry for `key`
/// wins. `None` when `key` has no entry.
pub open spec fn parent_of(parents: Seq<(u64, Option<u64>)>, key: u64) -> Option<Option<u64>>
    decreases parents.len(),
{
    if parents.len() == 0 {
        None
    } else if parents.last().0 == key {
        Some(parents.last().1)
    } else {
        parent_of(parents.drop_last(), key)
    }
}

/// The parent key of `key`, if it has an entry with a parent.
pub open spec fn next_ancestor(parents: Seq<(u64, Option<u64>)>, key: u64) -> Option<u64> {
    match parent_of(parents, key) {
        Some(Some(p)) => Some(p),
        _ => None,
    }
}

/// The ancestor chain that starts at `start`, following at most `fuel`
/// links.
pub open spec fn ancestor_chain(parents: Seq<(u64, Option<u64>)>, start: Option<u64>, fuel: nat) -> Seq<u64>
    decreases fuel,
{
    if fuel == 0 || start is None {
        Seq::empty()
    } else {
        seq![start->0] + ancestor_chain(parents, next_ancestor(parents, start->0), (fuel - 1) as nat)
    }
}

/// `acc` followed by each key of `chain`, in order, that is expandable and
/// not yet listed.
pub open spec fn grow_expanded(acc: Seq<u64>, chain: Seq<u64>, expandable: Seq<u64>) -> Seq<u64>
    decreases chain.len(),
{
    if chain.len() == 0 {
        acc
    } else {
        let c = chain[0];
        let next = if expandable.contains(c) && !acc.contains(c) {
            acc.push(c)
        } else {
            acc
        };
        grow_expanded(next, chain.drop_first(), expandable)
    }
}

/// Mathematical view of a tree projection.
pub struct TreeView<T> {
    /// The visible nodes, in visit order.
    pub visible_nodes: Seq<ProjectedTreeNode<T>>,
    /// The keys of the visible nodes, in visit order.
    pub visible_keys: Seq<u64>,
    /// Every key of the latest snapshot, in visit order.
    pub all_keys: Seq<u64>,
    /// The expanded keys.
    pub expanded: Seq<u64>,
    /// The keys of the nodes with children, in visit order.
    pub expandable: Seq<u64>,
    /// Every key of the latest snapshot with its parent, in visit order.
    pub parents: Seq<(u64, Option<u64>)>,
}

/// The expanded keys that revealing `key` asks for: the current ones
/// followed by each expandable ancestor of `key` that is not expanded,
/// nearest first.
pub open spec fn reveal_request<T>(view: TreeView<T>, key: u64) -> Seq<u64> {
    grow_expanded(
        view.expanded,
        ancestor_chain(view.parents, next_ancestor(view.parents, key), view.parents.len()),
        view.expandable,
    )
}

/// The keys of `parents`, in order.
spec fn parent_keys(parents: Seq<(u64, Option<u64>)>) -> Seq<u64> {
    parents.map_values(|e: (u64, Option<u64>)| e.0)
}

proof fn lemma_parent_of_index(parents: Seq<(u64, Option<u64>)>, i: int)
    requires
        parent_keys(parents).no_duplicates(),
        0 <= i < parents.len(),
    ensures
        parent_of(parents, parents[i].0) == Some(parents[i].1),
    decreases parents.len(),
{
    if i < parents.len() - 1 {
        let init = parents.drop_last();
        assert(parent_keys(parents)[i] == parents[i].0);
        assert(parent_keys(parents)[parents.len() - 1] == parents.last().0);
        assert(parent_keys(init) =~= parent_keys(parents).drop_last());
        lemma_parent_of_index(init, i);
        assert(init[i] == parents[i]);
    }
}

proof fn lemma_parent_of_absent(parents: Seq<(u64, Option<u64>)>, key: u64)
    requires
        !parent_keys(parents).contains(key),
    ensures
        parent_of(parents, key) is None,
    decreases parents.len(),
{
    if parents.len() > 0 {
        assert(parent_keys(parents)[parents.len() - 1] == parents.last().0);
        let init = parents.drop_last();
        assert forall|j: int| 0 <= j < init.len() implies parent_keys(init)[j] != key by {
            assert(parent_keys(init)[j] == parent_keys(parents)[j]);
        }
        lemma_parent_of_absent(init, key);
    }
}

/// Every key of the ancestor chain that starts at the entry at `i` is the
/// key of an entry at or before `i`.
proof fn lemma_chain_before(parents: Seq<(u64, Option<u64>)>, i: int, fuel: nat)
    requires
        parent_keys(parents).no_duplicates(),
        parents_point_back(parents),
        0 <= i < parents.len(),
    ensures
        forall|x: u64| #[trigger] ancestor_chain(parents, Some(parents[i].0), fuel).contains(x) ==> exists|k: int|
            0 <= k <= i && parents[k].0 == x,
    decreases fuel,
{
    let chain = ancestor_chain(parents, Some(parents[i].0), fuel);
    if fuel > 0 {
        lemma_parent_of_index(parents, i);
        let next = next_ancestor(parents, parents[i].0);
        let rest = ancestor_chain(parents, next, (fuel - 1) as nat);
        assert(chain == seq![parents[i].0] + rest);
        if next is Some {
            assert(parents[i].1 is Some);
            let j = choose|j: int| 0 <= j < i && parents[j].0 == parents[i].1->0;
            lemma_chain_before(parents, j, (fuel - 1) as nat);
        } else {
            assert(rest =~= Seq::<u64>::empty());
        }
        assert forall|x: u64| #[trigger] chain.contains(x) implies exists|k: int| 0 <= k <= i && parents[k].0 == x by {
            let m = choose|m: int| 0 <= m < chain.len() && chain[m] == x;
            if m > 0 {
                assert(rest[m - 1] == x);
                assert(rest.contains(x));
            }
        }
    }
}

proof fn lemma_grow_keeps(acc: Seq<u64>, chain: Seq<u64>, expandable: Seq<u64>, key: u64)
    requires
        !chain.contains(key),
    ensures
        grow_expanded(acc, chain, expandable).contains(key) == acc.contains(key),
    decreases chain.len(),
{
    if chain.len() > 0 {
        let c = chain[0];
        assert(c != key);
        let next = if expandable.contains(c) && !acc.contains(c) {
            acc.push(c)
        } else {
            acc
        };
        assert(next.contains(key) == acc.contains(key)) by {
            if next.contains(key) && next != acc {
                let m = choose|m: int| 0 <= m < next.len() && next[m] == key;
                if m < acc.len() {
                    assert(acc[m] == key);
                }
            }
            if acc.contains(key) {
                let m = choose|m: int| 0 <= m < acc.len() && acc[m] == key;
                assert(next[m] == key);
            }
        }
        assert forall|x: u64| #[trigger] chain.drop_first().contains(x) implies chain.contains(x) by {
            let m = choose|m: int| 0 <= m < chain.drop_first().len() && chain.drop_first()[m] == x;
            assert(chain[m + 1] == x);
        }
        lemma_grow_keeps(next, chain.drop_first(), expandable, key);
    }
}

/// Revealing a key expands only its ancestors, never the key itself: in a
/// consistent view of a tree with distinct keys, the requested expanded
/// keys, and the expanded keys that result, contain `key` exactly when the
/// current expanded keys do.
pub proof fn reveal_expands_only_ancestors<T>(view: TreeView<T>, key: u64)
    requires
        consistent_view(view),
        view.all_keys.no_duplicates(),
    ensures
        reveal_request(view, key).contains(key) == view.expanded.contains(key),
        normalized(reveal_request(view, key), view.expandable).contains(key) == view.expanded.contains(key),
{
    let ps = view.parents;
    assert(parent_keys(ps) == view.all_keys);
    let start = next_ancestor(ps, key);
    let chain = ancestor_chain(ps, start, ps.len());
    if parent_keys(ps).contains(key) {
        let i = choose|i: int| 0 <= i < parent_keys(ps).len() && parent_keys(ps)[i] == key;
        assert(ps[i].0 == key);
        lemma_parent_of_index(ps, i);
        if ps[i].1 is Some {
            let j = choose|j: int| 0 <= j < i && ps[j].0 == ps[i].1->0;
            lemma_chain_before(ps, j, ps.len());
            assert(!chain.contains(key)) by {
                if chain.contains(key) {
                    let k = choose|k: int| 0 <= k <= j && ps[k].0 == key;
                    assert(parent_keys(ps)[k] == key && parent_keys(ps)[i] == key);
                }
            }
        } else {
            assert(chain =~= Seq::<u64>::empty());
        }
    } else {
        lemma_parent_of_absent(ps, key);
        assert(chain =~= Seq::<u64>::empty());
    }
    lemma_grow_keeps(view.expanded, chain, view.expandable, key);
    crate::laws::normalization_is_idempotent(reveal_request(view, key), view.expandable);
    crate::laws::normalization_is_idempotent(view.expanded, view.expandable);
}

/// The identities of the signals of a tree projection.
pub struct TreeIds {
    pub visible_nodes: SignalId,
    pub visible_keys: SignalId,
    pub all_keys: SignalId,
    pub expanded: SignalId,
    pub expandable: SignalId,
    pub parents: SignalId,
    pub has_visible_nodes: SignalId,
    pub visible_count: SignalId,
}

/// `a` and `b` agree field by field, their items as `T`'s equality says.
pub open spec fn node_equal<T: PartialEq>(a: ProjectedTreeNode<T>, b: ProjectedTreeNode<T>) -> bool {
    &&& a.key == b.key
    &&& a.item.eq_spec(&b.item)
    &&& a.depth == b.depth
    &&& a.parent == b.parent
    &&& a.has_children == b.has_children
    &&& a.is_expanded == b.is_expanded
}

/// `a` and `b` are equal node by node.
pub open spec fn nodes_equal<T: PartialEq>(a: Seq<ProjectedTreeNode<T>>, b: Seq<ProjectedTreeNode<T>>) -> bool {
    &&& a.len() == b.len()
    &&& forall|i: int| 0 <= i < a.len() ==> node_equal(#[trigger] a[i], b[i])
}

/// Whether `a` and `b` differ in some node, as [`nodes_equal`] says when
/// `T`'s equality is specified.
fn nodes_differ<T: PartialEq>(a: &Vec<ProjectedTreeNode<T>>, b: &Vec<ProjectedTreeNode<T>>) -> (r: bool)
    ensures
        T::obeys_eq_spec() ==> r == !nodes_equal(a@, b@),
{
    if a.len() != b.len() {
        return true;
    }
    let mut i: usize = 0;
    while i < a.len()
        invariant
            i <= a.len(),
            a.len() == b.len(),
            T::obeys_eq_spec() ==> forall|j: int| 0 <= j < i ==> node_equal(#[trigger] a@[j], b@[j]),
        decreases a.len() - i,
    {
        let x = &a[i];
        let y = &b[i];
        let same_parent = match (x.parent, y.parent) {
            (Some(p), Some(q)) => p == q,
            (None, None) => true,
            _ => false,
        };
        let same_item = x.item == y.item;
        if x.key != y.key || !same_item || x.depth != y.depth || !same_parent || x.has_children
            != y.has_children || x.is_expanded != y.is_expanded {
            return true;
        }
        i = i + 1;
    }
    false
}

/// The singleton `{id}` when `cond`, else nothing.
pub open spec fn id_if(cond: bool, id: SignalId) -> Set<SignalId> {
    if cond {
        Set::empty().insert(id)
    } else {
        Set::empty()
    }
}

/// A source-driven visible tree projection with managed expansion state.
///
/// The projection keeps the latest visible nodes, visible key order, every
/// key, the expandable keys and the parent of every key in sync with a tree
/// source, together with the expanded keys and a per-key "is expanded" flag
/// for each key a reader asked about. The host evaluates the source under
/// [`TreeProjection::effect`] and hands the source tree to
/// [`TreeProjection::apply_source`], which reads the expanded keys with
/// tracking, so that expanding or collapsing re-projects the tree.
pub struct TreeProjection<T> {
    visible_nodes: Signal<Vec<ProjectedTreeNode<T>>>,
    visible_keys: Signal<Vec<u64>>,
    all_keys: Signal<Vec<u64>>,
    expanded_keys: Signal<Vec<u64>>,
    expandable_keys: Signal<Vec<u64>>,
    parent_by_key: Signal<Vec<(u64, Option<u64>)>>,
    has_visible_nodes: Memo<bool>,
    visible_count: Memo<usize>,
    keyed: KeyFlags,
    effect: Effect,
}

impl<T> View for TreeProjection<T> {
    type V = TreeView<T>;

    closed spec fn view(&self) -> TreeView<T> {
        TreeView {
            visible_nodes: self.visible_nodes.spec_value()@,
            visible_keys: self.visible_keys.spec_value()@,
            all_keys: self.all_keys.spec_value()@,
            expanded: self.expanded_keys.spec_value()@,
            expandable: self.expandable_keys.spec_value()@,
            parents: self.parent_by_key.spec_value()@,
        }
    }
}

/// Copies of `v`'s nodes with copies of their items.
fn copy_nodes<T: Clone>(v: &Vec<ProjectedTreeNode<T>>) -> (r: Vec<ProjectedTreeNode<T>>)
    ensures
        nodes_match(r@, v@),
{
    let mut r: Vec<ProjectedTreeNode<T>> = Vec::new();
    let mut i: usize = 0;
    while i < v.len()
        invariant
            i <= v.len(),
            r@.len() == i,
            forall|j: int| 0 <= j < i ==> same_node(v@[j], #[trigger] r@[j]),
        decreases v.len() - i,
    {
        let n = &v[i];
        r.push(
            ProjectedTreeNode {
                key: n.key,
                item: n.item.clone(),
                depth: n.depth,
                parent: n.parent,
                has_children: n.has_children,
                is_expanded: n.is_expanded,
            },
        );
        i = i + 1;
    }
    r
}

fn same_parents(a: &Vec<(u64, Option<u64>)>, b: &Vec<(u64, Option<u64>)>) -> (r: bool)
    ensures
        r == (a@ == b@),
{
    if a.len() != b.len() {
        return false;
    }
    let mut i: usize = 0;
    while i < a.len()
        invariant
            i <= a.len(),
            a.len() == b.len(),
            forall|j: int| 0 <= j < i ==> a@[j] == b@[j],
        decreases a.len() - i,
    {
        let (ka, pa) = a[i];
        let (kb, pb) = b[i];
        let same_parent = match (pa, pb) {
            (Some(x), Some(y)) => x == y,
            (None, None) => true,
            _ => false,
        };
        if ka != kb || !same_parent {
            return false;
        }
        i = i + 1;
    }
    proof {
        assert(a@ =~= b@);
    }
    true
}

/// Create a source-driven tree projection of `roots` with the given
/// expanded keys.
pub fn use_tree_projection<T: Clone>(rt: &mut ReactiveRuntime, expanded: Vec<u64>, roots: &Vec<SourceNode<T>>) -> (p:
    TreeProjection<T>)
    requires
        old(rt).wf(),
        old(rt)@.next_signal < u64::MAX - 8,
        old(rt)@.next_effect < u64::MAX,
        forest_height(roots@) <= usize::MAX,
    ensures
        final(rt).wf(),
        p.wf(),
        ({
            let es = forest_entries(roots@, None, 0, true, dedupe(expanded@));
            &&& nodes_match(p@.visible_nodes, visible_nodes_of(es))
            &&& p@.visible_keys == visible_keys_of(es)
            &&& p@.all_keys == entry_keys(es)
            &&& p@.expandable == expandable_keys_of(es)
            &&& p@.parents == entry_parents(es)
            &&& p@.expanded == normalized(dedupe(expanded@), expandable_keys_of(es))
        }),
        p.spec_effect().0 == old(rt)@.next_effect,
{
    TreeProjection::new(rt, expanded, roots)
}

impl<T> TreeProjection<T> {
    /// The identities of the projection's signals.
    pub closed spec fn ids(&self) -> TreeIds {
        TreeIds {
            visible_nodes: self.visible_nodes.spec_id(),
            visible_keys: self.visible_keys.spec_id(),
            all_keys: self.all_keys.spec_id(),
            expanded: self.expanded_keys.spec_id(),
            expandable: self.expandable_keys.spec_id(),
            parents: self.parent_by_key.spec_id(),
            has_visible_nodes: self.has_visible_nodes.spec_id(),
            visible_count: self.visible_count.spec_id(),
        }
    }

    /// The per-key "is expanded" flags.
    pub closed spec fn spec_keyed(&self) -> KeyFlags {
        self.keyed
    }

    /// The effect under which the host evaluates the source.
    pub closed spec fn spec_effect(&self) -> crate::runtime::EffectId {
        self.effect.spec_id()
    }

    /// The flags agree with the expanded keys and the memos with the
    /// visible nodes.
    pub closed spec fn wf(&self) -> bool {
        &&& self.keyed.wf()
        &&& self.keyed.agrees(self.expanded_keys.spec_value()@)
        &&& self.has_visible_nodes.spec_value() == (self.visible_nodes.spec_value()@.len() > 0)
        &&& self.visible_count.spec_value() == self.visible_nodes.spec_value()@.len()
        &&& consistent_view(self@)
    }

    /// In every state a projection reaches: the visible keys are the keys of
    /// the visible nodes and a subsequence of all keys, every visible child
    /// follows its expanded parent, the expanded keys are expandable keys in
    /// the expandable keys' order, and when the source's keys are distinct
    /// the expanded keys have no repeats.
    pub proof fn view_is_consistent(&self)
        requires
            self.wf(),
        ensures
            consistent_view(self@),
    {
    }

    /// Both projections own the same signals.
    pub open spec fn same_signals(&self, other: &Self) -> bool {
        &&& self.ids() == other.ids()
        &&& self.spec_effect() == other.spec_effect()
    }

    /// The signals a move of the expanded keys to `target` writes.
    pub open spec fn expansion_touched(&self, target: Seq<u64>) -> Set<SignalId> {
        Set::empty().insert(self.ids().expanded).union(self.spec_keyed().changed_ids(target))
    }

    /// What asking for the expanded keys `requested` does: they are
    /// normalized to the expandable keys' order; when that changes the
    /// expanded keys, the changed signals are written as one batch and the
    /// result is `true`, else nothing happens and the result is `false`.
    pub open spec fn expansion_outcome(
        &self,
        post: &Self,
        pre_rt: RuntimeView,
        post_rt: RuntimeView,
        requested: Seq<u64>,
        r: (bool, SignalNotifications),
    ) -> bool {
        let target = normalized(requested, self@.expandable);
        &&& post@ == TreeView { expanded: target, ..self@ }
        &&& post.same_signals(self)
        &&& post.spec_keyed().keys() == self.spec_keyed().keys()
        &&& post.spec_keyed().keeps_ids(&self.spec_keyed())
        &&& r.0 == (target != self@.expanded)
        &&& if r.0 {
            pre_rt.wrote(post_rt, self.expansion_touched(target), r.1)
        } else {
            post_rt == pre_rt && r.1.spec_is_empty()
        }
    }

    /// The signals that applying a new source snapshot writes.
    pub open spec fn source_touched(&self, post: &Self, nodes_changed: bool) -> Set<SignalId> {
        id_if(nodes_changed, self.ids().visible_nodes).union(
            id_if(self@.visible_keys != post@.visible_keys, self.ids().visible_keys),
        ).union(id_if(self@.all_keys != post@.all_keys, self.ids().all_keys)).union(
            id_if(self@.expandable != post@.expandable, self.ids().expandable),
        ).union(id_if(self@.parents != post@.parents, self.ids().parents)).union(
            id_if(
                (self@.visible_nodes.len() > 0) != (post@.visible_nodes.len() > 0),
                self.ids().has_visible_nodes,
            ),
        ).union(
            id_if(self@.visible_nodes.len() != post@.visible_nodes.len(), self.ids().visible_count),
        ).union(self.spec_keyed().changed_ids(post@.expanded)).union(
            id_if(self@.expanded != post@.expanded, self.ids().expanded),
        )
    }

    /// Create a projection of the source tree `roots` with the expanded keys
    /// `expanded` (repeats dropped, then normalized to the expandable keys'
    /// order), and register the effect under which the host evaluates the
    /// source from then on.
    pub fn new(rt: &mut ReactiveRuntime, expanded: Vec<u64>, roots: &Vec<SourceNode<T>>) -> (p: Self) where
        T: Clone,
        requires
            old(rt).wf(),
            old(rt)@.next_signal < u64::MAX - 8,
            old(rt)@.next_effect < u64::MAX,
            forest_height(roots@) <= usize::MAX,
        ensures
            final(rt).wf(),
            p.wf(),
            ({
                let es = forest_entries(roots@, None, 0, true, dedupe(expanded@));
                &&& nodes_match(p@.visible_nodes, visible_nodes_of(es))
                &&& p@.visible_keys == visible_keys_of(es)
                &&& p@.all_keys == entry_keys(es)
                &&& p@.expandable == expandable_keys_of(es)
                &&& p@.parents == entry_parents(es)
                &&& p@.expanded == normalized(dedupe(expanded@), expandable_keys_of(es))
            }),
            p.spec_keyed().keys().len() == 0,
            p.spec_effect().0 == old(rt)@.next_effect,
    {
        let requested = dedupe_keys(expanded);
        let snapshot = build_projection(roots, &requested);
        let ProjectionSnapshot { visible_nodes, visible_keys, all_keys, expandable_keys, parent_by_key } =
            snapshot;
        let target = normalize_keys_to_order(requested, &expandable_keys);
        let count = visible_nodes.len();
        let visible_nodes = Signal::new(rt, visible_nodes);
        let visible_keys = Signal::new(rt, visible_keys);
        let all_keys = Signal::new(rt, all_keys);
        let expanded_keys = Signal::new(rt, target);
        let expandable_keys = Signal::new(rt, expandable_keys);
        let parent_by_key = Signal::new(rt, parent_by_key);
        let has_visible_nodes = Memo::maintained(rt, count > 0);
        let visible_count = Memo::maintained(rt, count);
        let keyed = KeyFlags::new();
        let effect = effect(rt);
        let p = TreeProjection {
            visible_nodes,
            visible_keys,
            all_keys,
            expanded_keys,
            expandable_keys,
            parent_by_key,
            has_visible_nodes,
            visible_count,
            keyed,
            effect,
        };
        proof {
            lemma_snapshot_consistent(p@, roots@, requested@);
        }
        p
    }

    /// Return the effect under which the host evaluates the source.
    pub fn effect(&self) -> (e: &Effect)
        ensures
            e.spec_id() == self.spec_effect(),
    {
        &self.effect
    }

    /// Return the signal holding the latest visible nodes.
    pub fn visible_nodes_signal(&self) -> (s: &Signal<Vec<ProjectedTreeNode<T>>>)
        ensures
            s.spec_id() == self.ids().visible_nodes,
            s.spec_value()@ == self@.visible_nodes,
    {
        &self.visible_nodes
    }

    /// Read the latest visible nodes with dependency tracking.
    pub fn read_visible_nodes<'a>(&'a self, rt: &mut ReactiveRuntime) -> (v: &'a Vec<ProjectedTreeNode<T>>)
        requires
            old(rt).wf(),
        ensures
            final(rt).wf(),
            v@ == self@.visible_nodes,
            final(rt)@ == old(rt)@.after_track(self.ids().visible_nodes),
    {
        self.visible_nodes.read(rt)
    }

    /// Copies of the latest visible nodes, without dependency tracking.
    pub fn visible_nodes_untracked(&self) -> (v: Vec<ProjectedTreeNode<T>>) where T: Clone
        ensures
            nodes_match(v@, self@.visible_nodes),
    {
        copy_nodes(self.visible_nodes.peek())
    }

    /// Return the signal holding the latest visible key order.
    pub fn visible_keys_signal(&self) -> (s: &Signal<Vec<u64>>)
        ensures
            s.spec_id() == self.ids().visible_keys,
            s.spec_value()@ == self@.visible_keys,
    {
        &self.visible_keys
    }

    /// A copy of the latest visible keys, with dependency tracking.
    pub fn visible_keys(&self, rt: &mut ReactiveRuntime) -> (v: Vec<u64>)
        requires
            old(rt).wf(),
        ensures
            final(rt).wf(),
            v@ == self@.visible_keys,
            final(rt)@ == old(rt)@.after_track(self.ids().visible_keys),
    {
        copy_keys(self.visible_keys.read(rt))
    }

    /// A copy of the latest visible keys, without dependency tracking.
    pub fn visible_keys_untracked(&self) -> (v: Vec<u64>)
        ensures
            v@ == self@.visible_keys,
    {
        copy_keys(self.visible_keys.peek())
    }

    /// Return the signal holding every key of the latest snapshot.
    pub fn all_keys_signal(&self) -> (s: &Signal<Vec<u64>>)
        ensures
            s.spec_id() == self.ids().all_keys,
            s.spec_value()@ == self@.all_keys,
    {
        &self.all_keys
    }

    /// A copy of every key of the latest snapshot, with dependency tracking.
    pub fn all_keys(&self, rt: &mut ReactiveRuntime) -> (v: Vec<u64>)
        requires
            old(rt).wf(),
        ensures
            final(rt).wf(),
            v@ == self@.all_keys,
            final(rt)@ == old(rt)@.after_track(self.ids().all_keys),
    {
        copy_keys(self.all_keys.read(rt))
    }

    /// A copy of every key of the latest snapshot, without dependency
    /// tracking.
    pub fn all_keys_untracked(&self) -> (v: Vec<u64>)
        ensures
            v@ == self@.all_keys,
    {
        copy_keys(self.all_keys.peek())
    }

    /// Return the signal holding the expanded keys.
    pub fn expanded_keys_signal(&self) -> (s: &Signal<Vec<u64>>)
        ensures
            s.spec_id() == self.ids().expanded,
            s.spec_value()@ == self@.expanded,
    {
        &self.expanded_keys
    }

    /// A copy of the expanded keys, with dependency tracking.
    pub fn expanded_keys(&self, rt: &mut ReactiveRuntime) -> (v: Vec<u64>)
        requires
            old(rt).wf(),
        ensures
            final(rt).wf(),
            v@ == self@.expanded,
            final(rt)@ == old(rt)@.after_track(self.ids().expanded),
    {
        copy_keys(self.expanded_keys.read(rt))
    }

    /// A copy of the expanded keys, without dependency tracking.
    pub fn expanded_keys_untracked(&self) -> (v: Vec<u64>)
        ensures
            v@ == self@.expanded,
    {
        copy_keys(self.expanded_keys.peek())
    }

    /// Return the memo that is `true` when any node is visible.
    pub fn has_visible_nodes(&self) -> (m: &Memo<bool>)
        requires
            self.wf(),
        ensures
            m.spec_id() == self.ids().has_visible_nodes,
            m.spec_value() == (self@.visible_nodes.len() > 0),
    {
        &self.has_visible_nodes
    }

    /// Return the memo holding the number of visible nodes.
    pub fn visible_count(&self) -> (m: &Memo<usize>)
        requires
            self.wf(),
        ensures
            m.spec_id() == self.ids().visible_count,
            m.spec_value() == self@.visible_nodes.len(),
    {
        &self.visible_count
    }

    /// Whether `key` is expandable, with dependency tracking.
    pub fn is_expandable(&self, rt: &mut ReactiveRuntime, key: u64) -> (b: bool)
        requires
            old(rt).wf(),
        ensures
            final(rt).wf(),
            b == self@.expandable.contains(key),
            final(rt)@ == old(rt)@.after_track(self.ids().expandable),
    {
        contains_key(self.expandable_keys.read(rt), key)
    }

    fn is_expandable_untracked(&self, key: u64) -> (b: bool)
        ensures
            b == self@.expandable.contains(key),
    {
        contains_key(self.expandable_keys.peek(), key)
    }

    /// The parent recorded for `key`; `None` when `key` is not in the latest
    /// snapshot.
    fn parent_key_untracked(&self, key: u64) -> (p: Option<Option<u64>>)
        ensures
            p == parent_of(self@.parents, key),
    {
        let parents = self.parent_by_key.peek();
        let mut i: usize = parents.len();
        proof {
            assert(parents@.subrange(0, i as int) =~= parents@);
        }
        while i > 0
            invariant
                i <= parents@.len(),
                parents@ == self@.parents,
                parent_of(parents@, key) == parent_of(parents@.subrange(0, i as int), key),
            decreases i,
        {
            let (k, p) = parents[i - 1];
            proof {
                let sub = parents@.subrange(0, i as int);
                assert(sub.drop_last() =~= parents@.subrange(0, i - 1));
                assert(sub.last() == (k, p));
            }
            if k == key {
                return Some(p);
            }
            i = i - 1;
        }
        None
    }

    /// Whether `key` is expanded, reading only `key`'s flag with dependency
    /// tracking. The flag is created on first use.
    pub fn is_expanded(&mut self, rt: &mut ReactiveRuntime, key: u64) -> (b: bool)
        requires
            old(rt).wf(),
            old(self).wf(),
            old(rt)@.next_signal < u64::MAX,
        ensures
            final(rt).wf(),
            final(self).wf(),
            b == old(self)@.expanded.contains(key),
            final(self)@ == old(self)@,
            final(self).same_signals(old(self)),
            final(self).spec_keyed().keys().contains(key),
            forall|k: u64| #[trigger] old(self).spec_keyed().keys().contains(k) ==> final(self).spec_keyed().keys().contains(k)
                && final(self).spec_keyed().flag_id(k) == old(self).spec_keyed().flag_id(k),
            old(self).spec_keyed().keys().contains(key) ==> final(rt)@ == old(rt)@.after_track(
                old(self).spec_keyed().flag_id(key),
            ),
            !old(self).spec_keyed().keys().contains(key) ==> final(rt)@ == (RuntimeView {
                next_signal: (old(rt)@.next_signal + 1) as u64,
                ..old(rt)@
            }).after_track(SignalId(old(rt)@.next_signal)),
    {
        let initial = contains_key(self.expanded_keys.peek(), key);
        self.keyed.read(rt, key, initial)
    }

    /// Move the expanded keys to `expanded` normalized to the expandable
    /// keys' order, refreshing the flags of keys whose answer changes.
    fn set_expanded_keys(&mut self, rt: &mut ReactiveRuntime, expanded: Vec<u64>) -> (r: (
        bool,
        SignalNotifications,
    ))
        requires
            old(rt).wf(),
            old(self).wf(),
        ensures
            final(rt).wf(),
            final(self).wf(),
            old(self).expansion_outcome(final(self), old(rt)@, final(rt)@, expanded@, r),
    {
        let target = normalize_keys_to_order(expanded, self.expandable_keys.peek());
        if same_keys(self.expanded_keys.peek(), &target) {
            return (false, SignalNotifications::empty());
        }
        let mut ids = self.keyed.set_all(&target);
        push_id(&mut ids, self.expanded_keys.id());
        self.expanded_keys.set_silent(target);
        proof {
            assert(ids@.to_set() =~= old(self).expansion_touched(self@.expanded));
            crate::laws::normalization_is_idempotent(expanded@, self@.expandable);
            lemma_normalized_distinct(expanded@, self@.expandable);
        }
        let n = rt.notify_all(&ids);
        (true, n)
    }

    /// Expand `key` when it is expandable. Returns whether the expanded keys
    /// changed.
    pub fn expand(&mut self, rt: &mut ReactiveRuntime, key: u64) -> (r: (bool, SignalNotifications))
        requires
            old(rt).wf(),
            old(self).wf(),
        ensures
            final(rt).wf(),
            final(self).wf(),
            old(self)@.expandable.contains(key) ==> old(self).expansion_outcome(
                final(self),
                old(rt)@,
                final(rt)@,
                old(self)@.expanded.push(key),
                r,
            ),
            !old(self)@.expandable.contains(key) ==> !r.0 && *final(self) == *old(self) && final(rt)@ == old(
                rt,
            )@ && r.1.spec_is_empty(),
    {
        if !self.is_expandable_untracked(key) {
            return (false, SignalNotifications::empty());
        }
        let mut expanded = copy_keys(self.expanded_keys.peek());
        expanded.push(key);
        self.set_expanded_keys(rt, expanded)
    }

    /// Collapse `key` when it is expanded. Returns whether the expanded keys
    /// changed.
    pub fn collapse(&mut self, rt: &mut ReactiveRuntime, key: u64) -> (r: (bool, SignalNotifications))
        requires
            old(rt).wf(),
            old(self).wf(),
        ensures
            final(rt).wf(),
            final(self).wf(),
            old(self)@.expanded.contains(key) ==> old(self).expansion_outcome(
                final(self),
                old(rt)@,
                final(rt)@,
                old(self)@.expanded.filter(|k: u64| k != key),
                r,
            ),
            !old(self)@.expanded.contains(key) ==> !r.0 && *final(self) == *old(self) && final(rt)@ == old(
                rt,
            )@ && r.1.spec_is_empty(),
    {
        if !contains_key(self.expanded_keys.peek(), key) {
            return (false, SignalNotifications::empty());
        }
        let expanded = without_key(self.expanded_keys.peek(), key);
        self.set_expanded_keys(rt, expanded)
    }

    /// Collapse `key` when it is expanded, else expand it. Returns whether
    /// the expanded keys changed.
    pub fn toggle(&mut self, rt: &mut ReactiveRuntime, key: u64) -> (r: (bool, SignalNotifications))
        requires
            old(rt).wf(),
            old(self).wf(),
        ensures
            final(rt).wf(),
            final(self).wf(),
            old(self)@.expanded.contains(key) ==> old(self).expansion_outcome(
                final(self),
                old(rt)@,
                final(rt)@,
                old(self)@.expanded.filter(|k: u64| k != key),
                r,
            ),
            !old(self)@.expanded.contains(key) && old(self)@.expandable.contains(key) ==> old(
                self,
            ).expansion_outcome(final(self), old(rt)@, final(rt)@, old(self)@.expanded.push(key), r),
            !old(self)@.expanded.contains(key) && !old(self)@.expandable.contains(key) ==> !r.0
                && *final(self) == *old(self) && final(rt)@ == old(rt)@ && r.1.spec_is_empty(),
    {
        if contains_key(self.expanded_keys.peek(), key) {
            self.collapse(rt, key)
        } else {
            self.expand(rt, key)
        }
    }

    /// Expand every expandable key. Returns whether the expanded keys
    /// changed.
    pub fn expand_all(&mut self, rt: &mut ReactiveRuntime) -> (r: (bool, SignalNotifications))
        requires
            old(rt).wf(),
            old(self).wf(),
        ensures
            final(rt).wf(),
            final(self).wf(),
            old(self).expansion_outcome(final(self), old(rt)@, final(rt)@, old(self)@.expandable, r),
    {
        let all = copy_keys(self.expandable_keys.peek());
        self.set_expanded_keys(rt, all)
    }

    /// Collapse every expanded key. Returns whether the expanded keys
    /// changed.
    pub fn collapse_all(&mut self, rt: &mut ReactiveRuntime) -> (r: (bool, SignalNotifications))
        requires
            old(rt).wf(),
            old(self).wf(),
        ensures
            final(rt).wf(),
            final(self).wf(),
            old(self).expansion_outcome(final(self), old(rt)@, final(rt)@, Seq::empty(), r),
    {
        self.set_expanded_keys(rt, Vec::new())
    }

    /// Normalize the expanded keys to the latest snapshot's expandable keys.
    /// Returns whether the expanded keys changed.
    pub fn reconcile_now(&mut self, rt: &mut ReactiveRuntime) -> (r: (bool, SignalNotifications))
        requires
            old(rt).wf(),
            old(self).wf(),
        ensures
            final(rt).wf(),
            final(self).wf(),
            old(self).expansion_outcome(final(self), old(rt)@, final(rt)@, old(self)@.expanded, r),
    {
        let current = copy_keys(self.expanded_keys.peek());
        self.set_expanded_keys(rt, current)
    }

    /// Expand the ancestor chain of `key` so that it becomes visible.
    /// Returns whether the expanded keys changed; a key that is not in the
    /// latest snapshot, or whose expandable ancestors are all expanded,
    /// changes nothing.
    pub fn reveal_key(&mut self, rt: &mut ReactiveRuntime, key: u64) -> (r: (bool, SignalNotifications))
        requires
            old(rt).wf(),
            old(self).wf(),
        ensures
            final(rt).wf(),
            final(self).wf(),
            parent_of(old(self)@.parents, key) is Some && reveal_request(old(self)@, key).len()
                > old(self)@.expanded.len() ==> old(self).expansion_outcome(
                final(self),
                old(rt)@,
                final(rt)@,
                reveal_request(old(self)@, key),
                r,
            ),
            parent_of(old(self)@.parents, key) is None || reveal_request(old(self)@, key).len()
                == old(self)@.expanded.len() ==> !r.0 && *final(self) == *old(self) && final(rt)@ == old(
                rt,
            )@ && r.1.spec_is_empty(),
    {
        let first = self.parent_key_untracked(key);
        let mut parent = match first {
            Some(p) => p,
            None => {
                return (false, SignalNotifications::empty());
            },
        };
        proof {
            lemma_grow_len(self@.expanded, ancestor_chain(self@.parents, parent, self@.parents.len()), self@.expandable);
        }
        let mut expanded = copy_keys(self.expanded_keys.peek());
        let mut changed = false;
        let mut fuel: usize = self.parent_by_key.peek().len();
        let ghost request = reveal_request(self@, key);
        while fuel > 0 && parent.is_some()
            invariant
                self@ == old(self)@,
                request == reveal_request(old(self)@, key),
                grow_expanded(expanded@, ancestor_chain(self@.parents, parent, fuel as nat), self@.expandable)
                    == request,
                changed == (expanded@.len() > self@.expanded.len()),
                expanded@.len() >= self@.expanded.len(),
            decreases fuel,
        {
            let current = parent.unwrap();
            let ghost before = expanded@;
            proof {
                let chain = ancestor_chain(self@.parents, parent, fuel as nat);
                let rest = ancestor_chain(self@.parents, next_ancestor(self@.parents, current), (fuel - 1) as nat);
                assert(chain == seq![current] + rest);
                assert(chain.drop_first() =~= rest);
                assert(chain[0] == current);
            }
            if self.is_expandable_untracked(current) && !contains_key(&expanded, current) {
                expanded.push(current);
                changed = true;
            }
            parent = match self.parent_key_untracked(current) {
                Some(Some(p)) => Some(p),
                _ => None,
            };
            fuel = fuel - 1;
        }
        proof {
            assert(ancestor_chain(self@.parents, parent, fuel as nat) =~= Seq::<u64>::empty());
        }
        if !changed {
            return (false, SignalNotifications::empty());
        }
        self.set_expanded_keys(rt, expanded)
    }
}

impl<T: Clone + PartialEq> TreeProjection<T> {
    /// Apply a new source tree: flatten `roots` with the current expanded
    /// keys, read with dependency tracking so that the host's source effect
    /// re-runs when they change, store the snapshot, normalize the expanded keys to its
    /// expandable keys, refresh the flags and drop those of keys that are no
    /// longer expandable. The readers of every changed signal are woken as
    /// one batch; whether the visible nodes changed is decided by `T`'s
    /// equality.
    pub fn apply_source(&mut self, rt: &mut ReactiveRuntime, roots: &Vec<SourceNode<T>>) -> (n: SignalNotifications)
        requires
            old(rt).wf(),
            old(self).wf(),
            forest_height(roots@) <= usize::MAX,
        ensures
            final(rt).wf(),
            final(self).wf(),
            final(self).same_signals(old(self)),
            ({
                let es = forest_entries(roots@, None, 0, true, old(self)@.expanded);
                &&& nodes_match(final(self)@.visible_nodes, visible_nodes_of(es))
                &&& final(self)@.visible_keys == visible_keys_of(es)
                &&& final(self)@.all_keys == entry_keys(es)
                &&& final(self)@.expandable == expandable_keys_of(es)
                &&& final(self)@.parents == entry_parents(es)
                &&& final(self)@.expanded == normalized(old(self)@.expanded, expandable_keys_of(es))
            }),
            final(self).spec_keyed().keys().to_set() == old(self).spec_keyed().keys().to_set().intersect(
                final(self)@.expandable.to_set(),
            ),
            final(self).spec_keyed().keeps_ids(&old(self).spec_keyed()),
            exists|nodes_changed: bool|
                {
                    &&& T::obeys_eq_spec() ==> nodes_changed == !nodes_equal(
                        old(self)@.visible_nodes,
                        final(self)@.visible_nodes,
                    )
                    &&& old(rt)@.after_track(old(self).ids().expanded).wrote(
                        final(rt)@,
                        old(self).source_touched(final(self), nodes_changed),
                        n,
                    )
                },
    {
        let snapshot = build_projection(roots, self.expanded_keys.read(rt));
        let ProjectionSnapshot { visible_nodes, visible_keys, all_keys, expandable_keys, parent_by_key } =
            snapshot;
        let target = normalize_keys_to_order(copy_keys(self.expanded_keys.peek()), &expandable_keys);
        let count = visible_nodes.len();
        let mut ids: Vec<SignalId> = Vec::new();
        let nodes_changed = nodes_differ(self.visible_nodes.peek(), &visible_nodes);
        self.visible_nodes.set_silent(visible_nodes);
        if nodes_changed {
            push_id(&mut ids, self.visible_nodes.id());
        }
        if !same_keys(self.visible_keys.peek(), &visible_keys) {
            push_id(&mut ids, self.visible_keys.id());
        }
        self.visible_keys.set_silent(visible_keys);
        if !same_keys(self.all_keys.peek(), &all_keys) {
            push_id(&mut ids, self.all_keys.id());
        }
        self.all_keys.set_silent(all_keys);
        if !same_keys(self.expandable_keys.peek(), &expandable_keys) {
            push_id(&mut ids, self.expandable_keys.id());
        }
        self.expandable_keys.set_silent(copy_keys(&expandable_keys));
        if !same_parents(self.parent_by_key.peek(), &parent_by_key) {
            push_id(&mut ids, self.parent_by_key.id());
        }
        self.parent_by_key.set_silent(parent_by_key);
        if self.has_visible_nodes.store(count > 0) {
            push_id(&mut ids, self.has_visible_nodes.signal().id());
        }
        if self.visible_count.store(count) {
            push_id(&mut ids, self.visible_count.signal().id());
        }
        let flag_ids = self.keyed.set_all(&target);
        append_ids(&mut ids, &flag_ids);
        if !same_keys(self.expanded_keys.peek(), &target) {
            push_id(&mut ids, self.expanded_keys.id());
        }
        self.expanded_keys.set_silent(target);
        let ghost agreed = self.keyed;
        self.keyed.retain(&expandable_keys);
        proof {
            assert(self.keyed.agrees(self.expanded_keys.spec_value()@)) by {
                assert forall|k: u64| #[trigger] self.keyed.keys().contains(k) implies self.keyed.value(k)
                    == self.expanded_keys.spec_value()@.contains(k) by {
                    assert(self.keyed.keys().to_set().contains(k));
                    assert(agreed.keys().to_set().contains(k));
                }
            }
            assert forall|k: u64| #[trigger] self.keyed.keys().contains(k) implies self.keyed.flag_id(k)
                == old(self).keyed.flag_id(k) by {
                assert(self.keyed.keys().to_set().contains(k));
                assert(agreed.keys().to_set().contains(k));
            }
            assert(ids@.to_set() =~= old(self).source_touched(self, nodes_changed));
            lemma_snapshot_consistent(self@, roots@, old(self)@.expanded);
        }
        rt.notify_all(&ids)
    }
}

proof fn lemma_grow_len(acc: Seq<u64>, chain: Seq<u64>, expandable: Seq<u64>)
    ensures
        grow_expanded(acc, chain, expandable).len() >= acc.len(),
    decreases chain.len(),
{
    if chain.len() > 0 {
        let c = chain[0];
        let next = if expandable.contains(c) && !acc.contains(c) {
            acc.push(c)
        } else {
            acc
        };
        lemma_grow_len(next, chain.drop_first(), expandable);
    }
}

} // verus!
