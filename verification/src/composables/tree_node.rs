//! Nodes of a source tree and of its visible projection.
use vstd::prelude::*;

verus! {

/// A node of a source tree: its stable key, its item and its children.
pub struct SourceNode<T> {
    /// The node's stable key.
    pub key: u64,
    /// The node's item.
    pub item: T,
    /// The node's children, in order.
    pub children: Vec<SourceNode<T>>,
}

impl<T> SourceNode<T> {
    /// A node with no children.
    pub fn leaf(key: u64, item: T) -> (n: Self)
        ensures
            n.key == key,
            n.item == item,
            n.children@.len() == 0,
    {
        SourceNode { key, item, children: Vec::new() }
    }

    /// A node with the given children.
    pub fn branch(key: u64, item: T, children: Vec<SourceNode<T>>) -> (n: Self)
        ensures
            n.key == key,
            n.item == item,
            n.children@ == children@,
    {
        SourceNode { key, item, children }
    }
}

/// A visible tree node projected from the latest source tree.
#[derive(Clone, Debug, PartialEq)]
pub struct ProjectedTreeNode<T> {
    /// The node's stable key.
    pub key: u64,
    /// The projected item.
    pub item: T,
    /// The node's depth: 0 for roots.
    pub depth: usize,
    /// The key of the node's parent, if any.
    pub parent: Option<u64>,
    /// Whether the node has any children.
    pub has_children: bool,
    /// Whether the node is expanded.
    pub is_expanded: bool,
}

impl<T> ProjectedTreeNode<T> {
    /// Return this node's stable key.
    pub fn key(&self) -> (k: &u64)
        ensures
            *k == self.key,
    {
        &self.key
    }

    /// Return the projected item for this visible node.
    pub fn item(&self) -> (i: &T)
        ensures
            *i == self.item,
    {
        &self.item
    }

    /// Return this node's current visible depth.
    pub fn depth(&self) -> (d: usize)
        ensures
            d == self.depth,
    {
        self.depth
    }

    /// Return this node's parent key, if any.
    pub fn parent(&self) -> (p: Option<&u64>)
        ensures
            match self.parent {
                Some(k) => p == Some(&k),
                None => p is None,
            },
    {
        match &self.parent {
            Some(k) => Some(k),
            None => None,
        }
    }

    /// Return whether this node currently has any children.
    pub fn has_children(&self) -> (b: bool)
        ensures
            b == self.has_children,
    {
        self.has_children
    }

    /// Return whether this node is currently expanded.
    pub fn is_expanded(&self) -> (b: bool)
        ensures
            b == self.is_expanded,
    {
        self.is_expanded
    }
}

} // verus!
