//! Stable addresses of nodes in a trace tree: the tree's index and the
//! child index taken at each level from the root.

use vstd::prelude::*;

use crate::text::{decimal, push_decimal, push_sep_decimals, sep_decimals};

verus! {

/// A node of a session's trace tree.
#[derive(Debug, Clone, PartialEq, Eq)]
pub struct NodePath {
    pub tree: usize,
    pub path: Vec<usize>,
}

impl NodePath {
    /// The root of tree `tree`.
    pub fn root(tree: usize) -> (r: Self)
        ensures
            r.tree == tree,
            r.path@ == Seq::<usize>::empty(),
    {
        NodePath { tree, path: Vec::new() }
    }
}

/// The `at-path` notation: the tree index, then `.` and each child index.
pub open spec fn dotted(tree: usize, path: Seq<usize>) -> Seq<char> {
    decimal(tree as nat) + sep_decimals(path, '.')
}

/// Writes a node in the `at-path` notation (`0`, `0.1.2`).
pub fn format_path(path: &NodePath) -> (s: String)
    ensures
        s@ == dotted(path.tree, path.path@),
{
    let mut s = String::new();
    push_decimal(&mut s, path.tree as u64);
    push_sep_decimals(&mut s, &path.path, '.');
    assert(s@ =~= dotted(path.tree, path.path@));
    s
}

/// Whether two node paths name the same node.
pub open spec fn same_node(a: NodePath, b: NodePath) -> bool {
    a.tree == b.tree && a.path@ == b.path@
}

/// Whether `list` holds the node `(tree, path)`.
pub open spec fn listed(list: Seq<NodePath>, tree: usize, path: Seq<usize>) -> bool {
    exists|i: int| 0 <= i < list.len() && list[i].tree == tree && list[i].path@ == path
}

/// A copy of a child-index sequence.
pub fn copy_indices(v: &Vec<usize>) -> (r: Vec<usize>)
    ensures
        r@ == v@,
{
    let mut r: Vec<usize> = Vec::new();
    let mut i: usize = 0;
    while i < v.len()
        invariant
            i <= v.len(),
            r@ == v@.subrange(0, i as int),
        decreases v.len() - i,
    {
        r.push(v[i]);
        i = i + 1;
        assert(r@ =~= v@.subrange(0, i as int));
    }
    assert(v@.subrange(0, v@.len() as int) =~= v@);
    r
}

/// A copy of a node path.
pub fn copy_path(p: &NodePath) -> (r: NodePath)
    ensures
        same_node(r, *p),
{
    NodePath { tree: p.tree, path: copy_indices(&p.path) }
}

/// Whether two child-index sequences are equal.
pub fn same_indices(a: &Vec<usize>, b: &Vec<usize>) -> (r: bool)
    ensures
        r == (a@ == b@),
{
    if a.len() != b.len() {
        return false;
    }
    let mut i: usize = 0;
    while i < a.len()
        invariant
            a@.len() == b@.len(),
            i <= a.len(),
            a@.subrange(0, i as int) == b@.subrange(0, i as int),
        decreases a.len() - i,
    {
        if a[i] != b[i] {
            assert(a@[i as int] != b@[i as int]);
            return false;
        }
        i = i + 1;
        assert(a@.subrange(0, i as int) =~= b@.subrange(0, i as int));
    }
    assert(a@ =~= a@.subrange(0, a@.len() as int));
    assert(b@ =~= b@.subrange(0, b@.len() as int));
    true
}

/// Whether two node paths name the same node.
pub fn same_path(a: &NodePath, b: &NodePath) -> (r: bool)
    ensures
        r == same_node(*a, *b),
{
    a.tree == b.tree && same_indices(&a.path, &b.path)
}

/// Whether `list` holds the node `(tree, path)`.
pub fn contains_path(list: &Vec<NodePath>, tree: usize, path: &Vec<usize>) -> (r: bool)
    ensures
        r == listed(list@, tree, path@),
{
    let mut i: usize = 0;
    while i < list.len()
        invariant
            i <= list.len(),
            forall|k: int| 0 <= k < i ==> !(list@[k].tree == tree && list@[k].path@ == path@),
        decreases list.len() - i,
    {
        if list[i].tree == tree && same_indices(&list[i].path, path) {
            return true;
        }
        i = i + 1;
    }
    false
}

} // verus!
