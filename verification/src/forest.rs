//! When the nodes of a document form trees.

use vstd::prelude::*;

use crate::document::{DocumentView, NodeDataView, NodeHandle};

verus! {

/// The node that is `k` parents above a node, where there is one.
pub open spec fn above<C, K>(document: DocumentView<C, K>, node: int, k: nat) -> Option<int>
    decreases k,
{
    if k == 0 {
        Some(node)
    } else {
        match above(document, node, (k - 1) as nat) {
            Some(n) => match document.nodes[n].parent {
                Some(p) => Some(p as int),
                None => None,
            },
            None => None,
        }
    }
}

/// Whether a node is another one or stands somewhere below it.
pub open spec fn is_in<C, K>(document: DocumentView<C, K>, node: int, ancestor: int) -> bool {
    exists|k: nat| #[trigger] above(document, node, k) == Some(ancestor)
}

/// Whether these depths put every node deeper than its parent.
pub open spec fn fits<C, K>(document: DocumentView<C, K>, depth: spec_fn(int) -> nat) -> bool {
    forall|c: int|
        0 <= c < document.nodes.len() ==> ((#[trigger] document.nodes[c]).parent matches Some(p)
            ==> depth(p as int) < depth(c))
}

/// Whether the nodes form trees: no node stands below itself.
pub open spec fn is_forest<C, K>(document: DocumentView<C, K>) -> bool {
    exists|depth: spec_fn(int) -> nat| fits(document, depth)
}

/// In a forest no node stands below itself.
pub proof fn law_no_node_is_below_itself<C, K>(
    document: DocumentView<C, K>,
    node: NodeHandle,
    k: nat,
)
    requires
        document.wf(),
        document.contains(node),
        is_forest(document),
        k > 0,
    ensures
        above(document, node.index as int, k) != Some(node.index as int),
{
    let depth = choose|depth: spec_fn(int) -> nat| fits(document, depth);
    lemma_above_is_less_deep(document, node.index as int, k, depth);
}

/// What stands above a node is less deep.
proof fn lemma_above_is_less_deep<C, K>(
    document: DocumentView<C, K>,
    node: int,
    k: nat,
    depth: spec_fn(int) -> nat,
)
    requires
        document.wf(),
        0 <= node < document.nodes.len(),
        fits(document, depth),
    ensures
        above(document, node, k) matches Some(a) ==> 0 <= a < document.nodes.len() && depth(a) + k
            <= depth(node),
    decreases k,
{
    if k > 0 {
        lemma_above_is_less_deep(document, node, (k - 1) as nat, depth);
        if let Some(n) = above(document, node, (k - 1) as nat) {
            assert(document.nodes[n].parent is Some ==> document.nodes[n].parent->Some_0
                < document.nodes.len());
        }
    }
}

/// A document that forms trees still does with a new node.
pub proof fn law_new_nodes_keep_a_forest<C, K>(
    document: DocumentView<C, K>,
    data: NodeDataView<C, K>,
)
    requires
        document.wf(),
        is_forest(document),
    ensures
        is_forest(document.with_node(data)),
{
    let depth = choose|depth: spec_fn(int) -> nat| fits(document, depth);
    let after = document.with_node(data);
    assert forall|c: int| 0 <= c < after.nodes.len() implies ((
    #[trigger] after.nodes[c]).parent matches Some(p) ==> depth(p as int) < depth(c)) by {
        if c < document.nodes.len() {
            assert(after.nodes[c] == document.nodes[c]);
        }
    }
    assert(fits(after, depth));
}

/// A document that forms trees still does with a new child, unless the child is the
/// parent or stands above it.
pub proof fn law_new_children_keep_a_forest<C, K>(
    document: DocumentView<C, K>,
    parent: NodeHandle,
    child: NodeHandle,
)
    requires
        document.wf(),
        is_forest(document),
        document.contains(parent),
        document.contains(child),
        document.nodes[child.index as int].parent is None,
        !is_in(document, parent.index as int, child.index as int),
    ensures
        is_forest(document.with_child(parent, child)),
{
    let depth = choose|depth: spec_fn(int) -> nat| fits(document, depth);
    let after = document.with_child(parent, child);
    let p = parent.index as int;
    let ch = child.index as int;
    let lowered = |n: int|
        if is_in(document, n, ch) {
            (depth(n) + depth(p) + 1) as nat
        } else {
            depth(n)
        };
    assert forall|c: int| 0 <= c < after.nodes.len() implies ((
    #[trigger] after.nodes[c]).parent matches Some(q) ==> lowered(q as int) < lowered(c)) by {
        if c == ch {
            assert(above(document, ch, 0) == Some(ch));
        } else if let Some(q) = document.nodes[c].parent {
            assert(depth(q as int) < depth(c));
            if is_in(document, c, ch) {
                let k = choose|k: nat| #[trigger] above(document, c, k) == Some(ch);
                assert(k > 0);
                lemma_above_the_parent(document, c, q as int, (k - 1) as nat);
                assert(above(document, q as int, (k - 1) as nat) == Some(ch));
            } else if is_in(document, q as int, ch) {
                let k = choose|k: nat| #[trigger] above(document, q as int, k) == Some(ch);
                lemma_above_the_parent(document, c, q as int, k);
                assert(above(document, c, k + 1) == Some(ch));
            }
        }
    }
    assert(fits(after, lowered));
}

/// A document that forms trees still does with other data in a node.
pub proof fn law_new_data_keep_a_forest<C, K>(
    document: DocumentView<C, K>,
    node: NodeHandle,
    data: NodeDataView<C, K>,
)
    requires
        is_forest(document),
        document.contains(node),
    ensures
        is_forest(document.with_data(node, data)),
{
    let depth = choose|depth: spec_fn(int) -> nat| fits(document, depth);
    let after = document.with_data(node, data);
    assert forall|c: int| 0 <= c < after.nodes.len() implies ((
    #[trigger] after.nodes[c]).parent matches Some(p) ==> depth(p as int) < depth(c)) by {
        assert(after.nodes[c].parent == document.nodes[c].parent);
    }
    assert(fits(after, depth));
}

/// A document without nodes is a forest.
pub proof fn law_empty_document_is_a_forest<C, K>(document: DocumentView<C, K>)
    requires
        document.nodes.len() == 0,
    ensures
        is_forest(document),
{
    assert(fits(document, |n: int| 0));
}

/// What is above a node's parent is above the node, one step further.
proof fn lemma_above_the_parent<C, K>(document: DocumentView<C, K>, node: int, parent: int, k: nat)
    requires
        document.nodes[node].parent matches Some(p) && p == parent,
    ensures
        above(document, node, k + 1) == above(document, parent, k),
    decreases k,
{
    if k == 0 {
        reveal_with_fuel(above, 2);
    } else {
        lemma_above_the_parent(document, node, parent, (k - 1) as nat);
    }
}

} // verus!
