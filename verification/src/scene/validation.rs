use crate::resource::resource::lemma_distinct_indices_bounded;
use crate::scene::hierarchy::ancestor;
use crate::scene::hierarchy::children_of;
use crate::scene::hierarchy::is_forest;
use crate::scene::hierarchy::is_rank;
use crate::scene::hierarchy::lemma_ancestor_add;
use crate::scene::hierarchy::links_agree;
use crate::scene::hierarchy::parent_of;
use crate::scene::node::Node;
use vstd::prelude::*;

verus! {

/// The links of the node at `i` agree with those of the nodes that it
/// names: each of its children exists and names it as parent, no child is
/// named twice, and it is among the children of the parent that it names.
pub open spec fn node_links_agree(nodes: Seq<Node>, i: nat) -> bool {
    &&& forall|k: int|
        0 <= k < children_of(nodes, i).len() ==> {
            &&& (#[trigger] children_of(nodes, i)[k]) < nodes.len()
            &&& parent_of(nodes, children_of(nodes, i)[k]) == Some(i)
        }
    &&& children_of(nodes, i).no_duplicates()
    &&& parent_of(nodes, i) is Some ==> {
        &&& parent_of(nodes, i)->0 < nodes.len()
        &&& children_of(nodes, parent_of(nodes, i)->0).contains(i)
    }
}

/// Going up `steps` times from `x` leads to a node without parent.
pub open spec fn root_after(nodes: Seq<Node>, x: nat, steps: nat) -> bool {
    &&& ancestor(nodes, x, steps) is Some
    &&& parent_of(nodes, ancestor(nodes, x, steps)->0) is None
}

/// Going up from `x` leads to a node without parent, in fewer steps than
/// there are nodes.
pub open spec fn rooted(nodes: Seq<Node>, x: nat) -> bool {
    exists|steps: nat| steps < nodes.len() && #[trigger] root_after(nodes, x, steps)
}

/// The number of steps from a rooted node up to its root.
pub open spec fn depth(nodes: Seq<Node>, x: nat) -> nat {
    choose|steps: nat| steps < nodes.len() && #[trigger] root_after(nodes, x, steps)
}

/// Parents and children agree where the links of each node agree.
pub proof fn lemma_links_agree(nodes: Seq<Node>)
    ensures
        links_agree(nodes) <==> forall|i: nat| i < nodes.len() ==> #[trigger] node_links_agree(nodes, i),
{
    if links_agree(nodes) {
        assert forall|i: nat| i < nodes.len() implies #[trigger] node_links_agree(nodes, i) by {
            assert(children_of(nodes, i).no_duplicates());
            if parent_of(nodes, i) is Some {
            }
        }
    }
    if forall|i: nat| i < nodes.len() ==> #[trigger] node_links_agree(nodes, i) {
        assert forall|i: nat, k: int|
            i < nodes.len() && 0 <= k < children_of(nodes, i).len() implies (#[trigger] children_of(
            nodes,
            i,
        )[k]) < nodes.len() && parent_of(nodes, children_of(nodes, i)[k]) == Some(i) by {
            assert(node_links_agree(nodes, i));
        }
        assert forall|i: nat| i < nodes.len() && (#[trigger] parent_of(nodes, i)) is Some implies parent_of(
            nodes,
            i,
        )->0 < nodes.len() && children_of(nodes, parent_of(nodes, i)->0).contains(i) by {
            assert(node_links_agree(nodes, i));
        }
        assert forall|i: nat| i < nodes.len() implies (#[trigger] children_of(
            nodes,
            i,
        )).no_duplicates() by {
            assert(node_links_agree(nodes, i));
        }
    }
}

/// What is reached by going up is a node.
pub proof fn lemma_ancestor_is_node(nodes: Seq<Node>, x: nat, steps: nat)
    requires
        ancestor(nodes, x, steps) is Some,
    ensures
        x < nodes.len(),
        ancestor(nodes, x, steps)->0 < nodes.len(),
    decreases steps,
{
    if steps > 0 {
        lemma_ancestor_is_node(nodes, parent_of(nodes, x)->0, (steps - 1) as nat);
    }
}

/// Along the way up, ranks fall by one at least with each step.
pub proof fn lemma_rank_falls(nodes: Seq<Node>, rank: Seq<nat>, x: nat, steps: nat)
    requires
        is_rank(nodes, rank),
        ancestor(nodes, x, steps) is Some,
    ensures
        rank[ancestor(nodes, x, steps)->0 as int] + steps <= rank[x as int],
    decreases steps,
{
    if steps > 0 {
        lemma_rank_falls(nodes, rank, parent_of(nodes, x)->0, (steps - 1) as nat);
    }
}

/// The way up from a node meets a node without parent after one number of
/// steps only.
pub proof fn lemma_one_depth(nodes: Seq<Node>, x: nat, a: nat, b: nat)
    requires
        root_after(nodes, x, a),
        root_after(nodes, x, b),
    ensures
        a == b,
{
    if a < b {
        lemma_ancestor_add(nodes, x, a, (b - a) as nat);
        lemma_ancestor_is_node(nodes, x, a);
        assert(ancestor(nodes, ancestor(nodes, x, a)->0, (b - a) as nat) is None);
    } else if b < a {
        lemma_ancestor_add(nodes, x, b, (a - b) as nat);
        lemma_ancestor_is_node(nodes, x, b);
        assert(ancestor(nodes, ancestor(nodes, x, b)->0, (a - b) as nat) is None);
    }
}

/// Nodes whose links agree and which are all rooted form a forest: the
/// depth of each node is a rank.
pub proof fn lemma_rooted_is_forest(nodes: Seq<Node>)
    requires
        links_agree(nodes),
        forall|i: nat| i < nodes.len() ==> #[trigger] rooted(nodes, i),
    ensures
        is_forest(nodes),
{
    let rank = Seq::new(nodes.len(), |i: int| depth(nodes, i as nat));
    assert forall|i: nat| i < nodes.len() && (#[trigger] parent_of(nodes, i)) is Some implies parent_of(
        nodes,
        i,
    )->0 < nodes.len() && rank[parent_of(nodes, i)->0 as int] < rank[i as int] by {
        let p = parent_of(nodes, i)->0;
        assert(rooted(nodes, i));
        assert(rooted(nodes, p));
        let d = depth(nodes, i);
        let e = depth(nodes, p);
        assert(root_after(nodes, i, d));
        assert(root_after(nodes, p, e));
        assert(d > 0) by {
            if d == 0 {
                assert(ancestor(nodes, i, 0) == Some(i));
            }
        }
        assert(ancestor(nodes, i, d) == ancestor(nodes, p, (d - 1) as nat));
        assert(root_after(nodes, p, (d - 1) as nat));
        lemma_one_depth(nodes, p, e, (d - 1) as nat);
    }
    assert(is_rank(nodes, rank));
}

/// Where parents exist and a node is not rooted, the way up from it goes
/// on for any number of steps up to the number of nodes.
proof fn lemma_unrooted_goes_on(nodes: Seq<Node>, x: nat, steps: nat)
    requires
        links_agree(nodes),
        x < nodes.len(),
        !rooted(nodes, x),
        steps <= nodes.len(),
    ensures
        ancestor(nodes, x, steps) is Some,
    decreases steps,
{
    if steps > 0 {
        let before = (steps - 1) as nat;
        lemma_unrooted_goes_on(nodes, x, before);
        lemma_ancestor_is_node(nodes, x, before);
        let at = ancestor(nodes, x, before)->0;
        assert(!root_after(nodes, x, before));
        assert(parent_of(nodes, at) is Some);
        lemma_ancestor_add(nodes, x, before, 1);
        assert(ancestor(nodes, at, 1) == ancestor(nodes, parent_of(nodes, at)->0, 0));
    } else {
        assert(ancestor(nodes, x, 0) == Some(x));
    }
}

/// Nodes of which one is not rooted form no forest: the way up from that
/// node comes by some node twice.
pub proof fn lemma_unrooted_is_no_forest(nodes: Seq<Node>, x: nat)
    requires
        x < nodes.len(),
        !rooted(nodes, x),
    ensures
        !is_forest(nodes),
{
    if is_forest(nodes) {
        let rank = choose|rank: Seq<nat>| is_rank(nodes, rank);
        let way = Seq::new(nodes.len() + 1, |k: int| ancestor(nodes, x, k as nat)->0);
        assert forall|k: int| 0 <= k < way.len() implies way[k] < nodes.len() by {
            lemma_unrooted_goes_on(nodes, x, k as nat);
            lemma_ancestor_is_node(nodes, x, k as nat);
        }
        if way.no_duplicates() {
            lemma_distinct_indices_bounded(way, nodes.len());
        }
        let (j, k) = choose|j: int, k: int|
            0 <= j < way.len() && 0 <= k < way.len() && j != k && way[j] == way[k];
        let (low, high) = if j < k {
            (j, k)
        } else {
            (k, j)
        };
        lemma_unrooted_goes_on(nodes, x, low as nat);
        lemma_unrooted_goes_on(nodes, x, high as nat);
        lemma_ancestor_add(nodes, x, low as nat, (high - low) as nat);
        lemma_rank_falls(nodes, rank, way[low], (high - low) as nat);
    }
}

} // verus!
