use crate::resource::resource::indices_below;
use crate::resource::resource::lemma_indices_below;
use crate::scene::node::Node;
use crate::scene::node::NodeView;
use vstd::prelude::*;
use vstd::seq_lib::lemma_no_dup_in_concat;
use vstd::set_lib::lemma_len_subset;

verus! {

/// The children of the node at index `i`.
pub open spec fn children_of(nodes: Seq<Node>, i: nat) -> Seq<nat> {
    nodes[i as int]@.children
}

/// The parent of the node at index `i`.
pub open spec fn parent_of(nodes: Seq<Node>, i: nat) -> Option<nat> {
    nodes[i as int]@.parent
}

/// Parents and children agree: each child of a node exists and names that
/// node as its parent, each node is among the children of the parent that
/// it names, and no node is twice among the children of another.
pub open spec fn links_agree(nodes: Seq<Node>) -> bool {
    &&& forall|i: nat, k: int|
        i < nodes.len() && 0 <= k < children_of(nodes, i).len() ==> {
            &&& (#[trigger] children_of(nodes, i)[k]) < nodes.len()
            &&& parent_of(nodes, children_of(nodes, i)[k]) == Some(i)
        }
    &&& forall|i: nat|
        i < nodes.len() && (#[trigger] parent_of(nodes, i)) is Some ==> {
            &&& parent_of(nodes, i)->0 < nodes.len()
            &&& children_of(nodes, parent_of(nodes, i)->0).contains(i)
        }
    &&& forall|i: nat| i < nodes.len() ==> (#[trigger] children_of(nodes, i)).no_duplicates()
}

/// `rank` orders the hierarchy: each parent has a smaller rank than its
/// children.
pub open spec fn is_rank(nodes: Seq<Node>, rank: Seq<nat>) -> bool {
    &&& rank.len() == nodes.len()
    &&& forall|i: nat|
        i < nodes.len() && (#[trigger] parent_of(nodes, i)) is Some ==> {
            &&& parent_of(nodes, i)->0 < nodes.len()
            &&& rank[parent_of(nodes, i)->0 as int] < rank[i as int]
        }
}

/// The nodes form a forest: parents and children agree, and no node is
/// its own ancestor.
pub open spec fn is_forest(nodes: Seq<Node>) -> bool {
    &&& links_agree(nodes)
    &&& exists|rank: Seq<nat>| is_rank(nodes, rank)
}

/// An order of a forest.
pub open spec fn forest_rank(nodes: Seq<Node>) -> Seq<nat> {
    choose|rank: Seq<nat>| is_rank(nodes, rank)
}

/// The node reached from `x` by going to the parent `steps` times.
pub open spec fn ancestor(nodes: Seq<Node>, x: nat, steps: nat) -> Option<nat>
    decreases steps,
{
    if x >= nodes.len() {
        None
    } else if steps == 0 {
        Some(x)
    } else {
        match parent_of(nodes, x) {
            Some(parent) => ancestor(nodes, parent, (steps - 1) as nat),
            None => None,
        }
    }
}

/// `x` is `root` or one of its descendants.
pub open spec fn in_subtree(nodes: Seq<Node>, root: nat, x: nat) -> bool {
    exists|steps: nat| ancestor(nodes, x, steps) == Some(root)
}

/// Going up `a` steps and then `b` steps is going up `a + b` steps.
pub proof fn lemma_ancestor_add(nodes: Seq<Node>, x: nat, a: nat, b: nat)
    requires
        ancestor(nodes, x, a) is Some,
    ensures
        ancestor(nodes, x, a + b) == ancestor(nodes, ancestor(nodes, x, a)->0, b),
    decreases a,
{
    if a > 0 {
        lemma_ancestor_add(nodes, parent_of(nodes, x)->0, (a - 1) as nat, b);
    } else {
        assert(ancestor(nodes, x, 0) == Some(x));
        if b > 0 {
        }
    }
}

/// What is reached by going up exists.
pub proof fn lemma_ancestor_exists(nodes: Seq<Node>, x: nat, steps: nat)
    requires
        ancestor(nodes, x, steps) is Some,
        is_forest(nodes),
    ensures
        x < nodes.len(),
        ancestor(nodes, x, steps)->0 < nodes.len(),
    decreases steps,
{
    if steps > 0 {
        lemma_ancestor_exists(nodes, parent_of(nodes, x)->0, (steps - 1) as nat);
    }
}

/// A child of a node of the subtree is in the subtree.
pub proof fn lemma_subtree_child(nodes: Seq<Node>, root: nat, x: nat)
    requires
        x < nodes.len(),
        parent_of(nodes, x) is Some,
        in_subtree(nodes, root, parent_of(nodes, x)->0),
    ensures
        in_subtree(nodes, root, x),
{
    let parent = parent_of(nodes, x)->0;
    let steps = choose|steps: nat| ancestor(nodes, parent, steps) == Some(root);
    assert(ancestor(nodes, x, steps + 1) == Some(root));
}

/// The parent of a node of the subtree, other than the root, is in the
/// subtree.
pub proof fn lemma_subtree_parent(nodes: Seq<Node>, root: nat, x: nat)
    requires
        in_subtree(nodes, root, x),
        x != root,
    ensures
        x < nodes.len(),
        parent_of(nodes, x) is Some,
        in_subtree(nodes, root, parent_of(nodes, x)->0),
{
    let steps = choose|steps: nat| ancestor(nodes, x, steps) == Some(root);
    assert(steps > 0);
    assert(ancestor(nodes, parent_of(nodes, x)->0, (steps - 1) as nat) == Some(root));
}

/// In a forest no node lies in the subtree of one of its proper
/// descendants: ranks grow strictly along the way down.
pub proof fn lemma_subtree_rank(nodes: Seq<Node>, root: nat, x: nat, steps: nat)
    requires
        is_forest(nodes),
        ancestor(nodes, x, steps) == Some(root),
    ensures
        forest_rank(nodes)[root as int] + steps <= forest_rank(nodes)[x as int],
    decreases steps,
{
    assert(is_rank(nodes, forest_rank(nodes)));
    if steps > 0 {
        lemma_subtree_rank(nodes, root, parent_of(nodes, x)->0, (steps - 1) as nat);
    }
}

/// No nodes form a forest.
pub proof fn lemma_empty_is_forest()
    ensures
        is_forest(Seq::<Node>::empty()),
{
    assert(is_rank(Seq::<Node>::empty(), Seq::<nat>::empty()));
}

/// A forest stays a forest when a node without parent and children is
/// added.
pub proof fn lemma_push_keeps_forest(nodes: Seq<Node>, node: Node)
    requires
        is_forest(nodes),
        node@.parent is None,
        node@.children.len() == 0,
    ensures
        is_forest(nodes.push(node)),
        forall|root: nat, x: nat|
            root < nodes.len() ==> (#[trigger] in_subtree(nodes.push(node), root, x)
                <==> in_subtree(nodes, root, x)),
{
    let after = nodes.push(node);
    let rank = forest_rank(nodes);
    assert(is_rank(nodes, rank));
    assert forall|i: nat| i < nodes.len() implies children_of(after, i) == children_of(nodes, i)
        && parent_of(after, i) == parent_of(nodes, i) by {
        assert(after[i as int] == nodes[i as int]);
    }
    assert forall|i: nat, k: int|
        i < after.len() && 0 <= k < children_of(after, i).len() implies (#[trigger] children_of(
        after,
        i,
    )[k]) < after.len() && parent_of(after, children_of(after, i)[k]) == Some(i) by {
        let c = children_of(nodes, i)[k];
        assert(parent_of(nodes, c) == Some(i));
    }
    assert forall|i: nat| i < after.len() && (#[trigger] parent_of(after, i)) is Some implies parent_of(
        after,
        i,
    )->0 < after.len() && children_of(after, parent_of(after, i)->0).contains(i) by {
        assert(parent_of(nodes, i) is Some);
    }
    assert forall|i: nat| i < after.len() implies (#[trigger] children_of(after, i)).no_duplicates() by {
        if i < nodes.len() {
            assert(children_of(nodes, i).no_duplicates());
        }
    }
    let more = rank.push(0);
    assert forall|i: nat| i < after.len() && (#[trigger] parent_of(after, i)) is Some implies parent_of(
        after,
        i,
    )->0 < after.len() && more[parent_of(after, i)->0 as int] < more[i as int] by {
        assert(parent_of(nodes, i) is Some);
    }
    assert(is_rank(after, more));
    assert forall|root: nat, x: nat| root < nodes.len() implies (#[trigger] in_subtree(
        after,
        root,
        x,
    ) <==> in_subtree(nodes, root, x)) by {
        if in_subtree(after, root, x) {
            let steps = choose|steps: nat| ancestor(after, x, steps) == Some(root);
            lemma_push_keeps_ancestor(nodes, node, x, steps);
        }
        if in_subtree(nodes, root, x) {
            let steps = choose|steps: nat| ancestor(nodes, x, steps) == Some(root);
            lemma_ancestor_exists(nodes, x, steps);
            lemma_push_keeps_ancestor(nodes, node, x, steps);
        }
    }
}

/// Adding a node without parent leaves the ancestors of the other nodes.
proof fn lemma_push_keeps_ancestor(nodes: Seq<Node>, node: Node, x: nat, steps: nat)
    requires
        is_forest(nodes),
        node@.parent is None,
    ensures
        x < nodes.len() ==> ancestor(nodes.push(node), x, steps) == ancestor(nodes, x, steps),
        x == nodes.len() && steps > 0 ==> ancestor(nodes.push(node), x, steps) is None,
        x == nodes.len() && steps == 0 ==> ancestor(nodes.push(node), x, steps) == Some(x),
    decreases steps,
{
    let after = nodes.push(node);
    if x < nodes.len() {
        assert(after[x as int] == nodes[x as int]);
        if steps > 0 && parent_of(nodes, x) is Some {
            assert(is_rank(nodes, forest_rank(nodes)));
            lemma_push_keeps_ancestor(nodes, node, parent_of(nodes, x)->0, (steps - 1) as nat);
        }
    } else if x == nodes.len() {
        assert(after[x as int] == node);
    }
}

/// A node can be attached below another: both exist, the child has no
/// parent yet, and the parent is not the child or one of its descendants.
pub open spec fn can_attach(nodes: Seq<Node>, parent: nat, child: nat) -> bool {
    &&& parent < nodes.len()
    &&& child < nodes.len()
    &&& parent_of(nodes, child) is None
    &&& !in_subtree(nodes, child, parent)
}

/// `after` is `before` with `child` attached as the last child of `parent`.
pub open spec fn attached(before: Seq<Node>, after: Seq<Node>, parent: nat, child: nat) -> bool {
    &&& after.len() == before.len()
    &&& forall|i: nat|
        i < before.len() && i != parent && i != child ==> #[trigger] after[i as int]
            == before[i as int]
    &&& after[parent as int]@ == (NodeView {
        children: before[parent as int]@.children.push(child),
        ..before[parent as int]@
    })
    &&& after[child as int]@ == (NodeView { parent: Some(parent), ..before[child as int]@ })
}

/// Attaching a node where it can be attached leaves a forest.
pub proof fn lemma_attach_keeps_forest(
    before: Seq<Node>,
    after: Seq<Node>,
    parent: nat,
    child: nat,
)
    requires
        is_forest(before),
        can_attach(before, parent, child),
        attached(before, after, parent, child),
    ensures
        is_forest(after),
{
    let rank = forest_rank(before);
    assert(is_rank(before, rank));
    assert(ancestor(before, child, 0) == Some(child));
    assert(in_subtree(before, child, child));
    assert(parent != child);
    assert(!children_of(before, parent).contains(child)) by {
        if children_of(before, parent).contains(child) {
            let k = choose|k: int|
                0 <= k < children_of(before, parent).len() && children_of(before, parent)[k]
                    == child;
            assert(parent_of(before, children_of(before, parent)[k]) == Some(parent));
        }
    }
    assert forall|i: nat| i < after.len() implies (i != parent ==> children_of(after, i)
        == children_of(before, i)) && (i != child ==> parent_of(after, i) == parent_of(
        before,
        i,
    )) by {
        if i != parent && i != child {
            assert(after[i as int] == before[i as int]);
        }
    }
    assert forall|i: nat, k: int| i < after.len() && 0 <= k < children_of(after, i).len() implies (
    #[trigger] children_of(after, i)[k]) < after.len() && parent_of(
        after,
        children_of(after, i)[k],
    ) == Some(i) by {
        if i == parent && k == children_of(before, parent).len() {
        } else {
            let c = children_of(before, i)[k];
            assert(children_of(after, i)[k] == c);
            assert(parent_of(before, c) == Some(i));
            assert(c != child);
        }
    }
    assert forall|i: nat| i < after.len() && (#[trigger] parent_of(after, i)) is Some implies parent_of(
        after,
        i,
    )->0 < after.len() && children_of(after, parent_of(after, i)->0).contains(i) by {
        if i == child {
            assert(children_of(after, parent)[children_of(before, parent).len() as int] == child);
        } else {
            let p = parent_of(before, i)->0;
            assert(parent_of(before, i) is Some);
            assert(children_of(before, p).contains(i));
            let k = choose|k: int|
                0 <= k < children_of(before, p).len() && children_of(before, p)[k] == i;
            assert(children_of(after, p)[k] == i);
        }
    }
    assert forall|i: nat| i < after.len() implies (#[trigger] children_of(after, i)).no_duplicates() by {
        assert(children_of(before, i).no_duplicates());
        if i == parent {
            let old_children = children_of(before, parent);
            let new_children = children_of(after, parent);
            assert(new_children == old_children.push(child));
            assert forall|a: int, b: int|
                0 <= a < new_children.len() && 0 <= b < new_children.len() && a != b implies new_children[a]
                != new_children[b] by {
                if a < old_children.len() {
                    assert(old_children.contains(old_children[a]));
                }
                if b < old_children.len() {
                    assert(old_children.contains(old_children[b]));
                }
            }
        }
    }
    let shift = rank[parent as int] + 1;
    let lifted = Seq::new(
        after.len(),
        |x: int|
            if in_subtree(before, child, x as nat) {
                rank[x] + shift
            } else {
                rank[x]
            },
    );
    assert forall|i: nat| i < after.len() && (#[trigger] parent_of(after, i)) is Some implies parent_of(
        after,
        i,
    )->0 < after.len() && lifted[parent_of(after, i)->0 as int] < lifted[i as int] by {
        if i == child {
        } else {
            let p = parent_of(before, i)->0;
            assert(parent_of(before, i) is Some);
            if in_subtree(before, child, i) {
                lemma_subtree_parent(before, child, i);
            } else {
                if in_subtree(before, child, p) {
                    lemma_subtree_child(before, child, i);
                }
            }
        }
    }
    assert(is_rank(after, lifted));
}

/// The parent of a node lies outside the node's subtree.
pub proof fn lemma_parent_outside(nodes: Seq<Node>, root: nat, x: nat)
    requires
        is_forest(nodes),
        root < nodes.len(),
        in_subtree(nodes, root, x),
        parent_of(nodes, root) is Some,
    ensures
        x != parent_of(nodes, root)->0,
{
    let steps = choose|steps: nat| ancestor(nodes, x, steps) == Some(root);
    lemma_subtree_rank(nodes, root, x, steps);
    assert(is_rank(nodes, forest_rank(nodes)));
}

/// No node is its own parent.
pub proof fn lemma_parent_differs(nodes: Seq<Node>, x: nat)
    requires
        is_forest(nodes),
        x < nodes.len(),
        parent_of(nodes, x) is Some,
    ensures
        parent_of(nodes, x)->0 != x,
        parent_of(nodes, x)->0 < nodes.len(),
{
    assert(is_rank(nodes, forest_rank(nodes)));
}

/// Two subtrees that share a node lie one within the other.
pub proof fn lemma_subtrees_nest(nodes: Seq<Node>, a: nat, b: nat, x: nat)
    requires
        in_subtree(nodes, a, x),
        in_subtree(nodes, b, x),
    ensures
        in_subtree(nodes, a, b) || in_subtree(nodes, b, a),
{
    let up_a = choose|steps: nat| ancestor(nodes, x, steps) == Some(a);
    let up_b = choose|steps: nat| ancestor(nodes, x, steps) == Some(b);
    if up_a <= up_b {
        lemma_ancestor_add(nodes, x, up_a, (up_b - up_a) as nat);
        assert(ancestor(nodes, a, (up_b - up_a) as nat) == Some(b));
    } else {
        lemma_ancestor_add(nodes, x, up_b, (up_a - up_b) as nat);
        assert(ancestor(nodes, b, (up_a - up_b) as nat) == Some(a));
    }
}

/// `x` lies in the subtree of one of `roots`, from position `from` on.
pub open spec fn below_any(nodes: Seq<Node>, roots: Seq<nat>, from: int, x: nat) -> bool {
    exists|k: int| from <= k < roots.len() && #[trigger] in_subtree(nodes, roots[k], x)
}

/// None of `roots` lies in the subtree of another.
pub open spec fn apart(nodes: Seq<Node>, roots: Seq<nat>) -> bool {
    forall|j: int, k: int|
        0 <= j < roots.len() && 0 <= k < roots.len() && j != k ==> !#[trigger] in_subtree(
            nodes,
            roots[j],
            roots[k],
        )
}

/// Two lists of nodes have the same hierarchy.
pub open spec fn same_hierarchy(a: Seq<Node>, b: Seq<Node>) -> bool {
    &&& a.len() == b.len()
    &&& forall|i: nat|
        i < a.len() ==> #[trigger] children_of(a, i) == children_of(b, i) && parent_of(a, i)
            == parent_of(b, i)
}

/// With the same hierarchy, going up leads to the same nodes.
pub proof fn lemma_same_hierarchy_ancestor(a: Seq<Node>, b: Seq<Node>, x: nat, steps: nat)
    requires
        same_hierarchy(a, b),
    ensures
        ancestor(a, x, steps) == ancestor(b, x, steps),
    decreases steps,
{
    if x < a.len() && steps > 0 {
        assert(children_of(a, x) == children_of(b, x));
        if parent_of(a, x) is Some {
            lemma_same_hierarchy_ancestor(a, b, parent_of(a, x)->0, (steps - 1) as nat);
        }
    }
}

/// With the same hierarchy, the subtrees are the same, and one is a
/// forest if the other is.
pub proof fn lemma_same_hierarchy(a: Seq<Node>, b: Seq<Node>)
    requires
        same_hierarchy(a, b),
    ensures
        forall|root: nat, x: nat| #[trigger] in_subtree(a, root, x) == in_subtree(b, root, x),
        is_forest(a) ==> is_forest(b),
{
    assert forall|root: nat, x: nat| #[trigger] in_subtree(a, root, x) == in_subtree(
        b,
        root,
        x,
    ) by {
        if in_subtree(a, root, x) {
            let steps = choose|steps: nat| ancestor(a, x, steps) == Some(root);
            lemma_same_hierarchy_ancestor(a, b, x, steps);
        }
        if in_subtree(b, root, x) {
            let steps = choose|steps: nat| ancestor(b, x, steps) == Some(root);
            lemma_same_hierarchy_ancestor(a, b, x, steps);
        }
    }
    if is_forest(a) {
        let rank = forest_rank(a);
        assert(is_rank(a, rank));
        assert forall|i: nat| i < b.len() implies children_of(b, i) == children_of(a, i)
            && parent_of(b, i) == parent_of(a, i) by {
            assert(children_of(a, i) == children_of(b, i));
        }
        assert forall|i: nat, k: int|
            i < b.len() && 0 <= k < children_of(b, i).len() implies (#[trigger] children_of(
            b,
            i,
        )[k]) < b.len() && parent_of(b, children_of(b, i)[k]) == Some(i) by {
            let c = children_of(a, i)[k];
            assert(parent_of(a, c) == Some(i));
        }
        assert forall|i: nat| i < b.len() && (#[trigger] parent_of(b, i)) is Some implies parent_of(
            b,
            i,
        )->0 < b.len() && children_of(b, parent_of(b, i)->0).contains(i) by {
            assert(parent_of(a, i) is Some);
        }
        assert forall|i: nat| i < b.len() implies (#[trigger] children_of(b, i)).no_duplicates() by {
            assert(children_of(a, i).no_duplicates());
        }
        assert forall|i: nat| i < b.len() && (#[trigger] parent_of(b, i)) is Some implies parent_of(
            b,
            i,
        )->0 < b.len() && rank[parent_of(b, i)->0 as int] < rank[i as int] by {
            assert(parent_of(a, i) is Some);
        }
        assert(is_rank(b, rank));
    }
}

/// The state of a walk over the subtree of `root`: the nodes waiting on
/// the stack are distinct and not yet done, every node met but the root
/// has its parent done, and every child of a done node was met.
pub open spec fn walking(nodes: Seq<Node>, root: nat, stack: Seq<nat>, done: Set<nat>) -> bool {
    &&& stack.no_duplicates()
    &&& forall|i: int| 0 <= i < stack.len() ==> #[trigger] stack[i] < nodes.len()
    &&& forall|x: nat| #[trigger] done.contains(x) ==> x < nodes.len() && !stack.contains(x)
    &&& forall|i: int| 0 <= i < stack.len() ==> met_below(nodes, root, done, #[trigger] stack[i])
    &&& forall|x: nat| #[trigger] done.contains(x) ==> met_below(nodes, root, done, x)
    &&& forall|x: nat, k: int|
        done.contains(x) && 0 <= k < children_of(nodes, x).len() ==> {
            ||| done.contains(#[trigger] children_of(nodes, x)[k])
            ||| stack.contains(children_of(nodes, x)[k])
        }
    &&& done.contains(root) || stack.contains(root)
}

/// A node met during the walk is the root, or a node of the subtree whose
/// parent is done.
pub open spec fn met_below(nodes: Seq<Node>, root: nat, done: Set<nat>, x: nat) -> bool {
    &&& in_subtree(nodes, root, x)
    &&& x != root ==> {
        &&& parent_of(nodes, x) is Some
        &&& done.contains(parent_of(nodes, x)->0)
    }
}

/// The nodes that are done are at most as many as there are nodes.
pub proof fn lemma_done_bounded(nodes: Seq<Node>, root: nat, stack: Seq<nat>, done: Set<nat>)
    requires
        walking(nodes, root, stack, done),
    ensures
        done.finite(),
        done.len() + stack.len() <= nodes.len(),
{
    lemma_indices_below(nodes.len());
    let all = done.union(stack.to_set());
    assert(all.subset_of(indices_below(nodes.len())));
    assert(done.subset_of(indices_below(nodes.len())));
    vstd::set_lib::lemma_set_subset_finite(indices_below(nodes.len()), done);
    lemma_len_subset(all, indices_below(nodes.len()));
    stack.unique_seq_to_set();
    vstd::set_lib::lemma_set_disjoint_lens(done, stack.to_set());
}

/// A walk starts with the root on the stack and nothing done.
pub proof fn lemma_walk_start(nodes: Seq<Node>, root: nat)
    requires
        root < nodes.len(),
    ensures
        walking(nodes, root, seq![root], Set::empty()),
{
    let stack = seq![root];
    assert(ancestor(nodes, root, 0) == Some(root));
    assert(in_subtree(nodes, root, root));
    assert(stack[0] == root);
    assert(stack.contains(root));
    assert forall|i: int| 0 <= i < stack.len() implies met_below(
        nodes,
        root,
        Set::empty(),
        #[trigger] stack[i],
    ) by {
        assert(stack[i] == root);
    }
}

/// The children of the node on top of the stack were not met before, and
/// none of them is the root.
pub proof fn lemma_children_unmet(
    nodes: Seq<Node>,
    root: nat,
    stack: Seq<nat>,
    done: Set<nat>,
    k: int,
)
    requires
        is_forest(nodes),
        walking(nodes, root, stack, done),
        stack.len() > 0,
        0 <= k < children_of(nodes, stack.last()).len(),
    ensures
        !done.contains(children_of(nodes, stack.last())[k]),
        !stack.contains(children_of(nodes, stack.last())[k]),
        children_of(nodes, stack.last())[k] != root,
        children_of(nodes, stack.last())[k] != stack.last(),
        children_of(nodes, stack.last())[k] < nodes.len(),
        parent_of(nodes, children_of(nodes, stack.last())[k]) == Some(stack.last()),
{
    let x = stack.last();
    let child = children_of(nodes, x)[k];
    let rank = forest_rank(nodes);
    assert(is_rank(nodes, rank));
    assert(stack[stack.len() - 1] == x);
    assert(stack.contains(x));
    assert(met_below(nodes, root, done, x));
    assert(parent_of(nodes, child) == Some(x));
    if child == root {
        let steps = choose|steps: nat| ancestor(nodes, x, steps) == Some(root);
        lemma_subtree_rank(nodes, root, x, steps);
        assert(rank[x as int] < rank[root as int]);
    } else {
        if done.contains(child) {
            assert(met_below(nodes, root, done, child));
        }
        if stack.contains(child) {
            let i = choose|i: int| 0 <= i < stack.len() && stack[i] == child;
            assert(met_below(nodes, root, done, stack[i]));
        }
    }
}

/// The stack after a step holds distinct nodes.
proof fn lemma_next_stack_distinct(nodes: Seq<Node>, root: nat, stack: Seq<nat>, done: Set<nat>)
    requires
        is_forest(nodes),
        walking(nodes, root, stack, done),
        stack.len() > 0,
    ensures
        (stack.drop_last() + children_of(nodes, stack.last())).no_duplicates(),
{
    let x = stack.last();
    let rest = stack.drop_last();
    let children = children_of(nodes, x);
    assert(stack[stack.len() - 1] == x);
    assert(children.no_duplicates());
    assert(rest.no_duplicates()) by {
        assert forall|i: int, j: int|
            0 <= i < rest.len() && 0 <= j < rest.len() && i != j implies rest[i] != rest[j] by {
            assert(rest[i] == stack[i] && rest[j] == stack[j]);
        }
    }
    assert forall|i: int, j: int| 0 <= i < rest.len() && 0 <= j < children.len() implies rest[i]
        != children[j] by {
        lemma_children_unmet(nodes, root, stack, done, j);
        assert(rest[i] == stack[i]);
        assert(stack.contains(stack[i]));
    }
    lemma_no_dup_in_concat(rest, children);
}

/// One step of a walk: the node on top of the stack is done, and its
/// children take its place.
#[verifier::rlimit(40)]
pub proof fn lemma_walk_step(nodes: Seq<Node>, root: nat, stack: Seq<nat>, done: Set<nat>)
    requires
        is_forest(nodes),
        walking(nodes, root, stack, done),
        stack.len() > 0,
    ensures
        walking(
            nodes,
            root,
            stack.drop_last() + children_of(nodes, stack.last()),
            done.insert(stack.last()),
        ),
        forall|k: int|
            0 <= k < children_of(nodes, stack.last()).len() ==> {
                &&& !done.contains(#[trigger] children_of(nodes, stack.last())[k])
                &&& !stack.contains(children_of(nodes, stack.last())[k])
            },
{
    let x = stack.last();
    let rest = stack.drop_last();
    let children = children_of(nodes, x);
    let next = rest + children;
    let after = done.insert(x);
    assert(stack[stack.len() - 1] == x);
    assert(stack.contains(x));
    assert(met_below(nodes, root, done, x));
    assert forall|k: int| 0 <= k < children.len() implies !done.contains(#[trigger] children[k])
        && !stack.contains(children[k]) by {
        lemma_children_unmet(nodes, root, stack, done, k);
    }
    lemma_next_stack_distinct(nodes, root, stack, done);
    assert forall|i: int| 0 <= i < next.len() implies #[trigger] next[i] < nodes.len()
        && met_below(nodes, root, after, next[i]) && next[i] != x by {
        if i < rest.len() {
            assert(next[i] == stack[i]);
            assert(met_below(nodes, root, done, stack[i]));
        } else {
            let child = children[i - rest.len()];
            lemma_children_unmet(nodes, root, stack, done, i - rest.len());
            assert(next[i] == child);
            lemma_subtree_child(nodes, root, child);
        }
    }
    assert forall|y: nat| #[trigger] after.contains(y) implies y < nodes.len() && !next.contains(y)
        && met_below(nodes, root, after, y) by {
        if y != x {
            assert(met_below(nodes, root, done, y));
            if next.contains(y) {
                let i = choose|i: int| 0 <= i < next.len() && next[i] == y;
                if i < rest.len() {
                    assert(stack[i] == y);
                } else {
                    lemma_children_unmet(nodes, root, stack, done, i - rest.len());
                    assert(children[i - rest.len()] == y);
                }
            }
        } else {
            if next.contains(x) {
                let i = choose|i: int| 0 <= i < next.len() && next[i] == x;
            }
        }
    }
    assert forall|y: nat, k: int|
        after.contains(y) && 0 <= k < children_of(nodes, y).len() implies after.contains(
        #[trigger] children_of(nodes, y)[k],
    ) || next.contains(children_of(nodes, y)[k]) by {
        let child = children_of(nodes, y)[k];
        if y == x {
            assert(next[rest.len() + k] == child);
        } else {
            if stack.contains(child) {
                let i = choose|i: int| 0 <= i < stack.len() && stack[i] == child;
                if i < rest.len() {
                    assert(next[i] == child);
                }
            }
        }
    }
    if stack.contains(root) && root != x {
        let i = choose|i: int| 0 <= i < stack.len() && stack[i] == root;
        assert(next[i] == root);
    }
}

/// When the stack is empty, the nodes that are done are those of the
/// subtree.
pub proof fn lemma_walk_end(nodes: Seq<Node>, root: nat, done: Set<nat>, x: nat)
    requires
        is_forest(nodes),
        walking(nodes, root, Seq::empty(), done),
    ensures
        done.contains(x) <==> in_subtree(nodes, root, x),
{
    if done.contains(x) {
        assert(met_below(nodes, root, done, x));
    }
    if in_subtree(nodes, root, x) {
        let steps = choose|steps: nat| ancestor(nodes, x, steps) == Some(root);
        lemma_walk_end_steps(nodes, root, done, x, steps);
    }
}

proof fn lemma_walk_end_steps(nodes: Seq<Node>, root: nat, done: Set<nat>, x: nat, steps: nat)
    requires
        is_forest(nodes),
        walking(nodes, root, Seq::empty(), done),
        ancestor(nodes, x, steps) == Some(root),
    ensures
        done.contains(x),
    decreases steps,
{
    if steps == 0 {
        assert(x == root);
        assert(!Seq::<nat>::empty().contains(root));
    } else {
        let parent = parent_of(nodes, x)->0;
        lemma_walk_end_steps(nodes, root, done, parent, (steps - 1) as nat);
        assert(children_of(nodes, parent).contains(x));
        let k = choose|k: int|
            0 <= k < children_of(nodes, parent).len() && children_of(nodes, parent)[k] == x;
        assert(done.contains(children_of(nodes, parent)[k]) || Seq::<nat>::empty().contains(
            children_of(nodes, parent)[k],
        ));
        assert(!Seq::<nat>::empty().contains(x));
    }
}

/// The nodes that a walk lists from a state on: the children of the node
/// on top of the stack, then what the walk lists once those children have
/// taken that node's place. `fuel` bounds the number of steps.
pub open spec fn walk(nodes: Seq<Node>, stack: Seq<nat>, fuel: nat) -> Seq<nat>
    decreases fuel,
{
    if fuel == 0 || stack.len() == 0 {
        Seq::empty()
    } else {
        let children = children_of(nodes, stack.last());
        children + walk(nodes, stack.drop_last() + children, (fuel - 1) as nat)
    }
}

/// The nodes of the subtree of `root` in the order of the walk: the root,
/// then the children of each node as that node is taken from the stack.
pub open spec fn listing(nodes: Seq<Node>, root: nat) -> Seq<nat> {
    seq![root] + walk(nodes, seq![root], nodes.len())
}

/// In `order`, each node but the root comes behind its parent.
pub open spec fn parents_first(nodes: Seq<Node>, root: nat, order: Seq<nat>) -> bool {
    forall|i: int|
        0 <= i < order.len() && #[trigger] order[i] != root ==> {
            &&& parent_of(nodes, order[i]) is Some
            &&& order.take(i).contains(parent_of(nodes, order[i])->0)
        }
}

/// What a walk has listed names the nodes met so far, each once and each
/// behind its parent.
pub open spec fn lists_met(
    nodes: Seq<Node>,
    root: nat,
    stack: Seq<nat>,
    done: Set<nat>,
    listed: Seq<nat>,
) -> bool {
    &&& listed.no_duplicates()
    &&& forall|x: nat| listed.contains(x) <==> done.contains(x) || stack.contains(x)
    &&& parents_first(nodes, root, listed)
}

/// A step of the walk lists the children of the node that it takes from
/// the stack; what is listed then names the nodes met, as before.
pub proof fn lemma_walk_step_lists(
    nodes: Seq<Node>,
    root: nat,
    stack: Seq<nat>,
    done: Set<nat>,
    listed: Seq<nat>,
)
    requires
        is_forest(nodes),
        walking(nodes, root, stack, done),
        lists_met(nodes, root, stack, done, listed),
        stack.len() > 0,
    ensures
        lists_met(
            nodes,
            root,
            stack.drop_last() + children_of(nodes, stack.last()),
            done.insert(stack.last()),
            listed + children_of(nodes, stack.last()),
        ),
{
    let x = stack.last();
    let children = children_of(nodes, x);
    let next = stack.drop_last() + children;
    let after = done.insert(x);
    let more = listed + children;
    lemma_walk_step(nodes, root, stack, done);
    assert(stack[stack.len() - 1] == x);
    assert(stack.contains(x));
    assert(listed.contains(x));
    assert(children.no_duplicates());
    assert(more.no_duplicates()) by {
        assert forall|i: int, j: int|
            0 <= i < listed.len() && 0 <= j < children.len() implies listed[i] != children[j] by {
            assert(listed.contains(listed[i]));
        }
        lemma_no_dup_in_concat(listed, children);
    }
    assert forall|y: nat| more.contains(y) implies after.contains(y) || next.contains(y) by {
        let i = choose|i: int| 0 <= i < more.len() && more[i] == y;
        if i < listed.len() {
            assert(listed.contains(listed[i]));
            if stack.contains(y) && y != x {
                let j = choose|j: int| 0 <= j < stack.len() && stack[j] == y;
                assert(next[j] == y);
            }
        } else {
            assert(next[stack.len() - 1 + (i - listed.len())] == y);
        }
    }
    assert forall|y: nat| after.contains(y) || next.contains(y) implies more.contains(y) by {
        if after.contains(y) {
            assert(listed.contains(y));
            let i = choose|i: int| 0 <= i < listed.len() && listed[i] == y;
            assert(more[i] == y);
        } else {
            let j = choose|j: int| 0 <= j < next.len() && next[j] == y;
            if j < stack.len() - 1 {
                assert(stack[j] == y);
                assert(stack.contains(y));
                let i = choose|i: int| 0 <= i < listed.len() && listed[i] == y;
                assert(more[i] == y);
            } else {
                assert(more[listed.len() + (j - (stack.len() - 1))] == y);
            }
        }
    }
    assert forall|i: int| 0 <= i < more.len() && #[trigger] more[i] != root implies parent_of(
        nodes,
        more[i],
    ) is Some && more.take(i).contains(parent_of(nodes, more[i])->0) by {
        if i < listed.len() {
            assert(more[i] == listed[i]);
            assert(more.take(i) =~= listed.take(i));
        } else {
            let child = children[i - listed.len()];
            assert(more[i] == child);
            assert(parent_of(nodes, child) == Some(x));
            let j = choose|j: int| 0 <= j < listed.len() && listed[j] == x;
            assert(more.take(i)[j] == x);
        }
    }
}

/// What a walk has listed and what it will list, taken together, name
/// each node of the subtree once, each behind its parent.
pub proof fn lemma_walk_lists_subtree(
    nodes: Seq<Node>,
    root: nat,
    stack: Seq<nat>,
    done: Set<nat>,
    listed: Seq<nat>,
    fuel: nat,
)
    requires
        is_forest(nodes),
        walking(nodes, root, stack, done),
        lists_met(nodes, root, stack, done, listed),
        fuel + done.len() >= nodes.len(),
    ensures
        (listed + walk(nodes, stack, fuel)).no_duplicates(),
        parents_first(nodes, root, listed + walk(nodes, stack, fuel)),
        forall|x: nat|
            (listed + walk(nodes, stack, fuel)).contains(x) <==> in_subtree(nodes, root, x),
    decreases fuel,
{
    lemma_done_bounded(nodes, root, stack, done);
    if stack.len() == 0 {
        assert(listed + walk(nodes, stack, fuel) =~= listed);
        assert(stack =~= Seq::empty());
        assert forall|x: nat| listed.contains(x) <==> in_subtree(nodes, root, x) by {
            lemma_walk_end(nodes, root, done, x);
        }
    } else {
        let x = stack.last();
        let children = children_of(nodes, x);
        let next = stack.drop_last() + children;
        let after = done.insert(x);
        let more = listed + children;
        lemma_walk_step(nodes, root, stack, done);
        lemma_walk_step_lists(nodes, root, stack, done, listed);
        assert(stack[stack.len() - 1] == x);
        assert(stack.contains(x));
        assert(after.len() == done.len() + 1);
        lemma_walk_lists_subtree(nodes, root, next, after, more, (fuel - 1) as nat);
        assert(listed + walk(nodes, stack, fuel) =~= more + walk(nodes, next, (fuel - 1) as nat));
    }
}

/// The listing of a subtree names each of its nodes once and no other
/// node, starts with the root, and names each other node behind its parent.
pub proof fn lemma_listing(nodes: Seq<Node>, root: nat)
    requires
        is_forest(nodes),
        root < nodes.len(),
    ensures
        listing(nodes, root).no_duplicates(),
        listing(nodes, root)[0] == root,
        parents_first(nodes, root, listing(nodes, root)),
        forall|x: nat| listing(nodes, root).contains(x) <==> in_subtree(nodes, root, x),
        listing(nodes, root).len() <= nodes.len(),
{
    let first = seq![root];
    lemma_walk_start(nodes, root);
    assert(first[0] == root);
    assert(lists_met(nodes, root, first, Set::empty(), first));
    lemma_walk_lists_subtree(nodes, root, first, Set::empty(), first, nodes.len());
    let full = first + walk(nodes, first, nodes.len());
    assert(listing(nodes, root) == full);
    assert(full[0] == first[0]);
    assert forall|i: int| 0 <= i < full.len() implies full[i] < nodes.len() by {
        let x = full[i];
        assert(full.contains(x));
        assert(in_subtree(nodes, root, x));
        let steps = choose|steps: nat| ancestor(nodes, x, steps) == Some(root);
        lemma_ancestor_exists(nodes, x, steps);
    }
    crate::resource::resource::lemma_distinct_indices_bounded(listing(nodes, root), nodes.len());
}

/// With the same parents, going up leads to the same nodes.
proof fn lemma_same_parents_ancestor(a: Seq<Node>, b: Seq<Node>, x: nat, steps: nat)
    requires
        a.len() == b.len(),
        forall|i: nat| i < a.len() ==> #[trigger] parent_of(a, i) == parent_of(b, i),
    ensures
        ancestor(a, x, steps) == ancestor(b, x, steps),
    decreases steps,
{
    if x < a.len() && steps > 0 {
        assert(parent_of(a, x) == parent_of(b, x));
        if parent_of(a, x) is Some {
            lemma_same_parents_ancestor(a, b, parent_of(a, x)->0, (steps - 1) as nat);
        }
    }
}

/// The listing of a subtree names the same nodes, each once, whatever the
/// order in which the children of each node were attached: two forests in
/// which each node has the same parent list the same nodes below a root.
pub proof fn lemma_listing_ignores_child_order(a: Seq<Node>, b: Seq<Node>, root: nat)
    requires
        is_forest(a),
        is_forest(b),
        a.len() == b.len(),
        root < a.len(),
        forall|i: nat| i < a.len() ==> #[trigger] parent_of(a, i) == parent_of(b, i),
    ensures
        listing(a, root).no_duplicates(),
        listing(b, root).no_duplicates(),
        forall|x: nat| listing(a, root).contains(x) <==> listing(b, root).contains(x),
        listing(a, root).len() == listing(b, root).len(),
{
    lemma_listing(a, root);
    lemma_listing(b, root);
    assert forall|x: nat| in_subtree(a, root, x) <==> in_subtree(b, root, x) by {
        if in_subtree(a, root, x) {
            let steps = choose|steps: nat| ancestor(a, x, steps) == Some(root);
            lemma_same_parents_ancestor(a, b, x, steps);
        }
        if in_subtree(b, root, x) {
            let steps = choose|steps: nat| ancestor(b, x, steps) == Some(root);
            lemma_same_parents_ancestor(a, b, x, steps);
        }
    }
    assert forall|x: nat| listing(a, root).contains(x) <==> listing(b, root).contains(x) by {
        assert(listing(a, root).contains(x) <==> in_subtree(a, root, x));
        assert(listing(b, root).contains(x) <==> in_subtree(b, root, x));
        assert(in_subtree(a, root, x) <==> in_subtree(b, root, x));
    }
    listing(a, root).unique_seq_to_set();
    listing(b, root).unique_seq_to_set();
    assert(listing(a, root).to_set() =~= listing(b, root).to_set());
}

} // verus!
