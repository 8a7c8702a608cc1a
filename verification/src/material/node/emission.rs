use crate::material::node::node::Collected;
use crate::material::node::node::Emitted;
use crate::material::node::node::MaterialNode;
use crate::material::node::node::collect;
use crate::material::node::node::collect_operands;
use crate::material::node::node::continues;
use crate::material::node::node::fragment;
use crate::material::node::node::fragment_operands;
use crate::material::node::node::height;
use crate::material::node::node::is_dag;
use crate::material::node::node::lemma_collect;
use crate::material::node::node::lemma_collect_not_above;
use crate::material::node::node::lemma_collect_operands;
use crate::material::node::node::lemma_operand;
use crate::material::node::node::lemma_root_not_below;
use crate::material::node::node::listed;
use crate::material::node::node::nothing_collected;
use crate::material::node::node::well_collected;
use vstd::prelude::*;

verus! {

/// The statements of the nodes in `order` that have one, in that order.
pub open spec fn statements_of(nodes: Seq<MaterialNode>, order: Seq<nat>) -> Seq<char>
    decreases order.len(),
{
    if order.len() == 0 {
        Seq::empty()
    } else {
        statements_of(nodes, order.drop_last()) + statement_of(nodes, order.last())
    }
}

/// The statement of a node, or nothing where it has none.
pub open spec fn statement_of(nodes: Seq<MaterialNode>, id: nat) -> Seq<char> {
    if nodes[id as int].has_statement() {
        nodes[id as int].statement(nodes, id)
    } else {
        Seq::empty()
    }
}

/// The statements of two lists, one after the other, are the statements of
/// the two lists joined.
pub proof fn lemma_statements_of_joined(nodes: Seq<MaterialNode>, first: Seq<nat>, second: Seq<nat>)
    ensures
        statements_of(nodes, first + second) == statements_of(nodes, first) + statements_of(
            nodes,
            second,
        ),
    decreases second.len(),
{
    if second.len() == 0 {
        assert(first + second =~= first);
        assert(statements_of(nodes, first) + Seq::<char>::empty() =~= statements_of(nodes, first));
    } else {
        lemma_statements_of_joined(nodes, first, second.drop_last());
        assert((first + second).drop_last() =~= first + second.drop_last());
        assert((first + second).last() == second.last());
        assert(statements_of(nodes, first + second) =~= statements_of(nodes, first)
            + statements_of(nodes, second));
    }
}

/// The statements of a list of one node are the statement of that node.
pub proof fn lemma_statements_of_one(nodes: Seq<MaterialNode>, id: nat)
    ensures
        statements_of(nodes, seq![id]) == statement_of(nodes, id),
{
    let one = seq![id];
    assert(one.drop_last() =~= Seq::<nat>::empty());
    assert(one.last() == id);
    assert(statements_of(nodes, one.drop_last()) =~= Seq::<char>::empty());
    assert(statements_of(nodes, one) =~= statement_of(nodes, id));
}

/// A node without statement has no operands.
pub proof fn lemma_operands_need_statement(node: MaterialNode)
    requires
        !node.has_statement(),
    ensures
        node.operands().len() == 0,
{
}

/// Below the height `bound`, the nodes whose statements were written are
/// the nodes that were listed and have a statement.
pub open spec fn written_as_listed(
    nodes: Seq<MaterialNode>,
    written: Set<nat>,
    listed: Set<nat>,
    bound: nat,
) -> bool {
    forall|x: nat|
        x < nodes.len() && height(nodes, x) < bound ==> (#[trigger] written.contains(x) <==> (
        listed.contains(x) && nodes[x as int].has_statement()))
}

/// From the height `bound` on, two sets hold the same nodes.
pub open spec fn same_from(nodes: Seq<MaterialNode>, a: Set<nat>, b: Set<nat>, bound: nat) -> bool {
    forall|x: nat|
        x < nodes.len() && height(nodes, x) >= bound ==> (#[trigger] a.contains(x) <==> b.contains(
            x,
        ))
}

/// Collecting below a node that was listed changes nothing.
pub proof fn lemma_collect_listed(nodes: Seq<MaterialNode>, id: nat, state: Collected)
    requires
        is_dag(nodes),
        id < nodes.len(),
        well_collected(nodes, state),
        state.visited.contains(id),
    ensures
        collect(nodes, id, state) == state,
    decreases height(nodes, id), nodes[id as int].operands().len() + 1,
{
    lemma_collect_operands_listed(nodes, id, nodes[id as int].operands().len(), state);
}

/// Collecting below the operands of a node that was listed changes
/// nothing.
pub proof fn lemma_collect_operands_listed(
    nodes: Seq<MaterialNode>,
    id: nat,
    count: nat,
    state: Collected,
)
    requires
        is_dag(nodes),
        id < nodes.len(),
        count <= nodes[id as int].operands().len(),
        well_collected(nodes, state),
        state.visited.contains(id),
    ensures
        collect_operands(nodes, id, count, state) == state,
    decreases height(nodes, id), count,
{
    if count > 0 {
        lemma_collect_operands_listed(nodes, id, (count - 1) as nat, state);
        lemma_operand(nodes, id, count - 1);
        let operand = nodes[id as int].operands()[count - 1];
        assert(state.order.to_set().contains(id));
        let i = choose|i: int| 0 <= i < state.order.len() && state.order[i] == id;
        assert(state.order.take(i).contains(nodes[state.order[i] as int].operands()[count - 1]));
        let j = choose|j: int|
            0 <= j < state.order.take(i).len() && state.order.take(i)[j] == operand;
        assert(state.order[j] == operand);
        assert(state.order.to_set().contains(operand));
        lemma_collect_listed(nodes, operand, state);
    }
}

/// What writing the statements below a node and collecting below it have
/// in common: the text written holds the statements of the nodes newly
/// listed, in the order in which they were listed.
pub open spec fn follows(
    nodes: Seq<MaterialNode>,
    bound: nat,
    visited: Set<nat>,
    state: Collected,
    emitted: Emitted,
    after: Collected,
) -> bool {
    &&& well_collected(nodes, after)
    &&& continues(state, after)
    &&& written_as_listed(nodes, emitted.visited, after.visited, bound)
    &&& same_from(nodes, emitted.visited, visited, bound)
    &&& same_from(nodes, after.visited, state.visited, bound)
    &&& emitted.text == statements_of(nodes, after.order.skip(state.order.len() as int))
}

/// Writing the statements below a node writes the statements of the nodes
/// that collecting below it lists.
pub proof fn lemma_fragment_follows_collect(
    nodes: Seq<MaterialNode>,
    id: nat,
    visited: Set<nat>,
    state: Collected,
)
    requires
        is_dag(nodes),
        id < nodes.len(),
        well_collected(nodes, state),
        written_as_listed(nodes, visited, state.visited, height(nodes, id) + 1),
    ensures
        follows(
            nodes,
            height(nodes, id) + 1,
            visited,
            state,
            fragment(nodes, id, visited),
            collect(nodes, id, state),
        ),
    decreases height(nodes, id), nodes[id as int].operands().len() + 1,
{
    let node = nodes[id as int];
    let count = node.operands().len();
    let bound = height(nodes, id) + 1;
    let emitted = fragment(nodes, id, visited);
    let after = collect(nodes, id, state);
    lemma_collect(nodes, id, state);
    lemma_collect_not_above(nodes, id, state);
    if !node.has_statement() {
        lemma_operands_need_statement(node);
        assert(collect_operands(nodes, id, 0, state) == state);
        assert(after == listed(state, id));
        if state.visited.contains(id) {
            assert(after.order.skip(state.order.len() as int) =~= Seq::empty());
        } else {
            assert(after.order.skip(state.order.len() as int) =~= seq![id]);
            lemma_statements_of_one(nodes, id);
        }
    } else if visited.contains(id) {
        assert(state.visited.contains(id));
        lemma_collect_listed(nodes, id, state);
        assert(after.order.skip(state.order.len() as int) =~= Seq::empty());
    } else {
        assert(!state.visited.contains(id));
        let marked = visited.insert(id);
        let below_emitted = fragment_operands(nodes, id, count, marked);
        let below = collect_operands(nodes, id, count, state);
        lemma_fragment_operands_follow(nodes, id, count, marked, state);
        lemma_root_not_below(nodes, id, count, state);
        assert(!below.visited.contains(id));
        assert(after.order == below.order.push(id));
        let fresh = below.order.skip(state.order.len() as int);
        assert(after.order.skip(state.order.len() as int) =~= fresh + seq![id]);
        lemma_statements_of_joined(nodes, fresh, seq![id]);
        lemma_statements_of_one(nodes, id);
        assert forall|x: nat| x < nodes.len() && height(nodes, x) < bound implies (
        #[trigger] emitted.visited.contains(x) <==> (after.visited.contains(x)
            && nodes[x as int].has_statement())) by {
            if height(nodes, x) < height(nodes, id) {
                assert(below_emitted.visited.contains(x) <==> (below.visited.contains(x)
                    && nodes[x as int].has_statement()));
            } else {
                assert(below_emitted.visited.contains(x) <==> marked.contains(x));
                assert(below.visited.contains(x) <==> state.visited.contains(x));
                assert(visited.contains(x) <==> (state.visited.contains(x)
                    && nodes[x as int].has_statement()));
            }
        }
        assert forall|x: nat| x < nodes.len() && height(nodes, x) >= bound implies (
        #[trigger] emitted.visited.contains(x) <==> visited.contains(x)) by {
            assert(below_emitted.visited.contains(x) <==> marked.contains(x));
        }
        assert forall|x: nat| x < nodes.len() && height(nodes, x) >= bound implies (
        #[trigger] after.visited.contains(x) <==> state.visited.contains(x)) by {
            assert(below.visited.contains(x) <==> state.visited.contains(x));
        }
    }
}

/// Writing the statements below the operands of a node writes the
/// statements of the nodes that collecting below them lists.
pub proof fn lemma_fragment_operands_follow(
    nodes: Seq<MaterialNode>,
    id: nat,
    count: nat,
    visited: Set<nat>,
    state: Collected,
)
    requires
        is_dag(nodes),
        id < nodes.len(),
        count <= nodes[id as int].operands().len(),
        well_collected(nodes, state),
        written_as_listed(nodes, visited, state.visited, height(nodes, id)),
    ensures
        follows(
            nodes,
            height(nodes, id),
            visited,
            state,
            fragment_operands(nodes, id, count, visited),
            collect_operands(nodes, id, count, state),
        ),
    decreases height(nodes, id), count,
{
    let bound = height(nodes, id);
    if count == 0 {
        assert(state.order.take(state.order.len() as int) =~= state.order);
        assert(state.order.skip(state.order.len() as int) =~= Seq::empty());
    } else {
        let operand = nodes[id as int].operands()[count - 1];
        let before_emitted = fragment_operands(nodes, id, (count - 1) as nat, visited);
        let before = collect_operands(nodes, id, (count - 1) as nat, state);
        let last_emitted = fragment(nodes, operand, before_emitted.visited);
        let after = collect(nodes, operand, before);
        let emitted = fragment_operands(nodes, id, count, visited);
        lemma_fragment_operands_follow(nodes, id, (count - 1) as nat, visited, state);
        lemma_operand(nodes, id, count - 1);
        lemma_collect_operands(nodes, id, (count - 1) as nat, state);
        let inner = height(nodes, operand) + 1;
        assert(written_as_listed(nodes, before_emitted.visited, before.visited, inner));
        lemma_fragment_follows_collect(nodes, operand, before_emitted.visited, before);
        assert(after == collect_operands(nodes, id, count, state));
        assert(emitted.visited == last_emitted.visited);
        assert(emitted.text == before_emitted.text + last_emitted.text);
        let first = before.order.skip(state.order.len() as int);
        let second = after.order.skip(before.order.len() as int);
        assert(after.order.skip(state.order.len() as int) =~= first + second) by {
            assert(after.order.take(before.order.len() as int) == before.order);
            assert(before.order.take(state.order.len() as int) == state.order);
            assert forall|i: int| 0 <= i < first.len() implies first[i] == after.order[i
                + state.order.len()] by {
                assert(after.order.take(before.order.len() as int)[i + state.order.len()]
                    == after.order[i + state.order.len()]);
            }
        }
        lemma_statements_of_joined(nodes, first, second);
        assert(after.order.take(state.order.len() as int) =~= after.order.take(
            before.order.len() as int,
        ).take(state.order.len() as int));
        assert forall|x: nat| x < nodes.len() && height(nodes, x) < bound implies (
        #[trigger] emitted.visited.contains(x) <==> (after.visited.contains(x)
            && nodes[x as int].has_statement())) by {
            if height(nodes, x) < inner {
                assert(last_emitted.visited.contains(x) <==> (after.visited.contains(x)
                    && nodes[x as int].has_statement()));
            } else {
                assert(last_emitted.visited.contains(x) <==> before_emitted.visited.contains(x));
                assert(after.visited.contains(x) <==> before.visited.contains(x));
                assert(before_emitted.visited.contains(x) <==> (before.visited.contains(x)
                    && nodes[x as int].has_statement()));
            }
        }
        assert forall|x: nat| x < nodes.len() && height(nodes, x) >= bound implies (
        #[trigger] emitted.visited.contains(x) <==> visited.contains(x)) by {
            assert(last_emitted.visited.contains(x) <==> before_emitted.visited.contains(x));
            assert(before_emitted.visited.contains(x) <==> visited.contains(x));
        }
        assert forall|x: nat| x < nodes.len() && height(nodes, x) >= bound implies (
        #[trigger] after.visited.contains(x) <==> state.visited.contains(x)) by {
            assert(after.visited.contains(x) <==> before.visited.contains(x));
            assert(before.visited.contains(x) <==> state.visited.contains(x));
        }
    }
}

/// The text that computes the root of a graph holds the statement of each
/// node below the root that has one, once, in the order in which the nodes
/// are collected: operands before their users.
pub proof fn lemma_each_statement_once(nodes: Seq<MaterialNode>, root: nat)
    requires
        is_dag(nodes),
        root < nodes.len(),
    ensures
        fragment(nodes, root, Set::empty()).text == statements_of(
            nodes,
            collect(nodes, root, nothing_collected()).order,
        ),
        collect(nodes, root, nothing_collected()).order.no_duplicates(),
{
    let start = nothing_collected();
    assert(start.order.to_set() =~= start.visited);
    lemma_fragment_follows_collect(nodes, root, Set::empty(), start);
    let after = collect(nodes, root, start);
    assert(after.order.skip(0) =~= after.order);
}

/// `to` is reached from `from` by going to an operand `steps` times.
pub open spec fn reaches_in(nodes: Seq<MaterialNode>, from: nat, to: nat, steps: nat) -> bool
    decreases steps,
{
    if steps == 0 {
        from == to
    } else {
        exists|k: int|
            0 <= k < nodes[from as int].operands().len() && reaches_in(
                nodes,
                #[trigger] nodes[from as int].operands()[k],
                to,
                (steps - 1) as nat,
            )
    }
}

/// `to` is `from` or lies below it.
pub open spec fn reaches(nodes: Seq<MaterialNode>, from: nat, to: nat) -> bool {
    exists|steps: nat| reaches_in(nodes, from, to, steps)
}

/// What is reached from an operand of a node is reached from the node.
pub proof fn lemma_reaches_through(nodes: Seq<MaterialNode>, from: nat, k: int, to: nat)
    requires
        0 <= k < nodes[from as int].operands().len(),
        reaches(nodes, nodes[from as int].operands()[k], to),
    ensures
        reaches(nodes, from, to),
{
    let operand = nodes[from as int].operands()[k];
    let steps = choose|steps: nat| reaches_in(nodes, operand, to, steps);
    assert(reaches_in(nodes, nodes[from as int].operands()[k], to, steps));
    assert(reaches_in(nodes, from, to, steps + 1));
}

/// Collecting below a node lists nothing but what is reached from it.
pub proof fn lemma_collect_lists_reached(nodes: Seq<MaterialNode>, id: nat, state: Collected)
    requires
        is_dag(nodes),
        id < nodes.len(),
        well_collected(nodes, state),
    ensures
        forall|x: nat|
            #[trigger] collect(nodes, id, state).visited.contains(x) && !state.visited.contains(x)
                ==> reaches(nodes, id, x),
    decreases height(nodes, id), nodes[id as int].operands().len() + 1,
{
    let count = nodes[id as int].operands().len();
    let below = collect_operands(nodes, id, count, state);
    let after = collect(nodes, id, state);
    lemma_collect_operands_list_reached(nodes, id, count, state);
    assert(reaches_in(nodes, id, id, 0));
    assert forall|x: nat| #[trigger]
        after.visited.contains(x) && !state.visited.contains(x) implies reaches(nodes, id, x) by {
        if !below.visited.contains(x) {
            assert(x == id);
        }
    }
}

/// Collecting below the operands of a node lists nothing but what is
/// reached from the node.
pub proof fn lemma_collect_operands_list_reached(
    nodes: Seq<MaterialNode>,
    id: nat,
    count: nat,
    state: Collected,
)
    requires
        is_dag(nodes),
        id < nodes.len(),
        count <= nodes[id as int].operands().len(),
        well_collected(nodes, state),
    ensures
        forall|x: nat|
            #[trigger] collect_operands(nodes, id, count, state).visited.contains(x)
                && !state.visited.contains(x) ==> reaches(nodes, id, x),
    decreases height(nodes, id), count,
{
    let after = collect_operands(nodes, id, count, state);
    if count > 0 {
        let before = collect_operands(nodes, id, (count - 1) as nat, state);
        let operand = nodes[id as int].operands()[count - 1];
        lemma_collect_operands_list_reached(nodes, id, (count - 1) as nat, state);
        lemma_collect_operands(nodes, id, (count - 1) as nat, state);
        lemma_operand(nodes, id, count - 1);
        lemma_collect_lists_reached(nodes, operand, before);
        assert(after == collect(nodes, operand, before));
        assert forall|x: nat| #[trigger]
            after.visited.contains(x) && !state.visited.contains(x) implies reaches(
            nodes,
            id,
            x,
        ) by {
            if !before.visited.contains(x) {
                assert(collect(nodes, operand, before).visited.contains(x));
                lemma_reaches_through(nodes, id, count - 1, x);
            }
        }
    } else {
        assert(after == state);
    }
}

/// What is reached from a listed node is listed, where operands are
/// listed before their users.
pub proof fn lemma_reached_is_listed(
    nodes: Seq<MaterialNode>,
    state: Collected,
    from: nat,
    to: nat,
    steps: nat,
)
    requires
        is_dag(nodes),
        well_collected(nodes, state),
        state.visited.contains(from),
        reaches_in(nodes, from, to, steps),
    ensures
        state.visited.contains(to),
    decreases steps,
{
    if steps > 0 {
        let k = choose|k: int|
            0 <= k < nodes[from as int].operands().len() && reaches_in(
                nodes,
                #[trigger] nodes[from as int].operands()[k],
                to,
                (steps - 1) as nat,
            );
        let operand = nodes[from as int].operands()[k];
        assert(state.order.to_set().contains(from));
        let i = choose|i: int| 0 <= i < state.order.len() && state.order[i] == from;
        assert(state.order.take(i).contains(nodes[state.order[i] as int].operands()[k]));
        let j = choose|j: int|
            0 <= j < state.order.take(i).len() && state.order.take(i)[j] == operand;
        assert(state.order[j] == operand);
        assert(state.order.to_set().contains(operand));
        lemma_reached_is_listed(nodes, state, operand, to, (steps - 1) as nat);
    }
}

/// Collecting a graph from its root lists the nodes that are reached from
/// the root, and no others.
pub proof fn lemma_collect_lists_what_is_reached(nodes: Seq<MaterialNode>, root: nat)
    requires
        is_dag(nodes),
        root < nodes.len(),
    ensures
        forall|x: nat|
            collect(nodes, root, nothing_collected()).order.contains(x) <==> reaches(
                nodes,
                root,
                x,
            ),
{
    let start = nothing_collected();
    let after = collect(nodes, root, start);
    assert(start.order.to_set() =~= start.visited);
    lemma_collect(nodes, root, start);
    lemma_collect_lists_reached(nodes, root, start);
    assert forall|x: nat| after.order.contains(x) <==> reaches(nodes, root, x) by {
        if after.order.contains(x) {
            assert(after.order.to_set().contains(x));
            assert(after.visited.contains(x));
        }
        if reaches(nodes, root, x) {
            let steps = choose|steps: nat| reaches_in(nodes, root, x, steps);
            lemma_reached_is_listed(nodes, after, root, x, steps);
            assert(after.order.to_set().contains(x));
        }
    }
}

/// The square of a leaf: where the root of a graph is the product of a
/// node without operands with itself, that node is collected once, before
/// the root, and the statement of the root names it twice.
pub proof fn lemma_square_of_leaf(nodes: Seq<MaterialNode>, root: nat, leaf: nat)
    requires
        is_dag(nodes),
        root < nodes.len(),
        nodes[root as int] is Multiply,
        nodes[root as int].operands() == seq![leaf, leaf],
        nodes[leaf as int].operands().len() == 0,
    ensures
        collect(nodes, root, nothing_collected()).order == seq![leaf, root],
        fragment(nodes, root, Set::empty()).text == statement_of(nodes, leaf) + statement_of(
            nodes,
            root,
        ),
        statement_of(nodes, root) == "let "@ + nodes[root as int].output(root) + " = "@
            + nodes[leaf as int].output(leaf) + " * "@ + nodes[leaf as int].output(leaf) + ";\n"@,
{
    let start = nothing_collected();
    lemma_operand(nodes, root, 0);
    lemma_operand(nodes, root, 1);
    assert(leaf != root);
    assert(collect_operands(nodes, leaf, 0, start) == start);
    let first = collect(nodes, leaf, start);
    assert(first == listed(start, leaf));
    assert(first.order =~= seq![leaf]);
    assert(first.visited.contains(leaf));
    assert(collect_operands(nodes, root, 0, start) == start);
    assert(collect_operands(nodes, root, 1, start) == first);
    assert(collect_operands(nodes, leaf, 0, first) == first);
    assert(collect(nodes, leaf, first) == first);
    assert(collect_operands(nodes, root, 2, start) == first);
    let after = collect(nodes, root, start);
    assert(after == listed(first, root));
    assert(after.order =~= seq![leaf, root]);
    lemma_each_statement_once(nodes, root);
    let order = seq![leaf, root];
    assert(order.drop_last() =~= seq![leaf]);
    lemma_statements_of_one(nodes, leaf);
    assert(statements_of(nodes, order) == statements_of(nodes, order.drop_last()) + statement_of(
        nodes,
        order.last(),
    ));
}

} // verus!
