use crate::material::node::add::AddNode;
use crate::material::node::brdf::BRDFNode;
use crate::material::node::const_float::ConstFloatNode;
use crate::material::node::const_vector3::ConstVector3Node;
use crate::material::node::float::FloatNode;
use crate::material::node::multiply::MultiplyNode;
use crate::material::node::normal::NormalNode;
use crate::material::node::normal_matrix::NormalMatrixNode;
use crate::material::node::srgb_to_linear::SRGBToLinearNode;
use crate::material::node::sub::SubNode;
use crate::material::node::tangent_to_object_normal::TangentToObjectNormalNode;
use crate::material::node::texture::TextureNode;
use crate::material::node::vector3::Vector3Node;
use crate::material::node::xyz::XYZNode;
use crate::material::node::y::YNode;
use crate::material::node::z::ZNode;
use crate::math::scalar::Scalar;
use crate::resource::resource::ResourceId;
use crate::resource::resource::ResourcePool;
use crate::texture::sampler::Sampler;
use crate::texture::texture::Texture;
use std::collections::HashMap;
use vstd::prelude::*;

verus! {

/// The value a leaf of a shading graph contributes to a draw: a field of
/// the uniform buffer, or a texture with the sampler it is read through.
#[allow(inconsistent_fields)]
pub enum UniformContents {
    Float { value: [Scalar; 1] },
    Matrix4 { value: [Scalar; 16] },
    Vector3 { value: [Scalar; 3] },
    Texture { texture: ResourceId<Texture>, sampler: ResourceId<Sampler> },
}

/// One operation of a shading graph. The operands of an operation are
/// handles of other operations in the same pool.
pub enum MaterialNode {
    Add(AddNode),
    BRDF(BRDFNode),
    ConstFloat(ConstFloatNode),
    ConstVector3(ConstVector3Node),
    Float(FloatNode),
    Multiply(MultiplyNode),
    Normal(NormalNode),
    NormalMatrix(NormalMatrixNode),
    SRGBToLinear(SRGBToLinearNode),
    Sub(SubNode),
    TangentToObjectNormal(TangentToObjectNormalNode),
    Texture(TextureNode),
    Vector3(Vector3Node),
    XYZ(XYZNode),
    Y(YNode),
    Z(ZNode),
}

/// The indices that a table of visited nodes holds.
pub open spec fn seen(visited: Map<usize, bool>) -> Set<nat> {
    Set::new(|id: nat| id <= usize::MAX && visited.contains_key(id as usize))
}

/// The indices that a list of handles stands for.
pub open spec fn ids(nodes: Seq<ResourceId<MaterialNode>>) -> Seq<nat> {
    Seq::new(nodes.len(), |i: int| nodes[i]@)
}

/// The state of a collection: the nodes met so far, and the nodes listed
/// so far, in the order in which they were listed.
pub struct Collected {
    pub visited: Set<nat>,
    pub order: Seq<nat>,
}

/// The state that a table of visited nodes and a list of handles stand for.
pub open spec fn collected(
    visited: Map<usize, bool>,
    nodes: Seq<ResourceId<MaterialNode>>,
) -> Collected {
    Collected { visited: seen(visited), order: ids(nodes) }
}

/// The state of an emission: the nodes whose statements were written so
/// far, and the text that the last step wrote.
pub struct Emitted {
    pub visited: Set<nat>,
    pub text: Seq<char>,
}

/// `rank` orders the graph: every operand of every node exists and has a
/// smaller rank than the node.
pub open spec fn is_rank(nodes: Seq<MaterialNode>, rank: Seq<nat>) -> bool {
    &&& rank.len() == nodes.len()
    &&& forall|i: int, k: int|
        0 <= i < nodes.len() && 0 <= k < nodes[i].operands().len() ==> {
            &&& (#[trigger] nodes[i].operands()[k]) < nodes.len()
            &&& rank[nodes[i].operands()[k] as int] < rank[i]
        }
}

/// The graph is consistent: every operand exists, and no node is reached
/// from itself.
pub open spec fn is_dag(nodes: Seq<MaterialNode>) -> bool {
    exists|rank: Seq<nat>| is_rank(nodes, rank)
}

/// An order of a consistent graph.
pub open spec fn dag_rank(nodes: Seq<MaterialNode>) -> Seq<nat> {
    choose|rank: Seq<nat>| is_rank(nodes, rank)
}

/// The rank of a node in [`dag_rank`].
pub open spec fn height(nodes: Seq<MaterialNode>, id: nat) -> nat {
    dag_rank(nodes)[id as int]
}

/// Lists a node unless it was met before.
pub open spec fn listed(state: Collected, id: nat) -> Collected {
    if state.visited.contains(id) {
        state
    } else {
        Collected { visited: state.visited.insert(id), order: state.order.push(id) }
    }
}

/// Collects the graph below a node in post-order: first what its operands
/// reach, in the order of the operands, then the node itself. A node that
/// was met before is not listed again.
pub open spec fn collect(nodes: Seq<MaterialNode>, id: nat, state: Collected) -> Collected
    decreases height(nodes, id), nodes[id as int].operands().len() + 1,
    when is_dag(nodes) && id < nodes.len()
{
    listed(collect_operands(nodes, id, nodes[id as int].operands().len(), state), id)
}

/// Collects what the first `count` operands of a node reach.
pub open spec fn collect_operands(
    nodes: Seq<MaterialNode>,
    id: nat,
    count: nat,
    state: Collected,
) -> Collected
    decreases height(nodes, id), count,
    when is_dag(nodes) && id < nodes.len() && count <= nodes[id as int].operands().len()
{
    if count == 0 {
        state
    } else {
        collect(
            nodes,
            nodes[id as int].operands()[count - 1],
            collect_operands(nodes, id, (count - 1) as nat, state),
        )
    }
}

/// The text that computes a node: first what its operands need, in the
/// order of the operands, then the node's own statement. A node that keeps
/// no statement, or whose statement was written before, yields no text.
pub open spec fn fragment(nodes: Seq<MaterialNode>, id: nat, visited: Set<nat>) -> Emitted
    decreases height(nodes, id), nodes[id as int].operands().len() + 1,
    when is_dag(nodes) && id < nodes.len()
{
    if !nodes[id as int].has_statement() || visited.contains(id) {
        Emitted { visited, text: Seq::empty() }
    } else {
        let below = fragment_operands(
            nodes,
            id,
            nodes[id as int].operands().len(),
            visited.insert(id),
        );
        Emitted {
            visited: below.visited,
            text: below.text + nodes[id as int].statement(nodes, id),
        }
    }
}

/// The text that the first `count` operands of a node need.
pub open spec fn fragment_operands(
    nodes: Seq<MaterialNode>,
    id: nat,
    count: nat,
    visited: Set<nat>,
) -> Emitted
    decreases height(nodes, id), count,
    when is_dag(nodes) && id < nodes.len() && count <= nodes[id as int].operands().len()
{
    if count == 0 {
        Emitted { visited, text: Seq::empty() }
    } else {
        let before = fragment_operands(nodes, id, (count - 1) as nat, visited);
        let last = fragment(nodes, nodes[id as int].operands()[count - 1], before.visited);
        Emitted { visited: last.visited, text: before.text + last.text }
    }
}

/// The state from which the collection of a whole graph starts.
pub open spec fn nothing_collected() -> Collected {
    Collected { visited: Set::empty(), order: Seq::empty() }
}

/// In `order`, each operand of a listed node is listed before the node.
pub open spec fn operands_first(nodes: Seq<MaterialNode>, order: Seq<nat>) -> bool {
    forall|i: int, k: int|
        0 <= i < order.len() && 0 <= k < nodes[order[i] as int].operands().len()
            ==> order.take(i).contains(#[trigger] nodes[order[i] as int].operands()[k])
}

/// What holds of the state throughout a collection that started with
/// nothing: no node is listed twice, the nodes met are the nodes listed,
/// each listed node exists, and operands come before their users.
pub open spec fn well_collected(nodes: Seq<MaterialNode>, state: Collected) -> bool {
    &&& state.order.no_duplicates()
    &&& state.visited == state.order.to_set()
    &&& forall|i: int| 0 <= i < state.order.len() ==> #[trigger] state.order[i] < nodes.len()
    &&& operands_first(nodes, state.order)
}

/// `after` continues `before`: what was listed stays listed, in place.
pub open spec fn continues(before: Collected, after: Collected) -> bool {
    &&& before.order.len() <= after.order.len()
    &&& after.order.take(before.order.len() as int) == before.order
    &&& before.visited.subset_of(after.visited)
}

/// Collecting below a node keeps the state well collected, continues it,
/// and leaves the node itself listed.
pub proof fn lemma_collect(nodes: Seq<MaterialNode>, id: nat, state: Collected)
    requires
        is_dag(nodes),
        id < nodes.len(),
        well_collected(nodes, state),
    ensures
        well_collected(nodes, collect(nodes, id, state)),
        continues(state, collect(nodes, id, state)),
        collect(nodes, id, state).visited.contains(id),
    decreases height(nodes, id), nodes[id as int].operands().len() + 1,
{
    let count = nodes[id as int].operands().len();
    let below = collect_operands(nodes, id, count, state);
    let after = collect(nodes, id, state);
    lemma_collect_operands(nodes, id, count, state);
    if !below.visited.contains(id) {
        assert(after.order == below.order.push(id));
        assert(after.order.take(below.order.len() as int) =~= below.order);
        assert(after.order.take(state.order.len() as int) =~= below.order.take(
            state.order.len() as int,
        ));
        below.order.lemma_push_to_set_commute(id);
        assert(!below.order.contains(id));
        assert(after.order.no_duplicates());
        assert forall|i: int| 0 <= i < after.order.len() implies #[trigger] after.order[i]
            < nodes.len() by {
            if i < below.order.len() {
                assert(after.order[i] == below.order[i]);
            }
        }
        assert forall|i: int, k: int|
            0 <= i < after.order.len() && 0 <= k < nodes[after.order[i] as int].operands().len()
            implies after.order.take(i).contains(
            #[trigger] nodes[after.order[i] as int].operands()[k],
        ) by {
            if i < below.order.len() {
                assert(after.order[i] == below.order[i]);
                assert(after.order.take(i) =~= below.order.take(i));
            } else {
                let operand = nodes[id as int].operands()[k];
                assert(below.visited.contains(operand));
                assert(below.order.to_set().contains(operand));
                assert(after.order.take(i) =~= below.order);
            }
        }
        assert(operands_first(nodes, after.order));
    }
}

/// Collecting below the first `count` operands of a node keeps the state
/// well collected, continues it, and leaves those operands listed.
pub proof fn lemma_collect_operands(
    nodes: Seq<MaterialNode>,
    id: nat,
    count: nat,
    state: Collected,
)
    requires
        is_dag(nodes),
        id < nodes.len(),
        count <= nodes[id as int].operands().len(),
        well_collected(nodes, state),
    ensures
        well_collected(nodes, collect_operands(nodes, id, count, state)),
        continues(state, collect_operands(nodes, id, count, state)),
        forall|k: int|
            0 <= k < count ==> collect_operands(nodes, id, count, state).visited.contains(
                #[trigger] nodes[id as int].operands()[k],
            ),
    decreases height(nodes, id), count,
{
    if count == 0 {
        assert(state.order.take(state.order.len() as int) =~= state.order);
    } else {
        let before = collect_operands(nodes, id, (count - 1) as nat, state);
        let operand = nodes[id as int].operands()[count - 1];
        let after = collect_operands(nodes, id, count, state);
        lemma_collect_operands(nodes, id, (count - 1) as nat, state);
        lemma_operand(nodes, id, count - 1);
        lemma_collect(nodes, operand, before);
        assert(after.order.take(state.order.len() as int) =~= after.order.take(
            before.order.len() as int,
        ).take(state.order.len() as int));
    }
}

/// Collecting a whole graph from its root lists each node at most once,
/// lists existing nodes only, lists the operands of a node before the node,
/// and lists the root last. The list is no longer than the pool.
pub proof fn lemma_collect_from_root(nodes: Seq<MaterialNode>, root: nat)
    requires
        is_dag(nodes),
        root < nodes.len(),
    ensures
        well_collected(nodes, collect(nodes, root, nothing_collected())),
        collect(nodes, root, nothing_collected()).order.len() > 0,
        collect(nodes, root, nothing_collected()).order.last() == root,
        collect(nodes, root, nothing_collected()).order.len() <= nodes.len(),
{
    let start = nothing_collected();
    assert(start.order.to_set() =~= start.visited);
    lemma_collect(nodes, root, start);
    let count = nodes[root as int].operands().len();
    let below = collect_operands(nodes, root, count, start);
    lemma_collect_operands(nodes, root, count, start);
    if below.visited.contains(root) {
        // The root cannot be met below itself: it would come before one of
        // its own operands' users, that is, have a smaller height than itself.
        lemma_root_not_below(nodes, root, count, start);
    }
    crate::resource::resource::lemma_distinct_indices_bounded(
        collect(nodes, root, start).order,
        nodes.len(),
    );
}

/// Every node listed while collecting below the first `count` operands of
/// a node, and not listed before, lies lower than that node.
pub proof fn lemma_root_not_below(nodes: Seq<MaterialNode>, id: nat, count: nat, state: Collected)
    requires
        is_dag(nodes),
        id < nodes.len(),
        count <= nodes[id as int].operands().len(),
    ensures
        forall|x: nat|
            #[trigger] collect_operands(nodes, id, count, state).visited.contains(x)
                && !state.visited.contains(x) ==> x < nodes.len() && height(nodes, x) < height(
                nodes,
                id,
            ),
    decreases height(nodes, id), count,
{
    let after = collect_operands(nodes, id, count, state);
    if count > 0 {
        let before = collect_operands(nodes, id, (count - 1) as nat, state);
        let operand = nodes[id as int].operands()[count - 1];
        lemma_root_not_below(nodes, id, (count - 1) as nat, state);
        lemma_operand(nodes, id, count - 1);
        lemma_collect_not_above(nodes, operand, before);
        assert(after == collect(nodes, operand, before));
        assert forall|x: nat| #[trigger]
            after.visited.contains(x) && !state.visited.contains(x) implies x < nodes.len()
            && height(nodes, x) < height(nodes, id) by {
            if before.visited.contains(x) {
            } else {
                assert(collect(nodes, operand, before).visited.contains(x));
            }
        }
    } else {
        assert(after == state);
    }
}

/// Every node listed while collecting below a node, and not listed before,
/// is that node or lies lower.
pub proof fn lemma_collect_not_above(nodes: Seq<MaterialNode>, id: nat, state: Collected)
    requires
        is_dag(nodes),
        id < nodes.len(),
    ensures
        forall|x: nat|
            #[trigger] collect(nodes, id, state).visited.contains(x) && !state.visited.contains(x)
                ==> x < nodes.len() && height(nodes, x) <= height(nodes, id),
    decreases height(nodes, id), nodes[id as int].operands().len() + 1,
{
    let count = nodes[id as int].operands().len();
    let below = collect_operands(nodes, id, count, state);
    let after = collect(nodes, id, state);
    lemma_root_not_below(nodes, id, count, state);
    assert(after == listed(below, id));
    assert forall|x: nat| #[trigger]
        after.visited.contains(x) && !state.visited.contains(x) implies x < nodes.len() && height(
        nodes,
        x,
    ) <= height(nodes, id) by {
        if below.visited.contains(x) {
        } else {
            assert(x == id);
        }
    }
}

/// One more than the largest entry of `rank`.
pub open spec fn above_all(rank: Seq<nat>) -> nat
    decreases rank.len(),
{
    if rank.len() == 0 {
        0
    } else if rank.last() >= above_all(rank.drop_last()) {
        rank.last() + 1
    } else {
        above_all(rank.drop_last())
    }
}

proof fn lemma_above_all(rank: Seq<nat>, i: int)
    requires
        0 <= i < rank.len(),
    ensures
        rank[i] < above_all(rank),
    decreases rank.len(),
{
    if i < rank.len() - 1 {
        lemma_above_all(rank.drop_last(), i);
    }
}

/// The operands of a node lie below `bound`.
pub open spec fn operands_below(node: MaterialNode, bound: nat) -> bool {
    forall|k: int| 0 <= k < node.operands().len() ==> #[trigger] node.operands()[k] < bound
}

/// A consistent graph stays consistent when a node is added whose operands
/// are nodes of the graph.
pub proof fn lemma_push_keeps_dag(nodes: Seq<MaterialNode>, node: MaterialNode)
    requires
        is_dag(nodes),
        operands_below(node, nodes.len()),
    ensures
        is_dag(nodes.push(node)),
{
    let rank = dag_rank(nodes);
    assert(is_rank(nodes, rank));
    let more = rank.push(above_all(rank));
    let after = nodes.push(node);
    assert forall|i: int, k: int|
        0 <= i < after.len() && 0 <= k < after[i].operands().len() implies (
    #[trigger] after[i].operands()[k]) < after.len() && more[after[i].operands()[k] as int]
        < more[i] by {
        if i < nodes.len() {
            assert(after[i] == nodes[i]);
            assert(nodes[i].operands()[k] < nodes.len());
        } else {
            lemma_above_all(rank, node.operands()[k] as int);
        }
    }
    assert(is_rank(after, more));
}

/// A graph without nodes is consistent.
pub proof fn lemma_empty_is_dag()
    ensures
        is_dag(Seq::<MaterialNode>::empty()),
{
    assert(is_rank(Seq::<MaterialNode>::empty(), Seq::<nat>::empty()));
}

/// In each node of an ordered graph the operands lie below the node.
pub open spec fn is_ordered(nodes: Seq<MaterialNode>) -> bool {
    forall|i: int| 0 <= i < nodes.len() ==> operands_below(#[trigger] nodes[i], i as nat)
}

/// An ordered graph is consistent.
pub proof fn lemma_ordered_is_dag(nodes: Seq<MaterialNode>)
    requires
        is_ordered(nodes),
    ensures
        is_dag(nodes),
{
    let rank = Seq::new(nodes.len(), |i: int| i as nat);
    assert forall|i: int, k: int|
        0 <= i < nodes.len() && 0 <= k < nodes[i].operands().len() implies (
    #[trigger] nodes[i].operands()[k]) < nodes.len() && rank[nodes[i].operands()[k] as int]
        < rank[i] by {
        assert(operands_below(nodes[i], i as nat));
    }
    assert(is_rank(nodes, rank));
}

/// What a node does to its operands, or what it supplies where it has
/// none.
#[allow(inconsistent_fields)]
pub enum Operation {
    Add,
    Sub,
    Multiply,
    BRDF,
    SRGBToLinear,
    TangentToObjectNormal,
    XYZ,
    Y,
    Z,
    /// The normal of the surface.
    Normal,
    /// The matrix that takes normals to the space of the view.
    NormalMatrix,
    /// A number written as a literal.
    ConstFloat { value: Seq<char> },
    /// A vector of three numbers written as literals.
    ConstVector3 { value: Seq<Seq<char>> },
    /// A number or a vector supplied through the uniform buffer.
    Input { contents: UniformContents },
    /// A colour read from a texture through a sampler.
    Texture { texture: nat, sampler: nat },
}

/// What a node computes: an operation, applied to what its operands
/// compute.
pub struct Expression {
    pub operation: Operation,
    pub operands: Seq<Expression>,
}

/// The expression of a node without operands.
pub open spec fn leaf(operation: Operation) -> Expression {
    Expression { operation, operands: Seq::empty() }
}

/// The expression of a node with one operand.
pub open spec fn unary(operation: Operation, operand: Expression) -> Expression {
    Expression { operation, operands: seq![operand] }
}

/// The expression of a node with two operands.
pub open spec fn binary(operation: Operation, first: Expression, second: Expression) -> Expression {
    Expression { operation, operands: seq![first, second] }
}

/// What the node at `id` computes.
pub open spec fn expression(nodes: Seq<MaterialNode>, id: nat) -> Expression
    decreases height(nodes, id), nodes[id as int].operands().len() + 1,
    when is_dag(nodes) && id < nodes.len()
{
    Expression {
        operation: nodes[id as int].operation(),
        operands: expressions(nodes, id, nodes[id as int].operands().len()),
    }
}

/// What the first `count` operands of the node at `id` compute.
pub open spec fn expressions(nodes: Seq<MaterialNode>, id: nat, count: nat) -> Seq<Expression>
    decreases height(nodes, id), count,
    when is_dag(nodes) && id < nodes.len() && count <= nodes[id as int].operands().len()
{
    if count == 0 {
        Seq::empty()
    } else {
        expressions(nodes, id, (count - 1) as nat).push(
            expression(nodes, nodes[id as int].operands()[count - 1]),
        )
    }
}

/// The expressions of the operands of a node, one for each operand.
pub proof fn lemma_expressions(nodes: Seq<MaterialNode>, id: nat, count: nat)
    requires
        is_dag(nodes),
        id < nodes.len(),
        count <= nodes[id as int].operands().len(),
    ensures
        expressions(nodes, id, count).len() == count,
        forall|k: int|
            0 <= k < count ==> #[trigger] expressions(nodes, id, count)[k] == expression(
                nodes,
                nodes[id as int].operands()[k],
            ),
    decreases count,
{
    if count > 0 {
        lemma_expressions(nodes, id, (count - 1) as nat);
    }
}

/// Adding a node to a graph leaves what the nodes of the graph compute.
pub proof fn lemma_push_keeps_expression(nodes: Seq<MaterialNode>, node: MaterialNode, id: nat)
    requires
        is_dag(nodes),
        is_dag(nodes.push(node)),
        id < nodes.len(),
    ensures
        expression(nodes.push(node), id) == expression(nodes, id),
    decreases height(nodes, id), nodes[id as int].operands().len() + 1,
{
    let after = nodes.push(node);
    assert(after[id as int] == nodes[id as int]);
    lemma_push_keeps_expressions(nodes, node, id, nodes[id as int].operands().len());
}

/// Adding a node to a graph leaves what the operands of the nodes of the
/// graph compute.
pub proof fn lemma_push_keeps_expressions(
    nodes: Seq<MaterialNode>,
    node: MaterialNode,
    id: nat,
    count: nat,
)
    requires
        is_dag(nodes),
        is_dag(nodes.push(node)),
        id < nodes.len(),
        count <= nodes[id as int].operands().len(),
    ensures
        expressions(nodes.push(node), id, count) == expressions(nodes, id, count),
    decreases height(nodes, id), count,
{
    let after = nodes.push(node);
    assert(after[id as int] == nodes[id as int]);
    if count > 0 {
        lemma_push_keeps_expressions(nodes, node, id, (count - 1) as nat);
        lemma_operand(nodes, id, count - 1);
        lemma_push_keeps_expression(nodes, node, nodes[id as int].operands()[count - 1]);
    }
}

/// A node added to a graph computes its operation, applied to what its
/// operands computed in the graph.
pub proof fn lemma_pushed_expression(nodes: Seq<MaterialNode>, node: MaterialNode)
    requires
        is_dag(nodes),
        operands_below(node, nodes.len()),
    ensures
        is_dag(nodes.push(node)),
        expression(nodes.push(node), nodes.len()).operation == node.operation(),
        expression(nodes.push(node), nodes.len()).operands.len() == node.operands().len(),
        forall|k: int|
            0 <= k < node.operands().len() ==> #[trigger] expression(
                nodes.push(node),
                nodes.len(),
            ).operands[k] == expression(nodes, node.operands()[k]),
{
    let after = nodes.push(node);
    let id = nodes.len();
    lemma_push_keeps_dag(nodes, node);
    assert(after[id as int] == node);
    lemma_expressions(after, id, node.operands().len());
    assert forall|k: int| 0 <= k < node.operands().len() implies #[trigger] expression(
        after,
        id,
    ).operands[k] == expression(nodes, node.operands()[k]) by {
        lemma_push_keeps_expression(nodes, node, node.operands()[k]);
    }
}

/// Adds a node to a graph. Where the graph is consistent and holds the
/// operands of the node, it stays consistent, its nodes compute what they
/// computed, and the new node computes its operation on its operands.
pub fn add_node(pool: &mut ResourcePool<MaterialNode>, node: MaterialNode) -> (rid: ResourceId<
    MaterialNode,
>)
    ensures
        rid@ == old(pool)@.len(),
        final(pool)@ == old(pool)@.push(node),
        is_dag(old(pool)@) && operands_below(node, old(pool)@.len()) ==> {
            &&& is_dag(final(pool)@)
            &&& forall|id: nat|
                id < old(pool)@.len() ==> #[trigger] expression(final(pool)@, id) == expression(
                    old(pool)@,
                    id,
                )
            &&& expression(final(pool)@, rid@).operation == node.operation()
            &&& expression(final(pool)@, rid@).operands.len() == node.operands().len()
            &&& forall|k: int|
                0 <= k < node.operands().len() ==> #[trigger] expression(
                    final(pool)@,
                    rid@,
                ).operands[k] == expression(old(pool)@, node.operands()[k])
        },
{
    proof {
        if is_dag(pool@) && operands_below(node, pool@.len()) {
            lemma_pushed_expression(pool@, node);
            assert forall|id: nat| id < pool@.len() implies #[trigger] expression(
                pool@.push(node),
                id,
            ) == expression(pool@, id) by {
                lemma_push_keeps_expression(pool@, node, id);
            }
        }
    }
    pool.add(node)
}

/// Marking a node in the table marks its index.
pub proof fn lemma_seen_insert(visited: Map<usize, bool>, id: usize, value: bool)
    ensures
        seen(visited.insert(id, value)) == seen(visited).insert(id as nat),
{
    assert(seen(visited.insert(id, value)) =~= seen(visited).insert(id as nat));
}

/// In a consistent graph each operand of a node exists and lies lower.
pub proof fn lemma_operand(nodes: Seq<MaterialNode>, id: nat, k: int)
    requires
        is_dag(nodes),
        id < nodes.len(),
        0 <= k < nodes[id as int].operands().len(),
    ensures
        nodes[id as int].operands()[k] < nodes.len(),
        height(nodes, nodes[id as int].operands()[k]) < height(nodes, id),
{
    assert(is_rank(nodes, dag_rank(nodes)));
}

/// Lists the node behind `self_rid` unless the table holds it already.
pub(crate) fn list_node(
    nodes: &mut Vec<ResourceId<MaterialNode>>,
    visited: &mut HashMap<usize, bool>,
    self_rid: ResourceId<MaterialNode>,
)
    ensures
        collected(final(visited)@, final(nodes)@) == listed(
            collected(old(visited)@, old(nodes)@),
            self_rid@,
        ),
{
    let id = self_rid.id();
    if !visited.contains_key(&id) {
        visited.insert(id, true);
        nodes.push(self_rid);
        proof {
            lemma_seen_insert(old(visited)@, id, true);
            assert(ids(nodes@) =~= ids(old(nodes)@).push(self_rid@));
        }
    }
}

impl MaterialNode {
    /// The operands of the node, in the order in which they are evaluated.
    pub open spec fn operands(self) -> Seq<nat> {
        match self {
            MaterialNode::Add(node) => node.operands(),
            MaterialNode::BRDF(node) => node.operands(),
            MaterialNode::ConstFloat(node) => node.operands(),
            MaterialNode::ConstVector3(node) => node.operands(),
            MaterialNode::Float(node) => node.operands(),
            MaterialNode::Multiply(node) => node.operands(),
            MaterialNode::Normal(node) => node.operands(),
            MaterialNode::NormalMatrix(node) => node.operands(),
            MaterialNode::SRGBToLinear(node) => node.operands(),
            MaterialNode::Sub(node) => node.operands(),
            MaterialNode::TangentToObjectNormal(node) => node.operands(),
            MaterialNode::Texture(node) => node.operands(),
            MaterialNode::Vector3(node) => node.operands(),
            MaterialNode::XYZ(node) => node.operands(),
            MaterialNode::Y(node) => node.operands(),
            MaterialNode::Z(node) => node.operands(),
        }
    }

    /// What the node does to its operands.
    pub open spec fn operation(self) -> Operation {
        match self {
            MaterialNode::Add(_) => Operation::Add,
            MaterialNode::BRDF(_) => Operation::BRDF,
            MaterialNode::ConstFloat(node) => Operation::ConstFloat { value: node.value() },
            MaterialNode::ConstVector3(node) => Operation::ConstVector3 { value: node.value() },
            MaterialNode::Float(node) => Operation::Input { contents: node.contents()->0 },
            MaterialNode::Multiply(_) => Operation::Multiply,
            MaterialNode::Normal(_) => Operation::Normal,
            MaterialNode::NormalMatrix(_) => Operation::NormalMatrix,
            MaterialNode::SRGBToLinear(_) => Operation::SRGBToLinear,
            MaterialNode::Sub(_) => Operation::Sub,
            MaterialNode::TangentToObjectNormal(_) => Operation::TangentToObjectNormal,
            MaterialNode::Texture(node) => Operation::Texture {
                texture: node.texture(),
                sampler: node.sampler(),
            },
            MaterialNode::Vector3(node) => Operation::Input { contents: node.contents()->0 },
            MaterialNode::XYZ(_) => Operation::XYZ,
            MaterialNode::Y(_) => Operation::Y,
            MaterialNode::Z(_) => Operation::Z,
        }
    }

    /// The name under which the node's value is at hand in the shader.
    pub open spec fn output(self, id: nat) -> Seq<char> {
        match self {
            MaterialNode::Add(node) => node.output(id),
            MaterialNode::BRDF(node) => node.output(id),
            MaterialNode::ConstFloat(node) => node.output(id),
            MaterialNode::ConstVector3(node) => node.output(id),
            MaterialNode::Float(node) => node.output(id),
            MaterialNode::Multiply(node) => node.output(id),
            MaterialNode::Normal(node) => node.output(id),
            MaterialNode::NormalMatrix(node) => node.output(id),
            MaterialNode::SRGBToLinear(node) => node.output(id),
            MaterialNode::Sub(node) => node.output(id),
            MaterialNode::TangentToObjectNormal(node) => node.output(id),
            MaterialNode::Texture(node) => node.output(id),
            MaterialNode::Vector3(node) => node.output(id),
            MaterialNode::XYZ(node) => node.output(id),
            MaterialNode::Y(node) => node.output(id),
            MaterialNode::Z(node) => node.output(id),
        }
    }

    /// The node's field in the uniform block.
    pub open spec fn declaration(self, id: nat) -> Seq<char> {
        match self {
            MaterialNode::Add(node) => node.declaration(id),
            MaterialNode::BRDF(node) => node.declaration(id),
            MaterialNode::ConstFloat(node) => node.declaration(id),
            MaterialNode::ConstVector3(node) => node.declaration(id),
            MaterialNode::Float(node) => node.declaration(id),
            MaterialNode::Multiply(node) => node.declaration(id),
            MaterialNode::Normal(node) => node.declaration(id),
            MaterialNode::NormalMatrix(node) => node.declaration(id),
            MaterialNode::SRGBToLinear(node) => node.declaration(id),
            MaterialNode::Sub(node) => node.declaration(id),
            MaterialNode::TangentToObjectNormal(node) => node.declaration(id),
            MaterialNode::Texture(node) => node.declaration(id),
            MaterialNode::Vector3(node) => node.declaration(id),
            MaterialNode::XYZ(node) => node.declaration(id),
            MaterialNode::Y(node) => node.declaration(id),
            MaterialNode::Z(node) => node.declaration(id),
        }
    }

    /// The helper routines that the node's statement calls.
    pub open spec fn functions(self, id: nat) -> Seq<char> {
        match self {
            MaterialNode::Add(node) => node.functions(id),
            MaterialNode::BRDF(node) => node.functions(id),
            MaterialNode::ConstFloat(node) => node.functions(id),
            MaterialNode::ConstVector3(node) => node.functions(id),
            MaterialNode::Float(node) => node.functions(id),
            MaterialNode::Multiply(node) => node.functions(id),
            MaterialNode::Normal(node) => node.functions(id),
            MaterialNode::NormalMatrix(node) => node.functions(id),
            MaterialNode::SRGBToLinear(node) => node.functions(id),
            MaterialNode::Sub(node) => node.functions(id),
            MaterialNode::TangentToObjectNormal(node) => node.functions(id),
            MaterialNode::Texture(node) => node.functions(id),
            MaterialNode::Vector3(node) => node.functions(id),
            MaterialNode::XYZ(node) => node.functions(id),
            MaterialNode::Y(node) => node.functions(id),
            MaterialNode::Z(node) => node.functions(id),
        }
    }

    /// What the node contributes to the uniform buffer or to the bindings.
    pub open spec fn contents(self) -> Option<UniformContents> {
        match self {
            MaterialNode::Add(node) => node.contents(),
            MaterialNode::BRDF(node) => node.contents(),
            MaterialNode::ConstFloat(node) => node.contents(),
            MaterialNode::ConstVector3(node) => node.contents(),
            MaterialNode::Float(node) => node.contents(),
            MaterialNode::Multiply(node) => node.contents(),
            MaterialNode::Normal(node) => node.contents(),
            MaterialNode::NormalMatrix(node) => node.contents(),
            MaterialNode::SRGBToLinear(node) => node.contents(),
            MaterialNode::Sub(node) => node.contents(),
            MaterialNode::TangentToObjectNormal(node) => node.contents(),
            MaterialNode::Texture(node) => node.contents(),
            MaterialNode::Vector3(node) => node.contents(),
            MaterialNode::XYZ(node) => node.contents(),
            MaterialNode::Y(node) => node.contents(),
            MaterialNode::Z(node) => node.contents(),
        }
    }

    /// Whether the node's value is computed by a statement of its own.
    pub open spec fn has_statement(self) -> bool {
        match self {
            MaterialNode::Add(node) => node.has_statement(),
            MaterialNode::BRDF(node) => node.has_statement(),
            MaterialNode::ConstFloat(node) => node.has_statement(),
            MaterialNode::ConstVector3(node) => node.has_statement(),
            MaterialNode::Float(node) => node.has_statement(),
            MaterialNode::Multiply(node) => node.has_statement(),
            MaterialNode::Normal(node) => node.has_statement(),
            MaterialNode::NormalMatrix(node) => node.has_statement(),
            MaterialNode::SRGBToLinear(node) => node.has_statement(),
            MaterialNode::Sub(node) => node.has_statement(),
            MaterialNode::TangentToObjectNormal(node) => node.has_statement(),
            MaterialNode::Texture(node) => node.has_statement(),
            MaterialNode::Vector3(node) => node.has_statement(),
            MaterialNode::XYZ(node) => node.has_statement(),
            MaterialNode::Y(node) => node.has_statement(),
            MaterialNode::Z(node) => node.has_statement(),
        }
    }

    /// The statement that computes the node's value from its operands.
    pub open spec fn statement(self, nodes: Seq<MaterialNode>, id: nat) -> Seq<char> {
        match self {
            MaterialNode::Add(node) => node.statement(nodes, id),
            MaterialNode::BRDF(node) => node.statement(nodes, id),
            MaterialNode::ConstFloat(node) => node.statement(nodes, id),
            MaterialNode::ConstVector3(node) => node.statement(nodes, id),
            MaterialNode::Float(node) => node.statement(nodes, id),
            MaterialNode::Multiply(node) => node.statement(nodes, id),
            MaterialNode::Normal(node) => node.statement(nodes, id),
            MaterialNode::NormalMatrix(node) => node.statement(nodes, id),
            MaterialNode::SRGBToLinear(node) => node.statement(nodes, id),
            MaterialNode::Sub(node) => node.statement(nodes, id),
            MaterialNode::TangentToObjectNormal(node) => node.statement(nodes, id),
            MaterialNode::Texture(node) => node.statement(nodes, id),
            MaterialNode::Vector3(node) => node.statement(nodes, id),
            MaterialNode::XYZ(node) => node.statement(nodes, id),
            MaterialNode::Y(node) => node.statement(nodes, id),
            MaterialNode::Z(node) => node.statement(nodes, id),
        }
    }

    pub fn collect_nodes(
        &self,
        pool: &ResourcePool<MaterialNode>,
        nodes: &mut Vec<ResourceId<MaterialNode>>,
        visited: &mut HashMap<usize, bool>,
        self_rid: ResourceId<MaterialNode>,
    )
        requires
            is_dag(pool@),
            self_rid@ < pool@.len(),
            pool@[self_rid@ as int] == *self,
        ensures
            collected(final(visited)@, final(nodes)@) == collect(
                pool@,
                self_rid@,
                collected(old(visited)@, old(nodes)@),
            ),
        decreases height(pool@, self_rid@), 1nat,
    {
        match self {
            MaterialNode::Add(node) => node.collect_nodes(pool, nodes, visited, self_rid),
            MaterialNode::BRDF(node) => node.collect_nodes(pool, nodes, visited, self_rid),
            MaterialNode::ConstFloat(node) => node.collect_nodes(pool, nodes, visited, self_rid),
            MaterialNode::ConstVector3(node) => node.collect_nodes(pool, nodes, visited, self_rid),
            MaterialNode::Float(node) => node.collect_nodes(pool, nodes, visited, self_rid),
            MaterialNode::Multiply(node) => node.collect_nodes(pool, nodes, visited, self_rid),
            MaterialNode::Normal(node) => node.collect_nodes(pool, nodes, visited, self_rid),
            MaterialNode::NormalMatrix(node) => node.collect_nodes(pool, nodes, visited, self_rid),
            MaterialNode::SRGBToLinear(node) => node.collect_nodes(pool, nodes, visited, self_rid),
            MaterialNode::Sub(node) => node.collect_nodes(pool, nodes, visited, self_rid),
            MaterialNode::TangentToObjectNormal(node) => node.collect_nodes(pool, nodes, visited, self_rid),
            MaterialNode::Texture(node) => node.collect_nodes(pool, nodes, visited, self_rid),
            MaterialNode::Vector3(node) => node.collect_nodes(pool, nodes, visited, self_rid),
            MaterialNode::XYZ(node) => node.collect_nodes(pool, nodes, visited, self_rid),
            MaterialNode::Y(node) => node.collect_nodes(pool, nodes, visited, self_rid),
            MaterialNode::Z(node) => node.collect_nodes(pool, nodes, visited, self_rid),
        }
    }

    pub fn borrow_contents(&self) -> (contents: Option<&UniformContents>)
        ensures
            contents is Some <==> self.contents() is Some,
            contents is Some ==> *contents->0 == self.contents()->0,
    {
        match self {
            MaterialNode::Add(node) => node.borrow_contents(),
            MaterialNode::BRDF(node) => node.borrow_contents(),
            MaterialNode::ConstFloat(node) => node.borrow_contents(),
            MaterialNode::ConstVector3(node) => node.borrow_contents(),
            MaterialNode::Float(node) => node.borrow_contents(),
            MaterialNode::Multiply(node) => node.borrow_contents(),
            MaterialNode::Normal(node) => node.borrow_contents(),
            MaterialNode::NormalMatrix(node) => node.borrow_contents(),
            MaterialNode::SRGBToLinear(node) => node.borrow_contents(),
            MaterialNode::Sub(node) => node.borrow_contents(),
            MaterialNode::TangentToObjectNormal(node) => node.borrow_contents(),
            MaterialNode::Texture(node) => node.borrow_contents(),
            MaterialNode::Vector3(node) => node.borrow_contents(),
            MaterialNode::XYZ(node) => node.borrow_contents(),
            MaterialNode::Y(node) => node.borrow_contents(),
            MaterialNode::Z(node) => node.borrow_contents(),
        }
    }

    pub fn build_declaration(&self, self_id: usize) -> (text: String)
        ensures
            text@ == self.declaration(self_id as nat),
    {
        match self {
            MaterialNode::Add(node) => node.build_declaration(self_id),
            MaterialNode::BRDF(node) => node.build_declaration(self_id),
            MaterialNode::ConstFloat(node) => node.build_declaration(self_id),
            MaterialNode::ConstVector3(node) => node.build_declaration(self_id),
            MaterialNode::Float(node) => node.build_declaration(self_id),
            MaterialNode::Multiply(node) => node.build_declaration(self_id),
            MaterialNode::Normal(node) => node.build_declaration(self_id),
            MaterialNode::NormalMatrix(node) => node.build_declaration(self_id),
            MaterialNode::SRGBToLinear(node) => node.build_declaration(self_id),
            MaterialNode::Sub(node) => node.build_declaration(self_id),
            MaterialNode::TangentToObjectNormal(node) => node.build_declaration(self_id),
            MaterialNode::Texture(node) => node.build_declaration(self_id),
            MaterialNode::Vector3(node) => node.build_declaration(self_id),
            MaterialNode::XYZ(node) => node.build_declaration(self_id),
            MaterialNode::Y(node) => node.build_declaration(self_id),
            MaterialNode::Z(node) => node.build_declaration(self_id),
        }
    }

    pub fn build_functions(&self, self_id: usize) -> (text: String)
        ensures
            text@ == self.functions(self_id as nat),
    {
        match self {
            MaterialNode::Add(node) => node.build_functions(self_id),
            MaterialNode::BRDF(node) => node.build_functions(self_id),
            MaterialNode::ConstFloat(node) => node.build_functions(self_id),
            MaterialNode::ConstVector3(node) => node.build_functions(self_id),
            MaterialNode::Float(node) => node.build_functions(self_id),
            MaterialNode::Multiply(node) => node.build_functions(self_id),
            MaterialNode::Normal(node) => node.build_functions(self_id),
            MaterialNode::NormalMatrix(node) => node.build_functions(self_id),
            MaterialNode::SRGBToLinear(node) => node.build_functions(self_id),
            MaterialNode::Sub(node) => node.build_functions(self_id),
            MaterialNode::TangentToObjectNormal(node) => node.build_functions(self_id),
            MaterialNode::Texture(node) => node.build_functions(self_id),
            MaterialNode::Vector3(node) => node.build_functions(self_id),
            MaterialNode::XYZ(node) => node.build_functions(self_id),
            MaterialNode::Y(node) => node.build_functions(self_id),
            MaterialNode::Z(node) => node.build_functions(self_id),
        }
    }

    pub fn build_fragment_shader(
        &self,
        pool: &ResourcePool<MaterialNode>,
        visited: &mut HashMap<usize, bool>,
        self_id: usize,
    ) -> (text: String)
        requires
            is_dag(pool@),
            self_id < pool@.len(),
            pool@[self_id as int] == *self,
        ensures
            (Emitted { visited: seen(final(visited)@), text: text@ }) == fragment(
                pool@,
                self_id as nat,
                seen(old(visited)@),
            ),
        decreases height(pool@, self_id as nat), 1nat,
    {
        match self {
            MaterialNode::Add(node) => node.build_fragment_shader(pool, visited, self_id),
            MaterialNode::BRDF(node) => node.build_fragment_shader(pool, visited, self_id),
            MaterialNode::ConstFloat(node) => node.build_fragment_shader(pool, visited, self_id),
            MaterialNode::ConstVector3(node) => node.build_fragment_shader(pool, visited, self_id),
            MaterialNode::Float(node) => node.build_fragment_shader(pool, visited, self_id),
            MaterialNode::Multiply(node) => node.build_fragment_shader(pool, visited, self_id),
            MaterialNode::Normal(node) => node.build_fragment_shader(pool, visited, self_id),
            MaterialNode::NormalMatrix(node) => node.build_fragment_shader(pool, visited, self_id),
            MaterialNode::SRGBToLinear(node) => node.build_fragment_shader(pool, visited, self_id),
            MaterialNode::Sub(node) => node.build_fragment_shader(pool, visited, self_id),
            MaterialNode::TangentToObjectNormal(node) => node.build_fragment_shader(pool, visited, self_id),
            MaterialNode::Texture(node) => node.build_fragment_shader(pool, visited, self_id),
            MaterialNode::Vector3(node) => node.build_fragment_shader(pool, visited, self_id),
            MaterialNode::XYZ(node) => node.build_fragment_shader(pool, visited, self_id),
            MaterialNode::Y(node) => node.build_fragment_shader(pool, visited, self_id),
            MaterialNode::Z(node) => node.build_fragment_shader(pool, visited, self_id),
        }
    }

    /// Whether every operand of the node lies below `bound`.
    pub fn has_operands_below(&self, bound: usize) -> (below: bool)
        ensures
            below == operands_below(*self, bound as nat),
    {
        match self {
            MaterialNode::Add(node) => node.has_operands_below(bound),
            MaterialNode::BRDF(node) => node.has_operands_below(bound),
            MaterialNode::ConstFloat(node) => node.has_operands_below(bound),
            MaterialNode::ConstVector3(node) => node.has_operands_below(bound),
            MaterialNode::Float(node) => node.has_operands_below(bound),
            MaterialNode::Multiply(node) => node.has_operands_below(bound),
            MaterialNode::Normal(node) => node.has_operands_below(bound),
            MaterialNode::NormalMatrix(node) => node.has_operands_below(bound),
            MaterialNode::SRGBToLinear(node) => node.has_operands_below(bound),
            MaterialNode::Sub(node) => node.has_operands_below(bound),
            MaterialNode::TangentToObjectNormal(node) => node.has_operands_below(bound),
            MaterialNode::Texture(node) => node.has_operands_below(bound),
            MaterialNode::Vector3(node) => node.has_operands_below(bound),
            MaterialNode::XYZ(node) => node.has_operands_below(bound),
            MaterialNode::Y(node) => node.has_operands_below(bound),
            MaterialNode::Z(node) => node.has_operands_below(bound),
        }
    }

    /// Whether in each node of the pool the operands lie below the node,
    /// as they do in a graph that was built node by node.
    pub fn is_ordered(pool: &ResourcePool<MaterialNode>) -> (ordered: bool)
        ensures
            ordered == is_ordered(pool@),
            ordered ==> is_dag(pool@),
    {
        let mut i: usize = 0;
        while i < pool.len()
            invariant
                0 <= i <= pool@.len(),
                forall|j: int| 0 <= j < i ==> operands_below(#[trigger] pool@[j], j as nat),
            decreases pool@.len() - i,
        {
            let rid = ResourceId::new(i);
            let node = pool.borrow(&rid).unwrap();
            if !node.has_operands_below(i) {
                return false;
            }
            i += 1;
        }
        proof {
            lemma_ordered_is_dag(pool@);
        }
        true
    }

    pub fn get_fragment_output(&self, self_id: usize) -> (text: String)
        ensures
            text@ == self.output(self_id as nat),
    {
        match self {
            MaterialNode::Add(node) => node.get_fragment_output(self_id),
            MaterialNode::BRDF(node) => node.get_fragment_output(self_id),
            MaterialNode::ConstFloat(node) => node.get_fragment_output(self_id),
            MaterialNode::ConstVector3(node) => node.get_fragment_output(self_id),
            MaterialNode::Float(node) => node.get_fragment_output(self_id),
            MaterialNode::Multiply(node) => node.get_fragment_output(self_id),
            MaterialNode::Normal(node) => node.get_fragment_output(self_id),
            MaterialNode::NormalMatrix(node) => node.get_fragment_output(self_id),
            MaterialNode::SRGBToLinear(node) => node.get_fragment_output(self_id),
            MaterialNode::Sub(node) => node.get_fragment_output(self_id),
            MaterialNode::TangentToObjectNormal(node) => node.get_fragment_output(self_id),
            MaterialNode::Texture(node) => node.get_fragment_output(self_id),
            MaterialNode::Vector3(node) => node.get_fragment_output(self_id),
            MaterialNode::XYZ(node) => node.get_fragment_output(self_id),
            MaterialNode::Y(node) => node.get_fragment_output(self_id),
            MaterialNode::Z(node) => node.get_fragment_output(self_id),
        }
    }
}

} // verus!
