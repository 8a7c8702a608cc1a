use crate::math::matrix4::IDENTITY;
use crate::math::scalar::Scalar;
use crate::scene::hierarchy::ancestor;
use crate::scene::hierarchy::in_subtree;
use crate::scene::hierarchy::is_forest;
use crate::scene::hierarchy::parent_of;
use crate::scene::node::refreshed;
use crate::scene::node::subtree_refreshed;
use crate::scene::node::Node;
use crate::scene::node::NodeView;
use crate::scene::validation::lemma_ancestor_is_node;
use vstd::prelude::*;

verus! {

/// The matrix that takes the space of a node to the space of its parent,
/// as `quaternion` and `compose` derive it from position, rotation and
/// scale.
pub open spec fn local_matrix(
    node: NodeView,
    quaternion: spec_fn([Scalar; 3]) -> [Scalar; 4],
    compose: spec_fn([Scalar; 3], [Scalar; 4], [Scalar; 3]) -> [Scalar; 16],
) -> [Scalar; 16] {
    compose(node.position, quaternion(node.rotation), node.scale)
}

/// The matrix that takes the space of the node at `x` to the space of the
/// scene, where the node `steps` above it has no parent: the product, from
/// that node down to `x`, of the local matrices on the way.
pub open spec fn world_matrix(
    nodes: Seq<Node>,
    x: nat,
    steps: nat,
    quaternion: spec_fn([Scalar; 3]) -> [Scalar; 4],
    compose: spec_fn([Scalar; 3], [Scalar; 4], [Scalar; 3]) -> [Scalar; 16],
    multiply: spec_fn([Scalar; 16], [Scalar; 16]) -> [Scalar; 16],
) -> [Scalar; 16]
    decreases steps,
{
    if steps == 0 {
        multiply(IDENTITY, local_matrix(nodes[x as int]@, quaternion, compose))
    } else {
        multiply(
            world_matrix(
                nodes,
                parent_of(nodes, x)->0,
                (steps - 1) as nat,
                quaternion,
                compose,
                multiply,
            ),
            local_matrix(nodes[x as int]@, quaternion, compose),
        )
    }
}

/// What the three kernels give is what the three functions say.
pub open spec fn kernels_compute<Q, C, M>(
    quaternion_from_euler: &Q,
    compose: &C,
    multiply: &M,
    quaternion_of: spec_fn([Scalar; 3]) -> [Scalar; 4],
    composed: spec_fn([Scalar; 3], [Scalar; 4], [Scalar; 3]) -> [Scalar; 16],
    product: spec_fn([Scalar; 16], [Scalar; 16]) -> [Scalar; 16],
) -> bool where
    Q: Fn([Scalar; 3]) -> [Scalar; 4],
    C: Fn([Scalar; 3], [Scalar; 4], [Scalar; 3]) -> [Scalar; 16],
    M: Fn([Scalar; 16], [Scalar; 16]) -> [Scalar; 16],
 {
    &&& forall|rotation: [Scalar; 3], quaternion: [Scalar; 4]| #[trigger]
        quaternion_from_euler.ensures((rotation,), quaternion) ==> quaternion == quaternion_of(
            rotation,
        )
    &&& forall|
        position: [Scalar; 3],
        quaternion: [Scalar; 4],
        scale: [Scalar; 3],
        matrix: [Scalar; 16],
    | #[trigger]
        compose.ensures((position, quaternion, scale), matrix) ==> matrix == composed(
            position,
            quaternion,
            scale,
        )
    &&& forall|above: [Scalar; 16], local: [Scalar; 16], world: [Scalar; 16]| #[trigger]
        multiply.ensures((above, local), world) ==> world == product(above, local)
}

/// One update of the subtree of a node without parent reaches every
/// descendant: afterwards the world matrix of each node of the subtree is
/// the product of the local matrices from the root down to it, each
/// derived from the position, rotation and scale that its node had when the
/// update began. So a change of the transform of any ancestor shows in the
/// world matrix of a node after the next update.
pub proof fn lemma_update_reaches_descendants<Q, C, M>(
    before: Seq<Node>,
    after: Seq<Node>,
    root: nat,
    x: nat,
    steps: nat,
    quaternion_from_euler: &Q,
    compose: &C,
    multiply: &M,
    quaternion_of: spec_fn([Scalar; 3]) -> [Scalar; 4],
    composed: spec_fn([Scalar; 3], [Scalar; 4], [Scalar; 3]) -> [Scalar; 16],
    product: spec_fn([Scalar; 16], [Scalar; 16]) -> [Scalar; 16],
) where
    Q: Fn([Scalar; 3]) -> [Scalar; 4],
    C: Fn([Scalar; 3], [Scalar; 4], [Scalar; 3]) -> [Scalar; 16],
    M: Fn([Scalar; 16], [Scalar; 16]) -> [Scalar; 16],

    requires
        is_forest(before),
        parent_of(before, root) is None,
        ancestor(before, x, steps) == Some(root),
        subtree_refreshed(before, after, root, true, quaternion_from_euler, compose, multiply),
        kernels_compute(
            quaternion_from_euler,
            compose,
            multiply,
            quaternion_of,
            composed,
            product,
        ),
    ensures
        after[x as int]@.matrix == local_matrix(before[x as int]@, quaternion_of, composed),
        after[x as int]@.world_matrix == world_matrix(
            before,
            x,
            steps,
            quaternion_of,
            composed,
            product,
        ),
    decreases steps,
{
    lemma_ancestor_is_node(before, x, steps);
    assert(in_subtree(before, root, x));
    assert(refreshed(before, after, x, true, quaternion_from_euler, compose, multiply));
    if steps > 0 {
        lemma_update_reaches_descendants(
            before,
            after,
            root,
            parent_of(before, x)->0,
            (steps - 1) as nat,
            quaternion_from_euler,
            compose,
            multiply,
            quaternion_of,
            composed,
            product,
        );
    } else {
        assert(x == root);
    }
}

/// A chain of three: where a node `a` hangs below a root without parent
/// and a node `b` below `a`, one update of the subtree of the root leaves
/// the world matrix of `a` the product of the local matrices of the root
/// and of `a`, and that of `b` the product of the local matrices of the
/// root, of `a` and of `b`.
pub proof fn lemma_chain_of_three<Q, C, M>(
    before: Seq<Node>,
    after: Seq<Node>,
    root: nat,
    a: nat,
    b: nat,
    quaternion_from_euler: &Q,
    compose: &C,
    multiply: &M,
    quaternion_of: spec_fn([Scalar; 3]) -> [Scalar; 4],
    composed: spec_fn([Scalar; 3], [Scalar; 4], [Scalar; 3]) -> [Scalar; 16],
    product: spec_fn([Scalar; 16], [Scalar; 16]) -> [Scalar; 16],
) where
    Q: Fn([Scalar; 3]) -> [Scalar; 4],
    C: Fn([Scalar; 3], [Scalar; 4], [Scalar; 3]) -> [Scalar; 16],
    M: Fn([Scalar; 16], [Scalar; 16]) -> [Scalar; 16],

    requires
        is_forest(before),
        root < before.len(),
        a < before.len(),
        b < before.len(),
        parent_of(before, root) is None,
        parent_of(before, a) == Some(root),
        parent_of(before, b) == Some(a),
        subtree_refreshed(before, after, root, true, quaternion_from_euler, compose, multiply),
        kernels_compute(
            quaternion_from_euler,
            compose,
            multiply,
            quaternion_of,
            composed,
            product,
        ),
    ensures
        after[a as int]@.world_matrix == product(
            product(IDENTITY, local_matrix(before[root as int]@, quaternion_of, composed)),
            local_matrix(before[a as int]@, quaternion_of, composed),
        ),
        after[b as int]@.world_matrix == product(
            product(
                product(IDENTITY, local_matrix(before[root as int]@, quaternion_of, composed)),
                local_matrix(before[a as int]@, quaternion_of, composed),
            ),
            local_matrix(before[b as int]@, quaternion_of, composed),
        ),
{
    assert(ancestor(before, root, 0) == Some(root));
    assert(ancestor(before, a, 1) == Some(root));
    assert(ancestor(before, b, 2) == Some(root));
    lemma_update_reaches_descendants(
        before,
        after,
        root,
        a,
        1,
        quaternion_from_euler,
        compose,
        multiply,
        quaternion_of,
        composed,
        product,
    );
    lemma_update_reaches_descendants(
        before,
        after,
        root,
        b,
        2,
        quaternion_from_euler,
        compose,
        multiply,
        quaternion_of,
        composed,
        product,
    );
    reveal_with_fuel(world_matrix, 3);
}

} // verus!
