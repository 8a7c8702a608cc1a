use crate::math::euler::Euler;
use crate::math::matrix4::IDENTITY;
use crate::math::matrix4::Matrix4;
use crate::math::quaternion::Quaternion;
use crate::math::scalar::ONE;
use crate::math::scalar::Scalar;
use crate::math::scalar::ZERO;
use crate::math::vector3::Vector3;
use crate::resource::resource::ResourceId;
use crate::resource::resource::ResourcePool;
use crate::scene::hierarchy::ancestor;
use crate::scene::hierarchy::apart;
use crate::scene::hierarchy::attached;
use crate::scene::hierarchy::below_any;
use crate::scene::hierarchy::can_attach;
use crate::scene::hierarchy::children_of;
use crate::scene::hierarchy::forest_rank;
use crate::scene::hierarchy::in_subtree;
use crate::scene::hierarchy::is_forest;
use crate::scene::hierarchy::is_rank;
use crate::scene::hierarchy::lemma_ancestor_add;
use crate::scene::hierarchy::lemma_attach_keeps_forest;
use crate::scene::hierarchy::lemma_done_bounded;
use crate::scene::hierarchy::lemma_parent_differs;
use crate::scene::hierarchy::lemma_parent_outside;
use crate::scene::hierarchy::lemma_same_hierarchy;
use crate::scene::hierarchy::lemma_subtree_child;
use crate::scene::hierarchy::lemma_subtrees_nest;
use crate::scene::hierarchy::lemma_walk_end;
use crate::scene::hierarchy::lemma_walk_start;
use crate::scene::hierarchy::lemma_walk_step;
use crate::scene::hierarchy::listing;
use crate::scene::hierarchy::met_below;
use crate::scene::hierarchy::parent_of;
use crate::scene::hierarchy::same_hierarchy;
use crate::scene::hierarchy::walk;
use crate::scene::hierarchy::links_agree;
use crate::scene::hierarchy::walking;
use crate::scene::validation::lemma_links_agree;
use crate::scene::validation::lemma_rooted_is_forest;
use crate::scene::validation::lemma_unrooted_is_no_forest;
use crate::scene::validation::node_links_agree;
use crate::scene::validation::root_after;
use crate::scene::validation::rooted;
use vstd::prelude::*;

verus! {

/// An element of a scene graph: its place in the hierarchy, its transform
/// relative to its parent, and the matrices derived from it.
pub struct Node {
    children: Vec<ResourceId<Node>>,
    matrix: [Scalar; 16],
    parent: Option<ResourceId<Node>>,
    position: [Scalar; 3],
    quaternion: [Scalar; 4],
    rotation: [Scalar; 3],
    scale: [Scalar; 3],
    world_matrix: [Scalar; 16],
}

/// What a [`Node`] holds.
pub struct NodeView {
    /// The indices of the children, in the order in which they were attached.
    pub children: Seq<nat>,
    /// The index of the parent, if there is one.
    pub parent: Option<nat>,
    pub position: [Scalar; 3],
    /// The rotation as Euler angles.
    pub rotation: [Scalar; 3],
    pub scale: [Scalar; 3],
    /// The rotation as a quaternion, derived from the Euler angles.
    pub quaternion: [Scalar; 4],
    /// The matrix that takes the node's space to its parent's space.
    pub matrix: [Scalar; 16],
    /// The matrix that takes the node's space to the space of the scene.
    pub world_matrix: [Scalar; 16],
}

impl View for Node {
    type V = NodeView;

    closed spec fn view(&self) -> NodeView {
        NodeView {
            children: Seq::new(self.children@.len(), |i: int| self.children@[i]@),
            parent: match self.parent {
                Some(parent) => Some(parent@),
                None => None,
            },
            position: self.position,
            rotation: self.rotation,
            scale: self.scale,
            quaternion: self.quaternion,
            matrix: self.matrix,
            world_matrix: self.world_matrix,
        }
    }
}

impl Node {
    /// A node without parent or children, at the origin, unrotated and
    /// unscaled.
    pub fn new() -> (node: Self)
        ensures
            node@ == (NodeView {
                children: Seq::empty(),
                parent: None,
                position: [ZERO, ZERO, ZERO],
                rotation: [ZERO, ZERO, ZERO],
                scale: [ONE, ONE, ONE],
                quaternion: [ZERO, ZERO, ZERO, ONE],
                matrix: IDENTITY,
                world_matrix: IDENTITY,
            }),
    {
        let mut scale = Vector3::create();
        Vector3::set(&mut scale, ONE, ONE, ONE);
        let node = Node {
            children: Vec::new(),
            matrix: Matrix4::create(),
            parent: None,
            position: Vector3::create(),
            quaternion: Quaternion::create(),
            rotation: Euler::create(),
            scale,
            world_matrix: Matrix4::create(),
        };
        assert(node@.children =~= Seq::empty());
        node
    }

    pub fn borrow_parent(&self) -> (parent: Option<&ResourceId<Node>>)
        ensures
            parent is Some <==> self@.parent is Some,
            parent is Some ==> parent->0@ == self@.parent->0,
    {
        self.parent.as_ref()
    }

    pub fn borrow_children(&self) -> (children: &Vec<ResourceId<Node>>)
        ensures
            children@.len() == self@.children.len(),
            forall|i: int| 0 <= i < children@.len() ==> (#[trigger] children@[i])@ == self@.children[i],
    {
        &self.children
    }

    pub fn borrow_position(&self) -> (position: &[Scalar; 3])
        ensures
            *position == self@.position,
    {
        &self.position
    }

    pub fn borrow_position_mut(&mut self) -> (position: &mut [Scalar; 3])
        ensures
            *position == old(self)@.position,
            final(self)@ == (NodeView { position: *final(position), ..old(self)@ }),
    {
        &mut self.position
    }

    pub fn borrow_rotation(&self) -> (rotation: &[Scalar; 3])
        ensures
            *rotation == self@.rotation,
    {
        &self.rotation
    }

    pub fn borrow_rotation_mut(&mut self) -> (rotation: &mut [Scalar; 3])
        ensures
            *rotation == old(self)@.rotation,
            final(self)@ == (NodeView { rotation: *final(rotation), ..old(self)@ }),
    {
        &mut self.rotation
    }

    pub fn borrow_scale(&self) -> (scale: &[Scalar; 3])
        ensures
            *scale == self@.scale,
    {
        &self.scale
    }

    pub fn borrow_scale_mut(&mut self) -> (scale: &mut [Scalar; 3])
        ensures
            *scale == old(self)@.scale,
            final(self)@ == (NodeView { scale: *final(scale), ..old(self)@ }),
    {
        &mut self.scale
    }

    pub fn borrow_matrix(&self) -> (matrix: &[Scalar; 16])
        ensures
            *matrix == self@.matrix,
    {
        &self.matrix
    }

    pub fn borrow_world_matrix(&self) -> (world_matrix: &[Scalar; 16])
        ensures
            *world_matrix == self@.world_matrix,
    {
        &self.world_matrix
    }

    /// Sets the matrix that takes the node's space to its parent's, and
    /// derives position, rotation and scale from it: `decompose` takes the
    /// matrix apart, `euler_from_quaternion` turns the rotation into angles.
    pub fn set_matrix<D, E>(
        &mut self,
        matrix: &[Scalar; 16],
        decompose: &D,
        euler_from_quaternion: &E,
    ) -> (node: &mut Self) where
        D: Fn([Scalar; 16]) -> ([Scalar; 3], [Scalar; 4], [Scalar; 3]),
        E: Fn([Scalar; 4]) -> [Scalar; 3],

        requires
            forall|matrix: [Scalar; 16]| decompose.requires((matrix,)),
            forall|quaternion: [Scalar; 4]| euler_from_quaternion.requires((quaternion,)),
        ensures
            decompose.ensures((*matrix,), (node@.position, node@.quaternion, node@.scale)),
            euler_from_quaternion.ensures((node@.quaternion,), node@.rotation),
            node@.matrix == *matrix,
            node@.children == old(self)@.children,
            node@.parent == old(self)@.parent,
            node@.world_matrix == old(self)@.world_matrix,
            *final(self) == *final(node),
    {
        self.matrix = *matrix;
        let (position, quaternion, scale) = decompose(self.matrix);
        self.position = position;
        self.quaternion = quaternion;
        self.scale = scale;
        self.rotation = euler_from_quaternion(self.quaternion);
        self
    }

    pub fn set_world_matrix(&mut self, matrix: &[Scalar; 16]) -> (node: &mut Self)
        ensures
            node@ == (NodeView { world_matrix: *matrix, ..old(self)@ }),
            *final(self) == *final(node),
    {
        self.world_matrix = *matrix;
        self
    }

    /// Derives the quaternion from the Euler angles, and the local matrix
    /// from position, quaternion and scale: `quaternion_from_euler` and
    /// `compose` do the arithmetic.
    pub fn update_matrix<Q, C>(&mut self, quaternion_from_euler: &Q, compose: &C) -> (node: &mut Self) where
        Q: Fn([Scalar; 3]) -> [Scalar; 4],
        C: Fn([Scalar; 3], [Scalar; 4], [Scalar; 3]) -> [Scalar; 16],

        requires
            forall|rotation: [Scalar; 3]| quaternion_from_euler.requires((rotation,)),
            forall|position: [Scalar; 3], quaternion: [Scalar; 4], scale: [Scalar; 3]|
                compose.requires((position, quaternion, scale)),
        ensures
            local_updated(old(self)@, node@, quaternion_from_euler, compose),
            *final(self) == *final(node),
    {
        self.quaternion = quaternion_from_euler(self.rotation);
        self.matrix = compose(self.position, self.quaternion, self.scale);
        self
    }

    /// Derives anew the matrices of this node, which is not held by
    /// `pool`, and the world matrices of the subtrees of its children, which
    /// are. The node's world matrix is the product of its parent's world
    /// matrix and its local matrix, or its local matrix where it has no
    /// parent. The children are taken last to first; the arithmetic is the
    /// caller's.
    pub fn update_matrices<Q, C, M>(
        &mut self,
        pool: &mut ResourcePool<Node>,
        quaternion_from_euler: &Q,
        compose: &C,
        multiply: &M,
    ) where
        Q: Fn([Scalar; 3]) -> [Scalar; 4],
        C: Fn([Scalar; 3], [Scalar; 4], [Scalar; 3]) -> [Scalar; 16],
        M: Fn([Scalar; 16], [Scalar; 16]) -> [Scalar; 16],

        requires
            is_forest(old(pool)@),
            old(self)@.parent is Some ==> old(self)@.parent->0 < old(pool)@.len(),
            forall|k: int|
                0 <= k < old(self)@.children.len() ==> {
                    &&& (#[trigger] old(self)@.children[k]) < old(pool)@.len()
                    &&& parent_of(old(pool)@, old(self)@.children[k]) is Some
                },
            apart(old(pool)@, old(self)@.children),
            forall|rotation: [Scalar; 3]| quaternion_from_euler.requires((rotation,)),
            forall|position: [Scalar; 3], quaternion: [Scalar; 4], scale: [Scalar; 3]|
                compose.requires((position, quaternion, scale)),
            forall|above: [Scalar; 16], local: [Scalar; 16]| multiply.requires((above, local)),
        ensures
            local_updated(
                old(self)@,
                (NodeView { world_matrix: old(self)@.world_matrix, ..final(self)@ }),
                quaternion_from_euler,
                compose,
            ),
            match old(self)@.parent {
                Some(parent) => multiply.ensures(
                    (old(pool)@[parent as int]@.world_matrix, final(self)@.matrix),
                    final(self)@.world_matrix,
                ),
                None => final(self)@.world_matrix == final(self)@.matrix,
            },
            subtrees_refreshed(
                old(pool)@,
                final(pool)@,
                old(self)@.children,
                0,
                quaternion_from_euler,
                compose,
                multiply,
            ),
            same_hierarchy(old(pool)@, final(pool)@),
            is_forest(final(pool)@),
    {
        let ghost before = pool@;
        let ghost roots = self@.children;
        self.update_matrix(quaternion_from_euler, compose);
        match self.parent {
            Some(parent) => {
                let above = *pool.borrow(&parent).unwrap().borrow_world_matrix();
                self.world_matrix = multiply(above, self.matrix);
            },
            None => {
                self.world_matrix = self.matrix;
            },
        }
        let mut k: usize = self.children.len();
        proof {
            assert(same_hierarchy(before, pool@));
        }
        while k > 0
            invariant
                0 <= k <= roots.len(),
                roots == self@.children,
                roots.len() == self.children@.len(),
                forall|i: int| 0 <= i < roots.len() ==> (#[trigger] self.children@[i])@ == roots[i],
                is_forest(before),
                is_forest(pool@),
                same_hierarchy(before, pool@),
                apart(before, roots),
                forall|i: int|
                    0 <= i < roots.len() ==> {
                        &&& (#[trigger] roots[i]) < before.len()
                        &&& parent_of(before, roots[i]) is Some
                    },
                subtrees_refreshed(
                    before,
                    pool@,
                    roots,
                    k as int,
                    quaternion_from_euler,
                    compose,
                    multiply,
                ),
                forall|rotation: [Scalar; 3]| quaternion_from_euler.requires((rotation,)),
                forall|position: [Scalar; 3], quaternion: [Scalar; 4], scale: [Scalar; 3]|
                    compose.requires((position, quaternion, scale)),
                forall|above: [Scalar; 16], local: [Scalar; 16]| multiply.requires((above, local)),
            decreases k,
        {
            k -= 1;
            let ghost now = pool@;
            let ghost root = roots[k as int];
            NodeExecutor::refresh_subtree(
                pool,
                &self.children[k],
                false,
                quaternion_from_euler,
                compose,
                multiply,
            );
            let ghost next = pool@;
            proof {
                lemma_same_hierarchy(before, now);
                assert(same_hierarchy(before, next)) by {
                    assert forall|i: nat| i < before.len() implies #[trigger] children_of(
                        before,
                        i,
                    ) == children_of(next, i) && parent_of(before, i) == parent_of(next, i) by {
                        assert(children_of(before, i) == children_of(now, i));
                        assert(children_of(now, i) == children_of(next, i));
                    }
                }
                assert forall|x: nat| x < before.len() implies (below_any(
                    before,
                    roots,
                    k as int,
                    x,
                ) ==> refreshed(
                    before,
                    next,
                    x,
                    false,
                    quaternion_from_euler,
                    compose,
                    multiply,
                )) && (!below_any(before, roots, k as int, x) ==> next[x as int]
                    == before[x as int]) by {
                    assert(in_subtree(now, root, x) == in_subtree(before, root, x));
                    assert(children_of(before, x) == children_of(now, x));
                    if in_subtree(before, root, x) {
                        assert(below_any(before, roots, k as int, x));
                        assert(!below_any(before, roots, k + 1, x)) by {
                            if below_any(before, roots, k + 1, x) {
                                let j = choose|j: int|
                                    k + 1 <= j < roots.len() && #[trigger] in_subtree(
                                        before,
                                        roots[j],
                                        x,
                                    );
                                lemma_subtrees_nest(before, roots[j], root, x);
                            }
                        }
                        assert(now[x as int] == before[x as int]);
                        assert(refreshed(
                            now,
                            next,
                            x,
                            false,
                            quaternion_from_euler,
                            compose,
                            multiply,
                        ));
                    } else {
                        assert(next[x as int] == now[x as int]);
                        if below_any(before, roots, k as int, x) {
                            let j = choose|j: int|
                                k <= j < roots.len() && #[trigger] in_subtree(before, roots[j], x);
                            assert(j != k);
                            assert(below_any(before, roots, k + 1, x));
                            assert(refreshed(
                                before,
                                now,
                                x,
                                false,
                                quaternion_from_euler,
                                compose,
                                multiply,
                            ));
                            if parent_of(before, x) is Some {
                                let above = parent_of(before, x)->0;
                                assert(is_rank(before, forest_rank(before)));
                                assert(in_subtree(now, root, above) == in_subtree(
                                    before,
                                    root,
                                    above,
                                ));
                                if in_subtree(before, root, above) {
                                    lemma_subtree_child(before, root, x);
                                }
                                assert(next[above as int] == now[above as int]);
                            }
                        } else {
                            assert(!below_any(before, roots, k + 1, x));
                        }
                    }
                }
            }
        }
    }

    fn push_child(&mut self, child: ResourceId<Node>)
        ensures
            final(self)@ == (NodeView {
                children: old(self)@.children.push(child@),
                ..old(self)@
            }),
    {
        self.children.push(child);
        assert(self@.children =~= old(self)@.children.push(child@));
    }

    fn set_parent(&mut self, parent: ResourceId<Node>)
        ensures
            final(self)@ == (NodeView { parent: Some(parent@), ..old(self)@ }),
    {
        self.parent = Some(parent);
    }
}

/// `after` is `before` with quaternion and local matrix derived anew.
pub open spec fn local_updated<Q, C>(
    before: NodeView,
    after: NodeView,
    quaternion_from_euler: &Q,
    compose: &C,
) -> bool where
    Q: Fn([Scalar; 3]) -> [Scalar; 4],
    C: Fn([Scalar; 3], [Scalar; 4], [Scalar; 3]) -> [Scalar; 16],
 {
    &&& quaternion_from_euler.ensures((before.rotation,), after.quaternion)
    &&& compose.ensures((before.position, after.quaternion, before.scale), after.matrix)
    &&& after == (NodeView { quaternion: after.quaternion, matrix: after.matrix, ..before })
}

/// The world matrix above the node at `x`: that of its parent in `after`,
/// or the identity where it has none.
pub open spec fn world_above(before: Seq<Node>, after: Seq<Node>, x: nat) -> [Scalar; 16] {
    match parent_of(before, x) {
        Some(parent) => after[parent as int]@.world_matrix,
        None => IDENTITY,
    }
}

/// In `after`, the node at `x` has its world matrix derived anew: the
/// product of the world matrix above it and its local matrix. With
/// `recompute`, quaternion and local matrix were derived anew first.
/// Nothing else of the node differs from `before`.
pub open spec fn refreshed<Q, C, M>(
    before: Seq<Node>,
    after: Seq<Node>,
    x: nat,
    recompute: bool,
    quaternion_from_euler: &Q,
    compose: &C,
    multiply: &M,
) -> bool where
    Q: Fn([Scalar; 3]) -> [Scalar; 4],
    C: Fn([Scalar; 3], [Scalar; 4], [Scalar; 3]) -> [Scalar; 16],
    M: Fn([Scalar; 16], [Scalar; 16]) -> [Scalar; 16],
 {
    let old = before[x as int]@;
    let new = after[x as int]@;
    &&& recompute ==> quaternion_from_euler.ensures((old.rotation,), new.quaternion)
    &&& recompute ==> compose.ensures((old.position, new.quaternion, old.scale), new.matrix)
    &&& !recompute ==> new.quaternion == old.quaternion && new.matrix == old.matrix
    &&& multiply.ensures((world_above(before, after, x), new.matrix), new.world_matrix)
    &&& new == (NodeView {
        quaternion: new.quaternion,
        matrix: new.matrix,
        world_matrix: new.world_matrix,
        ..old
    })
}

/// `after` is `before` with the subtree of `root` refreshed, parents
/// before children, and nothing else touched.
pub open spec fn subtree_refreshed<Q, C, M>(
    before: Seq<Node>,
    after: Seq<Node>,
    root: nat,
    recompute: bool,
    quaternion_from_euler: &Q,
    compose: &C,
    multiply: &M,
) -> bool where
    Q: Fn([Scalar; 3]) -> [Scalar; 4],
    C: Fn([Scalar; 3], [Scalar; 4], [Scalar; 3]) -> [Scalar; 16],
    M: Fn([Scalar; 16], [Scalar; 16]) -> [Scalar; 16],
 {
    &&& after.len() == before.len()
    &&& forall|x: nat|
        x < before.len() && #[trigger] in_subtree(before, root, x) ==> refreshed(
            before,
            after,
            x,
            recompute,
            quaternion_from_euler,
            compose,
            multiply,
        )
    &&& forall|x: nat|
        x < before.len() && !in_subtree(before, root, x) ==> #[trigger] after[x as int]
            == before[x as int]
}

/// `after` is `before` with the world matrices of the subtrees of `roots`,
/// from position `from` on, derived anew, and nothing else touched.
pub open spec fn subtrees_refreshed<Q, C, M>(
    before: Seq<Node>,
    after: Seq<Node>,
    roots: Seq<nat>,
    from: int,
    quaternion_from_euler: &Q,
    compose: &C,
    multiply: &M,
) -> bool where
    Q: Fn([Scalar; 3]) -> [Scalar; 4],
    C: Fn([Scalar; 3], [Scalar; 4], [Scalar; 3]) -> [Scalar; 16],
    M: Fn([Scalar; 16], [Scalar; 16]) -> [Scalar; 16],
 {
    &&& after.len() == before.len()
    &&& forall|x: nat|
        x < before.len() && #[trigger] below_any(before, roots, from, x) ==> refreshed(
            before,
            after,
            x,
            false,
            quaternion_from_euler,
            compose,
            multiply,
        )
    &&& forall|x: nat|
        x < before.len() && !below_any(before, roots, from, x) ==> #[trigger] after[x as int]
            == before[x as int]
}

/// What holds while the subtree of `root` is refreshed: the hierarchy is
/// as it was, the nodes that are done are refreshed, and the others are
/// untouched.
pub open spec fn refreshing<Q, C, M>(
    before: Seq<Node>,
    now: Seq<Node>,
    done: Set<nat>,
    recompute: bool,
    quaternion_from_euler: &Q,
    compose: &C,
    multiply: &M,
) -> bool where
    Q: Fn([Scalar; 3]) -> [Scalar; 4],
    C: Fn([Scalar; 3], [Scalar; 4], [Scalar; 3]) -> [Scalar; 16],
    M: Fn([Scalar; 16], [Scalar; 16]) -> [Scalar; 16],
 {
    &&& now.len() == before.len()
    &&& forall|x: nat|
        #[trigger] done.contains(x) ==> refreshed(
            before,
            now,
            x,
            recompute,
            quaternion_from_euler,
            compose,
            multiply,
        )
    &&& forall|x: nat|
        x < before.len() && !done.contains(x) ==> #[trigger] now[x as int] == before[x as int]
}

/// The indices that a list of handles stands for.
pub open spec fn handle_ids(handles: Seq<ResourceId<Node>>) -> Seq<nat> {
    Seq::new(handles.len(), |i: int| handles[i]@)
}

/// The operations on the hierarchy of the nodes of a pool.
pub struct NodeExecutor {}

impl NodeExecutor {
    /// Attaches `child` as the last child of `parent`, if both exist, the
    /// child has no parent yet, and the parent is neither the child nor one
    /// of its descendants. Says whether it did.
    pub fn add_child(
        pool: &mut ResourcePool<Node>,
        parent: &ResourceId<Node>,
        child: &ResourceId<Node>,
    ) -> (done: bool)
        requires
            is_forest(old(pool)@),
        ensures
            done == can_attach(old(pool)@, parent@, child@),
            done ==> attached(old(pool)@, final(pool)@, parent@, child@),
            !done ==> final(pool)@ == old(pool)@,
            is_forest(final(pool)@),
    {
        let ghost nodes = pool@;
        if parent.id() >= pool.len() || child.id() >= pool.len() {
            return false;
        }
        if pool.borrow(child).unwrap().borrow_parent().is_some() {
            return false;
        }
        let mut current = *parent;
        let ghost mut steps: nat = 0;
        proof {
            assert(is_rank(nodes, forest_rank(nodes)));
        }
        loop
            invariant
                nodes == pool@,
                is_forest(nodes),
                is_rank(nodes, forest_rank(nodes)),
                current@ < nodes.len(),
                ancestor(nodes, parent@, steps) == Some(current@),
                forall|t: nat| t < steps ==> ancestor(nodes, parent@, t) != Some(child@),
            ensures
                parent_of(nodes, current@) is None,
                current@ != child@,
            decreases forest_rank(nodes)[current@ as int],
        {
            if current.id() == child.id() {
                assert(in_subtree(nodes, child@, parent@));
                return false;
            }
            match pool.borrow(&current).unwrap().borrow_parent() {
                Some(above) => {
                    proof {
                        lemma_ancestor_add(nodes, parent@, steps, 1);
                        assert(ancestor(nodes, current@, 1) == ancestor(nodes, above@, 0));
                        assert(parent_of(nodes, current@) == Some(above@));
                        steps = steps + 1;
                    }
                    current = *above;
                },
                None => {
                    break ;
                },
            }
        }
        proof {
            assert forall|t: nat| ancestor(nodes, parent@, t) != Some(child@) by {
                if t >= steps {
                    lemma_ancestor_add(nodes, parent@, steps, (t - steps) as nat);
                    if t > steps {
                        assert(ancestor(nodes, current@, (t - steps) as nat) is None);
                    }
                }
            }
            assert(!in_subtree(nodes, child@, parent@));
        }
        match pool.borrow_mut(parent) {
            Some(node) => {
                node.push_child(*child);
            },
            None => {},
        }
        match pool.borrow_mut(child) {
            Some(node) => {
                node.set_parent(*parent);
            },
            None => {},
        }
        proof {
            lemma_attach_keeps_forest(nodes, pool@, parent@, child@);
        }
        true
    }

    /// Refreshes the subtree of `root`, parents before children. The
    /// arithmetic is the caller's: `quaternion_from_euler`, `compose` and
    /// `multiply`.
    fn refresh_subtree<Q, C, M>(
        pool: &mut ResourcePool<Node>,
        root: &ResourceId<Node>,
        recompute: bool,
        quaternion_from_euler: &Q,
        compose: &C,
        multiply: &M,
    ) where
        Q: Fn([Scalar; 3]) -> [Scalar; 4],
        C: Fn([Scalar; 3], [Scalar; 4], [Scalar; 3]) -> [Scalar; 16],
        M: Fn([Scalar; 16], [Scalar; 16]) -> [Scalar; 16],

        requires
            is_forest(old(pool)@),
            root@ < old(pool)@.len(),
            forall|rotation: [Scalar; 3]| quaternion_from_euler.requires((rotation,)),
            forall|position: [Scalar; 3], quaternion: [Scalar; 4], scale: [Scalar; 3]|
                compose.requires((position, quaternion, scale)),
            forall|above: [Scalar; 16], local: [Scalar; 16]| multiply.requires((above, local)),
        ensures
            subtree_refreshed(
                old(pool)@,
                final(pool)@,
                root@,
                recompute,
                quaternion_from_euler,
                compose,
                multiply,
            ),
            same_hierarchy(old(pool)@, final(pool)@),
            is_forest(final(pool)@),
    {
        let ghost before = pool@;
        let mut stack: Vec<ResourceId<Node>> = Vec::new();
        stack.push(*root);
        let ghost mut done: Set<nat> = Set::empty();
        proof {
            lemma_walk_start(before, root@);
            assert(handle_ids(stack@) =~= seq![root@]);
        }
        while stack.len() > 0
            invariant
                is_forest(before),
                walking(before, root@, handle_ids(stack@), done),
                refreshing(
                    before,
                    pool@,
                    done,
                    recompute,
                    quaternion_from_euler,
                    compose,
                    multiply,
                ),
                done.finite(),
                done.len() <= before.len(),
                forall|rotation: [Scalar; 3]| quaternion_from_euler.requires((rotation,)),
                forall|position: [Scalar; 3], quaternion: [Scalar; 4], scale: [Scalar; 3]|
                    compose.requires((position, quaternion, scale)),
                forall|above: [Scalar; 16], local: [Scalar; 16]| multiply.requires((above, local)),
            decreases before.len() - done.len(),
        {
            let ghost stack_before = handle_ids(stack@);
            let ghost now = pool@;
            proof {
                lemma_done_bounded(before, root@, stack_before, done);
                lemma_walk_step(before, root@, stack_before, done);
            }
            let rid = stack.pop().unwrap();
            let ghost x = rid@;
            proof {
                assert(x == stack_before.last());
                assert(stack_before[stack_before.len() - 1] == x);
                assert(stack_before.contains(x));
                assert(handle_ids(stack@) =~= stack_before.drop_last());
                assert(!done.contains(x));
                assert(now[x as int] == before[x as int]);
                assert(met_below(before, root@, done, x));
            }
            let mut parent: Option<ResourceId<Node>> = None;
            let mut local: [Scalar; 16] = IDENTITY;
            match pool.borrow_mut(&rid) {
                Some(node) => {
                    if recompute {
                        node.update_matrix(quaternion_from_euler, compose);
                    }
                    parent = node.parent;
                    local = node.matrix;
                },
                None => {},
            }
            let ghost first = pool@;
            let above = match parent {
                Some(parent_rid) => {
                    proof {
                        lemma_parent_differs(before, x);
                    }
                    match pool.borrow(&parent_rid) {
                        Some(parent_node) => *parent_node.borrow_world_matrix(),
                        None => IDENTITY,
                    }
                },
                None => IDENTITY,
            };
            let world = multiply(above, local);
            match pool.borrow_mut(&rid) {
                Some(node) => {
                    node.set_world_matrix(&world);
                },
                None => {},
            }
            let ghost second = pool@;
            proof {
                assert(second.len() == before.len());
                assert(forall|y: nat|
                    y < before.len() && y != x ==> #[trigger] second[y as int] == now[y as int]);
                assert(world_above(before, second, x) == above);
                assert(refreshed(
                    before,
                    second,
                    x,
                    recompute,
                    quaternion_from_euler,
                    compose,
                    multiply,
                ));
                assert forall|y: nat| #[trigger] done.insert(x).contains(y) implies refreshed(
                    before,
                    second,
                    y,
                    recompute,
                    quaternion_from_euler,
                    compose,
                    multiply,
                ) by {
                    if y != x {
                        assert(done.contains(y));
                        assert(refreshed(
                            before,
                            now,
                            y,
                            recompute,
                            quaternion_from_euler,
                            compose,
                            multiply,
                        ));
                        assert(met_below(before, root@, done, y));
                        if parent_of(before, y) is Some {
                            if y == root@ {
                                lemma_parent_outside(before, root@, x);
                            }
                            lemma_parent_differs(before, y);
                            assert(parent_of(before, y)->0 != x);
                        }
                    }
                }
            }
            let node = pool.borrow(&rid).unwrap();
            let children = node.borrow_children();
            let ghost child_ids = children_of(before, x);
            let mut k: usize = 0;
            while k < children.len()
                invariant
                    0 <= k <= children@.len(),
                    stack_before.len() > 0,
                    children@.len() == child_ids.len(),
                    forall|i: int|
                        0 <= i < children@.len() ==> (#[trigger] children@[i])@ == child_ids[i],
                    handle_ids(stack@) == stack_before.drop_last() + child_ids.take(k as int),
                decreases children@.len() - k,
            {
                let ghost stack_now = handle_ids(stack@);
                stack.push(children[k]);
                proof {
                    assert(children@[k as int]@ == child_ids[k as int]);
                    assert(handle_ids(stack@) =~= stack_now.push(child_ids[k as int]));
                    assert(child_ids.take(k + 1) =~= child_ids.take(k as int).push(
                        child_ids[k as int],
                    ));
                    assert(handle_ids(stack@) =~= stack_before.drop_last() + child_ids.take(
                        k + 1,
                    ));
                }
                k += 1;
            }
            proof {
                assert(child_ids.take(k as int) =~= child_ids);
                assert(done.insert(x).len() == done.len() + 1);
                done = done.insert(x);
                lemma_done_bounded(before, root@, handle_ids(stack@), done);
            }
        }
        proof {
            assert(handle_ids(stack@) =~= Seq::empty());
            assert forall|y: nat| done.contains(y) <==> in_subtree(before, root@, y) by {
                lemma_walk_end(before, root@, done, y);
            }
            assert forall|i: nat| i < before.len() implies #[trigger] children_of(before, i)
                == children_of(pool@, i) && parent_of(before, i) == parent_of(pool@, i) by {
                if done.contains(i) {
                    assert(refreshed(
                        before,
                        pool@,
                        i,
                        recompute,
                        quaternion_from_euler,
                        compose,
                        multiply,
                    ));
                } else {
                    assert(pool@[i as int] == before[i as int]);
                }
            }
            lemma_same_hierarchy(before, pool@);
        }
    }

    /// Derives anew the matrices of the subtree of `root`, parents before
    /// children: of each node the quaternion from its Euler angles, the
    /// local matrix from position, quaternion and scale, and the world
    /// matrix as the product of its parent's world matrix, or of the
    /// identity where it has no parent, and its local matrix. The
    /// arithmetic is the caller's: `quaternion_from_euler`, `compose` and
    /// `multiply`.
    pub fn update_matrices<Q, C, M>(
        pool: &mut ResourcePool<Node>,
        root: &ResourceId<Node>,
        quaternion_from_euler: &Q,
        compose: &C,
        multiply: &M,
    ) where
        Q: Fn([Scalar; 3]) -> [Scalar; 4],
        C: Fn([Scalar; 3], [Scalar; 4], [Scalar; 3]) -> [Scalar; 16],
        M: Fn([Scalar; 16], [Scalar; 16]) -> [Scalar; 16],

        requires
            is_forest(old(pool)@),
            root@ < old(pool)@.len(),
            forall|rotation: [Scalar; 3]| quaternion_from_euler.requires((rotation,)),
            forall|position: [Scalar; 3], quaternion: [Scalar; 4], scale: [Scalar; 3]|
                compose.requires((position, quaternion, scale)),
            forall|above: [Scalar; 16], local: [Scalar; 16]| multiply.requires((above, local)),
        ensures
            subtree_refreshed(
                old(pool)@,
                final(pool)@,
                root@,
                true,
                quaternion_from_euler,
                compose,
                multiply,
            ),
            same_hierarchy(old(pool)@, final(pool)@),
            is_forest(final(pool)@),
    {
        Self::refresh_subtree(pool, root, true, quaternion_from_euler, compose, multiply);
    }

    /// Whether one of the first `end` handles stands for the index `id`.
    fn names(handles: &Vec<ResourceId<Node>>, end: usize, id: usize) -> (found: bool)
        requires
            end <= handles@.len(),
        ensures
            found == handle_ids(handles@).take(end as int).contains(id as nat),
    {
        let ghost ids = handle_ids(handles@).take(end as int);
        let mut j: usize = 0;
        while j < end
            invariant
                0 <= j <= end <= handles@.len(),
                ids == handle_ids(handles@).take(end as int),
                forall|t: int| 0 <= t < j ==> ids[t] != id,
            decreases end - j,
        {
            if handles[j].id() == id {
                assert(ids[j as int] == id);
                return true;
            }
            j += 1;
        }
        false
    }

    /// Whether the links of the node at `i` agree with those of the nodes
    /// that it names.
    fn has_agreeing_links(pool: &ResourcePool<Node>, i: usize) -> (ok: bool)
        requires
            i < pool@.len(),
        ensures
            ok == node_links_agree(pool@, i as nat),
    {
        let node = pool.borrow(&ResourceId::new(i)).unwrap();
        let ghost children = children_of(pool@, i as nat);
        assert(children =~= handle_ids(node.children@));
        let mut k: usize = 0;
        while k < node.children.len()
            invariant
                0 <= k <= node.children@.len(),
                i < pool@.len(),
                *node == pool@[i as int],
                children == children_of(pool@, i as nat),
                children == handle_ids(node.children@),
                forall|t: int|
                    0 <= t < k ==> (#[trigger] children[t]) < pool@.len() && parent_of(
                        pool@,
                        children[t],
                    ) == Some(i as nat),
                forall|a: int, b: int| 0 <= a < b < k ==> children[a] != children[b],
            decreases node.children@.len() - k,
        {
            let child = node.children[k];
            assert(children[k as int] == child@);
            if child.id() >= pool.len() {
                return false;
            }
            let named = match pool.borrow(&child).unwrap().parent {
                Some(parent) => parent.id() == i,
                None => false,
            };
            if !named {
                return false;
            }
            if Self::names(&node.children, k, child.id()) {
                proof {
                    let before = children.take(k as int);
                    let a = choose|a: int| 0 <= a < before.len() && before[a] == child@;
                    assert(children[a] == children[k as int]);
                }
                return false;
            }
            proof {
                assert forall|a: int, b: int| 0 <= a < b < k + 1 implies children[a]
                    != children[b] by {
                    if b == k {
                        assert(children.take(k as int)[a] == children[a]);
                    }
                }
            }
            k += 1;
        }
        match node.parent {
            Some(parent) => {
                if parent.id() >= pool.len() {
                    return false;
                }
                let above = pool.borrow(&parent).unwrap();
                let found = Self::names(&above.children, above.children.len(), i);
                proof {
                    let siblings = children_of(pool@, parent@);
                    assert(siblings =~= handle_ids(above.children@));
                    assert(siblings.take(siblings.len() as int) =~= siblings);
                }
                found
            },
            None => true,
        }
    }

    /// Whether going up from the node at `i` leads to a node without
    /// parent, in fewer steps than there are nodes.
    fn is_rooted(pool: &ResourcePool<Node>, i: usize) -> (ok: bool)
        requires
            i < pool@.len(),
            links_agree(pool@),
        ensures
            ok == rooted(pool@, i as nat),
    {
        let mut current: usize = i;
        let mut steps: usize = 0;
        proof {
            assert(ancestor(pool@, i as nat, 0) == Some(i as nat));
        }
        while steps < pool.len()
            invariant
                0 <= steps <= pool@.len(),
                current < pool@.len(),
                links_agree(pool@),
                ancestor(pool@, i as nat, steps as nat) == Some(current as nat),
                forall|t: nat| t < steps ==> !#[trigger] root_after(pool@, i as nat, t),
            decreases pool@.len() - steps,
        {
            match pool.borrow(&ResourceId::new(current)).unwrap().parent {
                Some(parent) => {
                    proof {
                        assert(parent_of(pool@, current as nat) == Some(parent@));
                        lemma_ancestor_add(pool@, i as nat, steps as nat, 1);
                        assert(ancestor(pool@, current as nat, 1) == ancestor(pool@, parent@, 0));
                    }
                    current = parent.id();
                    steps += 1;
                },
                None => {
                    assert(root_after(pool@, i as nat, steps as nat));
                    return true;
                },
            }
        }
        false
    }

    /// Whether the nodes of the pool form a forest: parents and children
    /// agree, and no node is its own ancestor.
    pub fn is_forest(pool: &ResourcePool<Node>) -> (ok: bool)
        ensures
            ok == is_forest(pool@),
    {
        proof {
            lemma_links_agree(pool@);
        }
        let mut i: usize = 0;
        while i < pool.len()
            invariant
                0 <= i <= pool@.len(),
                forall|j: nat| j < i ==> #[trigger] node_links_agree(pool@, j),
                links_agree(pool@) <==> forall|j: nat|
                    j < pool@.len() ==> #[trigger] node_links_agree(pool@, j),
            decreases pool@.len() - i,
        {
            if !Self::has_agreeing_links(pool, i) {
                assert(!node_links_agree(pool@, i as nat));
                return false;
            }
            i += 1;
        }
        assert(links_agree(pool@));
        let mut i: usize = 0;
        while i < pool.len()
            invariant
                0 <= i <= pool@.len(),
                links_agree(pool@),
                forall|j: nat| j < i ==> #[trigger] rooted(pool@, j),
            decreases pool@.len() - i,
        {
            if !Self::is_rooted(pool, i) {
                proof {
                    lemma_unrooted_is_no_forest(pool@, i as nat);
                }
                return false;
            }
            i += 1;
        }
        proof {
            lemma_rooted_is_forest(pool@);
        }
        true
    }

    /// Appends to `nodes` the nodes of the subtree of `root`: the root,
    /// then the children of each node as that node comes up in the walk.
    pub fn collect_nodes(
        pool: &ResourcePool<Node>,
        root: &ResourceId<Node>,
        nodes: &mut Vec<ResourceId<Node>>,
    )
        requires
            is_forest(pool@),
            root@ < pool@.len(),
        ensures
            handle_ids(final(nodes)@) == handle_ids(old(nodes)@) + listing(pool@, root@),
    {
        let ghost before = handle_ids(nodes@);
        let mut stack: Vec<ResourceId<Node>> = Vec::new();
        stack.push(*root);
        nodes.push(*root);
        let ghost mut done: Set<nat> = Set::empty();
        let ghost mut listed: Seq<nat> = seq![root@];
        proof {
            lemma_walk_start(pool@, root@);
            assert(handle_ids(stack@) =~= seq![root@]);
            assert(handle_ids(nodes@) =~= before + listed);
        }
        while stack.len() > 0
            invariant
                is_forest(pool@),
                walking(pool@, root@, handle_ids(stack@), done),
                handle_ids(nodes@) == before + listed,
                listing(pool@, root@) == listed + walk(
                    pool@,
                    handle_ids(stack@),
                    (pool@.len() - done.len()) as nat,
                ),
                done.finite(),
                done.len() <= pool@.len(),
            decreases pool@.len() - done.len(),
        {
            let ghost stack_before = handle_ids(stack@);
            let ghost listed_before = listed;
            proof {
                lemma_done_bounded(pool@, root@, stack_before, done);
                lemma_walk_step(pool@, root@, stack_before, done);
            }
            let rid = stack.pop().unwrap();
            assert(rid@ == stack_before.last());
            assert(handle_ids(stack@) =~= stack_before.drop_last());
            let node = pool.borrow(&rid).unwrap();
            let children = node.borrow_children();
            let ghost child_ids = children_of(pool@, rid@);
            let mut k: usize = 0;
            while k < children.len()
                invariant
                    0 <= k <= children@.len(),
                    stack_before.len() > 0,
                    children@.len() == child_ids.len(),
                    forall|i: int|
                        0 <= i < children@.len() ==> (#[trigger] children@[i])@ == child_ids[i],
                    handle_ids(stack@) == stack_before.drop_last() + child_ids.take(k as int),
                    handle_ids(nodes@) == before + listed_before + child_ids.take(k as int),
                decreases children@.len() - k,
            {
                let ghost stack_now = handle_ids(stack@);
                let ghost nodes_now = handle_ids(nodes@);
                stack.push(children[k]);
                nodes.push(children[k]);
                proof {
                    assert(children@[k as int]@ == child_ids[k as int]);
                    assert(handle_ids(stack@) =~= stack_now.push(child_ids[k as int]));
                    assert(handle_ids(nodes@) =~= nodes_now.push(child_ids[k as int]));
                    assert(child_ids.take(k + 1) =~= child_ids.take(k as int).push(
                        child_ids[k as int],
                    ));
                    assert(handle_ids(stack@) =~= stack_before.drop_last() + child_ids.take(
                        k + 1,
                    ));
                    assert(handle_ids(nodes@) =~= before + listed_before + child_ids.take(k + 1));
                }
                k += 1;
            }
            proof {
                assert(child_ids.take(k as int) =~= child_ids);
                listed = listed_before + child_ids;
                assert(handle_ids(nodes@) =~= before + listed);
                assert(done.insert(rid@).len() == done.len() + 1);
                assert(listed_before + walk(
                    pool@,
                    stack_before,
                    (pool@.len() - done.len()) as nat,
                ) =~= listed + walk(
                    pool@,
                    handle_ids(stack@),
                    (pool@.len() - done.len() - 1) as nat,
                ));
                done = done.insert(rid@);
                lemma_done_bounded(pool@, root@, handle_ids(stack@), done);
            }
        }
        proof {
            assert(handle_ids(stack@) =~= Seq::empty());
        }
    }
}

} // verus!
