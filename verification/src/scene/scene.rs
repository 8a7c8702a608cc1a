use crate::math::color::Color;
use crate::math::scalar::ONE;
use crate::math::scalar::Scalar;
use crate::resource::resource::ResourceId;
use crate::resource::resource::ResourcePool;
use crate::resource::resource::ResourcePools;
use crate::scene::camera::PerspectiveCamera;
use crate::scene::hierarchy::children_of;
use crate::scene::hierarchy::is_forest;
use crate::scene::hierarchy::listing;
use crate::scene::hierarchy::parent_of;
use crate::scene::hierarchy::same_hierarchy;
use crate::scene::mesh::Mesh;
use crate::scene::node::Node;
use crate::scene::node::NodeExecutor;
use crate::scene::node::handle_ids;
use crate::scene::node::subtree_refreshed;
use std::collections::HashMap;
use std::marker::PhantomData;
use vstd::prelude::*;

verus! {

/// A table of links from resources of one kind to resources of another:
/// at most one link leaves each resource.
pub struct ResourceLinks<T1, T2> {
    links: HashMap<usize, ResourceId<T2>>,
    _phantom: PhantomData<T1>,
}

impl<T1, T2> View for ResourceLinks<T1, T2> {
    type V = Map<nat, nat>;

    /// The index that each linked index leads to.
    closed spec fn view(&self) -> Map<nat, nat> {
        Map::new(
            |from: nat| from <= usize::MAX && self.links@.contains_key(from as usize),
            |from: nat| self.links@[from as usize]@,
        )
    }
}

impl<T1, T2> ResourceLinks<T1, T2> {
    /// What adding a link does to a table: nothing where a link leaves
    /// `from` already, else the link from `from` to `to` is there as well.
    pub open spec fn added(links: Map<nat, nat>, from: nat, to: nat) -> Map<nat, nat> {
        if links.contains_key(from) {
            links
        } else {
            links.insert(from, to)
        }
    }

    pub fn new() -> (links: Self)
        ensures
            links@ == Map::<nat, nat>::empty(),
    {
        let links = ResourceLinks { links: HashMap::new(), _phantom: PhantomData };
        assert(links@ =~= Map::<nat, nat>::empty());
        links
    }

    pub fn has(&self, rid_from: &ResourceId<T1>) -> (has: bool)
        ensures
            has == self@.contains_key(rid_from@),
    {
        self.links.contains_key(&rid_from.id())
    }

    /// Adds the link from `rid_from` to `rid_to`, unless a link leaves
    /// `rid_from` already: the first link stays.
    pub fn add(&mut self, rid_from: &ResourceId<T1>, rid_to: &ResourceId<T2>)
        ensures
            final(self)@ == Self::added(old(self)@, rid_from@, rid_to@),
    {
        let from = rid_from.id();
        if !self.links.contains_key(&from) {
            self.links.insert(from, *rid_to);
            assert(self@ =~= old(self)@.insert(rid_from@, rid_to@));
        }
    }

    pub fn borrow(&self, rid_from: &ResourceId<T1>) -> (rid_to: Option<&ResourceId<T2>>)
        ensures
            rid_to is Some <==> self@.contains_key(rid_from@),
            rid_to is Some ==> rid_to->0@ == self@[rid_from@],
    {
        self.links.get(&rid_from.id())
    }
}

/// Two tables hold the same links, one in each direction.
pub open spec fn paired(forth: Map<nat, nat>, back: Map<nat, nat>) -> bool {
    &&& forall|from: nat| #[trigger]
        forth.contains_key(from) ==> back.contains_key(forth[from]) && back[forth[from]] == from
    &&& forall|to: nat| #[trigger]
        back.contains_key(to) ==> forth.contains_key(back[to]) && forth[back[to]] == to
}

/// A scene: its root nodes, what is attached to its nodes, and the colour
/// behind everything.
pub struct Scene {
    background_color: [Scalar; 3],
    node_to_mesh: ResourceLinks<Node, Mesh>,
    mesh_to_node: ResourceLinks<Mesh, Node>,
    node_to_camera: ResourceLinks<Node, PerspectiveCamera>,
    camera_to_node: ResourceLinks<PerspectiveCamera, Node>,
    nodes: Vec<ResourceId<Node>>,
}

/// What a [`Scene`] holds.
pub struct SceneView {
    pub background_color: [Scalar; 3],
    /// The mesh attached to each node that has one.
    pub node_to_mesh: Map<nat, nat>,
    /// The node that each attached mesh is attached to.
    pub mesh_to_node: Map<nat, nat>,
    /// The camera attached to each node that has one.
    pub node_to_camera: Map<nat, nat>,
    /// The node that each attached camera is attached to.
    pub camera_to_node: Map<nat, nat>,
    /// The root nodes, in the order in which they were added.
    pub nodes: Seq<nat>,
}

impl View for Scene {
    type V = SceneView;

    closed spec fn view(&self) -> SceneView {
        SceneView {
            background_color: self.background_color,
            node_to_mesh: self.node_to_mesh@,
            mesh_to_node: self.mesh_to_node@,
            node_to_camera: self.node_to_camera@,
            camera_to_node: self.camera_to_node@,
            nodes: handle_ids(self.nodes@),
        }
    }
}

/// A kind of resource that can be attached to the nodes of a scene.
pub trait Attachment: Sized + 'static {
    /// The attachments of this kind, from node to resource.
    spec fn from_node(scene: SceneView) -> Map<nat, nat>;

    /// The attachments of this kind, from resource to node.
    spec fn to_node(scene: SceneView) -> Map<nat, nat>;

    /// `scene` with the attachments of this kind replaced.
    spec fn with_links(scene: SceneView, from_node: Map<nat, nat>, to_node: Map<nat, nat>) -> SceneView;

    /// Replacing the attachments of this kind replaces them.
    proof fn lemma_with_links(scene: SceneView, from_node: Map<nat, nat>, to_node: Map<nat, nat>)
        ensures
            Self::from_node(Self::with_links(scene, from_node, to_node)) == from_node,
            Self::to_node(Self::with_links(scene, from_node, to_node)) == to_node,
    ;

    fn links_from_node(scene: &Scene) -> (links: &ResourceLinks<Node, Self>)
        ensures
            links@ == Self::from_node(scene@),
    ;

    fn links_to_node(scene: &Scene) -> (links: &ResourceLinks<Self, Node>)
        ensures
            links@ == Self::to_node(scene@),
    ;

    /// Adds to each of the two tables the link between `node` and `rid`,
    /// where none leaves its near end yet.
    fn link(scene: &mut Scene, node: &ResourceId<Node>, rid: &ResourceId<Self>)
        ensures
            final(scene)@ == Self::with_links(
                old(scene)@,
                ResourceLinks::<Node, Self>::added(Self::from_node(old(scene)@), node@, rid@),
                ResourceLinks::<Self, Node>::added(Self::to_node(old(scene)@), rid@, node@),
            ),
    ;
}

impl Attachment for Mesh {
    open spec fn from_node(scene: SceneView) -> Map<nat, nat> {
        scene.node_to_mesh
    }

    open spec fn to_node(scene: SceneView) -> Map<nat, nat> {
        scene.mesh_to_node
    }

    open spec fn with_links(
        scene: SceneView,
        from_node: Map<nat, nat>,
        to_node: Map<nat, nat>,
    ) -> SceneView {
        SceneView { node_to_mesh: from_node, mesh_to_node: to_node, ..scene }
    }

    proof fn lemma_with_links(scene: SceneView, from_node: Map<nat, nat>, to_node: Map<nat, nat>) {
    }

    fn links_from_node(scene: &Scene) -> (links: &ResourceLinks<Node, Mesh>) {
        &scene.node_to_mesh
    }

    fn links_to_node(scene: &Scene) -> (links: &ResourceLinks<Mesh, Node>) {
        &scene.mesh_to_node
    }

    fn link(scene: &mut Scene, node: &ResourceId<Node>, rid: &ResourceId<Mesh>) {
        scene.node_to_mesh.add(node, rid);
        scene.mesh_to_node.add(rid, node);
    }
}

impl Attachment for PerspectiveCamera {
    open spec fn from_node(scene: SceneView) -> Map<nat, nat> {
        scene.node_to_camera
    }

    open spec fn to_node(scene: SceneView) -> Map<nat, nat> {
        scene.camera_to_node
    }

    open spec fn with_links(
        scene: SceneView,
        from_node: Map<nat, nat>,
        to_node: Map<nat, nat>,
    ) -> SceneView {
        SceneView { node_to_camera: from_node, camera_to_node: to_node, ..scene }
    }

    proof fn lemma_with_links(scene: SceneView, from_node: Map<nat, nat>, to_node: Map<nat, nat>) {
    }

    fn links_from_node(scene: &Scene) -> (links: &ResourceLinks<Node, PerspectiveCamera>) {
        &scene.node_to_camera
    }

    fn links_to_node(scene: &Scene) -> (links: &ResourceLinks<PerspectiveCamera, Node>) {
        &scene.camera_to_node
    }

    fn link(scene: &mut Scene, node: &ResourceId<Node>, rid: &ResourceId<PerspectiveCamera>) {
        scene.node_to_camera.add(node, rid);
        scene.camera_to_node.add(rid, node);
    }
}

impl Scene {
    /// A scene without nodes or attachments, on a white background.
    pub fn new() -> (scene: Self)
        ensures
            scene@ == (SceneView {
                background_color: [ONE, ONE, ONE],
                node_to_mesh: Map::empty(),
                mesh_to_node: Map::empty(),
                node_to_camera: Map::empty(),
                camera_to_node: Map::empty(),
                nodes: Seq::empty(),
            }),
    {
        let mut background_color = Color::create();
        Color::set(&mut background_color, ONE, ONE, ONE);
        let scene = Scene {
            background_color,
            node_to_mesh: ResourceLinks::new(),
            mesh_to_node: ResourceLinks::new(),
            node_to_camera: ResourceLinks::new(),
            camera_to_node: ResourceLinks::new(),
            nodes: Vec::new(),
        };
        assert(scene@.nodes =~= Seq::empty());
        scene
    }

    /// Attaches `rid2` to the node `rid1`, unless the node has an
    /// attachment of that kind already or `rid2` is attached to a node
    /// already: the first attachment stays.
    pub fn assign<T: Attachment>(&mut self, rid1: &ResourceId<Node>, rid2: &ResourceId<T>)
        ensures
            final(self)@ == Self::assigned::<T>(old(self)@, rid1@, rid2@),
            paired(T::from_node(old(self)@), T::to_node(old(self)@)) ==> paired(
                T::from_node(final(self)@),
                T::to_node(final(self)@),
            ),
    {
        if T::links_from_node(self).has(rid1) || T::links_to_node(self).has(rid2) {
            return ;
        }
        T::link(self, rid1, rid2);
        proof {
            let before = old(self)@;
            T::lemma_with_links(
                before,
                T::from_node(before).insert(rid1@, rid2@),
                T::to_node(before).insert(rid2@, rid1@),
            );
            if paired(T::from_node(before), T::to_node(before)) {
                lemma_link_keeps_paired(T::from_node(before), T::to_node(before), rid1@, rid2@);
            }
        }
    }

    /// What attaching does to a scene.
    pub open spec fn assigned<T: Attachment>(scene: SceneView, node: nat, rid: nat) -> SceneView {
        if T::from_node(scene).contains_key(node) || T::to_node(scene).contains_key(rid) {
            scene
        } else {
            T::with_links(
                scene,
                T::from_node(scene).insert(node, rid),
                T::to_node(scene).insert(rid, node),
            )
        }
    }

    /// The node that `rid` is attached to.
    pub fn borrow_assigned_from<T: Attachment>(&self, rid: &ResourceId<T>) -> (node: Option<
        &ResourceId<Node>,
    >)
        ensures
            node is Some <==> T::to_node(self@).contains_key(rid@),
            node is Some ==> node->0@ == T::to_node(self@)[rid@],
    {
        T::links_to_node(self).borrow(rid)
    }

    /// What of the kind `T` is attached to the node `rid`.
    pub fn borrow_assigned_to<T: Attachment>(&self, rid: &ResourceId<Node>) -> (attached: Option<
        &ResourceId<T>,
    >)
        ensures
            attached is Some <==> T::from_node(self@).contains_key(rid@),
            attached is Some ==> attached->0@ == T::from_node(self@)[rid@],
    {
        T::links_from_node(self).borrow(rid)
    }

    /// Adds a root node.
    pub fn add_node(&mut self, rid: &ResourceId<Node>)
        ensures
            final(self)@ == (SceneView { nodes: old(self)@.nodes.push(rid@), ..old(self)@ }),
    {
        self.nodes.push(*rid);
        assert(self@.nodes =~= old(self)@.nodes.push(rid@));
    }

    /// The root nodes, in the order in which they were added.
    pub fn borrow_nodes(&self) -> (nodes: &Vec<ResourceId<Node>>)
        ensures
            handle_ids(nodes@) == self@.nodes,
    {
        &self.nodes
    }

    /// The nodes of the subtrees of `roots`, one listing after the other.
    pub open spec fn listings(nodes: Seq<Node>, roots: Seq<nat>) -> Seq<nat>
        decreases roots.len(),
    {
        if roots.len() == 0 {
            Seq::empty()
        } else {
            Self::listings(nodes, roots.drop_last()) + listing(nodes, roots.last())
        }
    }

    /// The scene's roots exist in `nodes`.
    pub open spec fn roots_exist(scene: SceneView, nodes: Seq<Node>) -> bool {
        forall|i: int| 0 <= i < scene.nodes.len() ==> #[trigger] scene.nodes[i] < nodes.len()
    }

    /// The nodes of the scene: for each root in turn, the nodes of its
    /// subtree.
    pub fn collect_nodes(&self, pools: &ResourcePools) -> (nodes: Vec<ResourceId<Node>>)
        requires
            is_forest(pools.nodes@),
            Self::roots_exist(self@, pools.nodes@),
        ensures
            handle_ids(nodes@) == Self::listings(pools.nodes@, self@.nodes),
    {
        let mut nodes = Vec::new();
        let pool = pools.borrow::<Node>();
        let mut i: usize = 0;
        assert(handle_ids(nodes@) =~= Seq::empty());
        while i < self.nodes.len()
            invariant
                0 <= i <= self.nodes@.len(),
                pool@ == pools.nodes@,
                is_forest(pool@),
                Self::roots_exist(self@, pool@),
                handle_ids(nodes@) == Self::listings(pool@, self@.nodes.take(i as int)),
            decreases self.nodes@.len() - i,
        {
            proof {
                assert(self@.nodes.take(i + 1).drop_last() =~= self@.nodes.take(i as int));
                assert(self@.nodes.take(i + 1).last() == self@.nodes[i as int]);
                assert(self.nodes@[i as int]@ == self@.nodes[i as int]);
            }
            NodeExecutor::collect_nodes(pool, &self.nodes[i], &mut nodes);
            i += 1;
        }
        assert(self@.nodes.take(i as int) =~= self@.nodes);
        nodes
    }

    pub fn borrow_background_color(&self) -> (color: &[Scalar; 3])
        ensures
            *color == self@.background_color,
    {
        &self.background_color
    }

    pub fn borrow_background_color_mut(&mut self) -> (color: &mut [Scalar; 3])
        ensures
            *color == old(self)@.background_color,
            final(self)@ == (SceneView { background_color: *final(color), ..old(self)@ }),
    {
        &mut self.background_color
    }

    /// `after` is `before` with the subtrees of `roots` refreshed, one
    /// after the other.
    pub open spec fn all_refreshed<Q, C, M>(
        before: Seq<Node>,
        after: Seq<Node>,
        roots: Seq<nat>,
        quaternion_from_euler: &Q,
        compose: &C,
        multiply: &M,
    ) -> bool where
        Q: Fn([Scalar; 3]) -> [Scalar; 4],
        C: Fn([Scalar; 3], [Scalar; 4], [Scalar; 3]) -> [Scalar; 16],
        M: Fn([Scalar; 16], [Scalar; 16]) -> [Scalar; 16],

        decreases roots.len(),
    {
        if roots.len() == 0 {
            after == before
        } else {
            exists|between: Seq<Node>|
                {
                    &&& #[trigger] same_hierarchy(before, between)
                    &&& Self::all_refreshed(
                        before,
                        between,
                        roots.drop_last(),
                        quaternion_from_euler,
                        compose,
                        multiply,
                    )
                    &&& subtree_refreshed(
                        between,
                        after,
                        roots.last(),
                        true,
                        quaternion_from_euler,
                        compose,
                        multiply,
                    )
                }
        }
    }

    /// Derives anew the matrices of the nodes of the scene: for each root
    /// in turn, those of its subtree, parents before children. The
    /// arithmetic is the caller's.
    pub fn update_matrices<Q, C, M>(
        &self,
        pool: &mut ResourcePool<Node>,
        quaternion_from_euler: &Q,
        compose: &C,
        multiply: &M,
    ) where
        Q: Fn([Scalar; 3]) -> [Scalar; 4],
        C: Fn([Scalar; 3], [Scalar; 4], [Scalar; 3]) -> [Scalar; 16],
        M: Fn([Scalar; 16], [Scalar; 16]) -> [Scalar; 16],

        requires
            is_forest(old(pool)@),
            Self::roots_exist(self@, old(pool)@),
            forall|rotation: [Scalar; 3]| quaternion_from_euler.requires((rotation,)),
            forall|position: [Scalar; 3], quaternion: [Scalar; 4], scale: [Scalar; 3]|
                compose.requires((position, quaternion, scale)),
            forall|above: [Scalar; 16], local: [Scalar; 16]| multiply.requires((above, local)),
        ensures
            Self::all_refreshed(
                old(pool)@,
                final(pool)@,
                self@.nodes,
                quaternion_from_euler,
                compose,
                multiply,
            ),
            same_hierarchy(old(pool)@, final(pool)@),
            is_forest(final(pool)@),
    {
        let ghost before = pool@;
        let mut i: usize = 0;
        proof {
            assert(same_hierarchy(before, pool@));
        }
        while i < self.nodes.len()
            invariant
                0 <= i <= self.nodes@.len(),
                is_forest(pool@),
                same_hierarchy(before, pool@),
                Self::roots_exist(self@, before),
                Self::all_refreshed(
                    before,
                    pool@,
                    self@.nodes.take(i as int),
                    quaternion_from_euler,
                    compose,
                    multiply,
                ),
                forall|rotation: [Scalar; 3]| quaternion_from_euler.requires((rotation,)),
                forall|position: [Scalar; 3], quaternion: [Scalar; 4], scale: [Scalar; 3]|
                    compose.requires((position, quaternion, scale)),
                forall|above: [Scalar; 16], local: [Scalar; 16]| multiply.requires((above, local)),
            decreases self.nodes@.len() - i,
        {
            let ghost between = pool@;
            proof {
                assert(self@.nodes.take(i + 1).drop_last() =~= self@.nodes.take(i as int));
                assert(self@.nodes.take(i + 1).last() == self@.nodes[i as int]);
                assert(self.nodes@[i as int]@ == self@.nodes[i as int]);
            }
            NodeExecutor::update_matrices(
                pool,
                &self.nodes[i],
                quaternion_from_euler,
                compose,
                multiply,
            );
            proof {
                let roots = self@.nodes.take(i + 1);
                assert(Self::all_refreshed(
                    before,
                    between,
                    roots.drop_last(),
                    quaternion_from_euler,
                    compose,
                    multiply,
                ));
                assert(subtree_refreshed(
                    between,
                    pool@,
                    roots.last(),
                    true,
                    quaternion_from_euler,
                    compose,
                    multiply,
                ));
                assert(same_hierarchy(before, between));
                assert(Self::all_refreshed(
                    before,
                    pool@,
                    roots,
                    quaternion_from_euler,
                    compose,
                    multiply,
                ));
                assert(same_hierarchy(before, pool@)) by {
                    assert forall|x: nat| x < before.len() implies #[trigger] children_of(
                        before,
                        x,
                    ) == children_of(pool@, x)
                        && parent_of(before, x)
                        == parent_of(pool@, x) by {
                        assert(children_of(before, x)
                            == children_of(between, x));
                        assert(children_of(between, x)
                            == children_of(pool@, x));
                    }
                }
            }
            i += 1;
        }
        assert(self@.nodes.take(i as int) =~= self@.nodes);
    }
}

/// Two tables that hold the same links in both directions still do once
/// a link between two unlinked ends is added to both.
pub proof fn lemma_link_keeps_paired(forth: Map<nat, nat>, back: Map<nat, nat>, node: nat, rid: nat)
    requires
        paired(forth, back),
        !forth.contains_key(node),
        !back.contains_key(rid),
    ensures
        paired(forth.insert(node, rid), back.insert(rid, node)),
{
    let forth2 = forth.insert(node, rid);
    let back2 = back.insert(rid, node);
    assert forall|from: nat| #[trigger] forth2.contains_key(from) implies back2.contains_key(
        forth2[from],
    ) && back2[forth2[from]] == from by {
        if from != node {
            assert(forth.contains_key(from));
            assert(back.contains_key(forth[from]));
        }
    }
    assert forall|to: nat| #[trigger] back2.contains_key(to) implies forth2.contains_key(
        back2[to],
    ) && forth2[back2[to]] == to by {
        if to != rid {
            assert(back.contains_key(to));
            assert(forth.contains_key(back[to]));
        }
    }
}

} // verus!
