use crate::geometry::attribute::Attribute;
use crate::geometry::geometry::Geometry;
use crate::geometry::index::Index;
use crate::material::material::Material;
use crate::material::node::node::MaterialNode;
use crate::scene::camera::PerspectiveCamera;
use crate::scene::mesh::Mesh;
use crate::scene::node::Node;
use crate::scene::scene::Scene;
use crate::texture::sampler::Sampler;
use crate::texture::texture::Texture;
use std::hash::Hash;
use std::hash::Hasher;
use std::marker::PhantomData;
use vstd::prelude::*;
use vstd::set_lib::lemma_len_subset;
use vstd::std_specs::cmp::PartialEqSpecImpl;

verus! {

/// An opaque handle to an entry of a [`ResourcePool<T>`].
///
/// The handle is tagged with the kind `T` it refers to, so that handles of
/// different kinds cannot be confused. Its view is its index in the pool.
pub struct ResourceId<T> {
    id: usize,
    _phantom: PhantomData<T>,
}

impl<T> View for ResourceId<T> {
    type V = nat;

    closed spec fn view(&self) -> nat {
        self.id as nat
    }
}

impl<T> ResourceId<T> {
    pub(crate) fn new(id: usize) -> (rid: Self)
        ensures
            rid@ == id,
    {
        ResourceId { id, _phantom: PhantomData }
    }

    /// The index this handle stands for.
    pub fn id(&self) -> (id: usize)
        ensures
            id == self@,
    {
        self.id
    }
}

impl<T> Copy for ResourceId<T> {

}

impl<T> Clone for ResourceId<T> {
    fn clone(&self) -> (rid: Self)
        ensures
            rid == *self,
    {
        *self
    }
}

impl<T> PartialEq for ResourceId<T> {
    fn eq(&self, other: &Self) -> (r: bool) {
        self.id == other.id
    }
}

impl<T> Eq for ResourceId<T> {

}

impl<T> PartialEqSpecImpl for ResourceId<T> {
    open spec fn obeys_eq_spec() -> bool {
        true
    }

    open spec fn eq_spec(&self, other: &Self) -> bool {
        self@ == other@
    }
}

impl<T> Hash for ResourceId<T> {
    /// Feeds the index, and nothing else, to `Hasher::write_usize`.
    #[verifier::external_body]
    fn hash<H: Hasher>(&self, state: &mut H) {
        state.write_usize(self.id);
    }
}

/// The indices below `n`.
pub open spec fn indices_below(n: nat) -> Set<nat> {
    Set::new(|id: nat| id < n)
}

/// There are `n` indices below `n`.
pub proof fn lemma_indices_below(n: nat)
    ensures
        indices_below(n).finite(),
        indices_below(n).len() == n,
    decreases n,
{
    if n == 0 {
        assert(indices_below(n) =~= Set::empty());
    } else {
        lemma_indices_below((n - 1) as nat);
        assert(indices_below(n) =~= indices_below((n - 1) as nat).insert((n - 1) as nat));
    }
}

/// A list of pairwise distinct indices, all below `n`, has at most `n`
/// entries.
pub proof fn lemma_distinct_indices_bounded(indices: Seq<nat>, n: nat)
    requires
        indices.no_duplicates(),
        forall|i: int| 0 <= i < indices.len() ==> indices[i] < n,
    ensures
        indices.len() <= n,
{
    lemma_indices_below(n);
    indices.unique_seq_to_set();
    assert(indices.to_set().subset_of(indices_below(n)));
    lemma_len_subset(indices.to_set(), indices_below(n));
}

/// Append-only storage for resources of one kind, addressed by handle.
///
/// The view of a pool is the sequence of its resources in insertion order;
/// the handle of a resource is its position in that sequence.
pub struct ResourcePool<T> {
    resources: Vec<T>,
}

impl<T> View for ResourcePool<T> {
    type V = Seq<T>;

    closed spec fn view(&self) -> Seq<T> {
        self.resources@
    }
}

impl<T> ResourcePool<T> {
    /// What a lookup of index `id` finds in a pool holding `resources`.
    pub open spec fn lookup(resources: Seq<T>, id: nat) -> Option<T> {
        if id < resources.len() {
            Some(resources[id as int])
        } else {
            None
        }
    }

    /// What one insertion does: the new contents, and the index issued.
    pub open spec fn inserted(resources: Seq<T>, resource: T) -> (Seq<T>, nat) {
        (resources.push(resource), resources.len())
    }

    /// What inserting `values` one after the other does to a pool holding
    /// `resources`: the final contents, and the indices issued, in order.
    pub open spec fn inserted_all(resources: Seq<T>, values: Seq<T>) -> (Seq<T>, Seq<nat>)
        decreases values.len(),
    {
        if values.len() == 0 {
            (resources, Seq::empty())
        } else {
            let (before, issued) = Self::inserted_all(resources, values.drop_last());
            let (after, id) = Self::inserted(before, values.last());
            (after, issued.push(id))
        }
    }

    pub fn new() -> (pool: Self)
        ensures
            pool@ == Seq::<T>::empty(),
    {
        ResourcePool { resources: Vec::new() }
    }

    /// The number of resources in the pool.
    pub fn len(&self) -> (n: usize)
        ensures
            n == self@.len(),
    {
        self.resources.len()
    }

    /// Appends `resource` and returns its handle.
    pub fn add(&mut self, resource: T) -> (rid: ResourceId<T>)
        ensures
            final(self)@ == old(self)@.push(resource),
            rid@ == old(self)@.len(),
            (final(self)@, rid@) == Self::inserted(old(self)@, resource),
    {
        let id = self.resources.len();
        self.resources.push(resource);
        ResourceId::new(id)
    }

    /// Resolves a handle; a handle whose index is out of range finds nothing.
    pub fn borrow(&self, r_id: &ResourceId<T>) -> (r: Option<&T>)
        ensures
            r_id@ < self@.len() <==> r is Some,
            r is Some ==> *r->0 == self@[r_id@ as int],
            (match r {
                Some(x) => Some(*x),
                None => None,
            }) == Self::lookup(self@, r_id@),
    {
        if r_id.id < self.resources.len() {
            Some(&self.resources[r_id.id])
        } else {
            None
        }
    }

    /// Resolves a handle for writing. Whatever the caller stores through the
    /// returned reference replaces the entry; nothing else changes.
    pub fn borrow_mut(&mut self, r_id: &ResourceId<T>) -> (r: Option<&mut T>)
        ensures
            r_id@ < old(self)@.len() <==> r is Some,
            r is None ==> final(self)@ == old(self)@,
            r is Some ==> *r->0 == old(self)@[r_id@ as int] && final(self)@ == old(self)@.update(
                r_id@ as int,
                *final(r->0),
            ),
    {
        if r_id.id < self.resources.len() {
            Some(&mut self.resources[r_id.id])
        } else {
            None
        }
    }

    /// Inserting `values` into a pool appends them in order and issues the
    /// consecutive indices that follow the pool's length.
    pub proof fn lemma_inserted_all(resources: Seq<T>, values: Seq<T>)
        ensures
            Self::inserted_all(resources, values).0 == resources + values,
            Self::inserted_all(resources, values).1 == Seq::new(
                values.len(),
                |i: int| (resources.len() + i) as nat,
            ),
        decreases values.len(),
    {
        if values.len() == 0 {
            assert(Self::inserted_all(resources, values).0 =~= resources + values);
            assert(Self::inserted_all(resources, values).1 =~= Seq::new(
                values.len(),
                |i: int| (resources.len() + i) as nat,
            ));
        } else {
            Self::lemma_inserted_all(resources, values.drop_last());
            assert(Self::inserted_all(resources, values).0 =~= resources + values);
            assert(Self::inserted_all(resources, values).1 =~= Seq::new(
                values.len(),
                |i: int| (resources.len() + i) as nat,
            ));
        }
    }

    /// Any number of insertions into an empty pool hand out pairwise distinct
    /// handles. Each resolves to the resource it was issued for, at once and
    /// after every later insertion, and an index that was never issued
    /// resolves to nothing.
    pub proof fn lemma_issued_handles(values: Seq<T>)
        ensures
            ({
                let (pool, issued) = Self::inserted_all(Seq::empty(), values);
                &&& issued.len() == values.len()
                &&& issued.no_duplicates()
                &&& forall|i: int|
                    0 <= i < values.len() ==> Self::lookup(pool, #[trigger] issued[i]) == Some(
                        values[i],
                    )
                &&& forall|i: int, n: int|
                    0 <= i < n <= values.len() ==> Self::lookup(
                        #[trigger] Self::inserted_all(Seq::empty(), values.take(n)).0,
                        #[trigger] issued[i],
                    ) == Some(values[i])
                &&& forall|id: nat| !issued.contains(id) ==> #[trigger] Self::lookup(pool, id) is None
            }),
    {
        let (pool, issued) = Self::inserted_all(Seq::empty(), values);
        Self::lemma_inserted_all(Seq::empty(), values);
        assert(pool =~= values);
        assert forall|i: int, n: int| 0 <= i < n <= values.len() implies Self::lookup(
            #[trigger] Self::inserted_all(Seq::empty(), values.take(n)).0,
            #[trigger] issued[i],
        ) == Some(values[i]) by {
            Self::lemma_inserted_all(Seq::empty(), values.take(n));
            assert(Self::inserted_all(Seq::empty(), values.take(n)).0 =~= values.take(n));
        }
        assert forall|id: nat| !issued.contains(id) implies #[trigger] Self::lookup(
            pool,
            id,
        ) is None by {
            if id < values.len() {
                assert(issued[id as int] == id);
            }
        }
    }
}

/// One pool for each kind of resource.
pub struct ResourcePools {
    pub attributes: ResourcePool<Attribute>,
    pub geometries: ResourcePool<Geometry>,
    pub indices: ResourcePool<Index>,
    pub materials: ResourcePool<Material>,
    pub material_nodes: ResourcePool<MaterialNode>,
    pub meshes: ResourcePool<Mesh>,
    pub nodes: ResourcePool<Node>,
    pub cameras: ResourcePool<PerspectiveCamera>,
    pub scenes: ResourcePool<Scene>,
    pub samplers: ResourcePool<Sampler>,
    pub textures: ResourcePool<Texture>,
}

/// A kind of resource that [`ResourcePools`] has a pool for.
pub trait Resource: Sized {
    /// The pool of this kind.
    spec fn pool(pools: ResourcePools) -> ResourcePool<Self>;

    /// `pools` with the pool of this kind replaced.
    spec fn with_pool(pools: ResourcePools, pool: ResourcePool<Self>) -> ResourcePools;

    fn borrow_pool(pools: &ResourcePools) -> (pool: &ResourcePool<Self>)
        ensures
            *pool == Self::pool(*pools),
    ;

    fn borrow_pool_mut(pools: &mut ResourcePools) -> (pool: &mut ResourcePool<Self>)
        ensures
            *pool == Self::pool(*old(pools)),
            *final(pools) == Self::with_pool(*old(pools), *final(pool)),
    ;
}

impl Resource for Attribute {
    open spec fn pool(pools: ResourcePools) -> ResourcePool<Attribute> {
        pools.attributes
    }

    open spec fn with_pool(pools: ResourcePools, pool: ResourcePool<Attribute>) -> ResourcePools {
        ResourcePools { attributes: pool, ..pools }
    }

    fn borrow_pool(pools: &ResourcePools) -> (pool: &ResourcePool<Attribute>) {
        &pools.attributes
    }

    fn borrow_pool_mut(pools: &mut ResourcePools) -> (pool: &mut ResourcePool<Attribute>) {
        &mut pools.attributes
    }
}

impl Resource for Geometry {
    open spec fn pool(pools: ResourcePools) -> ResourcePool<Geometry> {
        pools.geometries
    }

    open spec fn with_pool(pools: ResourcePools, pool: ResourcePool<Geometry>) -> ResourcePools {
        ResourcePools { geometries: pool, ..pools }
    }

    fn borrow_pool(pools: &ResourcePools) -> (pool: &ResourcePool<Geometry>) {
        &pools.geometries
    }

    fn borrow_pool_mut(pools: &mut ResourcePools) -> (pool: &mut ResourcePool<Geometry>) {
        &mut pools.geometries
    }
}

impl Resource for Index {
    open spec fn pool(pools: ResourcePools) -> ResourcePool<Index> {
        pools.indices
    }

    open spec fn with_pool(pools: ResourcePools, pool: ResourcePool<Index>) -> ResourcePools {
        ResourcePools { indices: pool, ..pools }
    }

    fn borrow_pool(pools: &ResourcePools) -> (pool: &ResourcePool<Index>) {
        &pools.indices
    }

    fn borrow_pool_mut(pools: &mut ResourcePools) -> (pool: &mut ResourcePool<Index>) {
        &mut pools.indices
    }
}

impl Resource for Material {
    open spec fn pool(pools: ResourcePools) -> ResourcePool<Material> {
        pools.materials
    }

    open spec fn with_pool(pools: ResourcePools, pool: ResourcePool<Material>) -> ResourcePools {
        ResourcePools { materials: pool, ..pools }
    }

    fn borrow_pool(pools: &ResourcePools) -> (pool: &ResourcePool<Material>) {
        &pools.materials
    }

    fn borrow_pool_mut(pools: &mut ResourcePools) -> (pool: &mut ResourcePool<Material>) {
        &mut pools.materials
    }
}

impl Resource for MaterialNode {
    open spec fn pool(pools: ResourcePools) -> ResourcePool<MaterialNode> {
        pools.material_nodes
    }

    open spec fn with_pool(pools: ResourcePools, pool: ResourcePool<MaterialNode>) -> ResourcePools {
        ResourcePools { material_nodes: pool, ..pools }
    }

    fn borrow_pool(pools: &ResourcePools) -> (pool: &ResourcePool<MaterialNode>) {
        &pools.material_nodes
    }

    fn borrow_pool_mut(pools: &mut ResourcePools) -> (pool: &mut ResourcePool<MaterialNode>) {
        &mut pools.material_nodes
    }
}

impl Resource for Mesh {
    open spec fn pool(pools: ResourcePools) -> ResourcePool<Mesh> {
        pools.meshes
    }

    open spec fn with_pool(pools: ResourcePools, pool: ResourcePool<Mesh>) -> ResourcePools {
        ResourcePools { meshes: pool, ..pools }
    }

    fn borrow_pool(pools: &ResourcePools) -> (pool: &ResourcePool<Mesh>) {
        &pools.meshes
    }

    fn borrow_pool_mut(pools: &mut ResourcePools) -> (pool: &mut ResourcePool<Mesh>) {
        &mut pools.meshes
    }
}

impl Resource for Node {
    open spec fn pool(pools: ResourcePools) -> ResourcePool<Node> {
        pools.nodes
    }

    open spec fn with_pool(pools: ResourcePools, pool: ResourcePool<Node>) -> ResourcePools {
        ResourcePools { nodes: pool, ..pools }
    }

    fn borrow_pool(pools: &ResourcePools) -> (pool: &ResourcePool<Node>) {
        &pools.nodes
    }

    fn borrow_pool_mut(pools: &mut ResourcePools) -> (pool: &mut ResourcePool<Node>) {
        &mut pools.nodes
    }
}

impl Resource for PerspectiveCamera {
    open spec fn pool(pools: ResourcePools) -> ResourcePool<PerspectiveCamera> {
        pools.cameras
    }

    open spec fn with_pool(pools: ResourcePools, pool: ResourcePool<PerspectiveCamera>) -> ResourcePools {
        ResourcePools { cameras: pool, ..pools }
    }

    fn borrow_pool(pools: &ResourcePools) -> (pool: &ResourcePool<PerspectiveCamera>) {
        &pools.cameras
    }

    fn borrow_pool_mut(pools: &mut ResourcePools) -> (pool: &mut ResourcePool<PerspectiveCamera>) {
        &mut pools.cameras
    }
}

impl Resource for Scene {
    open spec fn pool(pools: ResourcePools) -> ResourcePool<Scene> {
        pools.scenes
    }

    open spec fn with_pool(pools: ResourcePools, pool: ResourcePool<Scene>) -> ResourcePools {
        ResourcePools { scenes: pool, ..pools }
    }

    fn borrow_pool(pools: &ResourcePools) -> (pool: &ResourcePool<Scene>) {
        &pools.scenes
    }

    fn borrow_pool_mut(pools: &mut ResourcePools) -> (pool: &mut ResourcePool<Scene>) {
        &mut pools.scenes
    }
}

impl Resource for Sampler {
    open spec fn pool(pools: ResourcePools) -> ResourcePool<Sampler> {
        pools.samplers
    }

    open spec fn with_pool(pools: ResourcePools, pool: ResourcePool<Sampler>) -> ResourcePools {
        ResourcePools { samplers: pool, ..pools }
    }

    fn borrow_pool(pools: &ResourcePools) -> (pool: &ResourcePool<Sampler>) {
        &pools.samplers
    }

    fn borrow_pool_mut(pools: &mut ResourcePools) -> (pool: &mut ResourcePool<Sampler>) {
        &mut pools.samplers
    }
}

impl Resource for Texture {
    open spec fn pool(pools: ResourcePools) -> ResourcePool<Texture> {
        pools.textures
    }

    open spec fn with_pool(pools: ResourcePools, pool: ResourcePool<Texture>) -> ResourcePools {
        ResourcePools { textures: pool, ..pools }
    }

    fn borrow_pool(pools: &ResourcePools) -> (pool: &ResourcePool<Texture>) {
        &pools.textures
    }

    fn borrow_pool_mut(pools: &mut ResourcePools) -> (pool: &mut ResourcePool<Texture>) {
        &mut pools.textures
    }
}

impl ResourcePools {
    /// Empty pools.
    pub fn new() -> (pools: Self)
        ensures
            pools.attributes@ == Seq::<Attribute>::empty(),
            pools.geometries@ == Seq::<Geometry>::empty(),
            pools.indices@ == Seq::<Index>::empty(),
            pools.materials@ == Seq::<Material>::empty(),
            pools.material_nodes@ == Seq::<MaterialNode>::empty(),
            pools.meshes@ == Seq::<Mesh>::empty(),
            pools.nodes@ == Seq::<Node>::empty(),
            pools.cameras@ == Seq::<PerspectiveCamera>::empty(),
            pools.scenes@ == Seq::<Scene>::empty(),
            pools.samplers@ == Seq::<Sampler>::empty(),
            pools.textures@ == Seq::<Texture>::empty(),
    {
        ResourcePools {
            attributes: ResourcePool::new(),
            geometries: ResourcePool::new(),
            indices: ResourcePool::new(),
            materials: ResourcePool::new(),
            material_nodes: ResourcePool::new(),
            meshes: ResourcePool::new(),
            nodes: ResourcePool::new(),
            cameras: ResourcePool::new(),
            scenes: ResourcePool::new(),
            samplers: ResourcePool::new(),
            textures: ResourcePool::new(),
        }
    }

    /// The pool of the kind `T`.
    pub fn borrow<T: Resource>(&self) -> (pool: &ResourcePool<T>)
        ensures
            *pool == T::pool(*self),
    {
        T::borrow_pool(self)
    }

    /// The pool of the kind `T`, for writing. What the caller leaves in
    /// the pool replaces it; the other pools stay as they are.
    pub fn borrow_mut<T: Resource>(&mut self) -> (pool: &mut ResourcePool<T>)
        ensures
            *pool == T::pool(*old(self)),
            *final(self) == T::with_pool(*old(self), *final(pool)),
    {
        T::borrow_pool_mut(self)
    }
}

} // verus!
