use wgpu_rust_renderer::math::matrix4::IDENTITY;
use wgpu_rust_renderer::resource::resource::ResourceId;
use wgpu_rust_renderer::resource::resource::ResourcePool;
use wgpu_rust_renderer::resource::resource::ResourcePools;
use wgpu_rust_renderer::scene::camera::PerspectiveCamera;
use wgpu_rust_renderer::scene::index::IndexManager;
use wgpu_rust_renderer::scene::mesh::Mesh;
use wgpu_rust_renderer::scene::node::Node;
use wgpu_rust_renderer::scene::node::NodeExecutor;
use wgpu_rust_renderer::scene::object::Object;
use wgpu_rust_renderer::scene::scene::ResourceLinks;
use wgpu_rust_renderer::scene::scene::Scene;
use wgpu_rust_renderer::utils::material_helper::MaterialHelper;
use wgpu_rust_renderer::geometry::geometry::Geometry;

fn bits3(v: [f32; 3]) -> [u32; 3] {
    [v[0].to_bits(), v[1].to_bits(), v[2].to_bits()]
}

fn floats<const N: usize>(v: [u32; N]) -> [f32; N] {
    let mut out = [0.0; N];
    for i in 0..N {
        out[i] = f32::from_bits(v[i]);
    }
    out
}

fn bits<const N: usize>(v: [f32; N]) -> [u32; N] {
    let mut out = [0; N];
    for i in 0..N {
        out[i] = v[i].to_bits();
    }
    out
}

fn quaternion_from_euler(rotation: [u32; 3]) -> [u32; 4] {
    let e = floats(rotation);
    let (c1, c2, c3) = ((e[0] / 2.0).cos(), (e[1] / 2.0).cos(), (e[2] / 2.0).cos());
    let (s1, s2, s3) = ((e[0] / 2.0).sin(), (e[1] / 2.0).sin(), (e[2] / 2.0).sin());
    bits([
        s1 * c2 * c3 + c1 * s2 * s3,
        c1 * s2 * c3 - s1 * c2 * s3,
        c1 * c2 * s3 + s1 * s2 * c3,
        c1 * c2 * c3 - s1 * s2 * s3,
    ])
}

fn compose(position: [u32; 3], quaternion: [u32; 4], scale: [u32; 3]) -> [u32; 16] {
    let p = floats(position);
    let [x, y, z, w] = floats(quaternion);
    let [sx, sy, sz] = floats(scale);
    let (x2, y2, z2) = (x + x, y + y, z + z);
    let (xx, xy, xz) = (x * x2, x * y2, x * z2);
    let (yy, yz, zz) = (y * y2, y * z2, z * z2);
    let (wx, wy, wz) = (w * x2, w * y2, w * z2);
    bits([
        (1.0 - (yy + zz)) * sx,
        (xy + wz) * sx,
        (xz - wy) * sx,
        0.0,
        (xy - wz) * sy,
        (1.0 - (xx + zz)) * sy,
        (yz + wx) * sy,
        0.0,
        (xz + wy) * sz,
        (yz - wx) * sz,
        (1.0 - (xx + yy)) * sz,
        0.0,
        p[0],
        p[1],
        p[2],
        1.0,
    ])
}

fn multiply(above: [u32; 16], local: [u32; 16]) -> [u32; 16] {
    let a = floats(above);
    let b = floats(local);
    let mut m = [0.0f32; 16];
    for column in 0..4 {
        for row in 0..4 {
            m[column * 4 + row] = b[column * 4] * a[row]
                + b[column * 4 + 1] * a[4 + row]
                + b[column * 4 + 2] * a[8 + row]
                + b[column * 4 + 3] * a[12 + row];
        }
    }
    bits(m)
}

fn world_position(pool: &ResourcePool<Node>, rid: &ResourceId<Node>) -> [f32; 3] {
    let m = floats(*pool.borrow(rid).unwrap().borrow_world_matrix());
    [m[12], m[13], m[14]]
}

fn set_position(pool: &mut ResourcePool<Node>, rid: &ResourceId<Node>, position: [f32; 3]) {
    *pool.borrow_mut(rid).unwrap().borrow_position_mut() = bits3(position);
}

fn ids(handles: &[ResourceId<Node>]) -> Vec<usize> {
    handles.iter().map(|handle| handle.id()).collect()
}

fn sorted(mut v: Vec<usize>) -> Vec<usize> {
    v.sort();
    v
}

#[test]
fn new_node_is_at_rest() {
    let node = Node::new();
    assert!(node.borrow_parent().is_none());
    assert!(node.borrow_children().is_empty());
    assert_eq!(floats(*node.borrow_position()), [0.0, 0.0, 0.0]);
    assert_eq!(floats(*node.borrow_rotation()), [0.0, 0.0, 0.0]);
    assert_eq!(floats(*node.borrow_scale()), [1.0, 1.0, 1.0]);
    assert_eq!(*node.borrow_matrix(), IDENTITY);
    assert_eq!(*node.borrow_world_matrix(), IDENTITY);
    assert_eq!(
        floats(IDENTITY),
        [1.0, 0.0, 0.0, 0.0, 0.0, 1.0, 0.0, 0.0, 0.0, 0.0, 1.0, 0.0, 0.0, 0.0, 0.0, 1.0]
    );
}

#[test]
fn world_position_follows_the_chain_of_parents() {
    let mut pool: ResourcePool<Node> = ResourcePool::new();
    let root = pool.add(Node::new());
    let a = pool.add(Node::new());
    let b = pool.add(Node::new());
    assert!(NodeExecutor::add_child(&mut pool, &root, &a));
    assert!(NodeExecutor::add_child(&mut pool, &a, &b));
    set_position(&mut pool, &root, [0.0, 0.0, 0.0]);
    set_position(&mut pool, &a, [1.0, 0.0, 0.0]);
    set_position(&mut pool, &b, [0.0, 1.0, 0.0]);

    NodeExecutor::update_matrices(&mut pool, &root, &quaternion_from_euler, &compose, &multiply);
    assert_eq!(world_position(&pool, &b), [1.0, 1.0, 0.0]);
    assert_eq!(world_position(&pool, &a), [1.0, 0.0, 0.0]);

    set_position(&mut pool, &root, [5.0, 0.0, 0.0]);
    NodeExecutor::update_matrices(&mut pool, &root, &quaternion_from_euler, &compose, &multiply);
    assert_eq!(world_position(&pool, &b), [6.0, 1.0, 0.0]);
    assert_eq!(world_position(&pool, &a), [6.0, 0.0, 0.0]);
    assert_eq!(world_position(&pool, &root), [5.0, 0.0, 0.0]);
}

#[test]
fn update_below_a_node_leaves_the_rest_untouched() {
    let mut pool: ResourcePool<Node> = ResourcePool::new();
    let root = pool.add(Node::new());
    let a = pool.add(Node::new());
    let b = pool.add(Node::new());
    let other = pool.add(Node::new());
    NodeExecutor::add_child(&mut pool, &root, &a);
    NodeExecutor::add_child(&mut pool, &a, &b);
    set_position(&mut pool, &root, [2.0, 0.0, 0.0]);
    set_position(&mut pool, &a, [0.0, 3.0, 0.0]);
    set_position(&mut pool, &b, [0.0, 0.0, 4.0]);
    set_position(&mut pool, &other, [9.0, 9.0, 9.0]);

    NodeExecutor::update_matrices(&mut pool, &a, &quaternion_from_euler, &compose, &multiply);
    assert_eq!(world_position(&pool, &root), [0.0, 0.0, 0.0]);
    assert_eq!(world_position(&pool, &other), [0.0, 0.0, 0.0]);
    assert_eq!(world_position(&pool, &a), [0.0, 3.0, 0.0]);
    assert_eq!(world_position(&pool, &b), [0.0, 3.0, 4.0]);

    NodeExecutor::update_matrices(&mut pool, &root, &quaternion_from_euler, &compose, &multiply);
    assert_eq!(world_position(&pool, &b), [2.0, 3.0, 4.0]);
    assert_eq!(world_position(&pool, &other), [0.0, 0.0, 0.0]);
}

#[test]
fn scale_and_rotation_reach_the_children() {
    let mut pool: ResourcePool<Node> = ResourcePool::new();
    let root = pool.add(Node::new());
    let child = pool.add(Node::new());
    NodeExecutor::add_child(&mut pool, &root, &child);
    *pool.borrow_mut(&root).unwrap().borrow_scale_mut() = bits3([2.0, 2.0, 2.0]);
    *pool.borrow_mut(&root).unwrap().borrow_rotation_mut() =
        bits3([0.0, 0.0, std::f32::consts::FRAC_PI_2]);
    set_position(&mut pool, &child, [1.0, 0.0, 0.0]);

    NodeExecutor::update_matrices(&mut pool, &root, &quaternion_from_euler, &compose, &multiply);
    let p = world_position(&pool, &child);
    assert!((p[0] - 0.0).abs() < 1e-6 && (p[1] - 2.0).abs() < 1e-6 && p[2].abs() < 1e-6);
}

#[test]
fn children_of_one_root_are_collected_once_whatever_their_order() {
    let mut first: ResourcePool<Node> = ResourcePool::new();
    let root = first.add(Node::new());
    let a = first.add(Node::new());
    let b = first.add(Node::new());
    assert!(NodeExecutor::add_child(&mut first, &root, &a));
    assert!(NodeExecutor::add_child(&mut first, &root, &b));

    let mut second: ResourcePool<Node> = ResourcePool::new();
    let root2 = second.add(Node::new());
    let a2 = second.add(Node::new());
    let b2 = second.add(Node::new());
    assert!(NodeExecutor::add_child(&mut second, &root2, &b2));
    assert!(NodeExecutor::add_child(&mut second, &root2, &a2));

    let mut nodes = Vec::new();
    NodeExecutor::collect_nodes(&first, &root, &mut nodes);
    assert_eq!(ids(&nodes), vec![0, 1, 2]);
    let mut nodes2 = Vec::new();
    NodeExecutor::collect_nodes(&second, &root2, &mut nodes2);
    assert_eq!(ids(&nodes2), vec![0, 2, 1]);
    assert_eq!(sorted(ids(&nodes)), sorted(ids(&nodes2)));
    assert_eq!(sorted(ids(&nodes)), vec![root.id(), a.id(), b.id()]);
}

#[test]
fn nodes_are_collected_in_the_order_of_the_walk() {
    let mut pool: ResourcePool<Node> = ResourcePool::new();
    let root = pool.add(Node::new());
    let a = pool.add(Node::new());
    let b = pool.add(Node::new());
    let c = pool.add(Node::new());
    let d = pool.add(Node::new());
    let apart = pool.add(Node::new());
    NodeExecutor::add_child(&mut pool, &root, &a);
    NodeExecutor::add_child(&mut pool, &root, &b);
    NodeExecutor::add_child(&mut pool, &a, &c);
    NodeExecutor::add_child(&mut pool, &b, &d);

    let mut nodes = vec![apart];
    NodeExecutor::collect_nodes(&pool, &root, &mut nodes);
    assert_eq!(ids(&nodes), vec![5, 0, 1, 2, 4, 3]);

    let mut nodes = Vec::new();
    NodeExecutor::collect_nodes(&pool, &a, &mut nodes);
    assert_eq!(ids(&nodes), vec![1, 3]);
    assert_eq!(pool.borrow(&c).unwrap().borrow_parent().map(|p| p.id()), Some(1));
    assert_eq!(ids(pool.borrow(&root).unwrap().borrow_children()), vec![1, 2]);
}

#[test]
fn a_node_is_attached_once_and_never_below_itself() {
    let mut pool: ResourcePool<Node> = ResourcePool::new();
    let mut other: ResourcePool<Node> = ResourcePool::new();
    let root = pool.add(Node::new());
    let a = pool.add(Node::new());
    let b = pool.add(Node::new());
    for _ in 0..4 {
        other.add(Node::new());
    }
    let foreign = other.add(Node::new());

    assert!(!NodeExecutor::add_child(&mut pool, &root, &root));
    assert!(NodeExecutor::add_child(&mut pool, &root, &a));
    assert!(!NodeExecutor::add_child(&mut pool, &b, &a));
    assert!(NodeExecutor::add_child(&mut pool, &a, &b));
    assert!(!NodeExecutor::add_child(&mut pool, &b, &root));
    assert!(!NodeExecutor::add_child(&mut pool, &a, &root));
    assert!(!NodeExecutor::add_child(&mut pool, &root, &foreign));
    assert!(!NodeExecutor::add_child(&mut pool, &foreign, &root));

    assert_eq!(ids(pool.borrow(&root).unwrap().borrow_children()), vec![1]);
    assert_eq!(ids(pool.borrow(&a).unwrap().borrow_children()), vec![2]);
    assert!(pool.borrow(&root).unwrap().borrow_parent().is_none());
    let mut nodes = Vec::new();
    NodeExecutor::collect_nodes(&pool, &root, &mut nodes);
    assert_eq!(ids(&nodes), vec![0, 1, 2]);
}

#[test]
fn detached_node_updates_the_subtrees_of_its_children() {
    let mut pool: ResourcePool<Node> = ResourcePool::new();
    let root = pool.add(Node::new());
    let a = pool.add(Node::new());
    let b = pool.add(Node::new());
    let c = pool.add(Node::new());
    NodeExecutor::add_child(&mut pool, &root, &a);
    NodeExecutor::add_child(&mut pool, &root, &b);
    NodeExecutor::add_child(&mut pool, &a, &c);
    set_position(&mut pool, &root, [1.0, 0.0, 0.0]);
    set_position(&mut pool, &a, [0.0, 1.0, 0.0]);
    set_position(&mut pool, &b, [0.0, 2.0, 0.0]);
    set_position(&mut pool, &c, [0.0, 0.0, 3.0]);
    NodeExecutor::update_matrices(&mut pool, &root, &quaternion_from_euler, &compose, &multiply);

    let mut detached = Node::new();
    *detached.borrow_position_mut() = bits3([7.0, 0.0, 0.0]);
    detached.update_matrices(&mut pool, &quaternion_from_euler, &compose, &multiply);
    assert_eq!(floats(*detached.borrow_world_matrix())[12], 7.0);
    assert_eq!(world_position(&pool, &c), [1.0, 1.0, 3.0]);

    let mut pool2: ResourcePool<Node> = ResourcePool::new();
    let root2 = pool2.add(Node::new());
    let a2 = pool2.add(Node::new());
    NodeExecutor::add_child(&mut pool2, &root2, &a2);
    set_position(&mut pool2, &root2, [1.0, 0.0, 0.0]);
    set_position(&mut pool2, &a2, [0.0, 1.0, 0.0]);
    let mut copy = Node::new();
    *copy.borrow_position_mut() = bits3([1.0, 0.0, 0.0]);
    copy.update_matrices(&mut pool2, &quaternion_from_euler, &compose, &multiply);
    assert_eq!(world_position(&pool2, &a2), [0.0, 0.0, 0.0]);
}

#[test]
fn set_matrix_derives_position_rotation_and_scale() {
    let decompose = |matrix: [u32; 16]| {
        let m = floats(matrix);
        (bits([m[12], m[13], m[14]]), bits([0.0, 0.0, 0.0, 1.0]), bits([m[0], m[5], m[10]]))
    };
    let euler_from_quaternion = |quaternion: [u32; 4]| {
        let q = floats(quaternion);
        bits([q[0], q[1], q[2]])
    };
    let mut node = Node::new();
    let mut matrix = floats(IDENTITY);
    matrix[0] = 2.0;
    matrix[5] = 3.0;
    matrix[10] = 4.0;
    matrix[12] = 5.0;
    matrix[13] = 6.0;
    matrix[14] = 7.0;
    node.set_matrix(&bits(matrix), &decompose, &euler_from_quaternion);
    assert_eq!(floats(*node.borrow_matrix()), matrix);
    assert_eq!(floats(*node.borrow_position()), [5.0, 6.0, 7.0]);
    assert_eq!(floats(*node.borrow_scale()), [2.0, 3.0, 4.0]);
    assert_eq!(floats(*node.borrow_rotation()), [0.0, 0.0, 0.0]);
    assert_eq!(*node.borrow_world_matrix(), IDENTITY);

    node.set_world_matrix(&bits(matrix));
    assert_eq!(floats(*node.borrow_world_matrix()), matrix);

    node.update_matrix(&quaternion_from_euler, &compose);
    assert_eq!(floats(*node.borrow_matrix()), matrix);
}

#[test]
fn first_link_stays() {
    let mut nodes: ResourcePool<Node> = ResourcePool::new();
    let n0 = nodes.add(Node::new());
    let n1 = nodes.add(Node::new());
    let n2 = nodes.add(Node::new());
    let mut links: ResourceLinks<Node, Node> = ResourceLinks::new();
    assert!(!links.has(&n0));
    assert!(links.borrow(&n0).is_none());
    links.add(&n0, &n1);
    assert!(links.has(&n0));
    assert!(!links.has(&n1));
    assert_eq!(links.borrow(&n0).map(|to| to.id()), Some(1));
    links.add(&n0, &n2);
    assert_eq!(links.borrow(&n0).map(|to| to.id()), Some(1));
    links.add(&n2, &n2);
    assert_eq!(links.borrow(&n2).map(|to| to.id()), Some(2));
}

#[test]
fn attachments_are_held_in_both_directions() {
    let mut pools = ResourcePools::new();
    let n0 = pools.nodes.add(Node::new());
    let n1 = pools.nodes.add(Node::new());
    let geometry = pools.geometries.add(Geometry::new());
    let material = MaterialHelper::create_basic_material(&mut pools, &[0, 0, 0]);
    let m0 = pools.meshes.add(Mesh::new(geometry, material));
    let m1 = pools.meshes.add(Mesh::new(geometry, material));
    let make = |_: u32, _: u32, _: u32, _: u32| IDENTITY;
    let invert = |m: [u32; 16]| m;
    let camera = pools.cameras.add(PerspectiveCamera::new(1, 2, 3, 4, &make, &invert));

    let mut scene = Scene::new();
    assert!(scene.borrow_assigned_to::<Mesh>(&n0).is_none());
    assert!(scene.borrow_assigned_from::<Mesh>(&m0).is_none());
    scene.assign(&n0, &m0);
    assert_eq!(scene.borrow_assigned_to::<Mesh>(&n0).map(|m| m.id()), Some(0));
    assert_eq!(scene.borrow_assigned_from::<Mesh>(&m0).map(|n| n.id()), Some(0));

    scene.assign(&n0, &m1);
    assert_eq!(scene.borrow_assigned_to::<Mesh>(&n0).map(|m| m.id()), Some(0));
    assert!(scene.borrow_assigned_from::<Mesh>(&m1).is_none());
    scene.assign(&n1, &m0);
    assert!(scene.borrow_assigned_to::<Mesh>(&n1).is_none());
    assert_eq!(scene.borrow_assigned_from::<Mesh>(&m0).map(|n| n.id()), Some(0));

    assert!(scene.borrow_assigned_to::<PerspectiveCamera>(&n0).is_none());
    scene.assign(&n0, &camera);
    assert_eq!(scene.borrow_assigned_to::<PerspectiveCamera>(&n0).map(|c| c.id()), Some(0));
    assert_eq!(scene.borrow_assigned_from::<PerspectiveCamera>(&camera).map(|n| n.id()), Some(0));
    scene.assign(&n1, &m1);
    assert_eq!(scene.borrow_assigned_to::<Mesh>(&n1).map(|m| m.id()), Some(1));
    assert_eq!(scene.borrow_assigned_from::<Mesh>(&m1).map(|n| n.id()), Some(1));

    let mesh = pools.meshes.borrow(&m0).unwrap();
    assert_eq!(mesh.borrow_geometry().id(), geometry.id());
    assert_eq!(mesh.borrow_material().id(), material.id());
}

#[test]
fn scene_collects_and_updates_its_roots_in_turn() {
    let mut pools = ResourcePools::new();
    let r0 = pools.nodes.add(Node::new());
    let r1 = pools.nodes.add(Node::new());
    let a = pools.nodes.add(Node::new());
    let b = pools.nodes.add(Node::new());
    NodeExecutor::add_child(&mut pools.nodes, &r0, &a);
    NodeExecutor::add_child(&mut pools.nodes, &r1, &b);
    set_position(&mut pools.nodes, &r0, [1.0, 0.0, 0.0]);
    set_position(&mut pools.nodes, &r1, [0.0, 1.0, 0.0]);
    set_position(&mut pools.nodes, &a, [0.0, 0.0, 1.0]);
    set_position(&mut pools.nodes, &b, [0.0, 0.0, 2.0]);

    let mut scene = Scene::new();
    assert_eq!(floats(*scene.borrow_background_color()), [1.0, 1.0, 1.0]);
    *scene.borrow_background_color_mut() = bits3([0.5, 0.25, 0.0]);
    assert_eq!(floats(*scene.borrow_background_color()), [0.5, 0.25, 0.0]);
    assert!(scene.collect_nodes(&pools).is_empty());
    scene.add_node(&r1);
    scene.add_node(&r0);
    assert_eq!(ids(&scene.collect_nodes(&pools)), vec![1, 3, 0, 2]);

    scene.update_matrices(&mut pools.nodes, &quaternion_from_euler, &compose, &multiply);
    assert_eq!(world_position(&pools.nodes, &a), [1.0, 0.0, 1.0]);
    assert_eq!(world_position(&pools.nodes, &b), [0.0, 1.0, 2.0]);

    let scene_rid = pools.scenes.add(scene);
    let scene = pools.scenes.borrow(&scene_rid).unwrap();
    set_position(&mut pools.nodes, &r0, [4.0, 0.0, 0.0]);
    scene.update_matrices(&mut pools.nodes, &quaternion_from_euler, &compose, &multiply);
    assert_eq!(world_position(&pools.nodes, &a), [4.0, 0.0, 1.0]);
}

#[test]
fn camera_matrices_follow_its_parameters() {
    let make = |fovy: u32, aspect: u32, near: u32, far: u32| {
        let mut m = [0; 16];
        m[0] = fovy;
        m[1] = aspect;
        m[2] = near;
        m[3] = far;
        m
    };
    let invert = |m: [u32; 16]| {
        let mut inverse = m;
        inverse.reverse();
        inverse
    };
    let mut camera = PerspectiveCamera::new(10, 20, 30, 40, &make, &invert);
    assert_eq!(camera.borrow_projection_matrix()[..4], [10, 20, 30, 40]);
    assert_eq!(camera.borrow_projection_matrix_inverse()[12..], [40, 30, 20, 10]);
    camera.set_aspect(21, &make, &invert);
    assert_eq!(camera.borrow_projection_matrix()[..4], [10, 21, 30, 40]);
    assert_eq!(camera.borrow_projection_matrix_inverse()[12..], [40, 30, 21, 10]);
    let other = |_: u32, _: u32, _: u32, _: u32| IDENTITY;
    camera.update_projection_matrix(&other, &invert);
    assert_eq!(*camera.borrow_projection_matrix(), IDENTITY);
}

#[test]
fn index_manager_numbers_its_indices() {
    let mut manager = IndexManager::new();
    let first = manager.create(vec![0, 1, 2]);
    let second = manager.create(vec![]);
    assert_eq!((first.get_id(), first.get_count()), (0, 3));
    assert_eq!(first.borrow_data(), &vec![0, 1, 2]);
    assert_eq!((second.get_id(), second.get_count()), (1, 0));
}

#[test]
fn new_object_is_at_rest() {
    let object = Object::new(3);
    assert_eq!(object.get_id(), 3);
    assert_eq!(object.get_parent_id(), None);
    assert!(object.borrow_children_ids().is_empty());
    assert_eq!(floats(*object.borrow_position()), [0.0, 0.0, 0.0]);
    assert_eq!(floats(*object.borrow_rotation()), [0.0, 0.0, 0.0]);
    assert_eq!(floats(*object.borrow_scale()), [1.0, 1.0, 1.0]);
    assert_eq!(*object.borrow_matrix(), IDENTITY);
}

#[test]
fn forest_is_told_from_what_is_none() {
    let mut pool: ResourcePool<Node> = ResourcePool::new();
    assert!(NodeExecutor::is_forest(&pool));
    let root = pool.add(Node::new());
    let a = pool.add(Node::new());
    let b = pool.add(Node::new());
    let c = pool.add(Node::new());
    assert!(NodeExecutor::is_forest(&pool));
    NodeExecutor::add_child(&mut pool, &root, &a);
    NodeExecutor::add_child(&mut pool, &a, &b);
    NodeExecutor::add_child(&mut pool, &root, &c);
    assert!(NodeExecutor::is_forest(&pool));

    let taken = std::mem::replace(pool.borrow_mut(&a).unwrap(), Node::new());
    assert!(!NodeExecutor::is_forest(&pool));
    *pool.borrow_mut(&a).unwrap() = taken;
    assert!(NodeExecutor::is_forest(&pool));

    let leaf = std::mem::replace(pool.borrow_mut(&b).unwrap(), Node::new());
    let top = std::mem::replace(pool.borrow_mut(&root).unwrap(), leaf);
    *pool.borrow_mut(&b).unwrap() = top;
    assert!(!NodeExecutor::is_forest(&pool));
}
