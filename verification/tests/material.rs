use std::collections::HashMap;
use wgpu_rust_renderer::material::material::Material;
use wgpu_rust_renderer::material::material::Side;
use wgpu_rust_renderer::material::material::FRAGMENT_CHUNK1;
use wgpu_rust_renderer::material::material::FRAGMENT_CHUNK2;
use wgpu_rust_renderer::material::material::PREFIX_CHUNK1;
use wgpu_rust_renderer::material::material::PREFIX_CHUNK2;
use wgpu_rust_renderer::material::material::PREFIX_CHUNK3;
use wgpu_rust_renderer::material::material::VERTEX_CHUNK;
use wgpu_rust_renderer::material::node::add::AddNode;
use wgpu_rust_renderer::material::node::brdf::BRDFNode;
use wgpu_rust_renderer::material::node::brdf::BRDFNodeDescriptor;
use wgpu_rust_renderer::material::node::brdf::FUNCTION_CHUNK;
use wgpu_rust_renderer::material::node::const_float::ConstFloatNode;
use wgpu_rust_renderer::material::node::const_vector3::ConstVector3Node;
use wgpu_rust_renderer::material::node::float::FloatNode;
use wgpu_rust_renderer::material::node::multiply::MultiplyNode;
use wgpu_rust_renderer::material::node::node::MaterialNode;
use wgpu_rust_renderer::material::node::node::UniformContents;
use wgpu_rust_renderer::material::node::normal_matrix::NormalMatrixNode;
use wgpu_rust_renderer::material::node::srgb_to_linear::SRGBToLinearNode;
use wgpu_rust_renderer::material::node::sub::SubNode;
use wgpu_rust_renderer::material::node::tangent_to_object_normal::TangentToObjectNormalNode;
use wgpu_rust_renderer::material::node::texture::TextureNode;
use wgpu_rust_renderer::material::node::vector3::Vector3Node;
use wgpu_rust_renderer::material::node::xyz::XYZNode;
use wgpu_rust_renderer::material::text::decimal_string;
use wgpu_rust_renderer::material::text::numbered_string;
use wgpu_rust_renderer::resource::resource::ResourceId;
use wgpu_rust_renderer::resource::resource::ResourcePool;
use wgpu_rust_renderer::resource::resource::ResourcePools;
use wgpu_rust_renderer::texture::sampler::Sampler;
use wgpu_rust_renderer::texture::sampler::SamplerDescriptor;
use wgpu_rust_renderer::texture::texture::Texture;
use wgpu_rust_renderer::texture::texture::TextureFormat;
use wgpu_rust_renderer::utils::gltf_loader::GltfLoader;
use wgpu_rust_renderer::utils::gltf_loader::GltfMaterial;
use wgpu_rust_renderer::utils::gltf_loader::GltfTexture;
use wgpu_rust_renderer::utils::material_helper::MaterialHelper;

fn count(text: &str, part: &str) -> usize {
    text.matches(part).count()
}

fn ids(handles: &[ResourceId<MaterialNode>]) -> Vec<usize> {
    handles.iter().map(|handle| handle.id()).collect()
}

fn texture_handles(n: usize) -> (Vec<ResourceId<Texture>>, Vec<ResourceId<Sampler>>) {
    let mut textures: ResourcePool<Texture> = ResourcePool::new();
    let mut samplers: ResourcePool<Sampler> = ResourcePool::new();
    let mut t = Vec::new();
    let mut s = Vec::new();
    for _ in 0..n {
        t.push(textures.add(Texture::new(1, 1, TextureFormat::Uint8, vec![0, 0, 0, 0])));
        s.push(samplers.add(Sampler::new(SamplerDescriptor::default())));
    }
    (t, s)
}

#[test]
fn numbers_are_written_in_decimal() {
    assert_eq!(decimal_string(0), "0");
    assert_eq!(decimal_string(7), "7");
    assert_eq!(decimal_string(10), "10");
    assert_eq!(decimal_string(4096), "4096");
    assert_eq!(decimal_string(usize::MAX), usize::MAX.to_string());
    assert_eq!(numbered_string("texture_", 305), "texture_305");
}

#[test]
fn square_of_a_leaf_declares_the_leaf_once() {
    let mut pool: ResourcePool<MaterialNode> = ResourcePool::new();
    let x = pool.add(MaterialNode::Vector3(Vector3Node::new([1, 2, 3])));
    let square = pool.add(MaterialNode::Multiply(MultiplyNode::new(x, x)));
    let material = Material::new(square, Side::FrontSide);
    assert!(material.can_compile(&pool));

    assert_eq!(ids(&material.borrow_nodes(&pool)), vec![0, 1]);
    let code = material.build_shader_code(&pool);
    assert_eq!(count(&code, "vector3_0: vec3<f32>;\n"), 1);
    assert_eq!(
        count(&code, "let multiply_output_1 = unif.vector3_0 * unif.vector3_0;\n"),
        1
    );
    assert_eq!(count(&code, "multiply_output_1"), 2);
    assert_eq!(
        code,
        format!(
            "{}{}{}{}{}{}{}{}{}",
            PREFIX_CHUNK1,
            "vector3_0: vec3<f32>;\n",
            PREFIX_CHUNK2,
            PREFIX_CHUNK3,
            VERTEX_CHUNK,
            FRAGMENT_CHUNK1,
            "let multiply_output_1 = unif.vector3_0 * unif.vector3_0;\n",
            "var color: vec3<f32> = multiply_output_1;\n",
            FRAGMENT_CHUNK2,
        )
    );
}

#[test]
fn square_of_a_texture_samples_the_texture_once() {
    let (textures, samplers) = texture_handles(3);
    let mut pool: ResourcePool<MaterialNode> = ResourcePool::new();
    let x = pool.add(MaterialNode::Texture(TextureNode::new(textures[2], samplers[1])));
    let square = pool.add(MaterialNode::Multiply(MultiplyNode::new(x, x)));
    let material = Material::new(square, Side::DoubleSide);

    let code = material.build_shader_code(&pool);
    assert_eq!(
        count(&code, "let texture_output_0 = textureSample(texture_2, sampler_1, in.uv);\n"),
        1
    );
    assert_eq!(
        count(&code, "let multiply_output_1 = texture_output_0 * texture_output_0;\n"),
        1
    );
    assert_eq!(count(&code, "var texture_2: texture_2d<f32>;\n"), 1);
    assert_eq!(count(&code, "var sampler_1: sampler;\n"), 1);
    assert_eq!(
        code,
        format!(
            "{}{}{}{}{}{}{}{}{}{}{}",
            PREFIX_CHUNK1,
            PREFIX_CHUNK2,
            "\n[[group(0), binding(3)]]\nvar texture_2: texture_2d<f32>;\n",
            "\n[[group(0), binding(4)]]\nvar sampler_1: sampler;\n",
            PREFIX_CHUNK3,
            VERTEX_CHUNK,
            FRAGMENT_CHUNK1,
            "let texture_output_0 = textureSample(texture_2, sampler_1, in.uv);\n",
            "let multiply_output_1 = texture_output_0 * texture_output_0;\n",
            "var color: vec3<f32> = multiply_output_1;\n",
            FRAGMENT_CHUNK2,
        )
    );
}

#[test]
fn nodes_are_collected_operands_first_and_once() {
    let mut pool: ResourcePool<MaterialNode> = ResourcePool::new();
    let a = pool.add(MaterialNode::Float(FloatNode::new(1)));
    let b = pool.add(MaterialNode::Vector3(Vector3Node::new([0; 3])));
    let unused = pool.add(MaterialNode::Float(FloatNode::new(2)));
    let sum = pool.add(MaterialNode::Add(AddNode::new(b, a)));
    let product = pool.add(MaterialNode::Multiply(MultiplyNode::new(sum, b)));
    let difference = pool.add(MaterialNode::Sub(SubNode::new(product, sum)));
    assert_eq!(unused.id(), 2);

    let material = Material::new(difference, Side::FrontSide);
    assert_eq!(ids(&material.borrow_nodes(&pool)), vec![1, 0, 3, 4, 5]);

    let mut nodes = Vec::new();
    let mut visited = HashMap::new();
    visited.insert(0, true);
    pool.borrow(&product).unwrap().collect_nodes(&pool, &mut nodes, &mut visited, product);
    assert_eq!(ids(&nodes), vec![1, 3, 4]);
    assert_eq!(visited.len(), 4);
}

#[test]
fn shared_operands_are_emitted_once() {
    let (textures, samplers) = texture_handles(1);
    let mut pool: ResourcePool<MaterialNode> = ResourcePool::new();
    let t = pool.add(MaterialNode::Texture(TextureNode::new(textures[0], samplers[0])));
    let rgb = pool.add(MaterialNode::XYZ(XYZNode::new(t)));
    let linear = pool.add(MaterialNode::SRGBToLinear(SRGBToLinearNode::new(t)));
    let sum = pool.add(MaterialNode::Add(AddNode::new(rgb, linear)));
    let twice = pool.add(MaterialNode::Sub(SubNode::new(sum, rgb)));

    let mut visited = HashMap::new();
    let text = pool.borrow(&twice).unwrap().build_fragment_shader(&pool, &mut visited, twice.id());
    assert_eq!(
        text,
        "let texture_output_0 = textureSample(texture_0, sampler_0, in.uv);\n\
         let xyz_output_1 = texture_output_0.xyz;\n\
         let srgb_to_linear_output_2 = srgb_to_linear(texture_output_0);\n\
         let add_output_3 = xyz_output_1 + srgb_to_linear_output_2;\n\
         let sub_output_4 = add_output_3 - xyz_output_1;\n"
    );
    assert_eq!(visited.len(), 5);

    let again = pool.borrow(&twice).unwrap().build_fragment_shader(&pool, &mut visited, twice.id());
    assert_eq!(again, "");
}

#[test]
fn leaves_without_statement_are_not_marked() {
    let mut pool: ResourcePool<MaterialNode> = ResourcePool::new();
    let nodes = vec![
        pool.add(MaterialNode::ConstFloat(ConstFloatNode::new("2".to_string()))),
        pool.add(MaterialNode::ConstVector3(ConstVector3Node::new([
            "1".to_string(),
            "0.5".to_string(),
            "0".to_string(),
        ]))),
        pool.add(MaterialNode::Float(FloatNode::new(0))),
        pool.add(MaterialNode::Vector3(Vector3Node::new([0; 3]))),
        pool.add(MaterialNode::NormalMatrix(NormalMatrixNode::new())),
    ];
    let outputs = [
        "2",
        "vec3<f32>(1, 0.5, 0)",
        "unif.f32_2",
        "unif.vector3_3",
        "object.normal_matrix",
    ];
    let declarations = ["", "", "f32_2: f32;\n", "vector3_3: vec3<f32>;\n", ""];
    for (i, rid) in nodes.iter().enumerate() {
        let node = pool.borrow(rid).unwrap();
        let mut visited = HashMap::new();
        assert_eq!(node.build_fragment_shader(&pool, &mut visited, rid.id()), "");
        assert!(visited.is_empty());
        assert_eq!(node.get_fragment_output(rid.id()), outputs[i]);
        assert_eq!(node.build_declaration(rid.id()), declarations[i]);
        assert_eq!(node.build_functions(rid.id()), "");
        assert!(node.has_operands_below(0));
    }
    assert!(pool.borrow(&nodes[0]).unwrap().borrow_contents().is_none());
    assert!(matches!(
        pool.borrow(&nodes[2]).unwrap().borrow_contents(),
        Some(UniformContents::Float { value: [0] })
    ));
}

#[test]
fn brdf_statement() {
    let (textures, samplers) = texture_handles(1);
    let mut pool: ResourcePool<MaterialNode> = ResourcePool::new();
    let base_color = pool.add(MaterialNode::Vector3(Vector3Node::new([0; 3])));
    let metallic = pool.add(MaterialNode::Float(FloatNode::new(0)));
    let roughness = pool.add(MaterialNode::Float(FloatNode::new(0)));
    let map = pool.add(MaterialNode::Texture(TextureNode::new(textures[0], samplers[0])));
    let normal = pool.add(MaterialNode::TangentToObjectNormal(TangentToObjectNormalNode::new(map)));
    let brdf = pool.add(MaterialNode::BRDF(BRDFNode::new(BRDFNodeDescriptor {
        base_color,
        metallic,
        normal,
        roughness,
    })));
    let material = Material::new(brdf, Side::BackSide);
    assert_eq!(ids(&material.borrow_nodes(&pool)), vec![0, 1, 3, 4, 2, 5]);

    let mut visited = HashMap::new();
    let text = pool.borrow(&brdf).unwrap().build_fragment_shader(&pool, &mut visited, brdf.id());
    assert_eq!(
        text,
        "let texture_output_3 = textureSample(texture_0, sampler_0, in.uv);\n\
         let tangent_to_object_normal_output_4 = perturb_normal_to_arb(-in.view_position, in.normal, texture_output_3, in.uv);\n\
         let brdf_v_5 = normalize(in.view_position);\n\
         let brdf_l_5 = normalize(light_dir);\n\
         let brdf_n_5 = normalize(tangent_to_object_normal_output_4);\n\
         let brdf_h_5 = normalize(brdf_l_5 + brdf_v_5);\n\
         let brdf_output_5 = brdf(brdf_v_5, brdf_n_5, brdf_h_5, brdf_l_5, unif.vector3_0, unif.f32_1, unif.f32_2);\n\
         use_directional_light = false;\n"
    );

    let code = material.build_shader_code(&pool);
    assert_eq!(count(&code, FUNCTION_CHUNK), 1);
    assert_eq!(count(&code, "fn perturb_normal_to_arb("), 1);
    assert!(code.contains("vector3_0: vec3<f32>;\nf32_1: f32;\nf32_2: f32;\n"));
    assert!(code.ends_with(&format!(
        "var color: vec3<f32> = brdf_output_5;\n{}",
        FRAGMENT_CHUNK2
    )));
    assert_eq!(*material.borrow_side(), Side::BackSide);
    assert_eq!(material.borrow_color().id(), 5);
}

#[test]
fn textures_and_samplers_are_bound_once_in_order_of_first_use() {
    let (textures, samplers) = texture_handles(3);
    let mut pool: ResourcePool<MaterialNode> = ResourcePool::new();
    let a = pool.add(MaterialNode::Texture(TextureNode::new(textures[2], samplers[0])));
    let b = pool.add(MaterialNode::Texture(TextureNode::new(textures[0], samplers[0])));
    let c = pool.add(MaterialNode::Texture(TextureNode::new(textures[2], samplers[1])));
    let f = pool.add(MaterialNode::Float(FloatNode::new(7)));
    let ab = pool.add(MaterialNode::Add(AddNode::new(a, b)));
    let cf = pool.add(MaterialNode::Multiply(MultiplyNode::new(c, f)));
    let root = pool.add(MaterialNode::Add(AddNode::new(ab, cf)));
    let material = Material::new(root, Side::FrontSide);

    let contents = material.borrow_contents(&pool);
    assert_eq!(contents.len(), 4);
    assert!(matches!(contents[3], UniformContents::Float { value: [7] }));
    let bound: Vec<usize> = material.borrow_textures(&pool).iter().map(|t| t.id()).collect();
    assert_eq!(bound, vec![2, 0]);
    let bound: Vec<usize> = material.borrow_samplers(&pool).iter().map(|s| s.id()).collect();
    assert_eq!(bound, vec![0, 1]);

    let code = material.build_shader_code(&pool);
    assert!(code.contains(
        "\n[[group(0), binding(3)]]\nvar texture_2: texture_2d<f32>;\n\
         \n[[group(0), binding(4)]]\nvar texture_0: texture_2d<f32>;\n\
         \n[[group(0), binding(5)]]\nvar sampler_0: sampler;\n\
         \n[[group(0), binding(6)]]\nvar sampler_1: sampler;\n"
    ));
    assert_eq!(count(&code, "f32_3: f32;\n"), 1);
}

#[test]
fn graphs_with_operands_above_are_refused() {
    let mut other: ResourcePool<MaterialNode> = ResourcePool::new();
    let first = other.add(MaterialNode::Float(FloatNode::new(0)));
    let second = other.add(MaterialNode::Float(FloatNode::new(0)));

    let mut pool: ResourcePool<MaterialNode> = ResourcePool::new();
    let dangling = pool.add(MaterialNode::XYZ(XYZNode::new(second)));
    assert!(!MaterialNode::is_ordered(&pool));
    assert!(!Material::new(dangling, Side::FrontSide).can_compile(&pool));
    assert!(!pool.borrow(&dangling).unwrap().has_operands_below(1));
    assert!(pool.borrow(&dangling).unwrap().has_operands_below(2));

    let mut pool: ResourcePool<MaterialNode> = ResourcePool::new();
    let own = pool.add(MaterialNode::XYZ(XYZNode::new(first)));
    assert!(!MaterialNode::is_ordered(&pool));
    assert!(!Material::new(own, Side::FrontSide).can_compile(&pool));

    let mut pool: ResourcePool<MaterialNode> = ResourcePool::new();
    let leaf = pool.add(MaterialNode::Float(FloatNode::new(0)));
    let user = pool.add(MaterialNode::XYZ(XYZNode::new(leaf)));
    assert!(MaterialNode::is_ordered(&pool));
    assert!(Material::new(user, Side::FrontSide).can_compile(&pool));
    assert!(Material::new(second, Side::FrontSide).can_compile(&other));
    let mut third_pool: ResourcePool<MaterialNode> = ResourcePool::new();
    third_pool.add(MaterialNode::Float(FloatNode::new(0)));
    assert!(!Material::new(second, Side::FrontSide).can_compile(&third_pool));
}

#[test]
fn default_side_is_front() {
    assert_eq!(Side::default(), Side::FrontSide);
}

#[test]
fn basic_material_is_one_colour() {
    let mut pools = ResourcePools::new();
    let material = MaterialHelper::create_basic_material(&mut pools, &[9, 8, 7]);
    assert_eq!(material.id(), 0);
    assert_eq!(pools.material_nodes.len(), 1);
    let material = pools.materials.borrow(&material).unwrap();
    assert_eq!(*material.borrow_side(), Side::FrontSide);
    assert!(material.can_compile(&pools.material_nodes));
    let contents = material.borrow_contents(&pools.material_nodes);
    assert!(matches!(contents[..], [UniformContents::Vector3 { value: [9, 8, 7] }]));
    let code = material.build_shader_code(&pools.material_nodes);
    assert!(code.contains("var color: vec3<f32> = unif.vector3_0;\n"));
}

#[test]
fn basic_material_with_texture_multiplies_colour_and_texture() {
    let mut pools = ResourcePools::new();
    pools.samplers.add(Sampler::new(SamplerDescriptor::default()));
    pools.textures.add(Texture::new(1, 1, TextureFormat::Uint8, vec![1, 2, 3, 4]));
    let texture = pools.textures.add(Texture::new(1, 1, TextureFormat::Uint8, vec![1, 2, 3, 4]));
    pools.material_nodes.add(MaterialNode::Float(FloatNode::new(0)));

    let material =
        MaterialHelper::create_basic_material_with_texture(&mut pools, &[1, 1, 1], texture);
    assert_eq!(pools.material_nodes.len(), 5);
    assert_eq!(pools.samplers.len(), 2);
    let material = pools.materials.borrow(&material).unwrap();
    assert_eq!(material.borrow_color().id(), 4);
    assert_eq!(ids(&material.borrow_nodes(&pools.material_nodes)), vec![1, 2, 3, 4]);

    let mut visited = HashMap::new();
    let root = pools.material_nodes.borrow(material.borrow_color()).unwrap();
    assert_eq!(
        root.build_fragment_shader(&pools.material_nodes, &mut visited, 4),
        "let texture_output_2 = textureSample(texture_1, sampler_1, in.uv);\n\
         let xyz_output_3 = texture_output_2.xyz;\n\
         let multiply_output_4 = unif.vector3_1 * xyz_output_3;\n"
    );
}

#[test]
fn brdf_material_has_the_normal_of_the_surface() {
    let mut pools = ResourcePools::new();
    let material = MaterialHelper::create_brdf_material(&mut pools, &[1, 2, 3], 4, 5);
    assert_eq!(pools.material_nodes.len(), 5);
    let material = pools.materials.borrow(&material).unwrap();
    assert_eq!(material.borrow_color().id(), 4);
    assert!(material.can_compile(&pools.material_nodes));
    let contents = material.borrow_contents(&pools.material_nodes);
    assert!(matches!(
        contents[..],
        [
            UniformContents::Vector3 { value: [1, 2, 3] },
            UniformContents::Float { value: [4] },
            UniformContents::Float { value: [5] },
        ]
    ));
    let mut visited = HashMap::new();
    let root = pools.material_nodes.borrow(material.borrow_color()).unwrap();
    assert_eq!(
        root.build_fragment_shader(&pools.material_nodes, &mut visited, 4),
        "let brdf_v_4 = normalize(in.view_position);\n\
         let brdf_l_4 = normalize(light_dir);\n\
         let brdf_n_4 = normalize(in.normal);\n\
         let brdf_h_4 = normalize(brdf_l_4 + brdf_v_4);\n\
         let brdf_output_4 = brdf(brdf_v_4, brdf_n_4, brdf_h_4, brdf_l_4, unif.vector3_0, unif.f32_1, unif.f32_2);\n\
         use_directional_light = false;\n"
    );
}

#[test]
fn gltf_material_without_textures() {
    let mut pools = ResourcePools::new();
    let material = GltfLoader::create_material(
        &mut pools,
        &GltfMaterial {
            base_color_factor: [1, 2, 3],
            base_color_texture: None,
            metallic_factor: 4,
            roughness_factor: 5,
            metallic_roughness_texture: None,
            normal_texture: None,
            emissive_factor: [6, 7, 8],
            emissive_texture: None,
        },
    );
    assert_eq!(pools.material_nodes.len(), 7);
    let material = pools.materials.borrow(&material).unwrap();
    assert_eq!(material.borrow_color().id(), 6);
    assert_eq!(*material.borrow_side(), Side::FrontSide);
    let mut visited = HashMap::new();
    let root = pools.material_nodes.borrow(material.borrow_color()).unwrap();
    assert_eq!(
        root.build_fragment_shader(&pools.material_nodes, &mut visited, 6),
        "let brdf_v_4 = normalize(in.view_position);\n\
         let brdf_l_4 = normalize(light_dir);\n\
         let brdf_n_4 = normalize(in.normal);\n\
         let brdf_h_4 = normalize(brdf_l_4 + brdf_v_4);\n\
         let brdf_output_4 = brdf(brdf_v_4, brdf_n_4, brdf_h_4, brdf_l_4, unif.vector3_0, unif.f32_1, unif.f32_2);\n\
         use_directional_light = false;\n\
         let add_output_6 = brdf_output_4 + unif.vector3_5;\n"
    );
}

#[test]
fn gltf_material_with_every_texture() {
    let (textures, samplers) = texture_handles(4);
    let pair = |i: usize| Some(GltfTexture { texture: textures[i], sampler: samplers[3 - i] });
    let mut pools = ResourcePools::new();
    pools.material_nodes.add(MaterialNode::Float(FloatNode::new(0)));
    let material = GltfLoader::create_material(
        &mut pools,
        &GltfMaterial {
            base_color_factor: [1, 2, 3],
            base_color_texture: pair(0),
            metallic_factor: 4,
            roughness_factor: 5,
            metallic_roughness_texture: pair(1),
            normal_texture: pair(2),
            emissive_factor: [6, 7, 8],
            emissive_texture: pair(3),
        },
    );
    assert_eq!(pools.material_nodes.len(), 1 + 7 + 4 + 5 + 6 + 4);
    let material = pools.materials.borrow(&material).unwrap();
    assert_eq!(material.borrow_color().id(), 26);
    assert!(material.can_compile(&pools.material_nodes));
    let mut visited = HashMap::new();
    let root = pools.material_nodes.borrow(material.borrow_color()).unwrap();
    assert_eq!(
        root.build_fragment_shader(&pools.material_nodes, &mut visited, 26),
        "let texture_output_2 = textureSample(texture_0, sampler_3, in.uv);\n\
         let srgb_to_linear_output_3 = srgb_to_linear(texture_output_2);\n\
         let xyz_output_4 = srgb_to_linear_output_3.xyz;\n\
         let multiply_output_5 = unif.vector3_1 * xyz_output_4;\n\
         let texture_output_8 = textureSample(texture_1, sampler_2, in.uv);\n\
         let z_output_10 = texture_output_8.z;\n\
         let multiply_output_11 = unif.f32_6 * z_output_10;\n\
         let texture_output_13 = textureSample(texture_2, sampler_1, in.uv);\n\
         let xyz_output_14 = texture_output_13.xyz;\n\
         let multiply_output_17 = xyz_output_14 * 2;\n\
         let sub_output_18 = multiply_output_17 - 1;\n\
         let tangent_to_object_normal_output_19 = perturb_normal_to_arb(-in.view_position, in.normal, sub_output_18, in.uv);\n\
         let y_output_9 = texture_output_8.y;\n\
         let multiply_output_12 = unif.f32_7 * y_output_9;\n\
         let brdf_v_20 = normalize(in.view_position);\n\
         let brdf_l_20 = normalize(light_dir);\n\
         let brdf_n_20 = normalize(tangent_to_object_normal_output_19);\n\
         let brdf_h_20 = normalize(brdf_l_20 + brdf_v_20);\n\
         let brdf_output_20 = brdf(brdf_v_20, brdf_n_20, brdf_h_20, brdf_l_20, multiply_output_5, multiply_output_11, multiply_output_12);\n\
         use_directional_light = false;\n\
         let texture_output_22 = textureSample(texture_3, sampler_0, in.uv);\n\
         let srgb_to_linear_output_23 = srgb_to_linear(texture_output_22);\n\
         let xyz_output_24 = srgb_to_linear_output_23.xyz;\n\
         let multiply_output_25 = unif.vector3_21 * xyz_output_24;\n\
         let add_output_26 = brdf_output_20 + multiply_output_25;\n"
    );
    let bound: Vec<usize> =
        material.borrow_textures(&pools.material_nodes).iter().map(|t| t.id()).collect();
    assert_eq!(bound, vec![0, 1, 2, 3]);
    let bound: Vec<usize> =
        material.borrow_samplers(&pools.material_nodes).iter().map(|s| s.id()).collect();
    assert_eq!(bound, vec![3, 2, 1, 0]);
}
