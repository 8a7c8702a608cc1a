use crate::material::material::Material;
use crate::material::material::Side;
use crate::material::node::add::AddNode;
use crate::material::node::brdf::BRDFNode;
use crate::material::node::brdf::BRDFNodeDescriptor;
use crate::material::node::const_float::ConstFloatNode;
use crate::material::node::float::FloatNode;
use crate::material::node::multiply::MultiplyNode;
use crate::material::node::node::Expression;
use crate::material::node::node::MaterialNode;
use crate::material::node::node::Operation;
use crate::material::node::node::add_node;
use crate::material::node::node::binary;
use crate::material::node::node::expression;
use crate::material::node::node::is_dag;
use crate::material::node::node::leaf;
use crate::material::node::node::unary;
use crate::material::node::normal::NormalNode;
use crate::material::node::srgb_to_linear::SRGBToLinearNode;
use crate::material::node::sub::SubNode;
use crate::material::node::tangent_to_object_normal::TangentToObjectNormalNode;
use crate::material::node::texture::TextureNode;
use crate::material::node::vector3::Vector3Node;
use crate::material::node::xyz::XYZNode;
use crate::material::node::y::YNode;
use crate::material::node::z::ZNode;
use crate::math::scalar::Scalar;
use crate::resource::resource::ResourceId;
use crate::resource::resource::ResourcePool;
use crate::resource::resource::ResourcePools;
use crate::texture::sampler::Sampler;
use crate::texture::texture::Texture;
use crate::utils::material_helper::brdf;
use crate::utils::material_helper::material_added;
use crate::utils::material_helper::nodes_added;
use crate::utils::material_helper::number_input;
use crate::utils::material_helper::texture_read;
use crate::utils::material_helper::vector_input;
use vstd::prelude::*;

verus! {

/// A texture of a glTF material, with the sampler it is read through.
pub struct GltfTexture {
    pub texture: ResourceId<Texture>,
    pub sampler: ResourceId<Sampler>,
}

/// A material as a glTF file describes it, after the metallic-roughness
/// model: factors, and the textures that modulate them where there are any.
pub struct GltfMaterial {
    pub base_color_factor: [Scalar; 3],
    pub base_color_texture: Option<GltfTexture>,
    pub metallic_factor: Scalar,
    pub roughness_factor: Scalar,
    pub metallic_roughness_texture: Option<GltfTexture>,
    pub normal_texture: Option<GltfTexture>,
    pub emissive_factor: [Scalar; 3],
    pub emissive_texture: Option<GltfTexture>,
}

/// What is read from a texture.
pub open spec fn read(texture: GltfTexture) -> Expression {
    texture_read(texture.texture@, texture.sampler@)
}

/// A colour: the factor, multiplied by what is read from the texture in
/// linear light where there is a texture.
pub open spec fn colour(factor: [Scalar; 3], texture: Option<GltfTexture>) -> Expression {
    match texture {
        Some(texture) => binary(
            Operation::Multiply,
            vector_input(factor),
            unary(Operation::XYZ, unary(Operation::SRGBToLinear, read(texture))),
        ),
        None => vector_input(factor),
    }
}

/// Metallic: the factor, multiplied by the third component of what is read
/// from the texture where there is a texture.
pub open spec fn metallic(factor: Scalar, texture: Option<GltfTexture>) -> Expression {
    match texture {
        Some(texture) => binary(
            Operation::Multiply,
            number_input(factor),
            unary(Operation::Z, read(texture)),
        ),
        None => number_input(factor),
    }
}

/// Roughness: the factor, multiplied by the second component of what is
/// read from the texture where there is a texture.
pub open spec fn roughness(factor: Scalar, texture: Option<GltfTexture>) -> Expression {
    match texture {
        Some(texture) => binary(
            Operation::Multiply,
            number_input(factor),
            unary(Operation::Y, read(texture)),
        ),
        None => number_input(factor),
    }
}

/// The normal: what is read from the normal map, taken from the unit
/// interval to the interval from minus one to one and from tangent space
/// to the space of the object, or the normal of the surface where there is
/// no normal map.
pub open spec fn normal(texture: Option<GltfTexture>) -> Expression {
    match texture {
        Some(texture) => unary(
            Operation::TangentToObjectNormal,
            binary(
                Operation::Sub,
                binary(
                    Operation::Multiply,
                    unary(Operation::XYZ, read(texture)),
                    leaf(Operation::ConstFloat { value: "2"@ }),
                ),
                leaf(Operation::ConstFloat { value: "1"@ }),
            ),
        ),
        None => leaf(Operation::Normal),
    }
}

/// What a glTF material computes: the light reflected after the
/// metallic-roughness model, and the light emitted.
pub open spec fn material_expression(material: GltfMaterial) -> Expression {
    binary(
        Operation::Add,
        brdf(
            colour(material.base_color_factor, material.base_color_texture),
            metallic(material.metallic_factor, material.metallic_roughness_texture),
            normal(material.normal_texture),
            roughness(material.roughness_factor, material.metallic_roughness_texture),
        ),
        colour(material.emissive_factor, material.emissive_texture),
    )
}

/// The number of nodes that a texture adds.
pub open spec fn texture_nodes(texture: Option<GltfTexture>, count: nat) -> nat {
    if texture is Some {
        count
    } else {
        0
    }
}

/// The number of nodes of a glTF material.
pub open spec fn material_nodes(material: GltfMaterial) -> nat {
    7 + texture_nodes(material.base_color_texture, 4) + texture_nodes(
        material.metallic_roughness_texture,
        5,
    ) + texture_nodes(material.normal_texture, 6) + texture_nodes(material.emissive_texture, 4)
}

/// `after` is `before` with `count` nodes added, the last of which
/// computes `value`; the nodes of `before` compute what they computed.
pub open spec fn grown(
    before: Seq<MaterialNode>,
    after: Seq<MaterialNode>,
    count: nat,
    value: Expression,
) -> bool {
    &&& nodes_added(before, after, count)
    &&& count > 0
    &&& is_dag(before) ==> {
        &&& is_dag(after)
        &&& forall|id: nat|
            id < before.len() ==> #[trigger] expression(after, id) == expression(before, id)
        &&& expression(after, (after.len() - 1) as nat) == value
    }
}

/// Growing twice is growing once by both.
pub proof fn lemma_grown_twice(
    before: Seq<MaterialNode>,
    between: Seq<MaterialNode>,
    after: Seq<MaterialNode>,
    first: nat,
    second: nat,
    value: Expression,
    last: Expression,
)
    requires
        grown(before, between, first, value),
        grown(between, after, second, last),
    ensures
        grown(before, after, first + second, last),
{
    assert(after.take(before.len() as int) =~= after.take(between.len() as int).take(
        before.len() as int,
    ));
    if is_dag(before) {
        assert forall|id: nat| id < before.len() implies #[trigger] expression(after, id)
            == expression(before, id) by {
            assert(expression(between, id) == expression(before, id));
        }
    }
}

/// Loads what glTF files describe.
pub struct GltfLoader {}

impl GltfLoader {
    /// Adds one node.
    fn add(pool: &mut ResourcePool<MaterialNode>, node: MaterialNode) -> (rid: ResourceId<
        MaterialNode,
    >)
        requires
            is_dag(old(pool)@) ==> crate::material::node::node::operands_below(
                node,
                old(pool)@.len(),
            ),
        ensures
            rid@ == old(pool)@.len(),
            final(pool)@ == old(pool)@.push(node),
            is_dag(old(pool)@) ==> expression(final(pool)@, rid@).operation == node.operation()
                && expression(final(pool)@, rid@).operands.len() == node.operands().len()
                && forall|k: int|
                0 <= k < node.operands().len() ==> #[trigger] expression(
                    final(pool)@,
                    rid@,
                ).operands[k] == expression(old(pool)@, node.operands()[k]),
            grown(old(pool)@, final(pool)@, 1, expression(final(pool)@, rid@)),
    {
        let rid = add_node(pool, node);
        assert(pool@.take(old(pool)@.len() as int) =~= old(pool)@);
        rid
    }

    /// Adds the nodes of a colour.
    fn add_colour(
        pool: &mut ResourcePool<MaterialNode>,
        factor: &[Scalar; 3],
        texture: &Option<GltfTexture>,
    ) -> (rid: ResourceId<MaterialNode>)
        ensures
            rid@ == final(pool)@.len() - 1,
            grown(
                old(pool)@,
                final(pool)@,
                1 + texture_nodes(*texture, 4),
                colour(*factor, *texture),
            ),
    {
        let ghost nodes0 = pool@;
        let ghost consistent = is_dag(nodes0);
        let factor_node = Self::add(pool, MaterialNode::Vector3(Vector3Node::new(*factor)));
        let ghost nodes1 = pool@;
        let ghost factor_value = expression(nodes1, factor_node@);
        assert(consistent ==> factor_value.operands =~= Seq::empty());
        match texture {
            Some(texture) => {
                let texture_node = Self::add(
                    pool,
                    MaterialNode::Texture(TextureNode::new(texture.texture, texture.sampler)),
                );
                let ghost nodes2 = pool@;
                let ghost texture_value = expression(nodes2, texture_node@);
                assert(consistent ==> texture_value.operands =~= Seq::empty());
                let linear = Self::add(
                    pool,
                    MaterialNode::SRGBToLinear(SRGBToLinearNode::new(texture_node)),
                );
                let ghost nodes3 = pool@;
                let ghost linear_value = expression(nodes3, linear@);
                assert(consistent ==> linear_value.operands =~= seq![texture_value]);
                let rgb = Self::add(pool, MaterialNode::XYZ(XYZNode::new(linear)));
                let ghost nodes4 = pool@;
                let ghost rgb_value = expression(nodes4, rgb@);
                assert(consistent ==> rgb_value.operands =~= seq![linear_value]);
                assert(consistent ==> expression(nodes4, factor_node@) == factor_value) by {
                    if consistent {
                        assert(expression(nodes2, factor_node@) == factor_value);
                        assert(expression(nodes3, factor_node@) == factor_value);
                    }
                }
                let product = Self::add(
                    pool,
                    MaterialNode::Multiply(MultiplyNode::new(factor_node, rgb)),
                );
                let ghost nodes5 = pool@;
                let ghost product_value = expression(nodes5, product@);
                assert(consistent ==> product_value.operands =~= seq![factor_value, rgb_value]);
                proof {
                    lemma_grown_twice(nodes0, nodes1, nodes2, 1, 1, factor_value, texture_value);
                    lemma_grown_twice(nodes0, nodes2, nodes3, 2, 1, texture_value, linear_value);
                    lemma_grown_twice(nodes0, nodes3, nodes4, 3, 1, linear_value, rgb_value);
                    lemma_grown_twice(nodes0, nodes4, nodes5, 4, 1, rgb_value, product_value);
                }
                product
            },
            None => factor_node,
        }
    }

    /// Adds the nodes of metallic and roughness, and gives the two in that
    /// order.
    fn add_metallic_roughness(
        pool: &mut ResourcePool<MaterialNode>,
        metallic_factor: Scalar,
        roughness_factor: Scalar,
        texture: &Option<GltfTexture>,
    ) -> (rids: (ResourceId<MaterialNode>, ResourceId<MaterialNode>))
        ensures
            rids.0@ < final(pool)@.len(),
            rids.1@ == final(pool)@.len() - 1,
            grown(
                old(pool)@,
                final(pool)@,
                2 + texture_nodes(*texture, 5),
                roughness(roughness_factor, *texture),
            ),
            is_dag(old(pool)@) ==> expression(final(pool)@, rids.0@) == metallic(
                metallic_factor,
                *texture,
            ),
    {
        let ghost nodes0 = pool@;
        let ghost consistent = is_dag(nodes0);
        let metallic_node = Self::add(pool, MaterialNode::Float(FloatNode::new(metallic_factor)));
        let ghost nodes1 = pool@;
        let ghost metallic_value = expression(nodes1, metallic_node@);
        assert(consistent ==> metallic_value.operands =~= Seq::empty());
        let roughness_node = Self::add(
            pool,
            MaterialNode::Float(FloatNode::new(roughness_factor)),
        );
        let ghost nodes2 = pool@;
        let ghost roughness_value = expression(nodes2, roughness_node@);
        assert(consistent ==> roughness_value.operands =~= Seq::empty());
        proof {
            lemma_grown_twice(nodes0, nodes1, nodes2, 1, 1, metallic_value, roughness_value);
        }
        match texture {
            Some(texture) => {
                let texture_node = Self::add(
                    pool,
                    MaterialNode::Texture(TextureNode::new(texture.texture, texture.sampler)),
                );
                let ghost nodes3 = pool@;
                let ghost texture_value = expression(nodes3, texture_node@);
                assert(consistent ==> texture_value.operands =~= Seq::empty());
                let green = Self::add(pool, MaterialNode::Y(YNode::new(texture_node)));
                let ghost nodes4 = pool@;
                let ghost green_value = expression(nodes4, green@);
                assert(consistent ==> green_value.operands =~= seq![texture_value]);
                let blue = Self::add(pool, MaterialNode::Z(ZNode::new(texture_node)));
                let ghost nodes5 = pool@;
                let ghost blue_value = expression(nodes5, blue@);
                assert(consistent ==> blue_value.operands =~= seq![texture_value]) by {
                    if consistent {
                        assert(expression(nodes4, texture_node@) == texture_value);
                    }
                }
                assert(consistent ==> expression(nodes5, metallic_node@) == metallic_value) by {
                    if consistent {
                        assert(expression(nodes2, metallic_node@) == metallic_value);
                        assert(expression(nodes3, metallic_node@) == metallic_value);
                        assert(expression(nodes4, metallic_node@) == metallic_value);
                    }
                }
                let metallic_product = Self::add(
                    pool,
                    MaterialNode::Multiply(MultiplyNode::new(metallic_node, blue)),
                );
                let ghost nodes6 = pool@;
                let ghost metallic_product_value = expression(nodes6, metallic_product@);
                assert(consistent ==> metallic_product_value.operands =~= seq![
                    metallic_value,
                    blue_value,
                ]);
                assert(consistent ==> expression(nodes6, roughness_node@) == roughness_value
                    && expression(nodes6, green@) == green_value) by {
                    if consistent {
                        assert(expression(nodes3, roughness_node@) == roughness_value);
                        assert(expression(nodes4, roughness_node@) == roughness_value);
                        assert(expression(nodes5, roughness_node@) == roughness_value);
                        assert(expression(nodes5, green@) == green_value);
                    }
                }
                let roughness_product = Self::add(
                    pool,
                    MaterialNode::Multiply(MultiplyNode::new(roughness_node, green)),
                );
                let ghost nodes7 = pool@;
                let ghost roughness_product_value = expression(nodes7, roughness_product@);
                assert(consistent ==> roughness_product_value.operands =~= seq![
                    roughness_value,
                    green_value,
                ]);
                proof {
                    lemma_grown_twice(nodes0, nodes2, nodes3, 2, 1, roughness_value, texture_value);
                    lemma_grown_twice(nodes0, nodes3, nodes4, 3, 1, texture_value, green_value);
                    lemma_grown_twice(nodes0, nodes4, nodes5, 4, 1, green_value, blue_value);
                    lemma_grown_twice(
                        nodes0,
                        nodes5,
                        nodes6,
                        5,
                        1,
                        blue_value,
                        metallic_product_value,
                    );
                    lemma_grown_twice(
                        nodes0,
                        nodes6,
                        nodes7,
                        6,
                        1,
                        metallic_product_value,
                        roughness_product_value,
                    );
                    if consistent {
                        assert(expression(nodes7, metallic_product@) == metallic_product_value);
                    }
                }
                (metallic_product, roughness_product)
            },
            None => {
                proof {
                    if consistent {
                        assert(expression(nodes2, metallic_node@) == metallic_value);
                    }
                }
                (metallic_node, roughness_node)
            },
        }
    }

    /// Adds the nodes of the normal.
    fn add_normal(pool: &mut ResourcePool<MaterialNode>, texture: &Option<GltfTexture>) -> (rid:
        ResourceId<MaterialNode>)
        ensures
            rid@ == final(pool)@.len() - 1,
            grown(old(pool)@, final(pool)@, 1 + texture_nodes(*texture, 6), normal(*texture)),
    {
        let ghost nodes0 = pool@;
        let ghost consistent = is_dag(nodes0);
        match texture {
            Some(texture) => {
                let texture_node = Self::add(
                    pool,
                    MaterialNode::Texture(TextureNode::new(texture.texture, texture.sampler)),
                );
                let ghost nodes1 = pool@;
                let ghost texture_value = expression(nodes1, texture_node@);
                assert(consistent ==> texture_value.operands =~= Seq::empty());
                let rgb = Self::add(pool, MaterialNode::XYZ(XYZNode::new(texture_node)));
                let ghost nodes2 = pool@;
                let ghost rgb_value = expression(nodes2, rgb@);
                assert(consistent ==> rgb_value.operands =~= seq![texture_value]);
                let two = Self::add(
                    pool,
                    MaterialNode::ConstFloat(ConstFloatNode::new(String::from_str("2"))),
                );
                let ghost nodes3 = pool@;
                let ghost two_value = expression(nodes3, two@);
                assert(consistent ==> two_value.operands =~= Seq::empty());
                let one = Self::add(
                    pool,
                    MaterialNode::ConstFloat(ConstFloatNode::new(String::from_str("1"))),
                );
                let ghost nodes4 = pool@;
                let ghost one_value = expression(nodes4, one@);
                assert(consistent ==> one_value.operands =~= Seq::empty());
                assert(consistent ==> expression(nodes4, rgb@) == rgb_value && expression(
                    nodes4,
                    two@,
                ) == two_value) by {
                    if consistent {
                        assert(expression(nodes3, rgb@) == rgb_value);
                    }
                }
                let doubled = Self::add(pool, MaterialNode::Multiply(MultiplyNode::new(rgb, two)));
                let ghost nodes5 = pool@;
                let ghost doubled_value = expression(nodes5, doubled@);
                assert(consistent ==> doubled_value.operands =~= seq![rgb_value, two_value]);
                assert(consistent ==> expression(nodes5, one@) == one_value);
                let centred = Self::add(pool, MaterialNode::Sub(SubNode::new(doubled, one)));
                let ghost nodes6 = pool@;
                let ghost centred_value = expression(nodes6, centred@);
                assert(consistent ==> centred_value.operands =~= seq![doubled_value, one_value]);
                let result = Self::add(
                    pool,
                    MaterialNode::TangentToObjectNormal(TangentToObjectNormalNode::new(centred)),
                );
                let ghost nodes7 = pool@;
                let ghost result_value = expression(nodes7, result@);
                assert(consistent ==> result_value.operands =~= seq![centred_value]);
                proof {
                    lemma_grown_twice(nodes0, nodes1, nodes2, 1, 1, texture_value, rgb_value);
                    lemma_grown_twice(nodes0, nodes2, nodes3, 2, 1, rgb_value, two_value);
                    lemma_grown_twice(nodes0, nodes3, nodes4, 3, 1, two_value, one_value);
                    lemma_grown_twice(nodes0, nodes4, nodes5, 4, 1, one_value, doubled_value);
                    lemma_grown_twice(nodes0, nodes5, nodes6, 5, 1, doubled_value, centred_value);
                    lemma_grown_twice(nodes0, nodes6, nodes7, 6, 1, centred_value, result_value);
                }
                result
            },
            None => {
                let result = Self::add(pool, MaterialNode::Normal(NormalNode::new()));
                assert(consistent ==> expression(pool@, result@).operands =~= Seq::empty());
                result
            },
        }
    }

    /// Adds the nodes that compute a glTF material, and a front-sided
    /// material with the last of them as its root.
    pub fn create_material(pools: &mut ResourcePools, material: &GltfMaterial) -> (rid: ResourceId<
        Material,
    >)
        ensures
            rid@ == old(pools).materials@.len(),
            nodes_added(
                old(pools).material_nodes@,
                final(pools).material_nodes@,
                material_nodes(*material),
            ),
            material_added(
                old(pools).materials@,
                final(pools).materials@,
                (final(pools).material_nodes@.len() - 1) as nat,
            ),
            is_dag(old(pools).material_nodes@) ==> {
                &&& final(pools).materials@.last().compiles(final(pools).material_nodes@)
                &&& expression(
                    final(pools).material_nodes@,
                    (final(pools).material_nodes@.len() - 1) as nat,
                ) == material_expression(*material)
            },
            *final(pools) == (ResourcePools {
                material_nodes: final(pools).material_nodes,
                materials: final(pools).materials,
                ..*old(pools)
            }),
    {
        let ghost nodes0 = pools.material_nodes@;
        let ghost materials = pools.materials@;
        let ghost consistent = is_dag(nodes0);

        let base_color = Self::add_colour(
            &mut pools.material_nodes,
            &material.base_color_factor,
            &material.base_color_texture,
        );
        let ghost nodes1 = pools.material_nodes@;
        let ghost base_color_value = colour(
            material.base_color_factor,
            material.base_color_texture,
        );

        let (metallic_node, roughness_node) = Self::add_metallic_roughness(
            &mut pools.material_nodes,
            material.metallic_factor,
            material.roughness_factor,
            &material.metallic_roughness_texture,
        );
        let ghost nodes2 = pools.material_nodes@;
        let ghost metallic_value = metallic(
            material.metallic_factor,
            material.metallic_roughness_texture,
        );
        let ghost roughness_value = roughness(
            material.roughness_factor,
            material.metallic_roughness_texture,
        );

        let normal_node = Self::add_normal(&mut pools.material_nodes, &material.normal_texture);
        let ghost nodes3 = pools.material_nodes@;
        let ghost normal_value = normal(material.normal_texture);
        proof {
            if consistent {
                assert(expression(nodes2, base_color@) == base_color_value);
                assert(expression(nodes3, base_color@) == base_color_value);
                assert(expression(nodes3, metallic_node@) == metallic_value);
                assert(expression(nodes3, roughness_node@) == roughness_value);
            }
        }

        let desc = BRDFNodeDescriptor {
            base_color,
            metallic: metallic_node,
            normal: normal_node,
            roughness: roughness_node,
        };
        let brdf_node = Self::add(&mut pools.material_nodes, MaterialNode::BRDF(BRDFNode::new(desc)));
        let ghost nodes4 = pools.material_nodes@;
        let ghost brdf_value = expression(nodes4, brdf_node@);
        assert(consistent ==> brdf_value.operands =~= seq![
            base_color_value,
            metallic_value,
            normal_value,
            roughness_value,
        ]);

        let emissive = Self::add_colour(
            &mut pools.material_nodes,
            &material.emissive_factor,
            &material.emissive_texture,
        );
        let ghost nodes5 = pools.material_nodes@;
        let ghost emissive_value = colour(material.emissive_factor, material.emissive_texture);
        assert(consistent ==> expression(nodes5, brdf_node@) == brdf_value);

        let sum = Self::add(
            &mut pools.material_nodes,
            MaterialNode::Add(AddNode::new(brdf_node, emissive)),
        );
        let ghost nodes6 = pools.material_nodes@;
        let ghost sum_value = expression(nodes6, sum@);
        assert(consistent ==> sum_value.operands =~= seq![brdf_value, emissive_value]);

        let rid = pools.materials.add(Material::new(sum, Side::default()));
        proof {
            lemma_grown_twice(
                nodes0,
                nodes1,
                nodes2,
                1 + texture_nodes(material.base_color_texture, 4),
                2 + texture_nodes(material.metallic_roughness_texture, 5),
                base_color_value,
                roughness_value,
            );
            lemma_grown_twice(
                nodes0,
                nodes2,
                nodes3,
                3 + texture_nodes(material.base_color_texture, 4) + texture_nodes(
                    material.metallic_roughness_texture,
                    5,
                ),
                1 + texture_nodes(material.normal_texture, 6),
                roughness_value,
                normal_value,
            );
            let so_far = 4 + texture_nodes(material.base_color_texture, 4) + texture_nodes(
                material.metallic_roughness_texture,
                5,
            ) + texture_nodes(material.normal_texture, 6);
            lemma_grown_twice(nodes0, nodes3, nodes4, so_far, 1, normal_value, brdf_value);
            lemma_grown_twice(
                nodes0,
                nodes4,
                nodes5,
                so_far + 1,
                1 + texture_nodes(material.emissive_texture, 4),
                brdf_value,
                emissive_value,
            );
            lemma_grown_twice(
                nodes0,
                nodes5,
                nodes6,
                so_far + 2 + texture_nodes(material.emissive_texture, 4),
                1,
                emissive_value,
                sum_value,
            );
            assert(pools.materials@.take(materials.len() as int) =~= materials);
        }
        rid
    }
}

} // verus!
