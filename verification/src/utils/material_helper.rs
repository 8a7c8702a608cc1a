use crate::material::material::Material;
use crate::material::material::Side;
use crate::material::node::brdf::BRDFNode;
use crate::material::node::brdf::BRDFNodeDescriptor;
use crate::material::node::float::FloatNode;
use crate::material::node::multiply::MultiplyNode;
use crate::material::node::node::Expression;
use crate::material::node::node::MaterialNode;
use crate::material::node::node::Operation;
use crate::material::node::node::UniformContents;
use crate::material::node::node::add_node;
use crate::material::node::node::binary;
use crate::material::node::node::expression;
use crate::material::node::node::is_dag;
use crate::material::node::node::leaf;
use crate::material::node::node::unary;
use crate::material::node::normal::NormalNode;
use crate::material::node::texture::TextureNode;
use crate::material::node::vector3::Vector3Node;
use crate::material::node::xyz::XYZNode;
use crate::math::scalar::Scalar;
use crate::resource::resource::ResourceId;
use crate::resource::resource::ResourcePools;
use crate::texture::sampler::Sampler;
use crate::texture::sampler::SamplerDescriptor;
use crate::texture::texture::Texture;
use vstd::prelude::*;

verus! {

/// A vector supplied through the uniform buffer.
pub open spec fn vector_input(value: [Scalar; 3]) -> Expression {
    leaf(Operation::Input { contents: UniformContents::Vector3 { value } })
}

/// A number supplied through the uniform buffer.
pub open spec fn number_input(value: Scalar) -> Expression {
    leaf(Operation::Input { contents: UniformContents::Float { value: [value] } })
}

/// A colour read from a texture through a sampler.
pub open spec fn texture_read(texture: nat, sampler: nat) -> Expression {
    leaf(Operation::Texture { texture, sampler })
}

/// The reflectance model, applied to base colour, metallic, normal and
/// roughness.
pub open spec fn brdf(
    base_color: Expression,
    metallic: Expression,
    normal: Expression,
    roughness: Expression,
) -> Expression {
    Expression { operation: Operation::BRDF, operands: seq![base_color, metallic, normal, roughness] }
}

/// `after` holds the nodes of `before` and `count` more behind them.
pub open spec fn nodes_added(
    before: Seq<MaterialNode>,
    after: Seq<MaterialNode>,
    count: nat,
) -> bool {
    &&& after.len() == before.len() + count
    &&& after.take(before.len() as int) == before
}

/// `after` holds the materials of `before` and, behind them, a
/// front-sided material whose colour is the node `root`.
pub open spec fn material_added(before: Seq<Material>, after: Seq<Material>, root: nat) -> bool {
    &&& after.len() == before.len() + 1
    &&& after.take(before.len() as int) == before
    &&& after.last().root() == root
    &&& after.last().side() == Side::FrontSide
}

/// `after` holds the samplers of `before` and, behind them, a sampler
/// with the default settings.
pub open spec fn sampler_added(before: Seq<Sampler>, after: Seq<Sampler>) -> bool {
    &&& after.len() == before.len() + 1
    &&& after.take(before.len() as int) == before
    &&& after.last()@ == SamplerDescriptor::default_spec()
}

/// Builds common materials.
pub struct MaterialHelper {}

impl MaterialHelper {
    /// Adds a material of one colour: a node that supplies the colour, and
    /// a front-sided material with that node as its root.
    pub fn create_basic_material(pools: &mut ResourcePools, color: &[Scalar; 3]) -> (rid: ResourceId<
        Material,
    >)
        ensures
            rid@ == old(pools).materials@.len(),
            nodes_added(old(pools).material_nodes@, final(pools).material_nodes@, 1),
            material_added(
                old(pools).materials@,
                final(pools).materials@,
                old(pools).material_nodes@.len(),
            ),
            is_dag(old(pools).material_nodes@) ==> {
                &&& final(pools).materials@.last().compiles(final(pools).material_nodes@)
                &&& expression(final(pools).material_nodes@, old(pools).material_nodes@.len())
                    == vector_input(*color)
            },
            *final(pools) == (ResourcePools {
                material_nodes: final(pools).material_nodes,
                materials: final(pools).materials,
                ..*old(pools)
            }),
    {
        let ghost nodes = pools.material_nodes@;
        let ghost materials = pools.materials@;
        let color_node = add_node(
            &mut pools.material_nodes,
            MaterialNode::Vector3(Vector3Node::new(*color)),
        );
        let rid = pools.materials.add(Material::new(color_node, Side::default()));
        proof {
            assert(pools.material_nodes@.take(nodes.len() as int) =~= nodes);
            assert(pools.materials@.take(materials.len() as int) =~= materials);
            if is_dag(nodes) {
                assert(expression(pools.material_nodes@, color_node@).operands =~= Seq::empty());
            }
        }
        rid
    }

    /// Adds a material of one colour, modulated by a texture: a sampler
    /// with the default settings, the nodes that multiply the colour with
    /// the first three components of what is read from the texture, and a
    /// front-sided material with the product as its root.
    pub fn create_basic_material_with_texture(
        pools: &mut ResourcePools,
        color: &[Scalar; 3],
        texture: ResourceId<Texture>,
    ) -> (rid: ResourceId<Material>)
        ensures
            rid@ == old(pools).materials@.len(),
            sampler_added(old(pools).samplers@, final(pools).samplers@),
            nodes_added(old(pools).material_nodes@, final(pools).material_nodes@, 4),
            material_added(
                old(pools).materials@,
                final(pools).materials@,
                old(pools).material_nodes@.len() + 3,
            ),
            is_dag(old(pools).material_nodes@) ==> {
                &&& final(pools).materials@.last().compiles(final(pools).material_nodes@)
                &&& expression(final(pools).material_nodes@, old(pools).material_nodes@.len() + 3)
                    == binary(
                    Operation::Multiply,
                    vector_input(*color),
                    unary(Operation::XYZ, texture_read(texture@, old(pools).samplers@.len())),
                )
            },
            *final(pools) == (ResourcePools {
                material_nodes: final(pools).material_nodes,
                materials: final(pools).materials,
                samplers: final(pools).samplers,
                ..*old(pools)
            }),
    {
        let ghost nodes = pools.material_nodes@;
        let ghost materials = pools.materials@;
        let ghost samplers = pools.samplers@;
        let ghost consistent = is_dag(nodes);

        let color = add_node(
            &mut pools.material_nodes,
            MaterialNode::Vector3(Vector3Node::new(*color)),
        );
        let ghost color_value = expression(pools.material_nodes@, color@);
        assert(consistent ==> color_value.operands =~= Seq::empty());

        let sampler = pools.samplers.add(Sampler::new(SamplerDescriptor::default()));

        let texture = add_node(
            &mut pools.material_nodes,
            MaterialNode::Texture(TextureNode::new(texture, sampler)),
        );
        let ghost texture_value = expression(pools.material_nodes@, texture@);
        assert(consistent ==> texture_value.operands =~= Seq::empty());
        assert(consistent ==> expression(pools.material_nodes@, color@) == color_value);

        let texture_rgb = add_node(
            &mut pools.material_nodes,
            MaterialNode::XYZ(XYZNode::new(texture)),
        );
        let ghost rgb_value = expression(pools.material_nodes@, texture_rgb@);
        assert(consistent ==> rgb_value.operands =~= seq![texture_value]);
        assert(consistent ==> expression(pools.material_nodes@, color@) == color_value);

        let color_node = add_node(
            &mut pools.material_nodes,
            MaterialNode::Multiply(MultiplyNode::new(color, texture_rgb)),
        );
        assert(consistent ==> expression(pools.material_nodes@, color_node@).operands =~= seq![
            color_value,
            rgb_value,
        ]);

        let rid = pools.materials.add(Material::new(color_node, Side::default()));
        proof {
            assert(pools.material_nodes@.take(nodes.len() as int) =~= nodes);
            assert(pools.materials@.take(materials.len() as int) =~= materials);
            assert(pools.samplers@.take(samplers.len() as int) =~= samplers);
        }
        rid
    }

    /// Adds a material that reflects light after the metallic-roughness
    /// model: nodes that supply base colour, metallic and roughness, a node
    /// for the normal of the surface, the node of the model, and a
    /// front-sided material with that node as its root.
    pub fn create_brdf_material(
        pools: &mut ResourcePools,
        color: &[Scalar; 3],
        metallic: Scalar,
        roughness: Scalar,
    ) -> (rid: ResourceId<Material>)
        ensures
            rid@ == old(pools).materials@.len(),
            nodes_added(old(pools).material_nodes@, final(pools).material_nodes@, 5),
            material_added(
                old(pools).materials@,
                final(pools).materials@,
                old(pools).material_nodes@.len() + 4,
            ),
            is_dag(old(pools).material_nodes@) ==> {
                &&& final(pools).materials@.last().compiles(final(pools).material_nodes@)
                &&& expression(final(pools).material_nodes@, old(pools).material_nodes@.len() + 4)
                    == brdf(
                    vector_input(*color),
                    number_input(metallic),
                    leaf(Operation::Normal),
                    number_input(roughness),
                )
            },
            *final(pools) == (ResourcePools {
                material_nodes: final(pools).material_nodes,
                materials: final(pools).materials,
                ..*old(pools)
            }),
    {
        let ghost nodes = pools.material_nodes@;
        let ghost materials = pools.materials@;
        let ghost consistent = is_dag(nodes);

        let base_color = add_node(
            &mut pools.material_nodes,
            MaterialNode::Vector3(Vector3Node::new(*color)),
        );
        let ghost base_color_value = expression(pools.material_nodes@, base_color@);
        assert(consistent ==> base_color_value.operands =~= Seq::empty());

        let metallic = add_node(
            &mut pools.material_nodes,
            MaterialNode::Float(FloatNode::new(metallic)),
        );
        let ghost metallic_value = expression(pools.material_nodes@, metallic@);
        assert(consistent ==> metallic_value.operands =~= Seq::empty());
        assert(consistent ==> expression(pools.material_nodes@, base_color@) == base_color_value);

        let roughness = add_node(
            &mut pools.material_nodes,
            MaterialNode::Float(FloatNode::new(roughness)),
        );
        let ghost roughness_value = expression(pools.material_nodes@, roughness@);
        assert(consistent ==> roughness_value.operands =~= Seq::empty());
        assert(consistent ==> expression(pools.material_nodes@, base_color@) == base_color_value);
        assert(consistent ==> expression(pools.material_nodes@, metallic@) == metallic_value);

        let normal = add_node(&mut pools.material_nodes, MaterialNode::Normal(NormalNode::new()));
        let ghost normal_value = expression(pools.material_nodes@, normal@);
        assert(consistent ==> normal_value.operands =~= Seq::empty());
        assert(consistent ==> expression(pools.material_nodes@, base_color@) == base_color_value);
        assert(consistent ==> expression(pools.material_nodes@, metallic@) == metallic_value);
        assert(consistent ==> expression(pools.material_nodes@, roughness@) == roughness_value);

        let desc = BRDFNodeDescriptor { base_color, metallic, normal, roughness };
        let brdf_node = add_node(&mut pools.material_nodes, MaterialNode::BRDF(BRDFNode::new(desc)));
        assert(consistent ==> expression(pools.material_nodes@, brdf_node@).operands =~= seq![
            base_color_value,
            metallic_value,
            normal_value,
            roughness_value,
        ]);

        let rid = pools.materials.add(Material::new(brdf_node, Side::default()));
        proof {
            assert(pools.material_nodes@.take(nodes.len() as int) =~= nodes);
            assert(pools.materials@.take(materials.len() as int) =~= materials);
        }
        rid
    }
}

} // verus!
