use crate::material::node::node::Emitted;
use crate::material::node::node::MaterialNode;
use crate::material::node::node::UniformContents;
use crate::material::node::node::collect;
use crate::material::node::node::collect_operands;
use crate::material::node::node::collected;
use crate::material::node::node::fragment;
use crate::material::node::node::fragment_operands;
use crate::material::node::node::height;
use crate::material::node::node::is_dag;
use crate::material::node::node::lemma_operand;
use crate::material::node::node::lemma_seen_insert;
use crate::material::node::node::list_node;
use crate::material::node::node::operands_below;
use crate::material::node::node::seen;
use crate::material::text::numbered;
use crate::material::text::numbered_string;
use crate::resource::resource::ResourceId;
use crate::resource::resource::ResourcePool;
use std::collections::HashMap;
use vstd::prelude::*;

verus! {

/// The helper routines that the statement calls.
pub const FUNCTION_CHUNK: &'static str = "
fn d_ggx(n_dot_h: f32, roughness: f32) -> f32 {
  let a: f32 = n_dot_h * roughness;
  let k: f32 = roughness / (1.0 - pow(n_dot_h, 2.0) + pow(a, 2.0));
  return pow(k, 2.0) * (1.0 / PI);
}

fn v_smith_ggx_correlated_fast(n_dot_v: f32, n_dot_l: f32, roughness: f32) -> f32 {
  let a: f32 = roughness;
  let ggxv: f32 = n_dot_l * (n_dot_v * (1.0 - a) + a);
  let ggxl: f32 = n_dot_v * (n_dot_l * (1.0 - a) + a);
  return 0.5 / (ggxv + ggxl);
}

fn brdf(
  v: vec3<f32>,
  n: vec3<f32>,
  h: vec3<f32>,
  l: vec3<f32>,
  base_color: vec3<f32>,
  metallic: f32,
  roughness: f32
) -> vec3<f32> {
  let black = vec3<f32>(0.0);
  let v_dot_h = dot(v, h);
  let n_dot_v = dot(v, n);
  let n_dot_l = dot(l, n);
  let n_dot_h = dot(n, h);

  let c_diff = mix(base_color, black, metallic);
  let f0 = mix(vec3<f32>(0.04), base_color, metallic);
  let alpha = pow(roughness, 2.0);

  let f = f0 + (1.0 - f0) * pow(1.0 - abs(v_dot_h), 5.0);

  let f_diffuse = (1.0 - f) * (1.0 / PI) * c_diff;
  let f_specular = f * d_ggx(n_dot_h, alpha)
    * v_smith_ggx_correlated_fast(n_dot_v, n_dot_l, alpha)
    / (4.0 * abs(n_dot_v) * abs(n_dot_l));

  return f_diffuse + f_specular;
}";

/// The operands of a [`BRDFNode`].
pub struct BRDFNodeDescriptor {
    pub base_color: ResourceId<MaterialNode>,
    pub metallic: ResourceId<MaterialNode>,
    pub normal: ResourceId<MaterialNode>,
    pub roughness: ResourceId<MaterialNode>,
}

/// The light that a surface reflects towards the viewer, after a
/// metallic-roughness reflectance model.
pub struct BRDFNode {
    desc: BRDFNodeDescriptor,
}

impl BRDFNode {
    /// The operands, in the order in which they are evaluated: base colour,
    /// metallic, normal, roughness.
    pub closed spec fn operands(self) -> Seq<nat> {
        seq![self.desc.base_color@, self.desc.metallic@, self.desc.normal@, self.desc.roughness@]
    }

    /// The name under which the value is at hand in the shader.
    pub open spec fn output(self, id: nat) -> Seq<char> {
        numbered("brdf_output_"@, id)
    }

    /// The field in the uniform block.
    pub open spec fn declaration(self, id: nat) -> Seq<char> {
        Seq::empty()
    }

    /// The helper routines that the statement calls.
    pub open spec fn functions(self, id: nat) -> Seq<char> {
        FUNCTION_CHUNK@
    }

    /// What the node contributes to the uniform buffer or to the bindings.
    pub open spec fn contents(self) -> Option<UniformContents> {
        None
    }

    /// Whether the value is computed by a statement of its own.
    pub open spec fn has_statement(self) -> bool {
        true
    }

    /// The statements that set up the view, light, normal and half vectors,
    /// evaluate the model, and switch the fixed directional light off.
    pub open spec fn statement(self, nodes: Seq<MaterialNode>, id: nat) -> Seq<char> {
        let base_color = self.operands()[0];
        let metallic = self.operands()[1];
        let normal = self.operands()[2];
        let roughness = self.operands()[3];
        numbered("let brdf_v_"@, id) + " = normalize(in.view_position);\n"@ + numbered(
            "let brdf_l_"@,
            id,
        ) + " = normalize(light_dir);\n"@ + numbered("let brdf_n_"@, id) + " = normalize("@
            + nodes[normal as int].output(normal) + ");\n"@ + numbered("let brdf_h_"@, id)
            + numbered(" = normalize(brdf_l_"@, id) + numbered(" + brdf_v_"@, id) + ");\n"@
            + "let "@ + self.output(id) + numbered(" = brdf(brdf_v_"@, id) + numbered(
            ", brdf_n_"@,
            id,
        ) + numbered(", brdf_h_"@, id) + numbered(", brdf_l_"@, id) + ", "@
            + nodes[base_color as int].output(base_color) + ", "@
            + nodes[metallic as int].output(metallic) + ", "@ + nodes[roughness as int].output(
            roughness,
        ) + ");\n"@ + "use_directional_light = false;\n"@
    }

    pub fn new(desc: BRDFNodeDescriptor) -> (node: Self)
        ensures
            node.operands() == seq![
                desc.base_color@,
                desc.metallic@,
                desc.normal@,
                desc.roughness@,
            ],
    {
        BRDFNode { desc }
    }

    pub fn collect_nodes(
        &self,
        pool: &ResourcePool<MaterialNode>,
        nodes: &mut Vec<ResourceId<MaterialNode>>,
        visited: &mut HashMap<usize, bool>,
        self_rid: ResourceId<MaterialNode>,
    )
        requires
            is_dag(pool@),
            self_rid@ < pool@.len(),
            pool@[self_rid@ as int] == MaterialNode::BRDF(*self),
        ensures
            collected(final(visited)@, final(nodes)@) == collect(
                pool@,
                self_rid@,
                collected(old(visited)@, old(nodes)@),
            ),
        decreases height(pool@, self_rid@), 0nat,
    {
        let ghost start = collected(visited@, nodes@);
        proof {
            lemma_operand(pool@, self_rid@, 0);
            lemma_operand(pool@, self_rid@, 1);
            lemma_operand(pool@, self_rid@, 2);
            lemma_operand(pool@, self_rid@, 3);
            assert(collect_operands(pool@, self_rid@, 0, start) == start);
        }
        pool.borrow(&self.desc.base_color).unwrap().collect_nodes(
            pool,
            nodes,
            visited,
            self.desc.base_color,
        );
        assert(collected(visited@, nodes@) == collect_operands(pool@, self_rid@, 1, start));
        pool.borrow(&self.desc.metallic).unwrap().collect_nodes(
            pool,
            nodes,
            visited,
            self.desc.metallic,
        );
        assert(collected(visited@, nodes@) == collect_operands(pool@, self_rid@, 2, start));
        pool.borrow(&self.desc.normal).unwrap().collect_nodes(
            pool,
            nodes,
            visited,
            self.desc.normal,
        );
        assert(collected(visited@, nodes@) == collect_operands(pool@, self_rid@, 3, start));
        pool.borrow(&self.desc.roughness).unwrap().collect_nodes(
            pool,
            nodes,
            visited,
            self.desc.roughness,
        );
        assert(collected(visited@, nodes@) == collect_operands(pool@, self_rid@, 4, start));
        list_node(nodes, visited, self_rid);
    }

    pub fn borrow_contents(&self) -> (contents: Option<&UniformContents>)
        ensures
            contents is None,
    {
        None
    }

    pub fn build_declaration(&self, _self_id: usize) -> (text: String)
        ensures
            text@ == self.declaration(_self_id as nat),
    {
        String::new()
    }

    pub fn build_functions(&self, _self_id: usize) -> (text: String)
        ensures
            text@ == self.functions(_self_id as nat),
    {
        String::from_str(FUNCTION_CHUNK)
    }

    pub fn build_fragment_shader(
        &self,
        pool: &ResourcePool<MaterialNode>,
        visited: &mut HashMap<usize, bool>,
        self_id: usize,
    ) -> (text: String)
        requires
            is_dag(pool@),
            self_id < pool@.len(),
            pool@[self_id as int] == MaterialNode::BRDF(*self),
        ensures
            (Emitted { visited: seen(final(visited)@), text: text@ }) == fragment(
                pool@,
                self_id as nat,
                seen(old(visited)@),
            ),
        decreases height(pool@, self_id as nat), 0nat,
    {
        if visited.contains_key(&self_id) {
            return String::new();
        }
        visited.insert(self_id, true);
        let ghost start = seen(visited@);
        let ghost id = self_id as nat;
        proof {
            lemma_seen_insert(old(visited)@, self_id, true);
            lemma_operand(pool@, id, 0);
            lemma_operand(pool@, id, 1);
            lemma_operand(pool@, id, 2);
            lemma_operand(pool@, id, 3);
            assert(fragment_operands(pool@, id, 0, start) == (Emitted {
                visited: start,
                text: Seq::empty(),
            }));
        }
        let base_color = pool.borrow(&self.desc.base_color).unwrap();
        let metallic = pool.borrow(&self.desc.metallic).unwrap();
        let normal = pool.borrow(&self.desc.normal).unwrap();
        let roughness = pool.borrow(&self.desc.roughness).unwrap();

        let mut text = base_color.build_fragment_shader(pool, visited, self.desc.base_color.id());
        assert((Emitted { visited: seen(visited@), text: text@ }) == fragment_operands(
            pool@,
            id,
            1,
            start,
        )) by {
            assert(Seq::<char>::empty() + text@ =~= text@);
        }
        let below = metallic.build_fragment_shader(pool, visited, self.desc.metallic.id());
        text.append(below.as_str());
        assert((Emitted { visited: seen(visited@), text: text@ }) == fragment_operands(
            pool@,
            id,
            2,
            start,
        ));
        let below = normal.build_fragment_shader(pool, visited, self.desc.normal.id());
        text.append(below.as_str());
        assert((Emitted { visited: seen(visited@), text: text@ }) == fragment_operands(
            pool@,
            id,
            3,
            start,
        ));
        let below = roughness.build_fragment_shader(pool, visited, self.desc.roughness.id());
        text.append(below.as_str());
        assert((Emitted { visited: seen(visited@), text: text@ }) == fragment_operands(
            pool@,
            id,
            4,
            start,
        ));

        let mut own = numbered_string("let brdf_v_", self_id);
        own.append(" = normalize(in.view_position);\n");
        own.append(numbered_string("let brdf_l_", self_id).as_str());
        own.append(" = normalize(light_dir);\n");
        own.append(numbered_string("let brdf_n_", self_id).as_str());
        own.append(" = normalize(");
        own.append(normal.get_fragment_output(self.desc.normal.id()).as_str());
        own.append(");\n");
        own.append(numbered_string("let brdf_h_", self_id).as_str());
        own.append(numbered_string(" = normalize(brdf_l_", self_id).as_str());
        own.append(numbered_string(" + brdf_v_", self_id).as_str());
        own.append(");\n");
        own.append("let ");
        own.append(self.get_fragment_output(self_id).as_str());
        own.append(numbered_string(" = brdf(brdf_v_", self_id).as_str());
        own.append(numbered_string(", brdf_n_", self_id).as_str());
        own.append(numbered_string(", brdf_h_", self_id).as_str());
        own.append(numbered_string(", brdf_l_", self_id).as_str());
        own.append(", ");
        own.append(base_color.get_fragment_output(self.desc.base_color.id()).as_str());
        own.append(", ");
        own.append(metallic.get_fragment_output(self.desc.metallic.id()).as_str());
        own.append(", ");
        own.append(roughness.get_fragment_output(self.desc.roughness.id()).as_str());
        own.append(");\n");
        own.append("use_directional_light = false;\n");
        assert(own@ == self.statement(pool@, id));
        text.append(own.as_str());
        text
    }

    /// Whether all four operands lie below `bound`.
    pub fn has_operands_below(&self, bound: usize) -> (below: bool)
        ensures
            below == operands_below(MaterialNode::BRDF(*self), bound as nat),
    {
        let below = self.desc.base_color.id() < bound && self.desc.metallic.id() < bound
            && self.desc.normal.id() < bound && self.desc.roughness.id() < bound;
        proof {
            let operands = MaterialNode::BRDF(*self).operands();
            if below {
                assert forall|k: int| 0 <= k < operands.len() implies #[trigger] operands[k]
                    < bound by {}
            } else {
                assert(operands[0] == self.desc.base_color@ && operands[1] == self.desc.metallic@
                    && operands[2] == self.desc.normal@ && operands[3] == self.desc.roughness@);
            }
        }
        below
    }

    pub fn get_fragment_output(&self, self_id: usize) -> (text: String)
        ensures
            text@ == self.output(self_id as nat),
    {
        numbered_string("brdf_output_", self_id)
    }
}

} // verus!
