use crate::material::node::node::Emitted;
use crate::material::node::node::MaterialNode;
use crate::material::node::node::UniformContents;
use crate::material::node::node::collect;
use crate::material::node::node::collect_operands;
use crate::material::node::node::collected;
use crate::material::node::node::fragment;
use crate::material::node::node::fragment_operands;
use crate::material::node::node::height;
use crate::material::node::node::is_dag;
use crate::material::node::node::lemma_operand;
use crate::material::node::node::lemma_seen_insert;
use crate::material::node::node::list_node;
use crate::material::node::node::operands_below;
use crate::material::node::node::seen;
use crate::material::text::numbered;
use crate::material::text::numbered_string;
use crate::resource::resource::ResourceId;
use crate::resource::resource::ResourcePool;
use std::collections::HashMap;
use vstd::prelude::*;

verus! {

/// The helper routine that the statement calls.
pub const FUNCTION_CHUNK: &'static str = "
fn perturb_normal_to_arb(
  eye_pos: vec3<f32>,
  surf_norm: vec3<f32>,
  map_n: vec3<f32>,
  uv: vec2<f32>
) -> vec3<f32> {
  let q0: vec3<f32> = vec3<f32>(dpdx(eye_pos.x), dpdx(eye_pos.y), dpdx(eye_pos.z));
  let q1: vec3<f32> = vec3<f32>(dpdy(eye_pos.x), dpdy(eye_pos.y), dpdy(eye_pos.z));
  let st0: vec2<f32> = dpdx(uv);
  let st1: vec2<f32> = dpdy(uv);
  let n: vec3<f32> = surf_norm; // normalized
  let q1perp: vec3<f32> = cross(q1, n);
  let q0perp: vec3<f32> = cross(n, q0);
  let t = q1perp * st0.x + q0perp * st1.x;
  let b = q1perp * st0.y + q0perp * st1.y;
  let det: f32 = max(dot(t, t), dot(b, b));
  var scale: f32;
  if (det == 0.0) {
    scale = 0.0;
  } else {
    scale = inverseSqrt(det);
  }
  return normalize(t * (map_n.x * scale) + b * (map_n.y * scale) + n * map_n.z);
}
";

/// A normal read from a tangent-space normal map, taken to the space of the object.
pub struct TangentToObjectNormalNode {
    node: ResourceId<MaterialNode>,
}

impl TangentToObjectNormalNode {
    /// The operands, in the order in which they are evaluated.
    pub closed spec fn operands(self) -> Seq<nat> {
        seq![self.node@]
    }

    /// The name under which the value is at hand in the shader.
    pub open spec fn output(self, id: nat) -> Seq<char> {
        numbered("tangent_to_object_normal_output_"@, id)
    }

    /// The field in the uniform block.
    pub open spec fn declaration(self, id: nat) -> Seq<char> {
        Seq::empty()
    }

    /// The helper routines that the statement calls.
    pub open spec fn functions(self, id: nat) -> Seq<char> {
        FUNCTION_CHUNK@
    }

    /// What the node contributes to the uniform buffer or to the bindings.
    pub open spec fn contents(self) -> Option<UniformContents> {
        None
    }

    /// Whether the value is computed by a statement of its own.
    pub open spec fn has_statement(self) -> bool {
        true
    }

    /// The statement that computes the value from the operands.
    pub open spec fn statement(self, nodes: Seq<MaterialNode>, id: nat) -> Seq<char> {
        let node = self.operands()[0];
        "let "@ + self.output(id) + " = perturb_normal_to_arb(-in.view_position, in.normal, "@ + nodes[node as int].output(node) + ", in.uv);\n"@
    }

    pub fn new(node: ResourceId<MaterialNode>) -> (new_node: Self)
        ensures
            new_node.operands() == seq![node@],
    {
        TangentToObjectNormalNode { node }
    }

    pub fn collect_nodes(
        &self,
        pool: &ResourcePool<MaterialNode>,
        nodes: &mut Vec<ResourceId<MaterialNode>>,
        visited: &mut HashMap<usize, bool>,
        self_rid: ResourceId<MaterialNode>,
    )
        requires
            is_dag(pool@),
            self_rid@ < pool@.len(),
            pool@[self_rid@ as int] == MaterialNode::TangentToObjectNormal(*self),
        ensures
            collected(final(visited)@, final(nodes)@) == collect(
                pool@,
                self_rid@,
                collected(old(visited)@, old(nodes)@),
            ),
        decreases height(pool@, self_rid@), 0nat,
    {
        let ghost start = collected(visited@, nodes@);
        proof {
            lemma_operand(pool@, self_rid@, 0);
            assert(collect_operands(pool@, self_rid@, 0, start) == start);
        }
        pool.borrow(&self.node).unwrap().collect_nodes(pool, nodes, visited, self.node);
        assert(collected(visited@, nodes@) == collect_operands(pool@, self_rid@, 1, start));
        list_node(nodes, visited, self_rid);
    }

    pub fn borrow_contents(&self) -> (contents: Option<&UniformContents>)
        ensures
            contents is None,
    {
        None
    }

    pub fn build_declaration(&self, _self_id: usize) -> (text: String)
        ensures
            text@ == self.declaration(_self_id as nat),
    {
        String::new()
    }

    pub fn build_functions(&self, _self_id: usize) -> (text: String)
        ensures
            text@ == self.functions(_self_id as nat),
    {
        String::from_str(FUNCTION_CHUNK)
    }

    pub fn build_fragment_shader(
        &self,
        pool: &ResourcePool<MaterialNode>,
        visited: &mut HashMap<usize, bool>,
        self_id: usize,
    ) -> (text: String)
        requires
            is_dag(pool@),
            self_id < pool@.len(),
            pool@[self_id as int] == MaterialNode::TangentToObjectNormal(*self),
        ensures
            (Emitted { visited: seen(final(visited)@), text: text@ }) == fragment(
                pool@,
                self_id as nat,
                seen(old(visited)@),
            ),
        decreases height(pool@, self_id as nat), 0nat,
    {
        if visited.contains_key(&self_id) {
            return String::new();
        }
        visited.insert(self_id, true);
        let ghost start = seen(visited@);
        proof {
            lemma_seen_insert(old(visited)@, self_id, true);
            lemma_operand(pool@, self_id as nat, 0);
            assert(fragment_operands(pool@, self_id as nat, 0, start) == (Emitted {
                visited: start,
                text: Seq::empty(),
            }));
        }
        let node = pool.borrow(&self.node).unwrap();
        let mut text = node.build_fragment_shader(pool, visited, self.node.id());
        assert((Emitted { visited: seen(visited@), text: text@ }) == fragment_operands(
            pool@,
            self_id as nat,
            1,
            start,
        )) by {
            assert(Seq::<char>::empty() + text@ =~= text@);
        }
        text.append("let ");
        text.append(self.get_fragment_output(self_id).as_str());
        text.append(" = perturb_normal_to_arb(-in.view_position, in.normal, ");
        text.append(node.get_fragment_output(self.node.id()).as_str());
        text.append(", in.uv);\n");
        assert(text@ =~= fragment_operands(pool@, self_id as nat, 1, start).text + self.statement(
            pool@,
            self_id as nat,
        ));
        text
    }

    /// Whether the operand lies below `bound`.
    pub fn has_operands_below(&self, bound: usize) -> (below: bool)
        ensures
            below == operands_below(MaterialNode::TangentToObjectNormal(*self), bound as nat),
    {
        let below = self.node.id() < bound;
        proof {
            let operands = MaterialNode::TangentToObjectNormal(*self).operands();
            assert(operands[0] == self.node@);
        }
        below
    }

    pub fn get_fragment_output(&self, self_id: usize) -> (text: String)
        ensures
            text@ == self.output(self_id as nat),
    {
        numbered_string("tangent_to_object_normal_output_", self_id)
    }
}

} // verus!
