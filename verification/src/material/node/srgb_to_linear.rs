use crate::material::node::node::Emitted;
use crate::material::node::node::MaterialNode;
use crate::material::node::node::UniformContents;
use crate::material::node::node::collect;
use crate::material::node::node::collect_operands;
use crate::material::node::node::collected;
use crate::material::node::node::fragment;
use crate::material::node::node::fragment_operands;
use crate::material::node::node::height;
use crate::material::node::node::is_dag;
use crate::material::node::node::lemma_operand;
use crate::material::node::node::lemma_seen_insert;
use crate::material::node::node::list_node;
use crate::material::node::node::operands_below;
use crate::material::node::node::seen;
use crate::material::text::numbered;
use crate::material::text::numbered_string;
use crate::resource::resource::ResourceId;
use crate::resource::resource::ResourcePool;
use std::collections::HashMap;
use vstd::prelude::*;

verus! {

/// A colour taken from the sRGB transfer curve to linear light.
pub struct SRGBToLinearNode {
    node: ResourceId<MaterialNode>,
}

impl SRGBToLinearNode {
    /// The operands, in the order in which they are evaluated.
    pub closed spec fn operands(self) -> Seq<nat> {
        seq![self.node@]
    }

    /// The name under which the value is at hand in the shader.
    pub open spec fn output(self, id: nat) -> Seq<char> {
        numbered("srgb_to_linear_output_"@, id)
    }

    /// The field in the uniform block.
    pub open spec fn declaration(self, id: nat) -> Seq<char> {
        Seq::empty()
    }

    /// The helper routines that the statement calls.
    pub open spec fn functions(self, id: nat) -> Seq<char> {
        Seq::empty()
    }

    /// What the node contributes to the uniform buffer or to the bindings.
    pub open spec fn contents(self) -> Option<UniformContents> {
        None
    }

    /// Whether the value is computed by a statement of its own.
    pub open spec fn has_statement(self) -> bool {
        true
    }

    /// The statement that computes the value from the operands.
    pub open spec fn statement(self, nodes: Seq<MaterialNode>, id: nat) -> Seq<char> {
        let node = self.operands()[0];
        "let "@ + self.output(id) + " = srgb_to_linear("@ + nodes[node as int].output(node) + ");\n"@
    }

    pub fn new(node: ResourceId<MaterialNode>) -> (new_node: Self)
        ensures
            new_node.operands() == seq![node@],
    {
        SRGBToLinearNode { node }
    }

    pub fn collect_nodes(
        &self,
        pool: &ResourcePool<MaterialNode>,
        nodes: &mut Vec<ResourceId<MaterialNode>>,
        visited: &mut HashMap<usize, bool>,
        self_rid: ResourceId<MaterialNode>,
    )
        requires
            is_dag(pool@),
            self_rid@ < pool@.len(),
            pool@[self_rid@ as int] == MaterialNode::SRGBToLinear(*self),
        ensures
            collected(final(visited)@, final(nodes)@) == collect(
                pool@,
                self_rid@,
                collected(old(visited)@, old(nodes)@),
            ),
        decreases height(pool@, self_rid@), 0nat,
    {
        let ghost start = collected(visited@, nodes@);
        proof {
            lemma_operand(pool@, self_rid@, 0);
            assert(collect_operands(pool@, self_rid@, 0, start) == start);
        }
        pool.borrow(&self.node).unwrap().collect_nodes(pool, nodes, visited, self.node);
        assert(collected(visited@, nodes@) == collect_operands(pool@, self_rid@, 1, start));
        list_node(nodes, visited, self_rid);
    }

    pub fn borrow_contents(&self) -> (contents: Option<&UniformContents>)
        ensures
            contents is None,
    {
        None
    }

    pub fn build_declaration(&self, _self_id: usize) -> (text: String)
        ensures
            text@ == self.declaration(_self_id as nat),
    {
        String::new()
    }

    pub fn build_functions(&self, _self_id: usize) -> (text: String)
        ensures
            text@ == self.functions(_self_id as nat),
    {
        String::new()
    }

    pub fn build_fragment_shader(
        &self,
        pool: &ResourcePool<MaterialNode>,
        visited: &mut HashMap<usize, bool>,
        self_id: usize,
    ) -> (text: String)
        requires
            is_dag(pool@),
            self_id < pool@.len(),
            pool@[self_id as int] == MaterialNode::SRGBToLinear(*self),
        ensures
            (Emitted { visited: seen(final(visited)@), text: text@ }) == fragment(
                pool@,
                self_id as nat,
                seen(old(visited)@),
            ),
        decreases height(pool@, self_id as nat), 0nat,
    {
        if visited.contains_key(&self_id) {
            return String::new();
        }
        visited.insert(self_id, true);
        let ghost start = seen(visited@);
        proof {
            lemma_seen_insert(old(visited)@, self_id, true);
            lemma_operand(pool@, self_id as nat, 0);
            assert(fragment_operands(pool@, self_id as nat, 0, start) == (Emitted {
                visited: start,
                text: Seq::empty(),
            }));
        }
        let node = pool.borrow(&self.node).unwrap();
        let mut text = node.build_fragment_shader(pool, visited, self.node.id());
        assert((Emitted { visited: seen(visited@), text: text@ }) == fragment_operands(
            pool@,
            self_id as nat,
            1,
            start,
        )) by {
            assert(Seq::<char>::empty() + text@ =~= text@);
        }
        text.append("let ");
        text.append(self.get_fragment_output(self_id).as_str());
        text.append(" = srgb_to_linear(");
        text.append(node.get_fragment_output(self.node.id()).as_str());
        text.append(");\n");
        assert(text@ =~= fragment_operands(pool@, self_id as nat, 1, start).text + self.statement(
            pool@,
            self_id as nat,
        ));
        text
    }

    /// Whether the operand lies below `bound`.
    pub fn has_operands_below(&self, bound: usize) -> (below: bool)
        ensures
            below == operands_below(MaterialNode::SRGBToLinear(*self), bound as nat),
    {
        let below = self.node.id() < bound;
        proof {
            let operands = MaterialNode::SRGBToLinear(*self).operands();
            assert(operands[0] == self.node@);
        }
        below
    }

    pub fn get_fragment_output(&self, self_id: usize) -> (text: String)
        ensures
            text@ == self.output(self_id as nat),
    {
        numbered_string("srgb_to_linear_output_", self_id)
    }
}

} // verus!
