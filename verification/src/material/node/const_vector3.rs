use crate::material::node::node::Emitted;
use crate::material::node::node::MaterialNode;
use crate::material::node::node::UniformContents;
use crate::material::node::node::collect;
use crate::material::node::node::collect_operands;
use crate::material::node::node::collected;
use crate::material::node::node::fragment;
use crate::material::node::node::is_dag;
use crate::material::node::node::list_node;
use crate::material::node::node::operands_below;
use crate::material::node::node::seen;
use crate::resource::resource::ResourceId;
use crate::resource::resource::ResourcePool;
use std::collections::HashMap;
use vstd::prelude::*;

verus! {

/// A vector of three numbers written into the shader as literals.
pub struct ConstVector3Node {
    value: [String; 3],
}

impl ConstVector3Node {
    /// The texts of the three literals.
    pub closed spec fn value(self) -> Seq<Seq<char>> {
        seq![self.value[0]@, self.value[1]@, self.value[2]@]
    }

    /// The operands, in the order in which they are evaluated.
    pub open spec fn operands(self) -> Seq<nat> {
        Seq::empty()
    }

    /// The name under which the value is at hand in the shader.
    pub open spec fn output(self, id: nat) -> Seq<char> {
        "vec3<f32>("@ + self.value()[0] + ", "@ + self.value()[1] + ", "@ + self.value()[2] + ")"@
    }

    /// The field in the uniform block.
    pub open spec fn declaration(self, id: nat) -> Seq<char> {
        Seq::empty()
    }

    /// The helper routines that the statement calls.
    pub open spec fn functions(self, id: nat) -> Seq<char> {
        Seq::empty()
    }

    /// What the node contributes to the uniform buffer or to the bindings.
    pub open spec fn contents(self) -> Option<UniformContents> {
        None
    }

    /// Whether the value is computed by a statement of its own.
    pub open spec fn has_statement(self) -> bool {
        false
    }

    /// The statement that computes the value from the operands.
    pub open spec fn statement(self, nodes: Seq<MaterialNode>, id: nat) -> Seq<char> {
        Seq::empty()
    }

    /// A node for the vector whose components have the texts in `value`.
    pub fn new(value: [String; 3]) -> (node: Self)
        ensures
            node.value() == seq![value[0]@, value[1]@, value[2]@],
    {
        ConstVector3Node { value }
    }

    pub fn collect_nodes(
        &self,
        pool: &ResourcePool<MaterialNode>,
        nodes: &mut Vec<ResourceId<MaterialNode>>,
        visited: &mut HashMap<usize, bool>,
        self_rid: ResourceId<MaterialNode>,
    )
        requires
            is_dag(pool@),
            self_rid@ < pool@.len(),
            pool@[self_rid@ as int] == MaterialNode::ConstVector3(*self),
        ensures
            collected(final(visited)@, final(nodes)@) == collect(
                pool@,
                self_rid@,
                collected(old(visited)@, old(nodes)@),
            ),
    {
        assert(collect_operands(pool@, self_rid@, 0, collected(visited@, nodes@)) == collected(
            visited@,
            nodes@,
        ));
        list_node(nodes, visited, self_rid);
    }

    pub fn borrow_contents(&self) -> (contents: Option<&UniformContents>)
        ensures
            contents is None,
    {
        None
    }

    pub fn build_declaration(&self, _self_id: usize) -> (text: String)
        ensures
            text@ == self.declaration(_self_id as nat),
    {
        String::new()
    }

    pub fn build_functions(&self, _self_id: usize) -> (text: String)
        ensures
            text@ == self.functions(_self_id as nat),
    {
        String::new()
    }

    pub fn build_fragment_shader(
        &self,
        pool: &ResourcePool<MaterialNode>,
        visited: &mut HashMap<usize, bool>,
        self_id: usize,
    ) -> (text: String)
        requires
            is_dag(pool@),
            self_id < pool@.len(),
            pool@[self_id as int] == MaterialNode::ConstVector3(*self),
        ensures
            (Emitted { visited: seen(final(visited)@), text: text@ }) == fragment(
                pool@,
                self_id as nat,
                seen(old(visited)@),
            ),
    {
        String::new()
    }

    /// Whether every operand lies below `bound`: there is none.
    pub fn has_operands_below(&self, bound: usize) -> (below: bool)
        ensures
            below == operands_below(MaterialNode::ConstVector3(*self), bound as nat),
    {
        true
    }

    pub fn get_fragment_output(&self, _self_id: usize) -> (text: String)
        ensures
            text@ == self.output(_self_id as nat),
    {
        let mut text = String::from_str("vec3<f32>(");
        text.append(self.value[0].as_str());
        text.append(", ");
        text.append(self.value[1].as_str());
        text.append(", ");
        text.append(self.value[2].as_str());
        text.append(")");
        text
    }
}

} // verus!
