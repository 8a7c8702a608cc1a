use crate::material::node::node::Emitted;
use crate::material::node::node::MaterialNode;
use crate::material::node::node::UniformContents;
use crate::material::node::node::collect;
use crate::material::node::node::collect_operands;
use crate::material::node::node::collected;
use crate::material::node::node::fragment;
use crate::material::node::node::is_dag;
use crate::material::node::node::list_node;
use crate::material::node::node::operands_below;
use crate::material::node::node::seen;
use crate::resource::resource::ResourceId;
use crate::resource::resource::ResourcePool;
use std::collections::HashMap;
use vstd::prelude::*;

verus! {

/// A number written into the shader as a literal.
pub struct ConstFloatNode {
    value: String,
}

impl ConstFloatNode {
    /// The text of the literal.
    pub closed spec fn value(self) -> Seq<char> {
        self.value@
    }

    /// The operands, in the order in which they are evaluated.
    pub open spec fn operands(self) -> Seq<nat> {
        Seq::empty()
    }

    /// The name under which the value is at hand in the shader.
    pub open spec fn output(self, id: nat) -> Seq<char> {
        self.value()
    }

    /// The field in the uniform block.
    pub open spec fn declaration(self, id: nat) -> Seq<char> {
        Seq::empty()
    }

    /// The helper routines that the statement calls.
    pub open spec fn functions(self, id: nat) -> Seq<char> {
        Seq::empty()
    }

    /// What the node contributes to the uniform buffer or to the bindings.
    pub open spec fn contents(self) -> Option<UniformContents> {
        None
    }

    /// Whether the value is computed by a statement of its own.
    pub open spec fn has_statement(self) -> bool {
        false
    }

    /// The statement that computes the value from the operands.
    pub open spec fn statement(self, nodes: Seq<MaterialNode>, id: nat) -> Seq<char> {
        Seq::empty()
    }

    /// A node for the number whose text is `value`.
    pub fn new(value: String) -> (node: Self)
        ensures
            node.value() == value@,
    {
        ConstFloatNode { value }
    }

    pub fn collect_nodes(
        &self,
        pool: &ResourcePool<MaterialNode>,
        nodes: &mut Vec<ResourceId<MaterialNode>>,
        visited: &mut HashMap<usize, bool>,
        self_rid: ResourceId<MaterialNode>,
    )
        requires
            is_dag(pool@),
            self_rid@ < pool@.len(),
            pool@[self_rid@ as int] == MaterialNode::ConstFloat(*self),
        ensures
            collected(final(visited)@, final(nodes)@) == collect(
                pool@,
                self_rid@,
                collected(old(visited)@, old(nodes)@),
            ),
    {
        assert(collect_operands(pool@, self_rid@, 0, collected(visited@, nodes@)) == collected(
            visited@,
            nodes@,
        ));
        list_node(nodes, visited, self_rid);
    }

    pub fn borrow_contents(&self) -> (contents: Option<&UniformContents>)
        ensures
            contents is None,
    {
        None
    }

    pub fn build_declaration(&self, _self_id: usize) -> (text: String)
        ensures
            text@ == self.declaration(_self_id as nat),
    {
        String::new()
    }

    pub fn build_functions(&self, _self_id: usize) -> (text: String)
        ensures
            text@ == self.functions(_self_id as nat),
    {
        String::new()
    }

    pub fn build_fragment_shader(
        &self,
        pool: &ResourcePool<MaterialNode>,
        visited: &mut HashMap<usize, bool>,
        self_id: usize,
    ) -> (text: String)
        requires
            is_dag(pool@),
            self_id < pool@.len(),
            pool@[self_id as int] == MaterialNode::ConstFloat(*self),
        ensures
            (Emitted { visited: seen(final(visited)@), text: text@ }) == fragment(
                pool@,
                self_id as nat,
                seen(old(visited)@),
            ),
    {
        String::new()
    }

    /// Whether every operand lies below `bound`: there is none.
    pub fn has_operands_below(&self, bound: usize) -> (below: bool)
        ensures
            below == operands_below(MaterialNode::ConstFloat(*self), bound as nat),
    {
        true
    }

    pub fn get_fragment_output(&self, _self_id: usize) -> (text: String)
        ensures
            text@ == self.output(_self_id as nat),
    {
        self.value.clone()
    }
}

} // verus!
