use crate::material::node::node::Emitted;
use crate::material::node::node::MaterialNode;
use crate::material::node::node::UniformContents;
use crate::material::node::node::collect;
use crate::material::node::node::collect_operands;
use crate::material::node::node::collected;
use crate::material::node::node::fragment;
use crate::material::node::node::fragment_operands;
use crate::material::node::node::height;
use crate::material::node::node::is_dag;
use crate::material::node::node::lemma_operand;
use crate::material::node::node::lemma_seen_insert;
use crate::material::node::node::list_node;
use crate::material::node::node::operands_below;
use crate::material::node::node::seen;
use crate::material::text::numbered;
use crate::material::text::numbered_string;
use crate::resource::resource::ResourceId;
use crate::resource::resource::ResourcePool;
use std::collections::HashMap;
use vstd::prelude::*;

verus! {

/// The product of two values.
pub struct MultiplyNode {
    value1: ResourceId<MaterialNode>,
    value2: ResourceId<MaterialNode>,
}

impl MultiplyNode {
    /// The operands, in the order in which they are evaluated.
    pub closed spec fn operands(self) -> Seq<nat> {
        seq![self.value1@, self.value2@]
    }

    /// The name under which the value is at hand in the shader.
    pub open spec fn output(self, id: nat) -> Seq<char> {
        numbered("multiply_output_"@, id)
    }

    /// The field in the uniform block.
    pub open spec fn declaration(self, id: nat) -> Seq<char> {
        Seq::empty()
    }

    /// The helper routines that the statement calls.
    pub open spec fn functions(self, id: nat) -> Seq<char> {
        Seq::empty()
    }

    /// What the node contributes to the uniform buffer or to the bindings.
    pub open spec fn contents(self) -> Option<UniformContents> {
        None
    }

    /// Whether the value is computed by a statement of its own.
    pub open spec fn has_statement(self) -> bool {
        true
    }

    /// The statement that computes the value from the operands.
    pub open spec fn statement(self, nodes: Seq<MaterialNode>, id: nat) -> Seq<char> {
        let value1 = self.operands()[0];
        let value2 = self.operands()[1];
        "let "@ + self.output(id) + " = "@ + nodes[value1 as int].output(value1) + " * "@
            + nodes[value2 as int].output(value2) + ";\n"@
    }

    pub fn new(value1: ResourceId<MaterialNode>, value2: ResourceId<MaterialNode>) -> (node: Self)
        ensures
            node.operands() == seq![value1@, value2@],
    {
        MultiplyNode { value1, value2 }
    }

    pub fn collect_nodes(
        &self,
        pool: &ResourcePool<MaterialNode>,
        nodes: &mut Vec<ResourceId<MaterialNode>>,
        visited: &mut HashMap<usize, bool>,
        self_rid: ResourceId<MaterialNode>,
    )
        requires
            is_dag(pool@),
            self_rid@ < pool@.len(),
            pool@[self_rid@ as int] == MaterialNode::Multiply(*self),
        ensures
            collected(final(visited)@, final(nodes)@) == collect(
                pool@,
                self_rid@,
                collected(old(visited)@, old(nodes)@),
            ),
        decreases height(pool@, self_rid@), 0nat,
    {
        let ghost start = collected(visited@, nodes@);
        proof {
            lemma_operand(pool@, self_rid@, 0);
            lemma_operand(pool@, self_rid@, 1);
            assert(collect_operands(pool@, self_rid@, 0, start) == start);
        }
        pool.borrow(&self.value1).unwrap().collect_nodes(pool, nodes, visited, self.value1);
        assert(collected(visited@, nodes@) == collect_operands(pool@, self_rid@, 1, start));
        pool.borrow(&self.value2).unwrap().collect_nodes(pool, nodes, visited, self.value2);
        assert(collected(visited@, nodes@) == collect_operands(pool@, self_rid@, 2, start));
        list_node(nodes, visited, self_rid);
    }

    pub fn borrow_contents(&self) -> (contents: Option<&UniformContents>)
        ensures
            contents is None,
    {
        None
    }

    pub fn build_declaration(&self, _self_id: usize) -> (text: String)
        ensures
            text@ == self.declaration(_self_id as nat),
    {
        String::new()
    }

    pub fn build_functions(&self, _self_id: usize) -> (text: String)
        ensures
            text@ == self.functions(_self_id as nat),
    {
        String::new()
    }

    pub fn build_fragment_shader(
        &self,
        pool: &ResourcePool<MaterialNode>,
        visited: &mut HashMap<usize, bool>,
        self_id: usize,
    ) -> (text: String)
        requires
            is_dag(pool@),
            self_id < pool@.len(),
            pool@[self_id as int] == MaterialNode::Multiply(*self),
        ensures
            (Emitted { visited: seen(final(visited)@), text: text@ }) == fragment(
                pool@,
                self_id as nat,
                seen(old(visited)@),
            ),
        decreases height(pool@, self_id as nat), 0nat,
    {
        if visited.contains_key(&self_id) {
            return String::new();
        }
        visited.insert(self_id, true);
        let ghost start = seen(visited@);
        proof {
            lemma_seen_insert(old(visited)@, self_id, true);
            lemma_operand(pool@, self_id as nat, 0);
            lemma_operand(pool@, self_id as nat, 1);
            assert(fragment_operands(pool@, self_id as nat, 0, start) == (Emitted {
                visited: start,
                text: Seq::empty(),
            }));
        }
        let value1 = pool.borrow(&self.value1).unwrap();
        let value2 = pool.borrow(&self.value2).unwrap();
        let mut text = value1.build_fragment_shader(pool, visited, self.value1.id());
        assert((Emitted { visited: seen(visited@), text: text@ }) == fragment_operands(
            pool@,
            self_id as nat,
            1,
            start,
        )) by {
            assert(Seq::<char>::empty() + text@ =~= text@);
        }
        let text2 = value2.build_fragment_shader(pool, visited, self.value2.id());
        text.append(text2.as_str());
        assert((Emitted { visited: seen(visited@), text: text@ }) == fragment_operands(
            pool@,
            self_id as nat,
            2,
            start,
        ));
        text.append("let ");
        text.append(self.get_fragment_output(self_id).as_str());
        text.append(" = ");
        text.append(value1.get_fragment_output(self.value1.id()).as_str());
        text.append(" * ");
        text.append(value2.get_fragment_output(self.value2.id()).as_str());
        text.append(";\n");
        assert(text@ =~= fragment_operands(pool@, self_id as nat, 2, start).text + self.statement(
            pool@,
            self_id as nat,
        ));
        text
    }

    /// Whether both operands lie below `bound`.
    pub fn has_operands_below(&self, bound: usize) -> (below: bool)
        ensures
            below == operands_below(MaterialNode::Multiply(*self), bound as nat),
    {
        let below = self.value1.id() < bound && self.value2.id() < bound;
        proof {
            let operands = MaterialNode::Multiply(*self).operands();
            if below {
                assert forall|k: int| 0 <= k < operands.len() implies #[trigger] operands[k]
                    < bound by {}
            } else {
                assert(operands[0] == self.value1@ && operands[1] == self.value2@);
            }
        }
        below
    }

    pub fn get_fragment_output(&self, self_id: usize) -> (text: String)
        ensures
            text@ == self.output(self_id as nat),
    {
        numbered_string("multiply_output_", self_id)
    }
}

} // verus!
