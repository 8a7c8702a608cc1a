use crate::material::node::node::Emitted;
use crate::material::node::node::MaterialNode;
use crate::material::node::node::UniformContents;
use crate::material::node::node::collect;
use crate::material::node::node::collect_operands;
use crate::material::node::node::collected;
use crate::material::node::node::fragment;
use crate::material::node::node::fragment_operands;
use crate::material::node::node::is_dag;
use crate::material::node::node::lemma_seen_insert;
use crate::material::node::node::list_node;
use crate::material::node::node::operands_below;
use crate::material::node::node::seen;
use crate::material::text::numbered;
use crate::material::text::numbered_string;
use crate::resource::resource::ResourceId;
use crate::resource::resource::ResourcePool;
use crate::texture::sampler::Sampler;
use crate::texture::texture::Texture;
use std::collections::HashMap;
use vstd::prelude::*;

verus! {

/// A colour read from a texture at the fragment's texture coordinates.
pub struct TextureNode {
    contents: UniformContents,
}

impl TextureNode {
    #[verifier::type_invariant]
    spec fn holds_texture(self) -> bool {
        self.contents is Texture
    }

    /// The index of the texture that is read.
    pub closed spec fn texture(self) -> nat {
        match self.contents {
            UniformContents::Texture { texture, .. } => texture@,
            _ => 0,
        }
    }

    /// The index of the sampler that the texture is read through.
    pub closed spec fn sampler(self) -> nat {
        match self.contents {
            UniformContents::Texture { sampler, .. } => sampler@,
            _ => 0,
        }
    }

    /// The name of the texture in the shader.
    pub open spec fn texture_name(self) -> Seq<char> {
        numbered("texture_"@, self.texture())
    }

    /// The name of the sampler in the shader.
    pub open spec fn sampler_name(self) -> Seq<char> {
        numbered("sampler_"@, self.sampler())
    }

    /// The operands, in the order in which they are evaluated.
    pub open spec fn operands(self) -> Seq<nat> {
        Seq::empty()
    }

    /// The name under which the value is at hand in the shader.
    pub open spec fn output(self, id: nat) -> Seq<char> {
        numbered("texture_output_"@, id)
    }

    /// The field in the uniform block.
    pub open spec fn declaration(self, id: nat) -> Seq<char> {
        Seq::empty()
    }

    /// The helper routines that the statement calls.
    pub open spec fn functions(self, id: nat) -> Seq<char> {
        Seq::empty()
    }

    /// What the node contributes to the uniform buffer or to the bindings.
    pub closed spec fn contents(self) -> Option<UniformContents> {
        Some(self.contents)
    }

    /// Whether the value is computed by a statement of its own.
    pub open spec fn has_statement(self) -> bool {
        true
    }

    /// The statement that computes the value from the operands.
    pub open spec fn statement(self, nodes: Seq<MaterialNode>, id: nat) -> Seq<char> {
        "let "@ + self.output(id) + " = textureSample("@ + self.texture_name() + ", "@
            + self.sampler_name() + ", in.uv);\n"@
    }

    pub fn new(texture: ResourceId<Texture>, sampler: ResourceId<Sampler>) -> (node: Self)
        ensures
            node.contents() == Some(UniformContents::Texture { texture, sampler }),
            node.texture() == texture@,
            node.sampler() == sampler@,
    {
        TextureNode { contents: UniformContents::Texture { sampler, texture } }
    }

    fn get_texture_name(&self) -> (text: String)
        ensures
            text@ == self.texture_name(),
    {
        proof {
            use_type_invariant(self);
        }
        match self.contents {
            UniformContents::Texture { texture, .. } => numbered_string("texture_", texture.id()),
            _ => String::new(),
        }
    }

    fn get_sampler_name(&self) -> (text: String)
        ensures
            text@ == self.sampler_name(),
    {
        proof {
            use_type_invariant(self);
        }
        match self.contents {
            UniformContents::Texture { sampler, .. } => numbered_string("sampler_", sampler.id()),
            _ => String::new(),
        }
    }

    pub fn collect_nodes(
        &self,
        pool: &ResourcePool<MaterialNode>,
        nodes: &mut Vec<ResourceId<MaterialNode>>,
        visited: &mut HashMap<usize, bool>,
        self_rid: ResourceId<MaterialNode>,
    )
        requires
            is_dag(pool@),
            self_rid@ < pool@.len(),
            pool@[self_rid@ as int] == MaterialNode::Texture(*self),
        ensures
            collected(final(visited)@, final(nodes)@) == collect(
                pool@,
                self_rid@,
                collected(old(visited)@, old(nodes)@),
            ),
    {
        assert(collect_operands(pool@, self_rid@, 0, collected(visited@, nodes@)) == collected(
            visited@,
            nodes@,
        ));
        list_node(nodes, visited, self_rid);
    }

    pub fn borrow_contents(&self) -> (contents: Option<&UniformContents>)
        ensures
            contents is Some,
            Some(*contents->0) == self.contents(),
            *contents->0 is Texture,
    {
        proof {
            use_type_invariant(self);
        }
        Some(&self.contents)
    }

    pub fn build_declaration(&self, _self_id: usize) -> (text: String)
        ensures
            text@ == self.declaration(_self_id as nat),
    {
        String::new()
    }

    pub fn build_functions(&self, _self_id: usize) -> (text: String)
        ensures
            text@ == self.functions(_self_id as nat),
    {
        String::new()
    }

    pub fn build_fragment_shader(
        &self,
        pool: &ResourcePool<MaterialNode>,
        visited: &mut HashMap<usize, bool>,
        self_id: usize,
    ) -> (text: String)
        requires
            is_dag(pool@),
            self_id < pool@.len(),
            pool@[self_id as int] == MaterialNode::Texture(*self),
        ensures
            (Emitted { visited: seen(final(visited)@), text: text@ }) == fragment(
                pool@,
                self_id as nat,
                seen(old(visited)@),
            ),
    {
        if visited.contains_key(&self_id) {
            return String::new();
        }
        visited.insert(self_id, true);
        proof {
            lemma_seen_insert(old(visited)@, self_id, true);
            assert(fragment_operands(pool@, self_id as nat, 0, seen(visited@)) == (Emitted {
                visited: seen(visited@),
                text: Seq::empty(),
            }));
        }
        let mut text = String::from_str("let ");
        text.append(self.get_fragment_output(self_id).as_str());
        text.append(" = textureSample(");
        text.append(self.get_texture_name().as_str());
        text.append(", ");
        text.append(self.get_sampler_name().as_str());
        text.append(", in.uv);\n");
        assert(text@ =~= Seq::<char>::empty() + self.statement(pool@, self_id as nat));
        text
    }

    /// Whether every operand lies below `bound`: there is none.
    pub fn has_operands_below(&self, bound: usize) -> (below: bool)
        ensures
            below == operands_below(MaterialNode::Texture(*self), bound as nat),
    {
        true
    }

    pub fn get_fragment_output(&self, self_id: usize) -> (text: String)
        ensures
            text@ == self.output(self_id as nat),
    {
        numbered_string("texture_output_", self_id)
    }
}

} // verus!
