use crate::material::node::node::MaterialNode;
use crate::material::node::node::UniformContents;
use crate::material::node::node::collect;
use crate::material::node::node::fragment;
use crate::material::node::node::ids;
use crate::material::node::node::is_dag;
use crate::material::node::node::lemma_collect_from_root;
use crate::material::node::node::nothing_collected;
use crate::material::node::node::seen;
use crate::material::node::node::well_collected;
use crate::material::text::numbered;
use crate::material::text::numbered_string;
use crate::material::uniform_layout::deref_all;
use crate::resource::resource::ResourceId;
use crate::resource::resource::ResourcePool;
use crate::texture::sampler::Sampler;
use crate::texture::texture::Texture;
use std::collections::HashMap;
use vstd::prelude::*;

verus! {

/// Which faces of a surface are drawn.
#[derive(Clone, Copy, Debug, PartialEq, Eq, Structural)]
pub enum Side {
    BackSide,
    DoubleSide,
    FrontSide,
}

impl Default for Side {
    fn default() -> (side: Self)
        ensures
            side == Side::FrontSide,
    {
        Side::FrontSide
    }
}

/// The head of every shader: the vertex output, the object and camera
/// blocks, and the opening of the uniform block.
pub const PREFIX_CHUNK1: &'static str = "struct VertexOutput {
  [[builtin(position)]] position: vec4<f32>;
  [[location(1)]] normal: vec3<f32>;
  [[location(2)]] uv: vec2<f32>;
  [[location(3)]] view_position: vec3<f32>;
};

[[block]]
struct Object {
  model_view_matrix: mat4x4<f32>;
  normal_matrix: mat3x3<f32>;
};

[[block]]
struct Camera {
  projection_matrix: mat4x4<f32>;
};

[[block]]
struct Uniform {
";

/// The end of the uniform block and the three fixed bindings: the object,
/// the camera, and the uniform block itself.
pub const PREFIX_CHUNK2: &'static str = "};

[[group(0), binding(0)]]
var<uniform> object: Object;

[[group(0), binding(1)]]
var<uniform> camera: Camera;

[[group(0), binding(2)]]
var<uniform> unif: Uniform;
";

/// The routines that every shader has at hand.
pub const PREFIX_CHUNK3: &'static str = "
let PI: f32 = 3.1415926535;

fn less_than_equal_f32(value1: f32, value2: f32) -> f32 {
  if (value1 <= value2) {
    return 1.0;
  }
  return 0.0;
}

fn less_than_equal_vec3_f32(value1: vec3<f32>, value2: vec3<f32>) -> vec3<f32> {
  return vec3<f32>(
    less_than_equal_f32(value1.x, value2.x),
    less_than_equal_f32(value1.y, value2.y),
    less_than_equal_f32(value1.z, value2.z)
  );
}

fn srgb_to_linear(value: vec4<f32>) -> vec4<f32> {
  return vec4<f32>(
    mix(
      pow(value.rgb * 0.9478672986 + vec3<f32>(0.0521327014), vec3<f32>(2.4)),
      value.rgb * 0.0773993808,
      less_than_equal_vec3_f32(value.rgb, vec3<f32>(0.04045))
    ),
    value.a
  );
}

fn linear_to_srgb(value: vec4<f32>) -> vec4<f32> {
  return vec4<f32>(
    mix(
      pow(value.rgb, vec3<f32>(0.41666)) * 1.055 - vec3<f32>(0.055),
      value.rgb * 12.92,
      vec3<f32>(less_than_equal_vec3_f32(value.rgb, vec3<f32>(0.0031308)))
    ),
    value.a
  );
}
";

/// The vertex stage, the same for every material.
pub const VERTEX_CHUNK: &'static str = "
[[stage(vertex)]]
fn vs_main(
  [[location(0)]] position: vec3<f32>,
  [[location(1)]] normal: vec3<f32>,
  [[location(2)]] uv: vec2<f32>,
) -> VertexOutput {
  var out: VertexOutput;
  let mv_position = object.model_view_matrix * vec4<f32>(position, 1.0);
  out.position = camera.projection_matrix * mv_position;
  out.normal = normalize(object.normal_matrix * normal);
  out.uv = uv;
  out.view_position = -mv_position.xyz;
  return out;
}
";

/// The opening of the fragment stage.
pub const FRAGMENT_CHUNK1: &'static str = "
[[stage(fragment)]]
fn fs_main(in: VertexOutput) -> [[location(0)]] vec4<f32> {
  var alpha = f32(1.0);
  let light_dir: vec3<f32> = normalize(vec3<f32>(0.0, 0.0, 1.0));
  var use_directional_light = true;
";

/// The end of the fragment stage: the fixed directional light and the
/// conversion of the colour for display.
pub const FRAGMENT_CHUNK2: &'static str = "
  if (use_directional_light) {
    let light_color: vec3<f32> = vec3<f32>(1.0, 1.0, 1.0);
    let light_factor = clamp(dot(normalize(in.normal), light_dir), 0.0, 1.0) * light_color;
    color = color * light_factor.rgb;
  }
  return linear_to_srgb(vec4<f32>(color, alpha));
}
";

/// The number of bindings that every shader has before its textures: the
/// object, the camera and the uniform block.
pub const FIXED_BINDINGS: usize = 3;

/// The nodes of the graph below `root`, each once, operands before users.
pub open spec fn node_order(nodes: Seq<MaterialNode>, root: nat) -> Seq<nat> {
    collect(nodes, root, nothing_collected()).order
}

/// The contents of the nodes in `order` that have any, in that order.
pub open spec fn contents_of(nodes: Seq<MaterialNode>, order: Seq<nat>) -> Seq<UniformContents>
    decreases order.len(),
{
    if order.len() == 0 {
        Seq::empty()
    } else {
        let before = contents_of(nodes, order.drop_last());
        match nodes[order.last() as int].contents() {
            Some(contents) => before.push(contents),
            None => before,
        }
    }
}

/// The textures among `contents`, each once, in the order in which they
/// first appear.
pub open spec fn textures_of(contents: Seq<UniformContents>) -> Seq<nat>
    decreases contents.len(),
{
    if contents.len() == 0 {
        Seq::empty()
    } else {
        let before = textures_of(contents.drop_last());
        match contents.last() {
            UniformContents::Texture { texture, .. } => if before.contains(texture@) {
                before
            } else {
                before.push(texture@)
            },
            _ => before,
        }
    }
}

/// The samplers among `contents`, each once, in the order in which they
/// first appear.
pub open spec fn samplers_of(contents: Seq<UniformContents>) -> Seq<nat>
    decreases contents.len(),
{
    if contents.len() == 0 {
        Seq::empty()
    } else {
        let before = samplers_of(contents.drop_last());
        match contents.last() {
            UniformContents::Texture { sampler, .. } => if before.contains(sampler@) {
                before
            } else {
                before.push(sampler@)
            },
            _ => before,
        }
    }
}

/// The fields of the uniform block: the declarations of the nodes in
/// `order` whose contents are a field of the uniform buffer.
pub open spec fn uniform_block_declaration(nodes: Seq<MaterialNode>, order: Seq<nat>) -> Seq<char>
    decreases order.len(),
{
    if order.len() == 0 {
        Seq::empty()
    } else {
        let before = uniform_block_declaration(nodes, order.drop_last());
        let id = order.last();
        match nodes[id as int].contents() {
            Some(UniformContents::Texture { .. }) => before,
            Some(_) => before + nodes[id as int].declaration(id),
            None => before,
        }
    }
}

/// The declaration of one texture or sampler at a binding.
pub open spec fn binding_declaration(binding: nat, name: Seq<char>, kind: Seq<char>) -> Seq<char> {
    numbered("\n[[group(0), binding("@, binding) + ")]]\n"@ + name + kind
}

/// The declarations of the textures `ids`, at consecutive bindings from
/// `first` on.
pub open spec fn texture_bindings(ids: Seq<nat>, first: nat) -> Seq<char>
    decreases ids.len(),
{
    if ids.len() == 0 {
        Seq::empty()
    } else {
        texture_bindings(ids.drop_last(), first) + binding_declaration(
            (first + ids.len() - 1) as nat,
            numbered("var texture_"@, ids.last()),
            ": texture_2d<f32>;\n"@,
        )
    }
}

/// The declarations of the samplers `ids`, at consecutive bindings from
/// `first` on.
pub open spec fn sampler_bindings(ids: Seq<nat>, first: nat) -> Seq<char>
    decreases ids.len(),
{
    if ids.len() == 0 {
        Seq::empty()
    } else {
        sampler_bindings(ids.drop_last(), first) + binding_declaration(
            (first + ids.len() - 1) as nat,
            numbered("var sampler_"@, ids.last()),
            ": sampler;\n"@,
        )
    }
}

/// The declarations of the textures, then of the samplers, at consecutive
/// bindings behind the fixed ones.
pub open spec fn texture_declaration(textures: Seq<nat>, samplers: Seq<nat>) -> Seq<char> {
    texture_bindings(textures, FIXED_BINDINGS as nat) + sampler_bindings(
        samplers,
        FIXED_BINDINGS as nat + textures.len(),
    )
}

/// The helper routines of the nodes in `order`.
pub open spec fn functions_of(nodes: Seq<MaterialNode>, order: Seq<nat>) -> Seq<char>
    decreases order.len(),
{
    if order.len() == 0 {
        Seq::empty()
    } else {
        functions_of(nodes, order.drop_last()) + nodes[order.last() as int].functions(
            order.last(),
        )
    }
}

/// What stands before the two stages of the shader.
pub open spec fn prefix_code(nodes: Seq<MaterialNode>, root: nat) -> Seq<char> {
    let order = node_order(nodes, root);
    let contents = contents_of(nodes, order);
    PREFIX_CHUNK1@ + uniform_block_declaration(nodes, order) + PREFIX_CHUNK2@
        + texture_declaration(textures_of(contents), samplers_of(contents)) + PREFIX_CHUNK3@
        + functions_of(nodes, order)
}

/// The fragment stage: the statements that compute the root, each node's
/// once, and the root's value as the colour.
pub open spec fn fragment_code(nodes: Seq<MaterialNode>, root: nat) -> Seq<char> {
    FRAGMENT_CHUNK1@ + fragment(nodes, root, Set::empty()).text + "var color: vec3<f32> = "@
        + nodes[root as int].output(root) + ";\n"@ + FRAGMENT_CHUNK2@
}

/// The whole shader of a material whose colour is the node `root`.
pub open spec fn shader_code(nodes: Seq<MaterialNode>, root: nat) -> Seq<char> {
    prefix_code(nodes, root) + VERTEX_CHUNK@ + fragment_code(nodes, root)
}

/// The contents are a texture, and the texture is the one at index `id`.
pub open spec fn names_texture(contents: UniformContents, id: nat) -> bool {
    match contents {
        UniformContents::Texture { texture, .. } => texture@ == id,
        _ => false,
    }
}

/// The contents are a texture, and its sampler is the one at index `id`.
pub open spec fn names_sampler(contents: UniformContents, id: nat) -> bool {
    match contents {
        UniformContents::Texture { sampler, .. } => sampler@ == id,
        _ => false,
    }
}

/// The textures of a list of contents are pairwise distinct, and they are
/// the textures that the contents name.
pub proof fn lemma_textures_of(contents: Seq<UniformContents>)
    ensures
        textures_of(contents).no_duplicates(),
        textures_of(contents).len() <= contents.len(),
        forall|id: nat|
            textures_of(contents).contains(id) <==> exists|i: int|
                0 <= i < contents.len() && names_texture(#[trigger] contents[i], id),
    decreases contents.len(),
{
    if contents.len() > 0 {
        let rest = contents.drop_last();
        let before = textures_of(rest);
        let all = textures_of(contents);
        lemma_textures_of(rest);
        assert forall|id: nat| all.contains(id) implies exists|i: int|
            0 <= i < contents.len() && names_texture(#[trigger] contents[i], id) by {
            if before.contains(id) {
                let i = choose|i: int|
                    0 <= i < rest.len() && names_texture(#[trigger] rest[i], id);
                assert(contents[i] == rest[i]);
            } else {
                let j = choose|j: int| 0 <= j < all.len() && all[j] == id;
                assert(j == before.len());
                assert(contents[contents.len() - 1] == contents.last());
            }
        }
        assert forall|id: nat|
            (exists|i: int|
                0 <= i < contents.len() && names_texture(#[trigger] contents[i], id)) implies all.contains(id) by {
            let i = choose|i: int|
                0 <= i < contents.len() && names_texture(#[trigger] contents[i], id);
            if i < rest.len() {
                assert(rest[i] == contents[i]);
                assert(before.contains(id));
                let j = choose|j: int| 0 <= j < before.len() && before[j] == id;
                assert(all[j] == id);
            } else {
                if before.contains(id) {
                    let j = choose|j: int| 0 <= j < before.len() && before[j] == id;
                    assert(all[j] == id);
                } else {
                    assert(all[before.len() as int] == id);
                }
            }
        }
    }
}

/// The samplers of a list of contents are pairwise distinct, and they are
/// the samplers that the contents name.
pub proof fn lemma_samplers_of(contents: Seq<UniformContents>)
    ensures
        samplers_of(contents).no_duplicates(),
        samplers_of(contents).len() <= contents.len(),
        forall|id: nat|
            samplers_of(contents).contains(id) <==> exists|i: int|
                0 <= i < contents.len() && names_sampler(#[trigger] contents[i], id),
    decreases contents.len(),
{
    if contents.len() > 0 {
        let rest = contents.drop_last();
        let before = samplers_of(rest);
        let all = samplers_of(contents);
        lemma_samplers_of(rest);
        assert forall|id: nat| all.contains(id) implies exists|i: int|
            0 <= i < contents.len() && names_sampler(#[trigger] contents[i], id) by {
            if before.contains(id) {
                let i = choose|i: int|
                    0 <= i < rest.len() && names_sampler(#[trigger] rest[i], id);
                assert(contents[i] == rest[i]);
            } else {
                let j = choose|j: int| 0 <= j < all.len() && all[j] == id;
                assert(j == before.len());
                assert(contents[contents.len() - 1] == contents.last());
            }
        }
        assert forall|id: nat|
            (exists|i: int|
                0 <= i < contents.len() && names_sampler(#[trigger] contents[i], id)) implies all.contains(id) by {
            let i = choose|i: int|
                0 <= i < contents.len() && names_sampler(#[trigger] contents[i], id);
            if i < rest.len() {
                assert(rest[i] == contents[i]);
                assert(before.contains(id));
                let j = choose|j: int| 0 <= j < before.len() && before[j] == id;
                assert(all[j] == id);
            } else {
                if before.contains(id) {
                    let j = choose|j: int| 0 <= j < before.len() && before[j] == id;
                    assert(all[j] == id);
                } else {
                    assert(all[before.len() as int] == id);
                }
            }
        }
    }
}

/// The indices that a list of borrowed handles stands for.
pub open spec fn borrowed_ids<T>(handles: Seq<&ResourceId<T>>) -> Seq<nat> {
    Seq::new(handles.len(), |i: int| handles[i]@)
}

/// A surface description: the node that computes its colour, and the
/// faces that are drawn.
pub struct Material {
    color: ResourceId<MaterialNode>,
    side: Side,
}

impl Material {
    /// The index of the node that computes the colour.
    pub closed spec fn root(self) -> nat {
        self.color@
    }

    /// The faces that are drawn.
    pub closed spec fn side(self) -> Side {
        self.side
    }

    /// Whether the material can be compiled against `nodes`: its root
    /// exists, and the graph is consistent.
    pub open spec fn compiles(self, nodes: Seq<MaterialNode>) -> bool {
        &&& is_dag(nodes)
        &&& self.root() < nodes.len()
    }

    /// Whether the material's root exists and each node of the pool has its
    /// operands below it. A material for which this holds compiles.
    pub fn can_compile(&self, pool: &ResourcePool<MaterialNode>) -> (can: bool)
        ensures
            can == (self.root() < pool@.len() && crate::material::node::node::is_ordered(pool@)),
            can ==> self.compiles(pool@),
    {
        self.color.id() < pool.len() && MaterialNode::is_ordered(pool)
    }

    pub fn new(color: ResourceId<MaterialNode>, side: Side) -> (material: Self)
        ensures
            material.root() == color@,
            material.side() == side,
    {
        Material { color, side }
    }

    pub fn borrow_side(&self) -> (side: &Side)
        ensures
            *side == self.side(),
    {
        &self.side
    }

    /// The handle of the node that computes the colour.
    pub fn borrow_color(&self) -> (color: &ResourceId<MaterialNode>)
        ensures
            color@ == self.root(),
    {
        &self.color
    }

    /// The nodes of the material's graph, each once, operands before users.
    pub fn borrow_nodes(&self, pool: &ResourcePool<MaterialNode>) -> (nodes: Vec<
        ResourceId<MaterialNode>,
    >)
        requires
            self.compiles(pool@),
        ensures
            ids(nodes@) == node_order(pool@, self.root()),
            well_collected(pool@, collect(pool@, self.root(), nothing_collected())),
            nodes@.len() <= pool@.len(),
    {
        let mut nodes = Vec::new();
        let mut visited = HashMap::new();
        proof {
            assert(seen(visited@) =~= Set::empty());
            assert(ids(nodes@) =~= Seq::empty());
            lemma_collect_from_root(pool@, self.root());
        }
        pool.borrow(&self.color).unwrap().collect_nodes(pool, &mut nodes, &mut visited, self.color);
        nodes
    }

    /// The contents of the nodes that have any, in the order of the nodes.
    pub fn borrow_contents<'a>(&self, pool: &'a ResourcePool<MaterialNode>) -> (contents: Vec<
        &'a UniformContents,
    >)
        requires
            self.compiles(pool@),
        ensures
            deref_all(contents@) == contents_of(pool@, node_order(pool@, self.root())),
            contents@.len() <= pool@.len(),
    {
        let nodes = self.borrow_nodes(pool);
        let ghost order = node_order(pool@, self.root());
        let mut contents: Vec<&'a UniformContents> = Vec::new();
        let mut i: usize = 0;
        while i < nodes.len()
            invariant
                0 <= i <= nodes@.len(),
                ids(nodes@) == order,
                well_collected(pool@, collect(pool@, self.root(), nothing_collected())),
                order == node_order(pool@, self.root()),
                deref_all(contents@) == contents_of(pool@, order.take(i as int)),
                contents@.len() <= i,
            decreases nodes@.len() - i,
        {
            assert(order[i as int] == nodes@[i as int]@);
            assert(order[i as int] < pool@.len());
            let node = pool.borrow(&nodes[i]).unwrap();
            proof {
                assert(order.take(i + 1).drop_last() =~= order.take(i as int));
                assert(order.take(i + 1).last() == order[i as int]);
            }
            let ghost before = contents@;
            if let Some(c) = node.borrow_contents() {
                contents.push(c);
                assert(deref_all(contents@) =~= deref_all(before).push(*c));
            }
            i += 1;
        }
        assert(order.take(i as int) =~= order);
        contents
    }

    /// The textures that the material reads, each once, in the order in
    /// which the nodes first name them.
    pub fn borrow_textures<'a>(&'a self, pool: &'a ResourcePool<MaterialNode>) -> (textures: Vec<
        &'a ResourceId<Texture>,
    >)
        requires
            self.compiles(pool@),
        ensures
            borrowed_ids(textures@) == textures_of(
                contents_of(pool@, node_order(pool@, self.root())),
            ),
            textures@.len() <= pool@.len(),
    {
        let contents = self.borrow_contents(pool);
        let ghost all = deref_all(contents@);
        let mut textures: Vec<&'a ResourceId<Texture>> = Vec::new();
        let mut founds: HashMap<usize, bool> = HashMap::new();
        let mut i: usize = 0;
        assert(borrowed_ids(textures@) =~= textures_of(all.take(0)));
        while i < contents.len()
            invariant
                0 <= i <= contents@.len(),
                all == deref_all(contents@),
                borrowed_ids(textures@) == textures_of(all.take(i as int)),
                forall|id: usize|
                    founds@.contains_key(id) <==> borrowed_ids(textures@).contains(id as nat),
                textures@.len() <= i,
            decreases contents@.len() - i,
        {
            proof {
                assert(all.take(i + 1).drop_last() =~= all.take(i as int));
                assert(all.take(i + 1).last() == *contents@[i as int]);
            }
            let ghost before = textures@;
            match contents[i] {
                UniformContents::Texture { texture, .. } => {
                    let id = texture.id();
                    if !founds.contains_key(&id) {
                        textures.push(texture);
                        founds.insert(id, true);
                        assert(borrowed_ids(textures@) =~= borrowed_ids(before).push(texture@));
                        assert forall|other: usize|
                            founds@.contains_key(other) <==> borrowed_ids(textures@).contains(
                                other as nat,
                            ) by {
                            if other == id {
                                assert(borrowed_ids(textures@)[before.len() as int] == id);
                            } else if borrowed_ids(before).contains(other as nat) {
                                let j = choose|j: int|
                                    0 <= j < before.len() && borrowed_ids(before)[j] == other;
                                assert(borrowed_ids(textures@)[j] == other);
                            }
                        }
                    }
                },
                _ => {},
            }
            i += 1;
        }
        assert(all.take(i as int) =~= all);
        textures
    }

    /// The samplers that the material reads through, each once, in the
    /// order in which the nodes first name them.
    pub fn borrow_samplers<'a>(&'a self, pool: &'a ResourcePool<MaterialNode>) -> (samplers: Vec<
        &'a ResourceId<Sampler>,
    >)
        requires
            self.compiles(pool@),
        ensures
            borrowed_ids(samplers@) == samplers_of(
                contents_of(pool@, node_order(pool@, self.root())),
            ),
            samplers@.len() <= pool@.len(),
    {
        let contents = self.borrow_contents(pool);
        let ghost all = deref_all(contents@);
        let mut samplers: Vec<&'a ResourceId<Sampler>> = Vec::new();
        let mut founds: HashMap<usize, bool> = HashMap::new();
        let mut i: usize = 0;
        assert(borrowed_ids(samplers@) =~= samplers_of(all.take(0)));
        while i < contents.len()
            invariant
                0 <= i <= contents@.len(),
                all == deref_all(contents@),
                borrowed_ids(samplers@) == samplers_of(all.take(i as int)),
                forall|id: usize|
                    founds@.contains_key(id) <==> borrowed_ids(samplers@).contains(id as nat),
                samplers@.len() <= i,
            decreases contents@.len() - i,
        {
            proof {
                assert(all.take(i + 1).drop_last() =~= all.take(i as int));
                assert(all.take(i + 1).last() == *contents@[i as int]);
            }
            let ghost before = samplers@;
            match contents[i] {
                UniformContents::Texture { sampler, .. } => {
                    let id = sampler.id();
                    if !founds.contains_key(&id) {
                        samplers.push(sampler);
                        founds.insert(id, true);
                        assert(borrowed_ids(samplers@) =~= borrowed_ids(before).push(sampler@));
                        assert forall|other: usize|
                            founds@.contains_key(other) <==> borrowed_ids(samplers@).contains(
                                other as nat,
                            ) by {
                            if other == id {
                                assert(borrowed_ids(samplers@)[before.len() as int] == id);
                            } else if borrowed_ids(before).contains(other as nat) {
                                let j = choose|j: int|
                                    0 <= j < before.len() && borrowed_ids(before)[j] == other;
                                assert(borrowed_ids(samplers@)[j] == other);
                            }
                        }
                    }
                },
                _ => {},
            }
            i += 1;
        }
        assert(all.take(i as int) =~= all);
        samplers
    }

    /// The source of the material's shader.
    pub fn build_shader_code(&self, pool: &ResourcePool<MaterialNode>) -> (code: String)
        requires
            self.compiles(pool@),
            FIXED_BINDINGS + 2 * pool@.len() <= usize::MAX,
        ensures
            code@ == shader_code(pool@, self.root()),
    {
        let mut code = self.build_prefix(pool);
        code.append(self.build_vertex_shader().as_str());
        code.append(self.build_fragment_shader(pool).as_str());
        code
    }

    fn build_prefix(&self, pool: &ResourcePool<MaterialNode>) -> (code: String)
        requires
            self.compiles(pool@),
            FIXED_BINDINGS + 2 * pool@.len() <= usize::MAX,
        ensures
            code@ == prefix_code(pool@, self.root()),
    {
        let mut code = String::from_str(PREFIX_CHUNK1);
        code.append(self.build_uniform_block_declaration(pool).as_str());
        code.append(PREFIX_CHUNK2);
        code.append(self.build_texture_declaration(pool).as_str());
        code.append(PREFIX_CHUNK3);
        code.append(self.build_functions(pool).as_str());
        code
    }

    fn build_vertex_shader(&self) -> (code: String)
        ensures
            code@ == VERTEX_CHUNK@,
    {
        String::from_str(VERTEX_CHUNK)
    }

    fn build_fragment_shader(&self, pool: &ResourcePool<MaterialNode>) -> (code: String)
        requires
            self.compiles(pool@),
        ensures
            code@ == fragment_code(pool@, self.root()),
    {
        let mut visited: HashMap<usize, bool> = HashMap::new();
        let color = pool.borrow(&self.color).unwrap();
        assert(seen(visited@) =~= Set::empty());
        let mut code = String::from_str(FRAGMENT_CHUNK1);
        code.append(color.build_fragment_shader(pool, &mut visited, self.color.id()).as_str());
        code.append("var color: vec3<f32> = ");
        code.append(color.get_fragment_output(self.color.id()).as_str());
        code.append(";\n");
        code.append(FRAGMENT_CHUNK2);
        code
    }

    fn build_uniform_block_declaration(&self, pool: &ResourcePool<MaterialNode>) -> (code: String)
        requires
            self.compiles(pool@),
        ensures
            code@ == uniform_block_declaration(pool@, node_order(pool@, self.root())),
    {
        let nodes = self.borrow_nodes(pool);
        let ghost order = node_order(pool@, self.root());
        let mut code = String::new();
        let mut i: usize = 0;
        while i < nodes.len()
            invariant
                0 <= i <= nodes@.len(),
                ids(nodes@) == order,
                well_collected(pool@, collect(pool@, self.root(), nothing_collected())),
                order == node_order(pool@, self.root()),
                code@ == uniform_block_declaration(pool@, order.take(i as int)),
            decreases nodes@.len() - i,
        {
            assert(order[i as int] == nodes@[i as int]@);
            assert(order[i as int] < pool@.len());
            let node = pool.borrow(&nodes[i]).unwrap();
            proof {
                assert(order.take(i + 1).drop_last() =~= order.take(i as int));
                assert(order.take(i + 1).last() == order[i as int]);
            }
            if let Some(contents) = node.borrow_contents() {
                match contents {
                    UniformContents::Texture { .. } => {},
                    _ => {
                        code.append(node.build_declaration(nodes[i].id()).as_str());
                    },
                }
            }
            i += 1;
        }
        assert(order.take(i as int) =~= order);
        code
    }

    fn build_texture_declaration(&self, pool: &ResourcePool<MaterialNode>) -> (code: String)
        requires
            self.compiles(pool@),
            FIXED_BINDINGS + 2 * pool@.len() <= usize::MAX,
        ensures
            code@ == texture_declaration(
                textures_of(contents_of(pool@, node_order(pool@, self.root()))),
                samplers_of(contents_of(pool@, node_order(pool@, self.root()))),
            ),
    {
        let mut binding: usize = FIXED_BINDINGS;
        let mut code = String::new();

        let textures = self.borrow_textures(pool);
        let ghost texture_ids = borrowed_ids(textures@);
        let mut i: usize = 0;
        while i < textures.len()
            invariant
                0 <= i <= textures@.len(),
                textures@.len() <= pool@.len(),
                FIXED_BINDINGS + 2 * pool@.len() <= usize::MAX,
                texture_ids == borrowed_ids(textures@),
                binding == FIXED_BINDINGS + i,
                code@ == texture_bindings(texture_ids.take(i as int), FIXED_BINDINGS as nat),
            decreases textures@.len() - i,
        {
            proof {
                assert(texture_ids.take(i + 1).drop_last() =~= texture_ids.take(i as int));
                assert(texture_ids.take(i + 1).last() == textures@[i as int]@);
            }
            code.append(numbered_string("\n[[group(0), binding(", binding).as_str());
            code.append(")]]\n");
            code.append(numbered_string("var texture_", textures[i].id()).as_str());
            code.append(": texture_2d<f32>;\n");
            assert(code@ =~= texture_bindings(texture_ids.take(i + 1), FIXED_BINDINGS as nat));
            binding += 1;
            i += 1;
        }
        assert(texture_ids.take(i as int) =~= texture_ids);

        let samplers = self.borrow_samplers(pool);
        let ghost sampler_ids = borrowed_ids(samplers@);
        let ghost first = (FIXED_BINDINGS + textures@.len()) as nat;
        let ghost head = code@;
        let mut j: usize = 0;
        assert(code@ =~= head + sampler_bindings(sampler_ids.take(0), first));
        while j < samplers.len()
            invariant
                0 <= j <= samplers@.len(),
                samplers@.len() <= pool@.len(),
                textures@.len() <= pool@.len(),
                FIXED_BINDINGS + 2 * pool@.len() <= usize::MAX,
                sampler_ids == borrowed_ids(samplers@),
                first == FIXED_BINDINGS + textures@.len(),
                binding == first + j,
                code@ == head + sampler_bindings(sampler_ids.take(j as int), first),
            decreases samplers@.len() - j,
        {
            proof {
                assert(sampler_ids.take(j + 1).drop_last() =~= sampler_ids.take(j as int));
                assert(sampler_ids.take(j + 1).last() == samplers@[j as int]@);
            }
            code.append(numbered_string("\n[[group(0), binding(", binding).as_str());
            code.append(")]]\n");
            code.append(numbered_string("var sampler_", samplers[j].id()).as_str());
            code.append(": sampler;\n");
            assert(code@ =~= head + sampler_bindings(sampler_ids.take(j + 1), first));
            binding += 1;
            j += 1;
        }
        assert(sampler_ids.take(j as int) =~= sampler_ids);
        code
    }

    fn build_functions(&self, pool: &ResourcePool<MaterialNode>) -> (code: String)
        requires
            self.compiles(pool@),
        ensures
            code@ == functions_of(pool@, node_order(pool@, self.root())),
    {
        let nodes = self.borrow_nodes(pool);
        let ghost order = node_order(pool@, self.root());
        let mut code = String::new();
        let mut i: usize = 0;
        while i < nodes.len()
            invariant
                0 <= i <= nodes@.len(),
                ids(nodes@) == order,
                well_collected(pool@, collect(pool@, self.root(), nothing_collected())),
                order == node_order(pool@, self.root()),
                code@ == functions_of(pool@, order.take(i as int)),
            decreases nodes@.len() - i,
        {
            assert(order[i as int] == nodes@[i as int]@);
            assert(order[i as int] < pool@.len());
            let node = pool.borrow(&nodes[i]).unwrap();
            proof {
                assert(order.take(i + 1).drop_last() =~= order.take(i as int));
                assert(order.take(i + 1).last() == order[i as int]);
            }
            code.append(node.build_functions(nodes[i].id()).as_str());
            i += 1;
        }
        assert(order.take(i as int) =~= order);
        code
    }
}

} // verus!
