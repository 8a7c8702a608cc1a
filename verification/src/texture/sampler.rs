use vstd::prelude::*;

verus! {

/// How texture coordinates outside the unit interval are treated.
#[derive(Clone, Copy, Debug, PartialEq, Eq, Structural)]
pub enum WrapMode {
    ClampToBorder,
    ClampToEdge,
    MirrorRepeat,
    Repeat,
}

/// How texels are filtered when a texture is sampled.
#[derive(Clone, Copy, Debug, PartialEq, Eq, Structural)]
pub enum FilterMode {
    Linear,
    Nearest,
}

/// Sampling state of a texture.
pub struct Sampler {
    mag_filter: FilterMode,
    min_filter: FilterMode,
    mipmap_filter: FilterMode,
    wrap_u: WrapMode,
    wrap_v: WrapMode,
    wrap_w: WrapMode,
}

/// The settings a [`Sampler`] is made from.
pub struct SamplerDescriptor {
    pub mag_filter: FilterMode,
    pub min_filter: FilterMode,
    pub mipmap_filter: FilterMode,
    pub wrap_u: WrapMode,
    pub wrap_v: WrapMode,
    pub wrap_w: WrapMode,
}

impl SamplerDescriptor {
    /// The default settings: linear filtering everywhere, coordinates
    /// clamped to the edge.
    pub open spec fn default_spec() -> SamplerDescriptor {
        SamplerDescriptor {
            mag_filter: FilterMode::Linear,
            min_filter: FilterMode::Linear,
            mipmap_filter: FilterMode::Linear,
            wrap_u: WrapMode::ClampToEdge,
            wrap_v: WrapMode::ClampToEdge,
            wrap_w: WrapMode::ClampToEdge,
        }
    }
}

impl Default for SamplerDescriptor {
    fn default() -> (desc: Self)
        ensures
            desc == SamplerDescriptor::default_spec(),
    {
        SamplerDescriptor {
            mag_filter: FilterMode::Linear,
            min_filter: FilterMode::Linear,
            mipmap_filter: FilterMode::Linear,
            wrap_u: WrapMode::ClampToEdge,
            wrap_v: WrapMode::ClampToEdge,
            wrap_w: WrapMode::ClampToEdge,
        }
    }
}

impl View for Sampler {
    type V = SamplerDescriptor;

    /// A sampler is the settings it was made from.
    closed spec fn view(&self) -> SamplerDescriptor {
        SamplerDescriptor {
            mag_filter: self.mag_filter,
            min_filter: self.min_filter,
            mipmap_filter: self.mipmap_filter,
            wrap_u: self.wrap_u,
            wrap_v: self.wrap_v,
            wrap_w: self.wrap_w,
        }
    }
}

impl Sampler {
    pub fn new(desc: SamplerDescriptor) -> (sampler: Self)
        ensures
            sampler@ == desc,
    {
        Sampler {
            mag_filter: desc.mag_filter,
            min_filter: desc.min_filter,
            mipmap_filter: desc.mipmap_filter,
            wrap_u: desc.wrap_u,
            wrap_v: desc.wrap_v,
            wrap_w: desc.wrap_w,
        }
    }

    pub fn mag_filter(&self) -> (mode: &FilterMode)
        ensures
            *mode == self@.mag_filter,
    {
        &self.mag_filter
    }

    pub fn min_filter(&self) -> (mode: &FilterMode)
        ensures
            *mode == self@.min_filter,
    {
        &self.min_filter
    }

    pub fn mipmap_filter(&self) -> (mode: &FilterMode)
        ensures
            *mode == self@.mipmap_filter,
    {
        &self.mipmap_filter
    }

    pub fn wrap_u(&self) -> (mode: &WrapMode)
        ensures
            *mode == self@.wrap_u,
    {
        &self.wrap_u
    }

    pub fn wrap_v(&self) -> (mode: &WrapMode)
        ensures
            *mode == self@.wrap_v,
    {
        &self.wrap_v
    }

    pub fn wrap_w(&self) -> (mode: &WrapMode)
        ensures
            *mode == self@.wrap_w,
    {
        &self.wrap_w
    }
}

} // verus!
