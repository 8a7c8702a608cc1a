use vstd::prelude::*;

verus! {

/// How the texel bytes of a [`Texture`] are to be read.
#[derive(Clone, Copy, Debug, PartialEq, Eq, Structural)]
pub enum TextureFormat {
    Float,
    Uint8,
    Uint8Srgb,
}

/// A two-dimensional image: its size, its format and its raw texel bytes.
pub struct Texture {
    format: TextureFormat,
    height: u32,
    texels: Vec<u8>,
    width: u32,
}

/// What a [`Texture`] holds.
pub struct TextureView {
    pub width: u32,
    pub height: u32,
    pub format: TextureFormat,
    pub texels: Seq<u8>,
}

impl View for Texture {
    type V = TextureView;

    closed spec fn view(&self) -> TextureView {
        TextureView {
            width: self.width,
            height: self.height,
            format: self.format,
            texels: self.texels@,
        }
    }
}

impl Texture {
    pub fn new(width: u32, height: u32, format: TextureFormat, texels: Vec<u8>) -> (texture: Self)
        ensures
            texture@ == (TextureView { width, height, format, texels: texels@ }),
    {
        Texture { format, height, texels, width }
    }

    pub fn get_width(&self) -> (width: u32)
        ensures
            width == self@.width,
    {
        self.width
    }

    pub fn get_height(&self) -> (height: u32)
        ensures
            height == self@.height,
    {
        self.height
    }

    pub fn borrow_format(&self) -> (format: &TextureFormat)
        ensures
            *format == self@.format,
    {
        &self.format
    }

    pub fn borrow_texels(&self) -> (texels: &Vec<u8>)
        ensures
            texels@ == self@.texels,
    {
        &self.texels
    }
}

} // verus!
