use crate::resource::resource::ResourceId;
use crate::resource::resource::ResourcePools;
use crate::texture::sampler::Sampler;
use crate::texture::sampler::SamplerDescriptor;
use crate::texture::texture::Texture;
use crate::texture::texture::TextureFormat;
use crate::texture::texture::TextureView;
use vstd::prelude::*;

verus! {

/// What decoding the first frame of a PNG stream gives: width, height and
/// the bytes of the frame, or nothing where the stream does not decode.
pub uninterp spec fn png_frame(bytes: Seq<u8>) -> Option<(u32, u32, Seq<u8>)>;

/// Decodes the first frame of a PNG stream with `png::Decoder`: reads the
/// header with `read_info`, takes width and height from `info`, and fills
/// a buffer of `output_buffer_size` bytes with `next_frame`. An error of
/// the decoder gives `None`. The decoder computes in integers, and its
/// routines give the same bytes on every machine: the result depends on
/// the bytes alone.
#[verifier::external_body]
fn decode_png(bytes: &[u8]) -> (frame: Option<(u32, u32, Vec<u8>)>)
    ensures
        (match frame {
            Some((width, height, texels)) => Some((width, height, texels@)),
            None => None,
        }) == png_frame(bytes@),
{
    let mut reader = png::Decoder::new(bytes).read_info().ok()?;
    let (width, height) = (reader.info().width, reader.info().height);
    let mut texels = vec![0; reader.output_buffer_size()];
    reader.next_frame(&mut texels).ok()?;
    Some((width, height, texels))
}

/// Decodes a JPEG stream with `jpeg_decoder::Decoder::decode` and takes
/// width and height from `info`. An error of the decoder gives `None`. The
/// decoder chooses its routines after the machine it runs on, and they do
/// not agree to the last bit: nothing is claimed of the pixels.
#[verifier::external_body]
fn decode_jpeg(bytes: &[u8]) -> (image: Option<(u16, u16, Vec<u8>)>) {
    let mut decoder = jpeg_decoder::Decoder::new(bytes);
    let pixels = decoder.decode().ok()?;
    let info = decoder.info()?;
    Some((info.width, info.height, pixels))
}

/// The format of a loaded texture: the one asked for, or eight-bit
/// unsigned where none is asked for.
pub open spec fn format_or_default(format: Option<TextureFormat>) -> TextureFormat {
    match format {
        Some(format) => format,
        None => TextureFormat::Uint8,
    }
}

/// `count` pixels of three bytes each, with an opaque fourth byte added
/// to each.
pub open spec fn with_alpha(pixels: Seq<u8>, count: nat) -> Seq<u8> {
    Seq::new(
        4 * count,
        |i: int|
            if i % 4 == 3 {
                255u8
            } else {
                pixels[(i / 4) * 3 + i % 4]
            },
    )
}

/// `after` is `before` with one texture added to the pool of textures.
pub open spec fn texture_added(
    before: ResourcePools,
    after: ResourcePools,
    texture: TextureView,
) -> bool {
    &&& after.textures@.len() == before.textures@.len() + 1
    &&& after.textures@.take(before.textures@.len() as int) == before.textures@
    &&& after.textures@.last()@ == texture
    &&& after == (ResourcePools { textures: after.textures, ..before })
}

/// Loads textures from encoded images.
pub struct TextureLoader {}

impl TextureLoader {
    /// Adds a texture of the given size and texels to the pool of textures.
    pub fn add_texture(
        pools: &mut ResourcePools,
        width: u32,
        height: u32,
        format: Option<TextureFormat>,
        texels: Vec<u8>,
    ) -> (rid: ResourceId<Texture>)
        ensures
            rid@ == old(pools).textures@.len(),
            texture_added(
                *old(pools),
                *final(pools),
                TextureView { width, height, format: format_or_default(format), texels: texels@ },
            ),
    {
        let format = match format {
            Some(format) => format,
            None => TextureFormat::Uint8,
        };
        let rid = pools.textures.add(Texture::new(width, height, format, texels));
        assert(pools.textures@.take(old(pools).textures@.len() as int) =~= old(pools).textures@);
        rid
    }

    /// Decodes a PNG stream and adds its first frame as a texture. Where
    /// the stream does not decode, nothing is added.
    pub fn load_png(pools: &mut ResourcePools, bytes: &[u8], format: Option<TextureFormat>) -> (rid:
        Option<ResourceId<Texture>>)
        ensures
            match png_frame(bytes@) {
                Some((width, height, texels)) => {
                    &&& rid is Some
                    &&& rid->0@ == old(pools).textures@.len()
                    &&& texture_added(
                        *old(pools),
                        *final(pools),
                        TextureView { width, height, format: format_or_default(format), texels },
                    )
                },
                None => rid is None && *final(pools) == *old(pools),
            },
    {
        match decode_png(bytes) {
            Some((width, height, texels)) => Some(
                Self::add_texture(pools, width, height, format, texels),
            ),
            None => None,
        }
    }

    /// Adds an opaque fourth byte to each pixel of `width` times `height`
    /// pixels of three bytes. Where `pixels` holds fewer pixels than that,
    /// there is no result.
    pub fn rgb_to_rgba(pixels: &Vec<u8>, width: u16, height: u16) -> (texels: Option<Vec<u8>>)
        ensures
            texels is Some <==> pixels@.len() >= 3 * (width as nat * height as nat),
            texels is Some ==> texels->0@ == with_alpha(pixels@, width as nat * height as nat),
    {
        proof {
            assert(width as nat * height as nat <= 65535 * 65535) by (nonlinear_arith)
                requires
                    width <= 65535,
                    height <= 65535,
            ;
        }
        let count: u64 = (width as u64) * (height as u64);
        if (pixels.len() as u64) < 3 * count {
            return None;
        }
        let mut texels: Vec<u8> = Vec::new();
        let mut i: usize = 0;
        let count: usize = count as usize;
        while i < count
            invariant
                0 <= i <= count,
                count == width as nat * height as nat,
                3 * count <= pixels.len(),
                texels@ == with_alpha(pixels@, i as nat),
            decreases count - i,
        {
            texels.push(pixels[3 * i]);
            texels.push(pixels[3 * i + 1]);
            texels.push(pixels[3 * i + 2]);
            texels.push(255);
            assert(texels@ =~= with_alpha(pixels@, (i + 1) as nat));
            i += 1;
        }
        Some(texels)
    }

    /// Adds a decoded image of `width` times `height` pixels of three
    /// bytes as a texture, with an opaque fourth byte added to each pixel.
    /// Where `pixels` holds fewer pixels than that, nothing is added.
    pub fn add_decoded_jpg(
        pools: &mut ResourcePools,
        width: u16,
        height: u16,
        pixels: &Vec<u8>,
        format: Option<TextureFormat>,
    ) -> (rid: Option<ResourceId<Texture>>)
        ensures
            rid is Some <==> pixels@.len() >= 3 * (width as nat * height as nat),
            rid is Some ==> rid->0@ == old(pools).textures@.len() && texture_added(
                *old(pools),
                *final(pools),
                TextureView {
                    width: width as u32,
                    height: height as u32,
                    format: format_or_default(format),
                    texels: with_alpha(pixels@, width as nat * height as nat),
                },
            ),
            rid is None ==> *final(pools) == *old(pools),
    {
        match Self::rgb_to_rgba(pixels, width, height) {
            Some(texels) => Some(
                Self::add_texture(pools, width as u32, height as u32, format, texels),
            ),
            None => None,
        }
    }

    /// Decodes a JPEG stream and adds its pixels, with an opaque fourth
    /// byte each, as a texture. Where the stream does not decode, or gives
    /// fewer than three bytes for each pixel, nothing is added. What the
    /// decoder gives is the decoder's: the texture added is the one that
    /// [`TextureLoader::add_decoded_jpg`] makes of it.
    pub fn load_jpg(pools: &mut ResourcePools, bytes: &[u8], format: Option<TextureFormat>) -> (rid:
        Option<ResourceId<Texture>>)
        ensures
            rid is None ==> *final(pools) == *old(pools),
            rid is Some ==> rid->0@ == old(pools).textures@.len() && exists|
                width: u16,
                height: u16,
                pixels: Seq<u8>,
            |
                pixels.len() >= 3 * (width as nat * height as nat) && #[trigger] texture_added(
                    *old(pools),
                    *final(pools),
                    TextureView {
                        width: width as u32,
                        height: height as u32,
                        format: format_or_default(format),
                        texels: with_alpha(pixels, width as nat * height as nat),
                    },
                ),
    {
        match decode_jpeg(bytes) {
            Some((width, height, pixels)) => {
                let rid = Self::add_decoded_jpg(pools, width, height, &pixels, format);
                proof {
                    if rid is Some {
                        assert(texture_added(
                            *old(pools),
                            *pools,
                            TextureView {
                                width: width as u32,
                                height: height as u32,
                                format: format_or_default(format),
                                texels: with_alpha(pixels@, width as nat * height as nat),
                            },
                        ));
                    }
                }
                rid
            },
            None => None,
        }
    }

    /// Adds a sampler with the default settings to the pool of samplers.
    pub fn create_default_sampler(pools: &mut ResourcePools) -> (rid: ResourceId<Sampler>)
        ensures
            rid@ == old(pools).samplers@.len(),
            final(pools).samplers@.len() == old(pools).samplers@.len() + 1,
            final(pools).samplers@.take(old(pools).samplers@.len() as int) == old(pools).samplers@,
            final(pools).samplers@.last()@ == SamplerDescriptor::default_spec(),
            *final(pools) == (ResourcePools { samplers: final(pools).samplers, ..*old(pools) }),
    {
        let rid = pools.samplers.add(Sampler::new(SamplerDescriptor::default()));
        assert(pools.samplers@.take(old(pools).samplers@.len() as int) =~= old(pools).samplers@);
        rid
    }
}

} // verus!
