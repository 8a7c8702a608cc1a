use std::collections::HashSet;
use wgpu_rust_renderer::geometry::attribute::Attribute;
use wgpu_rust_renderer::geometry::geometry::Geometry;
use wgpu_rust_renderer::geometry::index::Index;
use wgpu_rust_renderer::math::color::Color;
use wgpu_rust_renderer::math::euler::Euler;
use wgpu_rust_renderer::math::matrix3::Matrix3;
use wgpu_rust_renderer::math::matrix3gpu::Matrix3GPU;
use wgpu_rust_renderer::math::matrix4::Matrix4;
use wgpu_rust_renderer::math::quaternion::Quaternion;
use wgpu_rust_renderer::math::scalar::ONE;
use wgpu_rust_renderer::math::scalar::ZERO;
use wgpu_rust_renderer::math::vector3::Vector3;
use wgpu_rust_renderer::resource::resource::ResourcePool;
use wgpu_rust_renderer::resource::resource::ResourcePools;
use wgpu_rust_renderer::texture::sampler::FilterMode;
use wgpu_rust_renderer::texture::sampler::Sampler;
use wgpu_rust_renderer::texture::sampler::SamplerDescriptor;
use wgpu_rust_renderer::texture::sampler::WrapMode;
use wgpu_rust_renderer::texture::texture::Texture;
use wgpu_rust_renderer::texture::texture::TextureFormat;
use wgpu_rust_renderer::utils::texture_loader::TextureLoader;

const PNG_2X2: [u8; 76] = [
    137, 80, 78, 71, 13, 10, 26, 10, 0, 0, 0, 13, 73, 72, 68, 82, 0, 0, 0, 2, 0, 0, 0, 2, 8, 2, 0,
    0, 0, 253, 212, 154, 115, 0, 0, 0, 19, 73, 68, 65, 84, 120, 156, 99, 248, 207, 192, 192, 0,
    194, 12, 255, 185, 68, 228, 0, 26, 88, 3, 58, 86, 99, 162, 60, 0, 0, 0, 0, 73, 69, 78, 68,
    174, 66, 96, 130,
];

fn jpeg(components: u8, data: &[u8]) -> Vec<u8> {
    let mut bytes = vec![0xff, 0xd8];
    bytes.extend([0xff, 0xe0, 0, 16, b'J', b'F', b'I', b'F', 0, 1, 1, 0, 0, 1, 0, 1, 0, 0]);
    bytes.extend([0xff, 0xdb, 0, 67, 0]);
    bytes.extend([1u8; 64]);
    bytes.extend([0xff, 0xc0, 0, 8 + 3 * components, 8, 0, 1, 0, 2, components]);
    for id in 1..=components {
        bytes.extend([id, 0x11, 0]);
    }
    bytes.extend([0xff, 0xc4, 0, 21, 0x00, 1, 1, 0, 0, 0, 0, 0, 0, 0, 0, 0, 0, 0, 0, 0, 0, 10, 0]);
    bytes.extend([0xff, 0xc4, 0, 20, 0x10, 1, 0, 0, 0, 0, 0, 0, 0, 0, 0, 0, 0, 0, 0, 0, 0, 0]);
    bytes.extend([0xff, 0xda, 0, 6 + 2 * components, components]);
    for id in 1..=components {
        bytes.extend([id, 0]);
    }
    bytes.extend([0, 63, 0]);
    bytes.extend(data);
    bytes.extend([0xff, 0xd9]);
    bytes
}

#[test]
fn sampler_keeps_its_settings() {
    let sampler = Sampler::new(SamplerDescriptor {
        mag_filter: FilterMode::Nearest,
        min_filter: FilterMode::Linear,
        mipmap_filter: FilterMode::Nearest,
        wrap_u: WrapMode::Repeat,
        wrap_v: WrapMode::MirrorRepeat,
        wrap_w: WrapMode::ClampToBorder,
    });
    assert_eq!(*sampler.mag_filter(), FilterMode::Nearest);
    assert_eq!(*sampler.min_filter(), FilterMode::Linear);
    assert_eq!(*sampler.mipmap_filter(), FilterMode::Nearest);
    assert_eq!(*sampler.wrap_u(), WrapMode::Repeat);
    assert_eq!(*sampler.wrap_v(), WrapMode::MirrorRepeat);
    assert_eq!(*sampler.wrap_w(), WrapMode::ClampToBorder);
}

#[test]
fn default_sampler_is_linear_and_clamped() {
    let mut pools = ResourcePools::new();
    let first = TextureLoader::create_default_sampler(&mut pools);
    let second = TextureLoader::create_default_sampler(&mut pools);
    assert_eq!((first.id(), second.id()), (0, 1));
    let sampler = pools.samplers.borrow(&second).unwrap();
    assert_eq!(*sampler.mag_filter(), FilterMode::Linear);
    assert_eq!(*sampler.min_filter(), FilterMode::Linear);
    assert_eq!(*sampler.mipmap_filter(), FilterMode::Linear);
    assert_eq!(*sampler.wrap_u(), WrapMode::ClampToEdge);
    assert_eq!(*sampler.wrap_v(), WrapMode::ClampToEdge);
    assert_eq!(*sampler.wrap_w(), WrapMode::ClampToEdge);
}

#[test]
fn texture_keeps_what_it_was_made_from() {
    let texture = Texture::new(2, 3, TextureFormat::Uint8Srgb, vec![1, 2, 3]);
    assert_eq!(texture.get_width(), 2);
    assert_eq!(texture.get_height(), 3);
    assert_eq!(*texture.borrow_format(), TextureFormat::Uint8Srgb);
    assert_eq!(texture.borrow_texels(), &vec![1, 2, 3]);
}

#[test]
fn png_is_decoded_into_a_texture() {
    let mut pools = ResourcePools::new();
    pools.textures.add(Texture::new(1, 1, TextureFormat::Float, vec![]));
    let rid = TextureLoader::load_png(&mut pools, &PNG_2X2, None).unwrap();
    assert_eq!(rid.id(), 1);
    let texture = pools.textures.borrow(&rid).unwrap();
    assert_eq!(texture.get_width(), 2);
    assert_eq!(texture.get_height(), 2);
    assert_eq!(*texture.borrow_format(), TextureFormat::Uint8);
    assert_eq!(texture.borrow_texels(), &vec![255, 0, 0, 0, 255, 0, 0, 0, 255, 10, 20, 30]);

    let rid = TextureLoader::load_png(&mut pools, &PNG_2X2, Some(TextureFormat::Uint8Srgb));
    assert_eq!(*pools.textures.borrow(&rid.unwrap()).unwrap().borrow_format(), TextureFormat::Uint8Srgb);
}

#[test]
fn broken_png_adds_nothing() {
    let mut pools = ResourcePools::new();
    assert!(TextureLoader::load_png(&mut pools, &PNG_2X2[..40], None).is_none());
    assert!(TextureLoader::load_png(&mut pools, &[], None).is_none());
    assert!(TextureLoader::load_png(&mut pools, &jpeg(3, &[0x7f, 0x09, 0x3f]), None).is_none());
    assert_eq!(pools.textures.len(), 0);
}

#[test]
fn jpeg_is_decoded_into_a_texture_with_alpha() {
    let mut pools = ResourcePools::new();
    let rid = TextureLoader::load_jpg(&mut pools, &jpeg(3, &[0x7f, 0x09, 0x3f]), None).unwrap();
    assert_eq!(rid.id(), 0);
    let texture = pools.textures.borrow(&rid).unwrap();
    assert_eq!(texture.get_width(), 2);
    assert_eq!(texture.get_height(), 1);
    assert_eq!(*texture.borrow_format(), TextureFormat::Uint8);
    assert_eq!(texture.borrow_texels(), &vec![255, 255, 255, 255, 255, 255, 255, 255]);
}

#[test]
fn jpeg_without_three_bytes_a_pixel_adds_nothing() {
    let mut pools = ResourcePools::new();
    assert!(TextureLoader::load_jpg(&mut pools, &jpeg(1, &[0x7f, 0x0f]), None).is_none());
    assert!(TextureLoader::load_jpg(&mut pools, &PNG_2X2, None).is_none());
    assert!(TextureLoader::load_jpg(&mut pools, &[], None).is_none());
    assert_eq!(pools.textures.len(), 0);
}

#[test]
fn alpha_is_added_to_each_pixel() {
    let pixels = vec![1, 2, 3, 4, 5, 6, 7, 8, 9, 10, 11, 12, 13];
    assert_eq!(
        TextureLoader::rgb_to_rgba(&pixels, 2, 2),
        Some(vec![1, 2, 3, 255, 4, 5, 6, 255, 7, 8, 9, 255, 10, 11, 12, 255])
    );
    assert_eq!(TextureLoader::rgb_to_rgba(&pixels, 1, 3), Some(vec![1, 2, 3, 255, 4, 5, 6, 255, 7, 8, 9, 255]));
    assert_eq!(TextureLoader::rgb_to_rgba(&pixels, 0, 7), Some(vec![]));
    assert_eq!(TextureLoader::rgb_to_rgba(&pixels, 5, 1), None);
    assert_eq!(TextureLoader::rgb_to_rgba(&pixels, 65535, 65535), None);
}

#[test]
fn add_texture_defaults_to_eight_bit() {
    let mut pools = ResourcePools::new();
    let rid = TextureLoader::add_texture(&mut pools, 4, 5, None, vec![9]);
    let texture = pools.textures.borrow(&rid).unwrap();
    assert_eq!((texture.get_width(), texture.get_height()), (4, 5));
    assert_eq!(*texture.borrow_format(), TextureFormat::Uint8);
    let rid = TextureLoader::add_texture(&mut pools, 4, 5, Some(TextureFormat::Float), vec![9]);
    assert_eq!(*pools.textures.borrow(&rid).unwrap().borrow_format(), TextureFormat::Float);
}

#[test]
fn attribute_counts_whole_items() {
    let attribute = Attribute::new(vec![1, 2, 3, 4, 5, 6, 7], 3);
    assert_eq!(attribute.get_count(), 2);
    assert_eq!(attribute.borrow_data(), &vec![1, 2, 3, 4, 5, 6, 7]);
    let other = Attribute::new(vec![], 2);
    assert_eq!(other.get_count(), 0);
    assert_ne!(attribute.get_id(), other.get_id());
    assert_eq!(attribute.get_id(), attribute.get_id());
}

#[test]
fn index_counts_its_entries() {
    let index = Index::new(vec![0, 1, 2, 1, 3, 2]);
    assert_eq!(index.get_count(), 6);
    assert_eq!(index.borrow_data(), &vec![0, 1, 2, 1, 3, 2]);
    assert_ne!(index.get_id(), Index::new(vec![]).get_id());
}

#[test]
fn geometry_holds_attributes_by_name() {
    let mut attributes: ResourcePool<Attribute> = ResourcePool::new();
    let mut indices: ResourcePool<Index> = ResourcePool::new();
    let position = attributes.add(Attribute::new(vec![0; 9], 3));
    let normal = attributes.add(Attribute::new(vec![0; 9], 3));
    let uv = attributes.add(Attribute::new(vec![0; 6], 2));
    let index = indices.add(Index::new(vec![0, 1, 2]));

    let mut geometry = Geometry::new();
    assert!(geometry.borrow_attribute("position").is_none());
    assert!(geometry.borrow_index().is_none());
    geometry.set_attribute("position", position).set_attribute("normal", normal);
    geometry.set_index(index);
    assert_eq!(geometry.borrow_attribute("position").map(|a| a.id()), Some(0));
    assert_eq!(geometry.borrow_attribute("normal").map(|a| a.id()), Some(1));
    assert!(geometry.borrow_attribute("uv").is_none());
    assert_eq!(geometry.borrow_index().map(|i| i.id()), Some(0));

    geometry.set_attribute("position", uv);
    assert_eq!(geometry.borrow_attribute("position").map(|a| a.id()), Some(2));
    assert_eq!(geometry.borrow_attribute("normal").map(|a| a.id()), Some(1));
    geometry.remove_index();
    assert!(geometry.borrow_index().is_none());
}

#[test]
fn equal_handles_hash_alike() {
    let mut pool: ResourcePool<u8> = ResourcePool::new();
    let mut other: ResourcePool<u8> = ResourcePool::new();
    let a = pool.add(0);
    let b = pool.add(0);
    let a_again = other.add(0);
    let mut set = HashSet::new();
    assert!(set.insert(a));
    assert!(set.insert(b));
    assert!(!set.insert(a_again));
    assert_eq!(set.len(), 2);
    assert!(set.contains(&a.clone()));
}

#[test]
fn numbers_are_moved_not_changed() {
    assert_eq!(f32::from_bits(ZERO), 0.0);
    assert_eq!(f32::from_bits(ONE), 1.0);
    assert_eq!(Color::create(), [ZERO; 3]);
    assert_eq!(Euler::create(), [ZERO; 3]);
    assert_eq!(Vector3::create(), [ZERO; 3]);
    assert_eq!(Quaternion::create(), [ZERO, ZERO, ZERO, ONE]);

    let mut c = Color::create();
    assert_eq!(*Color::set(&mut c, 1, 2, 3), [1, 2, 3]);
    let mut d = Color::create();
    Color::copy(&mut d, &c);
    assert_eq!(d, [1, 2, 3]);
    let mut v = Vector3::create();
    Vector3::set(&mut v, 4, 5, 6);
    let mut w = Vector3::create();
    assert_eq!(*Vector3::copy(&mut w, &v), [4, 5, 6]);

    let mut m3 = [7; 9];
    Matrix3::identity(&mut m3);
    assert_eq!(m3, Matrix3::create());
    assert_eq!(m3, [ONE, 0, 0, 0, ONE, 0, 0, 0, ONE]);
    let source = [1, 2, 3, 4, 5, 6, 7, 8, 9];
    Matrix3::copy(&mut m3, &source);
    assert_eq!(m3, source);

    let mut gpu = [7; 12];
    Matrix3GPU::identity(&mut gpu);
    assert_eq!(gpu, Matrix3GPU::create());
    assert_eq!(gpu, [ONE, 0, 0, 0, 0, ONE, 0, 0, 0, 0, ONE, 0]);
    Matrix3GPU::copy_from_matrix3(&mut gpu, &source);
    assert_eq!(gpu, [1, 2, 3, 0, 4, 5, 6, 0, 7, 8, 9, 0]);
    let mut copy = Matrix3GPU::create();
    Matrix3GPU::copy(&mut copy, &gpu);
    assert_eq!(copy, gpu);

    let mut m4 = [7; 16];
    Matrix4::identity(&mut m4);
    assert_eq!(m4, Matrix4::create());
    Matrix4::set_from_2d_array(
        &mut m4,
        &[[1, 2, 3, 4], [5, 6, 7, 8], [9, 10, 11, 12], [13, 14, 15, 16]],
    );
    assert_eq!(m4, [1, 5, 9, 13, 2, 6, 10, 14, 3, 7, 11, 15, 4, 8, 12, 16]);
    let mut other = Matrix4::create();
    Matrix4::copy(&mut other, &m4);
    assert_eq!(other, m4);
}

#[test]
fn decoded_image_is_added_with_alpha() {
    let mut pools = ResourcePools::new();
    TextureLoader::add_texture(&mut pools, 1, 1, None, vec![0; 4]);
    let pixels = vec![1, 2, 3, 4, 5, 6, 7];
    let rid = TextureLoader::add_decoded_jpg(
        &mut pools,
        2,
        1,
        &pixels,
        Some(TextureFormat::Uint8Srgb),
    )
    .unwrap();
    assert_eq!(rid.id(), 1);
    let texture = pools.textures.borrow(&rid).unwrap();
    assert_eq!((texture.get_width(), texture.get_height()), (2, 1));
    assert_eq!(*texture.borrow_format(), TextureFormat::Uint8Srgb);
    assert_eq!(texture.borrow_texels(), &vec![1, 2, 3, 255, 4, 5, 6, 255]);

    assert!(TextureLoader::add_decoded_jpg(&mut pools, 3, 1, &pixels, None).is_none());
    assert!(TextureLoader::add_decoded_jpg(&mut pools, 1, 3, &pixels, None).is_none());
    assert_eq!(pools.textures.len(), 2);
    let rid = TextureLoader::add_decoded_jpg(&mut pools, 0, 9, &pixels, None).unwrap();
    assert!(pools.textures.borrow(&rid).unwrap().borrow_texels().is_empty());
}
