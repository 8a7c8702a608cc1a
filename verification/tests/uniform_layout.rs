use wgpu_rust_renderer::material::node::node::UniformContents;
use wgpu_rust_renderer::material::uniform_layout::get_align;
use wgpu_rust_renderer::material::uniform_layout::get_byte;
use wgpu_rust_renderer::material::uniform_layout::UniformField;
use wgpu_rust_renderer::material::uniform_layout::UniformLayout;
use wgpu_rust_renderer::resource::resource::ResourcePool;
use wgpu_rust_renderer::texture::sampler::Sampler;
use wgpu_rust_renderer::texture::sampler::SamplerDescriptor;
use wgpu_rust_renderer::texture::texture::Texture;
use wgpu_rust_renderer::texture::texture::TextureFormat;

fn scalar() -> UniformContents {
    UniformContents::Float { value: [0] }
}

fn vector() -> UniformContents {
    UniformContents::Vector3 { value: [0; 3] }
}

fn matrix() -> UniformContents {
    UniformContents::Matrix4 { value: [0; 16] }
}

fn texture() -> UniformContents {
    let mut textures: ResourcePool<Texture> = ResourcePool::new();
    let mut samplers: ResourcePool<Sampler> = ResourcePool::new();
    UniformContents::Texture {
        texture: textures.add(Texture::new(1, 1, TextureFormat::Uint8, vec![0, 0, 0, 0])),
        sampler: samplers.add(Sampler::new(SamplerDescriptor::default())),
    }
}

fn layout_of(contents: &[UniformContents]) -> UniformLayout {
    let borrowed: Vec<&UniformContents> = contents.iter().collect();
    UniformLayout::new(&borrowed)
}

#[test]
fn scalar_vector_scalar_is_packed_at_0_16_28() {
    let layout = layout_of(&[scalar(), vector(), scalar()]);
    assert_eq!(
        layout.fields(),
        &vec![
            UniformField { index: 0, offset: 0, size: 4 },
            UniformField { index: 1, offset: 16, size: 12 },
            UniformField { index: 2, offset: 28, size: 4 },
        ]
    );
    assert_eq!(layout.packed_size(), 32);
    assert_eq!(layout.buffer_size(), 32);
}

#[test]
fn buffer_size_is_rounded_to_the_largest_alignment() {
    let layout = layout_of(&[vector(), scalar(), scalar()]);
    assert_eq!(layout.packed_size(), 20);
    assert_eq!(layout.buffer_size(), 32);

    let layout = layout_of(&[scalar(), matrix()]);
    assert_eq!(
        layout.fields(),
        &vec![
            UniformField { index: 0, offset: 0, size: 4 },
            UniformField { index: 1, offset: 64, size: 64 },
        ]
    );
    assert_eq!(layout.packed_size(), 128);
    assert_eq!(layout.buffer_size(), 128);

    let layout = layout_of(&[matrix(), scalar()]);
    assert_eq!(layout.packed_size(), 68);
    assert_eq!(layout.buffer_size(), 128);
}

#[test]
fn textures_take_no_room_in_the_buffer() {
    let layout = layout_of(&[scalar(), texture(), vector()]);
    assert_eq!(
        layout.fields(),
        &vec![
            UniformField { index: 0, offset: 0, size: 4 },
            UniformField { index: 2, offset: 16, size: 12 },
        ]
    );
    assert_eq!(layout.packed_size(), 28);
    assert_eq!(layout.buffer_size(), 32);
}

#[test]
fn no_fields_give_an_empty_buffer() {
    let layout = layout_of(&[]);
    assert!(layout.fields().is_empty());
    assert_eq!(layout.packed_size(), 0);
    assert_eq!(layout.buffer_size(), 0);

    let layout = layout_of(&[texture()]);
    assert!(layout.fields().is_empty());
    assert_eq!(layout.buffer_size(), 0);
}

#[test]
fn alignment_and_size_of_each_kind() {
    assert_eq!((get_align(&scalar()), get_byte(&scalar())), (4, 4));
    assert_eq!((get_align(&vector()), get_byte(&vector())), (16, 12));
    assert_eq!((get_align(&matrix()), get_byte(&matrix())), (64, 64));
    assert_eq!((get_align(&texture()), get_byte(&texture())), (0, 0));
}

#[test]
fn offsets_are_aligned_and_never_decrease() {
    let mut state: u64 = 0x2545f4914f6cdd1d;
    for _ in 0..200 {
        let mut contents = Vec::new();
        let length = (state >> 60) as usize + 1;
        for _ in 0..length {
            state = state.wrapping_mul(6364136223846793005).wrapping_add(1442695040888963407);
            contents.push(match (state >> 33) % 3 {
                0 => scalar(),
                1 => vector(),
                _ => matrix(),
            });
        }
        let layout = layout_of(&contents);
        let fields = layout.fields();
        assert_eq!(fields.len(), contents.len());
        let mut end = 0;
        let mut largest = 0;
        for (i, field) in fields.iter().enumerate() {
            let align = get_align(&contents[i]);
            assert_eq!(field.index, i);
            assert_eq!(field.offset % align, 0);
            assert!(field.offset >= end);
            assert!(field.offset < end + align);
            assert_eq!(field.size, get_byte(&contents[i]));
            end = field.offset + field.size;
            largest = largest.max(align);
        }
        assert_eq!(layout.packed_size(), end);
        assert_eq!(layout.buffer_size() % largest, 0);
        assert!(layout.buffer_size() >= end && layout.buffer_size() < end + largest);
    }
}
