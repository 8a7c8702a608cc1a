use wgpu_rust_renderer::resource::resource::ResourcePool;
use wgpu_rust_renderer::resource::resource::ResourcePools;
use wgpu_rust_renderer::texture::sampler::Sampler;
use wgpu_rust_renderer::texture::sampler::SamplerDescriptor;

#[test]
fn added_resources_resolve_at_once() {
    let mut pool: ResourcePool<u32> = ResourcePool::new();
    let mut handles = Vec::new();
    for value in 0..16u32 {
        let handle = pool.add(value * 10);
        assert_eq!(pool.borrow(&handle), Some(&(value * 10)));
        handles.push(handle);
    }
    for (i, a) in handles.iter().enumerate() {
        for (j, b) in handles.iter().enumerate() {
            assert_eq!(a == b, i == j);
        }
        assert_eq!(a.id(), i);
        assert_eq!(pool.borrow(a), Some(&(i as u32 * 10)));
    }
    assert_eq!(pool.len(), 16);
}

#[test]
fn foreign_handle_resolves_to_nothing() {
    let mut large: ResourcePool<u32> = ResourcePool::new();
    let mut small: ResourcePool<u32> = ResourcePool::new();
    small.add(1);
    large.add(1);
    let never_issued = large.add(2);
    assert_eq!(small.borrow(&never_issued), None);
    assert!(small.borrow_mut(&never_issued).is_none());
    assert_eq!(large.borrow(&never_issued), Some(&2));
}

#[test]
fn borrow_mut_replaces_one_entry() {
    let mut pool: ResourcePool<u32> = ResourcePool::new();
    let a = pool.add(1);
    let b = pool.add(2);
    *pool.borrow_mut(&a).unwrap() = 7;
    assert_eq!(pool.borrow(&a), Some(&7));
    assert_eq!(pool.borrow(&b), Some(&2));
}

#[test]
fn pools_are_found_by_kind() {
    let mut pools = ResourcePools::new();
    let sampler = pools.borrow_mut::<Sampler>().add(Sampler::new(SamplerDescriptor::default()));
    assert_eq!(sampler.id(), 0);
    assert_eq!(pools.borrow::<Sampler>().len(), 1);
    assert_eq!(pools.samplers.len(), 1);
    assert_eq!(pools.textures.len(), 0);
}
