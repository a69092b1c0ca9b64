use frame_graph::{
    AnyTransientResourceDescriptor, BufferInitDescriptor, CachedPipelineId,
    TextureInfo, TransientBufferDescriptor, TransientResourceCache, TypeHandle,
};
use wgpu::{BufferUsages, Extent3d, TextureDimension, TextureFormat, TextureUsages};

fn buffer(size: u64, usage: BufferUsages, label: Option<&str>) -> TransientBufferDescriptor {
    TransientBufferDescriptor {
        label: label.map(|l| l.to_string()),
        size,
        usage,
        mapped_at_creation: false,
    }
}

fn texture(format: TextureFormat, width: u32, view_formats: Vec<TextureFormat>) -> TextureInfo {
    TextureInfo {
        label: None,
        size: Extent3d { width, height: 16, depth_or_array_layers: 1 },
        mip_level_count: 1,
        sample_count: 1,
        dimension: TextureDimension::D2,
        format,
        usage: TextureUsages::TEXTURE_BINDING,
        view_formats,
    }
}

fn init_size(len: usize) -> u64 {
    let contents = vec![7u8; len];
    let desc = BufferInitDescriptor {
        label: Some("init".to_string()),
        usage: BufferUsages::VERTEX,
        contents: &contents,
    };
    let result = TransientBufferDescriptor::from_buffer_init_desc(&desc);
    assert_eq!(result.label.as_deref(), Some("init"));
    assert!(!result.mapped_at_creation);
    assert_eq!(result.usage, BufferUsages::VERTEX);
    result.size
}

#[test]
fn init_contents_are_padded_to_the_copy_alignment() {
    assert_eq!(init_size(0), 0);
    assert_eq!(init_size(1), 4);
    assert_eq!(init_size(4), 4);
    assert_eq!(init_size(5), 8);
    assert_eq!(init_size(13), 16);
}

#[test]
fn buffer_keys_ignore_labels() {
    let a = buffer(64, BufferUsages::UNIFORM, Some("a"));
    let b = buffer(64, BufferUsages::UNIFORM, Some("b"));
    let c = buffer(64, BufferUsages::STORAGE, Some("a"));
    let d = buffer(32, BufferUsages::UNIFORM, Some("a"));
    assert!(a.key_eq(&b));
    assert!(!a.key_eq(&c));
    assert!(!a.key_eq(&d));
}

#[test]
fn texture_keys_compare_every_creation_parameter() {
    let a = texture(TextureFormat::Rgba8Unorm, 16, vec![]);
    let mut labelled = texture(TextureFormat::Rgba8Unorm, 16, vec![]);
    labelled.label = Some("named".to_string());
    assert!(a.key_eq(&labelled));
    assert!(!a.key_eq(&texture(TextureFormat::Rg8Unorm, 16, vec![])));
    assert!(!a.key_eq(&texture(TextureFormat::Rgba8Unorm, 32, vec![])));
    assert!(!a.key_eq(&texture(TextureFormat::Rgba8Unorm, 16, vec![TextureFormat::Rgba8UnormSrgb])));
    let mut three_d = texture(TextureFormat::Rgba8Unorm, 16, vec![]);
    three_d.dimension = TextureDimension::D3;
    assert!(!a.key_eq(&three_d));
    let mut other_usage = texture(TextureFormat::Rgba8Unorm, 16, vec![]);
    other_usage.usage = TextureUsages::STORAGE_BINDING;
    assert!(!a.key_eq(&other_usage));
}

#[test]
fn buffers_and_textures_never_share_a_key() {
    let b = AnyTransientResourceDescriptor::Buffer(buffer(64, BufferUsages::UNIFORM, None));
    let t = AnyTransientResourceDescriptor::Texture(texture(TextureFormat::Rgba8Unorm, 16, vec![]));
    assert!(!b.key_eq(&t));
    assert!(t.key_eq(&t.clone()));
}

#[test]
fn cache_hands_back_the_latest_matching_resource() {
    let mut cache: TransientResourceCache<u32> = TransientResourceCache::new();
    let key = || AnyTransientResourceDescriptor::Buffer(buffer(64, BufferUsages::UNIFORM, None));
    let other = AnyTransientResourceDescriptor::Buffer(buffer(16, BufferUsages::UNIFORM, None));
    cache.insert_resource(key(), 1);
    cache.insert_resource(other, 2);
    cache.insert_resource(key(), 3);
    assert_eq!(cache.get_resource(&key()), Some(3));
    assert_eq!(cache.get_resource(&key()), Some(1));
    assert_eq!(cache.get_resource(&key()), None);
    assert_eq!(cache.len(), 1);
}

#[test]
fn cached_pipeline_ids() {
    assert!(CachedPipelineId::new(0).is_valid());
    assert!(!CachedPipelineId::new(usize::MAX).is_valid());
    assert!(!CachedPipelineId::default().is_valid());
}

#[test]
fn type_handles_compare_by_index() {
    let a = TypeHandle::<u8>::new(1);
    assert!(a == TypeHandle::<u8>::new(1));
    assert!(a != TypeHandle::<u8>::new(2));
}
