use std::cell::Cell;

use frame_graph::{
    AnyTransientResourceDescriptor, FrameGraph, IndexHandle, PassRunner, PassSlot, ResourceSlot,
    ResourceTable, TextureInfo, TransientBufferDescriptor, TransientResourceCache,
    TransientResourceCreator,
};
use wgpu::{BufferUsages, Extent3d, TextureDimension, TextureFormat, TextureUsages};

struct CountingDevice {
    created: Cell<u32>,
}

impl CountingDevice {
    fn new() -> Self {
        CountingDevice { created: Cell::new(0) }
    }
}

impl TransientResourceCreator<u32> for CountingDevice {
    fn create_resource(&self, _desc: &AnyTransientResourceDescriptor) -> u32 {
        let id = self.created.get() + 100;
        self.created.set(self.created.get() + 1);
        id
    }
}

/// Records, for every pass it runs, which of the watched resource indices were installed.
struct Recorder {
    watched: Vec<usize>,
    seen: Vec<(u32, Vec<Option<u32>>)>,
}

impl PassRunner<u32, u32> for Recorder {
    fn run_pass(&mut self, pass: &u32, resource_table: &ResourceTable<u32>) {
        let mut installed = vec![];
        for index in self.watched.iter() {
            installed.push(resource_table.get(*index).copied());
        }
        self.seen.push((*pass, installed));
    }
}

fn buffer_desc(size: u64) -> TransientBufferDescriptor {
    TransientBufferDescriptor {
        label: None,
        size,
        usage: BufferUsages::UNIFORM | BufferUsages::COPY_DST,
        mapped_at_creation: false,
    }
}

fn texture_info(label: &str) -> TextureInfo {
    TextureInfo {
        label: Some(label.into()),
        size: Extent3d { width: 600, height: 600, depth_or_array_layers: 1 },
        mip_level_count: 1,
        sample_count: 1,
        dimension: TextureDimension::D2,
        format: TextureFormat::Rg8Unorm,
        usage: TextureUsages::TEXTURE_BINDING | TextureUsages::RENDER_ATTACHMENT,
        view_formats: vec![],
    }
}

#[test]
fn test_frame_graph() {
    let mut frame_graph: FrameGraph<u32, u32> = FrameGraph::default();

    let test_a = "test_a";

    let texture_size = Extent3d { width: 600, height: 600, depth_or_array_layers: 1 };

    frame_graph.create(
        test_a,
        TextureInfo {
            size: texture_size,
            label: Some(test_a.into()),
            mip_level_count: 1,
            sample_count: 1,
            dimension: TextureDimension::D2,
            format: TextureFormat::Rg8Unorm,
            usage: TextureUsages::TEXTURE_BINDING | TextureUsages::RENDER_ATTACHMENT,
            view_formats: vec![],
        },
    );

    assert_eq!(1, frame_graph.resource_count());
}

#[test]
fn get_or_create_twice_gives_one_node() {
    let mut graph: FrameGraph<u32, u32> = FrameGraph::new();
    let a = graph.get_or_create("x", buffer_desc(64));
    let b = graph.get_or_create("x", buffer_desc(64));
    assert_eq!(a.raw, b.raw);
    assert_eq!(a.desc.size, b.desc.size);
    assert_eq!(graph.resource_count(), 1);
}

#[test]
fn get_or_create_keeps_first_descriptor() {
    let mut graph: FrameGraph<u32, u32> = FrameGraph::new();
    graph.get_or_create("x", buffer_desc(64));
    let b = graph.get_or_create("x", buffer_desc(128));
    assert_eq!(b.desc.size, 64);
    assert_eq!(graph.resource_count(), 1);
}

#[test]
fn create_twice_gives_two_nodes() {
    let mut graph: FrameGraph<u32, u32> = FrameGraph::new();
    let a = graph.create("x", buffer_desc(64));
    let b = graph.create("x", buffer_desc(64));
    assert_ne!(a.raw.index.index, b.raw.index.index);
    assert_eq!(graph.resource_count(), 2);
    assert_eq!(graph.get_resource_node(&a.raw.index).name, "x");
    assert_eq!(graph.get_resource_node(&b.raw.index).name, "x");
}

#[test]
fn get_finds_registered_name_only() {
    let mut graph: FrameGraph<u32, u32> = FrameGraph::new();
    graph.create("plain", buffer_desc(16));
    let named = graph.get_or_create("named", texture_info("t"));
    assert!(graph.get::<frame_graph::TransientBuffer>("plain").is_none());
    assert!(graph.get::<frame_graph::TransientBuffer>("named").is_none());
    let found = graph.get::<frame_graph::TransientTexture>("named").unwrap();
    assert_eq!(found.raw, named.raw);
}

#[test]
fn writes_bump_versions() {
    let mut graph: FrameGraph<u32, u32> = FrameGraph::new();
    let h = graph.create("x", buffer_desc(64));
    let mut builder = graph.create_pass_builder("p");
    let mut versions = vec![];
    for _ in 0..5 {
        versions.push(builder.write(h.clone()).raw.version);
    }
    builder.finish();
    assert_eq!(versions, vec![1, 2, 3, 4, 5]);
    assert_eq!(graph.get_resource_node(&h.raw.index).version(), 5);
    assert_eq!(graph.get_pass_node(&IndexHandle::<PassSlot>::new(0)).writes.len(), 5);
}

#[test]
fn read_refuses_stale_handle_and_dedups() {
    let mut graph: FrameGraph<u32, u32> = FrameGraph::new();
    let h = graph.create("x", buffer_desc(64));
    let mut builder = graph.create_pass_builder("p");
    assert!(builder.read(h.clone()).is_some());
    assert!(builder.read(h.clone()).is_some());
    assert_eq!(builder.reads.len(), 1);
    let w = builder.write(h.clone());
    assert_eq!(w.raw.version, 1);
    assert!(builder.read(h.clone()).is_none());
    let fresh = builder.graph.get_resource_node(&h.raw.index).get_handle::<frame_graph::TransientBuffer>().unwrap();
    let r = builder.read(fresh).unwrap();
    assert_eq!(r.raw.version, 1);
    assert_eq!(builder.reads.len(), 2);
}

fn pass_with(graph: &mut FrameGraph<u32, u32>, name: &str, payload: u32, uses: &[frame_graph::Handle<frame_graph::TransientBuffer>]) {
    let mut builder = graph.create_pass_builder(name);
    for h in uses {
        let current = builder.graph.get_resource_node(&h.raw.index).get_handle::<frame_graph::TransientBuffer>().unwrap();
        builder.read(current);
    }
    builder.set_pass(payload);
    builder.finish();
}

#[test]
fn lifetime_spans_first_to_last_use() {
    let mut graph: FrameGraph<u32, u32> = FrameGraph::new();
    let r = graph.create("r", buffer_desc(64));
    let other = graph.create("other", buffer_desc(32));
    for p in 0..6u32 {
        let uses = if p == 1 || p == 4 { vec![r.clone()] } else { vec![other.clone()] };
        pass_with(&mut graph, &format!("P{}", p + 1), p, &uses);
    }
    graph.compile();
    let node = graph.get_resource_node(&r.raw.index);
    assert_eq!(node.first_use_pass.unwrap().index, 1);
    assert_eq!(node.last_user_pass.unwrap().index, 4);
    for p in 0..6usize {
        let pass = graph.get_pass_node(&IndexHandle::new(p));
        let requested = pass.resource_request_array.iter().any(|i| i.index == r.raw.index.index);
        let released = pass.resource_release_array.iter().any(|i| i.index == r.raw.index.index);
        assert_eq!(requested, p == 1);
        assert_eq!(released, p == 4);
    }
}

#[test]
fn single_use_is_requested_and_released_in_one_pass() {
    let mut graph: FrameGraph<u32, u32> = FrameGraph::new();
    let r = graph.create("r", buffer_desc(64));
    pass_with(&mut graph, "only", 0, &[r.clone()]);
    graph.compile();
    let pass = graph.get_pass_node(&IndexHandle::new(0));
    assert_eq!(pass.resource_request_array.len(), 1);
    assert_eq!(pass.resource_release_array.len(), 1);
}

#[test]
fn untouched_resource_is_never_created() {
    let mut graph: FrameGraph<u32, u32> = FrameGraph::new();
    let used = graph.create("used", buffer_desc(64));
    let unused = graph.create("unused", buffer_desc(256));
    pass_with(&mut graph, "p", 7, &[used.clone()]);
    graph.compile();
    let node = graph.get_resource_node(&unused.raw.index);
    assert!(node.first_use_pass.is_none());
    assert!(node.last_user_pass.is_none());
    let device = CountingDevice::new();
    let mut cache = TransientResourceCache::new();
    let mut recorder = Recorder { watched: vec![used.raw.index.index, unused.raw.index.index], seen: vec![] };
    graph.execute(&device, &mut recorder, &mut cache);
    assert_eq!(device.created.get(), 1);
    assert_eq!(recorder.seen, vec![(7, vec![Some(100), None])]);
}

#[test]
fn released_resource_is_reused_next_frame() {
    let device = CountingDevice::new();
    let mut cache = TransientResourceCache::new();
    let mut recorder = Recorder { watched: vec![0], seen: vec![] };

    let mut graph: FrameGraph<u32, u32> = FrameGraph::new();
    let a = graph.create("a", buffer_desc(64));
    pass_with(&mut graph, "first", 1, &[a]);
    graph.compile();
    graph.execute(&device, &mut recorder, &mut cache);
    assert_eq!(device.created.get(), 1);
    assert_eq!(cache.len(), 1);

    let mut relabelled = buffer_desc(64);
    relabelled.label = Some("other label".into());
    let b = graph.create("b", relabelled);
    pass_with(&mut graph, "second", 2, &[b]);
    graph.compile();
    graph.execute(&device, &mut recorder, &mut cache);
    assert_eq!(device.created.get(), 1);
    assert_eq!(cache.len(), 1);
    assert_eq!(recorder.seen, vec![(1, vec![Some(100)]), (2, vec![Some(100)])]);
}

#[test]
fn different_descriptor_is_not_reused() {
    let device = CountingDevice::new();
    let mut cache = TransientResourceCache::new();
    let mut recorder = Recorder { watched: vec![0], seen: vec![] };
    let mut graph: FrameGraph<u32, u32> = FrameGraph::new();
    let a = graph.create("a", buffer_desc(64));
    pass_with(&mut graph, "first", 1, &[a]);
    graph.compile();
    graph.execute(&device, &mut recorder, &mut cache);
    let b = graph.create("b", buffer_desc(128));
    pass_with(&mut graph, "second", 2, &[b]);
    graph.compile();
    graph.execute(&device, &mut recorder, &mut cache);
    assert_eq!(device.created.get(), 2);
    assert_eq!(cache.len(), 2);
}

#[test]
fn imported_resource_is_not_pooled() {
    let device = CountingDevice::new();
    let mut cache = TransientResourceCache::new();
    let mut recorder = Recorder { watched: vec![0], seen: vec![] };
    let mut graph: FrameGraph<u32, u32> = FrameGraph::new();
    let h = graph.import("swapchain", 42, buffer_desc(64));
    let again = graph.import("swapchain", 43, buffer_desc(64));
    assert_eq!(h.raw, again.raw);
    pass_with(&mut graph, "p", 3, &[h]);
    graph.compile();
    graph.execute(&device, &mut recorder, &mut cache);
    assert_eq!(device.created.get(), 0);
    assert_eq!(cache.len(), 0);
    assert_eq!(recorder.seen, vec![(3, vec![Some(42)])]);
}

#[test]
fn empty_graph_compile_and_execute_do_nothing() {
    let device = CountingDevice::new();
    let mut cache = TransientResourceCache::new();
    cache.insert_resource(AnyTransientResourceDescriptor::Buffer(buffer_desc(8)), 9);
    let mut recorder = Recorder { watched: vec![], seen: vec![] };
    let mut graph: FrameGraph<u32, u32> = FrameGraph::new();
    graph.compile();
    assert!(!graph.is_compiled());
    graph.execute(&device, &mut recorder, &mut cache);
    assert_eq!(graph.resource_count(), 0);
    assert_eq!(graph.pass_count(), 0);
    assert_eq!(cache.len(), 1);
    assert_eq!(device.created.get(), 0);
    assert!(recorder.seen.is_empty());
}

#[test]
fn resources_without_passes_are_kept_by_compile() {
    let mut graph: FrameGraph<u32, u32> = FrameGraph::new();
    graph.create("x", buffer_desc(8));
    graph.compile();
    assert!(!graph.is_compiled());
    assert_eq!(graph.resource_count(), 1);
}

#[test]
fn execute_resets_the_graph() {
    let device = CountingDevice::new();
    let mut cache = TransientResourceCache::new();
    let mut recorder = Recorder { watched: vec![], seen: vec![] };
    let mut graph: FrameGraph<u32, u32> = FrameGraph::new();
    graph.create("pad", buffer_desc(4));
    let x = graph.get_or_create("x", buffer_desc(64));
    assert_eq!(x.raw.index.index, 1);
    pass_with(&mut graph, "p", 0, &[x]);
    graph.compile();
    assert!(graph.is_compiled());
    graph.execute(&device, &mut recorder, &mut cache);
    assert_eq!(graph.resource_count(), 0);
    assert_eq!(graph.pass_count(), 0);
    assert!(!graph.is_compiled());
    assert!(graph.get::<frame_graph::TransientBuffer>("x").is_none());
    let again = graph.get_or_create("x", buffer_desc(64));
    assert_eq!(again.raw.index.index, 0);
    assert_eq!(again.raw.version, 0);
}

#[test]
fn resource_index_handles_compare_by_position() {
    let a = IndexHandle::<ResourceSlot>::new(3);
    let b = IndexHandle::<ResourceSlot>::new(3);
    let c = IndexHandle::<ResourceSlot>::new(4);
    assert!(a == b);
    assert!(a != c);
}

#[test]
fn compile_leaves_recorded_commands_in_pass_nodes() {
    let mut graph: FrameGraph<u32, u32> = FrameGraph::new();
    let r = graph.create("r", buffer_desc(64));
    pass_with(&mut graph, "first", 11, &[r.clone()]);
    pass_with(&mut graph, "second", 22, &[r]);
    graph.compile();
    assert!(graph.is_compiled());
    assert_eq!(graph.get_pass_node(&IndexHandle::new(0)).pass, Some(11));
    assert_eq!(graph.get_pass_node(&IndexHandle::new(1)).pass, Some(22));
}
