//! A frame graph: passes declare which virtual resources they read and write, the graph
//! computes each resource's lifetime, builds an ordered plan, and runs it against a device
//! while pooling released resources across frames.

mod gpu;
mod graph;
mod handle;
mod index;
mod meta;
mod pass_node;
mod pass_node_builder;
mod pipeline_cache;
mod resource_board;
mod resource_node;
mod resource_table;
mod transient_resource;

pub use graph::{
    is_device_pass_of, is_fresh_node, is_handle_of, is_released_at, is_requested_at,
    lemma_create_distinct, lemma_get_or_create_dedup, lemma_lifetime_interval,
    lemma_reset_starts_clean, lemma_run_plan_skips_unrequested, lemma_untouched_never_requested, lemma_versions_increase,
    lifetime_after, release_all, released_at, request_all, requested_at, run_device_pass, run_plan,
    touched_node, CompiledFrameGraph, DevicePass, ExecutionState, FrameGraph, PassRunner,
};
pub use handle::TypeHandle;
pub use index::IndexHandle;
pub use meta::BufferMeta;
pub use pass_node::PassNode;
pub use pass_node_builder::PassNodeBuilder;
pub use pipeline_cache::{
    CachedPipelineId, CommandEncoderDescriptor, RenderPassColorAttachmentDescriptor,
    RenderPassDepthStencilAttachmentDescriptor, SetRenderPipelineParameter,
    TransientRenderPassDescriptor,
};
pub use resource_board::{board_map, ResourceBoard};
pub use resource_node::{
    GraphRawResourceHandle, Handle, PassSlot, Ref, ResourceNode, ResourceRead, ResourceRelease,
    ResourceRequese, ResourceSlot, ResourceView, ResourceWrite, VirtualResource,
};
pub use resource_table::{
    last_match, lemma_pool_round_trip, pooled_view, release_step, request_step,
    AnyTransientResource, EntryView, ResourceTable,
    TransientResourceCache, TransientResourceCreator,
};
pub use transient_resource::{
    copy_formats, copy_label, formats_eq, padded_size, AnyDescriptorView,
    AnyTransientResourceDescriptor, ArcTransientResource, BufferInitDescriptor, TextureInfo,
    TextureInfoView, TransientBuffer, TransientBufferDescriptor, TransientResource,
    TransientResourceDescriptor, TransientTexture, TypeEquals,
};
