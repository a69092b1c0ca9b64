use vstd::prelude::*;

verus! {

/// The position of a pipeline in the pipeline cache; `usize::MAX` stands for no pipeline.
#[derive(Copy, Clone, PartialEq, Eq, Structural, PartialOrd, Ord, Hash, Debug)]
pub struct CachedPipelineId(pub usize);

impl CachedPipelineId {
    pub fn new(id: usize) -> (r: Self)
        ensures
            r.0 == id,
    {
        CachedPipelineId(id)
    }

    pub fn is_valid(&self) -> (r: bool)
        ensures
            r == (self.0 != usize::MAX),
    {
        self.0 != usize::MAX
    }
}

impl Default for CachedPipelineId {
    fn default() -> (r: Self)
        ensures
            r.0 == usize::MAX,
    {
        CachedPipelineId(usize::MAX)
    }
}

/// The command that binds the render pipeline `id` in a render pass.
pub struct SetRenderPipelineParameter {
    pub id: CachedPipelineId,
}

/// What a command encoder is created from.
pub struct CommandEncoderDescriptor {
    pub label: Option<String>,
}

impl Default for CommandEncoderDescriptor {
    fn default() -> (r: Self)
        ensures
            r.label is None,
    {
        CommandEncoderDescriptor { label: None }
    }
}

pub struct RenderPassColorAttachmentDescriptor {

}

pub struct RenderPassDepthStencilAttachmentDescriptor {

}

/// A render pass whose attachments are graph resources.
pub struct TransientRenderPassDescriptor {
    pub label: Option<String>,
    pub color_attachments: Option<RenderPassColorAttachmentDescriptor>,
    pub depth_stencil_attachment: Option<RenderPassDepthStencilAttachmentDescriptor>,
}

} // verus!
