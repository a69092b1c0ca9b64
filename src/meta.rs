use vstd::prelude::*;

use crate::graph::FrameGraph;
use crate::resource_node::Handle;
use crate::transient_resource::{
    AnyDescriptorView, TransientBuffer, TransientBufferDescriptor,
};

verus! {

/// A buffer that passes share by name within a frame.
pub struct BufferMeta {
    pub key: String,
    pub desc: TransientBufferDescriptor,
}

impl BufferMeta {
    /// The buffer declared under `key` in this frame, declared from `desc` on first use.
    pub fn imported<P, R>(&self, frame_graph: &mut FrameGraph<P, R>) -> (h: Handle<TransientBuffer>)
        requires
            old(frame_graph).wf(),
            old(frame_graph).resources().len() < usize::MAX,
            old(frame_graph).name_has_kind::<TransientBuffer>(self.key@),
        ensures
            final(frame_graph).wf(),
            FrameGraph::got_or_created(
                *old(frame_graph),
                *final(frame_graph),
                self.key@,
                AnyDescriptorView::Buffer(self.desc),
                h,
            ),
    {
        frame_graph.get_or_create(self.key.as_str(), self.desc.clone())
    }
}

} // verus!
