use vstd::prelude::*;

use crate::graph::FrameGraph;
use crate::index::IndexHandle;
use crate::resource_node::{
    GraphRawResourceHandle, Handle, PassSlot, Ref, ResourceRead, ResourceWrite,
};
use crate::transient_resource::TransientResource;

verus! {

/// Collects what one pass reads and writes, and its recorded commands; `finish` commits them
/// as a new pass node of `graph`.
pub struct PassNodeBuilder<'a, P, R> {
    pub graph: &'a mut FrameGraph<P, R>,
    pub name: String,
    pub writes: Vec<GraphRawResourceHandle>,
    pub reads: Vec<GraphRawResourceHandle>,
    pub pass: Option<P>,
}

impl<'a, P, R> PassNodeBuilder<'a, P, R> {
    /// The graph is well formed and every recorded read and write names one of its resources.
    pub open spec fn wf(&self) -> bool {
        &&& (*self.graph).wf()
        &&& forall|k: int| 0 <= k < self.reads@.len()
            ==> (#[trigger] self.reads@[k]).index.index < (*self.graph).resources().len()
        &&& forall|k: int| 0 <= k < self.writes@.len()
            ==> (#[trigger] self.writes@[k]).index.index < (*self.graph).resources().len()
    }

    /// The version of the resource at `index` in the graph being built.
    pub open spec fn current_version(&self, index: usize) -> u32 {
        (*self.graph).resources()[index as int].version
    }

    pub fn new(name: &str, graph: &'a mut FrameGraph<P, R>) -> (r: Self)
        requires
            old(graph).wf(),
        ensures
            r.wf(),
            *r.graph == *old(graph),
            *final(graph) == *final(r.graph),
            r.name@ == name@,
            r.writes@.len() == 0,
            r.reads@.len() == 0,
            r.pass is None,
    {
        PassNodeBuilder {
            graph,
            name: name.to_owned(),
            writes: Vec::new(),
            reads: Vec::new(),
            pass: None,
        }
    }

    /// Declares that the pass reads `resource_handle`. A handle whose version is no longer the
    /// resource's current one (a write was declared since it was made) is refused with `None`;
    /// otherwise the read is recorded once, however often it is declared.
    pub fn read<ResourceType: TransientResource>(
        &mut self,
        resource_handle: Handle<ResourceType>,
    ) -> (r: Option<Ref<ResourceType, ResourceRead>>)
        requires
            old(self).wf(),
            resource_handle.raw.index.index < (*old(self).graph).resources().len(),
        ensures
            final(self).wf(),
            *final(self).graph == *old(self).graph,
            *final(final(self).graph) == *final(old(self).graph),
            final(self).name == old(self).name,
            final(self).writes == old(self).writes,
            final(self).pass == old(self).pass,
            resource_handle.raw.version != old(self).current_version(resource_handle.raw.index.index) ==> {
                &&& r is None
                &&& final(self).reads == old(self).reads
            },
            resource_handle.raw.version
                == old(self).current_version(resource_handle.raw.index.index) ==> {
                &&& r matches Some(x) && x.raw == resource_handle.raw
                    && x.desc_view() == resource_handle.desc_view()
                &&& final(self).reads@ == if old(self).reads@.contains(resource_handle.raw) {
                    old(self).reads@
                } else {
                    old(self).reads@.push(resource_handle.raw)
                }
            },
    {
        let raw = resource_handle.raw;
        let current = self.graph.get_resource_node(&raw.index).version();
        if raw.version != current {
            return None;
        }
        let mut found = false;
        let mut k: usize = 0;
        while k < self.reads.len()
            invariant
                k <= self.reads@.len(),
                found == exists|j: int| 0 <= j < k && #[trigger] self.reads@[j] == raw,
            decreases self.reads@.len() - k,
        {
            if self.reads[k] == raw {
                found = true;
            }
            k = k + 1;
        }
        proof {
            if found {
                let j = choose|j: int| 0 <= j < k && #[trigger] self.reads@[j] == raw;
                assert(self.reads@.contains(raw));
            } else {
                assert(!self.reads@.contains(raw));
            }
        }
        if !found {
            self.reads.push(raw.clone());
        }
        Some(Ref::new(raw, resource_handle.desc))
    }

    /// Declares that the pass writes the resource of `resource_handle`: the resource gets a new
    /// version, and the write is recorded at that version.
    pub fn write<ResourceType: TransientResource>(
        &mut self,
        resource_handle: Handle<ResourceType>,
    ) -> (r: Ref<ResourceType, ResourceWrite>)
        requires
            old(self).wf(),
            resource_handle.raw.index.index < (*old(self).graph).resources().len(),
            old(self).current_version(resource_handle.raw.index.index) < u32::MAX,
        ensures
            final(self).wf(),
            *final(final(self).graph) == *final(old(self).graph),
            FrameGraph::version_bumped(
                *old(self).graph,
                *final(self).graph,
                resource_handle.raw.index.index as int,
            ),
            r.raw.index.index == resource_handle.raw.index.index,
            r.raw.version == old(self).current_version(resource_handle.raw.index.index) + 1,
            r.desc_view() == resource_handle.desc_view(),
            final(self).writes@ == old(self).writes@.push(r.raw),
            final(self).name == old(self).name,
            final(self).reads == old(self).reads,
            final(self).pass == old(self).pass,
    {
        let index = resource_handle.raw.index;
        let version = self.graph.new_version(index);
        let new_raw = GraphRawResourceHandle { index, version };
        self.writes.push(new_raw.clone());
        Ref::new(new_raw, resource_handle.desc)
    }

    /// Sets the commands the pass records.
    pub fn set_pass(&mut self, pass: P)
        ensures
            final(self).pass == Some(pass),
            final(self).graph == old(self).graph,
            final(self).name == old(self).name,
            final(self).reads == old(self).reads,
            final(self).writes == old(self).writes,
    {
        self.pass = Some(pass);
    }

    /// Commits the pass: appends a pass node with the recorded reads, writes and commands.
    pub fn finish(self) -> (r: IndexHandle<PassSlot>)
        requires
            self.wf(),
            (*self.graph).passes().len() < usize::MAX,
        ensures
            (*final(self.graph)).wf(),
            r.index == (*old(self.graph)).passes().len(),
            (*final(self.graph)).passes().len() == (*old(self.graph)).passes().len() + 1,
            (*final(self.graph)).passes().subrange(0, r.index as int)
                == (*old(self.graph)).passes(),
            (*final(self.graph)).passes()[r.index as int].index == r,
            (*final(self.graph)).passes()[r.index as int].name@ == self.name@,
            (*final(self.graph)).passes()[r.index as int].reads == self.reads,
            (*final(self.graph)).passes()[r.index as int].writes == self.writes,
            (*final(self.graph)).passes()[r.index as int].pass == self.pass,
            (*final(self.graph)).passes()[r.index as int].resource_request_array@.len() == 0,
            (*final(self.graph)).passes()[r.index as int].resource_release_array@.len() == 0,
            (*final(self.graph)).resources() == (*old(self.graph)).resources(),
            (*final(self.graph)).board() == (*old(self.graph)).board(),
            (*final(self.graph)).compiled() == (*old(self.graph)).compiled(),
    {
        let PassNodeBuilder { graph, name, writes, reads, pass } = self;
        graph.pass_node(name.as_str(), writes, reads, pass)
    }
}

impl<P, R> FrameGraph<P, R> {
    /// Starts declaring a pass named `name`.
    pub fn create_pass_builder<'a>(&'a mut self, name: &str) -> (r: PassNodeBuilder<'a, P, R>)
        requires
            old(self).wf(),
        ensures
            r.wf(),
            *r.graph == *old(self),
            *final(self) == *final(r.graph),
            r.name@ == name@,
            r.writes@.len() == 0,
            r.reads@.len() == 0,
            r.pass is None,
    {
        PassNodeBuilder::new(name, self)
    }
}

} // verus!
