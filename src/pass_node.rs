use vstd::prelude::*;

use crate::index::IndexHandle;
use crate::resource_node::{GraphRawResourceHandle, PassSlot, ResourceSlot};

verus! {

/// One declared pass: what it reads and writes, and, once lifetimes are computed, which
/// resources must be made available before it runs and given back after it.
pub struct PassNode<P> {
    pub name: String,
    pub index: IndexHandle<PassSlot>,
    pub writes: Vec<GraphRawResourceHandle>,
    pub reads: Vec<GraphRawResourceHandle>,
    pub resource_request_array: Vec<IndexHandle<ResourceSlot>>,
    pub resource_release_array: Vec<IndexHandle<ResourceSlot>>,
    pub pass: Option<P>,
}

impl<P> PassNode<P> {
    pub fn new(name: &str, index: IndexHandle<PassSlot>) -> (r: Self)
        ensures
            r.name@ == name@,
            r.index == index,
            r.writes@.len() == 0,
            r.reads@.len() == 0,
            r.resource_request_array@.len() == 0,
            r.resource_release_array@.len() == 0,
            r.pass is None,
    {
        PassNode {
            name: name.to_owned(),
            index,
            writes: Vec::new(),
            reads: Vec::new(),
            resource_request_array: Vec::new(),
            resource_release_array: Vec::new(),
            pass: None,
        }
    }

    /// Whether the pass reads or writes the resource at index `r`.
    pub open spec fn touches(&self, r: int) -> bool {
        ||| exists|i: int| 0 <= i < self.reads@.len() && #[trigger] self.reads@[i].index.index == r
        ||| exists|i: int|
            0 <= i < self.writes@.len() && #[trigger] self.writes@[i].index.index == r
    }
}

} // verus!
