use vstd::prelude::*;

use crate::index::IndexHandle;
use crate::transient_resource::{AnyDescriptorView, AnyTransientResourceDescriptor,
    TransientResource};

verus! {

/// The tag of indices into the arena of declared resources.
#[derive(Debug)]
pub struct ResourceSlot;

/// The tag of indices into the arena of declared passes.
#[derive(Debug)]
pub struct PassSlot;

/// A resource index together with the version of the resource it denotes.
#[derive(Debug)]
pub struct GraphRawResourceHandle {
    pub index: IndexHandle<ResourceSlot>,
    pub version: u32,
}

impl Clone for GraphRawResourceHandle {
    fn clone(&self) -> (r: Self)
        ensures
            r == *self,
    {
        GraphRawResourceHandle { index: self.index, version: self.version }
    }
}

impl PartialEq for GraphRawResourceHandle {
    fn eq(&self, other: &Self) -> (r: bool)
        ensures
            r == (self.index.index == other.index.index && self.version == other.version),
    {
        self.index.index == other.index.index && self.version == other.version
    }
}

impl vstd::std_specs::cmp::PartialEqSpecImpl for GraphRawResourceHandle {
    open spec fn obeys_eq_spec() -> bool {
        true
    }

    open spec fn eq_spec(&self, other: &Self) -> bool {
        self.index.index == other.index.index && self.version == other.version
    }
}

impl Eq for GraphRawResourceHandle {

}

/// Marks a reference through which a pass reads.
pub trait ResourceView {

}

pub struct ResourceRead;

pub struct ResourceWrite;

impl ResourceView for ResourceRead {

}

impl ResourceView for ResourceWrite {

}

/// The caller-held identity of a declared resource: where it is, the version it saw, and
/// its descriptor.
pub struct Handle<ResourceType: TransientResource> {
    pub raw: GraphRawResourceHandle,
    pub desc: ResourceType::Descriptor,
    pub marker: core::marker::PhantomData<ResourceType>,
}

impl<ResourceType: TransientResource> Handle<ResourceType> {
    pub fn new(
        index: IndexHandle<ResourceSlot>,
        version: u32,
        desc: ResourceType::Descriptor,
    ) -> (r: Self)
        ensures
            r.raw.index.index == index.index,
            r.raw.version == version,
            r.desc == desc,
    {
        Handle {
            raw: GraphRawResourceHandle { index, version },
            desc,
            marker: core::marker::PhantomData,
        }
    }

    /// The descriptor this handle carries, as a descriptor of any kind.
    pub open spec fn desc_view(&self) -> AnyDescriptorView {
        ResourceType::wrap_desc(self.desc)
    }
}

impl<ResourceType: TransientResource> Clone for Handle<ResourceType> {
    fn clone(&self) -> (r: Self)
        ensures
            r.raw == self.raw,
            r.desc_view() == self.desc_view(),
    {
        Handle {
            raw: self.raw.clone(),
            desc: ResourceType::duplicate_desc(&self.desc),
            marker: core::marker::PhantomData,
        }
    }
}

/// A reference to a resource that a pass declared it reads (`ResourceRead`) or writes
/// (`ResourceWrite`); resolving it is only allowed inside that pass.
pub struct Ref<ResourceType: TransientResource, ViewType> {
    pub raw: GraphRawResourceHandle,
    pub desc: ResourceType::Descriptor,
    pub marker: core::marker::PhantomData<(ResourceType, ViewType)>,
}

impl<ResourceType: TransientResource, ViewType> Ref<ResourceType, ViewType> {
    pub fn new(raw: GraphRawResourceHandle, desc: ResourceType::Descriptor) -> (r: Self)
        ensures
            r.raw == raw,
            r.desc == desc,
    {
        Ref { raw, desc, marker: core::marker::PhantomData }
    }

    pub open spec fn desc_view(&self) -> AnyDescriptorView {
        ResourceType::wrap_desc(self.desc)
    }
}

impl<ResourceType: TransientResource, ViewType> Clone for Ref<ResourceType, ViewType> {
    fn clone(&self) -> (r: Self)
        ensures
            r.raw == self.raw,
            r.desc_view() == self.desc_view(),
    {
        Ref {
            raw: self.raw.clone(),
            desc: ResourceType::duplicate_desc(&self.desc),
            marker: core::marker::PhantomData,
        }
    }
}

/// What a declared resource is backed by: a resource handed in from outside, which the
/// graph never creates or frees, or a descriptor from which the graph materializes one.
pub enum VirtualResource<R> {
    Setuped(AnyTransientResourceDescriptor),
    Imported { resource: R, desc: AnyTransientResourceDescriptor },
}

impl<R> VirtualResource<R> {
    pub open spec fn desc_view(&self) -> AnyDescriptorView {
        match self {
            VirtualResource::Setuped(d) => d@,
            VirtualResource::Imported { desc, .. } => desc@,
        }
    }

    pub fn get_desc(&self) -> (r: AnyTransientResourceDescriptor)
        ensures
            r@ == self.desc_view(),
    {
        match self {
            VirtualResource::Setuped(d) => d.clone(),
            VirtualResource::Imported { desc, .. } => desc.clone(),
        }
    }
}

impl<R: Clone> VirtualResource<R> {
    /// `b` is a copy of `a`: the same descriptor, and a clone of an imported resource.
    pub open spec fn copied(a: Self, b: Self) -> bool {
        match (a, b) {
            (VirtualResource::Setuped(x), VirtualResource::Setuped(y)) => x@ == y@,
            (
                VirtualResource::Imported { resource: r, desc: x },
                VirtualResource::Imported { resource: s, desc: y },
            ) => x@ == y@ && cloned(r, s),
            _ => false,
        }
    }

    pub fn duplicate(&self) -> (r: Self)
        ensures
            Self::copied(*self, r),
    {
        match self {
            VirtualResource::Setuped(d) => VirtualResource::Setuped(d.clone()),
            VirtualResource::Imported { resource, desc } => VirtualResource::Imported {
                resource: resource.clone(),
                desc: desc.clone(),
            },
        }
    }
}

/// One declared resource of the current frame.
pub struct ResourceNode<R> {
    pub index: IndexHandle<ResourceSlot>,
    pub name: String,
    pub first_use_pass: Option<IndexHandle<PassSlot>>,
    pub last_user_pass: Option<IndexHandle<PassSlot>>,
    pub version: u32,
    pub resource: VirtualResource<R>,
}

/// Asks for the resource at `index` to be made available, backed as `resource` says.
pub struct ResourceRequese<R> {
    pub index: IndexHandle<ResourceSlot>,
    pub resource: VirtualResource<R>,
}

/// Asks for the resource at `index` to be given back.
pub struct ResourceRelease {
    pub index: IndexHandle<ResourceSlot>,
}

impl<R> ResourceNode<R> {
    pub fn new(
        name: &str,
        index: IndexHandle<ResourceSlot>,
        resource: VirtualResource<R>,
    ) -> (r: Self)
        ensures
            r.name@ == name@,
            r.index == index,
            r.version == 0,
            r.first_use_pass is None,
            r.last_user_pass is None,
            r.resource == resource,
    {
        ResourceNode {
            name: name.to_owned(),
            index,
            version: 0,
            first_use_pass: None,
            last_user_pass: None,
            resource,
        }
    }

    pub fn release(&self) -> (r: ResourceRelease)
        ensures
            r.index == self.index,
    {
        ResourceRelease { index: self.index }
    }

    pub fn version(&self) -> (r: u32)
        ensures
            r == self.version,
    {
        self.version
    }

    pub fn new_version(&mut self)
        requires
            old(self).version < u32::MAX,
        ensures
            *final(self) == (ResourceNode { version: (old(self).version + 1) as u32,
                ..*old(self) }),
    {
        self.version = self.version + 1;
    }

    /// Records that the pass `handle` uses this resource: the first use is set once, the last
    /// use every time.
    pub fn update_lifetime(&mut self, handle: IndexHandle<PassSlot>)
        ensures
            *final(self) == (ResourceNode {
                first_use_pass: if old(self).first_use_pass is None {
                    Some(handle)
                } else {
                    old(self).first_use_pass
                },
                last_user_pass: Some(handle),
                ..*old(self)
            }),
    {
        if self.first_use_pass.is_none() {
            self.first_use_pass = Some(handle);
        }
        self.last_user_pass = Some(handle);
    }

    /// A handle of the kind `ResourceType` on this resource at its current version, if the
    /// resource is of that kind.
    pub fn get_handle<ResourceType: TransientResource>(&self) -> (r: Option<Handle<ResourceType>>)
        ensures
            r matches Some(h) ==> {
                &&& h.raw.index.index == self.index.index
                &&& h.raw.version == self.version
                &&& h.desc_view() == self.resource.desc_view()
            },
            r is None ==> forall|d: ResourceType::Descriptor| #[trigger] ResourceType::wrap_desc(d)
                != self.resource.desc_view(),
    {
        let any = self.resource.get_desc();
        match ResourceType::borrow_resource_descriptor(&any) {
            Some(desc) => Some(Handle::new(self.index, self.version, desc)),
            None => None,
        }
    }
}

impl<R: Clone> ResourceNode<R> {
    pub fn request(&self) -> (r: ResourceRequese<R>)
        ensures
            r.index == self.index,
            VirtualResource::copied(self.resource, r.resource),
    {
        ResourceRequese { index: self.index, resource: self.resource.duplicate() }
    }
}

} // verus!
