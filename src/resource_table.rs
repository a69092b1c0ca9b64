use vstd::prelude::*;

use std::collections::HashMap;

use crate::resource_node::{Ref, ResourceRelease, ResourceRequese, VirtualResource};
use crate::transient_resource::{AnyDescriptorView, AnyTransientResourceDescriptor,
    TransientResource};

verus! {

broadcast use vstd::std_specs::hash::group_hash_axioms;

/// Creates concrete resources from descriptors: the device the graph runs against.
pub trait TransientResourceCreator<R> {
    fn create_resource(&self, desc: &AnyTransientResourceDescriptor) -> R;
}

/// A concrete resource installed for the current execution: one the graph owns (created
/// or taken from the pool, for the descriptor it was asked for), or one handed in from outside.
pub enum AnyTransientResource<R> {
    Owned { resource: R, desc: AnyTransientResourceDescriptor },
    Imported(R),
}

impl<R> AnyTransientResource<R> {
    pub open spec fn resource_spec(self) -> R {
        match self {
            AnyTransientResource::Owned { resource, .. } => resource,
            AnyTransientResource::Imported(resource) => resource,
        }
    }

    pub fn resource(&self) -> (r: &R)
        ensures
            *r == self.resource_spec(),
    {
        match self {
            AnyTransientResource::Owned { resource, .. } => resource,
            AnyTransientResource::Imported(resource) => resource,
        }
    }
}

/// The position of the most recently pooled entry whose descriptor has the key of `desc`.
pub open spec fn last_match<R>(entries: Seq<(AnyDescriptorView, R)>,
    desc: AnyDescriptorView) -> Option<int>
    decreases entries.len(),
{
    if entries.len() == 0 {
        None
    } else if entries.last().0.same_key(desc) {
        Some(entries.len() - 1)
    } else {
        last_match(entries.drop_last(), desc)
    }
}

proof fn lemma_last_match<R>(entries: Seq<(AnyDescriptorView, R)>,
    desc: AnyDescriptorView, i: int)
    requires
        0 <= i <= entries.len(),
        forall|j: int| i <= j < entries.len() ==> !(#[trigger] entries[j]).0.same_key(desc),
    ensures
        last_match(entries, desc) == last_match(entries.subrange(0, i), desc),
    decreases entries.len() - i,
{
    if i < entries.len() {
        let shorter = entries.drop_last();
        assert(entries.last() == entries[entries.len() - 1]);
        assert forall|j: int| i <= j < shorter.len()
            implies !(#[trigger] shorter[j]).0.same_key(desc) by {
            assert(shorter[j] == entries[j]);
        }
        lemma_last_match(shorter, desc, i);
        assert(shorter.subrange(0, i) =~= entries.subrange(0, i));
    } else {
        assert(entries.subrange(0, i) =~= entries);
    }
}

/// A resource released into the pool under `desc` is the one the next request with the same
/// key gets back, and taking it leaves the pool as it was before the release.
pub proof fn lemma_pool_round_trip<R>(
    pooled: Seq<(AnyDescriptorView, R)>,
    desc: AnyDescriptorView,
    resource: R,
    requested: AnyDescriptorView,
)
    requires
        desc.same_key(requested),
    ensures
        last_match(pooled.push((desc, resource)), requested) == Some(pooled.len() as int),
        pooled.push((desc, resource))[pooled.len() as int].1 == resource,
        pooled.push((desc, resource)).remove(pooled.len() as int) == pooled,
{
    assert(pooled.push((desc, resource)).remove(pooled.len() as int) =~= pooled);
}

/// A pool of concrete resources released by earlier executions, kept across frames and
/// handed out again to requests whose descriptor has the same key.
pub struct TransientResourceCache<R> {
    resources: Vec<(AnyTransientResourceDescriptor, R)>,
}

/// A pooled entry as a value: its descriptor seen as a value, and the resource.
pub open spec fn pooled_view<R>(entry: (AnyTransientResourceDescriptor, R)) -> (AnyDescriptorView, R) {
    (entry.0@, entry.1)
}

impl<R> View for TransientResourceCache<R> {
    type V = Seq<(AnyDescriptorView, R)>;

    closed spec fn view(&self) -> Seq<(AnyDescriptorView, R)> {
        self.resources@.map_values(|e: (AnyTransientResourceDescriptor, R)| pooled_view(e))
    }
}

impl<R> TransientResourceCache<R> {
    pub fn new() -> (r: Self)
        ensures
            r@.len() == 0,
    {
        TransientResourceCache { resources: Vec::new() }
    }

    pub fn len(&self) -> (r: usize)
        ensures
            r == self@.len(),
    {
        self.resources.len()
    }

    /// Takes out the most recently pooled resource whose descriptor has the key of `desc`.
    pub fn get_resource(&mut self, desc: &AnyTransientResourceDescriptor) -> (r: Option<R>)
        ensures
            match last_match(old(self)@, desc@) {
                Some(i) => r == Some(old(self)@[i].1) && final(self)@ == old(self)@.remove(i),
                None => r is None && final(self)@ == old(self)@,
            },
    {
        let mut i: usize = self.resources.len();
        while i > 0
            invariant
                self@ == old(self)@,
                self.resources@.len() == self@.len(),
                i <= self.resources@.len(),
                forall|j: int| i <= j < self@.len() ==> !(#[trigger] self@[j]).0.same_key(desc@),
            decreases i,
        {
            if self.resources[i - 1].0.key_eq(desc) {
                let ghost before = self@;
                proof {
                    lemma_last_match(self@, desc@, i as int);
                    let pre = self@.subrange(0, i as int);
                    assert(pre.last() == self@[i - 1]);
                }
                let (_, resource) = self.resources.remove(i - 1);
                proof {
                    assert(self@ =~= before.remove(i - 1));
                }
                return Some(resource);
            }
            i = i - 1;
        }
        proof {
            lemma_last_match(self@, desc@, 0);
        }
        None
    }

    /// Pools `resource` under `desc`.
    pub fn insert_resource(&mut self, desc: AnyTransientResourceDescriptor, resource: R)
        ensures
            final(self)@ == old(self)@.push((desc@, resource)),
    {
        self.resources.push((desc, resource));
        proof {
            assert(self@ =~= old(self)@.push((desc@, resource)));
        }
    }
}

impl<R> Default for TransientResourceCache<R> {
    fn default() -> (r: Self)
        ensures
            r@.len() == 0,
    {
        TransientResourceCache::new()
    }
}

/// What the model of an execution keeps of a table entry: an owned resource with the
/// descriptor it was requested with, or the mark of an imported one.
pub enum EntryView<R> {
    Owned(R, AnyDescriptorView),
    Imported,
}

impl<R> AnyTransientResource<R> {
    pub open spec fn entry_view(self) -> EntryView<R> {
        match self {
            AnyTransientResource::Owned { resource, desc } => EntryView::Owned(resource, desc@),
            AnyTransientResource::Imported(_) => EntryView::Imported,
        }
    }
}

/// The pool and the table after `request` is served; `created` is what the device returns
/// when the pool holds nothing with the requested key.
pub open spec fn request_step<R>(
    pool: Seq<(AnyDescriptorView, R)>,
    table: Map<usize, EntryView<R>>,
    request: ResourceRequese<R>,
    created: R,
) -> (Seq<(AnyDescriptorView, R)>, Map<usize, EntryView<R>>) {
    let i = request.index.index;
    match request.resource {
        VirtualResource::Imported { .. } => (pool, table.insert(i, EntryView::Imported)),
        VirtualResource::Setuped(desc) => match last_match(pool, desc@) {
            Some(k) => (pool.remove(k), table.insert(i, EntryView::Owned(pool[k].1, desc@))),
            None => (pool, table.insert(i, EntryView::Owned(created, desc@))),
        },
    }
}

/// The pool and the table after the resource at `index` is given back: an owned one goes back
/// to the pool, an imported one only leaves the table.
pub open spec fn release_step<R>(
    pool: Seq<(AnyDescriptorView, R)>,
    table: Map<usize, EntryView<R>>,
    index: usize,
) -> (Seq<(AnyDescriptorView, R)>, Map<usize, EntryView<R>>) {
    if table.contains_key(index) && table[index] is Owned {
        (pool.push((table[index]->Owned_1, table[index]->Owned_0)), table.remove(index))
    } else {
        (pool, table.remove(index))
    }
}

/// Which concrete resource backs each resource index during one execution.
pub struct ResourceTable<R> {
    resources: HashMap<usize, AnyTransientResource<R>>,
}

impl<R> View for ResourceTable<R> {
    type V = Map<usize, AnyTransientResource<R>>;

    closed spec fn view(&self) -> Map<usize, AnyTransientResource<R>> {
        self.resources@
    }
}

impl<R> ResourceTable<R> {
    /// The table as the model of an execution sees it.
    pub open spec fn entries(&self) -> Map<usize, EntryView<R>> {
        self@.map_values(|e: AnyTransientResource<R>| e.entry_view())
    }

    pub fn new() -> (r: Self)
        ensures
            r@ == Map::<usize, AnyTransientResource<R>>::empty(),
            r.entries() == Map::<usize, EntryView<R>>::empty(),
    {
        let r = ResourceTable { resources: HashMap::new() };
        proof {
            assert(r.entries() =~= Map::<usize, EntryView<R>>::empty());
        }
        r
    }

    /// The concrete resource installed for the resource index `index`, if any.
    pub fn get(&self, index: usize) -> (r: Option<&R>)
        ensures
            r matches Some(x) ==> self@.contains_key(index) && *x == self@[index].resource_spec(),
            r is None ==> !self@.contains_key(index),
    {
        match self.resources.get(&index) {
            Some(entry) => Some(entry.resource()),
            None => None,
        }
    }

    /// The concrete resource behind `resource_ref`, which must be installed.
    pub fn get_resource<ResourceType: TransientResource, ViewType>(
        &self,
        resource_ref: &Ref<ResourceType, ViewType>,
    ) -> (r: &R)
        requires
            self@.contains_key(resource_ref.raw.index.index),
        ensures
            *r == self@[resource_ref.raw.index.index].resource_spec(),
    {
        match self.resources.get(&resource_ref.raw.index.index) {
            Some(entry) => entry.resource(),
            None => vstd::pervasive::unreached(),
        }
    }

    /// Installs a concrete resource for `request`: an imported one as it is; else one from the
    /// pool with the same descriptor key, or, when the pool has none, a new one from `device`.
    pub fn request_resource<D: TransientResourceCreator<R>>(
        &mut self,
        request: &ResourceRequese<R>,
        device: &D,
        transient_resource_cache: &mut TransientResourceCache<R>,
    ) where R: Clone
        ensures
            final(self)@.dom() == old(self)@.dom().insert(request.index.index),
            forall|k: usize| k != request.index.index && old(self)@.contains_key(k)
                ==> #[trigger] final(self)@[k] == old(self)@[k],
            request.resource is Imported ==> final(self)@[request.index.index] is Imported,
            request.resource is Imported ==> cloned(
                request.resource->resource,
                final(self)@[request.index.index]->Imported_0,
            ),
            exists|created: R|
                (final(transient_resource_cache)@, final(self).entries()) == request_step(
                    old(transient_resource_cache)@,
                    old(self).entries(),
                    *request,
                    created,
                ),
    {
        let index = request.index.index;
        let ghost pool = transient_resource_cache@;
        let ghost entries = self.entries();
        let resource = match &request.resource {
            VirtualResource::Imported { resource, .. } => AnyTransientResource::Imported(
                resource.clone(),
            ),
            VirtualResource::Setuped(desc) => {
                let pooled = transient_resource_cache.get_resource(desc);
                let resource = match pooled {
                    Some(r) => r,
                    None => device.create_resource(desc),
                };
                AnyTransientResource::Owned { resource, desc: desc.clone() }
            },
        };
        let ghost installed = resource;
        self.resources.insert(index, resource);
        proof {
            assert(self.entries() =~= entries.insert(index, installed.entry_view()));
            let witness = installed.resource_spec();
            assert((transient_resource_cache@, self.entries()) == request_step(
                pool,
                entries,
                *request,
                witness,
            ));
        }
    }

    /// Takes the resource at `release.index` out of the table; an owned one goes back to the
    /// pool under the descriptor it was requested with, an imported one is only dropped.
    pub fn release_resource(
        &mut self,
        release: &ResourceRelease,
        transient_resource_cache: &mut TransientResourceCache<R>,
    )
        ensures
            final(self)@ == old(self)@.remove(release.index.index),
            (final(transient_resource_cache)@, final(self).entries()) == release_step(
                old(transient_resource_cache)@,
                old(self).entries(),
                release.index.index,
            ),
    {
        let ghost entries = self.entries();
        let removed = self.resources.remove(&release.index.index);
        proof {
            assert(self.entries() =~= entries.remove(release.index.index));
        }
        match removed {
            Some(AnyTransientResource::Owned { resource, desc }) => {
                transient_resource_cache.insert_resource(desc, resource);
            },
            _ => {},
        }
    }
}

impl<R> Default for ResourceTable<R> {
    fn default() -> (r: Self)
        ensures
            r@ == Map::<usize, AnyTransientResource<R>>::empty(),
    {
        ResourceTable::new()
    }
}

} // verus!
