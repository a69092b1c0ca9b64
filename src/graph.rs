use vstd::prelude::*;

use std::sync::Arc;

use crate::index::IndexHandle;
use crate::pass_node::PassNode;
use crate::resource_board::ResourceBoard;
use crate::resource_node::{
    GraphRawResourceHandle, Handle, PassSlot, ResourceNode, ResourceRelease, ResourceRequese,
    ResourceSlot, VirtualResource,
};
use crate::resource_table::{
    release_step, request_step, EntryView, ResourceTable, TransientResourceCache,
    TransientResourceCreator,
};
use crate::transient_resource::{
    AnyDescriptorView, ArcTransientResource, TransientBuffer, TransientResource,
    TransientResourceDescriptor, TransientTexture,
};

verus! {

/// `node` is the node a declaration just appended at position `index`.
pub open spec fn is_fresh_node<R>(
    node: ResourceNode<R>,
    name: Seq<char>,
    index: int,
    desc: AnyDescriptorView,
) -> bool {
    &&& node.name@ == name
    &&& node.index.index == index
    &&& node.version == 0
    &&& node.first_use_pass is None
    &&& node.last_user_pass is None
    &&& node.resource.desc_view() == desc
}

/// The handle that `node` gives out: its position, its current version, its descriptor.
pub open spec fn is_handle_of<R, ResourceType: TransientResource>(
    h: Handle<ResourceType>,
    node: ResourceNode<R>,
) -> bool {
    &&& h.raw.index.index == node.index.index
    &&& h.raw.version == node.version
    &&& h.desc_view() == node.resource.desc_view()
}

/// `node` after the pass `h` read or wrote it: the first use is set once, the last use always.
pub open spec fn touched_node<R>(node: ResourceNode<R>, h: IndexHandle<PassSlot>)
    -> ResourceNode<R> {
    ResourceNode {
        first_use_pass: if node.first_use_pass is None {
            Some(h)
        } else {
            node.first_use_pass
        },
        last_user_pass: Some(h),
        ..node
    }
}

/// `node` after the lifetime scan has gone over the first `k` passes, in declaration order.
pub open spec fn lifetime_after<P, R>(node: ResourceNode<R>, passes: Seq<PassNode<P>>, k: int)
    -> ResourceNode<R>
    decreases k,
{
    if k <= 0 {
        node
    } else {
        let prev = lifetime_after(node, passes, k - 1);
        if passes[k - 1].touches(node.index.index as int) {
            touched_node(prev, passes[k - 1].index)
        } else {
            prev
        }
    }
}

/// Whether `node` has both ends of its lifetime, and the first is the pass at `p`.
pub open spec fn is_requested_at<R>(node: ResourceNode<R>, p: int) -> bool {
    &&& node.first_use_pass is Some
    &&& node.last_user_pass is Some
    &&& node.first_use_pass->0.index == p
}

/// Whether `node` has both ends of its lifetime, and the last is the pass at `p`.
pub open spec fn is_released_at<R>(node: ResourceNode<R>, p: int) -> bool {
    &&& node.first_use_pass is Some
    &&& node.last_user_pass is Some
    &&& node.last_user_pass->0.index == p
}

/// The indices, in arena order, of the first `n` nodes whose lifetime starts at the pass `p`.
pub open spec fn requested_at<R>(nodes: Seq<ResourceNode<R>>, p: int, n: int)
    -> Seq<IndexHandle<ResourceSlot>>
    decreases n,
{
    if n <= 0 {
        Seq::empty()
    } else if is_requested_at(nodes[n - 1], p) {
        requested_at(nodes, p, n - 1).push(nodes[n - 1].index)
    } else {
        requested_at(nodes, p, n - 1)
    }
}

/// The indices, in arena order, of the first `n` nodes whose lifetime ends at the pass `p`.
pub open spec fn released_at<R>(nodes: Seq<ResourceNode<R>>, p: int, n: int)
    -> Seq<IndexHandle<ResourceSlot>>
    decreases n,
{
    if n <= 0 {
        Seq::empty()
    } else if is_released_at(nodes[n - 1], p) {
        released_at(nodes, p, n - 1).push(nodes[n - 1].index)
    } else {
        released_at(nodes, p, n - 1)
    }
}

/// The scan changes only the two lifetime fields, and keeps them inside the pass arena.
proof fn lemma_lifetime_after<P, R>(node: ResourceNode<R>, passes: Seq<PassNode<P>>, k: int)
    requires
        0 <= k <= passes.len(),
        forall|p: int| 0 <= p < passes.len() ==> (#[trigger] passes[p]).index.index == p,
        node.first_use_pass matches Some(f) ==> f.index < passes.len(),
        node.last_user_pass matches Some(l) ==> l.index < passes.len(),
    ensures
        lifetime_after(node, passes, k) == (ResourceNode {
            first_use_pass: lifetime_after(node, passes, k).first_use_pass,
            last_user_pass: lifetime_after(node, passes, k).last_user_pass,
            ..node
        }),
        lifetime_after(node, passes, k).first_use_pass matches Some(f) ==> f.index < passes.len(),
        lifetime_after(node, passes, k).last_user_pass matches Some(l) ==> l.index < passes.len(),
    decreases k,
{
    if k > 0 {
        lemma_lifetime_after(node, passes, k - 1);
        assert(passes[k - 1].index.index == k - 1);
    }
}

/// Every index the request and release lists of a pass receive is the index of a node.
proof fn lemma_lists_bounded<R>(nodes: Seq<ResourceNode<R>>, p: int, n: int)
    requires
        0 <= n <= nodes.len(),
        forall|k: int| 0 <= k < nodes.len() ==> (#[trigger] nodes[k]).index.index == k,
    ensures
        forall|k: int| 0 <= k < requested_at(nodes, p, n).len()
            ==> (#[trigger] requested_at(nodes, p, n)[k]).index < n,
        forall|k: int| 0 <= k < released_at(nodes, p, n).len()
            ==> (#[trigger] released_at(nodes, p, n)[k]).index < n,
    decreases n,
{
    if n > 0 {
        lemma_lists_bounded(nodes, p, n - 1);
        assert(nodes[n - 1].index.index == n - 1);
    }
}

/// `dp` is the device pass built from the pass node `node` over the resource nodes `nodes`.
pub open spec fn is_device_pass_of<P, R: Clone>(
    dp: DevicePass<R>,
    node: PassNode<P>,
    nodes: Seq<ResourceNode<R>>,
) -> bool {
    &&& dp.index == node.index
    &&& dp.resource_request_array@.len() == node.resource_request_array@.len()
    &&& forall|k: int| 0 <= k < dp.resource_request_array@.len() ==> {
        &&& (#[trigger] dp.resource_request_array@[k]).index == node.resource_request_array@[k]
        &&& VirtualResource::copied(nodes[node.resource_request_array@[k].index as int].resource,
            dp.resource_request_array@[k].resource)
    }
    &&& dp.resource_release_array@.len() == node.resource_release_array@.len()
    &&& forall|k: int| 0 <= k < dp.resource_release_array@.len()
        ==> (#[trigger] dp.resource_release_array@[k]).index == node.resource_release_array@[k]
}

/// One pass of the compiled plan: the pass node whose commands run, the resources to make
/// available before, and the resources to give back after.
pub struct DevicePass<R> {
    pub index: IndexHandle<PassSlot>,
    pub resource_request_array: Vec<ResourceRequese<R>>,
    pub resource_release_array: Vec<ResourceRelease>,
}

/// Runs the recorded commands of a pass once its resources are in the table.
pub trait PassRunner<P, R> {
    fn run_pass(&mut self, pass: &P, resource_table: &ResourceTable<R>);
}

/// The pool of an execution and its table of installed resources.
pub type ExecutionState<R> = (Seq<(AnyDescriptorView, R)>, Map<usize, EntryView<R>>);

/// The state after the first `k` of `requests` are served in order; `created[j]` is what the
/// device returns for the `j`-th one if the pool has nothing for it.
pub open spec fn request_all<R>(
    state: ExecutionState<R>,
    requests: Seq<ResourceRequese<R>>,
    created: Seq<R>,
    k: int,
) -> ExecutionState<R>
    decreases k,
{
    if k <= 0 {
        state
    } else {
        let prev = request_all(state, requests, created, k - 1);
        request_step(prev.0, prev.1, requests[k - 1], created[k - 1])
    }
}

/// The state after the first `k` of `releases` are given back in order.
pub open spec fn release_all<R>(state: ExecutionState<R>, releases: Seq<ResourceRelease>, k: int)
    -> ExecutionState<R>
    decreases k,
{
    if k <= 0 {
        state
    } else {
        let prev = release_all(state, releases, k - 1);
        release_step(prev.0, prev.1, releases[k - 1].index.index)
    }
}

/// The state after one device pass: all its requests, then (its commands running, which
/// change neither) all its releases.
pub open spec fn run_device_pass<R>(state: ExecutionState<R>, dp: DevicePass<R>, created: Seq<R>)
    -> ExecutionState<R> {
    let requested = request_all(
        state,
        dp.resource_request_array@,
        created,
        dp.resource_request_array@.len() as int,
    );
    release_all(requested, dp.resource_release_array@, dp.resource_release_array@.len() as int)
}

/// The state after the first `n` device passes of a plan run in order; `created[p]` holds what
/// the device returned during the pass `p`.
pub open spec fn run_plan<R>(
    state: ExecutionState<R>,
    device_passes: Seq<DevicePass<R>>,
    created: Seq<Seq<R>>,
    n: int,
) -> ExecutionState<R>
    decreases n,
{
    if n <= 0 {
        state
    } else {
        run_device_pass(
            run_plan(state, device_passes, created, n - 1),
            device_passes[n - 1],
            created[n - 1],
        )
    }
}

proof fn lemma_request_all_prefix<R>(
    state: ExecutionState<R>,
    requests: Seq<ResourceRequese<R>>,
    created: Seq<R>,
    c: R,
    k: int,
)
    requires
        k <= created.len(),
    ensures
        request_all(state, requests, created.push(c), k) == request_all(state, requests, created, k),
    decreases k,
{
    if k > 0 {
        lemma_request_all_prefix(state, requests, created, c, k - 1);
        assert(created.push(c)[k - 1] == created[k - 1]);
    }
}

proof fn lemma_run_plan_prefix<R>(
    state: ExecutionState<R>,
    device_passes: Seq<DevicePass<R>>,
    created: Seq<Seq<R>>,
    c: Seq<R>,
    n: int,
)
    requires
        n <= created.len(),
    ensures
        run_plan(state, device_passes, created.push(c), n) == run_plan(state, device_passes, created, n),
    decreases n,
{
    if n > 0 {
        lemma_run_plan_prefix(state, device_passes, created, c, n - 1);
        assert(created.push(c)[n - 1] == created[n - 1]);
    }
}

/// The ordered plan that compiling a frame graph produces.
pub struct CompiledFrameGraph<R> {
    device_passes: Vec<DevicePass<R>>,
}

impl<R> CompiledFrameGraph<R> {
    pub closed spec fn device_passes(&self) -> Seq<DevicePass<R>> {
        self.device_passes@
    }

    pub fn len(&self) -> (r: usize)
        ensures
            r == self.device_passes().len(),
    {
        self.device_passes.len()
    }
}

impl<R: Clone> DevicePass<R> {
    /// Fills this device pass from the pass node at `index`.
    pub fn extra<P>(&mut self, frame_graph: &FrameGraph<P, R>, index: IndexHandle<PassSlot>)
        requires
            frame_graph.wf(),
            index.index < frame_graph.passes().len(),
        ensures
            is_device_pass_of(
                *final(self),
                frame_graph.passes()[index.index as int],
                frame_graph.resources(),
            ),
    {
        *self = frame_graph.device_pass(index);
    }
}

impl<R: Clone> CompiledFrameGraph<R> {
    /// Runs the plan: for each device pass in order, installs the resources it requests
    /// (imported, pooled or newly created by `device`), hands the commands of its pass node in
    /// `pass_nodes` to `runner`, and gives back the resources it releases. The pool ends as the
    /// model `run_plan` says, for what the device returned.
    pub fn execute<P, D: TransientResourceCreator<R>, X: PassRunner<P, R>>(
        &self,
        pass_nodes: &Vec<PassNode<P>>,
        device: &D,
        runner: &mut X,
        transient_resource_cache: &mut TransientResourceCache<R>,
    )
        ensures
            exists|created: Seq<Seq<R>>|
                final(transient_resource_cache)@ == run_plan(
                    (old(transient_resource_cache)@, Map::<usize, EntryView<R>>::empty()),
                    self.device_passes(),
                    created,
                    self.device_passes().len() as int,
                ).0,
    {
        let ghost start: ExecutionState<R> = (
            transient_resource_cache@,
            Map::<usize, EntryView<R>>::empty(),
        );
        let mut resource_table: ResourceTable<R> = ResourceTable::new();
        let ghost mut created: Seq<Seq<R>> = Seq::empty();
        let n = self.device_passes.len();
        let mut i: usize = 0;
        while i < n
            invariant
                n == self.device_passes@.len(),
                i <= n,
                created.len() == i,
                (transient_resource_cache@, resource_table.entries()) == run_plan(
                    start,
                    self.device_passes@,
                    created,
                    i as int,
                ),
            decreases n - i,
        {
            let device_pass = &self.device_passes[i];
            let ghost pass_start = (transient_resource_cache@, resource_table.entries());
            let ghost mut made: Seq<R> = Seq::empty();
            let n_requests = device_pass.resource_request_array.len();
            let mut k: usize = 0;
            while k < n_requests
                invariant
                    n_requests == device_pass.resource_request_array@.len(),
                    k <= n_requests,
                    made.len() == k,
                    (transient_resource_cache@, resource_table.entries()) == request_all(
                        pass_start,
                        device_pass.resource_request_array@,
                        made,
                        k as int,
                    ),
                decreases n_requests - k,
            {
                let ghost before = (transient_resource_cache@, resource_table.entries());
                resource_table.request_resource(
                    &device_pass.resource_request_array[k],
                    device,
                    transient_resource_cache,
                );
                proof {
                    let c = choose|c: R|
                        (transient_resource_cache@, resource_table.entries()) == request_step(
                            before.0,
                            before.1,
                            device_pass.resource_request_array@[k as int],
                            c,
                        );
                    lemma_request_all_prefix(
                        pass_start,
                        device_pass.resource_request_array@,
                        made,
                        c,
                        k as int,
                    );
                    made = made.push(c);
                }
                k = k + 1;
            }
            if device_pass.index.index < pass_nodes.len() {
                match &pass_nodes[device_pass.index.index].pass {
                    Some(pass) => runner.run_pass(pass, &resource_table),
                    None => {},
                }
            }
            let ghost requested = (transient_resource_cache@, resource_table.entries());
            let n_releases = device_pass.resource_release_array.len();
            let mut k: usize = 0;
            while k < n_releases
                invariant
                    n_releases == device_pass.resource_release_array@.len(),
                    k <= n_releases,
                    (transient_resource_cache@, resource_table.entries()) == release_all(
                        requested,
                        device_pass.resource_release_array@,
                        k as int,
                    ),
                decreases n_releases - k,
            {
                resource_table.release_resource(
                    &device_pass.resource_release_array[k],
                    transient_resource_cache,
                );
                k = k + 1;
            }
            proof {
                lemma_run_plan_prefix(start, self.device_passes@, created, made, i as int);
                created = created.push(made);
            }
            i = i + 1;
        }
        proof {
            assert(start == (old(transient_resource_cache)@, Map::<usize, EntryView<R>>::empty()));
            assert(transient_resource_cache@ == run_plan(
                (old(transient_resource_cache)@, Map::<usize, EntryView<R>>::empty()),
                self.device_passes(),
                created,
                self.device_passes().len() as int,
            ).0);
        }
    }
}

/// A frame being declared: resources, passes, the board of names, and the plan once compiled.
pub struct FrameGraph<P, R> {
    resource_nodes: Vec<ResourceNode<R>>,
    pass_nodes: Vec<PassNode<P>>,
    compiled_frame_graph: Option<CompiledFrameGraph<R>>,
    resource_board: ResourceBoard,
}

impl<P, R> FrameGraph<P, R> {
    pub closed spec fn resources(&self) -> Seq<ResourceNode<R>> {
        self.resource_nodes@
    }

    pub closed spec fn passes(&self) -> Seq<PassNode<P>> {
        self.pass_nodes@
    }

    pub closed spec fn board(&self) -> Map<Seq<char>, usize> {
        self.resource_board@
    }

    pub closed spec fn compiled(&self) -> Option<CompiledFrameGraph<R>> {
        self.compiled_frame_graph
    }

    /// Every index the graph holds points into the arena it belongs to, and every node sits at
    /// the position its own index names.
    pub closed spec fn wf(&self) -> bool {
        let res = self.resource_nodes@;
        let passes = self.pass_nodes@;
        &&& forall|i: int| 0 <= i < res.len() ==> {
            &&& (#[trigger] res[i]).index.index == i
            &&& (res[i].first_use_pass matches Some(p) ==> p.index < passes.len())
            &&& (res[i].last_user_pass matches Some(p) ==> p.index < passes.len())
        }
        &&& forall|p: int| 0 <= p < passes.len() ==> {
            &&& (#[trigger] passes[p]).index.index == p
            &&& forall|k: int| 0 <= k < passes[p].reads@.len()
                ==> (#[trigger] passes[p].reads@[k]).index.index < res.len()
            &&& forall|k: int| 0 <= k < passes[p].writes@.len()
                ==> (#[trigger] passes[p].writes@[k]).index.index < res.len()
            &&& forall|k: int| 0 <= k < passes[p].resource_request_array@.len()
                ==> (#[trigger] passes[p].resource_request_array@[k]).index < res.len()
            &&& forall|k: int| 0 <= k < passes[p].resource_release_array@.len()
                ==> (#[trigger] passes[p].resource_release_array@[k]).index < res.len()
        }
        &&& forall|name: Seq<char>| #[trigger] self.resource_board@.contains_key(name)
            ==> self.resource_board@[name] < res.len()
        &&& passes.len() == 0 ==> self.compiled_frame_graph is None
    }

    /// `new` is `old` after a write was declared on the resource at `i`: its version went up
    /// by one and nothing else changed.
    pub open spec fn version_bumped(old: Self, new: Self, i: int) -> bool {
        let before = old.resources()[i];
        &&& new.resources() == old.resources().update(
            i,
            ResourceNode { version: (before.version + 1) as u32, ..before },
        )
        &&& new.passes() == old.passes()
        &&& new.board() == old.board()
        &&& new.compiled() == old.compiled()
    }

    /// Nothing declared, nothing compiled.
    pub open spec fn is_empty(&self) -> bool {
        &&& self.resources().len() == 0
        &&& self.passes().len() == 0
        &&& self.board() == Map::<Seq<char>, usize>::empty()
        &&& self.compiled() is None
    }

    /// The state `create` leaves: `old` with one fresh node at the end and the handle on it.
    pub open spec fn created<ResourceType: TransientResource>(
        old: Self,
        new: Self,
        name: Seq<char>,
        desc: AnyDescriptorView,
        h: Handle<ResourceType>,
    ) -> bool {
        let n = old.resources().len();
        &&& new.resources().len() == n + 1
        &&& new.resources().subrange(0, n as int) == old.resources()
        &&& is_fresh_node(new.resources()[n as int], name, n as int, desc)
        &&& new.resources()[n as int].resource is Setuped
        &&& new.passes() == old.passes()
        &&& new.board() == old.board()
        &&& new.compiled() == old.compiled()
        &&& is_handle_of(h, new.resources()[n as int])
    }

    /// `name` was declared before in this frame, as a resource of the kind `ResourceType`.
    pub open spec fn name_has_kind<ResourceType: TransientResource>(&self, name: Seq<char>)
        -> bool {
        self.board().contains_key(name)
            ==> exists|d: ResourceType::Descriptor| #[trigger] ResourceType::wrap_desc(d)
            == self.resources()[self.board()[name] as int].resource.desc_view()
    }

    /// The state `get_or_create` leaves: the node already declared under `name` and nothing
    /// changed, or a fresh node registered under `name`.
    pub open spec fn got_or_created<ResourceType: TransientResource>(
        old: Self,
        new: Self,
        name: Seq<char>,
        desc: AnyDescriptorView,
        h: Handle<ResourceType>,
    ) -> bool {
        if old.board().contains_key(name) {
            &&& new == old
            &&& h.raw.index.index == old.board()[name]
            &&& is_handle_of(h, old.resources()[old.board()[name] as int])
        } else {
            let n = old.resources().len();
            &&& new.resources().len() == n + 1
            &&& new.resources().subrange(0, n as int) == old.resources()
            &&& is_fresh_node(new.resources()[n as int], name, n as int, desc)
            &&& new.passes() == old.passes()
            &&& new.board() == old.board().insert(name, n as usize)
            &&& new.compiled() == old.compiled()
            &&& is_handle_of(h, new.resources()[n as int])
        }
    }

    pub fn new() -> (r: Self)
        ensures
            r.wf(),
            r.is_empty(),
    {
        FrameGraph {
            resource_nodes: Vec::new(),
            pass_nodes: Vec::new(),
            compiled_frame_graph: None,
            resource_board: ResourceBoard::new(),
        }
    }

    pub fn resource_count(&self) -> (r: usize)
        ensures
            r == self.resources().len(),
    {
        self.resource_nodes.len()
    }

    pub fn pass_count(&self) -> (r: usize)
        ensures
            r == self.passes().len(),
    {
        self.pass_nodes.len()
    }

    pub fn is_compiled(&self) -> (r: bool)
        ensures
            r == self.compiled() is Some,
    {
        self.compiled_frame_graph.is_some()
    }

    pub fn get_resource_node(&self, handle: &IndexHandle<ResourceSlot>) -> (r: &ResourceNode<R>)
        requires
            handle.index < self.resources().len(),
        ensures
            *r == self.resources()[handle.index as int],
    {
        &self.resource_nodes[handle.index]
    }

    pub fn get_pass_node(&self, handle: &IndexHandle<PassSlot>) -> (r: &PassNode<P>)
        requires
            handle.index < self.passes().len(),
        ensures
            *r == self.passes()[handle.index as int],
    {
        &self.pass_nodes[handle.index]
    }

    /// Registers `index` under `key` on the board of names.
    pub fn insert(&mut self, key: &str, index: IndexHandle<ResourceSlot>)
        requires
            old(self).wf(),
            index.index < old(self).resources().len(),
        ensures
            final(self).wf(),
            final(self).board() == old(self).board().insert(key@, index.index),
            final(self).resources() == old(self).resources(),
            final(self).passes() == old(self).passes(),
            final(self).compiled() == old(self).compiled(),
    {
        self.resource_board.insert(key.to_owned(), index);
    }

    /// A handle of the kind `ResourceType` on the resource registered under `key`, if there is
    /// one and it is of that kind.
    pub fn get<ResourceType: TransientResource>(&self, key: &str)
        -> (r: Option<Handle<ResourceType>>)
        requires
            self.wf(),
        ensures
            r matches Some(h) ==> self.board().contains_key(key@) && is_handle_of(
                h,
                self.resources()[self.board()[key@] as int],
            ),
            r is None ==> !self.board().contains_key(key@)
                || forall|d: ResourceType::Descriptor| #[trigger] ResourceType::wrap_desc(d)
                != self.resources()[self.board()[key@] as int].resource.desc_view(),
    {
        let key = key.to_owned();
        match self.resource_board.get(&key) {
            Some(index) => self.resource_nodes[index.index].get_handle(),
            None => None,
        }
    }

    fn push_node(&mut self, name: &str, resource: VirtualResource<R>)
        -> (r: IndexHandle<ResourceSlot>)
        requires
            old(self).wf(),
            old(self).resources().len() < usize::MAX,
        ensures
            final(self).wf(),
            r.index == old(self).resources().len(),
            final(self).resources() == old(self).resources().push(final(self).resources().last()),
            is_fresh_node(final(self).resources().last(), name@, r.index as int,
                resource.desc_view()),
            final(self).resources().last().resource == resource,
            final(self).passes() == old(self).passes(),
            final(self).board() == old(self).board(),
            final(self).compiled() == old(self).compiled(),
    {
        let index = IndexHandle::new(self.resource_nodes.len());
        let node = ResourceNode::new(name, index, resource);
        self.resource_nodes.push(node);
        proof {
            assert(self.resource_nodes@.last() == node);
        }
        index
    }

    /// Scans the passes in declaration order and records, on each resource, the first and
    /// last pass that reads or writes it; then adds each resource with both ends to the
    /// request list of its first pass and the release list of its last pass.
    pub fn compute_resource_lifetime(&mut self)
        requires
            old(self).wf(),
        ensures
            final(self).wf(),
            final(self).resources().len() == old(self).resources().len(),
            forall|r: int| 0 <= r < old(self).resources().len()
                ==> #[trigger] final(self).resources()[r]
                == lifetime_after(old(self).resources()[r], old(self).passes(),
                    old(self).passes().len() as int),
            final(self).passes().len() == old(self).passes().len(),
            forall|p: int| 0 <= p < old(self).passes().len() ==> {
                let before = #[trigger] old(self).passes()[p];
                let after = final(self).passes()[p];
                &&& after.name == before.name
                &&& after.index == before.index
                &&& after.reads == before.reads
                &&& after.writes == before.writes
                &&& after.pass == before.pass
                &&& after.resource_request_array@ == before.resource_request_array@ + requested_at(
                    final(self).resources(),
                    p,
                    final(self).resources().len() as int,
                )
                &&& after.resource_release_array@ == before.resource_release_array@ + released_at(
                    final(self).resources(),
                    p,
                    final(self).resources().len() as int,
                )
            },
            final(self).board() == old(self).board(),
            final(self).compiled() == old(self).compiled(),
    {
        let ghost res0 = self.resource_nodes@;
        let ghost passes0 = self.pass_nodes@;
        let n_passes = self.pass_nodes.len();
        let mut i: usize = 0;
        while i < n_passes
            invariant
                n_passes == passes0.len(),
                old(self).wf(),
                res0 == old(self).resource_nodes@,
                passes0 == old(self).pass_nodes@,
                i <= n_passes,
                self.pass_nodes@ == passes0,
                self.resource_board@ == old(self).resource_board@,
                self.compiled_frame_graph == old(self).compiled_frame_graph,
                self.resource_nodes@.len() == res0.len(),
                forall|r: int| 0 <= r < res0.len() ==> #[trigger] self.resource_nodes@[r]
                    == lifetime_after(res0[r], passes0, i as int),
            decreases n_passes - i,
        {
            let h = self.pass_nodes[i].index;
            let ghost before = self.resource_nodes@;
            let n_reads = self.pass_nodes[i].reads.len();
            let mut j: usize = 0;
            while j < n_reads
                invariant
                    old(self).wf(),
                    i < n_passes,
                    n_passes == passes0.len(),
                    passes0 == old(self).pass_nodes@,
                    res0 == old(self).resource_nodes@,
                    self.pass_nodes@ == passes0,
                    h == passes0[i as int].index,
                    n_reads == passes0[i as int].reads@.len(),
                    j <= n_reads,
                    self.resource_board@ == old(self).resource_board@,
                    self.compiled_frame_graph == old(self).compiled_frame_graph,
                    self.resource_nodes@.len() == before.len(),
                    before.len() == res0.len(),
                    forall|r: int| 0 <= r < res0.len() ==> #[trigger] before[r]
                        == lifetime_after(res0[r], passes0, i as int),
                    forall|r: int| 0 <= r < before.len()
                        ==> #[trigger] self.resource_nodes@[r] == if exists|k: int| 0 <= k < j
                            && #[trigger] passes0[i as int].reads@[k].index.index == r {
                        touched_node(before[r], h)
                    } else {
                        before[r]
                    },
                decreases n_reads - j,
            {
                let idx = self.pass_nodes[i].reads[j].index.index;
                assert(passes0[i as int].reads@[j as int].index.index < res0.len());
                self.resource_nodes[idx].update_lifetime(h);
                j = j + 1;
            }
            let n_writes = self.pass_nodes[i].writes.len();
            let ghost after_reads = self.resource_nodes@;
            let mut j: usize = 0;
            while j < n_writes
                invariant
                    old(self).wf(),
                    i < n_passes,
                    n_passes == passes0.len(),
                    passes0 == old(self).pass_nodes@,
                    res0 == old(self).resource_nodes@,
                    self.pass_nodes@ == passes0,
                    h == passes0[i as int].index,
                    n_writes == passes0[i as int].writes@.len(),
                    j <= n_writes,
                    self.resource_board@ == old(self).resource_board@,
                    self.compiled_frame_graph == old(self).compiled_frame_graph,
                    self.resource_nodes@.len() == before.len(),
                    before.len() == res0.len(),
                    forall|r: int| 0 <= r < res0.len() ==> #[trigger] before[r]
                        == lifetime_after(res0[r], passes0, i as int),
                    forall|r: int| 0 <= r < before.len()
                        ==> #[trigger] self.resource_nodes@[r]
                            == if (exists|k: int| 0 <= k < passes0[i as int].reads@.len()
                                && #[trigger] passes0[i as int].reads@[k].index.index == r)
                        || (exists|k: int| 0 <= k < j
                            && #[trigger] passes0[i as int].writes@[k].index.index == r) {
                        touched_node(before[r], h)
                    } else {
                        before[r]
                    },
                decreases n_writes - j,
            {
                let idx = self.pass_nodes[i].writes[j].index.index;
                assert(passes0[i as int].writes@[j as int].index.index < res0.len());
                self.resource_nodes[idx].update_lifetime(h);
                j = j + 1;
            }
            proof {
                assert forall|r: int| 0 <= r < res0.len() implies #[trigger] self.resource_nodes@[r]
                    == lifetime_after(res0[r], passes0, i + 1) by {
                    assert(res0[r].index.index == r);
                    lemma_lifetime_after(res0[r], passes0, i as int);
                }
            }
            i = i + 1;
        }
        let ghost res1 = self.resource_nodes@;
        proof {
            assert forall|r: int| 0 <= r < res1.len() implies {
                &&& (#[trigger] res1[r]).index.index == r
                &&& (res1[r].first_use_pass matches Some(f) ==> f.index < passes0.len())
                &&& (res1[r].last_user_pass matches Some(l) ==> l.index < passes0.len())
            } by {
                lemma_lifetime_after(res0[r], passes0, passes0.len() as int);
            }
        }
        let n_res = self.resource_nodes.len();
        let mut r: usize = 0;
        while r < n_res
            invariant
                old(self).wf(),
                passes0 == old(self).pass_nodes@,
                res0 == old(self).resource_nodes@,
                n_res == res1.len(),
                res1.len() == res0.len(),
                r <= n_res,
                self.resource_nodes@ == res1,
                self.resource_board@ == old(self).resource_board@,
                self.compiled_frame_graph == old(self).compiled_frame_graph,
                forall|k: int| 0 <= k < res1.len() ==> {
                    &&& (#[trigger] res1[k]).index.index == k
                    &&& (res1[k].first_use_pass matches Some(f) ==> f.index < passes0.len())
                    &&& (res1[k].last_user_pass matches Some(l) ==> l.index < passes0.len())
                },
                self.pass_nodes@.len() == passes0.len(),
                forall|p: int| 0 <= p < passes0.len() ==> {
                    let before = #[trigger] passes0[p];
                    let after = self.pass_nodes@[p];
                    &&& after.name == before.name
                    &&& after.index == before.index
                    &&& after.reads == before.reads
                    &&& after.writes == before.writes
                    &&& after.pass == before.pass
                    &&& after.resource_request_array@
                        == before.resource_request_array@ + requested_at(res1, p, r as int)
                    &&& after.resource_release_array@
                        == before.resource_release_array@ + released_at(res1, p, r as int)
                },
            decreases n_res - r,
        {
            let first = self.resource_nodes[r].first_use_pass;
            let last = self.resource_nodes[r].last_user_pass;
            let index = self.resource_nodes[r].index;
            match (first, last) {
                (Some(f), Some(l)) => {
                    self.pass_nodes[f.index].resource_request_array.push(index);
                    self.pass_nodes[l.index].resource_release_array.push(index);
                },
                _ => {},
            }
            proof {
                assert forall|p: int| 0 <= p < passes0.len() implies {
                    let before = #[trigger] passes0[p];
                    let after = self.pass_nodes@[p];
                    &&& after.resource_request_array@
                        == before.resource_request_array@ + requested_at(res1, p, r + 1)
                    &&& after.resource_release_array@
                        == before.resource_release_array@ + released_at(res1, p, r + 1)
                } by {
                    assert(res1[r as int] == self.resource_nodes@[r as int]);
                }
            }
            r = r + 1;
        }
        proof {
            assert forall|p: int| 0 <= p < self.pass_nodes@.len() implies {
                &&& forall|k: int| 0 <= k < (#[trigger] self.pass_nodes@[p]).resource_request_array@.len() ==> (#[trigger] self.pass_nodes@[p].resource_request_array@[k]).index < res1.len()
                &&& forall|k: int| 0 <= k < self.pass_nodes@[p].resource_release_array@.len()
                    ==> (#[trigger] self.pass_nodes@[p].resource_release_array@[k]).index < res1.len()
            } by {
                lemma_lists_bounded(res1, p, res1.len() as int);
                let before = passes0[p];
                assert(old(self).pass_nodes@[p] == before);
                let after = self.pass_nodes@[p];
                assert forall|k: int| 0 <= k < after.resource_request_array@.len()
                    implies (#[trigger] after.resource_request_array@[k]).index < res1.len() by {
                    if k >= before.resource_request_array@.len() {
                        assert(after.resource_request_array@[k]
                            == requested_at(res1, p,
                                res1.len() as int)[k - before.resource_request_array@.len()]);
                    } else {
                        assert(after.resource_request_array@[k]
                            == before.resource_request_array@[k]);
                    }
                }
                assert forall|k: int| 0 <= k < after.resource_release_array@.len()
                    implies (#[trigger] after.resource_release_array@[k]).index < res1.len() by {
                    if k >= before.resource_release_array@.len() {
                        assert(after.resource_release_array@[k]
                            == released_at(res1, p,
                                res1.len() as int)[k - before.resource_release_array@.len()]);
                    } else {
                        assert(after.resource_release_array@[k]
                            == before.resource_release_array@[k]);
                    }
                }
            }
            assert forall|p: int| 0 <= p < self.pass_nodes@.len() implies {
                &&& (#[trigger] self.pass_nodes@[p]).index.index == p
                &&& forall|k: int| 0 <= k < self.pass_nodes@[p].reads@.len()
                    ==> (#[trigger] self.pass_nodes@[p].reads@[k]).index.index < res1.len()
                &&& forall|k: int| 0 <= k < self.pass_nodes@[p].writes@.len()
                    ==> (#[trigger] self.pass_nodes@[p].writes@[k]).index.index < res1.len()
            } by {
                assert(old(self).pass_nodes@[p] == passes0[p]);
                assert(self.pass_nodes@[p].reads == passes0[p].reads);
                assert(self.pass_nodes@[p].writes == passes0[p].writes);
            }
            assert(self.wf());
        }
    }

    /// Appends a pass node with the given reads, writes and recorded commands; its request and
    /// release lists start empty.
    pub fn pass_node(
        &mut self,
        name: &str,
        writes: Vec<GraphRawResourceHandle>,
        reads: Vec<GraphRawResourceHandle>,
        pass: Option<P>,
    ) -> (r: IndexHandle<PassSlot>)
        requires
            old(self).wf(),
            old(self).passes().len() < usize::MAX,
            forall|k: int| 0 <= k < reads@.len()
                ==> (#[trigger] reads@[k]).index.index < old(self).resources().len(),
            forall|k: int| 0 <= k < writes@.len()
                ==> (#[trigger] writes@[k]).index.index < old(self).resources().len(),
        ensures
            final(self).wf(),
            r.index == old(self).passes().len(),
            final(self).passes().len() == old(self).passes().len() + 1,
            final(self).passes().subrange(0, r.index as int) == old(self).passes(),
            final(self).passes()[r.index as int].name@ == name@,
            final(self).passes()[r.index as int].index == r,
            final(self).passes()[r.index as int].reads == reads,
            final(self).passes()[r.index as int].writes == writes,
            final(self).passes()[r.index as int].resource_request_array@.len() == 0,
            final(self).passes()[r.index as int].resource_release_array@.len() == 0,
            final(self).passes()[r.index as int].pass == pass,
            final(self).resources() == old(self).resources(),
            final(self).board() == old(self).board(),
            final(self).compiled() == old(self).compiled(),
    {
        let handle = IndexHandle::new(self.pass_nodes.len());
        let mut pass_node = PassNode::new(name, handle);
        pass_node.writes = writes;
        pass_node.reads = reads;
        pass_node.pass = pass;
        self.pass_nodes.push(pass_node);
        proof {
            assert(self.pass_nodes@.subrange(0, handle.index as int) =~= old(self).pass_nodes@);
            assert forall|p: int| 0 <= p < self.pass_nodes@.len()
                implies #[trigger] self.pass_nodes@[p].index.index == p by {
                if p < handle.index {
                    assert(self.pass_nodes@[p] == old(self).pass_nodes@[p]);
                }
            }
        }
        handle
    }

    /// Declares a write of the resource at `index`: its version goes up by one, and the new
    /// version is returned.
    pub fn new_version(&mut self, index: IndexHandle<ResourceSlot>) -> (r: u32)
        requires
            old(self).wf(),
            index.index < old(self).resources().len(),
            old(self).resources()[index.index as int].version < u32::MAX,
        ensures
            final(self).wf(),
            r == old(self).resources()[index.index as int].version + 1,
            Self::version_bumped(*old(self), *final(self), index.index as int),
    {
        self.resource_nodes[index.index].new_version();
        proof {
            assert(self.resource_nodes@ =~= old(self).resource_nodes@.update(
                index.index as int,
                ResourceNode { version: self.resource_nodes@[index.index as int].version,
                    ..old(self).resource_nodes@[index.index as int] },
            ));
        }
        self.resource_nodes[index.index].version()
    }

    /// Declares a new resource under `name`, whatever was declared before under that name; the
    /// board of names is left as it was.
    pub fn create<DescriptorType: TransientResourceDescriptor>(
        &mut self,
        name: &str,
        desc: DescriptorType,
    ) -> (h: Handle<DescriptorType::Resource>)
        requires
            old(self).wf(),
            old(self).resources().len() < usize::MAX,
        ensures
            final(self).wf(),
            Self::created(*old(self), *final(self), name@, DescriptorType::Resource::wrap_desc(desc),
                h),
    {
        let handle_desc = <DescriptorType::Resource as TransientResource>::duplicate_desc(&desc);
        let index = self.push_node(name, VirtualResource::Setuped(desc.into_any()));
        let h = Handle::new(index, 0, handle_desc);
        proof {
            assert(self.resource_nodes@.subrange(0,
                old(self).resource_nodes@.len() as int) =~= old(self).resource_nodes@);
        }
        h
    }

    /// The handle of the resource declared under `name` in this frame; if there is none,
    /// declares one from `desc` and registers it under `name`. A name declared before must
    /// have been declared as a resource of the same kind.
    pub fn get_or_create<DescriptorType: TransientResourceDescriptor>(
        &mut self,
        name: &str,
        desc: DescriptorType,
    ) -> (h: Handle<DescriptorType::Resource>)
        requires
            old(self).wf(),
            old(self).resources().len() < usize::MAX,
            old(self).name_has_kind::<DescriptorType::Resource>(name@),
        ensures
            final(self).wf(),
            Self::got_or_created(*old(self), *final(self), name@,
                DescriptorType::Resource::wrap_desc(desc), h),
            !old(self).board().contains_key(name@) ==> final(self).resources().last().resource is Setuped,
    {
        let key = name.to_owned();
        match self.resource_board.get(&key) {
            Some(index) => {
                match self.resource_nodes[index.index].get_handle() {
                    Some(h) => {
                        return h;
                    },
                    None => {
                        return vstd::pervasive::unreached();
                    },
                }
            },
            None => {},
        }
        let h = self.create(name, desc);
        self.resource_board.insert(key, h.raw.index);
        h
    }

    /// Like `get_or_create`, but the resource is `resource`, handed in from outside and never
    /// created, pooled or freed by the graph; `desc` is its descriptor.
    pub fn import<DescriptorType: TransientResourceDescriptor>(
        &mut self,
        name: &str,
        resource: R,
        desc: DescriptorType,
    ) -> (h: Handle<DescriptorType::Resource>)
        requires
            old(self).wf(),
            old(self).resources().len() < usize::MAX,
            old(self).name_has_kind::<DescriptorType::Resource>(name@),
        ensures
            final(self).wf(),
            Self::got_or_created(*old(self), *final(self), name@,
                DescriptorType::Resource::wrap_desc(desc), h),
            !old(self).board().contains_key(name@)
                ==> final(self).resources().last().resource
                    == (VirtualResource::Imported { resource,
                        desc: final(self).resources().last().resource->desc }),
    {
        let key = name.to_owned();
        match self.resource_board.get(&key) {
            Some(index) => {
                match self.resource_nodes[index.index].get_handle() {
                    Some(h) => {
                        return h;
                    },
                    None => {
                        return vstd::pervasive::unreached();
                    },
                }
            },
            None => {},
        }
        let handle_desc = <DescriptorType::Resource as TransientResource>::duplicate_desc(&desc);
        let index = self.push_node(name, VirtualResource::Imported { resource,
            desc: desc.into_any() });
        self.resource_board.insert(key, index);
        let h = Handle::new(index, 0, handle_desc);
        proof {
            assert(self.resource_nodes@.subrange(0,
                old(self).resource_nodes@.len() as int) =~= old(self).resource_nodes@);
        }
        h
    }
}


impl<P> FrameGraph<P, ArcTransientResource> {
    /// Shares the buffer `buffer` with the graph under `name`, declared with the descriptor the
    /// buffer itself carries; a name declared before gives back its handle unchanged.
    pub fn import_buffer(&mut self, name: &str, buffer: Arc<TransientBuffer>) -> (h: Handle<
        TransientBuffer,
    >)
        requires
            old(self).wf(),
            old(self).resources().len() < usize::MAX,
            old(self).name_has_kind::<TransientBuffer>(name@),
        ensures
            final(self).wf(),
            Self::got_or_created(*old(self), *final(self), name@,
                AnyDescriptorView::Buffer(buffer.desc), h),
            !old(self).board().contains_key(name@) ==> final(self).resources().last().resource
                is Imported,
            !old(self).board().contains_key(name@) ==> final(self).resources().last().resource->resource
                == ArcTransientResource::Buffer(buffer),
    {
        let desc = buffer.desc.clone();
        self.import(name, ArcTransientResource::Buffer(buffer), desc)
    }

    /// Shares the texture `texture` with the graph under `name`, declared with the descriptor
    /// the texture itself carries; a name declared before gives back its handle unchanged.
    pub fn import_texture(&mut self, name: &str, texture: Arc<TransientTexture>) -> (h: Handle<
        TransientTexture,
    >)
        requires
            old(self).wf(),
            old(self).resources().len() < usize::MAX,
            old(self).name_has_kind::<TransientTexture>(name@),
        ensures
            final(self).wf(),
            Self::got_or_created(*old(self), *final(self), name@,
                AnyDescriptorView::Texture(texture.desc@), h),
            !old(self).board().contains_key(name@) ==> final(self).resources().last().resource
                is Imported,
            !old(self).board().contains_key(name@) ==> final(self).resources().last().resource->resource
                == ArcTransientResource::Texture(texture),
    {
        let desc = texture.desc.clone();
        self.import(name, ArcTransientResource::Texture(texture), desc)
    }
}

impl<P, R> Default for FrameGraph<P, R> {
    fn default() -> (r: Self)
        ensures
            r.wf(),
            r.is_empty(),
    {
        FrameGraph::new()
    }
}

impl<P, R: Clone> FrameGraph<P, R> {
    /// `new` is `old` compiled: lifetimes recorded, request and release lists filled, and one
    /// device pass per pass node, in declaration order, carrying its lists.
    pub open spec fn compiled_from(old: Self, new: Self) -> bool {
        let n = old.resources().len();
        &&& new.resources().len() == n
        &&& forall|r: int| 0 <= r < n ==> #[trigger] new.resources()[r] == lifetime_after(
            old.resources()[r],
            old.passes(),
            old.passes().len() as int,
        )
        &&& new.board() == old.board()
        &&& new.passes().len() == old.passes().len()
        &&& new.compiled() matches Some(c) && c.device_passes().len() == old.passes().len()
            && forall|p: int| 0 <= p < old.passes().len() ==> {
            let dp = #[trigger] c.device_passes()[p];
            &&& new.passes()[p].name == old.passes()[p].name
            &&& new.passes()[p].index == old.passes()[p].index
            &&& new.passes()[p].reads == old.passes()[p].reads
            &&& new.passes()[p].writes == old.passes()[p].writes
            &&& new.passes()[p].pass == old.passes()[p].pass
            &&& new.passes()[p].resource_request_array@
                == old.passes()[p].resource_request_array@ + requested_at(new.resources(), p,
                    n as int)
            &&& new.passes()[p].resource_release_array@
                == old.passes()[p].resource_release_array@ + released_at(new.resources(), p,
                    n as int)
            &&& is_device_pass_of(dp, new.passes()[p], new.resources())
        }
    }

    /// The device pass of the pass node at `index`: its position, and copies of its request and
    /// release lists.
    pub fn device_pass(&self, index: IndexHandle<PassSlot>) -> (r: DevicePass<R>)
        requires
            self.wf(),
            index.index < self.passes().len(),
        ensures
            is_device_pass_of(r, self.passes()[index.index as int], self.resources()),
    {
        let i = index.index;
        let mut requests: Vec<ResourceRequese<R>> = Vec::new();
        let n = self.pass_nodes[i].resource_request_array.len();
        let mut k: usize = 0;
        while k < n
            invariant
                self.wf(),
                i < self.pass_nodes@.len(),
                n == self.pass_nodes@[i as int].resource_request_array@.len(),
                k <= n,
                requests@.len() == k,
                forall|j: int| 0 <= j < k ==> {
                    &&& (#[trigger] requests@[j]).index
                        == self.pass_nodes@[i as int].resource_request_array@[j]
                    &&& VirtualResource::copied(
                        self.resource_nodes@[self.pass_nodes@[i as int].resource_request_array@[j].index as int].resource,
                        requests@[j].resource,
                    )
                },
            decreases n - k,
        {
            let idx = self.pass_nodes[i].resource_request_array[k].index;
            assert(self.pass_nodes@[i as int].resource_request_array@[k as int].index
                < self.resource_nodes@.len());
            let request = self.resource_nodes[idx].request();
            requests.push(request);
            k = k + 1;
        }
        let mut releases: Vec<ResourceRelease> = Vec::new();
        let n = self.pass_nodes[i].resource_release_array.len();
        let mut k: usize = 0;
        while k < n
            invariant
                i < self.pass_nodes@.len(),
                n == self.pass_nodes@[i as int].resource_release_array@.len(),
                k <= n,
                releases@.len() == k,
                forall|j: int| 0 <= j < k ==> (#[trigger] releases@[j]).index
                    == self.pass_nodes@[i as int].resource_release_array@[j],
            decreases n - k,
        {
            releases.push(ResourceRelease { index: self.pass_nodes[i].resource_release_array[k] });
            k = k + 1;
        }
        DevicePass {
            index: self.pass_nodes[i].index,
            resource_request_array: requests,
            resource_release_array: releases,
        }
    }

    /// Builds the plan: one device pass per pass node, in declaration order. Does nothing when
    /// no pass was declared.
    pub fn generate_compiled_frame_graph(&mut self)
        requires
            old(self).wf(),
        ensures
            final(self).wf(),
            old(self).passes().len() == 0 ==> *final(self) == *old(self),
            old(self).passes().len() > 0 ==> (final(self).compiled() matches Some(c)
                && c.device_passes().len() == old(self).passes().len() && forall|i: int|
                0 <= i < old(self).passes().len() ==> is_device_pass_of(
                #[trigger] c.device_passes()[i],
                old(self).passes()[i],
                old(self).resources(),
            )),
            final(self).resources() == old(self).resources(),
            final(self).passes() == old(self).passes(),
            final(self).board() == old(self).board(),
    {
        if self.pass_nodes.len() == 0 {
            return;
        }
        let mut device_passes: Vec<DevicePass<R>> = Vec::new();
        let n = self.pass_nodes.len();
        let mut index: usize = 0;
        while index < n
            invariant
                self == old(self),
                self.wf(),
                n == self.pass_nodes@.len(),
                index <= n,
                device_passes@.len() == index,
                forall|i: int| 0 <= i < index ==> is_device_pass_of(
                    #[trigger] device_passes@[i],
                    self.pass_nodes@[i],
                    self.resource_nodes@,
                ),
            decreases n - index,
        {
            let type_index = self.pass_nodes[index].index;
            let mut device_pass = DevicePass {
                index: type_index,
                resource_request_array: Vec::new(),
                resource_release_array: Vec::new(),
            };
            device_pass.extra(self, type_index);
            device_passes.push(device_pass);
            index = index + 1;
        }
        self.compiled_frame_graph = Some(CompiledFrameGraph { device_passes });
    }

    /// Computes lifetimes and builds the plan. Does nothing when no pass was declared.
    pub fn compile(&mut self)
        requires
            old(self).wf(),
        ensures
            final(self).wf(),
            old(self).passes().len() == 0 ==> *final(self) == *old(self),
            old(self).passes().len() > 0 ==> Self::compiled_from(*old(self), *final(self)),
    {
        if self.pass_nodes.len() == 0 {
            return;
        }
        self.compute_resource_lifetime();
        self.generate_compiled_frame_graph();
    }

    /// Empties the graph for the next frame.
    fn reset(&mut self)
        ensures
            final(self).wf(),
            final(self).is_empty(),
    {
        self.pass_nodes = Vec::new();
        self.resource_nodes = Vec::new();
        self.compiled_frame_graph = None;
        self.resource_board = ResourceBoard::new();
    }

    /// Runs the compiled plan against `device` and the pool, the commands of each pass going
    /// to `runner`, then empties the graph. Does nothing when there is no compiled plan.
    pub fn execute<D: TransientResourceCreator<R>, X: PassRunner<P, R>>(
        &mut self,
        device: &D,
        runner: &mut X,
        transient_resource_cache: &mut TransientResourceCache<R>,
    )
        requires
            old(self).wf(),
        ensures
            final(self).wf(),
            old(self).compiled() is None ==> *final(self) == *old(self),
            old(self).compiled() is None ==> *final(runner) == *old(runner),
            old(self).compiled() is None ==> final(transient_resource_cache)@ == old(
                transient_resource_cache,
            )@,
            old(self).passes().len() == 0 ==> *final(self) == *old(self),
            old(self).passes().len() == 0 ==> *final(runner) == *old(runner),
            old(self).passes().len() == 0 ==> final(transient_resource_cache)@ == old(
                transient_resource_cache,
            )@,
            old(self).compiled() matches Some(c) ==> exists|created: Seq<Seq<R>>|
                final(transient_resource_cache)@ == run_plan(
                    (old(transient_resource_cache)@, Map::<usize, EntryView<R>>::empty()),
                    c.device_passes(),
                    created,
                    c.device_passes().len() as int,
                ).0,
            old(self).compiled() is Some ==> final(self).is_empty(),
    {
        match &self.compiled_frame_graph {
            Some(compiled_frame_graph) => {
                compiled_frame_graph.execute(
                    &self.pass_nodes,
                    device,
                    runner,
                    transient_resource_cache,
                );
            },
            None => {
                return;
            },
        }
        self.reset();
    }
}

/// Declaring a name twice with `get_or_create` in one frame gives the same handle both times,
/// and only the first declaration, if the name was new, adds a resource node.
pub proof fn lemma_get_or_create_dedup<P, R, ResourceType: TransientResource>(
    g0: FrameGraph<P, R>,
    g1: FrameGraph<P, R>,
    g2: FrameGraph<P, R>,
    name: Seq<char>,
    desc1: AnyDescriptorView,
    desc2: AnyDescriptorView,
    h1: Handle<ResourceType>,
    h2: Handle<ResourceType>,
)
    requires
        FrameGraph::got_or_created(g0, g1, name, desc1, h1),
        FrameGraph::got_or_created(g1, g2, name, desc2, h2),
    ensures
        h1.raw.index.index == h2.raw.index.index,
        h1.raw.version == h2.raw.version,
        h1.desc_view() == h2.desc_view(),
        g2 == g1,
        g2.resources().len() == g0.resources().len() + if g0.board().contains_key(name) {
            0int
        } else {
            1int
        },
{
    assert(g1.board().contains_key(name));
}

/// Two `create` calls under one name in one frame give two different handles and two nodes
/// that both carry the name.
pub proof fn lemma_create_distinct<P, R, ResourceType: TransientResource>(
    g0: FrameGraph<P, R>,
    g1: FrameGraph<P, R>,
    g2: FrameGraph<P, R>,
    name: Seq<char>,
    desc1: AnyDescriptorView,
    desc2: AnyDescriptorView,
    h1: Handle<ResourceType>,
    h2: Handle<ResourceType>,
)
    requires
        FrameGraph::created(g0, g1, name, desc1, h1),
        FrameGraph::created(g1, g2, name, desc2, h2),
    ensures
        h1.raw.index.index != h2.raw.index.index,
        g2.resources().len() == g0.resources().len() + 2,
        g2.resources()[h1.raw.index.index as int].name@ == name,
        g2.resources()[h2.raw.index.index as int].name@ == name,
{
    let n = g0.resources().len() as int;
    assert(g2.resources().subrange(0, n + 1)[n] == g2.resources()[n]);
}

proof fn lemma_versions_count<P, R>(graphs: Seq<FrameGraph<P, R>>, i: int, versions: Seq<u32>,
    k: int)
    requires
        graphs.len() == versions.len() + 1,
        versions.len() < u32::MAX,
        0 <= i < graphs[0].resources().len(),
        graphs[0].resources()[i].version == 0,
        forall|j: int| 0 <= j < versions.len()
            ==> FrameGraph::version_bumped(#[trigger] graphs[j], graphs[j + 1], i),
        0 <= k <= versions.len(),
    ensures
        i < graphs[k].resources().len(),
        graphs[k].resources()[i].version == k,
    decreases k,
{
    if k > 0 {
        lemma_versions_count(graphs, i, versions, k - 1);
        assert(FrameGraph::version_bumped(graphs[k - 1], graphs[k], i));
    }
}

/// Declaring `N` writes on one resource, starting from version 0, leaves it at version `N`,
/// and the writes see the versions 1, 2, ..., `N`, strictly increasing.
pub proof fn lemma_versions_increase<P, R>(graphs: Seq<FrameGraph<P, R>>, i: int,
    versions: Seq<u32>)
    requires
        graphs.len() == versions.len() + 1,
        versions.len() < u32::MAX,
        0 <= i < graphs[0].resources().len(),
        graphs[0].resources()[i].version == 0,
        forall|j: int| 0 <= j < versions.len() ==> {
            &&& FrameGraph::version_bumped(#[trigger] graphs[j], graphs[j + 1], i)
            &&& versions[j] == graphs[j].resources()[i].version + 1
        },
    ensures
        graphs.last().resources()[i].version == versions.len(),
        forall|j: int| 0 <= j < versions.len() ==> #[trigger] versions[j] == j + 1,
        forall|a: int, b: int| 0 <= a < b < versions.len() ==> versions[a] < versions[b],
{
    lemma_versions_count(graphs, i, versions, versions.len() as int);
    assert forall|j: int| 0 <= j < versions.len() implies #[trigger] versions[j] == j + 1 by {
        lemma_versions_count(graphs, i, versions, j);
        assert(FrameGraph::version_bumped(graphs[j], graphs[j + 1], i));
    }
    assert forall|a: int, b: int| 0 <= a < b < versions.len() implies versions[a] < versions[b] by {
        assert(versions[a] == a + 1);
        assert(versions[b] == b + 1);
    }
}

/// The scan over a node that exactly the passes `a < b` touch.
proof fn lemma_lifetime_two_uses<P, R>(node: ResourceNode<R>, passes: Seq<PassNode<P>>, a: int,
    b: int, k: int)
    requires
        forall|p: int| 0 <= p < passes.len() ==> (#[trigger] passes[p]).index.index == p,
        0 <= a < b < passes.len(),
        0 <= k <= passes.len(),
        forall|p: int| 0 <= p < passes.len()
            ==> ((#[trigger] passes[p]).touches(node.index.index as int) <==> (p == a || p == b)),
        node.first_use_pass is None,
        node.last_user_pass is None,
    ensures
        k <= a ==> lifetime_after(node, passes, k).first_use_pass is None
            && lifetime_after(node, passes, k).last_user_pass is None,
        a < k <= b ==> lifetime_after(node, passes, k).first_use_pass == Some(passes[a].index)
            && lifetime_after(node, passes, k).last_user_pass == Some(passes[a].index),
        b < k ==> lifetime_after(node, passes, k).first_use_pass == Some(passes[a].index)
            && lifetime_after(node, passes, k).last_user_pass == Some(passes[b].index),
    decreases k,
{
    if k > 0 {
        lemma_lifetime_two_uses(node, passes, a, b, k - 1);
        assert(passes[k - 1].touches(node.index.index as int) <==> (k - 1 == a || k - 1 == b));
    }
}

/// The scan over a node that no pass touches leaves its lifetime empty.
proof fn lemma_lifetime_unused<P, R>(node: ResourceNode<R>, passes: Seq<PassNode<P>>, k: int)
    requires
        0 <= k <= passes.len(),
        forall|p: int| 0 <= p < passes.len()
            ==> !(#[trigger] passes[p]).touches(node.index.index as int),
        node.first_use_pass is None,
        node.last_user_pass is None,
    ensures
        lifetime_after(node, passes, k).first_use_pass is None,
        lifetime_after(node, passes, k).last_user_pass is None,
    decreases k,
{
    if k > 0 {
        lemma_lifetime_unused(node, passes, k - 1);
        assert(!passes[k - 1].touches(node.index.index as int));
    }
}

/// What the request and release lists of the pass `p` hold: the indices of exactly the nodes
/// whose lifetime starts, respectively ends, there.
proof fn lemma_lists_membership<R>(nodes: Seq<ResourceNode<R>>, p: int, n: int)
    requires
        0 <= n <= nodes.len(),
        forall|k: int| 0 <= k < nodes.len() ==> (#[trigger] nodes[k]).index.index == k,
    ensures
        forall|r: int| 0 <= r < nodes.len()
            ==> (requested_at(nodes, p, n).contains(#[trigger] nodes[r].index)
                <==> (r < n && is_requested_at(nodes[r], p))),
        forall|r: int| 0 <= r < nodes.len()
            ==> (released_at(nodes, p, n).contains(#[trigger] nodes[r].index)
                <==> (r < n && is_released_at(nodes[r], p))),
        forall|k: int| 0 <= k < requested_at(nodes, p, n).len()
            ==> exists|j: int| 0 <= j < n
                && #[trigger] requested_at(nodes, p, n)[k] == nodes[j].index
                    && is_requested_at(nodes[j], p),
    decreases n,
{
    if n > 0 {
        lemma_lists_membership(nodes, p, n - 1);
        let last = nodes[n - 1].index;
        let prev_req = requested_at(nodes, p, n - 1);
        let prev_rel = released_at(nodes, p, n - 1);
        assert forall|r: int| 0 <= r < nodes.len()
            implies (requested_at(nodes, p,
                n).contains(#[trigger] nodes[r].index) <==> (r < n && is_requested_at(nodes[r], p)))
                    by {
            if is_requested_at(nodes[n - 1], p) {
                let cur = prev_req.push(last);
                assert(cur == requested_at(nodes, p, n));
                if cur.contains(nodes[r].index) {
                    let j = choose|j: int| 0 <= j < cur.len() && cur[j] == nodes[r].index;
                    if j < prev_req.len() {
                        assert(prev_req[j] == cur[j]);
                        assert(prev_req.contains(nodes[r].index));
                    } else {
                        assert(nodes[r].index.index == nodes[n - 1].index.index);
                    }
                }
                if r < n && is_requested_at(nodes[r], p) {
                    if r == n - 1 {
                        assert(cur[cur.len() - 1] == nodes[r].index);
                    } else {
                        assert(prev_req.contains(nodes[r].index));
                        let j = choose|j: int| 0 <= j < prev_req.len()
                            && prev_req[j] == nodes[r].index;
                        assert(cur[j] == nodes[r].index);
                    }
                }
            } else {
                if r == n - 1 && prev_req.contains(nodes[r].index) {
                    assert(nodes[r].index.index == r);
                }
            }
        }
        assert forall|r: int| 0 <= r < nodes.len()
            implies (released_at(nodes, p,
                n).contains(#[trigger] nodes[r].index) <==> (r < n && is_released_at(nodes[r], p)))
                    by {
            if is_released_at(nodes[n - 1], p) {
                let cur = prev_rel.push(last);
                assert(cur == released_at(nodes, p, n));
                if cur.contains(nodes[r].index) {
                    let j = choose|j: int| 0 <= j < cur.len() && cur[j] == nodes[r].index;
                    if j < prev_rel.len() {
                        assert(prev_rel[j] == cur[j]);
                        assert(prev_rel.contains(nodes[r].index));
                    } else {
                        assert(nodes[r].index.index == nodes[n - 1].index.index);
                    }
                }
                if r < n && is_released_at(nodes[r], p) {
                    if r == n - 1 {
                        assert(cur[cur.len() - 1] == nodes[r].index);
                    } else {
                        assert(prev_rel.contains(nodes[r].index));
                        let j = choose|j: int| 0 <= j < prev_rel.len()
                            && prev_rel[j] == nodes[r].index;
                        assert(cur[j] == nodes[r].index);
                    }
                }
            } else {
                if r == n - 1 && prev_rel.contains(nodes[r].index) {
                    assert(nodes[r].index.index == r);
                }
            }
        }
        assert forall|k: int| 0 <= k < requested_at(nodes, p, n).len()
            implies exists|j: int| 0 <= j < n && #[trigger] requested_at(nodes, p,
                n)[k] == nodes[j].index && is_requested_at(nodes[j], p) by {
            if k < prev_req.len() {
                let j = choose|j: int| 0 <= j < n - 1 && #[trigger] prev_req[k] == nodes[j].index
                    && is_requested_at(nodes[j], p);
                assert(requested_at(nodes, p, n)[k] == prev_req[k]);
            } else {
                assert(requested_at(nodes, p, n)[k] == nodes[n - 1].index);
            }
        }
    }
}

/// The resources after compiling sit where their own index says.
proof fn lemma_compiled_indices<P, R: Clone>(g0: FrameGraph<P, R>, g1: FrameGraph<P, R>)
    requires
        g0.wf(),
        FrameGraph::compiled_from(g0, g1),
    ensures
        forall|k: int| 0 <= k < g1.resources().len()
            ==> (#[trigger] g1.resources()[k]).index.index == k
            && g1.resources()[k].index == g0.resources()[k].index,
{
    assert forall|k: int| 0 <= k < g1.resources().len()
        implies (#[trigger] g1.resources()[k]).index.index == k
        && g1.resources()[k].index == g0.resources()[k].index by {
        lemma_lifetime_after(g0.resources()[k], g0.passes(), g0.passes().len() as int);
    }
}

/// In a fresh frame, a resource that exactly the passes `a < b` read or write lives from `a`
/// to `b`: compiling puts it on the request list of `a` and the release list of `b`, and on
/// no other pass's lists.
pub proof fn lemma_lifetime_interval<P, R: Clone>(g0: FrameGraph<P, R>, g1: FrameGraph<P, R>, r: int,
    a: int, b: int)
    requires
        g0.wf(),
        FrameGraph::compiled_from(g0, g1),
        0 <= r < g0.resources().len(),
        0 <= a < b < g0.passes().len(),
        g0.resources()[r].first_use_pass is None,
        g0.resources()[r].last_user_pass is None,
        forall|p: int| 0 <= p < g0.passes().len()
            ==> ((#[trigger] g0.passes()[p]).touches(r) <==> (p == a || p == b)),
        forall|p: int| 0 <= p < g0.passes().len()
            ==> (#[trigger] g0.passes()[p]).resource_request_array@.len() == 0
            && g0.passes()[p].resource_release_array@.len() == 0,
    ensures
        g1.resources()[r].first_use_pass matches Some(f) && f.index == a,
        g1.resources()[r].last_user_pass matches Some(l) && l.index == b,
        forall|p: int| 0 <= p < g1.passes().len()
            ==> ((#[trigger] g1.passes()[p]).resource_request_array@.contains(g1.resources()[r].index) <==> p == a),
        forall|p: int| 0 <= p < g1.passes().len()
            ==> ((#[trigger] g1.passes()[p]).resource_release_array@.contains(g1.resources()[r].index) <==> p == b),
{
    let passes = g0.passes();
    let node = g0.resources()[r];
    assert(node.index.index == r);
    lemma_lifetime_two_uses(node, passes, a, b, passes.len() as int);
    lemma_compiled_indices(g0, g1);
    let n = g1.resources().len() as int;
    assert forall|p: int| 0 <= p < g1.passes().len()
        implies ((#[trigger] g1.passes()[p]).resource_request_array@.contains(g1.resources()[r].index) <==> p == a) by {
        lemma_lists_membership(g1.resources(), p, n);
        assert(g0.passes()[p].resource_request_array@.len() == 0);
        let c = g1.compiled()->0;
        assert(c.device_passes()[p].index == g1.passes()[p].index);
        assert(g1.passes()[p].resource_request_array@ =~= requested_at(g1.resources(), p, n));
    }
    assert forall|p: int| 0 <= p < g1.passes().len()
        implies ((#[trigger] g1.passes()[p]).resource_release_array@.contains(g1.resources()[r].index) <==> p == b) by {
        lemma_lists_membership(g1.resources(), p, n);
        assert(g0.passes()[p].resource_release_array@.len() == 0);
        let c = g1.compiled()->0;
        assert(c.device_passes()[p].index == g1.passes()[p].index);
        assert(g1.passes()[p].resource_release_array@ =~= released_at(g1.resources(), p, n));
    }
}

/// In a fresh frame, a resource that no pass reads or writes gets no lifetime, and no device
/// pass of the compiled plan requests it: it is never materialized.
pub proof fn lemma_untouched_never_requested<P, R: Clone>(g0: FrameGraph<P, R>, g1: FrameGraph<P, R>,
    r: int)
    requires
        g0.wf(),
        FrameGraph::compiled_from(g0, g1),
        0 <= r < g0.resources().len(),
        g0.resources()[r].first_use_pass is None,
        g0.resources()[r].last_user_pass is None,
        forall|p: int| 0 <= p < g0.passes().len() ==> !(#[trigger] g0.passes()[p]).touches(r),
        forall|p: int| 0 <= p < g0.passes().len()
            ==> (#[trigger] g0.passes()[p]).resource_request_array@.len() == 0,
    ensures
        g1.resources()[r].first_use_pass is None,
        g1.resources()[r].last_user_pass is None,
        g1.compiled() matches Some(c) && forall|p: int, k: int| 0 <= p < c.device_passes().len()
            && 0 <= k < c.device_passes()[p].resource_request_array@.len()
            ==> (#[trigger] c.device_passes()[p].resource_request_array@[k]).index.index != r,
{
    let passes = g0.passes();
    let node = g0.resources()[r];
    assert(node.index.index == r);
    lemma_lifetime_unused(node, passes, passes.len() as int);
    lemma_compiled_indices(g0, g1);
    let n = g1.resources().len() as int;
    let c = g1.compiled()->0;
    assert forall|p: int, k: int| 0 <= p < c.device_passes().len()
        && 0 <= k < c.device_passes()[p].resource_request_array@.len()
        implies (#[trigger] c.device_passes()[p].resource_request_array@[k]).index.index != r by {
        lemma_lists_membership(g1.resources(), p, n);
        assert(g0.passes()[p].resource_request_array@.len() == 0);
        assert(c.device_passes()[p].index == g1.passes()[p].index);
        let list = g1.passes()[p].resource_request_array@;
        assert(list =~= requested_at(g1.resources(), p, n));
        assert(c.device_passes()[p].resource_request_array@[k].index == list[k]);
        let j = choose|j: int| 0 <= j < n
            && #[trigger] requested_at(g1.resources(), p, n)[k] == g1.resources()[j].index
                && is_requested_at(g1.resources()[j], p);
        assert(j != r);
    }
}

/// After a frame has executed, the next frame starts from a clean board: declaring any name
/// creates a fresh resource at index 0, version 0.
pub proof fn lemma_reset_starts_clean<P, R, ResourceType: TransientResource>(
    g1: FrameGraph<P, R>,
    g2: FrameGraph<P, R>,
    name: Seq<char>,
    desc: AnyDescriptorView,
    h: Handle<ResourceType>,
)
    requires
        g1.is_empty(),
        FrameGraph::got_or_created(g1, g2, name, desc, h),
    ensures
        !g1.board().contains_key(name),
        h.raw.index.index == 0,
        h.raw.version == 0,
        g2.resources().len() == 1,
        g2.board() == Map::<Seq<char>, usize>::empty().insert(name, 0),
{
}

proof fn lemma_request_all_skips<R>(
    state: ExecutionState<R>,
    requests: Seq<ResourceRequese<R>>,
    created: Seq<R>,
    k: int,
    r: usize,
)
    requires
        !state.1.contains_key(r),
        forall|j: int| 0 <= j < requests.len() ==> (#[trigger] requests[j]).index.index != r,
        k <= requests.len(),
    ensures
        !request_all(state, requests, created, k).1.contains_key(r),
    decreases k,
{
    if k > 0 {
        lemma_request_all_skips(state, requests, created, k - 1, r);
        assert(requests[k - 1].index.index != r);
    }
}

proof fn lemma_release_all_skips<R>(state: ExecutionState<R>, releases: Seq<ResourceRelease>, k: int, r: usize)
    requires
        !state.1.contains_key(r),
    ensures
        !release_all(state, releases, k).1.contains_key(r),
    decreases k,
{
    if k > 0 {
        lemma_release_all_skips(state, releases, k - 1, r);
    }
}

/// A resource that no device pass requests is never installed while a plan runs: after every
/// device pass the table of the execution holds nothing for it, so nothing is taken from the
/// pool or created by the device for it.
pub proof fn lemma_run_plan_skips_unrequested<R>(
    state: ExecutionState<R>,
    device_passes: Seq<DevicePass<R>>,
    created: Seq<Seq<R>>,
    n: int,
    r: usize,
)
    requires
        !state.1.contains_key(r),
        n <= device_passes.len(),
        forall|p: int, k: int| 0 <= p < device_passes.len()
            && 0 <= k < device_passes[p].resource_request_array@.len()
            ==> (#[trigger] device_passes[p].resource_request_array@[k]).index.index != r,
    ensures
        !run_plan(state, device_passes, created, n).1.contains_key(r),
    decreases n,
{
    if n > 0 {
        lemma_run_plan_skips_unrequested(state, device_passes, created, n - 1, r);
        let dp = device_passes[n - 1];
        let prev = run_plan(state, device_passes, created, n - 1);
        assert forall|j: int| 0 <= j < dp.resource_request_array@.len()
            implies (#[trigger] dp.resource_request_array@[j]).index.index != r by {
            assert(device_passes[n - 1].resource_request_array@[j].index.index != r);
        }
        lemma_request_all_skips(prev, dp.resource_request_array@, created[n - 1],
            dp.resource_request_array@.len() as int, r);
        lemma_release_all_skips(
            request_all(prev, dp.resource_request_array@, created[n - 1],
                dp.resource_request_array@.len() as int),
            dp.resource_release_array@,
            dp.resource_release_array@.len() as int,
            r,
        );
    }
}

} // verus!
