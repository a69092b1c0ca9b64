use vstd::prelude::*;

use std::sync::Arc;

use crate::gpu::{
    buffer_usages_eq, copy_buffer_alignment, extent_eq, texture_dimension_eq, texture_format_eq,
    texture_usages_eq,
};

verus! {

/// Copies an optional label, character for character.
pub fn copy_label(label: &Option<String>) -> (r: Option<String>)
    ensures
        r == *label,
{
    match label {
        Some(s) => Some(s.clone()),
        None => None,
    }
}

/// Copies a list of texture formats, element for element.
pub fn copy_formats(formats: &Vec<wgpu::TextureFormat>) -> (r: Vec<wgpu::TextureFormat>)
    ensures
        r@ == formats@,
{
    let mut r: Vec<wgpu::TextureFormat> = Vec::new();
    let mut i: usize = 0;
    while i < formats.len()
        invariant
            i <= formats@.len(),
            r@ == formats@.subrange(0, i as int),
        decreases formats@.len() - i,
    {
        r.push(formats[i]);
        i = i + 1;
        assert(r@ =~= formats@.subrange(0, i as int));
    }
    assert(r@ =~= formats@);
    r
}

/// Compares two lists of texture formats element by element.
pub fn formats_eq(a: &Vec<wgpu::TextureFormat>, b: &Vec<wgpu::TextureFormat>) -> (r: bool)
    ensures
        r == (a@ == b@),
{
    if a.len() != b.len() {
        return false;
    }
    let mut i: usize = 0;
    while i < a.len()
        invariant
            i <= a@.len(),
            a@.len() == b@.len(),
            forall|j: int| 0 <= j < i ==> a@[j] == b@[j],
        decreases a@.len() - i,
    {
        if !texture_format_eq(&a[i], &b[i]) {
            return false;
        }
        i = i + 1;
    }
    assert(a@ =~= b@);
    true
}

/// The size a buffer gets when it is created from `len` bytes of initial contents:
/// zero for no contents, else the length rounded up to a multiple of the copy alignment (4).
pub open spec fn padded_size(len: nat) -> nat {
    if len == 0 {
        0
    } else if len % 4 == 0 {
        len
    } else {
        (len + (4 - len % 4)) as nat
    }
}

/// What a buffer is created from when it starts out filled with `contents`.
pub struct BufferInitDescriptor<'a> {
    pub label: Option<String>,
    pub usage: wgpu::BufferUsages,
    pub contents: &'a [u8],
}

/// The creation parameters of a pooled buffer.
pub struct TransientBufferDescriptor {
    pub label: Option<String>,
    pub size: u64,
    pub usage: wgpu::BufferUsages,
    pub mapped_at_creation: bool,
}

impl TransientBufferDescriptor {
    /// Two buffer descriptors are interchangeable for pooling when everything but the label agrees.
    pub open spec fn same_key(self, other: Self) -> bool {
        &&& self.size == other.size
        &&& self.usage == other.usage
        &&& self.mapped_at_creation == other.mapped_at_creation
    }

    pub fn key_eq(&self, other: &Self) -> (r: bool)
        ensures
            r == self.same_key(*other),
    {
        self.size == other.size && buffer_usages_eq(&self.usage, &other.usage)
            && self.mapped_at_creation == other.mapped_at_creation
    }

    pub fn from_buffer_init_desc(desc: &BufferInitDescriptor) -> (r: Self)
        requires
            desc.contents@.len() + 3 <= u64::MAX,
        ensures
            r.label == desc.label,
            r.size == padded_size(desc.contents@.len()),
            r.usage == desc.usage,
            !r.mapped_at_creation,
    {
        let label = copy_label(&desc.label);
        if desc.contents.len() == 0 {
            TransientBufferDescriptor { label, size: 0, usage: desc.usage,
                mapped_at_creation: false }
        } else {
            let unpadded_size = desc.contents.len() as u64;
            let align = copy_buffer_alignment();
            let align_mask = align - 1;
            let unrounded = unpadded_size + align_mask;
            let rounded = unrounded & !align_mask;
            assert(rounded == unrounded - unrounded % 4) by (bit_vector)
                requires
                    rounded == unrounded & !align_mask,
                    align_mask == 3u64,
            ;
            let padded_size = if rounded > align {
                rounded
            } else {
                align
            };
            TransientBufferDescriptor {
                label,
                size: padded_size,
                usage: desc.usage,
                mapped_at_creation: false,
            }
        }
    }
}

impl Clone for TransientBufferDescriptor {
    fn clone(&self) -> (r: Self)
        ensures
            r == *self,
    {
        TransientBufferDescriptor {
            label: copy_label(&self.label),
            size: self.size,
            usage: self.usage,
            mapped_at_creation: self.mapped_at_creation,
        }
    }
}

/// The creation parameters of a pooled texture.
pub struct TextureInfo {
    pub label: Option<String>,
    pub size: wgpu::Extent3d,
    pub mip_level_count: u32,
    pub sample_count: u32,
    pub dimension: wgpu::TextureDimension,
    pub format: wgpu::TextureFormat,
    pub usage: wgpu::TextureUsages,
    pub view_formats: Vec<wgpu::TextureFormat>,
}

/// A texture descriptor as a value: its list of view formats as a sequence.
pub struct TextureInfoView {
    pub label: Option<String>,
    pub size: wgpu::Extent3d,
    pub mip_level_count: u32,
    pub sample_count: u32,
    pub dimension: wgpu::TextureDimension,
    pub format: wgpu::TextureFormat,
    pub usage: wgpu::TextureUsages,
    pub view_formats: Seq<wgpu::TextureFormat>,
}

impl TextureInfoView {
    /// Two texture descriptors are interchangeable for pooling when everything but the label agrees.
    pub open spec fn same_key(self, other: Self) -> bool {
        &&& self.size == other.size
        &&& self.mip_level_count == other.mip_level_count
        &&& self.sample_count == other.sample_count
        &&& self.dimension == other.dimension
        &&& self.format == other.format
        &&& self.usage == other.usage
        &&& self.view_formats == other.view_formats
    }
}

impl View for TextureInfo {
    type V = TextureInfoView;

    open spec fn view(&self) -> TextureInfoView {
        TextureInfoView {
            label: self.label,
            size: self.size,
            mip_level_count: self.mip_level_count,
            sample_count: self.sample_count,
            dimension: self.dimension,
            format: self.format,
            usage: self.usage,
            view_formats: self.view_formats@,
        }
    }
}

impl TextureInfo {
    pub open spec fn same_key(self, other: Self) -> bool {
        self@.same_key(other@)
    }

    pub fn key_eq(&self, other: &Self) -> (r: bool)
        ensures
            r == self.same_key(*other),
    {
        extent_eq(&self.size, &other.size) && self.mip_level_count == other.mip_level_count
            && self.sample_count == other.sample_count && texture_dimension_eq(
            &self.dimension,
            &other.dimension,
        ) && texture_format_eq(&self.format, &other.format) && texture_usages_eq(
            &self.usage,
            &other.usage,
        ) && formats_eq(&self.view_formats, &other.view_formats)
    }
}

impl Clone for TextureInfo {
    fn clone(&self) -> (r: Self)
        ensures
            r@ == self@,
    {
        TextureInfo {
            label: copy_label(&self.label),
            size: self.size,
            mip_level_count: self.mip_level_count,
            sample_count: self.sample_count,
            dimension: self.dimension,
            format: self.format,
            usage: self.usage,
            view_formats: copy_formats(&self.view_formats),
        }
    }
}

/// The descriptor of any resource the graph can pool: the key of the transient resource cache.
pub enum AnyTransientResourceDescriptor {
    Buffer(TransientBufferDescriptor),
    Texture(TextureInfo),
}

/// A descriptor of any kind, as a value.
pub enum AnyDescriptorView {
    Buffer(TransientBufferDescriptor),
    Texture(TextureInfoView),
}

impl AnyDescriptorView {
    /// Descriptors of the same kind whose creation parameters agree (labels aside).
    pub open spec fn same_key(self, other: Self) -> bool {
        match (self, other) {
            (AnyDescriptorView::Buffer(a), AnyDescriptorView::Buffer(b)) => a.same_key(b),
            (AnyDescriptorView::Texture(a), AnyDescriptorView::Texture(b)) => a.same_key(b),
            _ => false,
        }
    }
}

impl View for AnyTransientResourceDescriptor {
    type V = AnyDescriptorView;

    open spec fn view(&self) -> AnyDescriptorView {
        match self {
            AnyTransientResourceDescriptor::Buffer(b) => AnyDescriptorView::Buffer(*b),
            AnyTransientResourceDescriptor::Texture(t) => AnyDescriptorView::Texture(t@),
        }
    }
}

impl AnyTransientResourceDescriptor {
    pub fn key_eq(&self, other: &Self) -> (r: bool)
        ensures
            r == self@.same_key(other@),
    {
        match (self, other) {
            (
                AnyTransientResourceDescriptor::Buffer(a),
                AnyTransientResourceDescriptor::Buffer(b),
            ) => a.key_eq(b),
            (
                AnyTransientResourceDescriptor::Texture(a),
                AnyTransientResourceDescriptor::Texture(b),
            ) => a.key_eq(b),
            _ => false,
        }
    }
}

impl Clone for AnyTransientResourceDescriptor {
    fn clone(&self) -> (r: Self)
        ensures
            r@ == self@,
    {
        match self {
            AnyTransientResourceDescriptor::Buffer(b) => AnyTransientResourceDescriptor::Buffer(
                b.clone(),
            ),
            AnyTransientResourceDescriptor::Texture(t) => AnyTransientResourceDescriptor::Texture(
                t.clone(),
            ),
        }
    }
}

/// A kind of resource the graph schedules; `Descriptor` is what it is created from.
pub trait TransientResource: Sized {
    type Descriptor;

    /// A descriptor of this kind seen as a descriptor of any kind.
    spec fn wrap_desc(desc: Self::Descriptor) -> AnyDescriptorView;

    fn duplicate_desc(desc: &Self::Descriptor) -> (r: Self::Descriptor)
        ensures
            Self::wrap_desc(r) == Self::wrap_desc(*desc),
    ;

    /// A copy of the descriptor of this kind inside `any`, if `any` is of this kind.
    fn borrow_resource_descriptor(any: &AnyTransientResourceDescriptor) -> (r: Option<
        Self::Descriptor,
    >)
        ensures
            r matches Some(d) ==> Self::wrap_desc(d) == any@,
            r is None ==> forall|d: Self::Descriptor| #[trigger] Self::wrap_desc(d) != any@,
    ;
}

/// A descriptor of one kind of resource.
pub trait TransientResourceDescriptor: Sized {
    type Resource: TransientResource<Descriptor = Self>;

    fn into_any(self) -> (r: AnyTransientResourceDescriptor)
        ensures
            r@ == Self::Resource::wrap_desc(self),
    ;
}

/// Lets a generic bound name a type equal to `Self`.
pub trait TypeEquals: Sized {
    type Other;

    fn same(value: Self) -> Self::Other;
}

impl<T> TypeEquals for T {
    type Other = T;

    fn same(value: Self) -> Self::Other {
        value
    }
}

/// A buffer the graph created or was handed, with what it was created from.
pub struct TransientBuffer {
    pub resource: wgpu::Buffer,
    pub desc: TransientBufferDescriptor,
}

/// A texture the graph created or was handed, with what it was created from.
pub struct TransientTexture {
    pub resource: wgpu::Texture,
    pub desc: TextureInfo,
}

impl TransientResource for TransientBuffer {
    type Descriptor = TransientBufferDescriptor;

    open spec fn wrap_desc(desc: TransientBufferDescriptor) -> AnyDescriptorView {
        AnyDescriptorView::Buffer(desc)
    }

    fn duplicate_desc(desc: &TransientBufferDescriptor) -> (r: TransientBufferDescriptor) {
        desc.clone()
    }

    fn borrow_resource_descriptor(any: &AnyTransientResourceDescriptor) -> (r: Option<
        TransientBufferDescriptor,
    >) {
        match any {
            AnyTransientResourceDescriptor::Buffer(b) => Some(b.clone()),
            AnyTransientResourceDescriptor::Texture(_) => None,
        }
    }
}

impl TransientResource for TransientTexture {
    type Descriptor = TextureInfo;

    open spec fn wrap_desc(desc: TextureInfo) -> AnyDescriptorView {
        AnyDescriptorView::Texture(desc@)
    }

    fn duplicate_desc(desc: &TextureInfo) -> (r: TextureInfo) {
        desc.clone()
    }

    fn borrow_resource_descriptor(any: &AnyTransientResourceDescriptor)
        -> (r: Option<TextureInfo>) {
        match any {
            AnyTransientResourceDescriptor::Texture(t) => Some(t.clone()),
            AnyTransientResourceDescriptor::Buffer(_) => None,
        }
    }
}

impl TransientResourceDescriptor for TransientBufferDescriptor {
    type Resource = TransientBuffer;

    fn into_any(self) -> (r: AnyTransientResourceDescriptor) {
        AnyTransientResourceDescriptor::Buffer(self)
    }
}

impl TransientResourceDescriptor for TextureInfo {
    type Resource = TransientTexture;

    fn into_any(self) -> (r: AnyTransientResourceDescriptor) {
        AnyTransientResourceDescriptor::Texture(self)
    }
}

/// A resource shared with the graph from outside it.
#[derive(Clone)]
pub enum ArcTransientResource {
    Buffer(Arc<TransientBuffer>),
    Texture(Arc<TransientTexture>),
}

impl ArcTransientResource {
    pub fn get_desc(&self) -> (r: AnyTransientResourceDescriptor)
        ensures
            r@ == (match self {
                ArcTransientResource::Buffer(b) => AnyDescriptorView::Buffer(b.desc),
                ArcTransientResource::Texture(t) => AnyDescriptorView::Texture(t.desc@),
            }),
    {
        match self {
            ArcTransientResource::Buffer(b) => AnyTransientResourceDescriptor::Buffer(
                b.desc.clone(),
            ),
            ArcTransientResource::Texture(t) => AnyTransientResourceDescriptor::Texture(
                t.desc.clone(),
            ),
        }
    }
}

} // verus!
