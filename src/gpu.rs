use vstd::prelude::*;

verus! {

// The wgpu values that descriptors carry. Verus sees them as opaque values; what the
// frame graph needs of them is whether two are equal, which the wrappers below give.

#[verifier::external_type_specification]
#[verifier::external_body]
pub struct ExBufferUsages(wgpu::BufferUsages);

#[verifier::external_type_specification]
#[verifier::external_body]
pub struct ExTextureUsages(wgpu::TextureUsages);

#[verifier::external_type_specification]
#[verifier::external_body]
pub struct ExTextureFormat(wgpu::TextureFormat);

#[verifier::external_type_specification]
#[verifier::external_body]
pub struct ExTextureDimension(wgpu::TextureDimension);

#[verifier::external_type_specification]
#[verifier::external_body]
pub struct ExExtent3d(wgpu::Extent3d);

#[verifier::external_type_specification]
#[verifier::external_body]
pub struct ExBuffer(wgpu::Buffer);

#[verifier::external_type_specification]
#[verifier::external_body]
pub struct ExTexture(wgpu::Texture);

/// Relies on the derived `PartialEq` of `wgpu::BufferUsages` (a bit set compared by its bits).
#[verifier::external_body]
pub(crate) fn buffer_usages_eq(a: &wgpu::BufferUsages, b: &wgpu::BufferUsages) -> (r: bool)
    ensures
        r == (*a == *b),
{
    *a == *b
}

/// Relies on the derived `PartialEq` of `wgpu::TextureUsages` (a bit set compared by its bits).
#[verifier::external_body]
pub(crate) fn texture_usages_eq(a: &wgpu::TextureUsages, b: &wgpu::TextureUsages) -> (r: bool)
    ensures
        r == (*a == *b),
{
    *a == *b
}

/// Relies on the derived `PartialEq` of `wgpu::TextureFormat` (variant and fields).
#[verifier::external_body]
pub(crate) fn texture_format_eq(a: &wgpu::TextureFormat, b: &wgpu::TextureFormat) -> (r: bool)
    ensures
        r == (*a == *b),
{
    *a == *b
}

/// Relies on the derived `PartialEq` of `wgpu::TextureDimension` (a field-less enum).
#[verifier::external_body]
pub(crate) fn texture_dimension_eq(
    a: &wgpu::TextureDimension,
    b: &wgpu::TextureDimension,
) -> (r: bool)
    ensures
        r == (*a == *b),
{
    *a == *b
}

/// Relies on the derived `PartialEq` of `wgpu::Extent3d` (its three `u32` fields).
#[verifier::external_body]
pub(crate) fn extent_eq(a: &wgpu::Extent3d, b: &wgpu::Extent3d) -> (r: bool)
    ensures
        r == (*a == *b),
{
    *a == *b
}

/// Relies on `wgpu::COPY_BUFFER_ALIGNMENT`, which wgpu defines as 4.
#[verifier::external_body]
pub(crate) fn copy_buffer_alignment() -> (r: u64)
    ensures
        r == 4,
{
    wgpu::COPY_BUFFER_ALIGNMENT
}

} // verus!
