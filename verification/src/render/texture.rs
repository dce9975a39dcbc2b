//! How world textures and samplers map onto the formats and sampler settings
//! of the wgpu backend.
use vstd::prelude::*;

use crate::world::texture::{channel_bytes, format_channels, Filter, Sampler, TextureFormat, WrappingMode};

verus! {

/// Errors of GPU texture creation.
#[derive(Debug)]
pub enum TextureError {
    /// The world texture's format has no GPU counterpart.
    UnsupportedTextureFormat(TextureFormat),
}

/// The GPU texture formats the wgpu backend uses.
#[derive(Clone, Copy, Debug, PartialEq, Eq, Structural)]
pub enum GpuTextureFormat {
    R8Uint,
    Rg8Uint,
    Rgba8Unorm,
    Bgra8Unorm,
    R16Uint,
    R16Float,
    Rg16Uint,
    Rg16Float,
    Rgba16Uint,
    Rgba16Float,
    R32Uint,
    R32Float,
    Rg32Uint,
    Rg32Float,
    Rgba32Uint,
    Rgba32Float,
    Depth32Float,
}

/// The format of depth textures.
pub const DEPTH_FORMAT: GpuTextureFormat = GpuTextureFormat::Depth32Float;

/// Texel filtering on the GPU.
#[derive(Clone, Copy, Debug, PartialEq, Eq, Structural)]
pub enum FilterMode {
    Nearest,
    Linear,
}

/// Addressing of texture coordinates outside `[0, 1]` on the GPU.
#[derive(Clone, Copy, Debug, PartialEq, Eq, Structural)]
pub enum AddressMode {
    ClampToEdge,
    Repeat,
    MirrorRepeat,
}

/// The sampler settings the backend chooses for a world sampler; the
/// settings not listed keep their defaults.
#[derive(Clone, Copy, Debug, PartialEq, Eq, Structural)]
pub struct SamplerDescriptor {
    pub address_mode_u: AddressMode,
    pub address_mode_v: AddressMode,
    pub address_mode_w: AddressMode,
    pub mag_filter: FilterMode,
    pub min_filter: FilterMode,
    pub mipmap_filter: FilterMode,
}

/// The GPU format of a world texture format, where there is one.
pub open spec fn gpu_format(format: TextureFormat) -> Option<GpuTextureFormat> {
    match format {
        TextureFormat::B8G8R8A8 => Some(GpuTextureFormat::Bgra8Unorm),
        TextureFormat::R16 => Some(GpuTextureFormat::R16Uint),
        TextureFormat::R16F => Some(GpuTextureFormat::R16Float),
        TextureFormat::R16G16 => Some(GpuTextureFormat::Rg16Uint),
        TextureFormat::R16G16B16A16 => Some(GpuTextureFormat::Rgba16Uint),
        TextureFormat::R16G16B16A16F => Some(GpuTextureFormat::Rgba16Float),
        TextureFormat::R16G16F => Some(GpuTextureFormat::Rg16Float),
        TextureFormat::R32 => Some(GpuTextureFormat::R32Uint),
        TextureFormat::R32F => Some(GpuTextureFormat::R32Float),
        TextureFormat::R32G32 => Some(GpuTextureFormat::Rg32Uint),
        TextureFormat::R32G32B32A32 => Some(GpuTextureFormat::Rgba32Uint),
        TextureFormat::R32G32B32A32F => Some(GpuTextureFormat::Rgba32Float),
        TextureFormat::R32G32F => Some(GpuTextureFormat::Rg32Float),
        TextureFormat::R8 => Some(GpuTextureFormat::R8Uint),
        TextureFormat::R8G8 => Some(GpuTextureFormat::Rg8Uint),
        TextureFormat::R8G8B8A8 => Some(GpuTextureFormat::Rgba8Unorm),
        _ => None,
    }
}

/// The channels of a GPU format, in memory order, as its name gives them.
pub open spec fn gpu_channels(format: GpuTextureFormat) -> Seq<char> {
    match format {
        GpuTextureFormat::R8Uint => seq!['R'],
        GpuTextureFormat::Rg8Uint => seq!['R', 'G'],
        GpuTextureFormat::Rgba8Unorm => seq!['R', 'G', 'B', 'A'],
        GpuTextureFormat::Bgra8Unorm => seq!['B', 'G', 'R', 'A'],
        GpuTextureFormat::R16Uint => seq!['R'],
        GpuTextureFormat::R16Float => seq!['R'],
        GpuTextureFormat::Rg16Uint => seq!['R', 'G'],
        GpuTextureFormat::Rg16Float => seq!['R', 'G'],
        GpuTextureFormat::Rgba16Uint => seq!['R', 'G', 'B', 'A'],
        GpuTextureFormat::Rgba16Float => seq!['R', 'G', 'B', 'A'],
        GpuTextureFormat::R32Uint => seq!['R'],
        GpuTextureFormat::R32Float => seq!['R'],
        GpuTextureFormat::Rg32Uint => seq!['R', 'G'],
        GpuTextureFormat::Rg32Float => seq!['R', 'G'],
        GpuTextureFormat::Rgba32Uint => seq!['R', 'G', 'B', 'A'],
        GpuTextureFormat::Rgba32Float => seq!['R', 'G', 'B', 'A'],
        GpuTextureFormat::Depth32Float => seq!['D'],
    }
}

/// The bytes of each channel of a GPU format.
pub open spec fn gpu_channel_bytes(format: GpuTextureFormat) -> nat {
    match format {
        GpuTextureFormat::R8Uint => 1,
        GpuTextureFormat::Rg8Uint => 1,
        GpuTextureFormat::Rgba8Unorm => 1,
        GpuTextureFormat::Bgra8Unorm => 1,
        GpuTextureFormat::R16Uint => 2,
        GpuTextureFormat::R16Float => 2,
        GpuTextureFormat::Rg16Uint => 2,
        GpuTextureFormat::Rg16Float => 2,
        GpuTextureFormat::Rgba16Uint => 2,
        GpuTextureFormat::Rgba16Float => 2,
        GpuTextureFormat::R32Uint => 4,
        GpuTextureFormat::R32Float => 4,
        GpuTextureFormat::Rg32Uint => 4,
        GpuTextureFormat::Rg32Float => 4,
        GpuTextureFormat::Rgba32Uint => 4,
        GpuTextureFormat::Rgba32Float => 4,
        GpuTextureFormat::Depth32Float => 4,
    }
}

/// Whether a GPU format holds floating-point channels.
pub open spec fn gpu_is_float(format: GpuTextureFormat) -> bool {
    match format {
        GpuTextureFormat::R8Uint => false,
        GpuTextureFormat::Rg8Uint => false,
        GpuTextureFormat::Rgba8Unorm => false,
        GpuTextureFormat::Bgra8Unorm => false,
        GpuTextureFormat::R16Uint => false,
        GpuTextureFormat::R16Float => true,
        GpuTextureFormat::Rg16Uint => false,
        GpuTextureFormat::Rg16Float => true,
        GpuTextureFormat::Rgba16Uint => false,
        GpuTextureFormat::Rgba16Float => true,
        GpuTextureFormat::R32Uint => false,
        GpuTextureFormat::R32Float => true,
        GpuTextureFormat::Rg32Uint => false,
        GpuTextureFormat::Rg32Float => true,
        GpuTextureFormat::Rgba32Uint => false,
        GpuTextureFormat::Rgba32Float => true,
        GpuTextureFormat::Depth32Float => true,
    }
}

/// Whether a world texture format holds floating-point channels.
pub open spec fn world_is_float(format: TextureFormat) -> bool {
    match format {
        TextureFormat::R16F | TextureFormat::R16G16F | TextureFormat::R16G16B16F | TextureFormat::R16G16B16A16F
        | TextureFormat::R32F | TextureFormat::R32G32F | TextureFormat::R32G32B32F | TextureFormat::R32G32B32A32F => true,
        _ => false,
    }
}

/// Law: a world format has a GPU format exactly when it does not have
/// three channels, and the GPU format has the same channels in the same
/// order, of the same size, and floating point exactly when it is.
pub proof fn law_gpu_format_keeps_layout(format: TextureFormat)
    ensures
        gpu_format(format) is None <==> format_channels(format).len() == 3,
        gpu_format(format) matches Some(g) ==> gpu_channels(g) == format_channels(format) && gpu_channel_bytes(g)
            == channel_bytes(format) && gpu_is_float(g) == world_is_float(format),
{
}

/// The GPU format of a world texture format; the three-channel formats
/// have none.
pub fn map_texture_format(texture_format: TextureFormat) -> (r: Result<GpuTextureFormat, TextureError>)
    ensures
        gpu_format(texture_format) matches Some(f) ==> (r matches Ok(g) && g == f),
        gpu_format(texture_format) is None ==> (r matches Err(
            TextureError::UnsupportedTextureFormat(f),
        ) && f == texture_format),
        r matches Ok(g) ==> gpu_channels(g) == format_channels(texture_format) && gpu_channel_bytes(g)
            == channel_bytes(texture_format) && gpu_is_float(g) == world_is_float(texture_format),
        r is Err <==> format_channels(texture_format).len() == 3,
{
    proof {
        law_gpu_format_keeps_layout(texture_format);
    }
    match texture_format {
        TextureFormat::B8G8R8A8 => Ok(GpuTextureFormat::Bgra8Unorm),
        TextureFormat::R16 => Ok(GpuTextureFormat::R16Uint),
        TextureFormat::R16F => Ok(GpuTextureFormat::R16Float),
        TextureFormat::R16G16 => Ok(GpuTextureFormat::Rg16Uint),
        TextureFormat::R16G16B16A16 => Ok(GpuTextureFormat::Rgba16Uint),
        TextureFormat::R16G16B16A16F => Ok(GpuTextureFormat::Rgba16Float),
        TextureFormat::R16G16F => Ok(GpuTextureFormat::Rg16Float),
        TextureFormat::R32 => Ok(GpuTextureFormat::R32Uint),
        TextureFormat::R32F => Ok(GpuTextureFormat::R32Float),
        TextureFormat::R32G32 => Ok(GpuTextureFormat::Rg32Uint),
        TextureFormat::R32G32B32A32 => Ok(GpuTextureFormat::Rgba32Uint),
        TextureFormat::R32G32B32A32F => Ok(GpuTextureFormat::Rgba32Float),
        TextureFormat::R32G32F => Ok(GpuTextureFormat::Rg32Float),
        TextureFormat::R8 => Ok(GpuTextureFormat::R8Uint),
        TextureFormat::R8G8 => Ok(GpuTextureFormat::Rg8Uint),
        TextureFormat::R8G8B8A8 => Ok(GpuTextureFormat::Rgba8Unorm),
        format => Err(TextureError::UnsupportedTextureFormat(format)),
    }
}

/// The GPU filter of a world filter.
pub open spec fn gpu_filter(filter: Filter) -> FilterMode {
    match filter {
        Filter::Linear => FilterMode::Linear,
        Filter::Nearest => FilterMode::Nearest,
    }
}

/// The GPU address mode of a world wrapping mode.
pub open spec fn gpu_address_mode(mode: WrappingMode) -> AddressMode {
    match mode {
        WrappingMode::ClampToEdge => AddressMode::ClampToEdge,
        WrappingMode::MirroredRepeat => AddressMode::MirrorRepeat,
        WrappingMode::Repeat => AddressMode::Repeat,
    }
}

/// The texel, along an axis of `size` texels, that texel coordinate `t`
/// reads when the world texture wraps in `mode`: repeating tiles the
/// texture, clamping holds the edge texel, mirrored repeating tiles it and
/// flips every other copy.
pub open spec fn wrapped_texel(mode: WrappingMode, t: int, size: int) -> int {
    match mode {
        WrappingMode::Repeat => t % size,
        WrappingMode::ClampToEdge => if t < 0 {
            0
        } else if t >= size {
            size - 1
        } else {
            t
        },
        WrappingMode::MirroredRepeat => if t % (2 * size) < size {
            t % (2 * size)
        } else {
            2 * size - 1 - t % (2 * size)
        },
    }
}

/// The texel, along an axis of `size` texels, that texel coordinate `t`
/// reads on the GPU with address mode `mode`.
pub open spec fn addressed_texel(mode: AddressMode, t: int, size: int) -> int {
    match mode {
        AddressMode::Repeat => t % size,
        AddressMode::ClampToEdge => if t < 0 {
            0
        } else if t >= size {
            size - 1
        } else {
            t
        },
        AddressMode::MirrorRepeat => if t % (2 * size) < size {
            t % (2 * size)
        } else {
            2 * size - 1 - t % (2 * size)
        },
    }
}

/// Whether a world filter blends neighbouring texels.
pub open spec fn blends_texels(filter: Filter) -> bool {
    filter == Filter::Linear
}

/// Whether a GPU filter blends neighbouring texels.
pub open spec fn gpu_blends_texels(filter: FilterMode) -> bool {
    filter == FilterMode::Linear
}

/// Law: the GPU samples every texture coordinate, along an axis of any
/// size, at the texel the world texture's wrapping mode names; and it
/// blends texels exactly when the world filter does.
pub proof fn law_sampler_keeps_meaning(mode: WrappingMode, filter: Filter, t: int, size: int)
    requires
        size > 0,
    ensures
        addressed_texel(gpu_address_mode(mode), t, size) == wrapped_texel(mode, t, size),
        gpu_blends_texels(gpu_filter(filter)) == blends_texels(filter),
{
}

fn map_filter(filter: Filter) -> (r: FilterMode)
    ensures
        r == gpu_filter(filter),
{
    match filter {
        Filter::Linear => FilterMode::Linear,
        Filter::Nearest => FilterMode::Nearest,
    }
}

fn map_wrapping_mode(mode: WrappingMode) -> (r: AddressMode)
    ensures
        r == gpu_address_mode(mode),
{
    match mode {
        WrappingMode::ClampToEdge => AddressMode::ClampToEdge,
        WrappingMode::MirroredRepeat => AddressMode::MirrorRepeat,
        WrappingMode::Repeat => AddressMode::Repeat,
    }
}

/// The GPU sampler settings for a world sampler: the minification filter
/// also serves for mipmaps, and the third axis always repeats.
pub fn map_sampler(sampler: &Sampler) -> (r: SamplerDescriptor)
    ensures
        r == (SamplerDescriptor {
            address_mode_u: gpu_address_mode(sampler.wrap_s),
            address_mode_v: gpu_address_mode(sampler.wrap_t),
            address_mode_w: AddressMode::Repeat,
            mag_filter: gpu_filter(sampler.mag_filter),
            min_filter: gpu_filter(sampler.min_filter),
            mipmap_filter: gpu_filter(sampler.min_filter),
        }),
        forall|t: int, size: int|
            size > 0 ==> #[trigger] addressed_texel(r.address_mode_u, t, size) == wrapped_texel(sampler.wrap_s, t, size)
                && addressed_texel(r.address_mode_v, t, size) == wrapped_texel(sampler.wrap_t, t, size),
        sampler.wrap_s == WrappingMode::Repeat ==> r.address_mode_u == AddressMode::Repeat,
        sampler.wrap_t == WrappingMode::Repeat ==> r.address_mode_v == AddressMode::Repeat,
        gpu_blends_texels(r.min_filter) == blends_texels(sampler.min_filter),
        gpu_blends_texels(r.mag_filter) == blends_texels(sampler.mag_filter),
{
    let min_filter = map_filter(sampler.min_filter);
    let mipmap_filter = map_filter(sampler.min_filter);
    let mag_filter = map_filter(sampler.mag_filter);
    let address_mode_u = map_wrapping_mode(sampler.wrap_s);
    let address_mode_v = map_wrapping_mode(sampler.wrap_t);
    let address_mode_w = AddressMode::Repeat;
    proof {
        assert forall|t: int, size: int| size > 0 implies #[trigger] addressed_texel(address_mode_u, t, size)
            == wrapped_texel(sampler.wrap_s, t, size) && addressed_texel(address_mode_v, t, size) == wrapped_texel(
            sampler.wrap_t,
            t,
            size,
        ) by {
            law_sampler_keeps_meaning(sampler.wrap_s, sampler.min_filter, t, size);
            law_sampler_keeps_meaning(sampler.wrap_t, sampler.mag_filter, t, size);
        }
        law_sampler_keeps_meaning(sampler.wrap_s, sampler.mag_filter, 0, 1);
    }
    SamplerDescriptor {
        address_mode_u,
        address_mode_v,
        address_mode_w,
        mag_filter,
        min_filter,
        mipmap_filter,
    }
}

} // verus!
