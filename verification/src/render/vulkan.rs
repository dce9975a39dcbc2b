//! Image descriptions and mipmap generation for the Vulkan backend.
//!
//! Image formats are Vulkan `VkFormat` values.
use vstd::prelude::*;

use crate::world::texture::{ImageKind, kind_channel_bytes, kind_channels, rgb_to_rgba, rgb_fits, rgba_expansion};

verus! {

/// `VK_FORMAT_R8G8B8_UNORM`.
pub const FORMAT_R8G8B8_UNORM: i32 = 23;
/// `VK_FORMAT_B8G8R8_UNORM`.
pub const FORMAT_B8G8R8_UNORM: i32 = 30;
/// `VK_FORMAT_R8G8B8A8_UNORM`.
pub const FORMAT_R8G8B8A8_UNORM: i32 = 37;
/// `VK_FORMAT_B8G8R8A8_UNORM`.
pub const FORMAT_B8G8R8A8_UNORM: i32 = 44;
/// `VK_FORMAT_R16G16B16_UNORM`.
pub const FORMAT_R16G16B16_UNORM: i32 = 84;
/// `VK_FORMAT_R16G16B16A16_UNORM`.
pub const FORMAT_R16G16B16A16_UNORM: i32 = 91;
/// `VK_FORMAT_R32G32B32_SFLOAT`.
pub const FORMAT_R32G32B32_SFLOAT: i32 = 106;
/// `VK_FORMAT_R32G32B32A32_SFLOAT`.
pub const FORMAT_R32G32B32A32_SFLOAT: i32 = 109;

/// Errors of image description construction.
#[derive(Debug)]
pub enum ImageError {
    /// The image kind has no Vulkan format.
    UnsupportedImageFormat,
    /// The pixels are too few for the image's dimensions.
    LoadRawPixels,
}

/// An image to be created on the GPU: its format, size, pixels and number
/// of mip levels.
#[derive(Debug)]
pub struct ImageDescription {
    pub format: i32,
    pub width: u32,
    pub height: u32,
    pub pixels: Vec<u8>,
    pub mip_levels: u32,
}

/// The Vulkan format of a decoded image of this kind, where there is one.
pub open spec fn vulkan_format(kind: ImageKind) -> Option<i32> {
    match kind {
        ImageKind::Rgb8 => Some(FORMAT_R8G8B8_UNORM),
        ImageKind::Rgba8 => Some(FORMAT_R8G8B8A8_UNORM),
        ImageKind::Rgb16 => Some(FORMAT_R16G16B16_UNORM),
        ImageKind::Rgba16 => Some(FORMAT_R16G16B16A16_UNORM),
        ImageKind::Rgb32F => Some(FORMAT_R32G32B32_SFLOAT),
        ImageKind::Rgba32F => Some(FORMAT_R32G32B32A32_SFLOAT),
        _ => None,
    }
}

/// The four-channel format replacing a three-channel 8-bit format; `None`
/// for the formats that are kept.
pub open spec fn vulkan_alpha_format(format: i32) -> Option<i32> {
    if format == FORMAT_R8G8B8_UNORM {
        Some(FORMAT_R8G8B8A8_UNORM)
    } else if format == FORMAT_B8G8R8_UNORM {
        Some(FORMAT_B8G8R8A8_UNORM)
    } else {
        None
    }
}

/// The channels of a Vulkan format, in memory order, as its name gives
/// them; none for a format not used here.
pub open spec fn vk_channels(format: i32) -> Seq<char> {
    if format == FORMAT_R8G8B8_UNORM {
        seq!['R', 'G', 'B']
    } else if format == FORMAT_B8G8R8_UNORM {
        seq!['B', 'G', 'R']
    } else if format == FORMAT_R8G8B8A8_UNORM {
        seq!['R', 'G', 'B', 'A']
    } else if format == FORMAT_B8G8R8A8_UNORM {
        seq!['B', 'G', 'R', 'A']
    } else if format == FORMAT_R16G16B16_UNORM {
        seq!['R', 'G', 'B']
    } else if format == FORMAT_R16G16B16A16_UNORM {
        seq!['R', 'G', 'B', 'A']
    } else if format == FORMAT_R32G32B32_SFLOAT {
        seq!['R', 'G', 'B']
    } else if format == FORMAT_R32G32B32A32_SFLOAT {
        seq!['R', 'G', 'B', 'A']
    } else {
        Seq::empty()
    }
}

/// The bytes of each channel of a Vulkan format, as its name gives them.
pub open spec fn vk_channel_bytes(format: i32) -> nat {
    if format == FORMAT_R8G8B8_UNORM {
        1
    } else if format == FORMAT_B8G8R8_UNORM {
        1
    } else if format == FORMAT_R8G8B8A8_UNORM {
        1
    } else if format == FORMAT_B8G8R8A8_UNORM {
        1
    } else if format == FORMAT_R16G16B16_UNORM {
        2
    } else if format == FORMAT_R16G16B16A16_UNORM {
        2
    } else if format == FORMAT_R32G32B32_SFLOAT {
        4
    } else if format == FORMAT_R32G32B32A32_SFLOAT {
        4
    } else {
        0
    }
}

/// Law: an image kind has a Vulkan format exactly when its pixels have
/// colour channels, and that format has the image's channels, in the same
/// order and of the same size.
pub proof fn law_vulkan_format_of_image(kind: ImageKind)
    ensures
        vulkan_format(kind) is None <==> (kind_channels(kind).len() == 0 || kind_channels(kind)[0] == 'L'),
        vulkan_format(kind) matches Some(format) ==> vk_channels(format) == kind_channels(kind)
            && vk_channel_bytes(format) == kind_channel_bytes(kind),
{
}

/// Law: exactly the formats of three 8-bit channels get an alpha channel,
/// and the format they get has the same channels in the same order,
/// followed by alpha, still of 8 bits.
pub proof fn law_vulkan_alpha_format(format: i32)
    ensures
        vulkan_alpha_format(format) is Some <==> (vk_channels(format).len() == 3 && vk_channel_bytes(format) == 1),
        vulkan_alpha_format(format) matches Some(with_alpha) ==> vk_channels(with_alpha) == vk_channels(
            format,
        ).push('A') && vk_channel_bytes(with_alpha) == 1,
{
    assert(seq!['R', 'G', 'B'].push('A') =~= seq!['R', 'G', 'B', 'A']);
    assert(seq!['B', 'G', 'R'].push('A') =~= seq!['B', 'G', 'R', 'A']);
}

impl ImageDescription {
    /// A description of an image without pixels.
    pub fn empty(width: u32, height: u32, format: i32, mip_levels: u32) -> (r: Self)
        ensures
            r.format == format,
            r.width == width,
            r.height == height,
            r.pixels@ == Seq::<u8>::empty(),
            r.mip_levels == mip_levels,
    {
        ImageDescription { format, width, height, pixels: Vec::new(), mip_levels }
    }

    /// A description of a decoded image. Kinds without a Vulkan format are
    /// refused; three-channel 8-bit pixels get an opaque alpha channel and
    /// the matching four-channel format, which fails when they are fewer
    /// than `width * height`.
    pub fn from_image(image: ImageKind, width: u32, height: u32, pixels: Vec<u8>, mip_levels: u32) -> (r: Result<Self, ImageError>)
        ensures
            image == ImageKind::Rgba8 ==> (r matches Ok(d) && d.format == FORMAT_R8G8B8A8_UNORM && d.pixels@
                == pixels@),
            image == ImageKind::Rgba16 ==> (r matches Ok(d) && d.format == FORMAT_R16G16B16A16_UNORM
                && d.pixels@ == pixels@),
            image == ImageKind::Rgb16 ==> (r matches Ok(d) && d.format == FORMAT_R16G16B16_UNORM && d.pixels@
                == pixels@),
            image == ImageKind::Rgb32F ==> (r matches Ok(d) && d.format == FORMAT_R32G32B32_SFLOAT
                && d.pixels@ == pixels@),
            image == ImageKind::Rgba32F ==> (r matches Ok(d) && d.format == FORMAT_R32G32B32A32_SFLOAT
                && d.pixels@ == pixels@),
            image == ImageKind::Rgb8 && rgb_fits(width, height, pixels@.len()) ==> (r matches Ok(d) && d.format
                == FORMAT_R8G8B8A8_UNORM && d.pixels@ == rgba_expansion(pixels@, width as nat * height as nat)),
            r matches Ok(d) ==> vk_channel_bytes(d.format) == kind_channel_bytes(image) && (vk_channels(d.format)
                == kind_channels(image) || vk_channels(d.format) == kind_channels(image).push('A')),
            vulkan_format(image) is None ==> r matches Err(ImageError::UnsupportedImageFormat),
            vulkan_format(image) is Some && vulkan_alpha_format(vulkan_format(image).unwrap()) is None ==> (r matches Ok(
                d,
            ) && d.format == vulkan_format(image).unwrap() && d.width == width && d.height == height && d.pixels@ == pixels@
                && d.mip_levels == mip_levels),
            vulkan_format(image) is Some && vulkan_alpha_format(vulkan_format(image).unwrap()) is Some && !rgb_fits(
                width,
                height,
                pixels@.len(),
            ) ==> r matches Err(ImageError::LoadRawPixels),
            vulkan_format(image) is Some && vulkan_alpha_format(vulkan_format(image).unwrap()) is Some && rgb_fits(
                width,
                height,
                pixels@.len(),
            ) ==> (r matches Ok(d) && d.format == vulkan_alpha_format(vulkan_format(image).unwrap()).unwrap() && d.width == width
                && d.height == height && d.pixels@ == rgba_expansion(
                pixels@,
                width as nat * height as nat,
            ) && d.mip_levels == mip_levels),
    {
        let format = match image {
            ImageKind::Rgb8 => FORMAT_R8G8B8_UNORM,
            ImageKind::Rgba8 => FORMAT_R8G8B8A8_UNORM,
            ImageKind::Rgb16 => FORMAT_R16G16B16_UNORM,
            ImageKind::Rgba16 => FORMAT_R16G16B16A16_UNORM,
            ImageKind::Rgb32F => FORMAT_R32G32B32_SFLOAT,
            ImageKind::Rgba32F => FORMAT_R32G32B32A32_SFLOAT,
            _ => return Err(ImageError::UnsupportedImageFormat),
        };
        proof {
            law_vulkan_format_of_image(image);
            law_vulkan_alpha_format(format);
        }
        let mut description = ImageDescription { format, width, height, pixels, mip_levels };
        match description.convert_24bit_formats() {
            Ok(()) => Ok(description),
            Err(e) => Err(e),
        }
    }

    /// Gives an image in a three-channel 8-bit format an alpha channel.
    fn convert_24bit_formats(&mut self) -> (r: Result<(), ImageError>)
        ensures
            final(self).width == old(self).width,
            final(self).height == old(self).height,
            final(self).mip_levels == old(self).mip_levels,
            vulkan_alpha_format(old(self).format) is None ==> (r is Ok && final(self).pixels@ == old(
                self,
            ).pixels@ && final(self).format == old(self).format),
            vulkan_alpha_format(old(self).format) is Some && !rgb_fits(
                old(self).width,
                old(self).height,
                old(self).pixels@.len(),
            ) ==> r matches Err(ImageError::LoadRawPixels),
            vulkan_alpha_format(old(self).format) is Some && rgb_fits(
                old(self).width,
                old(self).height,
                old(self).pixels@.len(),
            ) ==> (r is Ok && final(self).pixels@ == rgba_expansion(
                old(self).pixels@,
                old(self).width as nat * old(self).height as nat,
            ) && final(self).format == vulkan_alpha_format(old(self).format).unwrap()),
    {
        let format = if self.format == FORMAT_R8G8B8_UNORM {
            FORMAT_R8G8B8A8_UNORM
        } else if self.format == FORMAT_B8G8R8_UNORM {
            FORMAT_B8G8R8A8_UNORM
        } else {
            return Ok(());
        };
        self.format = format;
        self.attach_alpha_channel()
    }

    /// Appends an opaque alpha byte to every three-byte pixel.
    fn attach_alpha_channel(&mut self) -> (r: Result<(), ImageError>)
        ensures
            final(self).width == old(self).width,
            final(self).height == old(self).height,
            final(self).format == old(self).format,
            final(self).mip_levels == old(self).mip_levels,
            !rgb_fits(old(self).width, old(self).height, old(self).pixels@.len()) ==> r matches Err(
                ImageError::LoadRawPixels,
            ),
            rgb_fits(old(self).width, old(self).height, old(self).pixels@.len()) ==> (r is Ok
                && final(self).pixels@ == rgba_expansion(
                old(self).pixels@,
                old(self).width as nat * old(self).height as nat,
            )),
    {
        match rgb_to_rgba(self.width, self.height, &self.pixels) {
            Some(rgba) => {
                self.pixels = rgba;
                Ok(())
            },
            None => Err(ImageError::LoadRawPixels),
        }
    }
}

/// A 3D offset into an image, in texels.
#[derive(Clone, Copy, Debug, PartialEq, Eq, Structural)]
pub struct Offset3D {
    pub x: i32,
    pub y: i32,
    pub z: i32,
}

/// The extent of one mip level and of the level derived from it by a blit.
#[derive(Clone, Copy, Debug, PartialEq, Eq, Structural)]
pub struct MipmapBlitDimensions {
    pub width: i32,
    pub height: i32,
    pub next_width: i32,
    pub next_height: i32,
}

/// The size of the next mip level along one axis: half the size, rounded
/// towards zero, but never less than one.
pub open spec fn next_mip_extent(extent: int) -> int {
    if extent >= 2 {
        extent / 2
    } else {
        1
    }
}

/// The size along one axis after `levels` halvings of `extent`.
pub open spec fn mip_extent(extent: int, levels: nat) -> int
    decreases levels,
{
    if levels == 0 {
        extent
    } else {
        next_mip_extent(mip_extent(extent, (levels - 1) as nat))
    }
}

/// The blit that derives mip level `level + 1` from level `level` of a
/// `width` x `height` image.
pub open spec fn mip_blit(width: int, height: int, level: nat) -> MipmapBlitDimensions {
    MipmapBlitDimensions {
        width: mip_extent(width, level) as i32,
        height: mip_extent(height, level) as i32,
        next_width: mip_extent(width, level + 1) as i32,
        next_height: mip_extent(height, level + 1) as i32,
    }
}

impl MipmapBlitDimensions {
    /// Dimensions for blitting a `width` x `height` level into the next level.
    pub fn new(width: i32, height: i32) -> (dims: Self)
        ensures
            dims.width == width,
            dims.height == height,
            dims.next_width == next_mip_extent(width as int),
            dims.next_height == next_mip_extent(height as int),
    {
        let next_width = if width >= 2 {
            width / 2
        } else {
            1
        };
        let next_height = if height >= 2 {
            height / 2
        } else {
            1
        };
        MipmapBlitDimensions { width, height, next_width, next_height }
    }

    /// The source region of the blit: from the origin to the corner of the
    /// current level.
    pub fn src_offsets(&self) -> (r: [Offset3D; 2])
        ensures
            r@ == seq![Offset3D { x: 0, y: 0, z: 0 }, Offset3D { x: self.width, y: self.height, z: 1 }],
    {
        [Offset3D { x: 0, y: 0, z: 0 }, Offset3D { x: self.width, y: self.height, z: 1 }]
    }

    /// The destination region of the blit: from the origin to the corner of
    /// the next level.
    pub fn dst_offsets(&self) -> (r: [Offset3D; 2])
        ensures
            r@ == seq![
                Offset3D { x: 0, y: 0, z: 0 },
                Offset3D { x: self.next_width, y: self.next_height, z: 1 },
            ],
    {
        [
            Offset3D { x: 0, y: 0, z: 0 },
            Offset3D { x: self.next_width, y: self.next_height, z: 1 },
        ]
    }
}

/// Law: every blit shrinks an extent of at least two to at most half of it,
/// and never produces an extent below one.
pub proof fn law_next_mip_extent(extent: int)
    ensures
        next_mip_extent(extent) >= 1,
        extent >= 2 ==> 2 * next_mip_extent(extent) <= extent,
        extent >= 1 ==> next_mip_extent(extent) <= extent,
{
}

/// The base-2 logarithm of `x`, rounded down; zero below two.
pub open spec fn floor_log2(x: int) -> nat
    decreases x,
{
    if x < 2 {
        0
    } else {
        1 + floor_log2(x / 2)
    }
}

/// The smaller of two sides.
pub open spec fn smaller(a: int, b: int) -> int {
    if a <= b {
        a
    } else {
        b
    }
}

/// Halving `levels + 1` times is halving once and then `levels` times.
proof fn lemma_mip_extent_shift(extent: int, levels: nat)
    ensures
        mip_extent(extent, levels + 1) == mip_extent(next_mip_extent(extent), levels),
    decreases levels,
{
    if levels > 0 {
        lemma_mip_extent_shift(extent, (levels - 1) as nat);
        assert(mip_extent(extent, levels + 1) == next_mip_extent(mip_extent(extent, levels)));
        assert(mip_extent(next_mip_extent(extent), levels) == next_mip_extent(
            mip_extent(next_mip_extent(extent), (levels - 1) as nat),
        ));
    } else {
        assert(mip_extent(extent, 1) == next_mip_extent(mip_extent(extent, 0)));
    }
}

/// A side of at least one stays at least one, and reaches one exactly after
/// `floor_log2` of it halvings.
proof fn lemma_mip_extent_reaches_one(extent: int, levels: nat)
    requires
        extent >= 1,
    ensures
        mip_extent(extent, levels) >= 1,
        mip_extent(extent, levels) == 1 <==> levels >= floor_log2(extent),
    decreases levels,
{
    if levels > 0 {
        let l = (levels - 1) as nat;
        lemma_mip_extent_shift(extent, l);
        lemma_mip_extent_reaches_one(next_mip_extent(extent), l);
        if extent >= 2 {
            assert(floor_log2(extent) == 1 + floor_log2(extent / 2));
        }
    }
}

/// A longer side has at least as large a logarithm.
proof fn lemma_floor_log2_monotone(x: int, y: int)
    requires
        1 <= x <= y,
    ensures
        floor_log2(x) <= floor_log2(y),
    decreases y,
{
    if x >= 2 {
        lemma_floor_log2_monotone(x / 2, y / 2);
    }
}

/// Law: halving the sides of a `width` x `height` image, each side stopping
/// at one, keeps both sides at least one, and the smaller side is one
/// exactly from `floor_log2(smaller(width, height))` halvings on. So with
/// `floor_log2(smaller(width, height)) + 1` mip levels, or more, the last
/// blit of `mipmap_blits` produces a level whose smaller side is one.
pub proof fn law_mip_chain_ends_at_one(width: int, height: int, levels: nat)
    requires
        width >= 1,
        height >= 1,
    ensures
        mip_extent(width, levels) >= 1,
        mip_extent(height, levels) >= 1,
        smaller(mip_extent(width, levels), mip_extent(height, levels)) == 1 <==> levels >= floor_log2(
            smaller(width, height),
        ),
{
    lemma_mip_extent_reaches_one(width, levels);
    lemma_mip_extent_reaches_one(height, levels);
    if width <= height {
        lemma_floor_log2_monotone(width, height);
    } else {
        lemma_floor_log2_monotone(height, width);
    }
}

/// The blits `Image::generate_mipmaps` performs for an image of
/// `mip_levels` levels whose base level is `width` x `height`: entry `k`
/// derives level `k + 1` from level `k`, and each starts from the extent the
/// previous one produced.
pub fn mipmap_blits(width: i32, height: i32, mip_levels: u32) -> (blits: Vec<MipmapBlitDimensions>)
    ensures
        blits@.len() == if mip_levels == 0 {
            0
        } else {
            mip_levels - 1
        },
        forall|k: int| 0 <= k < blits@.len() ==> blits@[k] == mip_blit(width as int, height as int, k as nat),
{
    let mut blits: Vec<MipmapBlitDimensions> = Vec::new();
    let mut current_width = width;
    let mut current_height = height;
    let mut level: u32 = 1;
    while level < mip_levels
        invariant
            1 <= level,
            mip_levels == 0 ==> level == 1,
            mip_levels > 0 ==> level <= mip_levels,
            blits@.len() == level - 1,
            current_width as int == mip_extent(width as int, (level - 1) as nat),
            current_height as int == mip_extent(height as int, (level - 1) as nat),
            forall|k: int| 0 <= k < blits@.len() ==> blits@[k] == mip_blit(width as int, height as int, k as nat),
        decreases mip_levels - level,
    {
        let dimensions = MipmapBlitDimensions::new(current_width, current_height);
        proof {
            assert(mip_extent(width as int, level as nat) == next_mip_extent(mip_extent(width as int, (level - 1) as nat)));
            assert(mip_extent(height as int, level as nat) == next_mip_extent(mip_extent(height as int, (level - 1) as nat)));
        }
        blits.push(dimensions);
        current_width = dimensions.next_width;
        current_height = dimensions.next_height;
        level = level + 1;
    }
    blits
}

/// The layouts an image takes while its pixels are uploaded.
#[derive(Clone, Copy, Debug, PartialEq, Eq, Structural)]
pub enum ImageLayout {
    Undefined,
    TransferDstOptimal,
    TransferSrcOptimal,
    ShaderReadOnlyOptimal,
}

/// A change of layout of `level_count` mip levels from `base_mip_level` on.
#[derive(Clone, Copy, Debug, PartialEq, Eq, Structural)]
pub struct LayoutTransition {
    pub base_mip_level: u32,
    pub level_count: u32,
    pub old_layout: ImageLayout,
    pub new_layout: ImageLayout,
}

/// Generating one mip level: level `source_level` becomes a transfer
/// source, is blitted into level `target_level`, and is then made readable
/// by shaders.
#[derive(Clone, Copy, Debug, PartialEq, Eq, Structural)]
pub struct MipLevelSteps {
    pub to_source: LayoutTransition,
    pub blit: MipmapBlitDimensions,
    pub source_level: u32,
    pub target_level: u32,
    pub to_shader_read: LayoutTransition,
}

/// The steps that generate mip level `level + 1` of a `width` x `height`
/// image.
pub open spec fn mip_level_steps(width: int, height: int, level: nat) -> MipLevelSteps {
    MipLevelSteps {
        to_source: LayoutTransition {
            base_mip_level: level as u32,
            level_count: 1,
            old_layout: ImageLayout::TransferDstOptimal,
            new_layout: ImageLayout::TransferSrcOptimal,
        },
        blit: mip_blit(width, height, level),
        source_level: level as u32,
        target_level: (level + 1) as u32,
        to_shader_read: LayoutTransition {
            base_mip_level: level as u32,
            level_count: 1,
            old_layout: ImageLayout::TransferSrcOptimal,
            new_layout: ImageLayout::ShaderReadOnlyOptimal,
        },
    }
}

/// The steps of `Image::generate_mipmaps` for an image of `mip_levels`
/// levels whose base level is `width` x `height`: entry `k` generates level
/// `k + 1` from level `k`.
pub fn mipmap_plan(width: i32, height: i32, mip_levels: u32) -> (plan: Vec<MipLevelSteps>)
    ensures
        plan@.len() == if mip_levels == 0 {
            0
        } else {
            mip_levels - 1
        },
        forall|k: int| 0 <= k < plan@.len() ==> plan@[k] == mip_level_steps(width as int, height as int, k as nat),
{
    let blits = mipmap_blits(width, height, mip_levels);
    let mut plan: Vec<MipLevelSteps> = Vec::new();
    let mut k: usize = 0;
    while k < blits.len()
        invariant
            blits@.len() == if mip_levels == 0 {
                0
            } else {
                mip_levels - 1
            },
            forall|j: int| 0 <= j < blits@.len() ==> blits@[j] == mip_blit(width as int, height as int, j as nat),
            k <= blits@.len(),
            plan@.len() == k,
            forall|j: int| 0 <= j < k ==> plan@[j] == mip_level_steps(width as int, height as int, j as nat),
        decreases blits@.len() - k,
    {
        let level = k as u32;
        plan.push(MipLevelSteps {
            to_source: LayoutTransition {
                base_mip_level: level,
                level_count: 1,
                old_layout: ImageLayout::TransferDstOptimal,
                new_layout: ImageLayout::TransferSrcOptimal,
            },
            blit: blits[k],
            source_level: level,
            target_level: level + 1,
            to_shader_read: LayoutTransition {
                base_mip_level: level,
                level_count: 1,
                old_layout: ImageLayout::TransferSrcOptimal,
                new_layout: ImageLayout::ShaderReadOnlyOptimal,
            },
        });
        k = k + 1;
    }
    plan
}

/// How `Image::upload_data` brings a description's pixels to the GPU: all
/// levels become transfer targets, the pixels are copied into the base
/// level (once linear blitting is known to be supported), the mip levels are
/// generated, and the last level is made readable by shaders.
#[derive(Debug)]
pub struct UploadPlan {
    pub to_transfer_dst: LayoutTransition,
    pub mip_levels: Vec<MipLevelSteps>,
    pub to_shader_read: LayoutTransition,
}

/// The upload plan of `description`. Its width and height are taken as
/// `i32`, as the blits take them.
pub fn upload_plan(description: &ImageDescription) -> (plan: UploadPlan)
    requires
        description.mip_levels >= 1,
    ensures
        plan.to_transfer_dst == (LayoutTransition {
            base_mip_level: 0,
            level_count: description.mip_levels,
            old_layout: ImageLayout::Undefined,
            new_layout: ImageLayout::TransferDstOptimal,
        }),
        plan.mip_levels@.len() == description.mip_levels - 1,
        forall|k: int|
            0 <= k < plan.mip_levels@.len() ==> plan.mip_levels@[k] == mip_level_steps(
                (description.width as i32) as int,
                (description.height as i32) as int,
                k as nat,
            ),
        plan.to_shader_read == (LayoutTransition {
            base_mip_level: (description.mip_levels - 1) as u32,
            level_count: 1,
            old_layout: ImageLayout::TransferDstOptimal,
            new_layout: ImageLayout::ShaderReadOnlyOptimal,
        }),
{
    UploadPlan {
        to_transfer_dst: LayoutTransition {
            base_mip_level: 0,
            level_count: description.mip_levels,
            old_layout: ImageLayout::Undefined,
            new_layout: ImageLayout::TransferDstOptimal,
        },
        mip_levels: mipmap_plan(description.width as i32, description.height as i32, description.mip_levels),
        to_shader_read: LayoutTransition {
            base_mip_level: description.mip_levels - 1,
            level_count: 1,
            old_layout: ImageLayout::TransferDstOptimal,
            new_layout: ImageLayout::ShaderReadOnlyOptimal,
        },
    }
}

} // verus!
