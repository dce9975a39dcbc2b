//! Textures as the world stores them: raw pixel bytes in a known format.
//!
//! Formats with three 8-bit channels are not used by the renderers, so a
//! texture made from such pixels gets an opaque alpha channel appended to
//! every pixel.
use vstd::prelude::*;

verus! {

/// Errors of texture construction and loading.
#[derive(Debug)]
pub enum TextureError {
    DetermineImageFormat,
    /// Opening an HDR image file failed with this message.
    LoadHdrFromFile(String),
    /// Opening an image file failed with this message.
    LoadImageFromFile(String),
    /// Decoding an image failed with this message.
    DecodeImage(String),
    /// Decoding an HDR image failed with this message.
    DecodeHdrImage(String),
    MapFormat,
    CreateImageBuffer,
}

/// The layout of a texture's pixels.
#[derive(Clone, Copy, Debug, PartialEq, Eq, Hash, Structural)]
pub enum TextureFormat {
    R8,
    R8G8,
    R8G8B8,
    R8G8B8A8,
    B8G8R8,
    B8G8R8A8,
    R16,
    R16G16,
    R16G16B16,
    R16G16B16A16,
    R16F,
    R16G16F,
    R16G16B16F,
    R16G16B16A16F,
    R32,
    R32G32,
    R32G32B32,
    R32G32B32A32,
    R32F,
    R32G32F,
    R32G32B32F,
    R32G32B32A32F,
}

/// The kind of a decoded image: its channels and channel type.
#[derive(Clone, Copy, Debug, PartialEq, Eq, Structural)]
pub enum ImageKind {
    Luma8,
    LumaA8,
    Rgb8,
    Rgba8,
    Luma16,
    LumaA16,
    Rgb16,
    Rgba16,
    Rgb32F,
    Rgba32F,
    /// Any other kind of image.
    Other,
}

/// How texture coordinates outside `[0, 1]` are mapped.
#[derive(Clone, Copy, Debug, PartialEq, Eq, Structural)]
pub enum WrappingMode {
    ClampToEdge,
    MirroredRepeat,
    Repeat,
}

impl Default for WrappingMode {
    fn default() -> (r: Self)
        ensures
            r == WrappingMode::Repeat,
    {
        WrappingMode::Repeat
    }
}

/// How texels are filtered.
#[derive(Clone, Copy, Debug, PartialEq, Eq, Structural)]
pub enum Filter {
    Nearest,
    Linear,
}

impl Default for Filter {
    fn default() -> (r: Self)
        ensures
            r == Filter::Nearest,
    {
        Filter::Nearest
    }
}

/// How a material's alpha channel is used.
#[derive(Clone, Copy, Debug, PartialEq, Eq, Structural)]
pub enum AlphaMode {
    Opaque,
    Mask,
    Blend,
}

impl Default for AlphaMode {
    fn default() -> (r: Self)
        ensures
            r == AlphaMode::Opaque,
    {
        AlphaMode::Opaque
    }
}

/// How a texture is sampled.
#[derive(Debug)]
pub struct Sampler {
    pub name: String,
    pub min_filter: Filter,
    pub mag_filter: Filter,
    pub wrap_s: WrappingMode,
    pub wrap_t: WrappingMode,
}

impl Default for Sampler {
    fn default() -> (r: Self)
        ensures
            r.name@ == Seq::<char>::empty(),
            r.min_filter == Filter::Nearest,
            r.mag_filter == Filter::Nearest,
            r.wrap_s == WrappingMode::Repeat,
            r.wrap_t == WrappingMode::Repeat,
    {
        Sampler {
            name: String::new(),
            min_filter: Filter::default(),
            mag_filter: Filter::default(),
            wrap_s: WrappingMode::default(),
            wrap_t: WrappingMode::default(),
        }
    }
}

/// The number of bytes of one pixel in `format`.
pub open spec fn format_bytes_per_pixel(format: TextureFormat) -> u32 {
    match format {
        TextureFormat::R8 => 1,
        TextureFormat::R8G8 => 2,
        TextureFormat::R8G8B8 | TextureFormat::B8G8R8 => 3,
        TextureFormat::R8G8B8A8 | TextureFormat::B8G8R8A8 => 4,
        TextureFormat::R16 | TextureFormat::R16F => 2,
        TextureFormat::R16G16 | TextureFormat::R16G16F => 4,
        TextureFormat::R16G16B16 | TextureFormat::R16G16B16F => 6,
        TextureFormat::R16G16B16A16 | TextureFormat::R16G16B16A16F => 8,
        TextureFormat::R32 | TextureFormat::R32F => 4,
        TextureFormat::R32G32 | TextureFormat::R32G32F => 8,
        TextureFormat::R32G32B32 | TextureFormat::R32G32B32F => 12,
        TextureFormat::R32G32B32A32 | TextureFormat::R32G32B32A32F => 16,
    }
}

/// The format with an alpha channel that replaces a three-channel 8-bit
/// format; `None` for the formats that are kept.
pub open spec fn alpha_format(format: TextureFormat) -> Option<TextureFormat> {
    match format {
        TextureFormat::R8G8B8 => Some(TextureFormat::R8G8B8A8),
        TextureFormat::B8G8R8 => Some(TextureFormat::B8G8R8A8),
        _ => None,
    }
}

/// The channels of a pixel of `format`, in memory order, as named by the
/// format.
pub open spec fn format_channels(format: TextureFormat) -> Seq<char> {
    match format {
        TextureFormat::R8 => seq!['R'],
        TextureFormat::R8G8 => seq!['R', 'G'],
        TextureFormat::R8G8B8 => seq!['R', 'G', 'B'],
        TextureFormat::R8G8B8A8 => seq!['R', 'G', 'B', 'A'],
        TextureFormat::B8G8R8 => seq!['B', 'G', 'R'],
        TextureFormat::B8G8R8A8 => seq!['B', 'G', 'R', 'A'],
        TextureFormat::R16 => seq!['R'],
        TextureFormat::R16G16 => seq!['R', 'G'],
        TextureFormat::R16G16B16 => seq!['R', 'G', 'B'],
        TextureFormat::R16G16B16A16 => seq!['R', 'G', 'B', 'A'],
        TextureFormat::R16F => seq!['R'],
        TextureFormat::R16G16F => seq!['R', 'G'],
        TextureFormat::R16G16B16F => seq!['R', 'G', 'B'],
        TextureFormat::R16G16B16A16F => seq!['R', 'G', 'B', 'A'],
        TextureFormat::R32 => seq!['R'],
        TextureFormat::R32G32 => seq!['R', 'G'],
        TextureFormat::R32G32B32 => seq!['R', 'G', 'B'],
        TextureFormat::R32G32B32A32 => seq!['R', 'G', 'B', 'A'],
        TextureFormat::R32F => seq!['R'],
        TextureFormat::R32G32F => seq!['R', 'G'],
        TextureFormat::R32G32B32F => seq!['R', 'G', 'B'],
        TextureFormat::R32G32B32A32F => seq!['R', 'G', 'B', 'A'],
    }
}

/// The number of bytes of each channel of `format`, as named by the format.
pub open spec fn channel_bytes(format: TextureFormat) -> nat {
    match format {
        TextureFormat::R8 => 1,
        TextureFormat::R8G8 => 1,
        TextureFormat::R8G8B8 => 1,
        TextureFormat::R8G8B8A8 => 1,
        TextureFormat::B8G8R8 => 1,
        TextureFormat::B8G8R8A8 => 1,
        TextureFormat::R16 => 2,
        TextureFormat::R16G16 => 2,
        TextureFormat::R16G16B16 => 2,
        TextureFormat::R16G16B16A16 => 2,
        TextureFormat::R16F => 2,
        TextureFormat::R16G16F => 2,
        TextureFormat::R16G16B16F => 2,
        TextureFormat::R16G16B16A16F => 2,
        TextureFormat::R32 => 4,
        TextureFormat::R32G32 => 4,
        TextureFormat::R32G32B32 => 4,
        TextureFormat::R32G32B32A32 => 4,
        TextureFormat::R32F => 4,
        TextureFormat::R32G32F => 4,
        TextureFormat::R32G32B32F => 4,
        TextureFormat::R32G32B32A32F => 4,
    }
}

/// Law: a pixel of any format takes one channel's bytes for each of its
/// channels.
pub proof fn law_bytes_per_pixel(format: TextureFormat)
    ensures
        format_bytes_per_pixel(format) == format_channels(format).len() * channel_bytes(format),
{
}

/// Law: exactly the formats of three 8-bit channels get an alpha channel,
/// and the format they get has the same channels, in the same order,
/// followed by alpha, still of 8 bits.
pub proof fn law_alpha_conversion(format: TextureFormat)
    ensures
        alpha_format(format) is Some <==> (format_channels(format).len() == 3 && channel_bytes(format) == 1),
        alpha_format(format) matches Some(with_alpha) ==> format_channels(with_alpha) == format_channels(
            format,
        ).push('A') && channel_bytes(with_alpha) == 1,
{
    assert(seq!['R', 'G', 'B'].push('A') =~= seq!['R', 'G', 'B', 'A']);
    assert(seq!['B', 'G', 'R'].push('A') =~= seq!['B', 'G', 'R', 'A']);
}

/// The channels of a decoded image's pixels, in memory order.
pub open spec fn kind_channels(kind: ImageKind) -> Seq<char> {
    match kind {
        ImageKind::Luma8 => seq!['L'],
        ImageKind::LumaA8 => seq!['L', 'A'],
        ImageKind::Rgb8 => seq!['R', 'G', 'B'],
        ImageKind::Rgba8 => seq!['R', 'G', 'B', 'A'],
        ImageKind::Luma16 => seq!['L'],
        ImageKind::LumaA16 => seq!['L', 'A'],
        ImageKind::Rgb16 => seq!['R', 'G', 'B'],
        ImageKind::Rgba16 => seq!['R', 'G', 'B', 'A'],
        ImageKind::Rgb32F => seq!['R', 'G', 'B'],
        ImageKind::Rgba32F => seq!['R', 'G', 'B', 'A'],
        ImageKind::Other => Seq::<char>::empty(),
    }
}

/// The bytes of each channel of a decoded image.
pub open spec fn kind_channel_bytes(kind: ImageKind) -> nat {
    match kind {
        ImageKind::Luma8 => 1,
        ImageKind::LumaA8 => 1,
        ImageKind::Rgb8 => 1,
        ImageKind::Rgba8 => 1,
        ImageKind::Luma16 => 2,
        ImageKind::LumaA16 => 2,
        ImageKind::Rgb16 => 2,
        ImageKind::Rgba16 => 2,
        ImageKind::Rgb32F => 4,
        ImageKind::Rgba32F => 4,
        ImageKind::Other => 0,
    }
}

/// `count` pixels of three bytes each, each followed by an opaque (255)
/// alpha byte.
pub open spec fn rgba_expansion(rgb: Seq<u8>, count: nat) -> Seq<u8> {
    Seq::new(4 * count, |i: int| if i % 4 == 3 { 255u8 } else { rgb[3 * (i / 4) + i % 4] })
}

/// Law: each pixel of the expansion is the pixel of the same position with
/// its three bytes in order, followed by an opaque alpha byte.
pub proof fn law_rgba_expansion(rgb: Seq<u8>, count: nat)
    ensures
        rgba_expansion(rgb, count).len() == 4 * count,
        forall|p: int, c: int|
            0 <= p < count && 0 <= c < 3 ==> #[trigger] rgba_expansion(rgb, count)[4 * p + c] == rgb[3 * p + c],
        forall|p: int| 0 <= p < count ==> #[trigger] rgba_expansion(rgb, count)[4 * p + 3] == 255,
{
    let e = rgba_expansion(rgb, count);
    assert forall|p: int, c: int| 0 <= p < count && 0 <= c < 3 implies #[trigger] e[4 * p + c] == rgb[3 * p + c] by {
        assert((4 * p + c) / 4 == p && (4 * p + c) % 4 == c) by (nonlinear_arith)
            requires
                0 <= c < 3,
        ;
    }
    assert forall|p: int| 0 <= p < count implies #[trigger] e[4 * p + 3] == 255 by {
        assert((4 * p + 3) % 4 == 3) by (nonlinear_arith);
    }
}

/// Whether `len` bytes hold a `width` x `height` image of three bytes per
/// pixel.
pub open spec fn rgb_fits(width: u32, height: u32, len: nat) -> bool {
    3 * (width as nat * height as nat) <= len
}

/// The first `width * height` three-byte pixels of `rgb`, each with an opaque
/// alpha byte appended; `None` when `rgb` is too short to hold them.
pub(crate) fn rgb_to_rgba(width: u32, height: u32, rgb: &Vec<u8>) -> (rgba: Option<Vec<u8>>)
    ensures
        !rgb_fits(width, height, rgb@.len()) ==> rgba is None,
        rgb_fits(width, height, rgb@.len()) ==> (rgba matches Some(v) && v@ == rgba_expansion(
            rgb@,
            width as nat * height as nat,
        )),
{
    proof {
        assert(width as nat * height as nat <= u32::MAX as nat * u32::MAX as nat) by (nonlinear_arith)
            requires
                width <= u32::MAX,
                height <= u32::MAX,
        ;
    }
    let wide: u64 = width as u64 * height as u64;
    if (rgb.len() as u128) < 3 * (wide as u128) {
        return None;
    }
    let count = wide as usize;
    let ghost expected = rgba_expansion(rgb@, width as nat * height as nat);
    let mut out: Vec<u8> = Vec::new();
    let len = rgb.len();
    let mut p: usize = 0;
    while p < count
        invariant
            len == rgb@.len(),
            3 * (count as int) <= rgb@.len(),
            expected == rgba_expansion(rgb@, count as nat),
            p <= count,
            out@.len() == 4 * p,
            forall|i: int| 0 <= i < 4 * p ==> out@[i] == expected[i],
        decreases count - p,
    {
        let base = 3 * p;
        out.push(rgb[base]);
        out.push(rgb[base + 1]);
        out.push(rgb[base + 2]);
        out.push(255u8);
        proof {
            assert forall|i: int| 4 * p <= i < 4 * p + 4 implies out@[i] == expected[i] by {
                assert(i / 4 == p);
                assert(i % 4 == i - 4 * p);
            }
        }
        p = p + 1;
    }
    assert(out@ =~= expected);
    Some(out)
}

/// A texture: `width` x `height` pixels stored row by row in `format`.
#[derive(Debug)]
pub struct Texture {
    pub pixels: Vec<u8>,
    pub format: TextureFormat,
    pub width: u32,
    pub height: u32,
    pub sampler: Sampler,
}

impl Texture {
    /// A texture of these pixels. Pixels in a three-channel 8-bit format get
    /// an opaque alpha channel, and the format becomes the matching
    /// four-channel one; this fails when the pixels are fewer than
    /// `width * height` such pixels.
    pub fn new(pixels: Vec<u8>, format: TextureFormat, width: u32, height: u32, sampler: Sampler) -> (r: Result<Self, TextureError>)
        ensures
            alpha_format(format) is None ==> (r matches Ok(t) && t.pixels@ == pixels@ && t.format == format
                && t.width == width && t.height == height && t.sampler == sampler),
            format != TextureFormat::R8G8B8 && format != TextureFormat::B8G8R8 ==> (r matches Ok(t) && t.pixels@
                == pixels@ && t.format == format),
            format == TextureFormat::R8G8B8 && rgb_fits(width, height, pixels@.len()) ==> (r matches Ok(t)
                && t.format == TextureFormat::R8G8B8A8 && t.pixels@.len() == 4 * (width as nat * height as nat)),
            format == TextureFormat::B8G8R8 && rgb_fits(width, height, pixels@.len()) ==> (r matches Ok(t)
                && t.format == TextureFormat::B8G8R8A8 && t.pixels@.len() == 4 * (width as nat * height as nat)),
            alpha_format(format) is Some && !rgb_fits(width, height, pixels@.len()) ==> r matches Err(
                TextureError::CreateImageBuffer,
            ),
            alpha_format(format) is Some && rgb_fits(width, height, pixels@.len()) ==> (r matches Ok(t)
                && t.pixels@ == rgba_expansion(pixels@, width as nat * height as nat) && t.format
                == alpha_format(format).unwrap() && t.width == width && t.height == height && t.sampler
                == sampler),
    {
        let mut texture = Texture { pixels, format, width, height, sampler };
        match texture.convert_24bit_formats() {
            Ok(()) => Ok(texture),
            Err(e) => Err(e),
        }
    }

    /// Gives a texture in a three-channel 8-bit format an alpha channel.
    fn convert_24bit_formats(&mut self) -> (r: Result<(), TextureError>)
        ensures
            final(self).width == old(self).width,
            final(self).height == old(self).height,
            final(self).sampler == old(self).sampler,
            alpha_format(old(self).format) is None ==> (r is Ok && final(self).pixels@ == old(
                self,
            ).pixels@ && final(self).format == old(self).format),
            alpha_format(old(self).format) is Some && !rgb_fits(
                old(self).width,
                old(self).height,
                old(self).pixels@.len(),
            ) ==> r matches Err(TextureError::CreateImageBuffer),
            alpha_format(old(self).format) is Some && rgb_fits(
                old(self).width,
                old(self).height,
                old(self).pixels@.len(),
            ) ==> (r is Ok && final(self).pixels@ == rgba_expansion(
                old(self).pixels@,
                old(self).width as nat * old(self).height as nat,
            ) && final(self).format == alpha_format(old(self).format).unwrap()),
    {
        let format = match self.format {
            TextureFormat::R8G8B8 => TextureFormat::R8G8B8A8,
            TextureFormat::B8G8R8 => TextureFormat::B8G8R8A8,
            _ => return Ok(()),
        };
        self.format = format;
        self.attach_alpha_channel()
    }

    /// Appends an opaque alpha byte to every three-byte pixel.
    fn attach_alpha_channel(&mut self) -> (r: Result<(), TextureError>)
        ensures
            final(self).width == old(self).width,
            final(self).height == old(self).height,
            final(self).format == old(self).format,
            final(self).sampler == old(self).sampler,
            !rgb_fits(old(self).width, old(self).height, old(self).pixels@.len()) ==> r matches Err(
                TextureError::CreateImageBuffer,
            ),
            rgb_fits(old(self).width, old(self).height, old(self).pixels@.len()) ==> (r is Ok
                && final(self).pixels@ == rgba_expansion(
                old(self).pixels@,
                old(self).width as nat * old(self).height as nat,
            )),
    {
        match rgb_to_rgba(self.width, self.height, &self.pixels) {
            Some(rgba) => {
                self.pixels = rgba;
                Ok(())
            },
            None => Err(TextureError::CreateImageBuffer),
        }
    }

    /// The texture format that stands for a decoded image of this kind.
    pub fn map_format(image: ImageKind) -> (r: Result<TextureFormat, TextureError>)
        ensures
            r == match image {
                ImageKind::Rgb8 => Ok::<TextureFormat, TextureError>(TextureFormat::R8G8B8),
                ImageKind::Rgba8 => Ok(TextureFormat::R8G8B8A8),
                ImageKind::Rgb16 => Ok(TextureFormat::R16G16B16),
                ImageKind::Rgba16 => Ok(TextureFormat::R16G16B16A16),
                ImageKind::Rgba32F => Ok(TextureFormat::R32G32B32A32F),
                _ => Err(TextureError::MapFormat),
            },
            r matches Ok(f) ==> format_channels(f) == kind_channels(image) && channel_bytes(f)
                == kind_channel_bytes(image),
    {
        match image {
            ImageKind::Rgb8 => Ok(TextureFormat::R8G8B8),
            ImageKind::Rgba8 => Ok(TextureFormat::R8G8B8A8),
            ImageKind::Rgb16 => Ok(TextureFormat::R16G16B16),
            ImageKind::Rgba16 => Ok(TextureFormat::R16G16B16A16),
            ImageKind::Rgba32F => Ok(TextureFormat::R32G32B32A32F),
            _ => Err(TextureError::MapFormat),
        }
    }

    /// The number of bytes of one row, padded up to a multiple of
    /// `alignment`.
    pub fn padded_bytes_per_row(&self, alignment: u32) -> (r: u32)
        requires
            alignment > 0,
            format_bytes_per_pixel(self.format) * self.width <= u32::MAX,
            padded_row_bytes(format_bytes_per_pixel(self.format) * self.width, alignment as int) <= u32::MAX,
        ensures
            r == padded_row_bytes(format_bytes_per_pixel(self.format) * self.width, alignment as int),
    {
        let bytes_per_row = self.bytes_per_row();
        let padding = (alignment - bytes_per_row % alignment) % alignment;
        bytes_per_row + padding
    }

    /// The number of bytes of one row of pixels.
    pub fn bytes_per_row(&self) -> (r: u32)
        requires
            format_bytes_per_pixel(self.format) * self.width <= u32::MAX,
        ensures
            r == format_bytes_per_pixel(self.format) * self.width,
    {
        self.bytes_per_pixel() * self.width
    }

    /// The number of bytes of one pixel.
    pub fn bytes_per_pixel(&self) -> (r: u32)
        ensures
            r == format_bytes_per_pixel(self.format),
    {
        match self.format {
            TextureFormat::R8 => 1,
            TextureFormat::R8G8 => 2,
            TextureFormat::R8G8B8 | TextureFormat::B8G8R8 => 3,
            TextureFormat::R8G8B8A8 | TextureFormat::B8G8R8A8 => 4,
            TextureFormat::R16 | TextureFormat::R16F => 2,
            TextureFormat::R16G16 | TextureFormat::R16G16F => 4,
            TextureFormat::R16G16B16 | TextureFormat::R16G16B16F => 6,
            TextureFormat::R16G16B16A16 | TextureFormat::R16G16B16A16F => 8,
            TextureFormat::R32 | TextureFormat::R32F => 4,
            TextureFormat::R32G32 | TextureFormat::R32G32F => 8,
            TextureFormat::R32G32B32 | TextureFormat::R32G32B32F => 12,
            TextureFormat::R32G32B32A32 | TextureFormat::R32G32B32A32F => 16,
        }
    }
}

/// `bytes` rounded up to the next multiple of `alignment`.
pub open spec fn padded_row_bytes(bytes: int, alignment: int) -> int {
    bytes + (alignment - bytes % alignment) % alignment
}

/// Law: a padded row is a multiple of the alignment, at least as long as
/// the row and shorter than the row plus the alignment.
pub proof fn law_padded_row(bytes: nat, alignment: nat)
    requires
        alignment > 0,
    ensures
        padded_row_bytes(bytes as int, alignment as int) % (alignment as int) == 0,
        bytes <= padded_row_bytes(bytes as int, alignment as int),
        padded_row_bytes(bytes as int, alignment as int) < bytes + alignment,
{
    let b = bytes as int;
    let a = alignment as int;
    let r = b % a;
    assert(0 <= r < a);
    if r == 0 {
        assert((a - r) % a == 0) by {
            vstd::arithmetic::div_mod::lemma_mod_self_0(a);
        }
    } else {
        assert((a - r) % a == a - r) by {
            vstd::arithmetic::div_mod::lemma_small_mod((a - r) as nat, a as nat);
        }
        assert((b + (a - r)) % a == 0) by {
            vstd::arithmetic::div_mod::lemma_fundamental_div_mod(b, a);
            vstd::arithmetic::div_mod::lemma_mod_multiples_basic(b / a + 1, a);
            let q = b / a;
            assert(b + (a - r) == (q + 1) * a) by (nonlinear_arith)
                requires
                    b == a * q + r,
            ;
        }
    }
}

} // verus!
