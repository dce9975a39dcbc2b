//! OpenGL state settings and their OpenGL enumerant values.
//!
//! The numeric values are those of the OpenGL registry (`GLenum`).
use vstd::prelude::*;

use crate::render::texture::world_is_float;
use crate::world::texture::{format_channels, TextureFormat};

verus! {
/// Which polygon faces are culled.
#[derive(Clone, Copy, Debug, PartialEq, Eq, Structural)]
pub enum CullMode {
    Front,
    Back,
    FrontAndBack,
}

/// The OpenGL value of a `CullMode`.
pub open spec fn cull_mode_value(v: CullMode) -> u32 {
    match v {
        CullMode::Front => 0x0404,
        CullMode::Back => 0x0405,
        CullMode::FrontAndBack => 0x0408,
    }
}

impl From<CullMode> for u32 {
    fn from(cull_mode: CullMode) -> (r: u32) {
        match cull_mode {
            CullMode::Front => 0x0404,
            CullMode::Back => 0x0405,
            CullMode::FrontAndBack => 0x0408,
        }
    }
}

impl vstd::std_specs::convert::FromSpecImpl<CullMode> for u32 {
    open spec fn obeys_from_spec() -> bool {
        true
    }

    open spec fn from_spec(v: CullMode) -> u32 {
        cull_mode_value(v)
    }
}

/// Which winding order makes a polygon front-facing.
#[derive(Clone, Copy, Debug, PartialEq, Eq, Structural)]
pub enum FrontFace {
    Clockwise,
    CounterClockwise,
}

/// The OpenGL value of a `FrontFace`.
pub open spec fn front_face_value(v: FrontFace) -> u32 {
    match v {
        FrontFace::Clockwise => 0x0900,
        FrontFace::CounterClockwise => 0x0901,
    }
}

impl From<FrontFace> for u32 {
    fn from(front_face: FrontFace) -> (r: u32) {
        match front_face {
            FrontFace::Clockwise => 0x0900,
            FrontFace::CounterClockwise => 0x0901,
        }
    }
}

impl vstd::std_specs::convert::FromSpecImpl<FrontFace> for u32 {
    open spec fn obeys_from_spec() -> bool {
        true
    }

    open spec fn from_spec(v: FrontFace) -> u32 {
        front_face_value(v)
    }
}

/// The comparison that decides whether a fragment passes the depth test.
#[derive(Clone, Copy, Debug, PartialEq, Eq, Structural)]
pub enum DepthTestFunction {
    Never,
    Always,
    LessThan,
    GreaterThan,
    LessThanOrEqualTo,
    GreaterThanOrEqualTo,
    EqualTo,
    NotEqualTo,
}

/// The OpenGL value of a `DepthTestFunction`.
pub open spec fn depth_test_function_value(v: DepthTestFunction) -> u32 {
    match v {
        DepthTestFunction::Never => 0x0200,
        DepthTestFunction::Always => 0x0207,
        DepthTestFunction::LessThan => 0x0201,
        DepthTestFunction::GreaterThan => 0x0204,
        DepthTestFunction::LessThanOrEqualTo => 0x0203,
        DepthTestFunction::GreaterThanOrEqualTo => 0x0206,
        DepthTestFunction::EqualTo => 0x0202,
        DepthTestFunction::NotEqualTo => 0x0205,
    }
}

impl From<DepthTestFunction> for u32 {
    fn from(depth_test_function: DepthTestFunction) -> (r: u32) {
        match depth_test_function {
            DepthTestFunction::Never => 0x0200,
            DepthTestFunction::Always => 0x0207,
            DepthTestFunction::LessThan => 0x0201,
            DepthTestFunction::GreaterThan => 0x0204,
            DepthTestFunction::LessThanOrEqualTo => 0x0203,
            DepthTestFunction::GreaterThanOrEqualTo => 0x0206,
            DepthTestFunction::EqualTo => 0x0202,
            DepthTestFunction::NotEqualTo => 0x0205,
        }
    }
}

impl vstd::std_specs::convert::FromSpecImpl<DepthTestFunction> for u32 {
    open spec fn obeys_from_spec() -> bool {
        true
    }

    open spec fn from_spec(v: DepthTestFunction) -> u32 {
        depth_test_function_value(v)
    }
}

/// OpenGL blend factors.
///
/// Blending computes `C_result = C_source * F_source + C_destination * F_destination`,
/// where `C_source` is the colour output by the fragment shader, `C_destination`
/// the colour already in the colour buffer, and the factors `F` are chosen here.
#[derive(Clone, Copy, Debug, PartialEq, Eq, Structural)]
pub enum BlendFunction {
    /// Factor is zero.
    Zero,
    /// Factor is one.
    One,
    /// Factor is one minus the source colour.
    OneMinusSourceColor,
    /// Factor is the destination colour.
    DestinationColor,
    /// Factor is one minus the destination colour.
    OneMinusDestinationColor,
    /// Factor is the source alpha.
    SourceAlpha,
    /// Factor is one minus the source alpha.
    OneMinusSourceAlpha,
    /// Factor is the destination alpha.
    DestinationAlpha,
    /// Factor is one minus the destination alpha.
    OneMinusDestinationAlpha,
    /// Factor is the constant colour.
    ConstantColor,
    /// Factor is one minus the constant colour.
    OneMinusConstantColor,
    /// Factor is the constant alpha.
    ConstantAlpha,
    /// Factor is one minus the constant alpha.
    OneMinusConstantAlpha,
}

/// The OpenGL value of a `BlendFunction`.
pub open spec fn blend_function_value(v: BlendFunction) -> u32 {
    match v {
        BlendFunction::Zero => 0,
        BlendFunction::One => 1,
        BlendFunction::OneMinusSourceColor => 0x0301,
        BlendFunction::DestinationColor => 0x0306,
        BlendFunction::OneMinusDestinationColor => 0x0307,
        BlendFunction::SourceAlpha => 0x0302,
        BlendFunction::OneMinusSourceAlpha => 0x0303,
        BlendFunction::DestinationAlpha => 0x0304,
        BlendFunction::OneMinusDestinationAlpha => 0x0305,
        BlendFunction::ConstantColor => 0x8001,
        BlendFunction::OneMinusConstantColor => 0x8002,
        BlendFunction::ConstantAlpha => 0x8003,
        BlendFunction::OneMinusConstantAlpha => 0x8004,
    }
}

impl From<BlendFunction> for u32 {
    fn from(blend_function: BlendFunction) -> (r: u32) {
        match blend_function {
            BlendFunction::Zero => 0,
            BlendFunction::One => 1,
            BlendFunction::OneMinusSourceColor => 0x0301,
            BlendFunction::DestinationColor => 0x0306,
            BlendFunction::OneMinusDestinationColor => 0x0307,
            BlendFunction::SourceAlpha => 0x0302,
            BlendFunction::OneMinusSourceAlpha => 0x0303,
            BlendFunction::DestinationAlpha => 0x0304,
            BlendFunction::OneMinusDestinationAlpha => 0x0305,
            BlendFunction::ConstantColor => 0x8001,
            BlendFunction::OneMinusConstantColor => 0x8002,
            BlendFunction::ConstantAlpha => 0x8003,
            BlendFunction::OneMinusConstantAlpha => 0x8004,
        }
    }
}

impl vstd::std_specs::convert::FromSpecImpl<BlendFunction> for u32 {
    open spec fn obeys_from_spec() -> bool {
        true
    }

    open spec fn from_spec(v: BlendFunction) -> u32 {
        blend_function_value(v)
    }
}

/// Law: different blend factors have different OpenGL values.
pub proof fn law_blend_values_distinct(a: BlendFunction, b: BlendFunction)
    requires
        a != b,
    ensures
        blend_function_value(a) != blend_function_value(b),
{
}

/// Whether a depth test `function` lets a fragment of depth `incoming`
/// through where `stored` is in the depth buffer.
pub open spec fn depth_test_passes(function: DepthTestFunction, incoming: int, stored: int) -> bool {
    match function {
        DepthTestFunction::Never => false,
        DepthTestFunction::Always => true,
        DepthTestFunction::LessThan => incoming < stored,
        DepthTestFunction::GreaterThan => incoming > stored,
        DepthTestFunction::LessThanOrEqualTo => incoming <= stored,
        DepthTestFunction::GreaterThanOrEqualTo => incoming >= stored,
        DepthTestFunction::EqualTo => incoming == stored,
        DepthTestFunction::NotEqualTo => incoming != stored,
    }
}

/// Law: OpenGL numbers its depth functions from `0x0200` by the outcomes
/// they pass: one for "less", two for "equal", four for "greater". The
/// value of each function passes exactly the comparisons the function
/// does.
pub proof fn law_depth_test_values(function: DepthTestFunction, incoming: int, stored: int)
    ensures
        0x0200 <= depth_test_function_value(function) < 0x0208,
        depth_test_passes(function, incoming, stored) <==> ({
            let code = depth_test_function_value(function) - 0x0200;
            ||| incoming < stored && code % 2 == 1
            ||| incoming == stored && (code / 2) % 2 == 1
            ||| incoming > stored && (code / 4) % 2 == 1
        }),
{
}

/// Law: different cull modes, front faces and depth functions have
/// different OpenGL values.
pub proof fn law_gl_values_distinct(
    c1: CullMode,
    c2: CullMode,
    f1: FrontFace,
    f2: FrontFace,
    d1: DepthTestFunction,
    d2: DepthTestFunction,
)
    ensures
        c1 != c2 ==> cull_mode_value(c1) != cull_mode_value(c2),
        f1 != f2 ==> front_face_value(f1) != front_face_value(f2),
        d1 != d2 ==> depth_test_function_value(d1) != depth_test_function_value(d2),
{
}

/// Law: each "one minus" blend factor that has its plain factor beside it
/// is numbered right after it, as OpenGL numbers them.
pub proof fn law_blend_one_minus_follows()
    ensures
        blend_function_value(BlendFunction::OneMinusDestinationColor) == blend_function_value(
            BlendFunction::DestinationColor,
        ) + 1,
        blend_function_value(BlendFunction::OneMinusSourceAlpha) == blend_function_value(BlendFunction::SourceAlpha)
            + 1,
        blend_function_value(BlendFunction::OneMinusDestinationAlpha) == blend_function_value(
            BlendFunction::DestinationAlpha,
        ) + 1,
        blend_function_value(BlendFunction::OneMinusConstantColor) == blend_function_value(
            BlendFunction::ConstantColor,
        ) + 1,
        blend_function_value(BlendFunction::OneMinusConstantAlpha) == blend_function_value(
            BlendFunction::ConstantAlpha,
        ) + 1,
        blend_function_value(BlendFunction::One) == blend_function_value(BlendFunction::Zero) + 1,
{
}

/// The OpenGL pixel format used to upload a world texture of this format.
pub open spec fn gl_pixel_format(format: TextureFormat) -> u32 {
    match format {
        TextureFormat::R8 => 0x8229,
        TextureFormat::R8G8 => 0x8227,
        TextureFormat::R8G8B8 => 0x1907,
        TextureFormat::R8G8B8A8 => 0x1908,
        TextureFormat::B8G8R8 => 0x80E0,
        TextureFormat::B8G8R8A8 => 0x80E1,
        TextureFormat::R16 => 0x822A,
        TextureFormat::R16G16 => 0x822C,
        TextureFormat::R16G16B16 => 0x8054,
        TextureFormat::R16G16B16A16 => 0x805B,
        TextureFormat::R16F => 0x822D,
        TextureFormat::R16G16F => 0x822F,
        TextureFormat::R16G16B16F => 0x881B,
        TextureFormat::R16G16B16A16F => 0x881A,
        TextureFormat::R32 => 0x8236,
        TextureFormat::R32G32 => 0x823C,
        TextureFormat::R32G32B32 => 0x8D71,
        TextureFormat::R32G32B32A32 => 0x8D70,
        TextureFormat::R32F => 0x822E,
        TextureFormat::R32G32F => 0x8230,
        TextureFormat::R32G32B32F => 0x8815,
        TextureFormat::R32G32B32A32F => 0x8814,
    }
}

/// The channels, in memory order, of an OpenGL pixel format used here, as
/// the OpenGL registry names it (`GL_R8`, `GL_RGBA16F`, `GL_BGR`, ...).
pub open spec fn gl_format_channels(value: u32) -> Seq<char> {
    if value == 0x8229 {
        seq!['R']
    } else if value == 0x8227 {
        seq!['R', 'G']
    } else if value == 0x1907 {
        seq!['R', 'G', 'B']
    } else if value == 0x1908 {
        seq!['R', 'G', 'B', 'A']
    } else if value == 0x80E0 {
        seq!['B', 'G', 'R']
    } else if value == 0x80E1 {
        seq!['B', 'G', 'R', 'A']
    } else if value == 0x822A {
        seq!['R']
    } else if value == 0x822C {
        seq!['R', 'G']
    } else if value == 0x8054 {
        seq!['R', 'G', 'B']
    } else if value == 0x805B {
        seq!['R', 'G', 'B', 'A']
    } else if value == 0x822D {
        seq!['R']
    } else if value == 0x822F {
        seq!['R', 'G']
    } else if value == 0x881B {
        seq!['R', 'G', 'B']
    } else if value == 0x881A {
        seq!['R', 'G', 'B', 'A']
    } else if value == 0x8236 {
        seq!['R']
    } else if value == 0x823C {
        seq!['R', 'G']
    } else if value == 0x8D71 {
        seq!['R', 'G', 'B']
    } else if value == 0x8D70 {
        seq!['R', 'G', 'B', 'A']
    } else if value == 0x822E {
        seq!['R']
    } else if value == 0x8230 {
        seq!['R', 'G']
    } else if value == 0x8815 {
        seq!['R', 'G', 'B']
    } else if value == 0x8814 {
        seq!['R', 'G', 'B', 'A']
    } else {
        Seq::empty()
    }
}

/// Whether an OpenGL pixel format used here holds floating-point channels.
pub open spec fn gl_format_is_float(value: u32) -> bool {
    value == 0x822D || value == 0x822F || value == 0x881B || value == 0x881A || value == 0x822E || value == 0x8230 || value == 0x8815 || value == 0x8814
}

/// Law: a world texture is uploaded in the OpenGL format with its channels
/// in the same order, floating point exactly when the world format is.
pub proof fn law_gl_pixel_format_keeps_layout(format: TextureFormat)
    ensures
        gl_format_channels(gl_pixel_format(format)) == format_channels(format),
        gl_format_is_float(gl_pixel_format(format)) == world_is_float(format),
{
}

/// The OpenGL pixel format in which a world texture of this format is
/// uploaded.
pub fn map_world_texture_format(format: TextureFormat) -> (r: u32)
    ensures
        r == gl_pixel_format(format),
        gl_format_channels(r) == format_channels(format),
        gl_format_is_float(r) == world_is_float(format),
{
    proof {
        law_gl_pixel_format_keeps_layout(format);
    }
    match format {
        TextureFormat::R8 => 0x8229,
        TextureFormat::R8G8 => 0x8227,
        TextureFormat::R8G8B8 => 0x1907,
        TextureFormat::R8G8B8A8 => 0x1908,
        TextureFormat::B8G8R8 => 0x80E0,
        TextureFormat::B8G8R8A8 => 0x80E1,
        TextureFormat::R16 => 0x822A,
        TextureFormat::R16G16 => 0x822C,
        TextureFormat::R16G16B16 => 0x8054,
        TextureFormat::R16G16B16A16 => 0x805B,
        TextureFormat::R16F => 0x822D,
        TextureFormat::R16G16F => 0x822F,
        TextureFormat::R16G16B16F => 0x881B,
        TextureFormat::R16G16B16A16F => 0x881A,
        TextureFormat::R32 => 0x8236,
        TextureFormat::R32G32 => 0x823C,
        TextureFormat::R32G32B32 => 0x8D71,
        TextureFormat::R32G32B32A32 => 0x8D70,
        TextureFormat::R32F => 0x822E,
        TextureFormat::R32G32F => 0x8230,
        TextureFormat::R32G32B32F => 0x8815,
        TextureFormat::R32G32B32A32F => 0x8814,
    }
}

} // verus!
