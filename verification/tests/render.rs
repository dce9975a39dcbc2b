use phantom::render::device::{map_backend, renderer_kind, Backend, RendererKind, WgpuBackend};
use phantom::render::opengl::{
    map_world_texture_format, BlendFunction, CullMode, DepthTestFunction, FrontFace,
};
use phantom::render::rendergraph::Node;
use phantom::render::vulkan::{
    mipmap_blits, mipmap_plan, upload_plan, ImageDescription, ImageError, ImageLayout,
    LayoutTransition, MipmapBlitDimensions, Offset3D,
    FORMAT_B8G8R8A8_UNORM, FORMAT_R16G16B16_UNORM, FORMAT_R8G8B8A8_UNORM,
};
use phantom::world::texture::{ImageKind, TextureFormat};

#[test]
fn gl_values() {
    assert_eq!(u32::from(CullMode::Front), 0x0404);
    assert_eq!(u32::from(CullMode::Back), 0x0405);
    assert_eq!(u32::from(CullMode::FrontAndBack), 0x0408);
    assert_eq!(u32::from(FrontFace::Clockwise), 0x0900);
    assert_eq!(u32::from(FrontFace::CounterClockwise), 0x0901);
    assert_eq!(u32::from(DepthTestFunction::LessThanOrEqualTo), 0x0203);
    assert_eq!(u32::from(DepthTestFunction::Always), 0x0207);
    assert_eq!(u32::from(BlendFunction::SourceAlpha), 0x0302);
    assert_eq!(u32::from(BlendFunction::OneMinusSourceAlpha), 0x0303);
    assert_eq!(u32::from(BlendFunction::OneMinusSourceColor), 0x0301);
    assert_eq!(u32::from(BlendFunction::Zero), 0);
    assert_eq!(u32::from(BlendFunction::One), 1);
    assert_eq!(map_world_texture_format(TextureFormat::R8G8B8A8), 0x1908);
    assert_eq!(map_world_texture_format(TextureFormat::R32), 0x8236);
    assert_eq!(map_world_texture_format(TextureFormat::B8G8R8), 0x80E0);
}

#[test]
fn backends() {
    assert_eq!(map_backend(&Backend::Dx11), WgpuBackend::Dx11);
    assert_eq!(map_backend(&Backend::Dx12), WgpuBackend::Dx12);
    assert_eq!(map_backend(&Backend::Metal), WgpuBackend::Metal);
    assert_eq!(map_backend(&Backend::VulkanWgpu), WgpuBackend::Vulkan);
    assert_eq!(map_backend(&Backend::OpenGL), WgpuBackend::Vulkan);
    assert_eq!(renderer_kind(&Backend::Vulkan), RendererKind::Vulkan);
    assert_eq!(renderer_kind(&Backend::Metal), RendererKind::Wgpu(WgpuBackend::Metal));
}

#[test]
fn mipmap_dimensions_halve() {
    let dims = MipmapBlitDimensions::new(512, 3);
    assert_eq!(dims.next_width, 256);
    assert_eq!(dims.next_height, 1);
    let dims = MipmapBlitDimensions::new(1, 0);
    assert_eq!(dims.next_width, 1);
    assert_eq!(dims.next_height, 1);
    let dims = MipmapBlitDimensions::new(7, 5);
    assert_eq!(
        dims.src_offsets(),
        [Offset3D { x: 0, y: 0, z: 0 }, Offset3D { x: 7, y: 5, z: 1 }]
    );
    assert_eq!(
        dims.dst_offsets(),
        [Offset3D { x: 0, y: 0, z: 0 }, Offset3D { x: 3, y: 2, z: 1 }]
    );
}

#[test]
fn mipmap_blit_chain() {
    let blits = mipmap_blits(8, 2, 4);
    assert_eq!(blits.len(), 3);
    assert_eq!(blits[0], MipmapBlitDimensions::new(8, 2));
    assert_eq!(blits[1], MipmapBlitDimensions::new(4, 1));
    assert_eq!(blits[2], MipmapBlitDimensions::new(2, 1));
    assert_eq!(blits[2].next_width, 1);
    assert!(mipmap_blits(8, 8, 0).is_empty());
    assert!(mipmap_blits(8, 8, 1).is_empty());
}

#[test]
fn image_descriptions() {
    let d = ImageDescription::from_image(ImageKind::Rgb8, 1, 2, vec![1, 2, 3, 4, 5, 6], 2).unwrap();
    assert_eq!(d.format, FORMAT_R8G8B8A8_UNORM);
    assert_eq!(d.pixels, vec![1, 2, 3, 255, 4, 5, 6, 255]);
    assert_eq!(d.mip_levels, 2);
    let d = ImageDescription::from_image(ImageKind::Rgb16, 1, 1, vec![0; 6], 1).unwrap();
    assert_eq!(d.format, FORMAT_R16G16B16_UNORM);
    assert_eq!(d.pixels.len(), 6);
    assert!(matches!(
        ImageDescription::from_image(ImageKind::Luma8, 1, 1, vec![0], 1),
        Err(ImageError::UnsupportedImageFormat)
    ));
    assert!(matches!(
        ImageDescription::from_image(ImageKind::Rgb8, 2, 2, vec![0; 11], 1),
        Err(ImageError::LoadRawPixels)
    ));
    let e = ImageDescription::empty(4, 4, FORMAT_B8G8R8A8_UNORM, 3);
    assert!(e.pixels.is_empty());
    assert_eq!(e.mip_levels, 3);
}

struct Pass;

impl Node for Pass {}

#[test]
fn node_defaults() {
    let pass = Pass;
    assert_eq!(pass.label(), "Unnamed Node");
    assert!(pass.inputs().is_empty());
    assert!(pass.outputs().is_empty());
    pass.run();
}

#[test]
fn mip_chain_ends_with_smaller_side_one() {
    // floor(log2(5)) + 1 = 3 levels: 12x5, 6x2, 3x1.
    let blits = mipmap_blits(12, 5, 3);
    assert_eq!(blits.len(), 2);
    let last = blits[1];
    assert_eq!((last.next_width, last.next_height), (3, 1));
    // More levels keep the sides at one at least.
    let blits = mipmap_blits(3, 1, 4);
    assert_eq!(blits[2].next_width, 1);
    assert_eq!(blits[2].next_height, 1);
}

#[test]
fn blend_values_are_distinct() {
    let all = [
        BlendFunction::Zero,
        BlendFunction::One,
        BlendFunction::OneMinusSourceColor,
        BlendFunction::DestinationColor,
        BlendFunction::OneMinusDestinationColor,
        BlendFunction::SourceAlpha,
        BlendFunction::OneMinusSourceAlpha,
        BlendFunction::DestinationAlpha,
        BlendFunction::OneMinusDestinationAlpha,
        BlendFunction::ConstantColor,
        BlendFunction::OneMinusConstantColor,
        BlendFunction::ConstantAlpha,
        BlendFunction::OneMinusConstantAlpha,
    ];
    for (i, a) in all.iter().enumerate() {
        for b in &all[i + 1..] {
            assert_ne!(u32::from(*a), u32::from(*b));
        }
    }
}

#[test]
fn upload_plan_generates_each_level_from_the_previous() {
    let description = ImageDescription::empty(8, 4, FORMAT_R8G8B8A8_UNORM, 3);
    let plan = upload_plan(&description);
    assert_eq!(
        plan.to_transfer_dst,
        LayoutTransition {
            base_mip_level: 0,
            level_count: 3,
            old_layout: ImageLayout::Undefined,
            new_layout: ImageLayout::TransferDstOptimal,
        }
    );
    assert_eq!(plan.mip_levels.len(), 2);
    assert_eq!(plan.mip_levels[1].source_level, 1);
    assert_eq!(plan.mip_levels[1].target_level, 2);
    assert_eq!(plan.mip_levels[1].blit, MipmapBlitDimensions::new(4, 2));
    assert_eq!(plan.mip_levels[0].to_source.old_layout, ImageLayout::TransferDstOptimal);
    assert_eq!(plan.mip_levels[0].to_shader_read.new_layout, ImageLayout::ShaderReadOnlyOptimal);
    assert_eq!(plan.to_shader_read.base_mip_level, 2);
    assert!(mipmap_plan(8, 8, 1).is_empty());
}
