use phantom::render::texture::{
    map_sampler, map_texture_format, AddressMode, FilterMode, GpuTextureFormat, SamplerDescriptor,
    TextureError as GpuTextureError, DEPTH_FORMAT,
};
use phantom::world::texture::{
    AlphaMode, Filter, ImageKind, Sampler, Texture, TextureError, TextureFormat, WrappingMode,
};

fn sampler() -> Sampler {
    Sampler::default()
}

#[test]
fn rgb_texture_gets_alpha_channel() {
    let pixels = vec![1, 2, 3, 4, 5, 6];
    let texture = Texture::new(pixels, TextureFormat::R8G8B8, 2, 1, sampler()).unwrap();
    assert_eq!(texture.format, TextureFormat::R8G8B8A8);
    assert_eq!(texture.pixels, vec![1, 2, 3, 255, 4, 5, 6, 255]);
    assert_eq!(texture.width, 2);
    assert_eq!(texture.height, 1);
}

#[test]
fn bgr_texture_gets_alpha_channel() {
    let pixels = vec![9, 8, 7];
    let texture = Texture::new(pixels, TextureFormat::B8G8R8, 1, 1, sampler()).unwrap();
    assert_eq!(texture.format, TextureFormat::B8G8R8A8);
    assert_eq!(texture.pixels, vec![9, 8, 7, 255]);
}

#[test]
fn rgb_texture_ignores_extra_bytes() {
    let pixels = vec![1, 2, 3, 4, 5, 6, 7];
    let texture = Texture::new(pixels, TextureFormat::R8G8B8, 2, 1, sampler()).unwrap();
    assert_eq!(texture.pixels, vec![1, 2, 3, 255, 4, 5, 6, 255]);
}

#[test]
fn rgb_texture_too_short_is_refused() {
    let pixels = vec![1, 2, 3, 4, 5];
    let result = Texture::new(pixels, TextureFormat::R8G8B8, 2, 1, sampler());
    assert!(matches!(result, Err(TextureError::CreateImageBuffer)));
}

#[test]
fn other_formats_are_kept() {
    let pixels = vec![1, 2, 3];
    let texture = Texture::new(pixels, TextureFormat::R8, 3, 1, sampler()).unwrap();
    assert_eq!(texture.format, TextureFormat::R8);
    assert_eq!(texture.pixels, vec![1, 2, 3]);
}

#[test]
fn map_format_of_image_kinds() {
    assert_eq!(Texture::map_format(ImageKind::Rgb8).unwrap(), TextureFormat::R8G8B8);
    assert_eq!(Texture::map_format(ImageKind::Rgba8).unwrap(), TextureFormat::R8G8B8A8);
    assert_eq!(Texture::map_format(ImageKind::Rgb16).unwrap(), TextureFormat::R16G16B16);
    assert_eq!(Texture::map_format(ImageKind::Rgba16).unwrap(), TextureFormat::R16G16B16A16);
    assert_eq!(Texture::map_format(ImageKind::Rgba32F).unwrap(), TextureFormat::R32G32B32A32F);
    assert!(matches!(Texture::map_format(ImageKind::Luma8), Err(TextureError::MapFormat)));
    assert!(matches!(Texture::map_format(ImageKind::Rgb32F), Err(TextureError::MapFormat)));
}

#[test]
fn bytes_per_pixel_and_row() {
    let texture = Texture::new(vec![0; 12 * 3], TextureFormat::R32G32B32F, 3, 1, sampler()).unwrap();
    assert_eq!(texture.bytes_per_pixel(), 12);
    assert_eq!(texture.bytes_per_row(), 36);
    assert_eq!(texture.padded_bytes_per_row(256), 256);
    assert_eq!(texture.padded_bytes_per_row(4), 36);
    assert_eq!(texture.padded_bytes_per_row(5), 40);
    let rgba = Texture::new(vec![0; 4 * 64], TextureFormat::R8G8B8A8, 64, 1, sampler()).unwrap();
    assert_eq!(rgba.bytes_per_row(), 256);
    assert_eq!(rgba.padded_bytes_per_row(256), 256);
    let r16 = Texture::new(vec![0; 2], TextureFormat::R16F, 1, 1, sampler()).unwrap();
    assert_eq!(r16.bytes_per_pixel(), 2);
}

#[test]
fn defaults() {
    assert_eq!(WrappingMode::default(), WrappingMode::Repeat);
    assert_eq!(Filter::default(), Filter::Nearest);
    assert_eq!(AlphaMode::default(), AlphaMode::Opaque);
    let sampler = Sampler::default();
    assert_eq!(sampler.name, "");
    assert_eq!(sampler.min_filter, Filter::Nearest);
    assert_eq!(sampler.wrap_t, WrappingMode::Repeat);
}

#[test]
fn gpu_texture_formats() {
    assert_eq!(map_texture_format(TextureFormat::R8G8B8A8).unwrap(), GpuTextureFormat::Rgba8Unorm);
    assert_eq!(map_texture_format(TextureFormat::B8G8R8A8).unwrap(), GpuTextureFormat::Bgra8Unorm);
    assert_eq!(map_texture_format(TextureFormat::R32F).unwrap(), GpuTextureFormat::R32Float);
    assert_eq!(map_texture_format(TextureFormat::R16G16F).unwrap(), GpuTextureFormat::Rg16Float);
    match map_texture_format(TextureFormat::R8G8B8) {
        Err(GpuTextureError::UnsupportedTextureFormat(f)) => assert_eq!(f, TextureFormat::R8G8B8),
        _ => panic!("three-channel formats have no GPU format"),
    }
    assert!(map_texture_format(TextureFormat::R32G32B32F).is_err());
    assert_eq!(DEPTH_FORMAT, GpuTextureFormat::Depth32Float);
}

#[test]
fn gpu_sampler() {
    let sampler = Sampler {
        name: "s".to_string(),
        min_filter: Filter::Linear,
        mag_filter: Filter::Nearest,
        wrap_s: WrappingMode::ClampToEdge,
        wrap_t: WrappingMode::MirroredRepeat,
    };
    assert_eq!(
        map_sampler(&sampler),
        SamplerDescriptor {
            address_mode_u: AddressMode::ClampToEdge,
            address_mode_v: AddressMode::MirrorRepeat,
            address_mode_w: AddressMode::Repeat,
            mag_filter: FilterMode::Nearest,
            min_filter: FilterMode::Linear,
            mipmap_filter: FilterMode::Linear,
        }
    );
}
