//! Choice of the rendering backend.
use vstd::prelude::*;

verus! {

/// The rendering backends an application can ask for.
#[derive(Clone, Copy, Debug, PartialEq, Eq, Structural)]
pub enum Backend {
    Dx11,
    Dx12,
    Metal,
    Vulkan,
    VulkanWgpu,
    OpenGL,
}

/// The graphics APIs the wgpu renderer can run on.
#[derive(Clone, Copy, Debug, PartialEq, Eq, Structural)]
pub enum WgpuBackend {
    Empty,
    Vulkan,
    Metal,
    Dx12,
    Dx11,
    Gl,
    BrowserWebGpu,
}

/// The device an application gets for a backend: the native Vulkan device,
/// or the wgpu renderer on some graphics API.
#[derive(Clone, Copy, Debug, PartialEq, Eq, Structural)]
pub enum RendererKind {
    Vulkan,
    Wgpu(WgpuBackend),
}

/// The graphics API that the wgpu renderer uses for a backend: DirectX 11,
/// DirectX 12 and Metal map to themselves, every other backend to Vulkan.
pub open spec fn wgpu_backend(backend: Backend) -> WgpuBackend {
    match backend {
        Backend::Dx11 => WgpuBackend::Dx11,
        Backend::Dx12 => WgpuBackend::Dx12,
        Backend::Metal => WgpuBackend::Metal,
        _ => WgpuBackend::Vulkan,
    }
}

/// The graphics API that the wgpu renderer uses for a backend.
pub fn map_backend(backend: &Backend) -> (r: WgpuBackend)
    ensures
        r == wgpu_backend(*backend),
        *backend == Backend::Dx11 ==> r == WgpuBackend::Dx11,
        *backend == Backend::Dx12 ==> r == WgpuBackend::Dx12,
        *backend == Backend::Metal ==> r == WgpuBackend::Metal,
        *backend == Backend::Vulkan || *backend == Backend::VulkanWgpu || *backend == Backend::OpenGL ==> r
            == WgpuBackend::Vulkan,
{
    match backend {
        Backend::Dx11 => WgpuBackend::Dx11,
        Backend::Dx12 => WgpuBackend::Dx12,
        Backend::Metal => WgpuBackend::Metal,
        _ => WgpuBackend::Vulkan,
    }
}

/// The device `create_renderer` builds for a backend: the native Vulkan
/// device for `Vulkan`, the wgpu renderer otherwise.
pub fn renderer_kind(backend: &Backend) -> (r: RendererKind)
    ensures
        *backend == Backend::Vulkan ==> r == RendererKind::Vulkan,
        *backend != Backend::Vulkan ==> r == RendererKind::Wgpu(wgpu_backend(*backend)),
{
    if let Backend::Vulkan = backend {
        RendererKind::Vulkan
    } else {
        RendererKind::Wgpu(map_backend(backend))
    }
}

/// The native Vulkan rendering device.
#[derive(Clone, Copy, Debug, PartialEq, Eq, Structural)]
pub struct VulkanGpuDevice;

/// A rendering device that draws nothing.
#[derive(Clone, Copy, Debug, Default, PartialEq, Eq, Structural)]
pub struct VulkanDevice;

} // verus!
