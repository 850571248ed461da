//! Typed view of the GPU state that the host application reports, and its
//! classification before any backend-specific code runs.
use vstd::prelude::*;

verus! {

/// The GPU framework the host selected for rendering.
#[derive(Clone, Copy, Debug, PartialEq, Eq, Structural)]
pub enum AeGpuFramework {
    DirectX11,
    DirectX12,
    Metal,
    Cuda,
    OpenGL,
    Unknown(u32),
}

/// Outcome of classifying the host's GPU state.
#[derive(Clone, Copy, Debug, PartialEq, Eq, Structural)]
pub enum NativeProbeStatus {
    UnsupportedFramework,
    MissingDeviceInfo,
    MissingFrameHandle,
    ReadyForBackend,
}

/// Pixel format of a native GPU frame.
#[derive(Clone, Copy, Debug, PartialEq, Eq, Structural)]
pub enum NativePixelFormat {
    Rgba8Unorm,
    Bgra8Unorm,
    Rgba16Float,
    Rgba32Float,
    Unknown(u32),
}

/// How a render pass may touch a native GPU frame.
#[derive(Clone, Copy, Debug, PartialEq, Eq, Structural)]
pub enum NativeFrameAccess {
    ReadOnly,
    WriteOnly,
    ReadWrite,
}

/// A native resource handle. Pointer-shaped handles are carried as their
/// address; they are only ever compared and passed along, never dereferenced.
#[derive(Clone, Copy, Debug, PartialEq, Eq, Structural)]
pub enum NativeHandle {
    D3D11Texture2D(usize),
    D3D12Resource(usize),
    MetalTexture(usize),
    CudaDevicePtr(u64),
    Unsupported,
}

#[derive(Clone, Copy, Debug, PartialEq, Eq, Structural)]
pub struct AeGpuDeviceProbe {
    pub framework: AeGpuFramework,
    pub device_index: i32,
    pub can_render_f32: bool,
}

#[derive(Clone, Copy, Debug, PartialEq, Eq, Structural)]
pub struct AeGpuFrameProbe {
    pub device: AeGpuDeviceProbe,
    pub width: u32,
    pub height: u32,
    pub format: NativePixelFormat,
    pub access: NativeFrameAccess,
    pub handle: NativeHandle,
}

/// Frameworks for which a native backend can exist.
pub open spec fn framework_supported(framework: AeGpuFramework) -> bool {
    !(framework is OpenGL) && !(framework is Unknown)
}

/// The handle variant is the one that the framework hands out.
pub open spec fn handle_fits_framework(handle: NativeHandle, framework: AeGpuFramework) -> bool {
    ||| handle is D3D11Texture2D && framework is DirectX11
    ||| handle is D3D12Resource && framework is DirectX12
    ||| handle is MetalTexture && framework is Metal
    ||| handle is CudaDevicePtr && framework is Cuda
}

pub open spec fn device_status(probe: AeGpuDeviceProbe) -> NativeProbeStatus {
    if !framework_supported(probe.framework) {
        NativeProbeStatus::UnsupportedFramework
    } else if !probe.can_render_f32 {
        NativeProbeStatus::MissingDeviceInfo
    } else {
        NativeProbeStatus::ReadyForBackend
    }
}

pub open spec fn frame_status(probe: AeGpuFrameProbe) -> NativeProbeStatus {
    if device_status(probe.device) != NativeProbeStatus::ReadyForBackend {
        device_status(probe.device)
    } else if probe.width == 0 || probe.height == 0 || probe.handle is Unsupported
        || !handle_fits_framework(probe.handle, probe.device.framework) {
        NativeProbeStatus::MissingFrameHandle
    } else {
        NativeProbeStatus::ReadyForBackend
    }
}

impl AeGpuDeviceProbe {
    /// Unsupported frameworks are rejected first; a supported framework is
    /// ready only when the device can render 32-bit float frames.
    pub fn classify(self) -> (status: NativeProbeStatus)
        ensures
            status == device_status(self),
    {
        match self.framework {
            AeGpuFramework::Unknown(_) | AeGpuFramework::OpenGL => {
                NativeProbeStatus::UnsupportedFramework
            },
            _ => {
                if !self.can_render_f32 {
                    NativeProbeStatus::MissingDeviceInfo
                } else {
                    NativeProbeStatus::ReadyForBackend
                }
            },
        }
    }
}

impl AeGpuFrameProbe {
    /// A frame is ready only when its device is ready, it has a nonzero
    /// extent, and it carries a handle of the variant its framework uses.
    pub fn classify(self) -> (status: NativeProbeStatus)
        ensures
            status == frame_status(self),
            status == NativeProbeStatus::ReadyForBackend <==> {
                &&& framework_supported(self.device.framework)
                &&& self.device.can_render_f32
                &&& self.width > 0
                &&& self.height > 0
                &&& handle_fits_framework(self.handle, self.device.framework)
            },
    {
        match self.device.classify() {
            NativeProbeStatus::ReadyForBackend => {},
            status => {
                return status;
            },
        }
        if self.width == 0 || self.height == 0 || matches!(self.handle, NativeHandle::Unsupported) {
            return NativeProbeStatus::MissingFrameHandle;
        }
        if !handle_matches_framework(self.handle, self.device.framework) {
            return NativeProbeStatus::MissingFrameHandle;
        }
        NativeProbeStatus::ReadyForBackend
    }
}

fn handle_matches_framework(handle: NativeHandle, framework: AeGpuFramework) -> (matched: bool)
    ensures
        matched == handle_fits_framework(handle, framework),
{
    match (handle, framework) {
        (NativeHandle::D3D11Texture2D(_), AeGpuFramework::DirectX11) => true,
        (NativeHandle::D3D12Resource(_), AeGpuFramework::DirectX12) => true,
        (NativeHandle::MetalTexture(_), AeGpuFramework::Metal) => true,
        (NativeHandle::CudaDevicePtr(_), AeGpuFramework::Cuda) => true,
        _ => false,
    }
}

/// A frame from a device that can render 32-bit float frames on a supported
/// framework, with a nonzero extent and the handle variant of that framework,
/// is ready; with any other handle it misses its frame handle.
pub proof fn lemma_frame_handle_classification(probe: AeGpuFrameProbe)
    requires
        !(probe.device.framework is OpenGL) && !(probe.device.framework is Unknown),
        probe.device.can_render_f32,
        probe.width > 0,
        probe.height > 0,
    ensures
        ((probe.device.framework is DirectX11 && probe.handle is D3D11Texture2D)
            || (probe.device.framework is DirectX12 && probe.handle is D3D12Resource)
            || (probe.device.framework is Metal && probe.handle is MetalTexture)
            || (probe.device.framework is Cuda && probe.handle is CudaDevicePtr))
            ==> frame_status(probe) == NativeProbeStatus::ReadyForBackend,
        !((probe.device.framework is DirectX11 && probe.handle is D3D11Texture2D)
            || (probe.device.framework is DirectX12 && probe.handle is D3D12Resource)
            || (probe.device.framework is Metal && probe.handle is MetalTexture)
            || (probe.device.framework is Cuda && probe.handle is CudaDevicePtr))
            ==> frame_status(probe) == NativeProbeStatus::MissingFrameHandle,
{
}

/// OpenGL and unknown frameworks are refused whatever else the probe says;
/// a supported framework without float rendering misses device information.
pub proof fn lemma_device_classification(probe: AeGpuDeviceProbe)
    ensures
        (probe.framework is OpenGL || probe.framework is Unknown)
            ==> device_status(probe) == NativeProbeStatus::UnsupportedFramework,
        !(probe.framework is OpenGL || probe.framework is Unknown) && !probe.can_render_f32
            ==> device_status(probe) == NativeProbeStatus::MissingDeviceInfo,
        !(probe.framework is OpenGL || probe.framework is Unknown) && probe.can_render_f32
            ==> device_status(probe) == NativeProbeStatus::ReadyForBackend,
{
}

} // verus!
