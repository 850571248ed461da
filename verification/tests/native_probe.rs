use ae_gpu_lab::probe::{
    AeGpuDeviceProbe, AeGpuFrameProbe, AeGpuFramework, NativeFrameAccess, NativeHandle,
    NativePixelFormat, NativeProbeStatus,
};

fn frame(framework: AeGpuFramework, handle: NativeHandle) -> AeGpuFrameProbe {
    AeGpuFrameProbe {
        device: AeGpuDeviceProbe {
            framework,
            device_index: 0,
            can_render_f32: true,
        },
        width: 1920,
        height: 1080,
        format: NativePixelFormat::Rgba32Float,
        access: NativeFrameAccess::ReadWrite,
        handle,
    }
}

#[test]
fn classifies_matching_native_frame_as_ready() {
    let frame = AeGpuFrameProbe {
        device: AeGpuDeviceProbe {
            framework: AeGpuFramework::DirectX12,
            device_index: 0,
            can_render_f32: true,
        },
        width: 1920,
        height: 1080,
        format: NativePixelFormat::Rgba32Float,
        access: NativeFrameAccess::ReadWrite,
        handle: NativeHandle::D3D12Resource(0x1234usize),
    };

    assert_eq!(frame.classify(), NativeProbeStatus::ReadyForBackend);
}

#[test]
fn rejects_mismatched_handle_type() {
    let frame = AeGpuFrameProbe {
        device: AeGpuDeviceProbe {
            framework: AeGpuFramework::Metal,
            device_index: 0,
            can_render_f32: true,
        },
        width: 1920,
        height: 1080,
        format: NativePixelFormat::Rgba16Float,
        access: NativeFrameAccess::ReadWrite,
        handle: NativeHandle::D3D12Resource(0x1234usize),
    };

    assert_eq!(frame.classify(), NativeProbeStatus::MissingFrameHandle);
}

#[test]
fn unsupported_frameworks_are_rejected_first() {
    let mut f = frame(AeGpuFramework::OpenGL, NativeHandle::Unsupported);
    f.width = 0;
    assert_eq!(f.classify(), NativeProbeStatus::UnsupportedFramework);
    let f = frame(AeGpuFramework::Unknown(7), NativeHandle::CudaDevicePtr(1));
    assert_eq!(f.classify(), NativeProbeStatus::UnsupportedFramework);
}

#[test]
fn device_without_float_rendering_misses_device_info() {
    let mut f = frame(AeGpuFramework::Cuda, NativeHandle::CudaDevicePtr(0x10));
    f.device.can_render_f32 = false;
    assert_eq!(f.classify(), NativeProbeStatus::MissingDeviceInfo);
    assert_eq!(f.device.classify(), NativeProbeStatus::MissingDeviceInfo);
}

#[test]
fn empty_extent_or_missing_handle_misses_frame_handle() {
    let mut f = frame(AeGpuFramework::Cuda, NativeHandle::CudaDevicePtr(0x10));
    f.height = 0;
    assert_eq!(f.classify(), NativeProbeStatus::MissingFrameHandle);
    let f = frame(AeGpuFramework::Metal, NativeHandle::Unsupported);
    assert_eq!(f.classify(), NativeProbeStatus::MissingFrameHandle);
}

#[test]
fn every_framework_accepts_its_own_handle() {
    let pairs = [
        (AeGpuFramework::DirectX11, NativeHandle::D3D11Texture2D(1)),
        (AeGpuFramework::DirectX12, NativeHandle::D3D12Resource(1)),
        (AeGpuFramework::Metal, NativeHandle::MetalTexture(1)),
        (AeGpuFramework::Cuda, NativeHandle::CudaDevicePtr(1)),
    ];
    for (fw, handle) in pairs {
        assert_eq!(frame(fw, handle).classify(), NativeProbeStatus::ReadyForBackend);
    }
}
