use ae_gpu_lab::external::{
    conservative_backend_preflight, from_ae_probe, preflight, ExternalAccess, ExternalBackend,
    ExternalFormat, ExternalFrameDesc, ExternalFrameRef, ExternalHandle, ExternalImporter,
    ImportError, MockExternalImporter,
};
use ae_gpu_lab::probe::{
    AeGpuDeviceProbe, AeGpuFrameProbe, AeGpuFramework, NativeFrameAccess, NativeHandle,
    NativePixelFormat, NativeProbeStatus,
};

#[test]
fn converts_native_probe_to_external_frame() {
    let probe = AeGpuFrameProbe {
        device: AeGpuDeviceProbe {
            framework: AeGpuFramework::Metal,
            device_index: 0,
            can_render_f32: true,
        },
        width: 3840,
        height: 2160,
        format: NativePixelFormat::Rgba16Float,
        access: NativeFrameAccess::ReadWrite,
        handle: NativeHandle::MetalTexture(0x1234usize),
    };
    assert_eq!(probe.classify(), NativeProbeStatus::ReadyForBackend);

    let external = from_ae_probe(probe).expect("Metal probe should convert");
    assert_eq!(external.desc.backend, ExternalBackend::Metal);
    assert_eq!(external.desc.format, ExternalFormat::Rgba16Float);
    preflight(external, ExternalBackend::Metal)
        .validate()
        .expect("matching backend should pass preflight");
}

#[test]
fn preflight_rejects_backend_mismatch() {
    let frame = ExternalFrameRef {
        desc: ExternalFrameDesc {
            backend: ExternalBackend::D3D12,
            width: 1920,
            height: 1080,
            format: ExternalFormat::Rgba32Float,
            access: ExternalAccess::ReadWrite,
        },
        handle: ExternalHandle::D3D12Resource(0x1234usize),
    };

    assert!(preflight(frame, ExternalBackend::Metal).validate().is_err());
}

#[test]
fn mock_importer_uses_preflight_before_import() {
    let importer = MockExternalImporter {
        backend: ExternalBackend::D3D12,
    };
    let frame = ExternalFrameRef {
        desc: ExternalFrameDesc {
            backend: ExternalBackend::D3D12,
            width: 1280,
            height: 720,
            format: ExternalFormat::Rgba32Float,
            access: ExternalAccess::ReadWrite,
        },
        handle: ExternalHandle::D3D12Resource(0x1234usize),
    };

    let token = importer
        .import_frame(frame)
        .expect("valid frame should pass mock import");
    assert_eq!(token.backend, ExternalBackend::D3D12);
    assert_eq!(token.width, 1280);
    assert_eq!(token.height, 720);
}

#[test]
fn conservative_backend_preflight_rejects_missing_sync_and_ownership() {
    let frame = ExternalFrameRef {
        desc: ExternalFrameDesc {
            backend: ExternalBackend::D3D12,
            width: 1280,
            height: 720,
            format: ExternalFormat::Rgba32Float,
            access: ExternalAccess::ReadOnly,
        },
        handle: ExternalHandle::D3D12Resource(0x1234usize),
    };

    let preflight = conservative_backend_preflight(frame, ExternalBackend::D3D12);
    assert!(preflight.common.validate().is_ok());
    assert!(preflight.validate().is_err());
}

fn d3d12_frame() -> ExternalFrameRef {
    ExternalFrameRef {
        desc: ExternalFrameDesc {
            backend: ExternalBackend::D3D12,
            width: 64,
            height: 32,
            format: ExternalFormat::Rgba8Unorm,
            access: ExternalAccess::ReadOnly,
        },
        handle: ExternalHandle::D3D12Resource(0x40),
    }
}

#[test]
fn preflight_reports_the_first_failing_check() {
    let mut frame = d3d12_frame();
    assert_eq!(
        preflight(frame, ExternalBackend::Vulkan).validate(),
        Err(ImportError::BackendMismatch)
    );
    frame.desc.format = ExternalFormat::Unknown(99);
    assert_eq!(
        preflight(frame, ExternalBackend::D3D12).validate(),
        Err(ImportError::UnsupportedFormat)
    );
    frame.desc.format = ExternalFormat::Bgra8Unorm;
    frame.desc.width = 0;
    assert_eq!(
        preflight(frame, ExternalBackend::D3D12).validate(),
        Err(ImportError::EmptyExtent)
    );
    frame.desc.width = 64;
    frame.handle = ExternalHandle::MetalTexture(0x40);
    assert_eq!(
        preflight(frame, ExternalBackend::D3D12).validate(),
        Err(ImportError::HandleBackendMismatch)
    );
}

#[test]
fn conservative_preflight_refusal_order() {
    let mut frame = d3d12_frame();
    frame.desc.access = ExternalAccess::WriteOnly;
    let p = conservative_backend_preflight(frame, ExternalBackend::D3D12);
    assert!(!p.access_supported);
    assert_eq!(p.validate(), Err(ImportError::AccessUnsupported));
    frame.desc.access = ExternalAccess::ReadOnly;
    let p = conservative_backend_preflight(frame, ExternalBackend::D3D12);
    assert_eq!(p.validate(), Err(ImportError::SynchronizationUndefined));
    let mut p = p;
    p.synchronization_defined = true;
    assert_eq!(p.validate(), Err(ImportError::OwnershipUndefined));
    p.ownership_defined = true;
    assert_eq!(p.validate(), Ok(()));
}

#[test]
fn mock_importer_refuses_frame_for_other_backend() {
    let importer = MockExternalImporter {
        backend: ExternalBackend::Metal,
    };
    assert_eq!(importer.active_backend(), ExternalBackend::Metal);
    assert_eq!(
        importer.import_frame(d3d12_frame()),
        Err(ImportError::BackendMismatch)
    );
    let token = importer.import_frame_unchecked(d3d12_frame()).unwrap();
    assert_eq!(token.format, ExternalFormat::Rgba8Unorm);
}

#[test]
fn probe_without_external_counterpart_does_not_convert() {
    let mut probe = AeGpuFrameProbe {
        device: AeGpuDeviceProbe {
            framework: AeGpuFramework::OpenGL,
            device_index: 1,
            can_render_f32: true,
        },
        width: 10,
        height: 10,
        format: NativePixelFormat::Unknown(3),
        access: NativeFrameAccess::WriteOnly,
        handle: NativeHandle::CudaDevicePtr(5),
    };
    assert_eq!(from_ae_probe(probe), None);
    probe.device.framework = AeGpuFramework::Cuda;
    let f = from_ae_probe(probe).unwrap();
    assert_eq!(f.desc.backend, ExternalBackend::Cuda);
    assert_eq!(f.desc.format, ExternalFormat::Unknown(3));
    assert_eq!(f.desc.access, ExternalAccess::WriteOnly);
    assert_eq!(f.handle, ExternalHandle::CudaDevicePtr(5));
    assert_eq!(
        preflight(f, ExternalBackend::Cuda).validate(),
        Err(ImportError::UnsupportedFormat)
    );
    probe.handle = NativeHandle::Unsupported;
    assert_eq!(from_ae_probe(probe), None);
}

#[test]
fn import_errors_have_messages() {
    assert_eq!(
        ImportError::BackendMismatch.message(),
        "external resource backend does not match the active wgpu-hal backend"
    );
    assert_eq!(
        ImportError::D3D12ImportNotImplemented.message(),
        "D3D12 wgpu-hal external import is not implemented yet"
    );
}
