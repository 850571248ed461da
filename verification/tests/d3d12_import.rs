use ae_gpu_lab::d3d12::{D3D12ExternalImporter, D3D12ImportPlan};
use ae_gpu_lab::external::{
    BackendExternalImporter, ExternalAccess, ExternalBackend, ExternalFormat, ExternalFrameDesc,
    ExternalFrameRef, ExternalHandle, ExternalImporter, ImportError,
};

#[test]
fn d3d12_plan_requires_sync_and_ownership_before_import() {
    let importer = D3D12ExternalImporter {
        plan: D3D12ImportPlan {
            synchronization_defined: false,
            ownership_defined: false,
            allow_write_access: false,
        },
    };
    let frame = ExternalFrameRef {
        desc: ExternalFrameDesc {
            backend: ExternalBackend::D3D12,
            width: 1920,
            height: 1080,
            format: ExternalFormat::Rgba32Float,
            access: ExternalAccess::ReadOnly,
        },
        handle: ExternalHandle::D3D12Resource(0x1234usize),
    };

    assert!(importer.backend_preflight(frame).validate().is_err());
}

#[test]
fn d3d12_settled_plan_passes_preflight_but_import_is_not_implemented() {
    let importer = D3D12ExternalImporter {
        plan: D3D12ImportPlan {
            synchronization_defined: true,
            ownership_defined: true,
            allow_write_access: true,
        },
    };
    let frame = ExternalFrameRef {
        desc: ExternalFrameDesc {
            backend: ExternalBackend::D3D12,
            width: 16,
            height: 16,
            format: ExternalFormat::Rgba8Unorm,
            access: ExternalAccess::ReadWrite,
        },
        handle: ExternalHandle::D3D12Resource(0x99),
    };
    assert!(importer.backend_preflight(frame).validate().is_ok());
    assert_eq!(
        importer.import_frame_checked(frame),
        Err(ImportError::D3D12ImportNotImplemented)
    );
    assert_eq!(
        importer.import_frame(frame),
        Err(ImportError::D3D12ImportNotImplemented)
    );
    assert_eq!(importer.active_backend(), ExternalBackend::D3D12);
}
