use ae_gpu_lab::external::{
    BackendExternalImporter, ExternalAccess, ExternalBackend, ExternalFormat, ExternalFrameDesc,
    ExternalFrameRef, ExternalHandle, ExternalImporter, ImportError,
};
use ae_gpu_lab::metal::{MetalExternalImporter, MetalImportPlan};

#[test]
fn metal_plan_accepts_readwrite_only_when_write_access_allowed() {
    let importer = MetalExternalImporter {
        plan: MetalImportPlan {
            synchronization_defined: true,
            ownership_defined: true,
            allow_write_access: false,
        },
    };
    let frame = ExternalFrameRef {
        desc: ExternalFrameDesc {
            backend: ExternalBackend::Metal,
            width: 1920,
            height: 1080,
            format: ExternalFormat::Rgba16Float,
            access: ExternalAccess::ReadWrite,
        },
        handle: ExternalHandle::MetalTexture(0x1234usize),
    };

    assert!(importer.backend_preflight(frame).validate().is_err());
}

#[test]
fn metal_plan_with_write_access_passes_preflight() {
    let importer = MetalExternalImporter {
        plan: MetalImportPlan {
            synchronization_defined: true,
            ownership_defined: true,
            allow_write_access: true,
        },
    };
    let frame = ExternalFrameRef {
        desc: ExternalFrameDesc {
            backend: ExternalBackend::Metal,
            width: 1920,
            height: 1080,
            format: ExternalFormat::Rgba16Float,
            access: ExternalAccess::ReadWrite,
        },
        handle: ExternalHandle::MetalTexture(0x1234usize),
    };
    assert_eq!(importer.backend_preflight(frame).validate(), Ok(()));
    assert_eq!(
        importer.import_frame_checked(frame),
        Err(ImportError::MetalImportNotImplemented)
    );
    let mut wrong = frame;
    wrong.desc.backend = ExternalBackend::D3D12;
    assert_eq!(
        importer.import_frame(wrong),
        Err(ImportError::BackendMismatch)
    );
}
