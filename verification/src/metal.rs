//! Metal import entry point. The import itself is not implemented; the plan
//! makes the access, synchronization and ownership decisions explicit so that
//! the backend preflight can refuse a frame before any resource is wrapped.
use vstd::prelude::*;
use crate::external::{
    after_check, backend_preflight_outcome, conservative_backend_preflight, conservative_of,
    preflight_of, preflight_outcome, BackendExternalImporter,
    BackendImportPreflight, ExternalAccess, ExternalBackend, ExternalFrameRef, ExternalImporter,
    ImportError, ImportedFrameToken,
};

verus! {

#[derive(Clone, Copy, Debug)]
pub struct MetalImportPlan {
    pub synchronization_defined: bool,
    pub ownership_defined: bool,
    pub allow_write_access: bool,
}

#[derive(Clone, Copy, Debug)]
pub struct MetalExternalImporter {
    pub plan: MetalImportPlan,
}

/// The conservative preflight, with access widened to writable frames when
/// the plan allows it, and synchronization and ownership taken from the plan.
pub open spec fn metal_preflight_of(plan: MetalImportPlan, frame: ExternalFrameRef) -> BackendImportPreflight {
    BackendImportPreflight {
        common: conservative_of(frame, ExternalBackend::Metal).common,
        access_supported: frame.desc.access == ExternalAccess::ReadOnly || plan.allow_write_access,
        synchronization_defined: plan.synchronization_defined,
        ownership_defined: plan.ownership_defined,
    }
}

impl ExternalImporter for MetalExternalImporter {
    open spec fn backend_spec(&self) -> ExternalBackend {
        ExternalBackend::Metal
    }

    open spec fn unchecked_import_spec(&self, frame: ExternalFrameRef) -> Result<ImportedFrameToken, ImportError> {
        Err(ImportError::MetalImportNotImplemented)
    }

    fn active_backend(&self) -> (backend: ExternalBackend) {
        ExternalBackend::Metal
    }

    fn import_frame_unchecked(&self, _frame: ExternalFrameRef) -> (r: Result<ImportedFrameToken, ImportError>) {
        Err(ImportError::MetalImportNotImplemented)
    }
}

impl BackendExternalImporter for MetalExternalImporter {
    open spec fn backend_preflight_spec(&self, frame: ExternalFrameRef) -> BackendImportPreflight {
        metal_preflight_of(self.plan, frame)
    }

    fn backend_preflight(&self, frame: ExternalFrameRef) -> (p: BackendImportPreflight) {
        let mut preflight = conservative_backend_preflight(frame, self.active_backend());
        preflight.access_supported = frame.desc.access == ExternalAccess::ReadOnly
            || self.plan.allow_write_access;
        preflight.synchronization_defined = self.plan.synchronization_defined;
        preflight.ownership_defined = self.plan.ownership_defined;
        preflight
    }
}

/// The backend preflight passes exactly when the common preflight passes
/// against Metal, the frame is read-only or the plan allows writing, and the
/// plan settles both synchronization and ownership.
pub proof fn lemma_metal_preflight_passes(plan: MetalImportPlan, frame: ExternalFrameRef)
    ensures
        backend_preflight_outcome(metal_preflight_of(plan, frame)) is Ok <==> {
            &&& preflight_outcome(preflight_of(frame, ExternalBackend::Metal)) is Ok
            &&& (frame.desc.access == ExternalAccess::ReadOnly || plan.allow_write_access)
            &&& plan.synchronization_defined
            &&& plan.ownership_defined
        },
{
}

/// A frame that may be written is refused unless the plan allows writing.
pub proof fn lemma_metal_write_access_needs_plan(plan: MetalImportPlan, frame: ExternalFrameRef)
    requires
        frame.desc.access != ExternalAccess::ReadOnly,
        !plan.allow_write_access,
    ensures
        backend_preflight_outcome(metal_preflight_of(plan, frame)) is Err,
{
}

/// No Metal import succeeds yet, whichever entry point is used.
pub proof fn lemma_metal_import_not_implemented(importer: MetalExternalImporter, frame: ExternalFrameRef)
    ensures
        after_check(
            backend_preflight_outcome(importer.backend_preflight_spec(frame)),
            importer.unchecked_import_spec(frame),
        ) is Err,
        after_check(
            preflight_outcome(preflight_of(frame, importer.backend_spec())),
            importer.unchecked_import_spec(frame),
        ) is Err,
{
}

} // verus!
