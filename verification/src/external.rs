//! Boundary for importing a native GPU resource without copying it. Nothing is
//! imported here: the module states what an import attempt must establish
//! (the preflight) before any backend-specific code may touch the resource.
use vstd::prelude::*;
use crate::probe::{
    AeGpuFrameProbe, AeGpuFramework, NativeFrameAccess, NativeHandle, NativePixelFormat,
};

verus! {

#[derive(Clone, Copy, Debug, PartialEq, Eq, Structural)]
pub enum ExternalBackend {
    D3D11,
    D3D12,
    Metal,
    Vulkan,
    Cuda,
}

#[derive(Clone, Copy, Debug, PartialEq, Eq, Structural)]
pub enum ExternalFormat {
    Rgba8Unorm,
    Bgra8Unorm,
    Rgba16Float,
    Rgba32Float,
    Unknown(u32),
}

#[derive(Clone, Copy, Debug, PartialEq, Eq, Structural)]
pub enum ExternalAccess {
    ReadOnly,
    WriteOnly,
    ReadWrite,
}

#[derive(Clone, Copy, Debug, PartialEq, Eq, Structural)]
pub struct ExternalFrameDesc {
    pub backend: ExternalBackend,
    pub width: u32,
    pub height: u32,
    pub format: ExternalFormat,
    pub access: ExternalAccess,
}

/// A resource handle; pointer-shaped handles are carried as their address.
#[derive(Clone, Copy, Debug, PartialEq, Eq, Structural)]
pub enum ExternalHandle {
    D3D11Texture2D(usize),
    D3D12Resource(usize),
    MetalTexture(usize),
    VulkanImage(u64),
    CudaDevicePtr(u64),
}

#[derive(Clone, Copy, Debug, PartialEq, Eq, Structural)]
pub struct ExternalFrameRef {
    pub desc: ExternalFrameDesc,
    pub handle: ExternalHandle,
}

#[derive(Clone, Copy, Debug, PartialEq, Eq, Structural)]
pub struct ImportedFrameToken {
    pub backend: ExternalBackend,
    pub width: u32,
    pub height: u32,
    pub format: ExternalFormat,
}

#[derive(Clone, Copy, Debug, PartialEq, Eq, Structural)]
pub struct ImportPreflight {
    pub has_matching_backend: bool,
    pub has_supported_format: bool,
    pub has_nonzero_extent: bool,
    pub handle_matches_backend: bool,
}

#[derive(Clone, Copy, Debug, PartialEq, Eq, Structural)]
pub struct BackendImportPreflight {
    pub common: ImportPreflight,
    pub access_supported: bool,
    pub synchronization_defined: bool,
    pub ownership_defined: bool,
}

/// Why an import attempt was refused.
#[derive(Clone, Copy, Debug, PartialEq, Eq, Structural)]
pub enum ImportError {
    BackendMismatch,
    UnsupportedFormat,
    EmptyExtent,
    HandleBackendMismatch,
    AccessUnsupported,
    SynchronizationUndefined,
    OwnershipUndefined,
    D3D12ImportNotImplemented,
    MetalImportNotImplemented,
}

impl ImportError {
    /// The human-readable reason for the refusal.
    pub fn message(&self) -> (text: &'static str)
        ensures
            text@ == import_error_text(*self)@,
    {
        match self {
            ImportError::BackendMismatch => "external resource backend does not match the active wgpu-hal backend",
            ImportError::UnsupportedFormat => "external resource format is not supported by this import path",
            ImportError::EmptyExtent => "external resource extent is empty",
            ImportError::HandleBackendMismatch => "external handle type does not match its declared backend",
            ImportError::AccessUnsupported => "external resource access mode is not supported by this backend path",
            ImportError::SynchronizationUndefined => "external resource synchronization contract is not defined",
            ImportError::OwnershipUndefined => "external resource ownership/lifetime contract is not defined",
            ImportError::D3D12ImportNotImplemented => "D3D12 wgpu-hal external import is not implemented yet",
            ImportError::MetalImportNotImplemented => "Metal wgpu-hal external import is not implemented yet",
        }
    }
}

pub open spec fn import_error_text(e: ImportError) -> &'static str {
    match e {
        ImportError::BackendMismatch => "external resource backend does not match the active wgpu-hal backend",
        ImportError::UnsupportedFormat => "external resource format is not supported by this import path",
        ImportError::EmptyExtent => "external resource extent is empty",
        ImportError::HandleBackendMismatch => "external handle type does not match its declared backend",
        ImportError::AccessUnsupported => "external resource access mode is not supported by this backend path",
        ImportError::SynchronizationUndefined => "external resource synchronization contract is not defined",
        ImportError::OwnershipUndefined => "external resource ownership/lifetime contract is not defined",
        ImportError::D3D12ImportNotImplemented => "D3D12 wgpu-hal external import is not implemented yet",
        ImportError::MetalImportNotImplemented => "Metal wgpu-hal external import is not implemented yet",
    }
}

/// The handle variant is the one that the backend uses.
pub open spec fn handle_fits_backend(handle: ExternalHandle, backend: ExternalBackend) -> bool {
    ||| handle is D3D11Texture2D && backend is D3D11
    ||| handle is D3D12Resource && backend is D3D12
    ||| handle is MetalTexture && backend is Metal
    ||| handle is VulkanImage && backend is Vulkan
    ||| handle is CudaDevicePtr && backend is Cuda
}

/// The common preflight facts of `frame` against the active backend.
pub open spec fn preflight_of(frame: ExternalFrameRef, active_backend: ExternalBackend) -> ImportPreflight {
    ImportPreflight {
        has_matching_backend: frame.desc.backend == active_backend,
        has_supported_format: !(frame.desc.format is Unknown),
        has_nonzero_extent: frame.desc.width > 0 && frame.desc.height > 0,
        handle_matches_backend: handle_fits_backend(frame.handle, frame.desc.backend),
    }
}

/// The conservative backend preflight: only read-only access, and no
/// synchronization or ownership contract.
pub open spec fn conservative_of(frame: ExternalFrameRef, active_backend: ExternalBackend) -> BackendImportPreflight {
    BackendImportPreflight {
        common: preflight_of(frame, active_backend),
        access_supported: frame.desc.access == ExternalAccess::ReadOnly,
        synchronization_defined: false,
        ownership_defined: false,
    }
}

/// The first check that fails, in the order they are tested, or `Ok`.
pub open spec fn preflight_outcome(p: ImportPreflight) -> Result<(), ImportError> {
    if !p.has_matching_backend {
        Err(ImportError::BackendMismatch)
    } else if !p.has_supported_format {
        Err(ImportError::UnsupportedFormat)
    } else if !p.has_nonzero_extent {
        Err(ImportError::EmptyExtent)
    } else if !p.handle_matches_backend {
        Err(ImportError::HandleBackendMismatch)
    } else {
        Ok(())
    }
}

pub open spec fn backend_preflight_outcome(p: BackendImportPreflight) -> Result<(), ImportError> {
    if preflight_outcome(p.common) is Err {
        preflight_outcome(p.common)
    } else if !p.access_supported {
        Err(ImportError::AccessUnsupported)
    } else if !p.synchronization_defined {
        Err(ImportError::SynchronizationUndefined)
    } else if !p.ownership_defined {
        Err(ImportError::OwnershipUndefined)
    } else {
        Ok(())
    }
}

/// `then` when `check` passed, the refusal of `check` otherwise.
pub open spec fn after_check<T>(check: Result<(), ImportError>, then: Result<T, ImportError>) -> Result<T, ImportError> {
    match check {
        Err(e) => Err(e),
        Ok(_) => then,
    }
}

impl BackendImportPreflight {
    /// Passes exactly when the common preflight passes and access,
    /// synchronization and ownership are all settled.
    pub fn validate(self) -> (r: Result<(), ImportError>)
        ensures
            r == backend_preflight_outcome(self),
            r is Ok <==> {
                &&& self.common.has_matching_backend
                &&& self.common.has_supported_format
                &&& self.common.has_nonzero_extent
                &&& self.common.handle_matches_backend
                &&& self.access_supported
                &&& self.synchronization_defined
                &&& self.ownership_defined
            },
    {
        match self.common.validate() {
            Err(e) => {
                return Err(e);
            },
            Ok(()) => {},
        }
        if !self.access_supported {
            return Err(ImportError::AccessUnsupported);
        }
        if !self.synchronization_defined {
            return Err(ImportError::SynchronizationUndefined);
        }
        if !self.ownership_defined {
            return Err(ImportError::OwnershipUndefined);
        }
        Ok(())
    }
}

impl ImportPreflight {
    /// Passes exactly when all four facts hold; otherwise reports the first
    /// that fails.
    pub fn validate(self) -> (r: Result<(), ImportError>)
        ensures
            r == preflight_outcome(self),
            r is Ok <==> {
                &&& self.has_matching_backend
                &&& self.has_supported_format
                &&& self.has_nonzero_extent
                &&& self.handle_matches_backend
            },
    {
        if !self.has_matching_backend {
            return Err(ImportError::BackendMismatch);
        }
        if !self.has_supported_format {
            return Err(ImportError::UnsupportedFormat);
        }
        if !self.has_nonzero_extent {
            return Err(ImportError::EmptyExtent);
        }
        if !self.handle_matches_backend {
            return Err(ImportError::HandleBackendMismatch);
        }
        Ok(())
    }
}

/// A backend able to wrap an external resource.
pub trait ExternalImporter {
    /// The backend this importer wraps resources for.
    spec fn backend_spec(&self) -> ExternalBackend;

    /// What an import returns once the preflight is skipped.
    spec fn unchecked_import_spec(&self, frame: ExternalFrameRef) -> Result<ImportedFrameToken, ImportError>;

    fn active_backend(&self) -> (backend: ExternalBackend)
        ensures
            backend == self.backend_spec(),
    ;

    /// Runs the common preflight against the active backend and imports only
    /// when it passes.
    fn import_frame(&self, frame: ExternalFrameRef) -> (r: Result<ImportedFrameToken, ImportError>)
        ensures
            r == after_check(
                preflight_outcome(preflight_of(frame, self.backend_spec())),
                self.unchecked_import_spec(frame),
            ),
    {
        let backend = self.active_backend();
        match preflight(frame, backend).validate() {
            Err(e) => Err(e),
            Ok(()) => self.import_frame_unchecked(frame),
        }
    }

    fn import_frame_unchecked(&self, frame: ExternalFrameRef) -> (r: Result<ImportedFrameToken, ImportError>)
        ensures
            r == self.unchecked_import_spec(frame),
    ;
}

/// An importer that also settles access, synchronization and ownership.
pub trait BackendExternalImporter: ExternalImporter {
    spec fn backend_preflight_spec(&self, frame: ExternalFrameRef) -> BackendImportPreflight;

    fn backend_preflight(&self, frame: ExternalFrameRef) -> (p: BackendImportPreflight)
        ensures
            p == self.backend_preflight_spec(frame),
    ;

    /// Runs the backend preflight and imports only when it passes.
    fn import_frame_checked(&self, frame: ExternalFrameRef) -> (r: Result<ImportedFrameToken, ImportError>)
        ensures
            r == after_check(
                backend_preflight_outcome(self.backend_preflight_spec(frame)),
                self.unchecked_import_spec(frame),
            ),
    {
        match self.backend_preflight(frame).validate() {
            Err(e) => Err(e),
            Ok(()) => self.import_frame_unchecked(frame),
        }
    }
}

/// An importer that accepts every frame that passes the preflight and echoes
/// its description back.
#[derive(Clone, Copy, Debug)]
pub struct MockExternalImporter {
    pub backend: ExternalBackend,
}

pub open spec fn token_of(frame: ExternalFrameRef) -> ImportedFrameToken {
    ImportedFrameToken {
        backend: frame.desc.backend,
        width: frame.desc.width,
        height: frame.desc.height,
        format: frame.desc.format,
    }
}

impl ExternalImporter for MockExternalImporter {
    open spec fn backend_spec(&self) -> ExternalBackend {
        self.backend
    }

    open spec fn unchecked_import_spec(&self, frame: ExternalFrameRef) -> Result<ImportedFrameToken, ImportError> {
        Ok(token_of(frame))
    }

    fn active_backend(&self) -> (backend: ExternalBackend) {
        self.backend
    }

    fn import_frame_unchecked(&self, frame: ExternalFrameRef) -> (r: Result<ImportedFrameToken, ImportError>) {
        Ok(ImportedFrameToken {
            backend: frame.desc.backend,
            width: frame.desc.width,
            height: frame.desc.height,
            format: frame.desc.format,
        })
    }
}

/// The common preflight facts of `frame` against `active_backend`.
pub fn preflight(frame: ExternalFrameRef, active_backend: ExternalBackend) -> (p: ImportPreflight)
    ensures
        p == preflight_of(frame, active_backend),
{
    ImportPreflight {
        has_matching_backend: frame.desc.backend == active_backend,
        has_supported_format: !matches!(frame.desc.format, ExternalFormat::Unknown(_)),
        has_nonzero_extent: frame.desc.width > 0 && frame.desc.height > 0,
        handle_matches_backend: handle_matches_backend(frame.handle, frame.desc.backend),
    }
}

/// The common preflight, with access allowed only for read-only frames and
/// neither synchronization nor ownership settled.
pub fn conservative_backend_preflight(frame: ExternalFrameRef, active_backend: ExternalBackend) -> (p: BackendImportPreflight)
    ensures
        p == conservative_of(frame, active_backend),
{
    BackendImportPreflight {
        common: preflight(frame, active_backend),
        access_supported: frame.desc.access == ExternalAccess::ReadOnly,
        synchronization_defined: false,
        ownership_defined: false,
    }
}

pub open spec fn backend_of_framework(framework: AeGpuFramework) -> Option<ExternalBackend> {
    match framework {
        AeGpuFramework::DirectX11 => Some(ExternalBackend::D3D11),
        AeGpuFramework::DirectX12 => Some(ExternalBackend::D3D12),
        AeGpuFramework::Metal => Some(ExternalBackend::Metal),
        AeGpuFramework::Cuda => Some(ExternalBackend::Cuda),
        _ => None,
    }
}

pub open spec fn format_of_native(format: NativePixelFormat) -> ExternalFormat {
    match format {
        NativePixelFormat::Rgba8Unorm => ExternalFormat::Rgba8Unorm,
        NativePixelFormat::Bgra8Unorm => ExternalFormat::Bgra8Unorm,
        NativePixelFormat::Rgba16Float => ExternalFormat::Rgba16Float,
        NativePixelFormat::Rgba32Float => ExternalFormat::Rgba32Float,
        NativePixelFormat::Unknown(v) => ExternalFormat::Unknown(v),
    }
}

pub open spec fn access_of_native(access: NativeFrameAccess) -> ExternalAccess {
    match access {
        NativeFrameAccess::ReadOnly => ExternalAccess::ReadOnly,
        NativeFrameAccess::WriteOnly => ExternalAccess::WriteOnly,
        NativeFrameAccess::ReadWrite => ExternalAccess::ReadWrite,
    }
}

pub open spec fn handle_of_native(handle: NativeHandle) -> Option<ExternalHandle> {
    match handle {
        NativeHandle::D3D11Texture2D(p) => Some(ExternalHandle::D3D11Texture2D(p)),
        NativeHandle::D3D12Resource(p) => Some(ExternalHandle::D3D12Resource(p)),
        NativeHandle::MetalTexture(p) => Some(ExternalHandle::MetalTexture(p)),
        NativeHandle::CudaDevicePtr(p) => Some(ExternalHandle::CudaDevicePtr(p)),
        NativeHandle::Unsupported => None,
    }
}

/// The external frame described by a host probe, when its framework and
/// handle have an external counterpart.
pub open spec fn external_of_probe(probe: AeGpuFrameProbe) -> Option<ExternalFrameRef> {
    match (backend_of_framework(probe.device.framework), handle_of_native(probe.handle)) {
        (Some(backend), Some(handle)) => Some(ExternalFrameRef {
            desc: ExternalFrameDesc {
                backend,
                width: probe.width,
                height: probe.height,
                format: format_of_native(probe.format),
                access: access_of_native(probe.access),
            },
            handle,
        }),
        _ => None,
    }
}

/// Converts a host probe into an external frame reference. `None` when the
/// framework is OpenGL or unknown, or the handle is unsupported.
pub fn from_ae_probe(probe: AeGpuFrameProbe) -> (r: Option<ExternalFrameRef>)
    ensures
        r == external_of_probe(probe),
{
    let backend = match probe.device.framework {
        AeGpuFramework::DirectX11 => ExternalBackend::D3D11,
        AeGpuFramework::DirectX12 => ExternalBackend::D3D12,
        AeGpuFramework::Metal => ExternalBackend::Metal,
        AeGpuFramework::Cuda => ExternalBackend::Cuda,
        AeGpuFramework::OpenGL | AeGpuFramework::Unknown(_) => {
            return None;
        },
    };
    let format = match probe.format {
        NativePixelFormat::Rgba8Unorm => ExternalFormat::Rgba8Unorm,
        NativePixelFormat::Bgra8Unorm => ExternalFormat::Bgra8Unorm,
        NativePixelFormat::Rgba16Float => ExternalFormat::Rgba16Float,
        NativePixelFormat::Rgba32Float => ExternalFormat::Rgba32Float,
        NativePixelFormat::Unknown(v) => ExternalFormat::Unknown(v),
    };
    let access = match probe.access {
        NativeFrameAccess::ReadOnly => ExternalAccess::ReadOnly,
        NativeFrameAccess::WriteOnly => ExternalAccess::WriteOnly,
        NativeFrameAccess::ReadWrite => ExternalAccess::ReadWrite,
    };
    let handle = match probe.handle {
        NativeHandle::D3D11Texture2D(ptr) => ExternalHandle::D3D11Texture2D(ptr),
        NativeHandle::D3D12Resource(ptr) => ExternalHandle::D3D12Resource(ptr),
        NativeHandle::MetalTexture(ptr) => ExternalHandle::MetalTexture(ptr),
        NativeHandle::CudaDevicePtr(ptr) => ExternalHandle::CudaDevicePtr(ptr),
        NativeHandle::Unsupported => {
            return None;
        },
    };
    Some(ExternalFrameRef {
        desc: ExternalFrameDesc {
            backend,
            width: probe.width,
            height: probe.height,
            format,
            access,
        },
        handle,
    })
}

fn handle_matches_backend(handle: ExternalHandle, backend: ExternalBackend) -> (matched: bool)
    ensures
        matched == handle_fits_backend(handle, backend),
{
    match (handle, backend) {
        (ExternalHandle::D3D11Texture2D(_), ExternalBackend::D3D11) => true,
        (ExternalHandle::D3D12Resource(_), ExternalBackend::D3D12) => true,
        (ExternalHandle::MetalTexture(_), ExternalBackend::Metal) => true,
        (ExternalHandle::VulkanImage(_), ExternalBackend::Vulkan) => true,
        (ExternalHandle::CudaDevicePtr(_), ExternalBackend::Cuda) => true,
        _ => false,
    }
}

/// A frame that the host probe classifies as ready, and whose pixel format is
/// known, converts to an external frame that passes the common preflight
/// against its own backend.
pub proof fn lemma_ready_probe_passes_preflight(probe: AeGpuFrameProbe)
    requires
        crate::probe::frame_status(probe) == crate::probe::NativeProbeStatus::ReadyForBackend,
        !(probe.format is Unknown),
    ensures
        external_of_probe(probe) is Some,
        preflight_outcome(
            preflight_of(external_of_probe(probe)->0, external_of_probe(probe)->0.desc.backend),
        ) is Ok,
{
}

/// A frame the host probe does not classify as ready because its framework is
/// unsupported or its handle is missing has no external counterpart.
pub proof fn lemma_unsupported_probe_has_no_external_frame(probe: AeGpuFrameProbe)
    requires
        !crate::probe::framework_supported(probe.device.framework) || probe.handle is Unsupported,
    ensures
        external_of_probe(probe) is None,
{
}

/// The backend preflight never passes unless the common preflight passes.
pub proof fn lemma_backend_preflight_includes_common(p: BackendImportPreflight)
    ensures
        backend_preflight_outcome(p) is Ok ==> preflight_outcome(p.common) is Ok,
{
}

/// The conservative backend preflight refuses every frame: it settles neither
/// synchronization nor ownership.
pub proof fn lemma_conservative_preflight_always_refuses(frame: ExternalFrameRef, active_backend: ExternalBackend)
    ensures
        backend_preflight_outcome(conservative_of(frame, active_backend)) is Err,
{
}

/// An import through `import_frame` succeeds only after the common preflight
/// against the importer's backend has passed.
pub proof fn lemma_import_only_after_preflight(frame: ExternalFrameRef, active_backend: ExternalBackend, unchecked: Result<ImportedFrameToken, ImportError>)
    ensures
        after_check(preflight_outcome(preflight_of(frame, active_backend)), unchecked) is Ok
            ==> preflight_outcome(preflight_of(frame, active_backend)) is Ok,
{
}

/// The mock importer accepts exactly the frames that pass the preflight
/// against its backend, and hands back their description.
pub proof fn lemma_mock_import(importer: MockExternalImporter, frame: ExternalFrameRef)
    ensures
        after_check(preflight_outcome(preflight_of(frame, importer.backend_spec())), importer.unchecked_import_spec(frame))
            == (if preflight_outcome(preflight_of(frame, importer.backend)) is Ok {
                Ok::<ImportedFrameToken, ImportError>(token_of(frame))
            } else {
                Err(preflight_outcome(preflight_of(frame, importer.backend))->Err_0)
            }),
{
}

/// A frame whose backend is the active one, with a known format, a nonzero
/// extent, and the handle variant of its backend, passes the common
/// preflight, for every backend.
pub proof fn lemma_own_handle_passes_preflight(frame: ExternalFrameRef, active_backend: ExternalBackend)
    requires
        frame.desc.backend == active_backend,
        !(frame.desc.format is Unknown),
        frame.desc.width > 0,
        frame.desc.height > 0,
        (active_backend is D3D11 && frame.handle is D3D11Texture2D)
            || (active_backend is D3D12 && frame.handle is D3D12Resource)
            || (active_backend is Metal && frame.handle is MetalTexture)
            || (active_backend is Vulkan && frame.handle is VulkanImage)
            || (active_backend is Cuda && frame.handle is CudaDevicePtr),
    ensures
        preflight_outcome(preflight_of(frame, active_backend)) == Ok::<(), ImportError>(()),
{
}

/// A frame that passes every other check but carries the handle variant of
/// another backend is refused for its handle.
pub proof fn lemma_foreign_handle_refused(frame: ExternalFrameRef, active_backend: ExternalBackend)
    requires
        frame.desc.backend == active_backend,
        !(frame.desc.format is Unknown),
        frame.desc.width > 0,
        frame.desc.height > 0,
        !((active_backend is D3D11 && frame.handle is D3D11Texture2D)
            || (active_backend is D3D12 && frame.handle is D3D12Resource)
            || (active_backend is Metal && frame.handle is MetalTexture)
            || (active_backend is Vulkan && frame.handle is VulkanImage)
            || (active_backend is Cuda && frame.handle is CudaDevicePtr)),
    ensures
        preflight_outcome(preflight_of(frame, active_backend)) == Err::<(), ImportError>(
            ImportError::HandleBackendMismatch,
        ),
{
}

/// The conversion of a host probe keeps the extent and the handle's address,
/// maps framework, format and access variant for variant, and fails exactly
/// when the framework or the handle has no external counterpart.
pub proof fn lemma_probe_conversion(probe: AeGpuFrameProbe)
    ensures
        external_of_probe(probe) is Some <==> {
            &&& (probe.device.framework is DirectX11 || probe.device.framework is DirectX12
                || probe.device.framework is Metal || probe.device.framework is Cuda)
            &&& !(probe.handle is Unsupported)
        },
        external_of_probe(probe) matches Some(f) ==> {
            &&& f.desc.width == probe.width
            &&& f.desc.height == probe.height
            &&& (probe.device.framework is DirectX11 ==> f.desc.backend == ExternalBackend::D3D11)
            &&& (probe.device.framework is DirectX12 ==> f.desc.backend == ExternalBackend::D3D12)
            &&& (probe.device.framework is Metal ==> f.desc.backend == ExternalBackend::Metal)
            &&& (probe.device.framework is Cuda ==> f.desc.backend == ExternalBackend::Cuda)
            &&& (probe.format is Rgba8Unorm ==> f.desc.format == ExternalFormat::Rgba8Unorm)
            &&& (probe.format is Bgra8Unorm ==> f.desc.format == ExternalFormat::Bgra8Unorm)
            &&& (probe.format is Rgba16Float ==> f.desc.format == ExternalFormat::Rgba16Float)
            &&& (probe.format is Rgba32Float ==> f.desc.format == ExternalFormat::Rgba32Float)
            &&& (probe.format matches NativePixelFormat::Unknown(v) ==> f.desc.format == ExternalFormat::Unknown(v))
            &&& (probe.access is ReadOnly ==> f.desc.access == ExternalAccess::ReadOnly)
            &&& (probe.access is WriteOnly ==> f.desc.access == ExternalAccess::WriteOnly)
            &&& (probe.access is ReadWrite ==> f.desc.access == ExternalAccess::ReadWrite)
            &&& (probe.handle matches NativeHandle::D3D11Texture2D(a) ==> f.handle == ExternalHandle::D3D11Texture2D(a))
            &&& (probe.handle matches NativeHandle::D3D12Resource(a) ==> f.handle == ExternalHandle::D3D12Resource(a))
            &&& (probe.handle matches NativeHandle::MetalTexture(a) ==> f.handle == ExternalHandle::MetalTexture(a))
            &&& (probe.handle matches NativeHandle::CudaDevicePtr(a) ==> f.handle == ExternalHandle::CudaDevicePtr(a))
        },
{
}

/// Each check of the common preflight refuses with its own error, in the
/// order backend, format, extent, handle: the first that fails is reported.
pub proof fn lemma_preflight_refusals(frame: ExternalFrameRef, active_backend: ExternalBackend)
    ensures
        frame.desc.backend != active_backend ==> preflight_outcome(preflight_of(frame, active_backend))
            == Err::<(), ImportError>(ImportError::BackendMismatch),
        frame.desc.backend == active_backend && frame.desc.format is Unknown
            ==> preflight_outcome(preflight_of(frame, active_backend)) == Err::<(), ImportError>(
            ImportError::UnsupportedFormat,
        ),
        frame.desc.backend == active_backend && !(frame.desc.format is Unknown) && (frame.desc.width == 0
            || frame.desc.height == 0) ==> preflight_outcome(preflight_of(frame, active_backend))
            == Err::<(), ImportError>(ImportError::EmptyExtent),
{
}

/// The conservative backend preflight grants access to read-only frames only
/// and settles neither synchronization nor ownership.
pub proof fn lemma_conservative_preflight_fields(frame: ExternalFrameRef, active_backend: ExternalBackend)
    ensures
        conservative_of(frame, active_backend).access_supported <==> frame.desc.access is ReadOnly,
        !conservative_of(frame, active_backend).synchronization_defined,
        !conservative_of(frame, active_backend).ownership_defined,
        conservative_of(frame, active_backend).common == preflight_of(frame, active_backend),
{
}

} // verus!
