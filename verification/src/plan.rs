//! Decisions of the render hosts: what the GPU upload path checks and
//! dispatches, which path a render takes, how host parameters map onto
//! effect settings, and what the GPU probe records and requests.
use vstd::prelude::*;
use crate::frame::BenchEffect;
use crate::probe::{AeGpuDeviceProbe, AeGpuFramework};

verus! {

/// Why the GPU upload path refused a frame.
#[derive(Clone, Copy, Debug, PartialEq, Eq, Structural)]
pub enum RenderError {
    ExtentMismatch,
}

impl RenderError {
    pub fn message(&self) -> (text: &'static str)
        ensures
            text@ == "input pixel buffer size does not match frame extent"@,
    {
        match self {
            RenderError::ExtentMismatch => "input pixel buffer size does not match frame extent",
        }
    }
}

/// The byte size of the GPU buffers for a `width` x `height` frame, or an
/// error when the frame's pixel buffer does not have exactly that size.
pub fn check_upload_extent(width: u32, height: u32, pixel_len: usize) -> (r: Result<u64, RenderError>)
    requires
        width * height * 4 <= u64::MAX,
    ensures
        pixel_len == width * height * 4 ==> r == Ok::<u64, RenderError>((width * height * 4) as u64),
        pixel_len != width * height * 4 ==> r == Err::<u64, RenderError>(RenderError::ExtentMismatch),
{
    proof {
        assert(width * height <= u64::MAX) by (nonlinear_arith)
            requires
                width * height * 4 <= u64::MAX,
        ;
    }
    let n = width as u64 * height as u64;
    let bytes = n * 4;
    if pixel_len as u64 != bytes {
        return Err(RenderError::ExtentMismatch);
    }
    Ok(bytes)
}

/// Whether the GPU buffers must be (re)created: when there are none yet, or
/// they were made for a frame of another size. Same-size frames reuse them.
pub fn needs_new_state(current: Option<(u32, u32)>, width: u32, height: u32) -> (fresh: bool)
    ensures
        fresh == match current {
            None => true,
            Some((w, h)) => w != width || h != height,
        },
{
    match current {
        None => true,
        Some((w, h)) => w != width || h != height,
    }
}

/// Number of 16-wide blocks that cover `extent`: the dispatch size of the
/// compute shader and the CUDA grid along one axis.
pub fn blocks_of_16(extent: u32) -> (blocks: u32)
    ensures
        blocks == (extent + 15) / 16,
{
    let q = extent / 16;
    if extent % 16 == 0 {
        q
    } else {
        q + 1
    }
}

/// The size array handed to the shaders: width, height, and passes and radius
/// raised to at least 1.
pub fn lab_size(width: u32, height: u32, passes: u32, radius: u32) -> (size: [u32; 4])
    ensures
        size[0] == width,
        size[1] == height,
        size[2] == if passes > 1 { passes } else { 1 },
        size[3] == if radius > 1 { radius } else { 1 },
{
    [width, height, if passes > 1 { passes } else { 1 }, if radius > 1 { radius } else { 1 }]
}

/// `n`, raised to at least 1.
pub fn at_least_one(n: u32) -> (m: u32)
    ensures
        m == if n > 1 { n } else { 1 },
{
    if n > 1 {
        n
    } else {
        1
    }
}

/// The effect chosen in the host's popup (1-based). Unknown entries select
/// the copy effect.
pub fn effect_from_popup(value: i32) -> (effect: BenchEffect)
    ensures
        effect == match value {
            2 => BenchEffect::Color,
            3 => BenchEffect::BoxBlur,
            4 => BenchEffect::Diffusion,
            5 => BenchEffect::ChromaWarp,
            _ => BenchEffect::Copy,
        },
{
    match value {
        2 => BenchEffect::Color,
        3 => BenchEffect::BoxBlur,
        4 => BenchEffect::Diffusion,
        5 => BenchEffect::ChromaWarp,
        _ => BenchEffect::Copy,
    }
}

/// A host slider value as a count: raised to at least 1.
pub fn slider_count(value: i32) -> (count: u32)
    ensures
        count == if value > 1 { value as int } else { 1 },
{
    if value > 1 {
        value as u32
    } else {
        1
    }
}

/// The path a render takes.
#[derive(Clone, Copy, Debug, PartialEq, Eq, Structural)]
pub enum RenderPath {
    /// Upload, compute and read back on the GPU.
    Gpu,
    /// Render on the CPU; `fallback` tells that the GPU had been asked for.
    Cpu { fallback: bool },
}

/// The first path tried: the GPU when it is asked for and available, the CPU
/// otherwise.
pub fn first_render_path(use_gpu: bool, gpu_available: bool) -> (path: RenderPath)
    ensures
        path == if use_gpu && gpu_available {
            RenderPath::Gpu
        } else {
            RenderPath::Cpu { fallback: use_gpu }
        },
{
    if use_gpu && gpu_available {
        RenderPath::Gpu
    } else {
        RenderPath::Cpu { fallback: use_gpu }
    }
}

/// The path after a GPU render failed: the CPU, as a fallback.
pub fn path_after_gpu_failure() -> (path: RenderPath)
    ensures
        path == (RenderPath::Cpu { fallback: true }),
{
    RenderPath::Cpu { fallback: true }
}

/// How the CUDA kernel treats the pixels it copies.
#[derive(Clone, Copy, Debug, PartialEq, Eq, Structural)]
pub enum CudaRenderMode {
    Copy,
    Invert,
}

impl CudaRenderMode {
    /// Inversion when asked for, plain copy otherwise.
    pub fn select(invert: bool) -> (mode: CudaRenderMode)
        ensures
            mode == if invert { CudaRenderMode::Invert } else { CudaRenderMode::Copy },
    {
        if invert {
            CudaRenderMode::Invert
        } else {
            CudaRenderMode::Copy
        }
    }

    /// The mode argument of the kernel.
    pub fn kernel_mode(self) -> (mode: u32)
        ensures
            mode == match self {
                CudaRenderMode::Copy => 0u32,
                CudaRenderMode::Invert => 1u32,
            },
    {
        match self {
            CudaRenderMode::Copy => 0,
            CudaRenderMode::Invert => 1,
        }
    }
}

/// What the GPU render selector does: when the host selected CUDA and one of
/// the CUDA output switches is on, run the kernel (inverting when asked to,
/// copying otherwise); in every other case refuse, and no kernel runs.
pub fn plan_gpu_render(framework: AeGpuFramework, copy: bool, invert: bool) -> (plan: Option<CudaRenderMode>)
    ensures
        plan == if framework == AeGpuFramework::Cuda && (copy || invert) {
            Some(if invert { CudaRenderMode::Invert } else { CudaRenderMode::Copy })
        } else {
            None::<CudaRenderMode>
        },
{
    if framework == AeGpuFramework::Cuda && (copy || invert) {
        Some(CudaRenderMode::select(invert))
    } else {
        None
    }
}

/// Whether the probe asks the host for a GPU render: only when probing is
/// enabled, a GPU render is requested, and the host selected CUDA.
pub fn gpu_render_possible(enabled: bool, request_gpu: bool, framework: AeGpuFramework) -> (possible: bool)
    ensures
        possible == (enabled && request_gpu && framework == AeGpuFramework::Cuda),
{
    enabled && request_gpu && framework == AeGpuFramework::Cuda
}

/// The CUDA kernel launch for a frame: 16 x 16 blocks covering the overlap of
/// input and output.
#[derive(Clone, Copy, Debug, PartialEq, Eq, Structural)]
pub struct CudaLaunch {
    pub width: u32,
    pub height: u32,
    pub grid_x: u32,
    pub grid_y: u32,
    pub block_x: u32,
    pub block_y: u32,
}

pub fn plan_cuda_launch(in_width: u32, in_height: u32, out_width: u32, out_height: u32) -> (launch: CudaLaunch)
    ensures
        launch.width == if in_width < out_width { in_width } else { out_width },
        launch.height == if in_height < out_height { in_height } else { out_height },
        launch.block_x == 16,
        launch.block_y == 16,
        launch.grid_x == (launch.width + 15) / 16,
        launch.grid_y == (launch.height + 15) / 16,
{
    let width = if in_width < out_width { in_width } else { out_width };
    let height = if in_height < out_height { in_height } else { out_height };
    CudaLaunch {
        width,
        height,
        grid_x: blocks_of_16(width),
        grid_y: blocks_of_16(height),
        block_x: 16,
        block_y: 16,
    }
}

/// A CUDA driver call that returned an error code.
#[derive(Clone, Copy, Debug, PartialEq, Eq)]
pub struct CudaCallError {
    pub call: &'static str,
    pub code: i32,
}

/// A CUDA driver result: zero is success, anything else an error naming the
/// call.
pub fn check_cuda(result: i32, call: &'static str) -> (r: Result<(), CudaCallError>)
    ensures
        result == 0 ==> r is Ok,
        result != 0 ==> r == Err::<(), CudaCallError>(CudaCallError { call, code: result }),
{
    if result == 0 {
        Ok(())
    } else {
        Err(CudaCallError { call, code: result })
    }
}

impl AeGpuDeviceProbe {
    /// The probe recorded when the host sets up a GPU device; the effect
    /// always advertises 32-bit float GPU rendering.
    pub fn from_device_setup(framework: AeGpuFramework, device_index: i32) -> (probe: AeGpuDeviceProbe)
        ensures
            probe == (AeGpuDeviceProbe { framework, device_index, can_render_f32: true }),
    {
        AeGpuDeviceProbe { framework, device_index, can_render_f32: true }
    }
}

/// Whether the effect advertises DirectX rendering for the device's framework.
pub fn supports_directx_rendering(framework: AeGpuFramework) -> (directx: bool)
    ensures
        directx == (framework is DirectX11 || framework is DirectX12),
{
    match framework {
        AeGpuFramework::DirectX11 | AeGpuFramework::DirectX12 => true,
        _ => false,
    }
}

/// What the probe remembers across selectors: the last device set up and
/// how many set-ups it has seen.
#[derive(Clone, Copy, Debug)]
pub struct ProbeState {
    pub last: Option<AeGpuDeviceProbe>,
    pub setup_count: u32,
}

impl Default for ProbeState {
    fn default() -> (s: Self)
        ensures
            s.last is None,
            s.setup_count == 0,
    {
        ProbeState { last: None, setup_count: 0 }
    }
}

impl ProbeState {
    /// Records a device set-up.
    pub fn record(&mut self, probe: AeGpuDeviceProbe)
        requires
            old(self).setup_count < u32::MAX,
        ensures
            final(self).last == Some(probe),
            final(self).setup_count == old(self).setup_count + 1,
    {
        self.last = Some(probe);
        self.setup_count = self.setup_count + 1;
    }
}

} // verus!
