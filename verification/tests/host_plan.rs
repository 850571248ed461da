use ae_gpu_lab::frame::BenchEffect;
use ae_gpu_lab::plan::{
    at_least_one, blocks_of_16, check_cuda, check_upload_extent, effect_from_popup,
    first_render_path, gpu_render_possible, lab_size, needs_new_state, path_after_gpu_failure,
    plan_cuda_launch, plan_gpu_render, slider_count, supports_directx_rendering, CudaCallError,
    CudaRenderMode, ProbeState, RenderError, RenderPath,
};
use ae_gpu_lab::probe::{AeGpuDeviceProbe, AeGpuFramework};

#[test]
fn upload_extent_must_match_pixels() {
    assert_eq!(check_upload_extent(2, 3, 24), Ok(24));
    assert_eq!(check_upload_extent(2, 3, 23), Err(RenderError::ExtentMismatch));
    assert_eq!(check_upload_extent(3840, 2160, 3840 * 2160 * 4), Ok(33_177_600));
    assert_eq!(
        RenderError::ExtentMismatch.message(),
        "input pixel buffer size does not match frame extent"
    );
}

#[test]
fn gpu_state_is_reused_for_same_size() {
    assert!(needs_new_state(None, 4, 4));
    assert!(!needs_new_state(Some((1920, 1080)), 1920, 1080));
    assert!(needs_new_state(Some((1920, 1080)), 1920, 1081));
    assert!(needs_new_state(Some((1920, 1080)), 1280, 1080));
}

#[test]
fn blocks_cover_extent() {
    assert_eq!(blocks_of_16(0), 0);
    assert_eq!(blocks_of_16(1), 1);
    assert_eq!(blocks_of_16(16), 1);
    assert_eq!(blocks_of_16(17), 2);
    assert_eq!(blocks_of_16(1080), 68);
    assert_eq!(blocks_of_16(u32::MAX), 268_435_456);
}

#[test]
fn lab_size_raises_counts() {
    assert_eq!(lab_size(1920, 1080, 0, 5), [1920, 1080, 1, 5]);
    assert_eq!(lab_size(8, 9, 3, 0), [8, 9, 3, 1]);
    assert_eq!(at_least_one(0), 1);
    assert_eq!(at_least_one(5), 5);
}

#[test]
fn popup_selects_effect() {
    assert_eq!(effect_from_popup(1), BenchEffect::Copy);
    assert_eq!(effect_from_popup(2), BenchEffect::Color);
    assert_eq!(effect_from_popup(3), BenchEffect::BoxBlur);
    assert_eq!(effect_from_popup(4), BenchEffect::Diffusion);
    assert_eq!(effect_from_popup(5), BenchEffect::ChromaWarp);
    assert_eq!(effect_from_popup(42), BenchEffect::Copy);
    assert_eq!(slider_count(-3), 1);
    assert_eq!(slider_count(0), 1);
    assert_eq!(slider_count(7), 7);
}

#[test]
fn render_path_falls_back_to_cpu() {
    assert_eq!(first_render_path(true, true), RenderPath::Gpu);
    assert_eq!(first_render_path(true, false), RenderPath::Cpu { fallback: true });
    assert_eq!(first_render_path(false, true), RenderPath::Cpu { fallback: false });
    assert_eq!(path_after_gpu_failure(), RenderPath::Cpu { fallback: true });
}

#[test]
fn gpu_render_runs_only_on_cuda() {
    assert_eq!(plan_gpu_render(AeGpuFramework::Cuda, true, false), Some(CudaRenderMode::Copy));
    assert_eq!(plan_gpu_render(AeGpuFramework::Cuda, false, true), Some(CudaRenderMode::Invert));
    assert_eq!(plan_gpu_render(AeGpuFramework::Cuda, true, true), Some(CudaRenderMode::Invert));
    assert_eq!(plan_gpu_render(AeGpuFramework::DirectX12, true, true), None);
    assert_eq!(CudaRenderMode::Copy.kernel_mode(), 0);
    assert_eq!(CudaRenderMode::Invert.kernel_mode(), 1);
    assert!(gpu_render_possible(true, true, AeGpuFramework::Cuda));
    assert!(!gpu_render_possible(true, false, AeGpuFramework::Cuda));
    assert!(!gpu_render_possible(true, true, AeGpuFramework::Metal));
}

#[test]
fn cuda_launch_covers_overlap() {
    let l = plan_cuda_launch(1920, 1080, 1280, 2000);
    assert_eq!((l.width, l.height), (1280, 1080));
    assert_eq!((l.grid_x, l.grid_y, l.block_x, l.block_y), (80, 68, 16, 16));
}

#[test]
fn cuda_results_are_checked() {
    assert_eq!(check_cuda(0, "cuInit"), Ok(()));
    assert_eq!(
        check_cuda(700, "cuLaunchKernel"),
        Err(CudaCallError { call: "cuLaunchKernel", code: 700 })
    );
}

#[test]
fn device_setup_records_probe() {
    let probe = AeGpuDeviceProbe::from_device_setup(AeGpuFramework::DirectX12, 2);
    assert!(probe.can_render_f32);
    assert_eq!(probe.device_index, 2);
    assert!(supports_directx_rendering(AeGpuFramework::DirectX12));
    assert!(supports_directx_rendering(AeGpuFramework::DirectX11));
    assert!(!supports_directx_rendering(AeGpuFramework::Cuda));
    let mut state = ProbeState::default();
    assert_eq!((state.last, state.setup_count), (None, 0));
    state.record(probe);
    state.record(probe);
    assert_eq!((state.last, state.setup_count), (Some(probe), 2));
}

#[test]
fn no_cuda_kernel_when_both_output_switches_are_off() {
    assert_eq!(plan_gpu_render(AeGpuFramework::Cuda, false, false), None);
    assert_eq!(plan_gpu_render(AeGpuFramework::Metal, false, false), None);
}
