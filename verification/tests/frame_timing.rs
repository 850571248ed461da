use ae_gpu_lab::frame::{checksum, BackendTiming, BenchEffect, CpuBackend, FrameRgba8, RenderReport};

#[test]
fn shader_entries_name_each_effect() {
    assert_eq!(BenchEffect::Copy.shader_entry(), "copy_main");
    assert_eq!(BenchEffect::Color.shader_entry(), "color_main");
    assert_eq!(BenchEffect::BoxBlur.shader_entry(), "box_blur_main");
    assert_eq!(BenchEffect::Diffusion.shader_entry(), "diffusion_main");
    assert_eq!(BenchEffect::ChromaWarp.shader_entry(), "chroma_warp_main");
    assert_eq!(CpuBackend.name(), "cpu");
}

#[test]
fn timing_accumulates_and_averages() {
    let mut t = BackendTiming::cpu(10);
    assert_eq!((t.upload, t.total), (0, 10));
    assert!(!t.has_stage_detail());
    let next = BackendTiming {
        upload: 3,
        encode: 4,
        submit_wait: 5,
        readback_map: 6,
        readback_copy: 7,
        total: 11,
    };
    assert!(t.can_accumulate(&next));
    t.accumulate(&next);
    assert!(t.has_stage_detail());
    let avg = t.averaged(3);
    assert_eq!(
        (avg.upload, avg.encode, avg.submit_wait, avg.readback_map, avg.readback_copy, avg.total),
        (1, 1, 1, 2, 2, 7)
    );
    assert!(!BackendTiming::cpu(u128::MAX).can_accumulate(&BackendTiming::cpu(1)));
    let d = BackendTiming::default();
    assert_eq!(d.total, 0);
}

#[test]
fn checksum_folds_bytes() {
    let f = FrameRgba8::new(0, 0, vec![]);
    assert_eq!(checksum(&f), 0);
    let report = RenderReport {
        frame: FrameRgba8 { width: 1, height: 1, pixels: vec![1, 2, 0, 0] },
        timing: BackendTiming::default(),
    };
    let expected = (((1u64.wrapping_mul(16777619) ^ 2).wrapping_mul(16777619)) ^ 0)
        .wrapping_mul(16777619);
    assert_eq!(checksum(&report.frame), expected);
    assert_eq!(checksum(&FrameRgba8 { width: 0, height: 0, pixels: vec![1, 2] }), 16777617);
}
