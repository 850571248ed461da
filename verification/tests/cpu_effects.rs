use ae_gpu_lab::cpu::{box_blur, chroma_warp, copy_frame, diffusion, sample};
use ae_gpu_lab::frame::FrameRgba8;

fn ramp_3x1() -> FrameRgba8 {
    FrameRgba8::new(
        3,
        1,
        vec![0, 0, 0, 0, 30, 60, 90, 120, 60, 120, 180, 240],
    )
}

fn grid_2x2() -> FrameRgba8 {
    let mut pixels = Vec::new();
    for p in 0..4u8 {
        for c in 0..4u8 {
            pixels.push(10 * p + c);
        }
    }
    FrameRgba8::new(2, 2, pixels)
}

#[test]
fn box_blur_averages_clamped_window() {
    let out = box_blur(&ramp_3x1(), 1);
    assert_eq!((out.width, out.height), (3, 1));
    assert_eq!(
        out.pixels,
        vec![10, 20, 30, 40, 30, 60, 90, 120, 50, 100, 150, 200]
    );
}

#[test]
fn box_blur_rounds_down() {
    let f = FrameRgba8::new(2, 1, vec![1, 1, 1, 1, 2, 2, 2, 2]);
    let out = box_blur(&f, 1);
    assert_eq!(out.pixels, vec![1, 1, 1, 1, 1, 1, 1, 1]);
}

#[test]
fn box_blur_radius_zero_keeps_frame() {
    let f = grid_2x2();
    assert_eq!(box_blur(&f, 0).pixels, f.pixels);
}

#[test]
fn box_blur_caps_radius_at_32() {
    let f = ramp_3x1();
    assert_eq!(box_blur(&f, 32).pixels, box_blur(&f, 1000).pixels);
    let single = FrameRgba8::new(1, 1, vec![9, 8, 7, 6]);
    assert_eq!(box_blur(&single, 1000).pixels, vec![9, 8, 7, 6]);
}

#[test]
fn box_blur_keeps_flat_colour() {
    let f = FrameRgba8::new(3, 2, [12u8, 34, 56, 255].repeat(6));
    assert_eq!(box_blur(&f, 5).pixels, f.pixels);
}

#[test]
fn box_blur_of_empty_frame_is_empty() {
    let f = FrameRgba8::new(0, 5, vec![]);
    let out = box_blur(&f, 3);
    assert_eq!((out.width, out.height, out.pixels.len()), (0, 5, 0));
}

#[test]
fn diffusion_repeats_radius_one_blur() {
    let f = ramp_3x1();
    assert_eq!(diffusion(&f, 0).pixels, f.pixels);
    assert_eq!(diffusion(&f, 1).pixels, box_blur(&f, 1).pixels);
    assert_eq!(
        diffusion(&f, 2).pixels,
        box_blur(&box_blur(&f, 1), 1).pixels
    );
    assert_eq!(diffusion(&f, 64).pixels, diffusion(&f, 500).pixels);
}

#[test]
fn copy_frame_is_identity() {
    let f = grid_2x2();
    let c = copy_frame(&f);
    assert_eq!((c.width, c.height), (2, 2));
    assert_eq!(c.pixels, f.pixels);
}

#[test]
fn sample_clamps_coordinates() {
    let f = grid_2x2();
    assert_eq!(sample(&f, -5, 10), [20, 21, 22, 23]);
    assert_eq!(sample(&f, 1, 0), [10, 11, 12, 13]);
    assert_eq!(sample(&f, 7, -7), [10, 11, 12, 13]);
}

#[test]
fn chroma_warp_shifts_channels() {
    let f = grid_2x2();
    let out = chroma_warp(&f, &vec![1, 0], &vec![0, -1]);
    assert_eq!(
        out.pixels,
        vec![10, 1, 2, 3, 10, 11, 22, 13, 20, 21, 22, 23, 30, 11, 32, 33]
    );
}

#[test]
fn chroma_warp_without_shift_keeps_frame() {
    let f = grid_2x2();
    assert_eq!(chroma_warp(&f, &vec![0, 0], &vec![0, 0]).pixels, f.pixels);
}

#[test]
fn copy_and_zero_pass_diffusion_accept_any_buffer() {
    let odd = FrameRgba8 { width: 3, height: 3, pixels: vec![1, 2, 3] };
    let c = copy_frame(&odd);
    assert_eq!((c.width, c.height, c.pixels.clone()), (3, 3, vec![1, 2, 3]));
    let d = diffusion(&odd, 0);
    assert_eq!((d.width, d.height, d.pixels), (3, 3, vec![1, 2, 3]));
}
