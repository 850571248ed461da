use ae_gpu_lab::frame::FrameRgba8;
use ae_gpu_lab::layer::{clip_to_request, copy_layer_rows, layer_to_rgba, rgba_to_layer, Rect};

#[test]
fn layer_to_rgba_reorders_argb_rows() {
    let src: Vec<u8> = (0..24).collect();
    let f = layer_to_rgba(&src, 2, 2, 12);
    assert_eq!((f.width, f.height), (2, 2));
    assert_eq!(
        f.pixels,
        vec![1, 2, 3, 0, 5, 6, 7, 4, 13, 14, 15, 12, 17, 18, 19, 16]
    );
}

#[test]
fn layer_to_rgba_zeroes_pixels_outside_the_buffer() {
    let src: Vec<u8> = (0..19).collect();
    let f = layer_to_rgba(&src, 2, 2, 12);
    assert_eq!(&f.pixels[12..], &[0, 0, 0, 0]);
    let src: Vec<u8> = (0..20).collect();
    let f = layer_to_rgba(&src, 2, 2, 12);
    assert_eq!(&f.pixels[12..], &[17, 18, 19, 16]);
}

#[test]
fn rgba_to_layer_writes_argb() {
    let f = FrameRgba8::new(1, 1, vec![1, 2, 3, 4]);
    let mut dst = vec![0u8; 8];
    rgba_to_layer(&f, &mut dst, 4);
    assert_eq!(dst, vec![4, 1, 2, 3, 0, 0, 0, 0]);
}

#[test]
fn rgba_to_layer_skips_pixels_past_the_buffer() {
    let f = FrameRgba8::new(2, 1, vec![1, 2, 3, 4, 5, 6, 7, 8]);
    let mut dst = vec![9u8; 7];
    rgba_to_layer(&f, &mut dst, 8);
    assert_eq!(dst, vec![4, 1, 2, 3, 9, 9, 9]);
}

#[test]
fn layer_round_trip_keeps_layer() {
    let src: Vec<u8> = (100..124).collect();
    let f = layer_to_rgba(&src, 2, 2, 12);
    let mut back = src.clone();
    rgba_to_layer(&f, &mut back, 12);
    assert_eq!(back, src);
}

#[test]
fn copy_layer_rows_copies_overlap() {
    let src: Vec<u8> = (0..20).collect();
    let mut dst = vec![0u8; 15];
    copy_layer_rows(&src, 2, 2, 10, &mut dst, 1, 3, 5);
    assert_eq!(dst, vec![0, 1, 2, 3, 0, 10, 11, 12, 13, 0, 0, 0, 0, 0, 0]);
}

#[test]
fn copy_layer_rows_skips_rows_that_do_not_fit() {
    let src: Vec<u8> = (0..12).collect();
    let mut dst = vec![7u8; 12];
    copy_layer_rows(&src, 2, 2, 8, &mut dst, 2, 2, 8);
    assert_eq!(dst, vec![0, 1, 2, 3, 4, 5, 6, 7, 7, 7, 7, 7]);
}

#[test]
fn clip_to_request_moves_edges_inward() {
    let rect = Rect { left: -10, top: 5, right: 500, bottom: 40 };
    let req = Rect { left: 0, top: 0, right: 100, bottom: 100 };
    assert_eq!(
        clip_to_request(rect, req),
        Rect { left: 0, top: 5, right: 100, bottom: 40 }
    );
}

#[test]
fn frame_round_trip_through_layer() {
    let pixels: Vec<u8> = (1..=16).collect();
    let f = FrameRgba8::new(2, 2, pixels.clone());
    let mut layer = vec![0u8; 20];
    rgba_to_layer(&f, &mut layer, 12);
    let back = layer_to_rgba(&layer, 2, 2, 12);
    assert_eq!(back.pixels, pixels);
}
