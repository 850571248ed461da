//! Moving pixels between the host's layer buffers (ARGB byte order, rows
//! `stride` bytes apart) and packed RGBA8 frames, plus the row copy and the
//! rectangle clipping of the render callbacks.
use vstd::prelude::*;
use vstd::arithmetic::div_mod::{
    lemma_div_is_ordered, lemma_fundamental_div_mod, lemma_fundamental_div_mod_converse,
    lemma_mod_bound, lemma_div_pos_is_pos,
};
use crate::cpu::{col_of, row_of, lemma_index_decompose, lemma_pixel_in_frame};
use crate::frame::{frame_len, FrameRgba8};

verus! {

/// Offset of pixel `(x, y)` in a layer buffer whose rows are `stride` bytes apart.
pub open spec fn layer_offset(stride: int, x: int, y: int) -> int {
    y * stride + x * 4
}

/// Byte `i` of the RGBA frame read from an ARGB layer: channel `k` of a pixel
/// comes from byte `(k + 1) % 4` of the layer pixel; pixels whose four bytes
/// are not all inside the layer buffer read as zero.
pub open spec fn rgba_from_layer_at(src: Seq<u8>, w: int, stride: int, i: int) -> u8 {
    let si = layer_offset(stride, col_of(i, w), row_of(i, w));
    if si + 3 < src.len() {
        src[si + (i % 4 + 1) % 4]
    } else {
        0
    }
}

pub open spec fn rgba_from_layer(src: Seq<u8>, w: int, h: int, stride: int) -> Seq<u8> {
    Seq::new(frame_len(w, h) as nat, |i: int| rgba_from_layer_at(src, w, stride, i))
}

/// Reads a `width` x `height` ARGB layer into an RGBA frame.
pub fn layer_to_rgba(src: &[u8], width: usize, height: usize, stride: usize) -> (frame: FrameRgba8)
    requires
        width <= u32::MAX,
        height <= u32::MAX,
        frame_len(width as int, height as int) <= usize::MAX,
    ensures
        frame.width == width,
        frame.height == height,
        frame.wf(),
        frame.pixels@ == rgba_from_layer(src@, width as int, height as int, stride as int),
{
    let w = width;
    let h = height;
    let ghost target = rgba_from_layer(src@, w as int, h as int, stride as int);
    let slen = src.len();
    let mut out: Vec<u8> = Vec::new();
    let mut y: usize = 0;
    while y < h
        invariant
            target == rgba_from_layer(src@, w as int, h as int, stride as int),
            frame_len(w as int, h as int) <= usize::MAX,
            h <= u32::MAX,
            w <= u32::MAX,
            slen == src@.len(),
            y <= h,
            out@.len() == y * w * 4,
            forall|k: int| 0 <= k < out@.len() ==> #[trigger] out@[k] == target[k],
        decreases h - y,
    {
        let mut x: usize = 0;
        while x < w
            invariant
                target == rgba_from_layer(src@, w as int, h as int, stride as int),
                frame_len(w as int, h as int) <= usize::MAX,
                h <= u32::MAX,
                w <= u32::MAX,
            h <= u32::MAX,
            w <= u32::MAX,
                slen == src@.len(),
                y < h,
                x <= w,
                out@.len() == (y * w + x) * 4,
                forall|k: int| 0 <= k < out@.len() ==> #[trigger] out@[k] == target[k],
            decreases w - x,
        {
            let ghost k0 = (y * w + x) * 4;
            proof {
                lemma_pixel_in_frame(w as int, h as int, x as int, y as int);
                lemma_index_decompose(w as int, x as int, y as int, 0);
                lemma_index_decompose(w as int, x as int, y as int, 1);
                lemma_index_decompose(w as int, x as int, y as int, 2);
                lemma_index_decompose(w as int, x as int, y as int, 3);
                assert(y * stride <= u32::MAX * usize::MAX) by (nonlinear_arith)
                    requires
                        y <= u32::MAX,
                        stride <= usize::MAX,
                ;
                assert(0 <= y * stride) by (nonlinear_arith);
            }
            let si = (y as u128) * (stride as u128) + (x as u128) * 4;
            if si + 3 < slen as u128 {
                let s = si as usize;
                out.push(src[s + 1]);
                out.push(src[s + 2]);
                out.push(src[s + 3]);
                out.push(src[s]);
            } else {
                out.push(0);
                out.push(0);
                out.push(0);
                out.push(0);
            }
            proof {
                assert(out@[k0] == target[k0]);
                assert(out@[k0 + 1] == target[k0 + 1]);
                assert(out@[k0 + 2] == target[k0 + 2]);
                assert(out@[k0 + 3] == target[k0 + 3]);
                assert((y * w + x + 1) * 4 == k0 + 4);
            }
            x = x + 1;
        }
        proof {
            assert((y * w + w) * 4 == (y + 1) * w * 4) by (nonlinear_arith);
        }
        y = y + 1;
    }
    proof {
        assert(h * w * 4 == frame_len(w as int, h as int)) by (nonlinear_arith);
        assert(out@ =~= target);
    }
    FrameRgba8 { width: w as u32, height: h as u32, pixels: out }
}

/// The layer after pixel `p` (row-major, `w` per row) of the RGBA buffer
/// `pix` is written into it: channel `k` of the frame goes to byte
/// `(k + 1) % 4` of the layer pixel. Pixels whose four bytes are not all
/// inside both buffers are skipped.
pub open spec fn write_layer_pixel(d: Seq<u8>, pix: Seq<u8>, w: int, stride: int, p: int) -> Seq<u8> {
    let si = p * 4;
    let di = layer_offset(stride, p % w, p / w);
    if si + 3 < pix.len() && di + 3 < d.len() {
        d.update(di, pix[si + 3]).update(di + 1, pix[si]).update(di + 2, pix[si + 1]).update(
            di + 3,
            pix[si + 2],
        )
    } else {
        d
    }
}

/// The layer after the first `n` pixels of `pix` are written into it, in order.
pub open spec fn layer_after_writes(d: Seq<u8>, pix: Seq<u8>, w: int, stride: int, n: nat) -> Seq<u8>
    decreases n,
{
    if n == 0 {
        d
    } else {
        write_layer_pixel(layer_after_writes(d, pix, w, stride, (n - 1) as nat), pix, w, stride, n - 1)
    }
}

/// Writes every pixel of `frame` into an ARGB layer buffer whose rows are
/// `stride` bytes apart, row by row.
pub fn rgba_to_layer(frame: &FrameRgba8, dst: &mut [u8], stride: usize)
    ensures
        final(dst)@ == layer_after_writes(
            old(dst)@,
            frame.pixels@,
            frame.width as int,
            stride as int,
            (frame.width * frame.height) as nat,
        ),
{
    let w = frame.width as usize;
    let h = frame.height as usize;
    let ghost d0 = dst@;
    let plen = frame.pixels.len();
    let dlen = dst.len();
    let mut y: usize = 0;
    while y < h
        invariant
            w == frame.width,
            h == frame.height,
            plen == frame.pixels@.len(),
            dlen == dst@.len(),
            y <= h,
            dst@ == layer_after_writes(d0, frame.pixels@, w as int, stride as int, (y * w) as nat),
        decreases h - y,
    {
        let mut x: usize = 0;
        while x < w
            invariant
                w == frame.width,
                h == frame.height,
                plen == frame.pixels@.len(),
                dlen == dst@.len(),
                y < h,
                x <= w,
                dst@ == layer_after_writes(d0, frame.pixels@, w as int, stride as int, (y * w + x) as nat),
            decreases w - x,
        {
            let ghost p = y * w + x;
            proof {
                lemma_fundamental_div_mod_converse(p, w as int, y as int, x as int);
                assert(0 <= y * w) by (nonlinear_arith);
                assert(y * w <= u32::MAX * u32::MAX) by (nonlinear_arith)
                    requires
                        y <= u32::MAX,
                        w <= u32::MAX,
                ;
                assert(y * stride <= u32::MAX * usize::MAX) by (nonlinear_arith)
                    requires
                        y <= u32::MAX,
                        stride <= usize::MAX,
                ;
                assert(0 <= y * stride) by (nonlinear_arith);
            }
            let si = ((y as u128) * (w as u128) + (x as u128)) * 4;
            let di = (y as u128) * (stride as u128) + (x as u128) * 4;
            if si + 3 < plen as u128 && di + 3 < dlen as u128 {
                let s = si as usize;
                let d = di as usize;
                let v0 = frame.pixels[s + 3];
                let v1 = frame.pixels[s];
                let v2 = frame.pixels[s + 1];
                let v3 = frame.pixels[s + 2];
                dst[d] = v0;
                dst[d + 1] = v1;
                dst[d + 2] = v2;
                dst[d + 3] = v3;
            }
            proof {
                assert(dst@ =~= write_layer_pixel(
                    layer_after_writes(d0, frame.pixels@, w as int, stride as int, p as nat),
                    frame.pixels@,
                    w as int,
                    stride as int,
                    p,
                ));
            }
            x = x + 1;
        }
        proof {
            assert(y * w + w == (y + 1) * w) by (nonlinear_arith);
        }
        y = y + 1;
    }
    proof {
        assert(h * w == w * h) by (nonlinear_arith);
    }
}

/// Writing back the RGBA frame read from a layer leaves that layer unchanged,
/// whatever its stride: every write puts back the bytes it was read from.
pub proof fn lemma_layer_round_trip(src: Seq<u8>, w: int, h: int, stride: int, n: nat)
    requires
        w >= 0,
        h >= 0,
        stride >= 0,
        n <= w * h,
    ensures
        layer_after_writes(src, rgba_from_layer(src, w, h, stride), w, stride, n) == src,
    decreases n,
{
    if n > 0 {
        assert(w > 0 && h > 0) by (nonlinear_arith)
            requires
                w >= 0,
                h >= 0,
                0 < n <= w * h,
        ;
        lemma_layer_round_trip(src, w, h, stride, (n - 1) as nat);
        let pix = rgba_from_layer(src, w, h, stride);
        let p = n - 1;
        let si = p * 4;
        assert(si + 3 < frame_len(w, h)) by (nonlinear_arith)
            requires
                0 <= p < w * h,
                si == p * 4,
        ;
        if si + 3 < pix.len() && layer_offset(stride, p % w, p / w) + 3 < src.len() {
            let di = layer_offset(stride, p % w, p / w);
            lemma_fundamental_div_mod_converse(si, 4, p, 0);
            lemma_fundamental_div_mod_converse(si + 1, 4, p, 1);
            lemma_fundamental_div_mod_converse(si + 2, 4, p, 2);
            lemma_fundamental_div_mod_converse(si + 3, 4, p, 3);
            assert(pix[si] == src[di + 1]);
            assert(pix[si + 1] == src[di + 2]);
            assert(pix[si + 2] == src[di + 3]);
            assert(pix[si + 3] == src[di]);
            assert(write_layer_pixel(src, pix, w, stride, p) =~= src);
        }
    }
}

/// Pixel `q` of `pix` sits, in ARGB order, at its place in the layer `l`.
pub open spec fn pixel_written(l: Seq<u8>, pix: Seq<u8>, w: int, stride: int, q: int) -> bool {
    let di = layer_offset(stride, q % w, q / w);
    &&& l[di] == pix[q * 4 + 3]
    &&& l[di + 1] == pix[q * 4]
    &&& l[di + 2] == pix[q * 4 + 1]
    &&& l[di + 3] == pix[q * 4 + 2]
}

/// With rows at least `4w` bytes apart, an earlier pixel's four bytes lie
/// wholly before a later pixel's.
proof fn lemma_pixels_disjoint(w: int, stride: int, q: int, p: int)
    requires
        w > 0,
        stride >= 4 * w,
        0 <= q < p,
    ensures
        layer_offset(stride, q % w, q / w) + 4 <= layer_offset(stride, p % w, p / w),
{
    lemma_fundamental_div_mod(q, w);
    lemma_fundamental_div_mod(p, w);
    lemma_mod_bound(q, w);
    lemma_mod_bound(p, w);
    lemma_div_is_ordered(q, p, w);
    let (xq, yq, xp, yp) = (q % w, q / w, p % w, p / w);
    assert(w * yq == yq * w && w * yp == yp * w) by (nonlinear_arith);
    if yq == yp {
        assert(xq < xp);
    } else {
        assert(yq + 1 <= yp);
        assert((yq + 1) * stride <= yp * stride) by (nonlinear_arith)
            requires
                yq + 1 <= yp,
                stride >= 0,
        ;
        assert(yq * stride + stride == (yq + 1) * stride) by (nonlinear_arith);
    }
}

/// Pixel `p` of a `w` x `h` frame has all four layer bytes inside a layer
/// that holds `h` rows of `stride` bytes, the last one at least `4w` long.
proof fn lemma_pixel_in_layer(w: int, h: int, stride: int, len: int, p: int)
    requires
        w > 0,
        h > 0,
        0 <= p < w * h,
        stride >= 0,
        (h - 1) * stride + 4 * w <= len,
    ensures
        0 <= layer_offset(stride, p % w, p / w),
        layer_offset(stride, p % w, p / w) + 3 < len,
{
    lemma_fundamental_div_mod(p, w);
    lemma_mod_bound(p, w);
    lemma_div_pos_is_pos(p, w);
    let (x, y) = (p % w, p / w);
    assert(y < h) by (nonlinear_arith)
        requires
            p == w * y + x,
            0 <= x,
            p < w * h,
            w > 0,
    ;
    assert(y * stride <= (h - 1) * stride && 0 <= y * stride) by (nonlinear_arith)
        requires
            0 <= y <= h - 1,
            stride >= 0,
    ;
}

/// After the first `n` pixels are written, each of them sits at its place.
proof fn lemma_writes_place_pixels(d: Seq<u8>, pix: Seq<u8>, w: int, h: int, stride: int, n: nat)
    requires
        w > 0,
        h > 0,
        pix.len() == frame_len(w, h),
        stride >= 4 * w,
        (h - 1) * stride + 4 * w <= d.len(),
        n <= w * h,
    ensures
        layer_after_writes(d, pix, w, stride, n).len() == d.len(),
        forall|q: int| 0 <= q < n ==> #[trigger] pixel_written(layer_after_writes(d, pix, w, stride, n), pix, w, stride, q),
    decreases n,
{
    if n > 0 {
        let p = n - 1;
        lemma_writes_place_pixels(d, pix, w, h, stride, (n - 1) as nat);
        let prev = layer_after_writes(d, pix, w, stride, (n - 1) as nat);
        let cur = layer_after_writes(d, pix, w, stride, n);
        lemma_pixel_in_layer(w, h, stride, d.len() as int, p);
        assert(p * 4 + 3 < frame_len(w, h)) by (nonlinear_arith)
            requires
                0 <= p < w * h,
        ;
        let di = layer_offset(stride, p % w, p / w);
        assert(cur == prev.update(di, pix[p * 4 + 3]).update(di + 1, pix[p * 4]).update(di + 2, pix[p * 4 + 1]).update(di + 3, pix[p * 4 + 2]));
        assert forall|q: int| 0 <= q < n implies #[trigger] pixel_written(cur, pix, w, stride, q) by {
            if q < p {
                lemma_pixels_disjoint(w, stride, q, p);
                lemma_pixel_in_layer(w, h, stride, d.len() as int, q);
                assert(pixel_written(prev, pix, w, stride, q));
            }
        }
    }
}

/// Writing a frame into a layer whose rows are at least `4 * width` bytes
/// apart and that holds every row, then reading the layer back, gives the
/// frame.
pub proof fn lemma_frame_round_trip(d: Seq<u8>, pix: Seq<u8>, w: int, h: int, stride: int)
    requires
        w >= 0,
        h >= 0,
        pix.len() == frame_len(w, h),
        stride >= 4 * w,
        h > 0 ==> (h - 1) * stride + 4 * w <= d.len(),
    ensures
        rgba_from_layer(layer_after_writes(d, pix, w, stride, (w * h) as nat), w, h, stride) == pix,
{
    let l = layer_after_writes(d, pix, w, stride, (w * h) as nat);
    let r = rgba_from_layer(l, w, h, stride);
    if w == 0 || h == 0 {
        assert(frame_len(w, h) == 0) by (nonlinear_arith)
            requires
                w == 0 || h == 0,
        ;
        assert(r =~= pix);
    } else {
        assert(w * h >= 0) by (nonlinear_arith)
            requires
                w > 0,
                h > 0,
        ;
        lemma_writes_place_pixels(d, pix, w, h, stride, (w * h) as nat);
        assert forall|i: int| 0 <= i < pix.len() implies r[i] == pix[i] by {
            let p = i / 4;
            let k = i % 4;
            lemma_fundamental_div_mod(i, 4);
            lemma_mod_bound(i, 4);
            lemma_div_pos_is_pos(i, 4);
            assert(p < w * h) by (nonlinear_arith)
                requires
                    i == 4 * p + k,
                    0 <= k,
                    i < w * h * 4,
            ;
            assert(pixel_written(l, pix, w, stride, p));
            lemma_pixel_in_layer(w, h, stride, d.len() as int, p);
            assert(4 * p == p * 4);
        }
        assert(r =~= pix);
    }
}


/// The layer after row `y` of `src` (bytes `y * in_stride ..`) is copied
/// over row `y` of `d` (bytes `y * out_stride ..`); a row that does not fit
/// in both buffers is skipped.
pub open spec fn copy_row(d: Seq<u8>, src: Seq<u8>, row_len: int, in_stride: int, out_stride: int, y: int) -> Seq<u8> {
    let si = y * in_stride;
    let di = y * out_stride;
    if si + row_len <= src.len() && di + row_len <= d.len() {
        d.take(di) + src.subrange(si, si + row_len) + d.skip(di + row_len)
    } else {
        d
    }
}

/// The layer after the first `n` rows are copied, in order.
pub open spec fn rows_copied(d: Seq<u8>, src: Seq<u8>, row_len: int, in_stride: int, out_stride: int, n: nat) -> Seq<u8>
    decreases n,
{
    if n == 0 {
        d
    } else {
        copy_row(rows_copied(d, src, row_len, in_stride, out_stride, (n - 1) as nat), src, row_len, in_stride, out_stride, n - 1)
    }
}

/// Copies the overlap of two layers row by row: `min(in_width, out_width)`
/// pixels of each of the first `min(in_height, out_height)` rows.
pub fn copy_layer_rows(
    src: &[u8],
    in_width: usize,
    in_height: usize,
    in_stride: usize,
    dst: &mut [u8],
    out_width: usize,
    out_height: usize,
    out_stride: usize,
)
    ensures
        final(dst)@ == rows_copied(
            old(dst)@,
            src@,
            4 * if in_width < out_width { in_width as int } else { out_width as int },
            in_stride as int,
            out_stride as int,
            (if in_height < out_height { in_height } else { out_height }) as nat,
        ),
{
    let width: usize = if in_width < out_width { in_width } else { out_width };
    let height: usize = if in_height < out_height { in_height } else { out_height };
    let ghost d0 = dst@;
    let ghost row_len = 4 * width as int;
    let slen = src.len();
    let dlen = dst.len();
    let mut y: usize = 0;
    while y < height
        invariant
            slen == src@.len(),
            dlen == dst@.len(),
            row_len == 4 * width,
            y <= height,
            dst@ == rows_copied(d0, src@, row_len, in_stride as int, out_stride as int, y as nat),
        decreases height - y,
    {
        proof {
            assert(0 <= y * in_stride && 0 <= y * out_stride) by (nonlinear_arith);
            assert(y * in_stride <= usize::MAX * usize::MAX && y * out_stride <= usize::MAX * usize::MAX)
                by (nonlinear_arith)
                requires
                    y <= usize::MAX,
                    in_stride <= usize::MAX,
                    out_stride <= usize::MAX,
            ;
        }
        let si = (y as u128) * (in_stride as u128);
        let di = (y as u128) * (out_stride as u128);
        let len = (width as u128) * 4;
        if si <= slen as u128 && len <= slen as u128 - si && di <= dlen as u128 && len <= dlen as u128 - di {
            let s = si as usize;
            let d = di as usize;
            let n = len as usize;
            let ghost before = dst@;
            let mut j: usize = 0;
            while j < n
                invariant
                    slen == src@.len(),
                    dlen == dst@.len(),
                    dlen == before.len(),
                    s + n <= slen,
                    d + n <= dlen,
                    j <= n,
                    dst@ == before.take(d as int) + src@.subrange(s as int, s + j) + before.skip(d + j),
                decreases n - j,
            {
                dst[d + j] = src[s + j];
                j = j + 1;
                proof {
                    assert(dst@ =~= before.take(d as int) + src@.subrange(s as int, s + j) + before.skip(d + j));
                }
            }
        }
        y = y + 1;
    }
}

/// An axis-aligned rectangle: `left <= x < right`, `top <= y < bottom`.
#[derive(Clone, Copy, Debug, PartialEq, Eq, Structural)]
pub struct Rect {
    pub left: i32,
    pub top: i32,
    pub right: i32,
    pub bottom: i32,
}

/// `rect` clipped to `request`: each edge moved inward to the request's edge.
pub fn clip_to_request(rect: Rect, request: Rect) -> (clipped: Rect)
    ensures
        clipped.left == if rect.left > request.left { rect.left } else { request.left },
        clipped.top == if rect.top > request.top { rect.top } else { request.top },
        clipped.right == if rect.right < request.right { rect.right } else { request.right },
        clipped.bottom == if rect.bottom < request.bottom { rect.bottom } else { request.bottom },
        request.left <= clipped.left,
        request.top <= clipped.top,
        clipped.right <= request.right,
        clipped.bottom <= request.bottom,
{
    Rect {
        left: if rect.left > request.left { rect.left } else { request.left },
        top: if rect.top > request.top { rect.top } else { request.top },
        right: if rect.right < request.right { rect.right } else { request.right },
        bottom: if rect.bottom < request.bottom { rect.bottom } else { request.bottom },
    }
}

/// Byte `j` of row `y` of the destination layer equals byte `j` of row `y`
/// of the source layer.
pub open spec fn row_byte_copied(l: Seq<u8>, src: Seq<u8>, in_stride: int, out_stride: int, y: int, j: int) -> bool {
    l[y * out_stride + j] == src[y * in_stride + j]
}

/// A row that fits in both layers (its last byte may be the last byte of a
/// buffer) is copied, and every byte outside it is left alone.
pub proof fn lemma_copy_row_copies(d: Seq<u8>, src: Seq<u8>, row_len: int, in_stride: int, out_stride: int, y: int)
    requires
        row_len >= 0,
        y >= 0,
        in_stride >= 0,
        out_stride >= 0,
        y * in_stride + row_len <= src.len(),
        y * out_stride + row_len <= d.len(),
    ensures
        copy_row(d, src, row_len, in_stride, out_stride, y).len() == d.len(),
        forall|j: int| 0 <= j < row_len ==> #[trigger] row_byte_copied(
            copy_row(d, src, row_len, in_stride, out_stride, y), src, in_stride, out_stride, y, j),
        forall|k: int| 0 <= k < d.len() && !(y * out_stride <= k < y * out_stride + row_len)
            ==> #[trigger] copy_row(d, src, row_len, in_stride, out_stride, y)[k] == d[k],
{
    assert(0 <= y * in_stride && 0 <= y * out_stride) by (nonlinear_arith)
        requires
            y >= 0,
            in_stride >= 0,
            out_stride >= 0,
    ;
}

/// A row that does not fit in both layers leaves the destination unchanged.
pub proof fn lemma_copy_row_skips(d: Seq<u8>, src: Seq<u8>, row_len: int, in_stride: int, out_stride: int, y: int)
    requires
        !(y * in_stride + row_len <= src.len() && y * out_stride + row_len <= d.len()),
    ensures
        copy_row(d, src, row_len, in_stride, out_stride, y) == d,
{
}

/// When destination rows are at least a row apart and both layers hold the
/// first `n` rows, every byte of each of those rows is copied.
pub proof fn lemma_layer_rows_copied(d: Seq<u8>, src: Seq<u8>, row_len: int, in_stride: int, out_stride: int, n: nat)
    requires
        row_len >= 0,
        in_stride >= 0,
        out_stride >= row_len,
        n > 0 ==> (n - 1) * in_stride + row_len <= src.len(),
        n > 0 ==> (n - 1) * out_stride + row_len <= d.len(),
    ensures
        rows_copied(d, src, row_len, in_stride, out_stride, n).len() == d.len(),
        forall|y: int, j: int| 0 <= y < n && 0 <= j < row_len ==> #[trigger] row_byte_copied(
            rows_copied(d, src, row_len, in_stride, out_stride, n), src, in_stride, out_stride, y, j),
    decreases n,
{
    if n > 0 {
        let m = (n - 1) as nat;
        if m > 0 {
            assert((m - 1) * in_stride <= m * in_stride && (m - 1) * out_stride <= m * out_stride)
                by (nonlinear_arith)
                requires
                    m > 0,
                    in_stride >= 0,
                    out_stride >= 0,
            ;
        }
        lemma_layer_rows_copied(d, src, row_len, in_stride, out_stride, m);
        let prev = rows_copied(d, src, row_len, in_stride, out_stride, m);
        let cur = rows_copied(d, src, row_len, in_stride, out_stride, n);
        lemma_copy_row_copies(prev, src, row_len, in_stride, out_stride, m as int);
        assert forall|y: int, j: int| 0 <= y < n && 0 <= j < row_len implies #[trigger] row_byte_copied(
            cur, src, in_stride, out_stride, y, j) by {
            if y < m {
                assert(row_byte_copied(prev, src, in_stride, out_stride, y, j));
                assert(y * out_stride + j < m * out_stride && 0 <= y * out_stride) by (nonlinear_arith)
                    requires
                        0 <= y < m,
                        0 <= j < row_len,
                        out_stride >= row_len,
                ;
                assert(cur[y * out_stride + j] == prev[y * out_stride + j]);
            } else {
                assert(row_byte_copied(cur, src, in_stride, out_stride, m as int, j));
            }
        }
    }
}

/// Reading a layer: red, green and blue of a frame pixel are bytes 1, 2, 3 of
/// the layer pixel `(x, y)` at `y * stride + 4 * x`, and alpha is byte 0;
/// a pixel whose bytes are not all in the layer reads as zero.
pub proof fn lemma_layer_read_channels(src: Seq<u8>, w: int, h: int, stride: int, x: int, y: int)
    requires
        0 <= x < w,
        0 <= y < h,
        stride >= 0,
    ensures
        ({
            let f = rgba_from_layer(src, w, h, stride);
            let o = (y * w + x) * 4;
            let si = y * stride + x * 4;
            &&& si + 3 < src.len() ==> f[o] == src[si + 1] && f[o + 1] == src[si + 2]
                && f[o + 2] == src[si + 3] && f[o + 3] == src[si]
            &&& si + 3 >= src.len() ==> f[o] == 0 && f[o + 1] == 0 && f[o + 2] == 0 && f[o + 3] == 0
        }),
{
    lemma_pixel_in_frame(w, h, x, y);
    lemma_index_decompose(w, x, y, 0);
    lemma_index_decompose(w, x, y, 1);
    lemma_index_decompose(w, x, y, 2);
    lemma_index_decompose(w, x, y, 3);
}

/// Writing a layer: when rows are at least `4 * width` bytes apart and the
/// layer holds every row, pixel `(x, y)` ends up at `y * stride + 4 * x` as
/// alpha, red, green, blue.
pub proof fn lemma_layer_write_channels(d: Seq<u8>, pix: Seq<u8>, w: int, h: int, stride: int, x: int, y: int)
    requires
        0 <= x < w,
        0 <= y < h,
        pix.len() == frame_len(w, h),
        stride >= 4 * w,
        (h - 1) * stride + 4 * w <= d.len(),
    ensures
        ({
            let l = layer_after_writes(d, pix, w, stride, (w * h) as nat);
            let o = (y * w + x) * 4;
            let di = y * stride + x * 4;
            &&& l.len() == d.len()
            &&& l[di] == pix[o + 3]
            &&& l[di + 1] == pix[o]
            &&& l[di + 2] == pix[o + 1]
            &&& l[di + 3] == pix[o + 2]
        }),
{
    let q = y * w + x;
    assert(0 <= q < w * h) by (nonlinear_arith)
        requires
            0 <= x < w,
            0 <= y < h,
            q == y * w + x,
    ;
    lemma_writes_place_pixels(d, pix, w, h, stride, (w * h) as nat);
    assert(pixel_written(layer_after_writes(d, pix, w, stride, (w * h) as nat), pix, w, stride, q));
    lemma_fundamental_div_mod_converse(q, w, y, x);
    assert(q * 4 == (y * w + x) * 4);
}

} // verus!
