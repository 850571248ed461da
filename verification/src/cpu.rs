//! The integer CPU effects: copy, box blur, diffusion, and the sampling stage
//! of the chroma warp.
use vstd::prelude::*;
use vstd::arithmetic::div_mod::{
    lemma_div_by_multiple, lemma_fundamental_div_mod, lemma_div_pos_is_pos, lemma_mod_bound, lemma_div_is_ordered, lemma_fundamental_div_mod_converse,
};
use crate::frame::{frame_len, FrameRgba8};

verus! {

/// `v` clamped into `0..n` (for `n > 0`).
pub open spec fn clamp_coord(v: int, n: int) -> int {
    if v < 0 {
        0
    } else if v >= n {
        n - 1
    } else {
        v
    }
}

/// Channel `c` of the pixel at column `x`, row `y` of a frame `w` pixels wide.
pub open spec fn byte_at(p: Seq<u8>, w: int, x: int, y: int, c: int) -> int {
    p[(y * w + x) * 4 + c] as int
}

/// The radius the box blur uses: at most 32.
pub open spec fn blur_radius(radius: u32) -> int {
    if radius < 32 {
        radius as int
    } else {
        32
    }
}

/// Sum of channel `c` over the first `k` columns of the window row `sy`, the
/// columns starting at `x - r` and clamped into the frame.
pub open spec fn row_sum(p: Seq<u8>, w: int, x: int, sy: int, r: int, c: int, k: nat) -> int
    decreases k,
{
    if k == 0 {
        0
    } else {
        row_sum(p, w, x, sy, r, c, (k - 1) as nat) + byte_at(p, w, clamp_coord(x - r + k - 1, w), sy, c)
    }
}

/// Sum of channel `c` over the first `k` rows of the `(2r+1)`-square window
/// centred on `(x, y)`, rows and columns clamped into the frame.
pub open spec fn window_sum(p: Seq<u8>, w: int, h: int, x: int, y: int, r: int, c: int, k: nat) -> int
    decreases k,
{
    if k == 0 {
        0
    } else {
        window_sum(p, w, h, x, y, r, c, (k - 1) as nat)
            + row_sum(p, w, x, clamp_coord(y - r + k - 1, h), r, c, (2 * r + 1) as nat)
    }
}

/// Channel `c` of the box-blurred pixel `(x, y)`: the mean of the clamped
/// `(2r+1)`-square window, rounded down.
pub open spec fn blur_at(p: Seq<u8>, w: int, h: int, r: int, x: int, y: int, c: int) -> int {
    window_sum(p, w, h, x, y, r, c, (2 * r + 1) as nat) / ((2 * r + 1) * (2 * r + 1))
}

/// Column of byte `i` in a frame `w` pixels wide.
pub open spec fn col_of(i: int, w: int) -> int {
    (i / 4) % w
}

/// Row of byte `i` in a frame `w` pixels wide.
pub open spec fn row_of(i: int, w: int) -> int {
    (i / 4) / w
}

/// The pixels of a `w` x `h` frame after a box blur of the given radius.
pub open spec fn box_blur_pixels(p: Seq<u8>, w: int, h: int, radius: u32) -> Seq<u8> {
    Seq::new(
        p.len(),
        |i: int| blur_at(p, w, h, blur_radius(radius), col_of(i, w), row_of(i, w), i % 4) as u8,
    )
}

/// The pixels after `n` box blurs of radius 1.
pub open spec fn diffused_pixels(p: Seq<u8>, w: int, h: int, n: nat) -> Seq<u8>
    decreases n,
{
    if n == 0 {
        p
    } else {
        box_blur_pixels(diffused_pixels(p, w, h, (n - 1) as nat), w, h, 1)
    }
}

/// The byte index of channel `c` of pixel `(x, y)` decomposes back into
/// `(x, y, c)`.
pub proof fn lemma_index_decompose(w: int, x: int, y: int, c: int)
    requires
        0 <= x < w,
        0 <= y,
        0 <= c < 4,
    ensures
        ((y * w + x) * 4 + c) % 4 == c,
        col_of((y * w + x) * 4 + c, w) == x,
        row_of((y * w + x) * 4 + c, w) == y,
{
    let i = (y * w + x) * 4 + c;
    lemma_fundamental_div_mod_converse(i, 4, y * w + x, c);
    lemma_fundamental_div_mod_converse(y * w + x, w, y, x);
}

/// Every byte of pixel `(x, y)` lies inside a `w` x `h` frame.
pub proof fn lemma_pixel_in_frame(w: int, h: int, x: int, y: int)
    requires
        0 <= x < w,
        0 <= y < h,
    ensures
        0 <= (y * w + x) * 4,
        (y * w + x) * 4 + 3 < frame_len(w, h),
{
    assert(y * w + x < h * w) by (nonlinear_arith)
        requires
            0 <= x < w,
            0 <= y < h,
    ;
    assert(0 <= y * w) by (nonlinear_arith)
        requires
            0 <= x < w,
            0 <= y < h,
    ;
    assert(h * w * 4 == w * h * 4) by (nonlinear_arith);
}

/// A row sum over `k` columns lies in `0..=255*k`.
pub proof fn lemma_row_sum_bounds(p: Seq<u8>, w: int, x: int, sy: int, r: int, c: int, k: nat)
    ensures
        0 <= row_sum(p, w, x, sy, r, c, k) <= 255 * k,
    decreases k,
{
    if k > 0 {
        lemma_row_sum_bounds(p, w, x, sy, r, c, (k - 1) as nat);
    }
}

/// A window sum over `k` rows lies in `0..=255*k*(2r+1)`.
pub proof fn lemma_window_sum_bounds(p: Seq<u8>, w: int, h: int, x: int, y: int, r: int, c: int, k: nat)
    requires
        r >= 0,
    ensures
        0 <= window_sum(p, w, h, x, y, r, c, k) <= 255 * k * (2 * r + 1),
    decreases k,
{
    if k > 0 {
        lemma_window_sum_bounds(p, w, h, x, y, r, c, (k - 1) as nat);
        lemma_row_sum_bounds(p, w, x, clamp_coord(y - r + k - 1, h), r, c, (2 * r + 1) as nat);
        assert(255 * (k - 1) * (2 * r + 1) + 255 * (2 * r + 1) == 255 * k * (2 * r + 1))
            by (nonlinear_arith);
    }
}

/// `v + k - r` clamped into `0..n`.
fn clamp_offset(v: usize, k: usize, r: usize, n: usize) -> (s: usize)
    requires
        v < n,
        k <= 2 * r,
        r <= 32,
        n * 4 <= usize::MAX,
    ensures
        s == clamp_coord(v + k - r, n as int),
        s < n,
{
    if v + k < r {
        0
    } else {
        let t = v + k - r;
        if t >= n {
            n - 1
        } else {
            t
        }
    }
}

/// Channel sums of the clamped `(2r+1)`-square window centred on `(x, y)`.
fn window_sums(p: &Vec<u8>, w: usize, h: usize, r: usize, x: usize, y: usize) -> (sums: (u32, u32, u32, u32))
    requires
        p@.len() == frame_len(w as int, h as int),
        x < w,
        y < h,
        r <= 32,
    ensures
        sums.0 == window_sum(p@, w as int, h as int, x as int, y as int, r as int, 0, (2 * r + 1) as nat),
        sums.1 == window_sum(p@, w as int, h as int, x as int, y as int, r as int, 1, (2 * r + 1) as nat),
        sums.2 == window_sum(p@, w as int, h as int, x as int, y as int, r as int, 2, (2 * r + 1) as nat),
        sums.3 == window_sum(p@, w as int, h as int, x as int, y as int, r as int, 3, (2 * r + 1) as nat),
{
    let plen = p.len();
    proof {
        assert(w * 4 <= w * h * 4 && h * 4 <= w * h * 4) by (nonlinear_arith)
            requires
                x < w,
                y < h,
        ;
    }
    let ghost ps = p@;
    let ghost (wi, hi, xi, yi, ri) = (w as int, h as int, x as int, y as int, r as int);
    let side = 2 * r + 1;
    let mut s0: u32 = 0;
    let mut s1: u32 = 0;
    let mut s2: u32 = 0;
    let mut s3: u32 = 0;
    let mut j: usize = 0;
    while j < side
        invariant
            ps == p@,
            p@.len() == frame_len(wi, hi),
            wi == w, hi == h, xi == x, yi == y, ri == r,
            x < w,
            y < h,
            r <= 32,
            side == 2 * r + 1,
            j <= side,
            w * 4 <= usize::MAX,
            h * 4 <= usize::MAX,
            p@.len() <= usize::MAX,
            s0 == window_sum(ps, wi, hi, xi, yi, ri, 0, j as nat),
            s1 == window_sum(ps, wi, hi, xi, yi, ri, 1, j as nat),
            s2 == window_sum(ps, wi, hi, xi, yi, ri, 2, j as nat),
            s3 == window_sum(ps, wi, hi, xi, yi, ri, 3, j as nat),
        decreases side - j,
    {
        let sy = clamp_offset(y, j, r, h);
        proof {
            lemma_window_sum_bounds(ps, wi, hi, xi, yi, ri, 0, j as nat);
            lemma_window_sum_bounds(ps, wi, hi, xi, yi, ri, 1, j as nat);
            lemma_window_sum_bounds(ps, wi, hi, xi, yi, ri, 2, j as nat);
            lemma_window_sum_bounds(ps, wi, hi, xi, yi, ri, 3, j as nat);
        }
        let mut i: usize = 0;
        while i < side
            invariant
                ps == p@,
                p@.len() == frame_len(wi, hi),
                wi == w, hi == h, xi == x, yi == y, ri == r,
                x < w,
                y < h,
                sy < h,
                sy == clamp_coord(yi + j - ri, hi),
                r <= 32,
                side == 2 * r + 1,
                j < side,
                i <= side,
                w * 4 <= usize::MAX,
                h * 4 <= usize::MAX,
                p@.len() <= usize::MAX,
                window_sum(ps, wi, hi, xi, yi, ri, 0, j as nat) <= 255 * j * side,
                window_sum(ps, wi, hi, xi, yi, ri, 1, j as nat) <= 255 * j * side,
                window_sum(ps, wi, hi, xi, yi, ri, 2, j as nat) <= 255 * j * side,
                window_sum(ps, wi, hi, xi, yi, ri, 3, j as nat) <= 255 * j * side,
                s0 == window_sum(ps, wi, hi, xi, yi, ri, 0, j as nat) + row_sum(ps, wi, xi, sy as int, ri, 0, i as nat),
                s1 == window_sum(ps, wi, hi, xi, yi, ri, 1, j as nat) + row_sum(ps, wi, xi, sy as int, ri, 1, i as nat),
                s2 == window_sum(ps, wi, hi, xi, yi, ri, 2, j as nat) + row_sum(ps, wi, xi, sy as int, ri, 2, i as nat),
                s3 == window_sum(ps, wi, hi, xi, yi, ri, 3, j as nat) + row_sum(ps, wi, xi, sy as int, ri, 3, i as nat),
            decreases side - i,
        {
            let sx = clamp_offset(x, i, r, w);
            proof {
                lemma_pixel_in_frame(wi, hi, sx as int, sy as int);
                lemma_row_sum_bounds(ps, wi, xi, sy as int, ri, 0, i as nat);
                lemma_row_sum_bounds(ps, wi, xi, sy as int, ri, 1, i as nat);
                lemma_row_sum_bounds(ps, wi, xi, sy as int, ri, 2, i as nat);
                lemma_row_sum_bounds(ps, wi, xi, sy as int, ri, 3, i as nat);
                assert(255 * j * side + 255 * i + 255 <= 255 * 65 * 65) by (nonlinear_arith)
                    requires
                        j < side,
                        i < side,
                        side <= 65,
                ;
            }
            let base = (sy * w + sx) * 4;
            s0 = s0 + p[base] as u32;
            s1 = s1 + p[base + 1] as u32;
            s2 = s2 + p[base + 2] as u32;
            s3 = s3 + p[base + 3] as u32;
            i = i + 1;
        }
        j = j + 1;
    }
    (s0, s1, s2, s3)
}

/// Box blur: every channel of every pixel becomes the mean, rounded down, of
/// that channel over the `(2r+1)`-square window around it, where `r` is the
/// radius capped at 32 and window cells outside the frame are clamped to its
/// nearest edge.
pub fn box_blur(input: &FrameRgba8, radius: u32) -> (out: FrameRgba8)
    requires
        input.wf(),
    ensures
        out.width == input.width,
        out.height == input.height,
        out.wf(),
        out.pixels@ == box_blur_pixels(input.pixels@, input.width as int, input.height as int, radius),
{
    let w = input.width as usize;
    let h = input.height as usize;
    let r: usize = if radius < 32 {
        radius as usize
    } else {
        32
    };
    let side = 2 * r + 1;
    proof {
        assert(1 <= side * side <= 65 * 65) by (nonlinear_arith)
            requires
                1 <= side <= 65,
        ;
    }
    let count: u32 = (side * side) as u32;
    let ghost ps = input.pixels@;
    let ghost target = box_blur_pixels(ps, w as int, h as int, radius);
    let mut out: Vec<u8> = Vec::new();
    let mut y: usize = 0;
    while y < h
        invariant
            ps == input.pixels@,
            ps.len() == frame_len(w as int, h as int),
            target == box_blur_pixels(ps, w as int, h as int, radius),
            w == input.width,
            h == input.height,
            r == blur_radius(radius),
            side == 2 * r + 1,
            count == side * side,
            count >= 1,
            y <= h,
            out@.len() == y * w * 4,
            forall|k: int| 0 <= k < out@.len() ==> #[trigger] out@[k] == target[k],
        decreases h - y,
    {
        let mut x: usize = 0;
        while x < w
            invariant
                ps == input.pixels@,
                ps.len() == frame_len(w as int, h as int),
                target == box_blur_pixels(ps, w as int, h as int, radius),
                w == input.width,
                h == input.height,
                r == blur_radius(radius),
                side == 2 * r + 1,
                count == side * side,
                count >= 1,
                y < h,
                x <= w,
                out@.len() == (y * w + x) * 4,
                forall|k: int| 0 <= k < out@.len() ==> #[trigger] out@[k] == target[k],
            decreases w - x,
        {
            let sums = window_sums(&input.pixels, w, h, r, x, y);
            let ghost k0 = (y * w + x) * 4;
            proof {
                lemma_pixel_in_frame(w as int, h as int, x as int, y as int);
                lemma_index_decompose(w as int, x as int, y as int, 0);
                lemma_index_decompose(w as int, x as int, y as int, 1);
                lemma_index_decompose(w as int, x as int, y as int, 2);
                lemma_index_decompose(w as int, x as int, y as int, 3);
                let ri = r as int;
                lemma_window_sum_bounds(ps, w as int, h as int, x as int, y as int, ri, 0, side as nat);
                lemma_window_sum_bounds(ps, w as int, h as int, x as int, y as int, ri, 1, side as nat);
                lemma_window_sum_bounds(ps, w as int, h as int, x as int, y as int, ri, 2, side as nat);
                lemma_window_sum_bounds(ps, w as int, h as int, x as int, y as int, ri, 3, side as nat);
                assert(255 * side * side == 255 * count) by (nonlinear_arith)
                    requires
                        count == side * side,
                ;
                lemma_div_by_multiple(255, count as int);
                lemma_div_is_ordered(sums.0 as int, 255 * count, count as int);
                lemma_div_is_ordered(sums.1 as int, 255 * count, count as int);
                lemma_div_is_ordered(sums.2 as int, 255 * count, count as int);
                lemma_div_is_ordered(sums.3 as int, 255 * count, count as int);
            }
            out.push((sums.0 / count) as u8);
            out.push((sums.1 / count) as u8);
            out.push((sums.2 / count) as u8);
            out.push((sums.3 / count) as u8);
            proof {
                assert(out@[k0] == target[k0]);
                assert(out@[k0 + 1] == target[k0 + 1]);
                assert(out@[k0 + 2] == target[k0 + 2]);
                assert(out@[k0 + 3] == target[k0 + 3]);
                assert((y * w + x + 1) * 4 == k0 + 4);
            }
            x = x + 1;
        }
        proof {
            assert((y * w + w) * 4 == (y + 1) * w * 4) by (nonlinear_arith);
        }
        y = y + 1;
    }
    proof {
        assert(h * w * 4 == frame_len(w as int, h as int)) by (nonlinear_arith);
        assert(out@ =~= target);
    }
    FrameRgba8 { width: input.width, height: input.height, pixels: out }
}

/// The copy effect: the input frame unchanged.
pub fn copy_frame(input: &FrameRgba8) -> (out: FrameRgba8)
    ensures
        out.width == input.width,
        out.height == input.height,
        out.pixels@ == input.pixels@,
        out.wf() == input.wf(),
{
    let n = input.pixels.len();
    let mut pixels: Vec<u8> = Vec::new();
    let mut i: usize = 0;
    while i < n
        invariant
            n == input.pixels@.len(),
            i <= n,
            pixels@ == input.pixels@.take(i as int),
        decreases n - i,
    {
        pixels.push(input.pixels[i]);
        i = i + 1;
        proof {
            assert(pixels@ =~= input.pixels@.take(i as int));
        }
    }
    proof {
        assert(input.pixels@.take(n as int) =~= input.pixels@);
    }
    FrameRgba8 { width: input.width, height: input.height, pixels }
}

/// The number of radius-1 blurs the diffusion effect applies: at most 64.
pub open spec fn diffusion_passes(passes: u32) -> nat {
    if passes < 64 {
        passes as nat
    } else {
        64
    }
}

/// Diffusion: the box blur of radius 1 applied `passes` times, at most 64.
/// With no pass the frame is copied unchanged, whatever its buffer holds.
pub fn diffusion(input: &FrameRgba8, passes: u32) -> (out: FrameRgba8)
    requires
        passes == 0 || input.wf(),
    ensures
        out.width == input.width,
        out.height == input.height,
        out.wf() == input.wf(),
        out.pixels@ == diffused_pixels(
            input.pixels@,
            input.width as int,
            input.height as int,
            diffusion_passes(passes),
        ),
{
    let n: u32 = if passes < 64 {
        passes
    } else {
        64
    };
    if n == 0 {
        return copy_frame(input);
    }
    let mut cur = box_blur(input, 1);
    proof {
        let (p, w, h) = (input.pixels@, input.width as int, input.height as int);
        assert(diffused_pixels(p, w, h, 0) == p);
        assert(diffused_pixels(p, w, h, 1) == box_blur_pixels(diffused_pixels(p, w, h, 0), w, h, 1));
    }
    let mut k: u32 = 1;
    while k < n
        invariant
            n == diffusion_passes(passes),
            1 <= k <= n,
            input.wf(),
            cur.width == input.width,
            cur.height == input.height,
            cur.wf(),
            cur.pixels@ == diffused_pixels(
                input.pixels@,
                input.width as int,
                input.height as int,
                k as nat,
            ),
        decreases n - k,
    {
        cur = box_blur(&cur, 1);
        k = k + 1;
    }
    cur
}

/// The pixel at `(x, y)`, both clamped into the frame.
pub fn sample(input: &FrameRgba8, x: i64, y: i64) -> (px: [u8; 4])
    requires
        input.wf(),
        input.width >= 1,
        input.height >= 1,
    ensures
        forall|c: int| 0 <= c < 4 ==> px[c] as int == byte_at(
            input.pixels@,
            input.width as int,
            clamp_coord(x as int, input.width as int),
            clamp_coord(y as int, input.height as int),
            c,
        ),
{
    let w = input.width as usize;
    let h = input.height as usize;
    let sx: usize = if x < 0 {
        0
    } else if x >= w as i64 {
        w - 1
    } else {
        x as usize
    };
    let sy: usize = if y < 0 {
        0
    } else if y >= h as i64 {
        h - 1
    } else {
        y as usize
    };
    let plen = input.pixels.len();
    proof {
        lemma_pixel_in_frame(w as int, h as int, sx as int, sy as int);
    }
    let i = (sy * w + sx) * 4;
    [input.pixels[i], input.pixels[i + 1], input.pixels[i + 2], input.pixels[i + 3]]
}

/// Channel `c` of pixel `(x, y)` after the chroma warp with per-row
/// horizontal shifts `dx` and per-column vertical shifts `dy`: red is taken
/// from `(x + dx[y], y)`, green from `(x, y + dy[x])`, blue from
/// `(x - dx[y], y - dy[x])`, each clamped into the frame; alpha is kept.
pub open spec fn warp_at(p: Seq<u8>, w: int, h: int, dx: Seq<i32>, dy: Seq<i32>, x: int, y: int, c: int) -> int {
    if c == 0 {
        byte_at(p, w, clamp_coord(x + dx[y], w), clamp_coord(y, h), 0)
    } else if c == 1 {
        byte_at(p, w, clamp_coord(x, w), clamp_coord(y + dy[x], h), 1)
    } else if c == 2 {
        byte_at(p, w, clamp_coord(x - dx[y], w), clamp_coord(y - dy[x], h), 2)
    } else {
        byte_at(p, w, x, y, 3)
    }
}

pub open spec fn chroma_warp_pixels(p: Seq<u8>, w: int, h: int, dx: Seq<i32>, dy: Seq<i32>) -> Seq<u8> {
    Seq::new(p.len(), |i: int| warp_at(p, w, h, dx, dy, col_of(i, w), row_of(i, w), i % 4) as u8)
}

/// The sampling stage of the chroma warp, given the shift of every row
/// (`row_dx[y]`) and of every column (`col_dy[x]`).
pub fn chroma_warp(input: &FrameRgba8, row_dx: &Vec<i32>, col_dy: &Vec<i32>) -> (out: FrameRgba8)
    requires
        input.wf(),
        row_dx@.len() == input.height,
        col_dy@.len() == input.width,
    ensures
        out.width == input.width,
        out.height == input.height,
        out.wf(),
        out.pixels@ == chroma_warp_pixels(
            input.pixels@,
            input.width as int,
            input.height as int,
            row_dx@,
            col_dy@,
        ),
{
    let w = input.width as usize;
    let h = input.height as usize;
    let ghost ps = input.pixels@;
    let ghost target = chroma_warp_pixels(ps, w as int, h as int, row_dx@, col_dy@);
    let plen = input.pixels.len();
    let mut out: Vec<u8> = Vec::new();
    let mut y: usize = 0;
    while y < h
        invariant
            ps == input.pixels@,
            ps.len() == frame_len(w as int, h as int),
            plen == ps.len(),
            target == chroma_warp_pixels(ps, w as int, h as int, row_dx@, col_dy@),
            w == input.width,
            h == input.height,
            row_dx@.len() == h,
            col_dy@.len() == w,
            y <= h,
            out@.len() == y * w * 4,
            forall|k: int| 0 <= k < out@.len() ==> #[trigger] out@[k] == target[k],
        decreases h - y,
    {
        let mut x: usize = 0;
        while x < w
            invariant
                ps == input.pixels@,
                ps.len() == frame_len(w as int, h as int),
                plen == ps.len(),
                target == chroma_warp_pixels(ps, w as int, h as int, row_dx@, col_dy@),
                w == input.width,
                h == input.height,
                row_dx@.len() == h,
                col_dy@.len() == w,
                y < h,
                x <= w,
                out@.len() == (y * w + x) * 4,
                forall|k: int| 0 <= k < out@.len() ==> #[trigger] out@[k] == target[k],
            decreases w - x,
        {
            let dx = row_dx[y] as i64;
            let dy = col_dy[x] as i64;
            let xi = x as i64;
            let yi = y as i64;
            let r = sample(input, xi + dx, yi);
            let g = sample(input, xi, yi + dy);
            let b = sample(input, xi - dx, yi - dy);
            let ghost k0 = (y * w + x) * 4;
            proof {
                lemma_pixel_in_frame(w as int, h as int, x as int, y as int);
                lemma_index_decompose(w as int, x as int, y as int, 0);
                lemma_index_decompose(w as int, x as int, y as int, 1);
                lemma_index_decompose(w as int, x as int, y as int, 2);
                lemma_index_decompose(w as int, x as int, y as int, 3);
                assert(clamp_coord(x as int, w as int) == x);
                assert(clamp_coord(y as int, h as int) == y);
            }
            let o = (y * w + x) * 4;
            out.push(r[0]);
            out.push(g[1]);
            out.push(b[2]);
            out.push(input.pixels[o + 3]);
            proof {
                assert(out@[k0] == target[k0]);
                assert(out@[k0 + 1] == target[k0 + 1]);
                assert(out@[k0 + 2] == target[k0 + 2]);
                assert(out@[k0 + 3] == target[k0 + 3]);
                assert((y * w + x + 1) * 4 == k0 + 4);
            }
            x = x + 1;
        }
        proof {
            assert((y * w + w) * 4 == (y + 1) * w * 4) by (nonlinear_arith);
        }
        y = y + 1;
    }
    proof {
        assert(h * w * 4 == frame_len(w as int, h as int)) by (nonlinear_arith);
        assert(out@ =~= target);
    }
    FrameRgba8 { width: input.width, height: input.height, pixels: out }
}

/// Every byte index of a `w` x `h` frame is the byte of some pixel
/// `(col_of(i), row_of(i))` inside the frame.
pub proof fn lemma_index_compose(w: int, h: int, i: int)
    requires
        w > 0,
        h > 0,
        0 <= i < frame_len(w, h),
    ensures
        0 <= col_of(i, w) < w,
        0 <= row_of(i, w) < h,
        0 <= i % 4 < 4,
        i == (row_of(i, w) * w + col_of(i, w)) * 4 + i % 4,
{
    lemma_fundamental_div_mod(i, 4);
    lemma_fundamental_div_mod(i / 4, w);
    lemma_mod_bound(i, 4);
    lemma_mod_bound(i / 4, w);
    lemma_div_pos_is_pos(i, 4);
    lemma_div_pos_is_pos(i / 4, w);
    let q = i / 4;
    assert(q * 4 <= i);
    assert(q < w * h) by (nonlinear_arith)
        requires
            q * 4 <= i,
            i < w * h * 4,
    ;
    assert(q / w < h) by (nonlinear_arith)
        requires
            q == w * (q / w) + q % w,
            0 <= q % w,
            q < w * h,
            w > 0,
    ;
    assert(w * (q / w) == (q / w) * w) by (nonlinear_arith);
}

/// A row sum over `k` columns of a row whose channel `c` is `v` everywhere
/// is `k * v`: it adds exactly `k` cells.
pub proof fn lemma_row_sum_uniform(p: Seq<u8>, w: int, h: int, x: int, sy: int, r: int, c: int, k: nat, v: int)
    requires
        w > 0,
        0 <= sy < h,
        forall|xx: int| 0 <= xx < w ==> #[trigger] byte_at(p, w, xx, sy, c) == v,
    ensures
        row_sum(p, w, x, sy, r, c, k) == k * v,
    decreases k,
{
    if k > 0 {
        lemma_row_sum_uniform(p, w, h, x, sy, r, c, (k - 1) as nat, v);
        let xx = clamp_coord(x - r + k - 1, w);
        assert(byte_at(p, w, xx, sy, c) == v);
        assert((k - 1) * v + v == k * v) by (nonlinear_arith);
    } else {
        assert(0 * v == 0);
    }
}

/// A window sum over `k` rows of a frame whose channel `c` is `v` everywhere
/// is `k * (2r + 1) * v`: it adds exactly `k` rows of `2r + 1` cells.
pub proof fn lemma_window_sum_uniform(p: Seq<u8>, w: int, h: int, x: int, y: int, r: int, c: int, k: nat, v: int)
    requires
        w > 0,
        h > 0,
        r >= 0,
        forall|xx: int, yy: int| 0 <= xx < w && 0 <= yy < h ==> #[trigger] byte_at(p, w, xx, yy, c) == v,
    ensures
        window_sum(p, w, h, x, y, r, c, k) == k * (2 * r + 1) * v,
    decreases k,
{
    if k > 0 {
        lemma_window_sum_uniform(p, w, h, x, y, r, c, (k - 1) as nat, v);
        let sy = clamp_coord(y - r + k - 1, h);
        assert forall|xx: int| 0 <= xx < w implies #[trigger] byte_at(p, w, xx, sy, c) == v by {}
        lemma_row_sum_uniform(p, w, h, x, sy, r, c, (2 * r + 1) as nat, v);
        assert((k - 1) * (2 * r + 1) * v + (2 * r + 1) * v == k * (2 * r + 1) * v)
            by (nonlinear_arith);
    } else {
        assert(0 * (2 * r + 1) * v == 0) by (nonlinear_arith);
    }
}

/// A box blur of radius 0 leaves every frame unchanged.
pub proof fn lemma_box_blur_radius_zero_is_identity(p: Seq<u8>, w: int, h: int)
    requires
        w >= 0,
        h >= 0,
        p.len() == frame_len(w, h),
    ensures
        box_blur_pixels(p, w, h, 0) == p,
{
    let q = box_blur_pixels(p, w, h, 0);
    assert forall|i: int| 0 <= i < p.len() implies q[i] == p[i] by {
        if w == 0 || h == 0 {
            assert(frame_len(w, h) == 0) by (nonlinear_arith)
                requires
                    w == 0 || h == 0,
            ;
        }
        lemma_index_compose(w, h, i);
        let (x, y, c) = (col_of(i, w), row_of(i, w), i % 4);
        assert(clamp_coord(x, w) == x);
        assert(clamp_coord(y, h) == y);
        assert(row_sum(p, w, x, y, 0, c, 0) == 0);
        assert(clamp_coord(x - 0 + 1 - 1, w) == x);
        assert(row_sum(p, w, x, y, 0, c, 1) == byte_at(p, w, x, y, c));
        assert(window_sum(p, w, h, x, y, 0, c, 0) == 0);
        assert(clamp_coord(y - 0 + 1 - 1, h) == y);
        assert(window_sum(p, w, h, x, y, 0, c, 1) == byte_at(p, w, x, y, c));
        assert(blur_radius(0) == 0);
        let b = byte_at(p, w, x, y, c);
        let side: int = 2 * 0int + 1;
        assert(side == 1);
        assert(side * side == 1) by (nonlinear_arith)
            requires
                side == 1,
        ;
        assert(b / 1 == b);
        assert(blur_at(p, w, h, 0, x, y, c) == b);
        assert(byte_at(p, w, x, y, c) == p[i] as int);
        assert(q[i] == blur_at(p, w, h, 0, x, y, c) as u8);
    }
    assert(q =~= p);
}

/// A box blur of any radius leaves a frame of a single colour unchanged.
pub proof fn lemma_box_blur_keeps_flat_colour(p: Seq<u8>, w: int, h: int, radius: u32, colour: Seq<u8>)
    requires
        w >= 0,
        h >= 0,
        p.len() == frame_len(w, h),
        colour.len() == 4,
        forall|x: int, y: int, c: int| 0 <= x < w && 0 <= y < h && 0 <= c < 4
            ==> #[trigger] byte_at(p, w, x, y, c) == colour[c] as int,
    ensures
        box_blur_pixels(p, w, h, radius) == p,
{
    let q = box_blur_pixels(p, w, h, radius);
    let r = blur_radius(radius);
    assert forall|i: int| 0 <= i < p.len() implies q[i] == p[i] by {
        if w == 0 || h == 0 {
            assert(frame_len(w, h) == 0) by (nonlinear_arith)
                requires
                    w == 0 || h == 0,
            ;
        }
        lemma_index_compose(w, h, i);
        let (x, y, c) = (col_of(i, w), row_of(i, w), i % 4);
        let v = colour[c] as int;
        assert forall|xx: int, yy: int| 0 <= xx < w && 0 <= yy < h implies #[trigger] byte_at(p, w, xx, yy, c) == v by {}
        lemma_window_sum_uniform(p, w, h, x, y, r, c, (2 * r + 1) as nat, v);
        assert((2 * r + 1) * (2 * r + 1) * v == v * ((2 * r + 1) * (2 * r + 1))) by (nonlinear_arith);
        assert((2 * r + 1) * (2 * r + 1) > 0) by (nonlinear_arith)
            requires
                r >= 0,
        ;
        lemma_div_by_multiple(v, (2 * r + 1) * (2 * r + 1));
        assert(byte_at(p, w, x, y, c) == v);
    }
    assert(q =~= p);
}

/// Diffusion with no passes leaves a frame unchanged.
pub proof fn lemma_diffusion_without_passes_is_identity(p: Seq<u8>, w: int, h: int)
    ensures
        diffused_pixels(p, w, h, diffusion_passes(0)) == p,
{
}

/// The chroma warp with every shift zero leaves a frame unchanged.
pub proof fn lemma_chroma_warp_without_shift_is_identity(p: Seq<u8>, w: int, h: int, dx: Seq<i32>, dy: Seq<i32>)
    requires
        w >= 0,
        h >= 0,
        p.len() == frame_len(w, h),
        dx.len() == h,
        dy.len() == w,
        forall|y: int| 0 <= y < h ==> dx[y] == 0,
        forall|x: int| 0 <= x < w ==> dy[x] == 0,
    ensures
        chroma_warp_pixels(p, w, h, dx, dy) == p,
{
    let q = chroma_warp_pixels(p, w, h, dx, dy);
    assert forall|i: int| 0 <= i < p.len() implies q[i] == p[i] by {
        if w == 0 || h == 0 {
            assert(frame_len(w, h) == 0) by (nonlinear_arith)
                requires
                    w == 0 || h == 0,
            ;
        }
        lemma_index_compose(w, h, i);
        let (x, y) = (col_of(i, w), row_of(i, w));
        assert(dx[y] == 0);
        assert(dy[x] == 0);
    }
    assert(q =~= p);
}

/// The blur uses the requested radius when it is at most 32, and 32 above:
/// byte `i` of the result is the floor of the mean of its channel over the
/// clamped `(2m + 1)`-square window around its pixel, `m = min(radius, 32)`.
pub proof fn lemma_box_blur_window(p: Seq<u8>, w: int, h: int, radius: u32, i: int)
    requires
        0 <= i < p.len(),
    ensures
        ({
            let m: int = if radius <= 32 { radius as int } else { 32 };
            box_blur_pixels(p, w, h, radius)[i] == (window_sum(
                p,
                w,
                h,
                col_of(i, w),
                row_of(i, w),
                m,
                i % 4,
                (2 * m + 1) as nat,
            ) / ((2 * m + 1) * (2 * m + 1))) as u8
        }),
        box_blur_pixels(p, w, h, radius).len() == p.len(),
{
}

/// Diffusion applies as many radius-1 blurs as asked for, up to 64: one more
/// pass (below the cap) is one more radius-1 blur of the previous result, and
/// any count above 64 gives the result of 64.
pub proof fn lemma_diffusion_pass_count(p: Seq<u8>, w: int, h: int, passes: u32)
    ensures
        passes <= 64 ==> diffusion_passes(passes) == passes,
        passes > 64 ==> diffusion_passes(passes) == 64,
        passes < 64 ==> diffused_pixels(p, w, h, diffusion_passes((passes + 1) as u32))
            == box_blur_pixels(diffused_pixels(p, w, h, diffusion_passes(passes)), w, h, 1),
        diffused_pixels(p, w, h, diffusion_passes(passes)) == diffused_pixels(p, w, h, if passes <= 64 { passes as nat } else { 64 }),
{
    if passes < 64 {
        assert(diffusion_passes((passes + 1) as u32) == passes + 1);
    }
}

/// Clamping keeps a coordinate that is inside `0..n` and otherwise moves it to
/// the nearest edge.
pub proof fn lemma_clamp_coord(v: int, n: int)
    requires
        n > 0,
    ensures
        0 <= clamp_coord(v, n) < n,
        0 <= v < n ==> clamp_coord(v, n) == v,
        v < 0 ==> clamp_coord(v, n) == 0,
        v >= n ==> clamp_coord(v, n) == n - 1,
{
}

/// The channels of a warped pixel `(x, y)`: red is read `dx[y]` columns to
/// the right, green `dy[x]` rows down, blue `dx[y]` columns left and `dy[x]`
/// rows up (all clamped to the frame's edges), and alpha is kept.
pub proof fn lemma_chroma_warp_channels(p: Seq<u8>, w: int, h: int, dx: Seq<i32>, dy: Seq<i32>, x: int, y: int)
    requires
        0 <= x < w,
        0 <= y < h,
        p.len() == frame_len(w, h),
    ensures
        ({
            let q = chroma_warp_pixels(p, w, h, dx, dy);
            let o = (y * w + x) * 4;
            let rx = clamp_coord(x + dx[y], w);
            let gy = clamp_coord(y + dy[x], h);
            let bx = clamp_coord(x - dx[y], w);
            let by = clamp_coord(y - dy[x], h);
            &&& q[o] == p[(y * w + rx) * 4]
            &&& q[o + 1] == p[(gy * w + x) * 4 + 1]
            &&& q[o + 2] == p[(by * w + bx) * 4 + 2]
            &&& q[o + 3] == p[o + 3]
        }),
{
    lemma_pixel_in_frame(w, h, x, y);
    lemma_index_decompose(w, x, y, 0);
    lemma_index_decompose(w, x, y, 1);
    lemma_index_decompose(w, x, y, 2);
    lemma_index_decompose(w, x, y, 3);
}

} // verus!
