//! Frames, effect selection, and the timing report shared by the render
//! backends.
use vstd::prelude::*;

verus! {

/// An RGBA8 frame: `width * height` pixels, four bytes each, row-major.
#[derive(Clone, Debug)]
pub struct FrameRgba8 {
    pub width: u32,
    pub height: u32,
    pub pixels: Vec<u8>,
}

/// Byte length of a `width` x `height` RGBA8 frame.
pub open spec fn frame_len(width: int, height: int) -> int {
    width * height * 4
}

impl FrameRgba8 {
    /// The pixel buffer holds exactly four bytes per pixel.
    pub open spec fn wf(&self) -> bool {
        self.pixels@.len() == frame_len(self.width as int, self.height as int)
    }

    pub fn new(width: u32, height: u32, pixels: Vec<u8>) -> (frame: Self)
        requires
            pixels@.len() == frame_len(width as int, height as int),
        ensures
            frame.width == width,
            frame.height == height,
            frame.pixels@ == pixels@,
            frame.wf(),
    {
        FrameRgba8 { width, height, pixels }
    }
}

/// The benchmark effects.
#[derive(Clone, Copy, Debug, PartialEq, Eq, Hash, Structural)]
pub enum BenchEffect {
    Copy,
    Color,
    BoxBlur,
    Diffusion,
    ChromaWarp,
}

pub open spec fn shader_entry_name(effect: BenchEffect) -> &'static str {
    match effect {
        BenchEffect::Copy => "copy_main",
        BenchEffect::Color => "color_main",
        BenchEffect::BoxBlur => "box_blur_main",
        BenchEffect::Diffusion => "diffusion_main",
        BenchEffect::ChromaWarp => "chroma_warp_main",
    }
}

impl BenchEffect {
    /// Name of the compute shader entry point that implements the effect.
    pub fn shader_entry(self) -> (name: &'static str)
        ensures
            name@ == shader_entry_name(self)@,
    {
        match self {
            BenchEffect::Copy => "copy_main",
            BenchEffect::Color => "color_main",
            BenchEffect::BoxBlur => "box_blur_main",
            BenchEffect::Diffusion => "diffusion_main",
            BenchEffect::ChromaWarp => "chroma_warp_main",
        }
    }
}

/// Time spent in each stage of a render, in nanoseconds.
#[derive(Clone, Copy, Debug)]
pub struct BackendTiming {
    pub upload: u128,
    pub encode: u128,
    pub submit_wait: u128,
    pub readback_map: u128,
    pub readback_copy: u128,
    pub total: u128,
}

impl Default for BackendTiming {
    fn default() -> (t: Self)
        ensures
            t == BackendTiming::zero_spec(),
    {
        BackendTiming {
            upload: 0,
            encode: 0,
            submit_wait: 0,
            readback_map: 0,
            readback_copy: 0,
            total: 0,
        }
    }
}

impl BackendTiming {
    pub open spec fn zero_spec() -> BackendTiming {
        BackendTiming {
            upload: 0,
            encode: 0,
            submit_wait: 0,
            readback_map: 0,
            readback_copy: 0,
            total: 0,
        }
    }

    /// Each stage of `self` plus the same stage of `other`.
    pub open spec fn sum_spec(self, other: BackendTiming) -> (int, int, int, int, int, int) {
        (
            self.upload + other.upload,
            self.encode + other.encode,
            self.submit_wait + other.submit_wait,
            self.readback_map + other.readback_map,
            self.readback_copy + other.readback_copy,
            self.total + other.total,
        )
    }

    /// The sums of all stages fit the representation.
    pub open spec fn can_add(self, other: BackendTiming) -> bool {
        let s = self.sum_spec(other);
        &&& s.0 <= u128::MAX
        &&& s.1 <= u128::MAX
        &&& s.2 <= u128::MAX
        &&& s.3 <= u128::MAX
        &&& s.4 <= u128::MAX
        &&& s.5 <= u128::MAX
    }

    /// The timing of a backend that has a single CPU stage: everything but the
    /// total is zero.
    pub fn cpu(total: u128) -> (t: Self)
        ensures
            t == (BackendTiming { total, ..BackendTiming::zero_spec() }),
    {
        BackendTiming {
            upload: 0,
            encode: 0,
            submit_wait: 0,
            readback_map: 0,
            readback_copy: 0,
            total,
        }
    }

    /// Adds every stage of `other` to the same stage of `self`.
    pub fn accumulate(&mut self, other: &BackendTiming)
        requires
            old(self).can_add(*other),
        ensures
            final(self).upload == old(self).upload + other.upload,
            final(self).encode == old(self).encode + other.encode,
            final(self).submit_wait == old(self).submit_wait + other.submit_wait,
            final(self).readback_map == old(self).readback_map + other.readback_map,
            final(self).readback_copy == old(self).readback_copy + other.readback_copy,
            final(self).total == old(self).total + other.total,
    {
        self.upload = self.upload + other.upload;
        self.encode = self.encode + other.encode;
        self.submit_wait = self.submit_wait + other.submit_wait;
        self.readback_map = self.readback_map + other.readback_map;
        self.readback_copy = self.readback_copy + other.readback_copy;
        self.total = self.total + other.total;
    }

    /// Whether `accumulate(other)` can be done: every stage sum fits.
    pub fn can_accumulate(&self, other: &BackendTiming) -> (fits: bool)
        ensures
            fits == self.can_add(*other),
    {
        other.upload <= u128::MAX - self.upload
            && other.encode <= u128::MAX - self.encode
            && other.submit_wait <= u128::MAX - self.submit_wait
            && other.readback_map <= u128::MAX - self.readback_map
            && other.readback_copy <= u128::MAX - self.readback_copy
            && other.total <= u128::MAX - self.total
    }

    /// Whether any stage other than the total took time, that is, whether
    /// the per-stage breakdown is worth reporting.
    pub fn has_stage_detail(&self) -> (detail: bool)
        ensures
            detail == !(self.upload == 0 && self.encode == 0 && self.submit_wait == 0
                && self.readback_map == 0 && self.readback_copy == 0),
    {
        !(self.upload == 0 && self.encode == 0 && self.submit_wait == 0 && self.readback_map == 0
            && self.readback_copy == 0)
    }

    /// Every stage divided by `count`, rounded down.
    pub fn averaged(&self, count: u32) -> (t: BackendTiming)
        requires
            count > 0,
        ensures
            t.upload == self.upload / (count as u128),
            t.encode == self.encode / (count as u128),
            t.submit_wait == self.submit_wait / (count as u128),
            t.readback_map == self.readback_map / (count as u128),
            t.readback_copy == self.readback_copy / (count as u128),
            t.total == self.total / (count as u128),
    {
        let n = count as u128;
        BackendTiming {
            upload: self.upload / n,
            encode: self.encode / n,
            submit_wait: self.submit_wait / n,
            readback_map: self.readback_map / n,
            readback_copy: self.readback_copy / n,
            total: self.total / n,
        }
    }
}

/// A rendered frame and the time each stage took.
#[derive(Clone, Debug)]
pub struct RenderReport {
    pub frame: FrameRgba8,
    pub timing: BackendTiming,
}

/// The backend that renders every effect on the CPU.
#[derive(Clone, Copy, Debug, Default)]
pub struct CpuBackend;

impl CpuBackend {
    pub fn name(&self) -> (name: &'static str)
        ensures
            name@ == "cpu"@,
    {
        "cpu"
    }
}

/// Multiplier of the frame checksum.
pub const CHECKSUM_PRIME: u64 = 16777619;

/// Checksum of a byte sequence: starting from zero, each byte is folded in
/// by a wrapping multiplication by `CHECKSUM_PRIME` followed by an XOR.
pub open spec fn checksum_of(bytes: Seq<u8>) -> u64
    decreases bytes.len(),
{
    if bytes.len() == 0 {
        0
    } else {
        vstd::wrapping::u64_specs::wrapping_mul(checksum_of(bytes.drop_last()), CHECKSUM_PRIME)
            ^ (bytes.last() as u64)
    }
}

/// The checksum the benchmark prints for a rendered frame.
pub fn checksum(frame: &FrameRgba8) -> (sum: u64)
    ensures
        sum == checksum_of(frame.pixels@),
{
    let mut acc: u64 = 0;
    let n = frame.pixels.len();
    let mut i: usize = 0;
    while i < n
        invariant
            n == frame.pixels@.len(),
            i <= n,
            acc == checksum_of(frame.pixels@.take(i as int)),
        decreases n - i,
    {
        assert(frame.pixels@.take(i as int + 1).drop_last() == frame.pixels@.take(i as int));
        acc = acc.wrapping_mul(CHECKSUM_PRIME) ^ (frame.pixels[i] as u64);
        i = i + 1;
    }
    assert(frame.pixels@.take(n as int) == frame.pixels@);
    acc
}

} // verus!
