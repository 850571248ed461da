# ae_gpu_lab

The verified core of an After Effects GPU experiment pipeline.

- `src/` (Verus): RGBA8 frames and the integer CPU effects (copy, box blur,
  diffusion, the sampling stage of the chroma warp), the classification of
  the host's native GPU state, the preflight that guards an external-resource
  import and the importers built on it, the conversion between host layers
  and frames, and the decisions of the render hosts (buffer reuse, dispatch
  size, render path, CUDA launch geometry, probe state).
- `app/` (plain Rust): the benchmark CLI, the wgpu upload/readback back end,
  the two host plug-ins, the CUDA driver loader, and the floating-point parts
  of the effects (colour grading, synthetic test frames, warp offsets).
- `tests/`: tests of the library.
