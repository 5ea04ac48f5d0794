# demucs_core

The verified core of a GPU engine that separates music into its sources with the
HTDemucs model. The model runs as one list of commands on one device: the library plans
that list, and the host performs it.

## What is proved

Every item under `src/` is checked by Verus.

- **Kernels** (`gpu::shaders`, `gpu::gemm_source`, `gpu::gemm_laws`, `gpu::wgsl`,
  `gpu::pipelines`): the WGSL text of every kernel, as a function of the tile sizes and
  switches.
- **Operations** (`gpu::kernels` and its siblings): each one checks its operands and
  records the launches that compute it. Its contract gives the launches, with every
  binding, parameter and grid, or the error.
- **The model** (`gpu::stages`, `gpu::transformer`, `gpu::encoder`, `gpu::decoder`,
  `gpu::htdemucs`, `gpu::weights`, `gpu::loader`): the uploads and the whole forward pass.
- **Bounds** (`gpu::counts`, `gpu::load_bounds`, `gpu::stage_bounds`,
  `gpu::attend_bounds`, `gpu::pass_bounds`): tests, each exact, of whether every size the
  uploads or a pass compute can be counted. A host asks them before it plans.
- **Memory** (`gpu::arena`, `gpu::schedule`): which buffer serves a request, which are
  kept idle, and when a pass is done with a buffer.
- **Devices** (`gpu::device`): what a selector means and which adapter it picks.
- **Files** (`npy`, `safetensors`): what the bytes mean, and that a written array reads
  back.

Numbers are 32-bit floats held as bits (`u32`): the library moves them and, where an
element type has to be widened or narrowed, rounds them (`numbers`). It computes with
them nowhere.

Statements about the library as a whole are the public proof functions whose names begin
with `law_`.

## What is believed

Four wrappers call code that Verus does not read: `serde_json` for a checkpoint's header,
`ndarray` for the shape of its tensors, and `std` for UTF-8 and for quoting a text. Their
doc comments say what is claimed.

## The rest

- `app/` owns the device, the files, the environment and the floating point.
- `tests/` runs the library; `tests/simulated.rs` performs a whole planned pass on a
  simulated device and holds it against the network computed by hand.
