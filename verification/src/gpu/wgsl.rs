//! The kernel texts, as templates over the tuning constants.
//!
//! `${name}` marks a hole; see [`crate::text`].

use vstd::prelude::*;

verus! {

/// The tiled matrix product.
pub const GEMM: &'static str = r##"
${bias_binding}struct Dims {
    m: u32,
    n: u32,
    k: u32,
    lda: u32,
    ldb: u32,
    ldc: u32,
    // Batches are addressed as two levels, `wid.z / inner_count` and
    // `wid.z % inner_count`, each with its own stride. Attention needs exactly
    // this: its operands are indexed by (band, head) and the two levels are not
    // a single linear stride apart in the fused QKV layout.
    inner_count: u32,
    asa_outer: u32,
    asa_inner: u32,
    bsb_outer: u32,
    bsb_inner: u32,
    csc_outer: u32,
    csc_inner: u32,
}

@group(0) @binding(0) var<storage, read> A: array<f32>;
${b_operand}
@group(0) @binding(2) var<storage, read_write> C: array<f32>;
@group(0) @binding(3) var<uniform> gd: Dims;
${conv_helper}${row_exp_helper}
const BM: u32 = ${bm}u;
const BN: u32 = ${bn}u;
const BK: u32 = ${bk}u;
const PAD: u32 = ${pad}u;
const PW: u32 = ${pw}u;
const TM: u32 = ${tm}u;
const TN: u32 = ${tn}u;
const TX: u32 = ${tx}u;
const TY: u32 = ${ty}u;

var<workgroup> As: array<${fvt}, ${as_len}>;
var<workgroup> Bs: array<${fvt}, ${bs_len}>;

${gelu_fn}
@compute @workgroup_size(${tx}, ${ty})
fn gemm(
    @builtin(workgroup_id) wid: vec3<u32>,
    @builtin(local_invocation_id) lid: vec3<u32>,
) {
    let tx = lid.x;
    let ty = lid.y;
    let m0 = wid.x * BM;
    let n0 = wid.y * BN;
${conv_prologue}${batch_base}${stats_prologue}
${accumulators}
${prefetch_decl}
    let nk = (gd.k + BK - 1u) / BK;

    // Prologue: stage K block 0 straight into shared.
    {
${store_stage0}    }
    workgroupBarrier();

    for (var kb = 0u; kb < nk; kb = kb + 1u) {
        let k1 = kb * BK + BK;

        // Start the next stage's global loads before touching shared, so their
        // latency overlaps the reduction below rather than preceding it.
        if (k1 < gd.k) {
${prefetch}        }

${compute}
        // The last K block has nothing to prefetch-store; skipping the pair of
        // barriers here is bit-identical (epilogue reads registers, not shared).
        // Uniform over the workgroup: k1 and gd.k do not vary by lane.
        if (k1 < gd.k) {
            workgroupBarrier();
${store_prefetch}            workgroupBarrier();
        }
    }

${epilogue}
}
"##;

/// The gather that reads a patch element straight out of the input.
pub const GEMM_CONV_HELPER: &'static str = r##"
@group(0) @binding(4) var<uniform> cd: vec4<u32>;  // out_w, out_h, w, h
         @group(0) @binding(5) var<uniform> ce: vec4<u32>;  // (stride_w,stride_h) (pad_w,pad_h) (kh,kw) in_channels
         
         fn conv_b(k: u32, oy: u32, col: u32, base: u32) -> f32 {
             let kh = ce.z >> 16u;
             let kw = ce.z & 0xffffu;
             let taps = kh * kw;
             if (k >= ce.w * taps) { return 0.0; }
             let ic = k / taps;
             let tap = k % taps;
             let ky = tap / kw;
             let kx = tap % kw;
             let stride_w = ce.x >> 16u;
             let stride_h = ce.x & 0xffffu;
             let pad_w = ce.y >> 16u;
             let pad_h = ce.y & 0xffffu;
             let iy = i32(oy * stride_h + ky) - i32(pad_h);
             let ix = i32(col * stride_w + kx) - i32(pad_w);
             if (iy < 0 || iy >= i32(cd.w) || ix < 0 || ix >= i32(cd.z)) { return 0.0; }
             return X[base + (ic * cd.w + u32(iy)) * cd.z + u32(ix)];
         }
"##;

/// The output row and first column of a tile of a gathering product.
pub const GEMM_CONV_PROLOGUE: &'static str = r##"    // One output row per tile: only `BN <= out_w` takes this path.
                 let oy = n0 / cd.x;
                 let ox0 = n0 % cd.x;
"##;

/// The softmax applied to the left operand while it is staged.
pub const GEMM_ROW_EXP_HELPER: &'static str = r##"
@group(0) @binding(4) var<storage, read> AStats: array<vec2<f32>>;
@group(0) @binding(5) var<uniform> ae: vec4<u32>;  // scale bits, rows per batch, _, _

fn a_row_scale(v: f32, s: vec2<f32>) -> f32 {
    return exp(v * bitcast<f32>(ae.x) - s.x) * s.y;
}
"##;

/// The activation of the fused feed-forward epilogue.
pub const GEMM_GELU_FN: &'static str = r##"fn gelu_erp(x: f32) -> f32 {
    let scaled = x * 0.70710678118654752440;
    let z = abs(scaled);
    let t = 1.0 / (1.0 + 0.3275911 * z);
    let y = 1.0 - (((((1.061405429 * t - 1.453152027) * t + 1.421413741) * t
        - 0.284496736) * t + 0.254829592) * t) * exp(-z * z);
    let e = select(-y, y, scaled >= 0.0);
    return x * 0.5 * (1.0 + e);
}
"##;

/// Template of `fma_probe`.
pub const FMA_PROBE: &'static str = r##"
@group(0) @binding(0) var<storage, read_write> out: array<f32>;

@compute @workgroup_size(256)
fn fma_probe(@builtin(global_invocation_id) gid: vec3<u32>) {
${init}
    let mul0 = 1.0000001;
    let mul1 = 0.9999999;
    let mul2 = 1.0000002;
    let mul3 = 0.9999998;
    let mul4 = 1.0000003;
    let mul5 = 0.9999997;
    let mul6 = 1.0000004;
    let mul7 = 0.9999996;
    for (var i = 0u; i < ${iters}u; i = i + 1u) {
${body}    }
    out[(gid.x + gid.y * 1024u) & 0xFFFFu] = ${sum};
}
"##;

/// Template of `rms_norm_warp`.
pub const RMS_NORM_WARP: &'static str = r##"
@group(0) @binding(0) var<storage, read> X: array<f32>;
@group(0) @binding(1) var<storage, read> Gamma: array<f32>;
@group(0) @binding(2) var<storage, read_write> Out: array<f32>;
@group(0) @binding(3) var<uniform> gd: vec4<u32>;  // rows, dim, pitch_in, pitch_out

const LANES: u32 = ${lanes}u;
const WARPS: u32 = ${warps}u;
const ROW_GRID_X: u32 = ${grid_x}u;

@compute @workgroup_size(${threads})
fn rms_norm(
    @builtin(workgroup_id) wid: vec3<u32>,
    @builtin(local_invocation_id) lid: vec3<u32>,
) {
    let dim = gd.y;
    let pitch_in = gd.z;
    let pitch_out = gd.w;
    let warp = lid.x / LANES;
    let lane = lid.x % LANES;
    let row = (wid.x + wid.y * ROW_GRID_X) * WARPS + warp;
    let safe_row = min(row, gd.x - 1u);
    let base = safe_row * pitch_in;
    let obase = safe_row * pitch_out;

    var sum = 0.0;
${load}
    let squares = subgroupAdd(sum);
    let norm = max(sqrt(squares), 1e-12);
    let factor = sqrt(f32(dim)) / norm;

    if (row < gd.x) {
${store}    }
}
"##;

/// Template of `rms_norm`.
pub const RMS_NORM: &'static str = r##"
@group(0) @binding(0) var<storage, read> X: array<f32>;
@group(0) @binding(1) var<storage, read> Gamma: array<f32>;
@group(0) @binding(2) var<storage, read_write> Out: array<f32>;
@group(0) @binding(3) var<uniform> gd: vec4<u32>;  // rows, dim, pitch_in, pitch_out

const THREADS: u32 = ${threads}u;
const ROW_GRID_X: u32 = ${grid_x}u;
var<workgroup> partial: array<f32, ${threads}>;

@compute @workgroup_size(${threads})
fn rms_norm(@builtin(workgroup_id) wid: vec3<u32>, @builtin(local_invocation_id) lid: vec3<u32>) {
    let row = wid.x + wid.y * ROW_GRID_X;
    if (row >= gd.x) { return; }
    let dim = gd.y;
    let pitch_in = gd.z;
    let pitch_out = gd.w;
    let base = row * pitch_in;

    var sum = 0.0;
    for (var i = lid.x; i < dim; i = i + THREADS) {
        let v = X[base + i];
        sum = fma(v, v, sum);
    }
    partial[lid.x] = sum;
    workgroupBarrier();
    for (var step = THREADS / 2u; step > 0u; step = step / 2u) {
        if (lid.x < step) {
            partial[lid.x] = partial[lid.x] + partial[lid.x + step];
        }
        workgroupBarrier();
    }

    let norm = max(sqrt(partial[0]), 1e-12);
    let factor = sqrt(f32(dim)) / norm;
    let out_base = row * pitch_out;
    // Columns past `dim` are the output pitch's padding and are cleared: whatever
    // consumes this tensor next reads a full reduction step past the logical
    // feature width, and a width that is not a multiple of the step would
    // otherwise pick up the next row's values.
    for (var i = lid.x; i < pitch_out; i = i + THREADS) {
        if (i < dim) {
            Out[out_base + i] = X[base + i] * factor * Gamma[i];
        } else {
            Out[out_base + i] = 0.0;
        }
    }
}
"##;

/// Template of `gelu`.
pub const GELU: &'static str = r##"
@group(0) @binding(0) var<storage, read> X: array<f32>;
@group(0) @binding(1) var<storage, read_write> Out: array<f32>;
@group(0) @binding(2) var<uniform> gd: vec4<u32>;  // count, _, _, _

const GRID_X: u32 = 65535u;

fn erf(x: f32) -> f32 {
    let z = abs(x);
    let t = 1.0 / (1.0 + 0.3275911 * z);
    let y = 1.0 - (((((1.061405429 * t - 1.453152027) * t + 1.421413741) * t
        - 0.284496736) * t + 0.254829592) * t) * exp(-z * z);
    return select(-y, y, x >= 0.0);
}

@compute @workgroup_size(${threads})
fn gelu(@builtin(workgroup_id) wid: vec3<u32>, @builtin(local_invocation_id) lid: vec3<u32>) {
    let i = (wid.y * GRID_X + wid.x) * ${threads}u + lid.x;
    if (i >= gd.x) { return; }
    let v = X[i];
    Out[i] = v * 0.5 * (1.0 + erf(v * 0.70710678118654752440));
}
"##;

/// Template of `gelu_in_place`.
pub const GELU_IN_PLACE: &'static str = r##"
@group(0) @binding(0) var<storage, read_write> X: array<f32>;
@group(0) @binding(1) var<uniform> gd: vec4<u32>;  // count, _, _, _

const GRID_X: u32 = 65535u;

fn erf_in_place(x: f32) -> f32 {
    let z = abs(x);
    let t = 1.0 / (1.0 + 0.3275911 * z);
    let y = 1.0 - (((((1.061405429 * t - 1.453152027) * t + 1.421413741) * t
        - 0.284496736) * t + 0.254829592) * t) * exp(-z * z);
    return select(-y, y, x >= 0.0);
}

@compute @workgroup_size(${threads})
fn gelu_in_place(@builtin(workgroup_id) wid: vec3<u32>, @builtin(local_invocation_id) lid: vec3<u32>) {
    let i = (wid.y * GRID_X + wid.x) * ${threads}u + lid.x;
    if (i >= gd.x) { return; }
    let v = X[i];
    X[i] = v * 0.5 * (1.0 + erf_in_place(v * 0.70710678118654752440));
}
"##;

/// Template of `glu`.
pub const GLU: &'static str = r##"
@group(0) @binding(0) var<storage, read> X: array<f32>;
@group(0) @binding(1) var<storage, read_write> Out: array<f32>;
@group(0) @binding(2) var<uniform> gd: vec4<u32>;  // rows, half, _, _

const GRID_X: u32 = 65535u;

@compute @workgroup_size(${threads})
fn glu(@builtin(workgroup_id) wid: vec3<u32>, @builtin(local_invocation_id) lid: vec3<u32>) {
    let i = (wid.y * GRID_X + wid.x) * ${threads}u + lid.x;
    let half = gd.y;
    let total = gd.x * half;
    if (i >= total) { return; }
    let row = i / half;
    let col = i % half;
    let base = row * half * 2u;
    let gate = X[base + half + col];
    Out[i] = X[base + col] * (1.0 / (1.0 + exp(-gate)));
}
"##;

/// Template of `glu_channel_affine`.
pub const GLU_CHANNEL_AFFINE: &'static str = r##"
@group(0) @binding(0) var<storage, read> X: array<f32>;
@group(0) @binding(1) var<storage, read_write> Out: array<f32>;
@group(0) @binding(2) var<storage, read> Scale: array<f32>;
@group(0) @binding(3) var<storage, read> Shift: array<f32>;
@group(0) @binding(4) var<uniform> gd: vec4<u32>;  // rows, half, channels, plane
${base_decl}

const GRID_X: u32 = 65535u;

@compute @workgroup_size(${threads})
fn ${entry}(@builtin(workgroup_id) wid: vec3<u32>, @builtin(local_invocation_id) lid: vec3<u32>) {
    let i = (wid.y * GRID_X + wid.x) * ${threads}u + lid.x;
    // `half` is the GLU's half, `channels * plane`; the LayerScale's channel
    // index is the one `channel_affine_act_in_place` uses, `(i / plane) % channels`.
    let half = gd.y;
    let channels = gd.z;
    let plane = gd.w;
    let total = gd.x * half;
    if (i >= total) { return; }
    let row = i / half;
    let col = i % half;
    let base = row * half * 2u;
    let gate = X[base + half + col];
    let value = X[base + col] * (1.0 / (1.0 + exp(-gate)));
    let channel = (i / plane) % channels;
${store}
}
"##;

/// Template of `sigmoid_gate`.
pub const SIGMOID_GATE: &'static str = r##"
@group(0) @binding(0) var<storage, read> X: array<f32>;
@group(0) @binding(1) var<storage, read> Gate: array<f32>;
@group(0) @binding(2) var<storage, read_write> Out: array<f32>;
@group(0) @binding(3) var<uniform> gd: vec4<u32>;  // count, heads, dim_head, _

const GRID_X: u32 = 65535u;

@compute @workgroup_size(${threads})
fn sigmoid_gate(@builtin(workgroup_id) wid: vec3<u32>, @builtin(local_invocation_id) lid: vec3<u32>) {
    let i = (wid.y * GRID_X + wid.x) * ${threads}u + lid.x;
    if (i >= gd.x) { return; }
    let heads = gd.y;
    let dim_head = gd.z;
    // Element `i` sits in head `h` of a row of `heads * dim_head`.
    let h = (i % (heads * dim_head)) / dim_head;
    let row = i / (heads * dim_head);
    Out[i] = X[i] * (1.0 / (1.0 + exp(-Gate[row * heads + h])));
}
"##;

/// Template of `rope`.
pub const ROPE: &'static str = r##"
@group(0) @binding(0) var<storage, read_write> X: array<f32>;
@group(0) @binding(1) var<storage, read> Freqs: array<f32>;
@group(0) @binding(2) var<uniform> gd0: vec4<u32>;  // frames, row_stride, dim_head, head_begin
@group(0) @binding(3) var<uniform> gd1: vec4<u32>;  // total_rows, head_count, 0, 0

const THREADS: u32 = ${threads}u;

@compute @workgroup_size(${threads})
fn rope(@builtin(workgroup_id) wid: vec3<u32>, @builtin(local_invocation_id) lid: vec3<u32>) {
    let frames = gd0.x;
    let row_stride = gd0.y;
    let dim_head = gd0.z;
    let head_begin = gd0.w;
    let total_rows = gd1.x;
    let head_count = gd1.y;
    let half = dim_head / 2u;

    let flat = wid.x * THREADS + lid.x;
    if (flat >= total_rows * half) { return; }
    let row = flat / half;
    let k = flat % half;

    // The position is the frame index within the band, which is the row's low
    // bits because the layout is (band, frame, column).
    let pos = row % frames;
    let angle = f32(pos) * Freqs[k];
    let c = cos(angle);
    let s = sin(angle);
    let base = row * row_stride + head_begin * dim_head + 2u * k;

    for (var hh = 0u; hh < head_count; hh += 1u) {
        let off = hh * dim_head;
        let a = X[base + off];
        let b = X[base + off + 1u];
        X[base + off] = a * c - b * s;
        X[base + off + 1u] = a * s + b * c;
    }
}
"##;

/// Template of `transpose`.
pub const TRANSPOSE: &'static str = r##"
@group(0) @binding(0) var<storage, read> X: array<f32>;
@group(0) @binding(1) var<storage, read_write> Out: array<f32>;
@group(0) @binding(2) var<uniform> gd: vec4<u32>;  // batch, rows, cols, width

const GRID_X: u32 = 65535u;

@compute @workgroup_size(${threads})
fn transpose(@builtin(workgroup_id) wid: vec3<u32>, @builtin(local_invocation_id) lid: vec3<u32>) {
    let i = (wid.y * GRID_X + wid.x) * ${threads}u + lid.x;
    let plane = gd.y * gd.z * gd.w;
    if (i >= gd.x * plane) { return; }
    let b = i / plane;
    let rest = i % plane;
    let width = gd.w;
    let row = rest / (gd.z * width);
    let tail = rest % (gd.z * width);
    let col = tail / width;
    let d = tail % width;
    let out_plane = gd.z * gd.y * gd.w;
    Out[b * out_plane + (col * gd.y + row) * width + d] = X[i];
}
"##;

/// Template of `im2col`.
pub const IM2COL: &'static str = r##"
@group(0) @binding(0) var<storage, read> X: array<f32>;
@group(0) @binding(1) var<storage, read_write> Out: array<f32>;
@group(0) @binding(2) var<uniform> gd: vec4<u32>;  // ic, kh, kw, h
@group(0) @binding(3) var<uniform> ge: vec4<u32>;  // w, out_h, out_w, batch
@group(0) @binding(4) var<uniform> gf: vec4<u32>;  // stride_h, stride_w, pad_h, pad_w
@group(0) @binding(5) var<uniform> gg: vec4<u32>;  // pitch, rows, _, _

const THREADS: u32 = ${threads}u;

@compute @workgroup_size(${threads})
fn im2col(@builtin(workgroup_id) wid: vec3<u32>, @builtin(local_invocation_id) lid: vec3<u32>) {
    let in_channels = gd.x;
    let kh = gd.y;
    let kw = gd.z;
    let h = gd.w;
    let w = ge.x;
    let out_h = ge.y;
    let out_w = ge.z;
    let batch = ge.w;
    let stride_h = gf.x;
    let stride_w = gf.y;
    let pad_h = gf.z;
    let pad_w = gf.w;
    // Row pitch of the destination: `positions` for a tight buffer, wider when
    // the GEMM that consumes this needs whole tiles (`BN`-padded). The margin
    // columns are the caller's zeros, never written here.
    let pitch = gg.x;
    // Rows per batch in the destination: `k` when the buffer is tight,
    // `pad_ceil(k, BK)` when the GEMM reads it (`BK`-padded rows). The batch
    // stride follows this, not the logical `k`, so the two agree.
    let rows = gg.y;

    // The dispatch carries the indices rather than the flat element number:
    // `wid.x` picks a block of output columns, `wid.y` a patch row of a batch, and
    // `wid.z` an output row. Deriving all three from one flat index cost six
    // integer divisions per element, which at these sizes made the gather
    // *division*-bound — 145 cycles per element against the card's ~10 for the
    // arithmetic — and this is the widest kernel in the model (39 dispatches and
    // 224 ms per chunk before the change, on 151M elements for the first block).
    let ox = wid.x * THREADS + lid.x;
    if (wid.z >= out_h) { return; }
    let oy = wid.z;
    let flat = wid.y;
    let b = flat / rows;
    let krow = flat % rows;
    let k = in_channels * kh * kw;
    if (krow >= k) { return; }   // the row margin of a `BK`-padded scratch

    let ic = krow / (kh * kw);
    let tap = krow % (kh * kw);
    let ky = tap / kw;
    let kx = tap % kw;

    let iy = i32(oy * stride_h + ky) - i32(pad_h);
    let src = (b * in_channels + ic) * h * w + u32(iy) * w;
    let dst = (b * rows + krow) * pitch + oy * out_w;
    let row_ok = iy >= 0 && iy < i32(h);
    // The decode above is uniform over the workgroup but costs every thread its
    // own copy of six integer divisions, which is what the previous version of
    // this kernel was bound on (145 cycles an element). Striding the columns
    // inside the thread pays it once for `cols` elements: `gg.z` is the x grid
    // in threads, so the loop's stride is the whole reduced x extent and the
    // lanes of a warp still cover consecutive columns on every trip.
    var col = ox;
    while (col < out_w) {
        let ix = i32(col * stride_w + kx) - i32(pad_w);
        var value = 0.0;
        if (row_ok && ix >= 0 && ix < i32(w)) {
            value = X[src + u32(ix)];
        }
        Out[dst + col] = value;
        col += gg.z;
    }
}
"##;

/// Template of `add_row_bias_in_place`.
pub const ADD_ROW_BIAS_IN_PLACE: &'static str = r##"
@group(0) @binding(0) var<storage, read_write> X: array<f32>;
@group(0) @binding(1) var<storage, read> Bias: array<f32>;
@group(0) @binding(2) var<uniform> gd: vec4<u32>;  // rows, cols, bias_rows, _

const GRID_X: u32 = 65535u;

@compute @workgroup_size(${threads})
fn add_row_bias_in_place(@builtin(workgroup_id) wid: vec3<u32>, @builtin(local_invocation_id) lid: vec3<u32>) {
    let cols = gd.y;
    let i = (wid.y * GRID_X + wid.x) * ${threads}u + lid.x;
    if (i >= gd.x * cols) { return; }
    let row = i / cols;
    X[i] = X[i] + Bias[row % gd.z];
}
"##;

/// Template of `col2im`.
pub const COL2IM: &'static str = r##"
@group(0) @binding(0) var<storage, read> P: array<f32>;
@group(0) @binding(1) var<storage, read_write> Out: array<f32>;
@group(0) @binding(2) var<uniform> gd: vec4<u32>;  // oc, kh, kw, out_h
@group(0) @binding(3) var<uniform> ge: vec4<u32>;  // out_w, stride_h, stride_w, in_h
@group(0) @binding(4) var<uniform> gf: vec4<u32>;  // in_w, batch, pitch, rows

const GRID_X: u32 = 65535u;

@compute @workgroup_size(${threads})
fn col2im(@builtin(workgroup_id) wid: vec3<u32>, @builtin(local_invocation_id) lid: vec3<u32>) {
    let oc = gd.x;
    let kh = gd.y;
    let kw = gd.z;
    let out_h = gd.w;
    let out_w = ge.x;
    let stride_h = ge.y;
    let stride_w = ge.z;
    let in_h = ge.w;
    let in_w = gf.x;
    let batch = gf.y;
    // Rows of the tap matrix are padded to the GEMM's M tile, so the row pitch
    // is the caller's, not `positions_in`.
    let pitch = gf.z;
    // ... and the batch stride follows the *padded* row count, not `m`.
    let rows = gf.w;

    let positions_out = out_h * out_w;
    let m = oc * kh * kw;
    let i = (wid.y * GRID_X + wid.x) * ${threads}u + lid.x;
    if (i >= batch * oc * positions_out) { return; }

    let b = i / (oc * positions_out);
    let rest = i % (oc * positions_out);
    let channel = rest / positions_out;
    let p = rest % positions_out;
    let oh = p / out_w;
    let ow = p % out_w;

    var acc = 0.0;
    for (var ky = 0u; ky < kh; ky = ky + 1u) {
        if (oh < ky) { continue; }
        let num_h = oh - ky;
        if (num_h % stride_h != 0u) { continue; }
        let iy = num_h / stride_h;
        if (iy >= in_h) { continue; }
        for (var kx = 0u; kx < kw; kx = kx + 1u) {
            if (ow < kx) { continue; }
            let num_w = ow - kx;
            if (num_w % stride_w != 0u) { continue; }
            let ix = num_w / stride_w;
            if (ix >= in_w) { continue; }
            acc = acc + P[(b * rows + channel * kh * kw + ky * kw + kx) * pitch + iy * in_w + ix];
        }
    }
    Out[i] = acc;
}
"##;

/// Template of `channel_affine_act`.
pub const CHANNEL_AFFINE_ACT: &'static str = r##"
${x_decl}
@group(0) @binding(1) var<storage, read> Scale: array<f32>;
@group(0) @binding(2) var<storage, read> Shift: array<f32>;
@group(0) @binding(3) var<uniform> gd: vec4<u32>;  // channels, plane, activation, total
${extra_decl}

const GRID_X: u32 = 65535u;

fn erf_approx(z: f32) -> f32 {
    let s = sign(z);
    let a = abs(z);
    let t = 1.0 / (1.0 + 0.3275911 * a);
    let poly = t * (0.254829592
        + t * (-0.284496736
        + t * (1.421413741
        + t * (-1.453152027 + t * 1.061405429))));
    return s * (1.0 - poly * exp(-a * a));
}

@compute @workgroup_size(${threads})
fn ${entry}(@builtin(workgroup_id) wid: vec3<u32>, @builtin(local_invocation_id) lid: vec3<u32>) {
    let i = (wid.y * GRID_X + wid.x) * ${threads}u + lid.x;
    if (i >= gd.w) { return; }
    let channel = (i / gd.y) % gd.x;
    var value = X[i] * Scale[channel] + Shift[channel];
    let mode = gd.z;
    if (mode == 1u) {
        value = max(value, 0.0);
    } else if (mode == 2u) {
        value = 0.5 * value * (1.0 + erf_approx(value * 0.7071067811865476));
    } else if (mode == 3u) {
        value = value / (1.0 + exp(-value));
    }
${store}
}
"##;

/// Template of `tanh`.
pub const TANH: &'static str = r##"
@group(0) @binding(0) var<storage, read> X: array<f32>;
@group(0) @binding(1) var<storage, read_write> Out: array<f32>;
@group(0) @binding(2) var<uniform> gd: vec4<u32>;  // count, _, _, _

const GRID_X: u32 = 65535u;

@compute @workgroup_size(${threads})
fn tanh_activation(@builtin(workgroup_id) wid: vec3<u32>, @builtin(local_invocation_id) lid: vec3<u32>) {
    let i = (wid.y * GRID_X + wid.x) * ${threads}u + lid.x;
    if (i >= gd.x) { return; }
    // tanh via exp keeps the reference's own formulation rather than a rational
    // approximation, so the two agree to round-off.
    let e = exp(2.0 * X[i]);
    Out[i] = (e - 1.0) / (e + 1.0);
}
"##;

/// Template of `tanh_bias_in_place`.
pub const TANH_BIAS_IN_PLACE: &'static str = r##"
@group(0) @binding(0) var<storage, read_write> X: array<f32>;
@group(0) @binding(1) var<storage, read> Bias: array<f32>;
@group(0) @binding(2) var<uniform> gd: vec4<u32>;  // count, cols, frames, _

const GRID_X: u32 = 65535u;

@compute @workgroup_size(${threads})
fn tanh_bias(@builtin(workgroup_id) wid: vec3<u32>, @builtin(local_invocation_id) lid: vec3<u32>) {
    let i = (wid.y * GRID_X + wid.x) * ${threads}u + lid.x;
    if (i >= gd.x) { return; }
    let col = i % gd.y;
    let block = i / (gd.y * gd.z);
    let b = Bias[block * gd.y + col];
    let e = exp(2.0 * (X[i] + b));
    X[i] = (e - 1.0) / (e + 1.0);
}
"##;

/// Template of `copy`.
pub const COPY: &'static str = r##"
@group(0) @binding(0) var<storage, read> X: array<f32>;
@group(0) @binding(1) var<storage, read_write> Out: array<f32>;
@group(0) @binding(2) var<uniform> gd: vec4<u32>;  // count, _, _, _

const GRID_X: u32 = 65535u;

@compute @workgroup_size(${threads})
fn copy(@builtin(workgroup_id) wid: vec3<u32>, @builtin(local_invocation_id) lid: vec3<u32>) {
    let i = (wid.y * GRID_X + wid.x) * ${threads}u + lid.x;
    if (i >= gd.x) { return; }
    Out[i] = X[i];
}
"##;

/// Template of `add_in_place`.
pub const ADD_IN_PLACE: &'static str = r##"
@group(0) @binding(0) var<storage, read_write> Out: array<f32>;
@group(0) @binding(1) var<storage, read> Source: array<f32>;
@group(0) @binding(2) var<uniform> gd: vec4<u32>;  // count, src_len, _, _

const GRID_X: u32 = 65535u;

@compute @workgroup_size(${threads})
fn add_in_place(@builtin(workgroup_id) wid: vec3<u32>, @builtin(local_invocation_id) lid: vec3<u32>) {
    let i = (wid.y * GRID_X + wid.x) * ${threads}u + lid.x;
    if (i >= gd.x) { return; }
    let src_len = gd.y;
    var value = Source[i];
    if (src_len != 0u) {
        value = Source[i % src_len];
    }
    Out[i] = Out[i] + value;
}
"##;

/// Template of `add_in_place_vec4`.
pub const ADD_IN_PLACE_VEC4: &'static str = r##"
@group(0) @binding(0) var<storage, read_write> Out: array<f32>;
@group(0) @binding(1) var<storage, read> Source: array<f32>;
@group(0) @binding(2) var<uniform> gd: vec4<u32>;  // count, src_len, _, _

const GRID_X: u32 = 65535u;
const THREADS: u32 = ${threads}u;

@compute @workgroup_size(${threads})
fn add_in_place_vec4(@builtin(workgroup_id) wid: vec3<u32>, @builtin(local_invocation_id) lid: vec3<u32>) {
    let g = (wid.y * GRID_X + wid.x) * THREADS + lid.x;
    let groups = gd.x / 4u;
    if (g >= groups) { return; }
    let j = g * 4u;
    let src_len = gd.y;
    var v = vec4<f32>(Source[j], Source[j + 1u], Source[j + 2u], Source[j + 3u]);
    if (src_len != 0u) {
        v = vec4<f32>(
            Source[j % src_len],
            Source[(j + 1u) % src_len],
            Source[(j + 2u) % src_len],
            Source[(j + 3u) % src_len]);
    }
    Out[j] = Out[j] + v.x;
    Out[j + 1u] = Out[j + 1u] + v.y;
    Out[j + 2u] = Out[j + 2u] + v.z;
    Out[j + 3u] = Out[j + 3u] + v.w;
}
"##;

/// Template of `gelu_in_place_vec4`.
pub const GELU_IN_PLACE_VEC4: &'static str = r##"
@group(0) @binding(0) var<storage, read_write> X: array<f32>;
@group(0) @binding(1) var<uniform> gd: vec4<u32>;  // count, _, _, _

const GRID_X: u32 = 65535u;
const THREADS: u32 = ${threads}u;

fn erf4(x: f32) -> f32 {
    let z = abs(x);
    let t = 1.0 / (1.0 + 0.3275911 * z);
    let y = 1.0 - (((((1.061405429 * t - 1.453152027) * t + 1.421413741) * t
        - 0.284496736) * t + 0.254829592) * t) * exp(-z * z);
    return select(-y, y, x >= 0.0);
}

@compute @workgroup_size(${threads})
fn gelu_in_place_vec4(@builtin(workgroup_id) wid: vec3<u32>, @builtin(local_invocation_id) lid: vec3<u32>) {
    let g = (wid.y * GRID_X + wid.x) * THREADS + lid.x;
    let groups = gd.x / 4u;
    if (g >= groups) { return; }
    let j = g * 4u;
    var v = vec4<f32>(X[j], X[j + 1u], X[j + 2u], X[j + 3u]);
    v = v * 0.5 * (1.0 + vec4<f32>(erf4(v.x * 0.70710678118654752440),
                                   erf4(v.y * 0.70710678118654752440),
                                   erf4(v.z * 0.70710678118654752440),
                                   erf4(v.w * 0.70710678118654752440)));
    X[j] = v.x;
    X[j + 1u] = v.y;
    X[j + 2u] = v.z;
    X[j + 3u] = v.w;
}
"##;

/// Template of `softmax`.
pub const SOFTMAX: &'static str = r##"
@group(0) @binding(0) var<storage, read> X: array<f32>;
@group(0) @binding(1) var<storage, read_write> Out: array<f32>;
@group(0) @binding(2) var<uniform> gd: vec4<u32>;  // rows, cols, scale_bits, _

const THREADS: u32 = ${threads}u;
const ROW_GRID_X: u32 = ${grid_x}u;
var<workgroup> scratch: array<f32, ${threads}>;

@compute @workgroup_size(${threads})
fn softmax(@builtin(workgroup_id) wid: vec3<u32>, @builtin(local_invocation_id) lid: vec3<u32>) {
    let row = wid.x + wid.y * ROW_GRID_X;
    if (row >= gd.x) { return; }
    let cols = gd.y;
    let base = row * cols;
    let scale = bitcast<f32>(gd.z);

    // Pass 1: row max of the scaled scores.
    var local_max = -3.402823e38;
    for (var i = lid.x; i < cols; i = i + THREADS) {
        local_max = max(local_max, X[base + i] * scale);
    }
    scratch[lid.x] = local_max;
    workgroupBarrier();
    for (var step = THREADS / 2u; step > 0u; step = step / 2u) {
        if (lid.x < step) {
            scratch[lid.x] = max(scratch[lid.x], scratch[lid.x + step]);
        }
        workgroupBarrier();
    }
    let row_max = scratch[0];
    // See `softmax_in_place`: slot 0 is read by every thread and then overwritten
    // by the next pass, so the read has to be separated from the write.
    workgroupBarrier();

    // Pass 2: sum of exps.
    var local_sum = 0.0;
    for (var i = lid.x; i < cols; i = i + THREADS) {
        local_sum = local_sum + exp(X[base + i] * scale - row_max);
    }
    scratch[lid.x] = local_sum;
    workgroupBarrier();
    for (var step = THREADS / 2u; step > 0u; step = step / 2u) {
        if (lid.x < step) {
            scratch[lid.x] = scratch[lid.x] + scratch[lid.x + step];
        }
        workgroupBarrier();
    }
    let total = scratch[0];

    // Pass 3: normalise.
    let inv = select(0.0, 1.0 / total, total > 0.0);
    for (var i = lid.x; i < cols; i = i + THREADS) {
        Out[base + i] = exp(X[base + i] * scale - row_max) * inv;
    }
}
"##;

/// Template of `softmax_in_place`.
pub const SOFTMAX_IN_PLACE: &'static str = r##"
@group(0) @binding(0) var<storage, read_write> X: array<f32>;
@group(0) @binding(1) var<uniform> gd: vec4<u32>;  // rows, cols, scale_bits, pitch

const THREADS: u32 = ${threads_n}u;
const LANES: u32 = ${lanes}u;
const ROWS_PER_WG: u32 = ${rows_per_wg}u;
const ROW_GRID_X: u32 = ${grid_x}u;
var<workgroup> scratch: array<f32, ${threads_n}>;

@compute @workgroup_size(${threads_n})
fn softmax_in_place(
    @builtin(workgroup_id) wid: vec3<u32>,
    @builtin(local_invocation_id) lid: vec3<u32>,
) {
    let cols = gd.y;
    let pitch = gd.w;
    let scale = bitcast<f32>(gd.z);
    // Four rows per workgroup, so the barriers below are shared. The row is
    // clamped rather than skipped: an early return would take this invocation
    // out of those barriers, and only a whole workgroup may leave them.
    let group = lid.x / LANES;
    let lane = lid.x % LANES;
    let row = (wid.x + wid.y * ROW_GRID_X) * ROWS_PER_WG + group;
    let safe_row = min(row, gd.x - 1u);
    let base = safe_row * pitch;

    // Read the scaled row once into registers.
${load}
    // Pass 1: row max of the scaled scores.
    var local_max = -3.402823e38;
${max_fold}
    scratch[lid.x] = local_max;
    workgroupBarrier();
    for (var step = LANES / 2u; step > 0u; step = step / 2u) {
        if (lane < step) {
            scratch[lid.x] = max(scratch[lid.x], scratch[lid.x + step]);
        }
        workgroupBarrier();
    }
    let row_max = scratch[group * LANES];
    // See `softmax` above: the reduction result is read by every lane and the
    // next pass overwrites the slot, so the two are separated by a barrier.
    workgroupBarrier();

    // Pass 2: sum of exps, computed once and kept for the normalisation.
    var local_sum = 0.0;
${exp_fold}
    scratch[lid.x] = local_sum;
    workgroupBarrier();
    for (var step = LANES / 2u; step > 0u; step = step / 2u) {
        if (lane < step) {
            scratch[lid.x] = scratch[lid.x] + scratch[lid.x + step];
        }
        workgroupBarrier();
    }
    let total = scratch[group * LANES];
    let inv = select(0.0, 1.0 / total, total > 0.0);

    // Pass 3: normalise from the cached exps; the columns past `cols` are the
    // row pitch's zero padding, cleared so the AV product's K reads zeros.
    if (row < gd.x) {
${store}    }
}
"##;

/// Template of `softmax_warp`.
pub const SOFTMAX_WARP: &'static str = r##"
@group(0) @binding(0) var<storage, read_write> X: array<f32>;
@group(0) @binding(1) var<uniform> gd: vec4<u32>;  // rows, cols, scale_bits, pitch

const LANES: u32 = ${lanes}u;
const WARPS: u32 = ${warps}u;
const ROW_GRID_X: u32 = ${grid_x}u;

@compute @workgroup_size(${threads})
fn softmax_in_place(
    @builtin(workgroup_id) wid: vec3<u32>,
    @builtin(local_invocation_id) lid: vec3<u32>,
) {
    let cols = gd.y;
    let pitch = gd.w;
    let scale = bitcast<f32>(gd.z);
    let warp = lid.x / LANES;
    let lane = lid.x % LANES;
    let row = (wid.x + wid.y * ROW_GRID_X) * WARPS + warp;
    // Clamped rather than skipped: the store is what is guarded, and a warp
    // that returned here would leave its row's padding stale.
    let safe_row = min(row, gd.x - 1u);
    let base = safe_row * pitch;

    let s0 = select(-3.402823e38, X[base + lane] * scale, lane < cols);
    let s1 = select(-3.402823e38, X[base + lane + LANES] * scale, lane + LANES < cols);

    var local_max = max(s0, s1);
    let row_max = subgroupMax(local_max);

    let e0 = select(0.0, exp(s0 - row_max), lane < cols);
    let e1 = select(0.0, exp(s1 - row_max), lane + LANES < cols);
    // `subgroupAdd` folds in the calling lane's own value, so adding it back
    // again would inflate the row sum by exactly one lane's share.
    let local_sum = e0 + e1;
    let total = subgroupAdd(local_sum);
    let inv = select(0.0, 1.0 / total, total > 0.0);

    if (row < gd.x) {
        if (lane < pitch) {
            X[base + lane] = select(0.0, e0 * inv, lane < cols);
        }
        if (lane + LANES < pitch) {
            X[base + lane + LANES] = select(0.0, e1 * inv, lane + LANES < cols);
        }
    }
}
"##;

/// Template of `softmax_scaled_warp`.
pub const SOFTMAX_SCALED_WARP: &'static str = r##"
@group(0) @binding(0) var<storage, read> X: array<f32>;
@group(0) @binding(1) var<storage, read_write> Out: array<f32>;
@group(0) @binding(2) var<uniform> gd: vec4<u32>;  // rows, cols, scale_bits, _

const LANES: u32 = ${lanes}u;
const WARPS: u32 = ${warps}u;
const ROW_GRID_X: u32 = ${grid_x}u;

@compute @workgroup_size(${threads})
fn softmax(@builtin(workgroup_id) wid: vec3<u32>, @builtin(local_invocation_id) lid: vec3<u32>) {
    let cols = gd.y;
    let scale = bitcast<f32>(gd.z);
    let warp = lid.x / LANES;
    let lane = lid.x % LANES;
    let row = (wid.x + wid.y * ROW_GRID_X) * WARPS + warp;
    let safe_row = min(row, gd.x - 1u);
    let base = safe_row * cols;

    // Two passes, vec4 along the row: each lane owns 4 consecutive columns
    // and steps by 128. HTDemucs freq softmax is 2688-wide (exact 21 steps).
    var local_max = -3.402823e38;
    var local_sum = 0.0;
    let stride = LANES * 4u;
    var i = lane * 4u;
    loop {
        if (i + 4u > cols) { break; }
        let x0 = X[base + i] * scale;
        let x1 = X[base + i + 1u] * scale;
        let x2 = X[base + i + 2u] * scale;
        let x3 = X[base + i + 3u] * scale;
        let m2 = max(local_max, max(max(x0, x1), max(x2, x3)));
        let e = exp(local_max - m2);
        local_sum = local_sum * e + exp(x0 - m2) + exp(x1 - m2) + exp(x2 - m2) + exp(x3 - m2);
        local_max = m2;
        i = i + stride;
    }
    loop {
        if (i >= cols) { break; }
        let x = X[base + i] * scale;
        let m2 = max(local_max, x);
        local_sum = local_sum * exp(local_max - m2) + exp(x - m2);
        local_max = m2;
        i = i + 1u;
    }
    let row_max = subgroupMax(local_max);
    local_sum = local_sum * exp(local_max - row_max);
    let total = subgroupAdd(local_sum);
    let inv = select(0.0, 1.0 / total, total > 0.0);
    if (row < gd.x) {
        var j = lane * 4u;
        loop {
            if (j + 4u > cols) { break; }
            Out[base + j] = exp(X[base + j] * scale - row_max) * inv;
            Out[base + j + 1u] = exp(X[base + j + 1u] * scale - row_max) * inv;
            Out[base + j + 2u] = exp(X[base + j + 2u] * scale - row_max) * inv;
            Out[base + j + 3u] = exp(X[base + j + 3u] * scale - row_max) * inv;
            j = j + stride;
        }
        loop {
            if (j >= cols) { break; }
            Out[base + j] = exp(X[base + j] * scale - row_max) * inv;
            j = j + 1u;
        }
    }
}
"##;

/// Template of `softmax_stats_warp`.
pub const SOFTMAX_STATS_WARP: &'static str = r##"
@group(0) @binding(0) var<storage, read> X: array<f32>;
@group(0) @binding(1) var<storage, read_write> Stats: array<f32>;  // 2 per row: max, 1/sum
@group(0) @binding(2) var<uniform> gd: vec4<u32>;  // rows, cols, scale bits, _

const LANES: u32 = ${lanes}u;
const WARPS: u32 = ${warps}u;
const THREADS: u32 = ${threads}u;
const ROW_GRID_X: u32 = ${grid_x}u;

@compute @workgroup_size(${threads})
fn softmax_stats(@builtin(workgroup_id) wid: vec3<u32>, @builtin(local_invocation_id) lid: vec3<u32>) {
    let cols = gd.y;
    let scale = bitcast<f32>(gd.z);
    let warp = lid.x / LANES;
    let lane = lid.x % LANES;
    let row = (wid.x + wid.y * ROW_GRID_X) * WARPS + warp;
    let safe_row = min(row, gd.x - 1u);
    let base = safe_row * cols;

    // Two passes, vec4 along the row: each lane owns 4 consecutive columns
    // and steps by 128. HTDemucs freq softmax is 2688-wide (exact 21 steps).
    var local_max = -3.402823e38;
    var local_sum = 0.0;
    let stride = LANES * 4u;
    var i = lane * 4u;
    loop {
        if (i + 4u > cols) { break; }
        let x0 = X[base + i] * scale;
        let x1 = X[base + i + 1u] * scale;
        let x2 = X[base + i + 2u] * scale;
        let x3 = X[base + i + 3u] * scale;
        let m2 = max(local_max, max(max(x0, x1), max(x2, x3)));
        let e = exp(local_max - m2);
        local_sum = local_sum * e + exp(x0 - m2) + exp(x1 - m2) + exp(x2 - m2) + exp(x3 - m2);
        local_max = m2;
        i = i + stride;
    }
    loop {
        if (i >= cols) { break; }
        let x = X[base + i] * scale;
        let m2 = max(local_max, x);
        local_sum = local_sum * exp(local_max - m2) + exp(x - m2);
        local_max = m2;
        i = i + 1u;
    }
    let row_max = subgroupMax(local_max);
    local_sum = local_sum * exp(local_max - row_max);
    let total = subgroupAdd(local_sum);
    let inv = select(0.0, 1.0 / total, total > 0.0);
    // The two reductions leave both values warp-uniform, so one lane stores.
    if (row < gd.x && lane == 0u) {
        Stats[safe_row * 2u] = row_max;
        Stats[safe_row * 2u + 1u] = inv;
    }
}
"##;

/// Template of `flash_attention`.
pub const FLASH_ATTENTION: &'static str = r##"
struct FlashDims {
    seq: u32,
    row_stride: u32,   // 3 * inner
    inner: u32,        // heads * dim_head
    heads: u32,
    scale_bits: u32,
};

@group(0) @binding(0) var<storage, read> qkv: array<f32>;
@group(0) @binding(1) var<storage, read_write> out: array<f32>;
@group(0) @binding(2) var<uniform> fd: FlashDims;

const TILE: u32 = ${tile}u;
const PAD: u32 = ${pad}u;
const D_HEAD: u32 = ${d_head}u;

var<workgroup> q_tile: array<f32, TILE * PAD>;
var<workgroup> k_tile: array<f32, TILE * PAD>;
var<workgroup> o_tile: array<f32, TILE * D_HEAD>;

@compute @workgroup_size(${threads}u)
fn flash_attention(
    @builtin(workgroup_id) wid: vec3<u32>,
    @builtin(local_invocation_id) lid: vec3<u32>,
) {
    // One workgroup is one (batch, head) pair's 32-row Q block: wid.x selects
    // the pair, wid.y the block, and each thread owns one row of the tile.
    let bh = wid.x;
    let qb = wid.y;
    let b = bh / fd.heads;
    let h = bh % fd.heads;
    let q0 = qb * TILE;
    let q_rows = min(TILE, fd.seq - q0);
    let row = lid.x;
    let scale = bitcast<f32>(fd.scale_bits);

    let i = q0 + row;
    let q_valid = row < q_rows;
    // Clamp the row index so an invalid row's loads land inside the buffer;
    // its accumulator is never written out.
    let i_safe = min(i, fd.seq - 1u);
    let q_base = (b * fd.seq + i_safe) * fd.row_stride + h * D_HEAD;
    let k_head = b * fd.seq * fd.row_stride + fd.inner + h * D_HEAD;
    let v_head = b * fd.seq * fd.row_stride + 2u * fd.inner + h * D_HEAD;

    for (var d = 0u; d < D_HEAD; d += 1u) {
        q_tile[row * PAD + d] = select(0.0, qkv[q_base + d], q_valid);
    }
    workgroupBarrier();

    let kv_blocks = (fd.seq + TILE - 1u) / TILE;

    // Pass A: the global row max of the scaled scores.
    var m = -3.402823e38;
    for (var kb = 0u; kb < kv_blocks; kb += 1u) {
        let j0 = kb * TILE;
        let kv_rows = min(TILE, fd.seq - j0);
        let j_safe = j0 + min(row, kv_rows - 1u);
        let j_valid = row < kv_rows;
        let k_row = k_head + j_safe * fd.row_stride;
        for (var d = 0u; d < D_HEAD; d += 1u) {
            k_tile[row * PAD + d] = select(0.0, qkv[k_row + d], j_valid);
        }
        workgroupBarrier();
        if (q_valid) {
            for (var j2 = 0u; j2 < kv_rows; j2 += 1u) {
                var s = 0.0;
                for (var d = 0u; d < D_HEAD; d += 1u) {
                    s += q_tile[row * PAD + d] * k_tile[j2 * PAD + d];
                }
                m = max(m, s * scale);
            }
        }
        workgroupBarrier();
    }

    // Pass B: unnormalised P·V with the row max; the row sum of exp folds in
    // on the fly, and the single division lands at the end.
    var l = 0.0;
    for (var d = 0u; d < D_HEAD; d += 1u) {
        o_tile[row * D_HEAD + d] = 0.0;
    }
    for (var kb = 0u; kb < kv_blocks; kb += 1u) {
        let j0 = kb * TILE;
        let kv_rows = min(TILE, fd.seq - j0);
        let j_safe = j0 + min(row, kv_rows - 1u);
        let j_valid = row < kv_rows;
        let k_row = k_head + j_safe * fd.row_stride;
        for (var d = 0u; d < D_HEAD; d += 1u) {
            k_tile[row * PAD + d] = select(0.0, qkv[k_row + d], j_valid);
        }
        workgroupBarrier();
        if (q_valid) {
            for (var j2 = 0u; j2 < kv_rows; j2 += 1u) {
                var s = 0.0;
                for (var d = 0u; d < D_HEAD; d += 1u) {
                    s += q_tile[row * PAD + d] * k_tile[j2 * PAD + d];
                }
                let p = exp(s * scale - m);
                l += p;
                let v_row = v_head + (j0 + j2) * fd.row_stride;
                for (var d = 0u; d < D_HEAD; d += 1u) {

                o_tile[row * 64u + d] += p * qkv[v_row + d];
                }
            }
        }
        workgroupBarrier();
    }

    if (q_valid) {
        let inv_l = 1.0 / l;
        let o_row = (b * fd.seq + i) * fd.inner + h * D_HEAD;
        for (var d = 0u; d < D_HEAD; d += 1u) {
            out[o_row + d] = o_tile[row * D_HEAD + d] * inv_l;
        }
    }
}
"##;

/// Template of `mul_in_place`.
pub const MUL_IN_PLACE: &'static str = r##"
@group(0) @binding(0) var<storage, read_write> Out: array<f32>;
@group(0) @binding(1) var<storage, read> Source: array<f32>;
@group(0) @binding(2) var<uniform> gd: vec4<u32>;  // count, _, _, _

const GRID_X: u32 = 65535u;

@compute @workgroup_size(${threads})
fn mul_in_place(@builtin(workgroup_id) wid: vec3<u32>, @builtin(local_invocation_id) lid: vec3<u32>) {
    let i = (wid.y * GRID_X + wid.x) * ${threads}u + lid.x;
    if (i >= gd.x) { return; }
    Out[i] = Out[i] * Source[i];
}
"##;

/// Template of `fill_zero`.
pub const FILL_ZERO: &'static str = r##"
@group(0) @binding(0) var<storage, read_write> Out: array<f32>;
@group(0) @binding(1) var<uniform> gd: vec4<u32>;  // count, _, _, _

const GRID_X: u32 = 65535u;

@compute @workgroup_size(${threads})
fn fill_zero(@builtin(workgroup_id) wid: vec3<u32>, @builtin(local_invocation_id) lid: vec3<u32>) {
    let i = (wid.y * GRID_X + wid.x) * ${threads}u + lid.x;
    if (i >= gd.x) { return; }
    Out[i] = 0.0;
}
"##;

/// Template of `crop_rows`.
pub const CROP_ROWS: &'static str = r##"
@group(0) @binding(0) var<storage, read> X: array<f32>;
@group(0) @binding(1) var<storage, read_write> Out: array<f32>;
@group(0) @binding(2) var<uniform> gd: vec4<u32>;  // src_batch_stride, dst_rows, cols, row_offset
@group(0) @binding(3) var<uniform> ge: vec4<u32>;  // batch, _, _, _

const GRID_X: u32 = 65535u;

@compute @workgroup_size(256)
fn crop_rows(@builtin(workgroup_id) wid: vec3<u32>, @builtin(local_invocation_id) lid: vec3<u32>) {
    let total = ge.x * gd.y * gd.z;
    let i = (wid.y * GRID_X + wid.x) * 256u + lid.x;
    if (i >= total) { return; }

    let col = i % gd.z;
    let row = (i / gd.z) % gd.y;
    let batch = i / (gd.y * gd.z);

    Out[i] = X[batch * gd.x + (row + gd.w) * gd.z + col];
}
"##;

/// Template of `copy_pitched`.
pub const COPY_PITCHED: &'static str = r##"
@group(0) @binding(0) var<storage, read> X: array<f32>;
@group(0) @binding(1) var<storage, read_write> Out: array<f32>;
@group(0) @binding(2) var<uniform> gd: vec4<u32>;  // batch, rows, cols, src_pitch
@group(0) @binding(3) var<uniform> ge: vec4<u32>;  // dst_rows, dst_pitch, _, _

const GRID_X: u32 = 65535u;

@compute @workgroup_size(${threads})
fn copy_pitched(@builtin(workgroup_id) wid: vec3<u32>, @builtin(local_invocation_id) lid: vec3<u32>) {
    let rows = gd.y;
    let cols = gd.z;
    let total = gd.x * rows * cols;
    let i = (wid.y * GRID_X + wid.x) * ${threads}u + lid.x;
    if (i >= total) { return; }

    let per_batch = rows * cols;
    let batch = i / per_batch;
    let rest = i % per_batch;
    let row = rest / cols;
    let col = rest % cols;

    Out[(batch * ge.x + row) * ge.y + col] = X[(batch * rows + row) * gd.w + col];
}
"##;

/// Template of `group_norm`.
pub const GROUP_NORM: &'static str = r##"
@group(0) @binding(0) var<storage, read> X: array<f32>;
@group(0) @binding(1) var<storage, read> Gamma: array<f32>;
@group(0) @binding(2) var<storage, read> Beta: array<f32>;
@group(0) @binding(3) var<storage, read_write> Out: array<f32>;
@group(0) @binding(4) var<uniform> gd: vec4<u32>;
@group(0) @binding(5) var<uniform> ge: vec4<u32>;

const THREADS: u32 = ${threads}u;
const ROW_GRID_X: u32 = ${grid_x}u;
var<workgroup> partial_sum: array<f32, ${threads}>;
var<workgroup> partial_sq: array<f32, ${threads}>;

fn group_norm_index(local: u32, len: u32, len_stride: u32, channel_stride: u32) -> u32 {
    return (local / len) * channel_stride + (local % len) * len_stride;
}

@compute @workgroup_size(${threads})
fn group_norm(@builtin(workgroup_id) wid: vec3<u32>, @builtin(local_invocation_id) lid: vec3<u32>) {
    let pair = wid.x + wid.y * ROW_GRID_X;
    let rows = ge.x;
    let groups = gd.x;
    if (pair >= rows * groups) { return; }
    let row = pair / groups;
    let group = pair % groups;

    let per_group = gd.y;
    let len = gd.z;
    let row_stride = gd.w;
    let len_stride = ge.y;
    let channel_stride = ge.z;
    let eps = bitcast<f32>(ge.w);

    let group_size = per_group * len;
    // The group's first channel is `group * per_group`, and channels are
    // `channel_stride` apart inside a row.
    let base = row * row_stride + group * per_group * channel_stride;

    var sum = 0.0;
    var sum_sq = 0.0;
    for (var local = lid.x; local < group_size; local = local + THREADS) {
        let v = X[base + group_norm_index(local, len, len_stride, channel_stride)];
        sum = sum + v;
        sum_sq = fma(v, v, sum_sq);
    }
    partial_sum[lid.x] = sum;
    partial_sq[lid.x] = sum_sq;
    workgroupBarrier();
    for (var step = THREADS / 2u; step > 0u; step = step / 2u) {
        if (lid.x < step) {
            partial_sum[lid.x] = partial_sum[lid.x] + partial_sum[lid.x + step];
            partial_sq[lid.x] = partial_sq[lid.x] + partial_sq[lid.x + step];
        }
        workgroupBarrier();
    }

    let n = f32(group_size);
    let mean = partial_sum[0] / n;
    let variance = max(partial_sq[0] / n - mean * mean, 0.0);
    let scale = 1.0 / sqrt(variance + eps);

    for (var local = lid.x; local < group_size; local = local + THREADS) {
        let offset = base + group_norm_index(local, len, len_stride, channel_stride);
        let channel = group * per_group + local / len;
        Out[offset] = (X[offset] - mean) * scale * Gamma[channel] + Beta[channel];
    }
}
"##;

/// Template of `group_norm_partial`.
pub const GROUP_NORM_PARTIAL: &'static str = r##"
// Only the bindings this entry point actually reads or writes: wgpu's
// automatic layout is derived from the entry point's use, so a declared but
// unused binding is not in the layout and a bind group carrying it as well is
// rejected as invalid.
@group(0) @binding(0) var<storage, read> X: array<f32>;
@group(0) @binding(1) var<uniform> gd: vec4<u32>;  // groups, per_group, len, row_stride
@group(0) @binding(2) var<uniform> ge: vec4<u32>;  // rows, len_stride, channel_stride, eps_bits
@group(0) @binding(3) var<uniform> gf: vec4<u32>;  // segments, segment_len, _, _
@group(0) @binding(4) var<storage, read_write> Partials: array<f32>;  // 2 per (pair, segment)

const THREADS: u32 = ${threads}u;
const ROW_GRID_X: u32 = ${grid_x}u;
var<workgroup> partial_sum: array<f32, ${threads}>;
var<workgroup> partial_sq: array<f32, ${threads}>;

fn group_norm_index(local: u32, len: u32, len_stride: u32, channel_stride: u32) -> u32 {
    return (local / len) * channel_stride + (local % len) * len_stride;
}

@compute @workgroup_size(${threads})
fn group_norm_partial(@builtin(workgroup_id) wid: vec3<u32>, @builtin(local_invocation_id) lid: vec3<u32>) {
    let segments = gf.x;
    let segment_len = gf.y;
    let work = wid.x + wid.y * ROW_GRID_X;
    let pair = work / segments;
    let segment = work % segments;

    let rows = ge.x;
    let groups = gd.x;
    if (pair >= rows * groups) { return; }
    let row = pair / groups;
    let group = pair % groups;

    let per_group = gd.y;
    let len = gd.z;
    let row_stride = gd.w;
    let len_stride = ge.y;
    let channel_stride = ge.z;

    let group_size = per_group * len;
    let base = row * row_stride + group * per_group * channel_stride;
    let start = segment * segment_len;
    let end = min(start + segment_len, group_size);

    var sum = 0.0;
    var sum_sq = 0.0;
    for (var local = start + lid.x; local < end; local = local + THREADS) {
        let v = X[base + group_norm_index(local, len, len_stride, channel_stride)];
        sum = sum + v;
        sum_sq = fma(v, v, sum_sq);
    }
    partial_sum[lid.x] = sum;
    partial_sq[lid.x] = sum_sq;
    workgroupBarrier();
    for (var step = THREADS / 2u; step > 0u; step = step / 2u) {
        if (lid.x < step) {
            partial_sum[lid.x] = partial_sum[lid.x] + partial_sum[lid.x + step];
            partial_sq[lid.x] = partial_sq[lid.x] + partial_sq[lid.x + step];
        }
        workgroupBarrier();
    }
    if (lid.x == 0u) {
        let slot = work * 2u;
        Partials[slot] = partial_sum[0];
        Partials[slot + 1u] = partial_sq[0];
    }
}
"##;

/// Template of `group_norm_combine`.
pub const GROUP_NORM_COMBINE: &'static str = r##"
@group(0) @binding(0) var<storage, read> Partials: array<f32>;
@group(0) @binding(1) var<storage, read_write> Stats: array<f32>;
@group(0) @binding(2) var<uniform> gd: vec4<u32>;
@group(0) @binding(3) var<uniform> ge: vec4<u32>;
@group(0) @binding(4) var<uniform> gf: vec4<u32>;  // segments, segment_len, _, _

const THREADS: u32 = ${threads}u;
const ROW_GRID_X: u32 = ${grid_x}u;

@compute @workgroup_size(${threads})
fn group_norm_combine(@builtin(workgroup_id) wid: vec3<u32>, @builtin(local_invocation_id) lid: vec3<u32>) {
    let segments = gf.x;
    let pair = (wid.x + wid.y * ROW_GRID_X) * THREADS + lid.x;
    let rows = ge.x;
    let groups = gd.x;
    if (pair >= rows * groups) { return; }

    let per_group = gd.y;
    let len = gd.z;
    let eps = bitcast<f32>(ge.w);
    let group_size = per_group * len;

    var sum = 0.0;
    var sum_sq = 0.0;
    let first = pair * segments * 2u;
    for (var s = 0u; s < segments; s = s + 1u) {
        sum = sum + Partials[first + s * 2u];
        sum_sq = sum_sq + Partials[first + s * 2u + 1u];
    }
    let n = f32(group_size);
    let mean = sum / n;
    let variance = max(sum_sq / n - mean * mean, 0.0);
    Stats[pair * 2u] = mean;
    Stats[pair * 2u + 1u] = 1.0 / sqrt(variance + eps);
}
"##;

/// Template of `group_norm_apply`.
pub const GROUP_NORM_APPLY: &'static str = r##"
@group(0) @binding(0) var<storage, read> X: array<f32>;
@group(0) @binding(1) var<storage, read> Gamma: array<f32>;
@group(0) @binding(2) var<storage, read> Beta: array<f32>;
@group(0) @binding(3) var<storage, read_write> Out: array<f32>;
@group(0) @binding(4) var<uniform> gd: vec4<u32>;
@group(0) @binding(5) var<uniform> ge: vec4<u32>;
@group(0) @binding(6) var<uniform> gf: vec4<u32>;
@group(0) @binding(7) var<storage, read> Stats: array<f32>;

const THREADS: u32 = ${threads}u;
const ROW_GRID_X: u32 = ${grid_x}u;

fn group_norm_index(local: u32, len: u32, len_stride: u32, channel_stride: u32) -> u32 {
    return (local / len) * channel_stride + (local % len) * len_stride;
}

@compute @workgroup_size(${threads})
fn group_norm_apply(@builtin(workgroup_id) wid: vec3<u32>, @builtin(local_invocation_id) lid: vec3<u32>) {
    let segments = gf.x;
    let segment_len = gf.y;
    let work = wid.x + wid.y * ROW_GRID_X;
    let pair = work / segments;
    let segment = work % segments;

    let rows = ge.x;
    let groups = gd.x;
    if (pair >= rows * groups) { return; }
    let row = pair / groups;
    let group = pair % groups;

    let per_group = gd.y;
    let len = gd.z;
    let row_stride = gd.w;
    let len_stride = ge.y;
    let channel_stride = ge.z;

    let group_size = per_group * len;
    let base = row * row_stride + group * per_group * channel_stride;
    let mean = Stats[pair * 2u];
    let scale = Stats[pair * 2u + 1u];

    let start = segment * segment_len;
    let end = min(start + segment_len, group_size);
    // The transformer's position-wise norm stores `(token, channel)` with the
    // channels contiguous (`channel_stride == 1`) and the token axis exactly
    // `per_group` floats away — the generic walk below then puts consecutive
    // lanes `per_group` floats apart, so every lane pulls a 128-byte line to
    // use 4 bytes of it. When the two axes tile the group (channels fastest),
    // memory order *is* the element order: same elements, same arithmetic,
    // one line per lane. Measured on the 1.376M-element slices: 0.91 ms →
    // 0.06 ms per dispatch.
    if (channel_stride == 1u && len_stride == per_group) {
        for (var local = start + lid.x; local < end; local = local + THREADS) {
            let offset = base + local;
            let channel = group * per_group + local % per_group;
            Out[offset] = (X[offset] - mean) * scale * Gamma[channel] + Beta[channel];
        }
    } else {
        for (var local = start + lid.x; local < end; local = local + THREADS) {
            let offset = base + group_norm_index(local, len, len_stride, channel_stride);
            let channel = group * per_group + local / len;
            Out[offset] = (X[offset] - mean) * scale * Gamma[channel] + Beta[channel];
        }
    }
}
"##;

/// Template of `group_norm_apply_from_partials`.
pub const GROUP_NORM_APPLY_FROM_PARTIALS: &'static str = r##"
@group(0) @binding(0) var<storage, read> X: array<f32>;
@group(0) @binding(1) var<storage, read> Gamma: array<f32>;
@group(0) @binding(2) var<storage, read> Beta: array<f32>;
@group(0) @binding(3) var<storage, read_write> Out: array<f32>;
@group(0) @binding(4) var<uniform> gd: vec4<u32>;
@group(0) @binding(5) var<uniform> ge: vec4<u32>;
@group(0) @binding(6) var<uniform> gf: vec4<u32>;
@group(0) @binding(7) var<storage, read> Partials: array<f32>;

const THREADS: u32 = ${threads}u;
const ROW_GRID_X: u32 = ${grid_x}u;

fn group_norm_index(local: u32, len: u32, len_stride: u32, channel_stride: u32) -> u32 {
    return (local / len) * channel_stride + (local % len) * len_stride;
}

@compute @workgroup_size(${threads})
fn group_norm_apply(@builtin(workgroup_id) wid: vec3<u32>, @builtin(local_invocation_id) lid: vec3<u32>) {
    let segments = gf.x;
    let segment_len = gf.y;
    let work = wid.x + wid.y * ROW_GRID_X;
    let pair = work / segments;
    let segment = work % segments;

    let rows = ge.x;
    let groups = gd.x;
    if (pair >= rows * groups) { return; }
    let row = pair / groups;
    let group = pair % groups;

    let per_group = gd.y;
    let len = gd.z;
    let row_stride = gd.w;
    let len_stride = ge.y;
    let channel_stride = ge.z;
    let eps = bitcast<f32>(ge.w);

    let group_size = per_group * len;
    let base = row * row_stride + group * per_group * channel_stride;

    var sum = 0.0;
    var sum_sq = 0.0;
    let first = pair * segments * 2u;
    for (var s = 0u; s < segments; s = s + 1u) {
        sum = sum + Partials[first + s * 2u];
        sum_sq = sum_sq + Partials[first + s * 2u + 1u];
    }
    let n = f32(group_size);
    let mean = sum / n;
    let variance = max(sum_sq / n - mean * mean, 0.0);
    let scale = 1.0 / sqrt(variance + eps);

    let start = segment * segment_len;
    let end = min(start + segment_len, group_size);
    // See [`group_norm_apply`]: the same memory-order fast path, for the
    // small-segment case where the replay of the partials replaces the
    // combine dispatch.
    if (channel_stride == 1u && len_stride == per_group) {
        for (var local = start + lid.x; local < end; local = local + THREADS) {
            let offset = base + local;
            let channel = group * per_group + local % per_group;
            Out[offset] = (X[offset] - mean) * scale * Gamma[channel] + Beta[channel];
        }
    } else {
        for (var local = start + lid.x; local < end; local = local + THREADS) {
            let offset = base + group_norm_index(local, len, len_stride, channel_stride);
            let channel = group * per_group + local / len;
            Out[offset] = (X[offset] - mean) * scale * Gamma[channel] + Beta[channel];
        }
    }
}
"##;

/// Template of `lstm_recur`.
pub const LSTM_RECUR: &'static str = r##"
@group(0) @binding(0) var<storage, read> Proj: array<f32>;
@group(0) @binding(1) var<storage, read> W_hh: array<f32>;
@group(0) @binding(2) var<storage, read> B_hh: array<f32>;
@group(0) @binding(3) var<storage, read_write> Out: array<f32>;
@group(0) @binding(4) var<uniform> gd: vec4<u32>;
@group(0) @binding(5) var<uniform> ge: vec4<u32>;

const THREADS: u32 = ${threads}u;
const MAX_HIDDEN: u32 = ${max_hidden}u;
const ROWS: u32 = ${rows}u;

var<workgroup> h_state: array<f32, ${state_slots}>;
var<workgroup> c_state: array<f32, ${state_slots}>;
var<workgroup> gates: array<f32, ${gate_slots}>;

fn sigmoid(x: f32) -> f32 {
    return 1.0 / (1.0 + exp(-x));
}

@compute @workgroup_size(${threads})
fn lstm_recur(@builtin(workgroup_id) wid: vec3<u32>, @builtin(local_invocation_id) lid: vec3<u32>) {
    let group = wid.x + wid.y * ge.z;
    let row = group * ROWS;
    let rows = ge.y;
    if (row >= rows) { return; }

    let hidden = gd.x;
    let time = gd.y;
    let reverse = gd.z != 0u;
    let out_pitch = gd.w;
    let out_offset = ge.x;
    let proj_pitch = ge.w;
    let gate_count = 4u * hidden;

    for (var i = lid.x; i < ROWS * MAX_HIDDEN; i = i + THREADS) {
${zap}    }
    workgroupBarrier();

    for (var step = 0u; step < time; step = step + 1u) {
        let t = select(step, time - 1u - step, reverse);

        var slot = 0u;
        loop {
            let gate = lid.x + slot * THREADS;
            if (gate >= gate_count) { break; }
${acc_decl}${acc_load}            for (var j = 0u; j < hidden; j = j + 1u) {
                let w = W_hh[j * gate_count + gate];
${dispatch}            }
${gate_store}            slot = slot + 1u;
        }
        workgroupBarrier();

        // The state arrays are strided at `MAX_HIDDEN`, so this walks the same
        // layout the gating loop indexed.
        for (var i = lid.x; i < ROWS * MAX_HIDDEN; i = i + THREADS) {
            let r = i / MAX_HIDDEN;
            let j = i % MAX_HIDDEN;
            if (j >= hidden || row + r >= rows) { continue; }
            let base = r * gate_count + j;
            let input_gate = sigmoid(gates[base]);
            let forget_gate = sigmoid(gates[base + hidden]);
            let cell_gate = tanh(gates[base + 2u * hidden]);
            let output_gate = sigmoid(gates[base + 3u * hidden]);
            let c = forget_gate * c_state[i] + input_gate * cell_gate;
            c_state[i] = c;
            let h = output_gate * tanh(c);
            h_state[i] = h;
            Out[((row + r) * time + t) * out_pitch + out_offset + j] = h;
        }
        workgroupBarrier();
    }
}
"##;

/// Template of `lstm_recur_regs`.
pub const LSTM_RECUR_REGS: &'static str = r##"
@group(0) @binding(0) var<storage, read> Proj: array<f32>;
@group(0) @binding(1) var<storage, read> W_hh: array<f32>;
@group(0) @binding(2) var<storage, read> B_hh: array<f32>;
@group(0) @binding(3) var<storage, read_write> Out: array<f32>;
@group(0) @binding(4) var<uniform> gd: vec4<u32>;
@group(0) @binding(5) var<uniform> ge: vec4<u32>;

const THREADS: u32 = ${threads}u;
const MAX_HIDDEN: u32 = ${max_hidden}u;
const GATES: u32 = ${gate_count}u;
const WPT: u32 = ${weights_per_thread}u;

var<workgroup> h_state: array<f32, ${state_slots}>;
var<workgroup> c_state: array<f32, ${state_slots}>;
var<workgroup> partials: array<vec2<f32>, ${partial_slots}>;
var<workgroup> gates: array<f32, ${gate_slots}>;

fn sigmoid(x: f32) -> f32 {
    return 1.0 / (1.0 + exp(-x));
}

@compute @workgroup_size(${threads})
fn lstm_recur_regs(@builtin(workgroup_id) wid: vec3<u32>, @builtin(local_invocation_id) lid: vec3<u32>) {
    let group = wid.x + wid.y * ge.z;
    let row = group * 2u;
    let rows = ge.y;
    if (row >= rows) { return; }

    let hidden = gd.x;
    let time = gd.y;
    let reverse = gd.z != 0u;
    let out_pitch = gd.w;
    let out_offset = ge.x;
    let proj_pitch = ge.w;

    // Thread `t` owns gate `t % GATES` over the `j` range of half `t / GATES`.
    // Laying the halves out contiguously rather than interleaved keeps every lane
    // of a warp on the same half, so the `h_state` reads broadcast.
    let half = lid.x / GATES;
    let gate = lid.x % GATES;
    let j0 = half * WPT;

    // This thread's slice of the recurrent weights, resident for the whole time
    // axis. Loading it once is the entire point of this kernel.
    var w: array<f32, WPT>;
${load_weights}
    for (var i = lid.x; i < ${state_slots}u; i = i + THREADS) {
        h_state[i] = 0.0;
        c_state[i] = 0.0;
    }
    workgroupBarrier();

    for (var step = 0u; step < time; step = step + 1u) {
        let t = select(step, time - 1u - step, reverse);

        // Phase 1: each thread's partial dot product over its `WPT` weights, for
        // both rows at once.
        var acc0 = 0.0;
        var acc1 = 0.0;
${dot}
        partials[lid.x] = vec2<f32>(acc0, acc1);
        workgroupBarrier();

        // Phase 2: the lower half sums its gate's two partials and adds the input
        // projection and the recurrent bias — the host's order, where the project-
        // ed value and `b_hh` are what the accumulator starts from.
        if (half == 0u) {
            let p = partials[gate] + partials[GATES + gate];
            var g0 = p.x;
            var g1 = p.y;
            if (row < rows) {
                g0 = g0 + Proj[(row * time + t) * proj_pitch + gate] + B_hh[gate];
            }
            if (row + 1u < rows) {
                g1 = g1 + Proj[((row + 1u) * time + t) * proj_pitch + gate] + B_hh[gate];
            }
            gates[gate] = g0;
            gates[GATES + gate] = g1;
        }
        workgroupBarrier();

        // Phase 3: the cell update, one thread per (row, hidden unit).
        for (var i = lid.x; i < ${state_slots}u; i = i + THREADS) {
            let r = i / MAX_HIDDEN;
            let j = i % MAX_HIDDEN;
            if (j >= hidden || row + r >= rows) { continue; }
            let base = r * GATES + j;
            let input_gate = sigmoid(gates[base]);
            let forget_gate = sigmoid(gates[base + hidden]);
            let cell_gate = tanh(gates[base + 2u * hidden]);
            let output_gate = sigmoid(gates[base + 3u * hidden]);
            let c = forget_gate * c_state[i] + input_gate * cell_gate;
            c_state[i] = c;
            let h = output_gate * tanh(c);
            h_state[i] = h;
            Out[((row + r) * time + t) * out_pitch + out_offset + j] = h;
        }
        workgroupBarrier();
    }
}"##;

/// Template of `heads_permute`.
pub const HEADS_PERMUTE: &'static str = r##"
@group(0) @binding(0) var<storage, read> X: array<f32>;
@group(0) @binding(1) var<storage, read_write> Out: array<f32>;
@group(0) @binding(2) var<uniform> gd: vec4<u32>;  // batches, heads, per_head, t
@group(0) @binding(3) var<uniform> ge: vec4<u32>;  // f, count, mode, _

const GRID_X: u32 = 65535u;

@compute @workgroup_size(${threads})
fn heads_permute(@builtin(workgroup_id) wid: vec3<u32>, @builtin(local_invocation_id) lid: vec3<u32>) {
    let i = (wid.y * GRID_X + wid.x) * ${threads}u + lid.x;
    if (i >= ge.y) { return; }

    let batches = gd.x;
    let heads = gd.y;
    let per_head = gd.z;
    let t = gd.w;
    let f = ge.x;
    let channels = heads * per_head;

    if (ge.z == 0u) {
        // (b, c, t, f) -> (b * heads, f, t, per_head)
        let per_batch = channels * t * f;
        let b = i / per_batch;
        let rest = i % per_batch;
        let c = rest / (t * f);
        let after_c = rest % (t * f);
        let ti = after_c / f;
        let fi = after_c % f;
        let head = c / per_head;
        let j = c % per_head;
        Out[((b * heads + head) * f + fi) * (t * per_head) + ti * per_head + j] = X[i];
    } else {
        // (b * heads, f, t, per_head) -> (b, c, t, f)
        let per_batch = f * t * per_head;
        let bb = i / per_batch;
        let rest = i % per_batch;
        let fi = rest / (t * per_head);
        let after_f = rest % (t * per_head);
        let ti = after_f / per_head;
        let j = after_f % per_head;
        let b = bb / heads;
        let head = bb % heads;
        Out[((b * channels + head * per_head + j) * t + ti) * f + fi] = X[i];
    }
}
"##;

/// Template of `istft_irfft4096`.
pub const ISTFT_IRFFT4096: &'static str = r##"
@group(0) @binding(0) var<storage, read> X: array<f32>;
@group(0) @binding(1) var<storage, read> Win: array<f32>;
@group(0) @binding(2) var<storage, read_write> Out: array<f32>;
@group(0) @binding(3) var<uniform> gd: vec4<u32>;  // frames, bins, packed, batch

const N: u32 = 4096u;
const BITS: u32 = 12u;
const THREADS: u32 = 256u;
const PER: u32 = 16u;
const PI2: f32 = 6.283185307179586;

var<workgroup> sm: array<vec2<f32>, 4096>;

fn bitrev12(x: u32) -> u32 {
    return reverseBits(x) >> (32u - BITS);
}

@compute @workgroup_size(256)
fn istft_irfft4096(@builtin(workgroup_id) wid: vec3<u32>, @builtin(local_invocation_id) lid: vec3<u32>) {
    let frames = gd.x;
    let bins = gd.y;
    let packed = gd.z;
    let frame = wid.x;
    let row = wid.y;
    if (frame >= frames) { return; }

    let packed_out = packed / 2u;
    let b = row / packed_out;
    let co = row % packed_out;
    let cpack = co * 2u;
    let spec_base = (b * packed + cpack) * bins * frames + frame;
    let spec_im = spec_base + bins * frames;

    for (var p = 0u; p < PER; p++) {
        let k = lid.x + p * THREADS;
        var z = vec2<f32>(0.0, 0.0);
        if (k == 0u) {
            z = vec2(X[spec_base], X[spec_im]);
        } else if (k < bins) {
            let re = X[spec_base + k * frames];
            let im = X[spec_im + k * frames];
            z = vec2(re, im);
        } else if (k > bins) {
            let m = N - k;
            let re = X[spec_base + m * frames];
            let im = X[spec_im + m * frames];
            z = vec2(re, -im);
        }
        sm[bitrev12(k)] = z;
    }
    workgroupBarrier();

    for (var stage = 0u; stage < BITS; stage++) {
        let m = 1u << (stage + 1u);
        let mh = m >> 1u;
        workgroupBarrier();
        for (var p = 0u; p < 8u; p++) {
            let bfly = lid.x + p * THREADS;
            let j = bfly % mh;
            let grp = bfly / mh;
            let idx = grp * m + j;
            let pair = idx + mh;
            let a = sm[idx];
            let bval = sm[pair];
            let angle = PI2 * f32(j) / f32(m);
            let wr = cos(angle);
            let wi = sin(angle);
            let t = vec2(bval.x * wr - bval.y * wi, bval.x * wi + bval.y * wr);
            sm[idx] = a + t;
            sm[pair] = a - t;
        }
    }
    workgroupBarrier();

    let inv = 0.015625; // 1/sqrt(4096)
    let dst = ((row * frames + frame) * N);
    for (var p = 0u; p < PER; p++) {
        let i = lid.x + p * THREADS;
        Out[dst + i] = sm[i].x * Win[i] * inv;
    }
}
"##;

/// Template of `stft_rfft4096`.
pub const STFT_RFFT4096: &'static str = r##"
@group(0) @binding(0) var<storage, read> Mix: array<f32>;
@group(0) @binding(1) var<storage, read> Win: array<f32>;
@group(0) @binding(2) var<storage, read_write> Out: array<f32>;
@group(0) @binding(3) var<uniform> gd: vec4<u32>;  // le, bins, channels, hop
@group(0) @binding(4) var<uniform> ge: vec4<u32>;  // padded_len, center, batch, _

const N: u32 = 4096u;
const BITS: u32 = 12u;
const THREADS: u32 = 256u;
const PER: u32 = 16u;
const PI2: f32 = 6.283185307179586;

var<workgroup> sm: array<vec2<f32>, 4096>;

fn bitrev12(x: u32) -> u32 {
    return reverseBits(x) >> (32u - BITS);
}

fn reflect_at(idx: i32, len: i32) -> u32 {
    if (idx < 0) {
        return u32(-idx);
    }
    if (idx >= len) {
        return u32(2 * len - 2 - idx);
    }
    return u32(idx);
}

@compute @workgroup_size(256)
fn stft_rfft4096(@builtin(workgroup_id) wid: vec3<u32>, @builtin(local_invocation_id) lid: vec3<u32>) {
    let le = gd.x;
    let bins = gd.y;
    let channels = gd.z;
    let hop = gd.w;
    let padded_len = ge.x;
    let center = ge.y;
    let frame = wid.x;
    let row = wid.y;
    if (frame >= le) { return; }

    let b = row / channels;
    let ch = row % channels;
    let mix_base = (b * channels + ch) * padded_len;
    let start = (frame + 2u) * hop;
    let plen = i32(padded_len);
    let cpad = i32(center);

    for (var p = 0u; p < PER; p++) {
        let k = lid.x + p * THREADS;
        let src = reflect_at(i32(start + k) - cpad, plen);
        let v = Mix[mix_base + src] * Win[k];
        sm[bitrev12(k)] = vec2(v, 0.0);
    }
    workgroupBarrier();

    for (var stage = 0u; stage < BITS; stage++) {
        let m = 1u << (stage + 1u);
        let mh = m >> 1u;
        workgroupBarrier();
        for (var p = 0u; p < 8u; p++) {
            let bfly = lid.x + p * THREADS;
            let j = bfly % mh;
            let grp = bfly / mh;
            let idx = grp * m + j;
            let pair = idx + mh;
            let a = sm[idx];
            let bval = sm[pair];
            let angle = PI2 * f32(j) / f32(m);
            let wr = cos(angle);
            let wi = -sin(angle);
            let t = vec2(bval.x * wr - bval.y * wi, bval.x * wi + bval.y * wr);
            sm[idx] = a + t;
            sm[pair] = a - t;
        }
    }
    workgroupBarrier();

    let inv = 0.015625;
    let packed = channels * 2u;
    let re_ch = ch * 2u;
    let im_ch = re_ch + 1u;
    let re_base = ((b * packed + re_ch) * bins) * le + frame;
    let im_base = ((b * packed + im_ch) * bins) * le + frame;
    for (var p = 0u; p < PER; p++) {
        let k = lid.x + p * THREADS;
        if (k < bins) {
            Out[re_base + k * le] = sm[k].x * inv;
            Out[im_base + k * le] = sm[k].y * inv;
        }
    }
}
"##;

/// Template of `batch_moments`.
pub const BATCH_MOMENTS: &'static str = r##"
@group(0) @binding(0) var<storage, read> X: array<f32>;
@group(0) @binding(1) var<storage, read_write> Mean: array<f32>;
@group(0) @binding(2) var<storage, read_write> Std: array<f32>;
@group(0) @binding(3) var<uniform> gd: vec4<u32>;  // plane, batch, _, _

const THREADS: u32 = ${threads}u;
var<workgroup> sum_s: array<f32, ${threads}>;
var<workgroup> sum_q: array<f32, ${threads}>;

@compute @workgroup_size(${threads})
fn batch_moments(@builtin(workgroup_id) wid: vec3<u32>, @builtin(local_invocation_id) lid: vec3<u32>) {
    let plane = gd.x;
    let b = wid.x;
    if (b >= gd.y) { return; }
    let base = b * plane;
    var s = 0.0;
    var q = 0.0;
    for (var i = lid.x; i < plane; i = i + THREADS) {
        let v = X[base + i];
        s = s + v;
        q = q + v * v;
    }
    sum_s[lid.x] = s;
    sum_q[lid.x] = q;
    workgroupBarrier();
    for (var step = THREADS / 2u; step > 0u; step = step / 2u) {
        if (lid.x < step) {
            sum_s[lid.x] = sum_s[lid.x] + sum_s[lid.x + step];
            sum_q[lid.x] = sum_q[lid.x] + sum_q[lid.x + step];
        }
        workgroupBarrier();
    }
    if (lid.x == 0u) {
        let n = f32(plane);
        let mean = sum_s[0] / n;
        let variance = (sum_q[0] - mean * mean * n) / (n - 1.0);
        Mean[b] = mean;
        Std[b] = sqrt(max(variance, 0.0));
    }
}
"##;

/// Template of `batch_moments_partial`.
pub const BATCH_MOMENTS_PARTIAL: &'static str = r##"
@group(0) @binding(0) var<storage, read> X: array<f32>;
@group(0) @binding(1) var<storage, read_write> Partials: array<f32>;  // 2 per (batch, segment)
@group(0) @binding(2) var<uniform> gd: vec4<u32>;  // plane, segments, segment_len, batch

const THREADS: u32 = ${threads}u;
const ROW_GRID_X: u32 = ${grid_x}u;
var<workgroup> partial_sum: array<f32, ${threads}>;
var<workgroup> partial_sq: array<f32, ${threads}>;

@compute @workgroup_size(${threads})
fn batch_moments_partial(@builtin(workgroup_id) wid: vec3<u32>, @builtin(local_invocation_id) lid: vec3<u32>) {
    let plane = gd.x;
    let segments = gd.y;
    let segment_len = gd.z;
    let work = wid.x + wid.y * ROW_GRID_X;
    let b = work / segments;
    let segment = work % segments;
    if (b >= gd.w) { return; }

    let base = b * plane;
    let start = segment * segment_len;
    let end = min(start + segment_len, plane);
    var s = 0.0;
    var q = 0.0;
    for (var i = start + lid.x; i < end; i = i + THREADS) {
        let v = X[base + i];
        s = s + v;
        q = fma(v, v, q);
    }
    partial_sum[lid.x] = s;
    partial_sq[lid.x] = q;
    workgroupBarrier();
    for (var step = THREADS / 2u; step > 0u; step = step / 2u) {
        if (lid.x < step) {
            partial_sum[lid.x] = partial_sum[lid.x] + partial_sum[lid.x + step];
            partial_sq[lid.x] = partial_sq[lid.x] + partial_sq[lid.x + step];
        }
        workgroupBarrier();
    }
    if (lid.x == 0u) {
        Partials[work * 2u] = partial_sum[0];
        Partials[work * 2u + 1u] = partial_sq[0];
    }
}
"##;

/// Template of `batch_moments_combine`.
pub const BATCH_MOMENTS_COMBINE: &'static str = r##"
@group(0) @binding(0) var<storage, read> Partials: array<f32>;
@group(0) @binding(1) var<storage, read_write> Mean: array<f32>;
@group(0) @binding(2) var<storage, read_write> Std: array<f32>;
@group(0) @binding(3) var<uniform> gd: vec4<u32>;  // plane, batch, segments, _

const THREADS: u32 = ${threads}u;

@compute @workgroup_size(${threads})
fn batch_moments_combine(@builtin(workgroup_id) wid: vec3<u32>, @builtin(local_invocation_id) lid: vec3<u32>) {
    let b = wid.x * THREADS + lid.x;
    if (b >= gd.y) { return; }

    let plane = gd.x;
    let segments = gd.z;
    var s = 0.0;
    var q = 0.0;
    let first = b * segments * 2u;
    for (var i = 0u; i < segments; i = i + 1u) {
        s = s + Partials[first + i * 2u];
        q = q + Partials[first + i * 2u + 1u];
    }
    let n = f32(plane);
    let mean = s / n;
    let variance = (q - mean * mean * n) / (n - 1.0);
    Mean[b] = mean;
    Std[b] = sqrt(max(variance, 0.0));
}
"##;

/// Template of `batch_normalize_in_place`.
pub const BATCH_NORMALIZE_IN_PLACE: &'static str = r##"
@group(0) @binding(0) var<storage, read_write> Out: array<f32>;
@group(0) @binding(1) var<storage, read> Mean: array<f32>;
@group(0) @binding(2) var<storage, read> Std: array<f32>;
@group(0) @binding(3) var<uniform> gd: vec4<u32>;  // count, plane, _, _

const THREADS: u32 = ${threads}u;
const GRID_X: u32 = ${grid_x}u;

@compute @workgroup_size(${threads})
fn batch_normalize_in_place(@builtin(workgroup_id) wid: vec3<u32>, @builtin(local_invocation_id) lid: vec3<u32>) {
    let i = (wid.y * GRID_X + wid.x) * THREADS + lid.x;
    if (i >= gd.x) { return; }
    let b = i / gd.y;
    Out[i] = (Out[i] - Mean[b]) / (1e-5 + Std[b]);
}
"##;

/// Template of `istft_ola`.
pub const ISTFT_OLA: &'static str = r##"
@group(0) @binding(0) var<storage, read> Frames: array<f32>;
@group(0) @binding(1) var<storage, read> Win: array<f32>;
@group(0) @binding(2) var<storage, read_write> Out: array<f32>;
@group(0) @binding(3) var<uniform> gd: vec4<u32>;  // frames, hop, nfft, pad
@group(0) @binding(4) var<uniform> ge: vec4<u32>;  // length, packed_out, batch, _

const THREADS: u32 = ${threads}u;
const GRID_X: u32 = ${grid_x}u;

@compute @workgroup_size(${threads})
fn istft_ola(@builtin(workgroup_id) wid: vec3<u32>, @builtin(local_invocation_id) lid: vec3<u32>) {
    let i = (wid.y * GRID_X + wid.x) * THREADS + lid.x;
    let frames = gd.x;
    let hop = gd.y;
    let nfft = gd.z;
    let pad = gd.w;
    let length = ge.x;
    let packed_out = ge.y;
    let total = ge.z * packed_out * length;
    if (i >= total) { return; }

    let sample = i % length;
    let row = i / length;
    let ola_idx = sample + (nfft / 2u) + pad;
    let nfft_i = i32(nfft);
    let hop_i = i32(hop);
    let ola_i = i32(ola_idx);
    let pf_hi = ola_idx / hop;
    var pf_lo = 0u;
    if (ola_idx + hop > nfft) {
        pf_lo = (ola_idx + hop - nfft) / hop;
    }
    let padded_frames = frames + 4u;

    var acc = 0.0;
    var env = 0.0;
    for (var pf = pf_lo; pf <= pf_hi; pf++) {
        if (pf >= padded_frames) { continue; }
        let local_i = ola_i - i32(pf) * hop_i;
        if (local_i < 0 || local_i >= nfft_i) { continue; }
        let local = u32(local_i);
        let w = Win[local];
        env += w * w;
        if (pf >= 2u && pf < 2u + frames) {
            acc += Frames[(row * frames + (pf - 2u)) * nfft + local];
        }
    }
    Out[i] = select(0.0, acc / env, env > 0.0);
}
"##;

/// Template of `batch_affine_in_place`.
pub const BATCH_AFFINE_IN_PLACE: &'static str = r##"
@group(0) @binding(0) var<storage, read_write> Out: array<f32>;
@group(0) @binding(1) var<storage, read> Scale: array<f32>;
@group(0) @binding(2) var<storage, read> Shift: array<f32>;
@group(0) @binding(3) var<uniform> gd: vec4<u32>;  // count, plane, _, _

const THREADS: u32 = ${threads}u;
const GRID_X: u32 = ${grid_x}u;

@compute @workgroup_size(${threads})
fn batch_affine_in_place(@builtin(workgroup_id) wid: vec3<u32>, @builtin(local_invocation_id) lid: vec3<u32>) {
    let i = (wid.y * GRID_X + wid.x) * THREADS + lid.x;
    if (i >= gd.x) { return; }
    let plane = gd.y;
    let b = i / plane;
    Out[i] = Out[i] * Scale[b] + Shift[b];
}
"##;

/// One slot read of the warp normalisation.
pub const RMS_WARP_LOAD_LINE: &'static str = r##"    let x${k} = select(0.0, X[base + lane + ${k}u * LANES], lane + ${k}u * LANES < dim);
    sum = fma(x${k}, x${k}, sum);
"##;

/// One slot write of the warp normalisation.
pub const RMS_WARP_STORE_LINE: &'static str = r##"    let i${k} = lane + ${k}u * LANES;
    if (i${k} < pitch_out) {
        Out[obase + i${k}] = select(0.0, x${k} * factor * Gamma[i${k}], i${k} < dim);
    }
"##;

/// One slot read of the register softmax.
pub const SOFTMAX_LOAD_LINE: &'static str = r##"    let s${k} = select(-3.402823e38, X[base + lane + ${k}u * LANES] * scale,              lane + ${k}u * LANES < cols);
"##;

/// One slot of its maximum.
pub const SOFTMAX_MAX_LINE: &'static str = r##"    local_max = max(local_max, s${k});
"##;

/// One slot of its sum.
pub const SOFTMAX_EXP_LINE: &'static str = r##"    let e${k} = select(0.0, exp(s${k} - row_max), lane + ${k}u * LANES < cols);
                 local_sum = local_sum + e${k};
"##;

/// One slot write.
pub const SOFTMAX_STORE_LINE: &'static str = r##"    if (lane + ${k}u * LANES < pitch) {
                     X[base + lane + ${k}u * LANES] =              select(0.0, exp(s${k} - row_max) * inv, lane + ${k}u * LANES < cols);
                 }
"##;

/// The initial state of one row.
pub const LSTM_ZERO_LINE: &'static str = r##"        h_state[${k}u * MAX_HIDDEN + i] = 0.0;
        c_state[${k}u * MAX_HIDDEN + i] = 0.0;
"##;

/// One row's accumulator.
pub const LSTM_ACC_LINE: &'static str = r##"            var acc${k}: f32 = 0.0;
"##;

/// One row's projected input.
pub const LSTM_LOAD_LINE: &'static str = r##"            if (row + ${k}u < rows) { acc${k} = Proj[((row + ${k}u) * time + t) * proj_pitch + gate] + B_hh[gate]; }
"##;

/// One row's multiply-add.
pub const LSTM_FMA_LINE: &'static str = r##"            acc${k} = fma(w, h_state[${k}u * MAX_HIDDEN + j], acc${k});
"##;

/// One row's gate.
pub const LSTM_STORE_LINE: &'static str = r##"            gates[${k}u * gate_count + gate] = acc${k};
"##;

/// One resident weight.
pub const LSTM_REG_LOAD_LINE: &'static str = r##"    w[${k}u] = W_hh[(j0 + ${k}u) * GATES + gate];
"##;

/// One resident weight's multiply-adds.
pub const LSTM_REG_DOT_LINE: &'static str = r##"        let h0_${k} = h_state[j0 + ${k}u];
                     let h1_${k} = h_state[MAX_HIDDEN + j0 + ${k}u];
                     acc0 = fma(w[${k}u], h0_${k}, acc0);
                     acc1 = fma(w[${k}u], h1_${k}, acc1);
"##;

/// One link of a multiply-add chain.
pub const FMA_PROBE_LINE: &'static str = r##"        acc${k} = fma(acc${k}, mul${k}, 1e-9);
"##;

} // verus!
