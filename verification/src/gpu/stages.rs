//! The model's building blocks: one convolution, one residual branch, one
//! normalisation, one projection.
//!
//! Each block has a plan, a function from the pass so far to the pass after it, and
//! the executable form follows it. A block that makes tensors also says which.

use vstd::prelude::*;
use vstd::string::*;

use crate::gpu::arith;
use crate::gpu::convolution;
use crate::gpu::kernels;
use crate::gpu::kernels::Kernels;
use crate::gpu::pass::Pass;
use crate::gpu::recorder;
use crate::gpu::recorder::Plan;
use crate::gpu::shaders;
use crate::gpu::shapes::{Activation, GemmJob, GroupNormShape, Im2ColShape};
use crate::gpu::tensor;
use crate::gpu::tensor::{DevTensor, TensorView};
use crate::text;

verus! {

/// Bit pattern of the normalisations' epsilon, 1e-5.
pub const NORM_EPS: u32 = 0x3727c5ac;

/// Patch rows one gather of a residual branch covers at most, so that its grid
/// stays inside one axis.
pub const GATHER_ROWS: usize = 60000;

// ---------------------------------------------------------------------- weights

/// A convolution on the device: weights `(pad(oc), pad(ic * kh * kw))`.
#[derive(Debug)]
pub struct GpuConv {
    pub weight: DevTensor,
    pub bias: DevTensor,
    pub in_channels: usize,
    pub out_channels: usize,
    pub kernel: (usize, usize),
    pub stride: (usize, usize),
    pub pad: (usize, usize),
}

impl GpuConv {
    pub open spec fn wf(&self) -> bool {
        self.weight.wf() && self.bias.wf()
    }

    /// The convolution of a `(batch, in_channels, h, w)` input.
    pub open spec fn shape_spec(self, batch: usize, h: usize, w: usize) -> Im2ColShape {
        Im2ColShape {
            batch,
            in_channels: self.in_channels,
            h,
            w,
            kernel: self.kernel,
            stride: self.stride,
            pad: self.pad,
        }
    }

    pub fn shape(&self, batch: usize, h: usize, w: usize) -> (r: Im2ColShape)
        ensures
            r == self.shape_spec(batch, h, w),
    {
        Im2ColShape {
            batch,
            in_channels: self.in_channels,
            h,
            w,
            kernel: self.kernel,
            stride: self.stride,
            pad: self.pad,
        }
    }
}

/// A transposed convolution on the device: rows `(oc, ky, kx)` by input channels.
#[derive(Debug)]
pub struct GpuConvT {
    pub weight: DevTensor,
    pub bias: DevTensor,
    pub in_channels: usize,
    pub out_channels: usize,
    pub kernel: (usize, usize),
    pub stride: (usize, usize),
}

impl GpuConvT {
    pub open spec fn wf(&self) -> bool {
        self.weight.wf() && self.bias.wf()
    }
}

/// One layer of a residual branch: convolution, norm, activation, 1x1 convolution,
/// norm, gate, scale.
#[derive(Debug)]
pub struct GpuDConvLayer {
    /// Widened by its dilation.
    pub conv1: GpuConv,
    pub conv2_ones: DevTensor,
    pub norm1_scale: DevTensor,
    pub norm1_shift: DevTensor,
    pub conv2: GpuConv,
    pub norm2_scale: DevTensor,
    pub norm2_shift: DevTensor,
    pub gamma: DevTensor,
    pub gamma_zero: DevTensor,
    pub channels: usize,
    pub hidden: usize,
}

impl GpuDConvLayer {
    pub open spec fn wf(&self) -> bool {
        &&& self.conv1.wf()
        &&& self.conv2_ones.wf()
        &&& self.norm1_scale.wf()
        &&& self.norm1_shift.wf()
        &&& self.conv2.wf()
        &&& self.norm2_scale.wf()
        &&& self.norm2_shift.wf()
        &&& self.gamma.wf()
        &&& self.gamma_zero.wf()
    }
}

/// A residual branch.
#[derive(Debug)]
pub struct GpuDConv {
    pub layers: Vec<GpuDConvLayer>,
}

impl GpuDConv {
    pub open spec fn wf(&self) -> bool {
        forall|i: int| 0 <= i < self.layers@.len() ==> (#[trigger] self.layers@[i]).wf()
    }
}

/// A projection on the device: weights `(pad(out), pad(in))`.
#[derive(Debug)]
pub struct GpuProj {
    pub weight: DevTensor,
    pub bias: DevTensor,
    pub out_features: usize,
    pub in_features: usize,
}

impl GpuProj {
    pub open spec fn wf(&self) -> bool {
        self.weight.wf() && self.bias.wf()
    }
}

/// A normalisation's parameters.
#[derive(Debug)]
pub struct LayerNorm {
    pub scale: DevTensor,
    pub shift: DevTensor,
    pub dim: usize,
}

impl LayerNorm {
    pub open spec fn wf(&self) -> bool {
        self.scale.wf() && self.shift.wf()
    }
}

// --------------------------------------------------------------------- scratch

/// A plan and the scratch tensor it leaves.
pub open spec fn grown(s: Plan, scratch: TensorView, needed: int, label: Seq<char>) -> (
    Plan,
    TensorView,
) {
    if scratch.len() >= needed {
        (s, scratch)
    } else {
        (s.allocate((4 * needed) as nat, label), s.fresh(seq![needed as usize]))
    }
}

/// Replaces `scratch` when `needed` elements would not fit.
pub fn scratch_for(pass: &mut Pass, scratch: &mut DevTensor, needed: usize, label: &str)
    requires
        old(scratch).wf(),
        recorder::roundable((4 * needed) as nat),
    ensures
        final(scratch).wf(),
        (final(pass)@, final(scratch)@) == grown(
            old(pass)@,
            old(scratch)@,
            needed as int,
            label@,
        ),
        final(scratch)@.len() >= needed,
{
    if scratch.len() >= needed {
        return ;
    }
    *scratch = pass.allocate((needed * 4) as u64, label);
}

// ---------------------------------------------------------------- convolutions

/// The convolution of a 4-axis image, or of a 3-axis signal as an image of height 1.
pub open spec fn conv_shape(conv: GpuConv, x: TensorView) -> Im2ColShape {
    if x.shape.len() == 4 {
        conv.shape_spec(x.shape[0], x.shape[2], x.shape[3])
    } else {
        conv.shape_spec(x.shape[0], 1, x.shape[2])
    }
}

/// Whether a convolution of a geometry can be planned.
pub open spec fn conv_plannable(k: Kernels, shape: Im2ColShape, out_channels: usize) -> bool {
    &&& convolution::conv_fits(shape, out_channels)
    &&& shape.input_fits()
    &&& recorder::roundable((4 * shape.patch_len()) as nat)
    &&& k.conv_is_general(shape, out_channels) ==> shape.batch >= 1
}

#[verifier::opaque]
pub open spec fn conv_stage_plan(
    k: Kernels,
    s: Plan,
    scratch: TensorView,
    x: TensorView,
    conv: GpuConv,
    out: TensorView,
) -> (Plan, TensorView) {
    let shape = conv_shape(conv, x);
    let (ready, room) = grown(s, scratch, shape.patch_len(), "conv.scratch"@);
    (
        k.conv2d_into_plan(
            ready,
            x,
            conv.weight@,
            Some(conv.bias@),
            room,
            out,
            shape,
            conv.out_channels,
        ),
        room,
    )
}

/// One convolution with its bias, over as many images as the leading axis says.
pub fn conv_stage(
    k: &Kernels,
    pass: &mut Pass,
    scratch: &mut DevTensor,
    x: &DevTensor,
    conv: &GpuConv,
    out: &DevTensor,
)
    requires
        old(scratch).wf(),
        x.wf(),
        conv.wf(),
        out.wf(),
        x.shape@.len() == 3 || x.shape@.len() == 4,
        conv_plannable(*k, conv_shape(*conv, x@), conv.out_channels),
    ensures
        final(scratch).wf(),
        (final(pass)@, final(scratch)@) == conv_stage_plan(
            *k,
            old(pass)@,
            old(scratch)@,
            x@,
            *conv,
            out@,
        ),
{
    proof {
        reveal(conv_stage_plan);
    }
    let shape = if x.shape.len() == 4 {
        conv.shape(x.shape[0], x.shape[2], x.shape[3])
    } else {
        conv.shape(x.shape[0], 1, x.shape[2])
    };
    let needed: usize = shape.batch * arith::pad_ceil(shape.k(), shaders::BK) * arith::pad_ceil(
        shape.positions(),
        shaders::BN,
    );
    scratch_for(pass, scratch, needed, "conv.scratch");
    pass.conv2d_into(
        k,
        x,
        &conv.weight,
        Some(&conv.bias),
        scratch,
        out,
        shape,
        conv.out_channels,
    );
}

/// `(batch, c, f, t)` to `(batch, f, c, t)`.
#[verifier::opaque]
pub open spec fn channels_to_leading_freq_plan(
    k: Kernels,
    s: Plan,
    x: TensorView,
    out: TensorView,
) -> Plan {
    k.transpose_plan(s, x, out, x.shape[0], x.shape[1], x.shape[2], x.shape[3])
}

/// Swaps the channel and frequency axes: `(batch, c, f, t)` to `(batch, f, c, t)`.
pub fn channels_to_leading_freq(k: &Kernels, pass: &mut Pass, x: &DevTensor, out: &DevTensor)
    requires
        x.wf(),
        out.wf(),
        x.shape@.len() == 4,
    ensures
        final(pass)@ == channels_to_leading_freq_plan(*k, old(pass)@, x@, out@),
{
    proof {
        reveal(channels_to_leading_freq_plan);
    }
    proof {
        lemma_four_axes(x.shape@);
    }
    pass.transpose(k, x, out, x.shape[0], x.shape[1], x.shape[2], x.shape[3]);
}

/// The partial products of a countable shape's axes fit a word.
proof fn lemma_four_axes(shape: Seq<usize>)
    requires
        shape.len() == 4,
        tensor::countable(shape),
    ensures
        shape[0] * shape[1] <= usize::MAX,
        shape[0] * shape[1] * shape[2] <= usize::MAX,
        shape[0] * shape[1] * shape[2] * shape[3] <= usize::MAX,
{
    assert(tensor::elements(shape.take(2)) <= usize::MAX);
    assert(tensor::elements(shape.take(3)) <= usize::MAX);
    assert(tensor::elements(shape.take(4)) <= usize::MAX);
    assert(shape.take(4) =~= shape);
    tensor::lemma_axes_2(shape.take(2));
    tensor::lemma_axes_3(shape.take(3));
    tensor::lemma_axes_4(shape);
}

#[verifier::opaque]
pub open spec fn leading_freq_to_channels_plan(
    k: Kernels,
    s: Plan,
    x: TensorView,
    out: TensorView,
) -> Plan {
    k.transpose_plan(s, x, out, out.shape[0], out.shape[2], x.shape[1], x.shape[2])
}

/// The inverse of [`channels_to_leading_freq`]: `x` is `(batch * f, c, t)`, `out` is
/// `(batch, c, f, t)`.
pub fn leading_freq_to_channels(k: &Kernels, pass: &mut Pass, x: &DevTensor, out: &DevTensor)
    requires
        x.wf(),
        out.wf(),
        x.shape@.len() == 3,
        out.shape@.len() == 4,
        out.shape@[0] * out.shape@[2] <= usize::MAX,
        out.shape@[0] * out.shape@[2] * x.shape@[1] <= usize::MAX,
        out.shape@[0] * out.shape@[2] * x.shape@[1] * x.shape@[2] <= usize::MAX,
    ensures
        final(pass)@ == leading_freq_to_channels_plan(*k, old(pass)@, x@, out@),
{
    proof {
        reveal(leading_freq_to_channels_plan);
    }
    pass.transpose(k, x, out, out.shape[0], out.shape[2], x.shape[1], x.shape[2]);
}

// ------------------------------------------------------------- residual branches

/// The convolution of a branch: every row is a signal of its own.
pub open spec fn branch_shape(conv: GpuConv, rows: usize, time: usize) -> Im2ColShape {
    Im2ColShape {
        batch: rows,
        in_channels: conv.in_channels,
        h: 1,
        w: time,
        kernel: conv.kernel,
        stride: (1, 1),
        pad: conv.pad,
    }
}

/// Width of a branch's patch rows.
pub open spec fn branch_pitch(time: usize) -> int {
    arith::padded(time as int, shaders::BN as int)
}

/// Elements of a branch's patch matrix.
pub open spec fn branch_plane(conv: GpuConv, rows: usize, time: usize) -> int {
    rows * branch_shape(conv, rows, time).k_pad() * branch_pitch(time)
}

/// Rows one gather takes.
pub open spec fn chunk_rows(k_pad: int) -> int {
    arith::at_least_one(GATHER_ROWS as int / arith::at_least_one(k_pad))
}

/// The gathers of the rows from `row` on.
pub open spec fn gathers_plan(
    k: Kernels,
    s: Plan,
    x: TensorView,
    scratch: TensorView,
    conv: GpuConv,
    rows: usize,
    time: usize,
    row: int,
) -> Plan
    decreases rows - row,
{
    if row >= rows {
        s
    } else {
        let most = chunk_rows(branch_shape(conv, rows, time).k_pad());
        let span = if most < rows - row {
            most
        } else {
            rows - row
        };
        gathers_plan(
            k,
            k.conv2d_gather_rows_into_plan(
                s,
                x,
                scratch,
                branch_shape(conv, span as usize, time),
                row as usize,
                branch_pitch(time) as usize,
            ),
            x,
            scratch,
            conv,
            rows,
            time,
            row + span,
        )
    }
}

/// Whether the gathers of a branch can be counted.
pub open spec fn gathers_fit(conv: GpuConv, rows: usize, time: usize) -> bool {
    let full = branch_shape(conv, rows, time);
    &&& full.patches_fit()
    &&& full.input_fits()
    &&& branch_pitch(time) <= usize::MAX
    &&& branch_plane(conv, rows, time) <= usize::MAX
}

/// A run of a branch's rows can be counted where all of them can.
proof fn lemma_run_fits(conv: GpuConv, rows: usize, time: usize, row: int, span: int)
    requires
        gathers_fit(conv, rows, time),
        0 <= row,
        0 <= span,
        row + span <= rows,
    ensures
        Kernels::gather_rows_fit(
            branch_shape(conv, span as usize, time),
            row as usize,
            branch_pitch(time) as usize,
        ),
{
    let full = branch_shape(conv, rows, time);
    let part = branch_shape(conv, span as usize, time);
    let last = row + span;
    let n = rows as int;
    let kp = full.k_pad();
    let ic = conv.in_channels as int;
    let w = time as int;
    convolution::lemma_k_positive(full);
    arith::law_padding(full.k_spec(), 16);
    arith::law_padding(full.positions_spec(), 128);
    arith::law_padding(w, 128);
    assert(part.k_pad() == kp && part.pitch() == full.pitch());
    arith::lemma_mul_le(span, n, kp);
    arith::lemma_mul_le(last, n, kp);
    arith::lemma_mul_le(span * kp, n * kp, full.pitch());
    arith::lemma_mul_le(last * kp, n * kp, branch_pitch(time));
    arith::lemma_mul_le(span, n, ic);
    arith::lemma_mul_le(last, n, ic);
    assert(n * ic * 1 == n * ic);
    assert(span * ic * 1 == span * ic);
    arith::lemma_mul_le(span * ic, n * ic, w);
    arith::lemma_mul_le(last * ic, n * ic, w);
}

fn gathers(
    k: &Kernels,
    pass: &mut Pass,
    x: &DevTensor,
    scratch: &DevTensor,
    conv: &GpuConv,
    rows: usize,
    time: usize,
)
    requires
        x.wf(),
        scratch.wf(),
        gathers_fit(*conv, rows, time),
    ensures
        final(pass)@ == gathers_plan(*k, old(pass)@, x@, scratch@, *conv, rows, time, 0),
{
    proof {
        convolution::lemma_k_positive(branch_shape(*conv, rows, time));
    }
    let k_pad: usize = arith::pad_ceil(
        conv.in_channels * conv.kernel.0 * conv.kernel.1,
        shaders::BK,
    );
    let pitch: usize = arith::pad_ceil(time, shaders::BN);
    let most: usize = arith::at_least_one_of(GATHER_ROWS / arith::at_least_one_of(k_pad));
    let mut row: usize = 0;
    while row < rows
        invariant
            row <= rows,
            x.wf(),
            scratch.wf(),
            gathers_fit(*conv, rows, time),
            k_pad == branch_shape(*conv, rows, time).k_pad(),
            pitch == branch_pitch(time),
            most == chunk_rows(k_pad as int),
            most >= 1,
            gathers_plan(*k, pass@, x@, scratch@, *conv, rows, time, row as int) == gathers_plan(
                *k,
                old(pass)@,
                x@,
                scratch@,
                *conv,
                rows,
                time,
                0,
            ),
        decreases rows - row,
    {
        let span: usize = if most < rows - row {
            most
        } else {
            rows - row
        };
        proof {
            lemma_run_fits(*conv, rows, time, row as int, span as int);
        }
        let shape = Im2ColShape {
            batch: span,
            in_channels: conv.in_channels,
            h: 1,
            w: time,
            kernel: conv.kernel,
            stride: (1, 1),
            pad: conv.pad,
        };
        pass.conv2d_gather_rows_into(k, x, scratch, shape, row, pitch);
        row += span;
    }
}

/// The normalisation of `rows` planes of `(channels, time)`.
pub open spec fn plane_norm_spec(rows: usize, channels: usize, time: usize) -> GroupNormShape {
    GroupNormShape {
        rows,
        groups: 1,
        per_group: channels,
        len: time,
        row_stride: (channels * time) as usize,
        len_stride: 1,
        channel_stride: time,
        eps: NORM_EPS,
    }
}

fn plane_norm(rows: usize, channels: usize, time: usize) -> (r: GroupNormShape)
    requires
        channels * time <= usize::MAX,
    ensures
        r == plane_norm_spec(rows, channels, time),
{
    GroupNormShape {
        rows,
        groups: 1,
        per_group: channels,
        len: time,
        row_stride: channels * time,
        len_stride: 1,
        channel_stride: time,
        eps: NORM_EPS,
    }
}

/// Whether a normalisation can be planned.
pub open spec fn normable(shape: GroupNormShape) -> bool {
    shape.empty() || shape.fits() && Kernels::group_scratch_fits(shape)
}

/// The second product of a branch layer: one per row.
pub open spec fn branch_job(layer: GpuDConvLayer, rows: usize, time: usize) -> GemmJob {
    GemmJob {
        m: (2 * layer.channels) as usize,
        n: time,
        k: layer.hidden,
        lda: arith::padded(layer.hidden as int, shaders::BK as int) as usize,
        ldb: time,
        ldc: time,
        batches: rows,
        inner_count: 1,
        a_outer: 0,
        a_inner: 0,
        b_outer: (layer.hidden * time) as usize,
        b_inner: 0,
        c_outer: (2 * layer.channels * time) as usize,
        c_inner: 0,
        transb: false,
    }
}

/// Whether a layer of a branch can be planned.
pub open spec fn branch_plannable(
    k: Kernels,
    layer: GpuDConvLayer,
    rows: usize,
    time: usize,
) -> bool {
    let wide = (2 * layer.channels) as usize;
    &&& gathers_fit(layer.conv1, rows, time)
    &&& recorder::roundable((4 * branch_plane(layer.conv1, rows, time)) as nat)
    &&& convolution::conv_fits(branch_shape(layer.conv1, rows, time), layer.hidden)
    &&& k.conv_is_general(branch_shape(layer.conv1, rows, time), layer.hidden) ==> rows >= 1
    &&& recorder::askable(seq![rows, layer.hidden, time])
    &&& layer.hidden * time <= usize::MAX
    &&& normable(plane_norm_spec(rows, layer.hidden, time))
    &&& 2 * layer.channels <= usize::MAX
    &&& recorder::askable(seq![rows, wide, time])
    &&& wide * time <= usize::MAX
    &&& arith::padded(layer.hidden as int, shaders::BK as int) <= usize::MAX
    &&& !k.settings.conv2_probe ==> kernels::product_fits(branch_job(layer, rows, time))
    &&& normable(plane_norm_spec(rows, wide, time))
    &&& layer.channels * time <= usize::MAX
    &&& recorder::askable(seq![rows, (layer.channels * time) as usize])
    &&& recorder::askable(seq![rows, layer.channels, time])
}

/// First part of a layer: the widened convolution, over every row in one product.
#[verifier::opaque]
pub open spec fn branch_conv1_plan(
    k: Kernels,
    s: Plan,
    scratch: TensorView,
    x: TensorView,
    layer: GpuDConvLayer,
    rows: usize,
    time: usize,
    name: Seq<char>,
) -> (Plan, TensorView, TensorView) {
    let out = s.fresh(seq![rows, layer.hidden, time]);
    let asked = s.tensor(seq![rows, layer.hidden, time], name + ".conv1"@);
    let (ready, room) = grown(
        asked,
        scratch,
        branch_plane(layer.conv1, rows, time),
        "dconv.scratch"@,
    );
    let gathered = gathers_plan(k, ready, x, room, layer.conv1, rows, time, 0);
    let multiplied = k.conv2d_gemm_into_plan(
        gathered,
        layer.conv1.weight@,
        x,
        room,
        out,
        branch_shape(layer.conv1, rows, time),
        layer.hidden,
        Some(layer.conv1.bias@),
    );
    (multiplied.trace(name + ".conv1"@, out), room, out)
}

fn branch_conv1(
    k: &Kernels,
    pass: &mut Pass,
    scratch: &mut DevTensor,
    x: &DevTensor,
    layer: &GpuDConvLayer,
    rows: usize,
    time: usize,
    name: &str,
) -> (r: DevTensor)
    requires
        old(scratch).wf(),
        x.wf(),
        layer.wf(),
        branch_plannable(*k, *layer, rows, time),
    ensures
        final(scratch).wf(),
        (final(pass)@, final(scratch)@, r@) == branch_conv1_plan(
            *k,
            old(pass)@,
            old(scratch)@,
            x@,
            *layer,
            rows,
            time,
            name@,
        ),
        r.wf(),
{
    proof {
        reveal(branch_conv1_plan);
    }
    let label = text::concat(name, ".conv1");
    let dims: Vec<usize> = vec![rows, layer.hidden, time];
    assert(dims@ =~= seq![rows, layer.hidden, time]);
    let out = pass.tensor(dims, label.as_str());
    proof {
        convolution::lemma_k_positive(branch_shape(layer.conv1, rows, time));
    }
    let k_pad: usize = arith::pad_ceil(
        layer.conv1.in_channels * layer.conv1.kernel.0 * layer.conv1.kernel.1,
        shaders::BK,
    );
    let needed: usize = rows * k_pad * arith::pad_ceil(time, shaders::BN);
    scratch_for(pass, scratch, needed, "dconv.scratch");
    gathers(k, pass, x, scratch, &layer.conv1, rows, time);
    let shape = Im2ColShape {
        batch: rows,
        in_channels: layer.conv1.in_channels,
        h: 1,
        w: time,
        kernel: layer.conv1.kernel,
        stride: (1, 1),
        pad: layer.conv1.pad,
    };
    pass.conv2d_gemm_into(
        k,
        &layer.conv1.weight,
        x,
        scratch,
        &out,
        shape,
        layer.hidden,
        Some(&layer.conv1.bias),
    );
    pass.trace(label, &out);
    out
}

/// Second part of a layer: norm, activation, the 1x1 convolution as one product per
/// row, and its bias.
#[verifier::opaque]
pub open spec fn branch_conv2_plan(
    k: Kernels,
    s: Plan,
    x: TensorView,
    layer: GpuDConvLayer,
    rows: usize,
    time: usize,
    name: Seq<char>,
) -> (Plan, TensorView) {
    let wide = (2 * layer.channels) as usize;
    let normed = s.fresh(seq![rows, layer.hidden, time]);
    let s1 = k.group_norm_into_plan(
        s.tensor(seq![rows, layer.hidden, time], name + ".norm1"@),
        x,
        layer.norm1_scale@,
        layer.norm1_shift@,
        normed,
        plane_norm_spec(rows, layer.hidden, time),
    );
    let s2 = k.gelu_in_place_plan(s1, normed).trace(name + ".norm1"@, normed);
    let out = s2.fresh(seq![rows, wide, time]);
    let s3 = s2.tensor(seq![rows, wide, time], name + ".conv2"@);
    let s4 = if k.settings.conv2_probe {
        k.copy_plan(s3, normed, out, normed.len() as usize)
    } else {
        k.gemm_into_plan(s3, layer.conv2.weight@, normed, out, branch_job(layer, rows, time))
    };
    let s5 = k.channel_affine_act_in_place_plan(
        s4.trace(name + ".norm1.after"@, normed),
        out,
        layer.conv2_ones@,
        layer.conv2.bias@,
        rows,
        wide,
        time,
        Activation::Identity,
    );
    (s5.trace(name + ".conv2"@, out), out)
}

fn branch_conv2(
    k: &Kernels,
    pass: &mut Pass,
    x: &DevTensor,
    layer: &GpuDConvLayer,
    rows: usize,
    time: usize,
    name: &str,
) -> (r: DevTensor)
    requires
        x.wf(),
        layer.wf(),
        branch_plannable(*k, *layer, rows, time),
    ensures
        (final(pass)@, r@) == branch_conv2_plan(*k, old(pass)@, x@, *layer, rows, time, name@),
        r.wf(),
{
    proof {
        reveal(branch_conv2_plan);
    }
    let norm1 = text::concat(name, ".norm1");
    let conv2 = text::concat(name, ".conv2");
    let dims: Vec<usize> = vec![rows, layer.hidden, time];
    assert(dims@ =~= seq![rows, layer.hidden, time]);
    let normed = pass.tensor(dims, norm1.as_str());
    pass.group_norm_into(
        k,
        x,
        &layer.norm1_scale,
        &layer.norm1_shift,
        &normed,
        plane_norm(rows, layer.hidden, time),
    );
    pass.gelu_in_place(k, &normed);
    pass.trace(norm1, &normed);
    let channels: usize = layer.channels * 2;
    let dims: Vec<usize> = vec![rows, channels, time];
    proof {
        assert(dims@ =~= seq![rows, channels, time]);
        tensor::lemma_axes_3(dims@);
        lemma_three_axes(dims@);
    }
    let out = pass.tensor(dims, conv2.as_str());
    if k.settings.conv2_probe {
        let count: usize = normed.len();
        pass.copy(k, &normed, &out, count);
    } else {
        let job = GemmJob {
            m: channels,
            n: time,
            k: layer.hidden,
            lda: arith::pad_ceil(layer.hidden, shaders::BK),
            ldb: time,
            ldc: time,
            batches: rows,
            inner_count: 1,
            a_outer: 0,
            a_inner: 0,
            b_outer: layer.hidden * time,
            b_inner: 0,
            c_outer: channels * time,
            c_inner: 0,
            transb: false,
        };
        assert(job == branch_job(*layer, rows, time));
        pass.gemm_into(k, &layer.conv2.weight, &normed, &out, job);
    }
    pass.trace(text::concat(name, ".norm1.after"), &normed);
    pass.channel_affine_act_in_place(
        k,
        &out,
        &layer.conv2_ones,
        &layer.conv2.bias,
        rows,
        channels,
        time,
        Activation::Identity,
    );
    pass.trace(conv2, &out);
    out
}

/// The partial products of a countable shape's axes fit a word.
pub proof fn lemma_three_axes(shape: Seq<usize>)
    requires
        shape.len() == 3,
        tensor::countable(shape),
    ensures
        shape[0] * shape[1] <= usize::MAX,
        shape[0] * shape[1] * shape[2] <= usize::MAX,
        tensor::elements(shape) == shape[0] * shape[1] * shape[2],
{
    assert(tensor::elements(shape.take(2)) <= usize::MAX);
    assert(tensor::elements(shape.take(3)) <= usize::MAX);
    assert(shape.take(3) =~= shape);
    tensor::lemma_axes_2(shape.take(2));
    tensor::lemma_axes_3(shape);
}

/// Third part of a layer: norm, gate, scale, and the sum with what went in.
#[verifier::opaque]
pub open spec fn branch_close_plan(
    k: Kernels,
    s: Plan,
    x: TensorView,
    current: TensorView,
    layer: GpuDConvLayer,
    rows: usize,
    time: usize,
    name: Seq<char>,
) -> (Plan, TensorView) {
    let wide = (2 * layer.channels) as usize;
    let half = (layer.channels * time) as usize;
    let normed = s.fresh(seq![rows, wide, time]);
    let s1 = k.group_norm_into_plan(
        s.tensor(seq![rows, wide, time], name + ".norm2"@),
        x,
        layer.norm2_scale@,
        layer.norm2_shift@,
        normed,
        plane_norm_spec(rows, wide, time),
    );
    let gated = s1.fresh(seq![rows, half]);
    let s2 = k.glu_plan(s1, normed, rows, half).trace(name + ".glu"@, gated);
    let s3 = k.channel_affine_act_in_place_plan(
        s2,
        gated,
        layer.gamma@,
        layer.gamma_zero@,
        rows,
        layer.channels,
        time,
        Activation::Identity,
    ).trace(name + ".out"@, gated).trace(name + ".scaled"@, gated);
    let next = s3.fresh(seq![rows, layer.channels, time]);
    let s4 = k.copy_plan(
        s3.tensor(seq![rows, layer.channels, time], name + ".add"@),
        current,
        next,
        current.len() as usize,
    ).trace(name + ".residual"@, next);
    (k.add_in_place_plan(s4, next, gated).trace(name + ".added"@, next), next)
}

fn branch_close(
    k: &Kernels,
    pass: &mut Pass,
    x: &DevTensor,
    current: &DevTensor,
    layer: &GpuDConvLayer,
    rows: usize,
    time: usize,
    name: &str,
) -> (r: DevTensor)
    requires
        x.wf(),
        current.wf(),
        layer.wf(),
        branch_plannable(*k, *layer, rows, time),
    ensures
        (final(pass)@, r@) == branch_close_plan(
            *k,
            old(pass)@,
            x@,
            current@,
            *layer,
            rows,
            time,
            name@,
        ),
        r.wf(),
        r@.shape == seq![rows, layer.channels, time],
{
    proof {
        reveal(branch_close_plan);
    }
    let channels: usize = layer.channels * 2;
    let half: usize = layer.channels * time;
    let wide_dims: Vec<usize> = vec![rows, channels, time];
    let dims: Vec<usize> = vec![rows, layer.channels, time];
    proof {
        assert(wide_dims@ =~= seq![rows, channels, time]);
        assert(dims@ =~= seq![rows, layer.channels, time]);
        lemma_three_axes(dims@);
        tensor::lemma_axes_2(seq![rows, half]);
        assert(rows * (layer.channels * time) == rows * layer.channels * time) by (nonlinear_arith);
    }
    let normed = pass.tensor(wide_dims, text::concat(name, ".norm2").as_str());
    pass.group_norm_into(
        k,
        x,
        &layer.norm2_scale,
        &layer.norm2_shift,
        &normed,
        plane_norm(rows, channels, time),
    );
    let gated = pass.glu(k, &normed, rows, half);
    pass.trace(text::concat(name, ".glu"), &gated);
    pass.channel_affine_act_in_place(
        k,
        &gated,
        &layer.gamma,
        &layer.gamma_zero,
        rows,
        layer.channels,
        time,
        Activation::Identity,
    );
    pass.trace(text::concat(name, ".out"), &gated);
    pass.trace(text::concat(name, ".scaled"), &gated);
    let next = pass.tensor(dims, text::concat(name, ".add").as_str());
    let count: usize = current.len();
    pass.copy(k, current, &next, count);
    pass.trace(text::concat(name, ".residual"), &next);
    pass.add_in_place(k, &next, &gated);
    pass.trace(text::concat(name, ".added"), &next);
    next
}

/// The first `depth` layers of a residual branch: the pass, the scratch and the
/// tensor they leave.
pub open spec fn dconv_stage_plan(
    k: Kernels,
    s: Plan,
    scratch: TensorView,
    input: TensorView,
    layers: Seq<GpuDConvLayer>,
    rows: usize,
    time: usize,
    depth: nat,
) -> (Plan, TensorView, TensorView)
    decreases depth,
{
    if depth == 0 {
        (s, scratch, input)
    } else {
        let (before, room, current) = dconv_stage_plan(
            k,
            s,
            scratch,
            input,
            layers,
            rows,
            time,
            (depth - 1) as nat,
        );
        let layer = layers[depth - 1];
        let name = "dconv."@ + text::decimal((depth - 1) as nat);
        let (s1, room1, wide) = branch_conv1_plan(
            k,
            before,
            room,
            current,
            layer,
            rows,
            time,
            name,
        );
        let (s2, mixed) = branch_conv2_plan(k, s1, wide, layer, rows, time, name);
        let (s3, next) = branch_close_plan(k, s2, mixed, current, layer, rows, time, name);
        (s3, room1, next)
    }
}

/// The axes of what a branch leaves.
pub open spec fn branched_shape(
    input: Seq<usize>,
    layers: Seq<GpuDConvLayer>,
    rows: usize,
    time: usize,
) -> Seq<usize> {
    if layers.len() == 0 {
        input
    } else {
        seq![rows, layers.last().channels, time]
    }
}

/// Whether every layer of a branch can be planned.
pub open spec fn dconv_plannable(
    k: Kernels,
    layers: Seq<GpuDConvLayer>,
    rows: usize,
    time: usize,
) -> bool {
    forall|i: int|
        0 <= i < layers.len() ==> branch_plannable(k, #[trigger] layers[i], rows, time)
}

/// A residual branch on a `(rows, channels, time)` tensor. The sum accumulates over
/// the layers: each adds to what the one before it left.
pub fn dconv_stage(
    k: &Kernels,
    pass: &mut Pass,
    scratch: &mut DevTensor,
    input: &DevTensor,
    dconv: &GpuDConv,
    rows: usize,
    time: usize,
) -> (r: DevTensor)
    requires
        old(scratch).wf(),
        input.wf(),
        dconv.wf(),
        dconv_plannable(*k, dconv.layers@, rows, time),
    ensures
        final(scratch).wf(),
        (final(pass)@, final(scratch)@, r@) == dconv_stage_plan(
            *k,
            old(pass)@,
            old(scratch)@,
            input@,
            dconv.layers@,
            rows,
            time,
            dconv.layers@.len(),
        ),
        r.wf(),
        r@.shape == branched_shape(input@.shape, dconv.layers@, rows, time),
{
    let mut current = input.clone();
    let mut depth: usize = 0;
    while depth < dconv.layers.len()
        invariant
            depth <= dconv.layers@.len(),
            scratch.wf(),
            current.wf(),
            dconv.wf(),
            dconv_plannable(*k, dconv.layers@, rows, time),
            (pass@, scratch@, current@) == dconv_stage_plan(
                *k,
                old(pass)@,
                old(scratch)@,
                input@,
                dconv.layers@,
                rows,
                time,
                depth as nat,
            ),
            current@.shape == branched_shape(
                input@.shape,
                dconv.layers@.take(depth as int),
                rows,
                time,
            ),
        decreases dconv.layers@.len() - depth,
    {
        proof {
            assert(dconv.layers@.take(depth as int + 1).last() == dconv.layers@[depth as int]);
        }
        let layer = &dconv.layers[depth];
        let name = text::concat_number("dconv.", depth);
        let wide = branch_conv1(k, pass, scratch, &current, layer, rows, time, name.as_str());
        let mixed = branch_conv2(k, pass, &wide, layer, rows, time, name.as_str());
        current = branch_close(k, pass, &mixed, &current, layer, rows, time, name.as_str());
        depth += 1;
    }
    assert(dconv.layers@.take(depth as int) =~= dconv.layers@);
    current
}

// -------------------------------------------------------------- normalisations

/// The normalisation of every token over its own features.
pub open spec fn token_norm(dim: usize, tokens: usize) -> GroupNormShape {
    GroupNormShape {
        rows: tokens,
        groups: 1,
        per_group: dim,
        len: 1,
        row_stride: dim,
        len_stride: 1,
        channel_stride: 1,
        eps: NORM_EPS,
    }
}

#[verifier::opaque]
pub open spec fn layer_norm_stage_plan(
    k: Kernels,
    s: Plan,
    x: TensorView,
    out: TensorView,
    norm: LayerNorm,
    tokens: usize,
) -> Plan {
    k.group_norm_into_plan(s, x, norm.scale@, norm.shift@, out, token_norm(norm.dim, tokens))
}

/// Normalises every row of `(tokens, dim)` over its features: one group of `dim`
/// channels of length 1.
pub fn layer_norm_stage(
    k: &Kernels,
    pass: &mut Pass,
    x: &DevTensor,
    out: &DevTensor,
    norm: &LayerNorm,
    tokens: usize,
)
    requires
        x.wf(),
        out.wf(),
        norm.wf(),
        normable(token_norm(norm.dim, tokens)),
    ensures
        final(pass)@ == layer_norm_stage_plan(*k, old(pass)@, x@, out@, *norm, tokens),
{
    proof {
        reveal(layer_norm_stage_plan);
    }
    let shape = GroupNormShape {
        rows: tokens,
        groups: 1,
        per_group: norm.dim,
        len: 1,
        row_stride: norm.dim,
        len_stride: 1,
        channel_stride: 1,
        eps: NORM_EPS,
    };
    pass.group_norm_into(k, x, &norm.scale, &norm.shift, out, shape);
}

/// The normalisation of every segment's whole `(dim, tokens)` plane.
pub open spec fn segment_norm(dim: usize, tokens: usize, batch: usize) -> GroupNormShape {
    let per_segment = (tokens / batch) as usize;
    GroupNormShape {
        rows: batch,
        groups: 1,
        per_group: dim,
        len: per_segment,
        row_stride: (dim * per_segment) as usize,
        len_stride: dim,
        channel_stride: 1,
        eps: NORM_EPS,
    }
}

#[verifier::opaque]
pub open spec fn group_norm_positions_stage_plan(
    k: Kernels,
    s: Plan,
    x: TensorView,
    out: TensorView,
    norm: LayerNorm,
    tokens: usize,
    batch: usize,
) -> Plan {
    k.group_norm_into_plan(
        s,
        x,
        norm.scale@,
        norm.shift@,
        out,
        segment_norm(norm.dim, tokens, batch),
    )
}

/// Normalises every segment's plane of a `(batch * tokens, dim)` tensor as one group.
pub fn group_norm_positions_stage(
    k: &Kernels,
    pass: &mut Pass,
    x: &DevTensor,
    out: &DevTensor,
    norm: &LayerNorm,
    tokens: usize,
    batch: usize,
)
    requires
        x.wf(),
        out.wf(),
        norm.wf(),
        batch > 0,
        norm.dim * (tokens / batch) <= usize::MAX,
        normable(segment_norm(norm.dim, tokens, batch)),
    ensures
        final(pass)@ == group_norm_positions_stage_plan(
            *k,
            old(pass)@,
            x@,
            out@,
            *norm,
            tokens,
            batch,
        ),
{
    proof {
        reveal(group_norm_positions_stage_plan);
    }
    let per_segment: usize = tokens / batch;
    let shape = GroupNormShape {
        rows: batch,
        groups: 1,
        per_group: norm.dim,
        len: per_segment,
        row_stride: norm.dim * per_segment,
        len_stride: norm.dim,
        channel_stride: 1,
        eps: NORM_EPS,
    };
    pass.group_norm_into(k, x, &norm.scale, &norm.shift, out, shape);
}

// ----------------------------------------------------------------- projections

/// The product of a projection: the weights are read as `(out, in)`.
pub open spec fn proj_job(proj: GpuProj, tokens: usize) -> GemmJob {
    GemmJob {
        m: tokens,
        n: proj.out_features,
        k: proj.in_features,
        lda: proj.in_features,
        ldb: arith::padded(proj.in_features as int, shaders::BK as int) as usize,
        ldc: proj.out_features,
        batches: 1,
        inner_count: 1,
        a_outer: 0,
        a_inner: 0,
        b_outer: 0,
        b_inner: 0,
        c_outer: 0,
        c_inner: 0,
        transb: true,
    }
}

/// Whether a projection can be planned.
pub open spec fn proj_plannable(proj: GpuProj, tokens: usize) -> bool {
    &&& arith::padded(proj.in_features as int, shaders::BK as int) <= usize::MAX
    &&& kernels::product_fits(proj_job(proj, tokens))
    &&& tokens * proj.out_features <= usize::MAX
}

#[verifier::opaque]
pub open spec fn proj_stage_plan(
    k: Kernels,
    s: Plan,
    x: TensorView,
    proj: GpuProj,
    out: TensorView,
    tokens: usize,
    ones: TensorView,
) -> Plan {
    k.channel_affine_act_in_place_plan(
        k.gemm_into_plan(s, x, proj.weight@, out, proj_job(proj, tokens)),
        out,
        ones,
        proj.bias@,
        tokens,
        proj.out_features,
        1,
        Activation::Identity,
    )
}

/// A projection of every token, then its bias as an affine of scale one.
pub fn proj_stage(
    k: &Kernels,
    pass: &mut Pass,
    x: &DevTensor,
    proj: &GpuProj,
    out: &DevTensor,
    tokens: usize,
    ones: &DevTensor,
)
    requires
        x.wf(),
        proj.wf(),
        out.wf(),
        ones.wf(),
        proj_plannable(*proj, tokens),
    ensures
        final(pass)@ == proj_stage_plan(*k, old(pass)@, x@, *proj, out@, tokens, ones@),
{
    proof {
        reveal(proj_stage_plan);
    }
    let job = GemmJob {
        m: tokens,
        n: proj.out_features,
        k: proj.in_features,
        lda: proj.in_features,
        ldb: arith::pad_ceil(proj.in_features, shaders::BK),
        ldc: proj.out_features,
        batches: 1,
        inner_count: 1,
        a_outer: 0,
        a_inner: 0,
        b_outer: 0,
        b_inner: 0,
        c_outer: 0,
        c_inner: 0,
        transb: true,
    };
    pass.gemm_into(k, x, &proj.weight, out, job);
    assert(tokens * proj.out_features * 1 == tokens * proj.out_features);
    pass.channel_affine_act_in_place(
        k,
        out,
        ones,
        &proj.bias,
        tokens,
        proj.out_features,
        1,
        Activation::Identity,
    );
}

} // verus!
