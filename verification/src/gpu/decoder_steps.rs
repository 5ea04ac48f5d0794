//! The steps of one layer of a decoder, and that planning a layer records them.

use vstd::prelude::*;

use crate::gpu::conv_steps;
use crate::gpu::conv_steps::BranchCourse;
use crate::gpu::decoder;
use crate::gpu::decoder::GpuDec;
use crate::gpu::kernels::Kernels;
use crate::gpu::recorder;
use crate::gpu::recorder::Plan;
use crate::gpu::score;
use crate::gpu::score::Step;
use crate::gpu::shapes::Col2ImShape;
use crate::gpu::stages;
use crate::gpu::tensor::TensorView;
use crate::text;

verus! {

// ------------------------------------------------------------------------- layers

/// The course of one layer: the tensors it makes, where its first convolution gathers,
/// and the course of its residual branch.
pub struct LayerCourse {
    pub w: Seq<TensorView>,
    pub room: TensorView,
    pub branch: BranchCourse,
}

/// A spectrogram layer on `x`, of `f` bins and `t` frames: the sum with `skip`, the
/// convolution and the gating, the residual branch over every bin's signal, the upsampling
/// of the bins, the crop of a quarter of the kernel at both ends, and the activation but
/// in the last. The tensors are the convolution, the gating, its bins in front, the branch's
/// channels in front, the upsampling, its padded rows and taps, and the crop, which is the
/// result.
#[verifier::opaque]
pub open spec fn decodes_bins(
    k: Kernels,
    layer: GpuDec,
    x: TensorView,
    skip: TensorView,
    stride: usize,
    batch: usize,
    c: LayerCourse,
    last: bool,
) -> Seq<Step> {
    let f = x.shape[2];
    let t = x.shape[3];
    let half = (layer.rewrite.out_channels / 2) as usize;
    let rows = (batch * f) as usize;
    let oc = layer.conv_tr.out_channels;
    let kernel = layer.conv_tr.kernel.0;
    let tall = ((f - 1) * stride + kernel) as usize;
    let kept = ((f - 1) * stride + kernel - 2 * (kernel / 4)) as usize;
    let n = layer.dconv.layers@.len();
    let gated = TensorView { buffer: c.w[1].buffer, offset: 0, shape: seq![batch, half, f, t] };
    let branched = c.branch.x[n as int];
    seq![score::sum_into(x, skip)] + conv_steps::convolution_of(
        k,
        layer.rewrite,
        x,
        c.room,
        c.w[0],
    ) + seq![score::gate(c.w[0], c.w[1], batch as int, (half * f * t) as usize as int)] + seq![
        score::exchange(gated, c.w[2], batch as int, half as int, f as int, t as int),
    ] + conv_steps::branch_steps(k, layer.dconv.layers@, rows, t, c.branch, n) + seq![
        score::exchange(
            branched,
            c.w[3],
            batch as int,
            f as int,
            branched.shape[1] as int,
            branched.shape[2] as int,
        ),
    ] + conv_steps::upsamples(
        layer.conv_tr,
        c.w[3],
        c.w[5],
        c.w[6],
        c.w[4],
        Col2ImShape {
            batch,
            in_channels: layer.conv_tr.in_channels,
            out_channels: oc,
            in_h: f,
            in_w: t,
            kernel: layer.conv_tr.kernel,
            stride: (stride, 1),
        },
    ) + seq![
        score::crop(
            c.w[4],
            c.w[7],
            (batch * oc) as usize as int,
            (tall * t) as usize as int,
            kept as int,
            t as int,
            (kernel / 4) as usize as int,
        ),
    ] + (if last {
        score::silence()
    } else {
        seq![score::activate(c.w[7])]
    })
}

/// The tensors a spectrogram layer makes, in order.
pub open spec fn bins_made(layer: GpuDec, c: LayerCourse) -> Seq<TensorView> {
    seq![c.w[0], c.w[1], c.w[2]] + conv_steps::branch_made(
        c.branch,
        layer.dconv.layers@.len(),
    ) + seq![c.w[3], c.w[4], c.w[5], c.w[6], c.w[7]]
}

/// A waveform layer on `x`: as a spectrogram layer, on one signal per segment, cropped to
/// `length` samples. The tensors are the convolution, the gating, the upsampling, its padded
/// rows and taps, and the crop, which is the result.
#[verifier::opaque]
pub open spec fn decodes_samples(
    k: Kernels,
    layer: GpuDec,
    x: TensorView,
    skip: TensorView,
    stride: usize,
    batch: usize,
    length: usize,
    c: LayerCourse,
    last: bool,
) -> Seq<Step> {
    let samples = x.shape[2];
    let half = (layer.rewrite.out_channels / 2) as usize;
    let oc = layer.conv_tr.out_channels;
    let kernel = layer.conv_tr.kernel.1;
    let long = ((samples - 1) * stride + kernel) as usize;
    let n = layer.dconv.layers@.len();
    seq![score::sum_into(x, skip)] + conv_steps::convolution_of(
        k,
        layer.rewrite,
        x,
        c.room,
        c.w[0],
    ) + seq![score::gate(c.w[0], c.w[1], batch as int, (half * samples) as usize as int)]
        + conv_steps::branch_steps(k, layer.dconv.layers@, batch, samples, c.branch, n)
        + conv_steps::upsamples(
        layer.conv_tr,
        c.branch.x[n as int],
        c.w[3],
        c.w[4],
        c.w[2],
        Col2ImShape {
            batch,
            in_channels: layer.conv_tr.in_channels,
            out_channels: oc,
            in_h: 1,
            in_w: samples,
            kernel: (1, kernel),
            stride: (1, stride),
        },
    ) + seq![
        score::crop(
            c.w[2],
            c.w[5],
            (batch * oc) as usize as int,
            long as int,
            length as int,
            1,
            (kernel / 4) as usize as int,
        ),
    ] + (if last {
        score::silence()
    } else {
        seq![score::activate(c.w[5])]
    })
}

/// The tensors a waveform layer makes, in order.
pub open spec fn samples_made(layer: GpuDec, c: LayerCourse) -> Seq<TensorView> {
    seq![c.w[0], c.w[1]] + conv_steps::branch_made(c.branch, layer.dconv.layers@.len()) + seq![
        c.w[2],
        c.w[3],
        c.w[4],
        c.w[5],
    ]
}


#[verifier::rlimit(100)]
pub proof fn lemma_decodes_bins(
    k: Kernels,
    s: Plan,
    scratch: TensorView,
    x: TensorView,
    skip: TensorView,
    layer: GpuDec,
    stride: usize,
    batch: usize,
    index: nat,
    last: bool,
) -> (c: LayerCourse)
    ensures
        c.w.len() == 8,
        ({
            let n = layer.dconv.layers@.len();
            conv_steps::is_branch(c.branch, n, c.w[2], c.branch.x[n as int])
        }),
        ({
            let (r, room, y) = decoder::freq_layer_plan(
                k,
                s,
                scratch,
                x,
                skip,
                layer,
                stride,
                batch,
                index,
                last,
            );
            &&& y == c.w[7]
            &&& score::runs(
                s,
                r,
                decodes_bins(k, layer, x, skip, stride, batch, c, last),
                bins_made(layer, c),
            )
        }),
{
    reveal(decoder::freq_layer_plan);
    reveal(decodes_bins);
    let a0 = score::silence();
    let l0 = score::nothing();
    score::lemma_stay(s);
    let name = "decoder."@ + text::decimal(index);
    let f = x.shape[2];
    let t = x.shape[3];
    let wide = layer.rewrite.out_channels;
    let half = (wide / 2) as usize;
    let rows = (batch * f) as usize;
    let oc = layer.conv_tr.out_channels;
    let kh = layer.conv_tr.kernel.0;
    let tall = ((f - 1) * stride + kh) as usize;
    let kept = decoder::bins_after(f as int, stride as int, kh as int) as usize;
    let full = (half * f * t) as usize;
    let shape = seq![batch, half, f, t];
    let n = layer.dconv.layers@.len();
    let s1 = k.add_in_place_plan(s, x, skip);
    score::lemma_sum_into(k, s, x, skip);
    score::lemma_step(s, s, s1, a0, l0, seq![score::sum_into(x, skip)]);
    let a1 = a0 + seq![score::sum_into(x, skip)];
    assert(a1 =~= seq![score::sum_into(x, skip)]);
    let w0 = s1.fresh(seq![batch, wide, f, t]);
    let t1 = s1.tensor(seq![batch, wide, f, t], name + ".rewrite"@);
    score::lemma_tensor(s1, seq![batch, wide, f, t], name + ".rewrite"@);
    score::lemma_made(s, s1, t1, a1, l0, w0);
    let l2 = l0.push(w0);
    let (s2, room) = stages::conv_stage_plan(k, t1, scratch, x, layer.rewrite, w0);
    let conv = conv_steps::convolution_of(k, layer.rewrite, x, room, w0);
    conv_steps::lemma_convolution(k, t1, scratch, x, layer.rewrite, w0);
    score::lemma_step(s, t1, s2, a1, l2, conv);
    let a3 = a1 + conv;
    let s3 = s2.trace(name + ".rewrite"@, w0);
    score::lemma_trace(s2, name + ".rewrite"@, name + ".rewrite"@, w0);
    score::lemma_silent(s, s2, s3, a3, l2);
    let w1 = s3.fresh(seq![batch, full]);
    let g1 = k.glu_plan(s3, w0, batch, full);
    score::lemma_gate(k, s3, w0, batch, full);
    score::lemma_then(
        s,
        s3,
        g1,
        a3,
        l2,
        seq![score::gate(w0, w1, batch as int, full as int)],
        seq![w1],
    );
    let a4 = a3 + seq![score::gate(w0, w1, batch as int, full as int)];
    let l4 = l2 + seq![w1];
    let s4 = g1.reshape(w1, shape);
    score::lemma_reshape(g1, w1, shape);
    score::lemma_silent(s, g1, s4, a4, l4);
    let gated = recorder::reshaped(w1, shape);
    assert(gated == (TensorView { buffer: w1.buffer, offset: 0, shape }));
    let w2 = s4.fresh(seq![rows, half, t]);
    let t4 = s4.tensor(seq![rows, half, t], name + ".perm"@);
    score::lemma_tensor(s4, seq![rows, half, t], name + ".perm"@);
    score::lemma_made(s, s4, t4, a4, l4, w2);
    let l5 = l4.push(w2);
    let s5 = k.transpose_plan(t4, gated, w2, batch, half, f, t);
    score::lemma_exchange(k, t4, gated, w2, batch, half, f, t);
    score::lemma_step(
        s,
        t4,
        s5,
        a4,
        l5,
        seq![score::exchange(gated, w2, batch as int, half as int, f as int, t as int)],
    );
    let a6 = a4 + seq![score::exchange(gated, w2, batch as int, half as int, f as int, t as int)];
    assert(s5 == stages::channels_to_leading_freq_plan(k, t4, gated, w2)) by {
        reveal(stages::channels_to_leading_freq_plan);
    }
    let branch = conv_steps::law_every_branch_layer_applies_its_own_weights(
        k,
        s5,
        room,
        w2,
        layer.dconv.layers@,
        rows,
        t,
        n,
    );
    let (s6, room2, branched) = stages::dconv_stage_plan(
        k,
        s5,
        room,
        w2,
        layer.dconv.layers@,
        rows,
        t,
        n,
    );
    score::lemma_then(
        s,
        s5,
        s6,
        a6,
        l5,
        conv_steps::branch_steps(k, layer.dconv.layers@, rows, t, branch, n),
        conv_steps::branch_made(branch, n),
    );
    let a7 = a6 + conv_steps::branch_steps(k, layer.dconv.layers@, rows, t, branch, n);
    let l7 = l5 + conv_steps::branch_made(branch, n);
    let s7 = s6.trace(name + ".dconv"@, branched);
    score::lemma_trace(s6, name + ".dconv"@, name + ".dconv"@, branched);
    score::lemma_silent(s, s6, s7, a7, l7);
    let w3 = s7.fresh(shape);
    let t7 = s7.tensor(shape, name + ".unperm"@);
    score::lemma_tensor(s7, shape, name + ".unperm"@);
    score::lemma_made(s, s7, t7, a7, l7, w3);
    let l8 = l7.push(w3);
    let deep = branched.shape[1];
    let across = branched.shape[2];
    let s8 = k.transpose_plan(t7, branched, w3, batch, f, deep, across);
    score::lemma_exchange(k, t7, branched, w3, batch, f, deep, across);
    score::lemma_step(
        s,
        t7,
        s8,
        a7,
        l8,
        seq![score::exchange(branched, w3, batch as int, f as int, deep as int, across as int)],
    );
    let a9 = a7 + seq![
        score::exchange(branched, w3, batch as int, f as int, deep as int, across as int),
    ];
    assert(s8 == stages::leading_freq_to_channels_plan(k, t7, branched, w3)) by {
        reveal(stages::leading_freq_to_channels_plan);
    }
    let w4 = s8.fresh(seq![batch, oc, tall, t]);
    let t8 = s8.tensor(seq![batch, oc, tall, t], name + ".up"@);
    score::lemma_tensor(s8, seq![batch, oc, tall, t], name + ".up"@);
    score::lemma_made(s, s8, t8, a9, l8, w4);
    let l10 = l8.push(w4);
    let grid = decoder::freq_upsample(layer, batch, f, t, stride);
    let (w5, w6) = conv_steps::lemma_upsamples(k, t8, w3, layer.conv_tr, w4, grid, "dec"@, index);
    let u1 = decoder::upsample_stage_plan(k, t8, w3, layer.conv_tr, w4, grid, "dec"@, index);
    score::lemma_then(
        s,
        t8,
        u1,
        a9,
        l10,
        conv_steps::upsamples(layer.conv_tr, w3, w5, w6, w4, grid),
        seq![w5, w6],
    );
    let a11 = a9 + conv_steps::upsamples(layer.conv_tr, w3, w5, w6, w4, grid);
    let l11 = l10 + seq![w5, w6];
    let s9 = u1.trace(name + ".conv_tr"@, w4);
    score::lemma_trace(u1, name + ".conv_tr"@, name + ".conv_tr"@, w4);
    score::lemma_silent(s, u1, s9, a11, l11);
    let w7 = s9.fresh(seq![batch, oc, kept, t]);
    let t9 = s9.tensor(seq![batch, oc, kept, t], name + ".crop"@);
    score::lemma_tensor(s9, seq![batch, oc, kept, t], name + ".crop"@);
    score::lemma_made(s, s9, t9, a11, l11, w7);
    let l12 = l11.push(w7);
    let images = (batch * oc) as usize;
    let plane = (tall * t) as usize;
    let from = (kh / 4) as usize;
    let s10 = k.crop_rows_into_plan(t9, w4, w7, images, plane, kept, t, from);
    score::lemma_crop(k, t9, w4, w7, images, plane, kept, t, from);
    score::lemma_step(
        s,
        t9,
        s10,
        a11,
        l12,
        seq![score::crop(w4, w7, images as int, plane as int, kept as int, t as int, from as int)],
    );
    let a13 = a11 + seq![
        score::crop(w4, w7, images as int, plane as int, kept as int, t as int, from as int),
    ];
    let act = if last { score::silence() } else { seq![score::activate(w7)] };
    let s11 = if last { s10 } else { k.gelu_in_place_plan(s10, w7) };
    score::lemma_activate(k, s10, w7);
    score::lemma_stay(s10);
    score::lemma_step(s, s10, s11, a13, l12, act);
    let a14 = a13 + act;
    let s12 = s11.trace(name + "#0"@, w7);
    score::lemma_trace(s11, name + "#0"@, name + "#0"@, w7);
    score::lemma_silent(s, s11, s12, a14, l12);
    let c = LayerCourse { w: seq![w0, w1, w2, w3, w4, w5, w6, w7], room, branch };
    assert(a14 =~= decodes_bins(k, layer, x, skip, stride, batch, c, last));
    assert(l12 =~= bins_made(layer, c));
    c
}


#[verifier::rlimit(100)]
pub proof fn lemma_decodes_samples(
    k: Kernels,
    s: Plan,
    scratch: TensorView,
    x: TensorView,
    skip: TensorView,
    layer: GpuDec,
    stride: usize,
    batch: usize,
    length: usize,
    index: nat,
    last: bool,
) -> (c: LayerCourse)
    ensures
        c.w.len() == 6,
        ({
            let n = layer.dconv.layers@.len();
            let half = (layer.rewrite.out_channels / 2) as usize;
            conv_steps::is_branch(
                c.branch,
                n,
                (TensorView {
                    buffer: c.w[1].buffer,
                    offset: 0,
                    shape: seq![batch, half, x.shape[2]],
                }),
                c.branch.x[n as int],
            )
        }),
        ({
            let (r, room, y) = decoder::time_layer_plan(
                k,
                s,
                scratch,
                x,
                skip,
                layer,
                stride,
                batch,
                length,
                index,
                last,
            );
            &&& y == c.w[5]
            &&& score::runs(
                s,
                r,
                decodes_samples(k, layer, x, skip, stride, batch, length, c, last),
                samples_made(layer, c),
            )
        }),
{
    reveal(decoder::time_layer_plan);
    reveal(decodes_samples);
    let a0 = score::silence();
    let l0 = score::nothing();
    score::lemma_stay(s);
    let name = "tdecoder."@ + text::decimal(index);
    let samples = x.shape[2];
    let wide = layer.rewrite.out_channels;
    let half = (wide / 2) as usize;
    let oc = layer.conv_tr.out_channels;
    let kw = layer.conv_tr.kernel.1;
    let long = ((samples - 1) * stride + kw) as usize;
    let full = (half * samples) as usize;
    let shape = seq![batch, half, samples];
    let n = layer.dconv.layers@.len();
    let s1 = k.add_in_place_plan(s, x, skip);
    score::lemma_sum_into(k, s, x, skip);
    score::lemma_step(s, s, s1, a0, l0, seq![score::sum_into(x, skip)]);
    let a1 = a0 + seq![score::sum_into(x, skip)];
    assert(a1 =~= seq![score::sum_into(x, skip)]);
    let w0 = s1.fresh(seq![batch, wide, samples]);
    let t1 = s1.tensor(seq![batch, wide, samples], name + ".rewrite"@);
    score::lemma_tensor(s1, seq![batch, wide, samples], name + ".rewrite"@);
    score::lemma_made(s, s1, t1, a1, l0, w0);
    let l2 = l0.push(w0);
    let (s2, room) = stages::conv_stage_plan(k, t1, scratch, x, layer.rewrite, w0);
    let conv = conv_steps::convolution_of(k, layer.rewrite, x, room, w0);
    conv_steps::lemma_convolution(k, t1, scratch, x, layer.rewrite, w0);
    score::lemma_step(s, t1, s2, a1, l2, conv);
    let a3 = a1 + conv;
    let w1 = s2.fresh(seq![batch, full]);
    let g1 = k.glu_plan(s2, w0, batch, full);
    score::lemma_gate(k, s2, w0, batch, full);
    score::lemma_then(
        s,
        s2,
        g1,
        a3,
        l2,
        seq![score::gate(w0, w1, batch as int, full as int)],
        seq![w1],
    );
    let a4 = a3 + seq![score::gate(w0, w1, batch as int, full as int)];
    let l4 = l2 + seq![w1];
    let s3 = g1.reshape(w1, shape);
    score::lemma_reshape(g1, w1, shape);
    score::lemma_silent(s, g1, s3, a4, l4);
    let gated = recorder::reshaped(w1, shape);
    assert(gated == (TensorView { buffer: w1.buffer, offset: 0, shape }));
    let branch = conv_steps::law_every_branch_layer_applies_its_own_weights(
        k,
        s3,
        room,
        gated,
        layer.dconv.layers@,
        batch,
        samples,
        n,
    );
    let (s4, room2, branched) = stages::dconv_stage_plan(
        k,
        s3,
        room,
        gated,
        layer.dconv.layers@,
        batch,
        samples,
        n,
    );
    score::lemma_then(
        s,
        s3,
        s4,
        a4,
        l4,
        conv_steps::branch_steps(k, layer.dconv.layers@, batch, samples, branch, n),
        conv_steps::branch_made(branch, n),
    );
    let a5 = a4 + conv_steps::branch_steps(k, layer.dconv.layers@, batch, samples, branch, n);
    let l5 = l4 + conv_steps::branch_made(branch, n);
    let w2 = s4.fresh(seq![batch, oc, 1, long]);
    let t4 = s4.tensor(seq![batch, oc, 1, long], name + ".up"@);
    score::lemma_tensor(s4, seq![batch, oc, 1, long], name + ".up"@);
    score::lemma_made(s, s4, t4, a5, l5, w2);
    let l6 = l5.push(w2);
    let grid = decoder::time_upsample(layer, batch, samples, stride);
    let (w3, w4) = conv_steps::lemma_upsamples(
        k,
        t4,
        branched,
        layer.conv_tr,
        w2,
        grid,
        "tdec"@,
        index,
    );
    let s5 = decoder::upsample_stage_plan(k, t4, branched, layer.conv_tr, w2, grid, "tdec"@, index);
    score::lemma_then(
        s,
        t4,
        s5,
        a5,
        l6,
        conv_steps::upsamples(layer.conv_tr, branched, w3, w4, w2, grid),
        seq![w3, w4],
    );
    let a7 = a5 + conv_steps::upsamples(layer.conv_tr, branched, w3, w4, w2, grid);
    let l7 = l6 + seq![w3, w4];
    let w5 = s5.fresh(seq![batch, oc, length]);
    let t5 = s5.tensor(seq![batch, oc, length], name + ".crop"@);
    score::lemma_tensor(s5, seq![batch, oc, length], name + ".crop"@);
    score::lemma_made(s, s5, t5, a7, l7, w5);
    let l8 = l7.push(w5);
    let images = (batch * oc) as usize;
    let from = (kw / 4) as usize;
    let s6 = k.crop_rows_into_plan(t5, w2, w5, images, long, length, 1, from);
    score::lemma_crop(k, t5, w2, w5, images, long, length, 1, from);
    score::lemma_step(
        s,
        t5,
        s6,
        a7,
        l8,
        seq![score::crop(w2, w5, images as int, long as int, length as int, 1, from as int)],
    );
    let a9 = a7 + seq![
        score::crop(w2, w5, images as int, long as int, length as int, 1, from as int),
    ];
    let act = if last { score::silence() } else { seq![score::activate(w5)] };
    let s7 = if last { s6 } else { k.gelu_in_place_plan(s6, w5) };
    score::lemma_activate(k, s6, w5);
    score::lemma_stay(s6);
    score::lemma_step(s, s6, s7, a9, l8, act);
    let a10 = a9 + act;
    let s8 = s7.trace(name + "#0"@, w5);
    score::lemma_trace(s7, name + "#0"@, name + "#0"@, w5);
    score::lemma_silent(s, s7, s8, a10, l8);
    let c = LayerCourse { w: seq![w0, w1, w2, w3, w4, w5], room, branch };
    assert(a10 =~= decodes_samples(k, layer, x, skip, stride, batch, length, c, last));
    assert(l8 =~= samples_made(layer, c));
    c
}

} // verus!