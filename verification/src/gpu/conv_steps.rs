//! The steps of convolutions, upsamplings and residual branches, and that planning one
//! records them.

use vstd::prelude::*;

use crate::gpu::convolution;
use crate::gpu::decoder;
use crate::gpu::kernels::Kernels;
use crate::gpu::pipelines::Kernel;
use crate::gpu::recorder;
use crate::gpu::recorder::Plan;
use crate::gpu::score;
use crate::gpu::score::Step;
use crate::gpu::shaders;
use crate::gpu::shapes::{Activation, Col2ImShape, GemmJob, GroupNormShape, Im2ColShape};
use crate::gpu::stages;
use crate::gpu::stages::{GpuConv, GpuConvT, GpuDConvLayer};
use crate::gpu::arith;
use crate::gpu::tensor::TensorView;
use crate::gpu::upsample;
use crate::text;

verus! {

// ------------------------------------------------------------------- convolutions

/// A convolution, its patches gathered: the product of the weights with every image's
/// patches, or with the image itself where the device reads patches directly, then the
/// bias.
pub open spec fn convolves(
    k: Kernels,
    weight: TensorView,
    bias: TensorView,
    x: TensorView,
    patches: TensorView,
    out: TensorView,
    shape: Im2ColShape,
    out_channels: usize,
) -> Seq<Step> {
    let places = shape.out_h() * shape.out_w();
    let rows = shape.in_channels * shape.kernel.0 * shape.kernel.1;
    let job = GemmJob {
        m: out_channels,
        n: places as usize,
        k: rows as usize,
        lda: shape.k_pad() as usize,
        ldb: shape.pitch() as usize,
        ldc: places as usize,
        batches: shape.batch,
        inner_count: 1,
        a_outer: 0,
        a_inner: 0,
        b_outer: (shape.k_pad() * shape.pitch()) as usize,
        b_inner: 0,
        c_outer: (out_channels * places) as usize,
        c_inner: 0,
        transb: false,
    };
    let pixels = shape.in_channels * shape.h * shape.w;
    (if k.settings.conv_direct && shape.out_w() % shaders::BN as int == 0 {
        seq![
            score::direct(
                weight,
                score::image(x, shape.batch as int, pixels),
                score::image(out, shape.batch as int, job.m * job.n),
                GemmJob {
                    b_outer: if shape.batch > 1 {
                        pixels as usize
                    } else {
                        job.b_outer
                    },
                    ..job
                },
                shape,
            ),
        ]
    } else {
        score::product(weight, patches, out, job)
    }) + seq![
        score::bias_rows(
            out,
            bias,
            (shape.batch * out_channels) as usize as int,
            places as usize as int,
            out_channels as int,
        ),
    ]
}

#[verifier::rlimit(100)]
pub proof fn lemma_convolves(
    k: Kernels,
    s: Plan,
    weight: TensorView,
    bias: TensorView,
    x: TensorView,
    patches: TensorView,
    out: TensorView,
    shape: Im2ColShape,
    out_channels: usize,
)
    ensures
        score::runs(
            s,
            k.conv2d_gemm_into_plan(s, weight, x, patches, out, shape, out_channels, Some(bias)),
            convolves(k, weight, bias, x, patches, out, shape, out_channels),
            score::nothing(),
        ),
{
    let weight_len = arith::padded(out_channels as int, shaders::BM as int) * shape.k_pad();
    let wanted = shape.batch * out_channels * shape.positions_spec();
    let job = convolution::conv_job(shape, out_channels);
    let e1 = crate::error::Error::Shape(
        crate::error::Fault::ConvWeight { need: weight_len as usize, len: weight.len() as usize },
    );
    let e2 = crate::error::Error::Shape(
        crate::error::Fault::ConvTarget { need: wanted as usize, len: out.len() as usize },
    );
    let c1 = s.require(weight.len() >= weight_len, e1);
    let c2 = c1.require(out.len() >= wanted, e2);
    score::lemma_stay(s);
    score::lemma_require(s, weight.len() >= weight_len, e1);
    score::lemma_silent(s, s, c1, score::silence(), score::nothing());
    score::lemma_require(c1, out.len() >= wanted, e2);
    score::lemma_silent(s, c1, c2, score::silence(), score::nothing());
    let steps = convolves(k, weight, bias, x, patches, out, shape, out_channels);
    let rows = (shape.batch * out_channels) as usize;
    let places = shape.positions_spec() as usize;
    let last = seq![score::bias_rows(out, bias, rows as int, places as int, out_channels as int)];
    let first = steps.drop_last();
    let m = if k.conv_is_direct(shape) {
        k.gemm_conv_into_plan(c2, weight, x, out, job, shape, shape.batch > 1)
    } else if out_channels <= 64 && k.settings.bm64 {
        k.gemm_into_tile_plan(
            c2,
            weight,
            patches,
            out,
            job,
            if k.settings.coalesced_b {
                Kernel::GemmBatchedBm64Bn128Coalesced
            } else {
                Kernel::GemmBatchedBm64Bn128
            },
            (shaders::BM64, shaders::BN),
        )
    } else if out_channels <= 192 && k.settings.bm96 {
        k.gemm_into_tile_plan(
            c2,
            weight,
            patches,
            out,
            job,
            Kernel::GemmBatchedBm96Bn128,
            (shaders::BM96, shaders::BN),
        )
    } else {
        k.gemm_into_plan(c2, weight, patches, out, job)
    };
    assert(score::runs(c2, m, first, score::nothing())) by {
        if k.conv_is_direct(shape) {
            score::lemma_direct(k, c2, weight, x, out, job, shape);
            let its = GemmJob {
                b_outer: if shape.batch > 1 {
                    (shape.in_channels * shape.h * shape.w) as usize
                } else {
                    job.b_outer
                },
                ..job
            };
            assert(first =~= seq![
                score::direct(
                    weight,
                    score::image(
                        x,
                        shape.batch as int,
                        shape.in_channels * shape.h * shape.w,
                    ),
                    score::image(out, shape.batch as int, job.m * job.n),
                    its,
                    shape,
                ),
            ]);
        } else {
            assert(first =~= score::product(weight, patches, out, job));
            if out_channels <= 64 && k.settings.bm64 {
                score::lemma_tile(
                    k,
                    c2,
                    weight,
                    patches,
                    out,
                    job,
                    if k.settings.coalesced_b {
                        Kernel::GemmBatchedBm64Bn128Coalesced
                    } else {
                        Kernel::GemmBatchedBm64Bn128
                    },
                    (shaders::BM64, shaders::BN),
                );
            } else if out_channels <= 192 && k.settings.bm96 {
                score::lemma_tile(
                    k,
                    c2,
                    weight,
                    patches,
                    out,
                    job,
                    Kernel::GemmBatchedBm96Bn128,
                    (shaders::BM96, shaders::BN),
                );
            } else {
                score::lemma_product(k, c2, weight, patches, out, job);
            }
        }
    }
    score::lemma_step(s, c2, m, score::silence(), score::nothing(), first);
    score::lemma_bias_rows(k, m, out, bias, rows, places, out_channels);
    let r = k.conv2d_gemm_into_plan(s, weight, x, patches, out, shape, out_channels, Some(bias));
    score::lemma_step(s, m, r, score::silence() + first, score::nothing(), last);
    assert(score::silence() + first + last =~= steps);
}

/// The geometry of a convolution on an image of four axes, or on a signal of three.
pub open spec fn geometry(conv: GpuConv, x: TensorView) -> Im2ColShape {
    let signal = x.shape.len() != 4;
    Im2ColShape {
        batch: x.shape[0],
        in_channels: conv.in_channels,
        h: if signal {
            1
        } else {
            x.shape[2]
        },
        w: if signal {
            x.shape[2]
        } else {
            x.shape[3]
        },
        kernel: conv.kernel,
        stride: conv.stride,
        pad: conv.pad,
    }
}

/// A convolution of `x`: its patches are gathered into `room`, then multiplied.
pub open spec fn convolution_of(
    k: Kernels,
    conv: GpuConv,
    x: TensorView,
    room: TensorView,
    out: TensorView,
) -> Seq<Step> {
    let shape = geometry(conv, x);
    seq![
        score::gather(x, room, shape, shape.pitch() as usize as int, shape.k_pad() as usize as int),
    ] + convolves(k, conv.weight@, conv.bias@, x, room, out, shape, conv.out_channels)
}

proof fn lemma_grown(s: Plan, scratch: TensorView, needed: int, label: Seq<char>)
    ensures
        score::runs(
            s,
            stages::grown(s, scratch, needed, label).0,
            score::silence(),
            score::nothing(),
        ),
{
    if scratch.len() >= needed {
        score::lemma_stay(s);
    } else {
        let shape = seq![needed as usize];
        score::lemma_allocate(s, (4 * needed) as nat, label, shape);
        score::lemma_forget(
            s,
            s.allocate((4 * needed) as nat, label),
            score::silence(),
            seq![s.fresh(shape)],
        );
    }
}

pub proof fn lemma_convolution(
    k: Kernels,
    s: Plan,
    scratch: TensorView,
    x: TensorView,
    conv: GpuConv,
    out: TensorView,
)
    ensures
        ({
            let (r, room) = stages::conv_stage_plan(k, s, scratch, x, conv, out);
            score::runs(s, r, convolution_of(k, conv, x, room, out), score::nothing())
        }),
{
    reveal(stages::conv_stage_plan);
    let shape = stages::conv_shape(conv, x);
    let (ready, room) = stages::grown(s, scratch, shape.patch_len(), "conv.scratch"@);
    lemma_grown(s, scratch, shape.patch_len(), "conv.scratch"@);
    let m = k.conv2d_gather_into_plan(ready, x, room, shape);
    score::lemma_gather(k, ready, x, room, shape);
    let a = seq![
        score::gather(x, room, shape, shape.pitch() as usize as int, shape.k_pad() as usize as int),
    ];
    score::lemma_step(s, ready, m, score::silence(), score::nothing(), a);
    let b = convolves(k, conv.weight@, conv.bias@, x, room, out, shape, conv.out_channels);
    lemma_convolves(k, m, conv.weight@, conv.bias@, x, room, out, shape, conv.out_channels);
    let (r, same) = stages::conv_stage_plan(k, s, scratch, x, conv, out);
    score::lemma_step(s, m, r, score::silence() + a, score::nothing(), b);
    assert(score::silence() + a + b =~= a + b);
    assert(shape == geometry(conv, x));
}

// --------------------------------------------------------------- residual branches

/// The gathers of a branch's convolution from row `row` on: as many rows at once as a
/// launch takes, each row a signal of its own.
pub open spec fn gathers(
    conv: GpuConv,
    x: TensorView,
    room: TensorView,
    rows: usize,
    time: usize,
    row: int,
) -> Seq<Step>
    decreases rows - row,
{
    if row >= rows {
        score::silence()
    } else {
        let most = stages::chunk_rows(stages::branch_shape(conv, rows, time).k_pad());
        let span = if most < rows - row {
            most
        } else {
            rows - row
        };
        let shape = Im2ColShape {
            batch: span as usize,
            in_channels: conv.in_channels,
            h: 1,
            w: time,
            kernel: conv.kernel,
            stride: (1, 1),
            pad: conv.pad,
        };
        let wide = arith::padded(time as int, shaders::BN as int) as usize;
        let begin = row as usize;
        seq![
            score::gather(
                recorder::window(
                    x,
                    begin * conv.in_channels * time,
                    seq![shape.batch, conv.in_channels, time],
                ),
                recorder::window(
                    room,
                    begin * shape.k_pad() * wide,
                    seq![(shape.batch * shape.k_pad() * wide) as usize],
                ),
                shape,
                shape.pitch() as usize as int,
                shape.k_pad() as usize as int,
            ),
        ] + gathers(conv, x, room, rows, time, row + span)
    }
}

proof fn lemma_gathers(
    k: Kernels,
    s: Plan,
    x: TensorView,
    room: TensorView,
    conv: GpuConv,
    rows: usize,
    time: usize,
    row: int,
)
    ensures
        score::runs(
            s,
            stages::gathers_plan(k, s, x, room, conv, rows, time, row),
            gathers(conv, x, room, rows, time, row),
            score::nothing(),
        ),
    decreases rows - row,
{
    if row >= rows {
        score::lemma_stay(s);
    } else {
        let most = stages::chunk_rows(stages::branch_shape(conv, rows, time).k_pad());
        let span = if most < rows - row {
            most
        } else {
            rows - row
        };
        let shape = stages::branch_shape(conv, span as usize, time);
        let begin = row as usize;
        let pitch = stages::branch_pitch(time) as usize;
        let slab = seq![shape.batch, shape.in_channels, shape.w];
        let start = begin * shape.in_channels * shape.w;
        let block = seq![(shape.batch * shape.k_pad() * pitch) as usize];
        let place = begin * shape.k_pad() * pitch;
        let s1 = s.slice(x, start, slab);
        let s2 = s1.slice(room, place, block);
        let m = k.conv2d_gather_rows_into_plan(s, x, room, shape, begin, pitch);
        let wx = recorder::window(x, start, slab);
        let wr = recorder::window(room, place, block);
        let a = seq![
            score::gather(
                wx,
                wr,
                shape,
                shape.pitch() as usize as int,
                shape.k_pad() as usize as int,
            ),
        ];
        score::lemma_slice(s, x, start, slab);
        score::lemma_slice(s1, room, place, block);
        score::lemma_silent(s, s1, s2, score::silence(), score::nothing());
        score::lemma_gather(k, s2, wx, wr, shape);
        score::lemma_step(s, s2, m, score::silence(), score::nothing(), a);
        lemma_gathers(k, m, x, room, conv, rows, time, row + span);
        score::lemma_step(
            s,
            m,
            stages::gathers_plan(k, m, x, room, conv, rows, time, row + span),
            score::silence() + a,
            score::nothing(),
            gathers(conv, x, room, rows, time, row + span),
        );
        assert(score::silence() + a =~= a);
    }
}

/// Every plane of `(channels, time)` normalised over all its numbers.
pub open spec fn norms_planes(
    x: TensorView,
    scale: TensorView,
    shift: TensorView,
    out: TensorView,
    rows: usize,
    channels: usize,
    time: usize,
) -> Step {
    score::normalise(
        x,
        scale,
        shift,
        out,
        GroupNormShape {
            rows,
            groups: 1,
            per_group: channels,
            len: time,
            row_stride: (channels * time) as usize,
            len_stride: 1,
            channel_stride: time,
            eps: stages::NORM_EPS,
        },
    )
}

/// A layer of a residual branch on `x`: the widened convolution, norm and activation, the
/// convolution of width one with its bias, norm and gate, the layer's own scale, and the
/// sum with `x`. The tensors in between are the first convolution, its norm, the second
/// convolution, its norm, the gating, and the sum, which is the layer's result.
pub open spec fn branches(
    k: Kernels,
    layer: GpuDConvLayer,
    x: TensorView,
    room: TensorView,
    rows: usize,
    time: usize,
    w: Seq<TensorView>,
) -> Seq<Step> {
    let wide = (2 * layer.channels) as usize;
    gathers(layer.conv1, x, room, rows, time, 0) + convolves(
        k,
        layer.conv1.weight@,
        layer.conv1.bias@,
        x,
        room,
        w[0],
        Im2ColShape {
            batch: rows,
            in_channels: layer.conv1.in_channels,
            h: 1,
            w: time,
            kernel: layer.conv1.kernel,
            stride: (1, 1),
            pad: layer.conv1.pad,
        },
        layer.hidden,
    ) + seq![
        norms_planes(
            w[0],
            layer.norm1_scale@,
            layer.norm1_shift@,
            w[1],
            rows,
            layer.hidden,
            time,
        ),
    ] + seq![score::activate(w[1])] + (if k.settings.conv2_probe {
        seq![score::copy(w[1], w[2], w[1].len() as usize as int)]
    } else {
        score::product(
            layer.conv2.weight@,
            w[1],
            w[2],
            GemmJob {
                m: wide,
                n: time,
                k: layer.hidden,
                lda: arith::padded(layer.hidden as int, shaders::BK as int) as usize,
                ldb: time,
                ldc: time,
                batches: rows,
                inner_count: 1,
                a_outer: 0,
                a_inner: 0,
                b_outer: (layer.hidden * time) as usize,
                b_inner: 0,
                c_outer: (2 * layer.channels * time) as usize,
                c_inner: 0,
                transb: false,
            },
        )
    }) + seq![
        score::rescale(
            w[2],
            layer.conv2_ones@,
            layer.conv2.bias@,
            rows as int,
            wide as int,
            time as int,
        ),
    ] + seq![
        norms_planes(w[2], layer.norm2_scale@, layer.norm2_shift@, w[3], rows, wide, time),
    ] + seq![
        score::gate(w[3], w[4], rows as int, (layer.channels * time) as usize as int),
    ] + seq![
        score::rescale(
            w[4],
            layer.gamma@,
            layer.gamma_zero@,
            rows as int,
            layer.channels as int,
            time as int,
        ),
    ] + seq![score::copy(x, w[5], x.len() as usize as int)] + seq![score::sum_into(w[5], w[4])]
}


proof fn lemma_branch_open(
    k: Kernels,
    s: Plan,
    scratch: TensorView,
    x: TensorView,
    layer: GpuDConvLayer,
    rows: usize,
    time: usize,
    name: Seq<char>,
)
    ensures
        ({
            let (r, room, y) = stages::branch_conv1_plan(
                k,
                s,
                scratch,
                x,
                layer,
                rows,
                time,
                name,
            );
            score::runs(
                s,
                r,
                gathers(layer.conv1, x, room, rows, time, 0) + convolves(
                    k,
                    layer.conv1.weight@,
                    layer.conv1.bias@,
                    x,
                    room,
                    y,
                    stages::branch_shape(layer.conv1, rows, time),
                    layer.hidden,
                ),
                seq![y],
            )
        }),
{
    reveal(stages::branch_conv1_plan);
    let a0 = score::silence();
    let l0 = score::nothing();
    score::lemma_stay(s);
    let w0 = s.fresh(seq![rows, layer.hidden, time]);
    let t0 = s.tensor(seq![rows, layer.hidden, time], name + ".conv1"@);
    score::lemma_tensor(s, seq![rows, layer.hidden, time], name + ".conv1"@);
    score::lemma_made(s, s, t0, a0, l0, w0);
    let l1 = l0.push(w0);
    let needed = stages::branch_plane(layer.conv1, rows, time);
    let (ready, room) = stages::grown(t0, scratch, needed, "dconv.scratch"@);
    lemma_grown(t0, scratch, needed, "dconv.scratch"@);
    score::lemma_silent(s, t0, ready, a0, l1);
    let m0 = stages::gathers_plan(k, ready, x, room, layer.conv1, rows, time, 0);
    lemma_gathers(k, ready, x, room, layer.conv1, rows, time, 0);
    score::lemma_step(s, ready, m0, a0, l1, gathers(layer.conv1, x, room, rows, time, 0));
    let a2 = a0 + gathers(layer.conv1, x, room, rows, time, 0);
    assert(a2 =~= gathers(layer.conv1, x, room, rows, time, 0));
    let shape = stages::branch_shape(layer.conv1, rows, time);
    let its = convolves(
        k,
        layer.conv1.weight@,
        layer.conv1.bias@,
        x,
        room,
        w0,
        shape,
        layer.hidden,
    );
    let m1 = k.conv2d_gemm_into_plan(
        m0,
        layer.conv1.weight@,
        x,
        room,
        w0,
        shape,
        layer.hidden,
        Some(layer.conv1.bias@),
    );
    lemma_convolves(
        k,
        m0,
        layer.conv1.weight@,
        layer.conv1.bias@,
        x,
        room,
        w0,
        shape,
        layer.hidden,
    );
    score::lemma_step(s, m0, m1, a2, l1, its);
    let a3 = a2 + its;
    let q0 = m1.trace(name + ".conv1"@, w0);
    score::lemma_trace(m1, name + ".conv1"@, name + ".conv1"@, w0);
    score::lemma_silent(s, m1, q0, a3, l1);
    assert(l1 =~= seq![w0]);
}


/// The middle of a layer of a residual branch.
spec fn mixes(
    k: Kernels,
    layer: GpuDConvLayer,
    x: TensorView,
    rows: usize,
    time: usize,
    w1: TensorView,
    w2: TensorView,
) -> Seq<Step> {
    let wide = (2 * layer.channels) as usize;
    seq![
        norms_planes(x, layer.norm1_scale@, layer.norm1_shift@, w1, rows, layer.hidden, time),
    ] + seq![score::activate(w1)] + (if k.settings.conv2_probe {
        seq![score::copy(w1, w2, w1.len() as usize as int)]
    } else {
        score::product(layer.conv2.weight@, w1, w2, stages::branch_job(layer, rows, time))
    }) + seq![
        score::rescale(
            w2,
            layer.conv2_ones@,
            layer.conv2.bias@,
            rows as int,
            wide as int,
            time as int,
        ),
    ]
}

#[verifier::rlimit(100)]
proof fn lemma_branch_mixes(
    k: Kernels,
    s: Plan,
    x: TensorView,
    layer: GpuDConvLayer,
    rows: usize,
    time: usize,
    name: Seq<char>,
) -> (w1: TensorView)
    ensures
        ({
            let (r, w2) = stages::branch_conv2_plan(k, s, x, layer, rows, time, name);
            score::runs(s, r, mixes(k, layer, x, rows, time, w1, w2), seq![w1, w2])
        }),
{
    reveal(stages::branch_conv2_plan);
    let a0 = score::silence();
    let l0 = score::nothing();
    score::lemma_stay(s);
    let wide = (2 * layer.channels) as usize;
    let w1 = s.fresh(seq![rows, layer.hidden, time]);
    let t0 = s.tensor(seq![rows, layer.hidden, time], name + ".norm1"@);
    score::lemma_tensor(s, seq![rows, layer.hidden, time], name + ".norm1"@);
    score::lemma_made(s, s, t0, a0, l0, w1);
    let l1 = l0.push(w1);
    let shape = stages::plane_norm_spec(rows, layer.hidden, time);
    let m0 = k.group_norm_into_plan(t0, x, layer.norm1_scale@, layer.norm1_shift@, w1, shape);
    score::lemma_normalise(k, t0, x, layer.norm1_scale@, layer.norm1_shift@, w1, shape);
    score::lemma_step(
        s,
        t0,
        m0,
        a0,
        l1,
        seq![norms_planes(x, layer.norm1_scale@, layer.norm1_shift@, w1, rows, layer.hidden, time)],
    );
    let a2 = a0 + seq![
        norms_planes(x, layer.norm1_scale@, layer.norm1_shift@, w1, rows, layer.hidden, time),
    ];
    assert(
        a2 =~= seq![
            norms_planes(x, layer.norm1_scale@, layer.norm1_shift@, w1, rows, layer.hidden, time),
        ]
    );
    let m1 = k.gelu_in_place_plan(m0, w1);
    score::lemma_activate(k, m0, w1);
    score::lemma_step(s, m0, m1, a2, l1, seq![score::activate(w1)]);
    let a3 = a2 + seq![score::activate(w1)];
    let q0 = m1.trace(name + ".norm1"@, w1);
    score::lemma_trace(m1, name + ".norm1"@, name + ".norm1"@, w1);
    score::lemma_silent(s, m1, q0, a3, l1);
    let w2 = q0.fresh(seq![rows, wide, time]);
    let t1 = q0.tensor(seq![rows, wide, time], name + ".conv2"@);
    score::lemma_tensor(q0, seq![rows, wide, time], name + ".conv2"@);
    score::lemma_made(s, q0, t1, a3, l1, w2);
    let l4 = l1.push(w2);
    let job = stages::branch_job(layer, rows, time);
    let mixes = if k.settings.conv2_probe {
        seq![score::copy(w1, w2, w1.len() as usize as int)]
    } else {
        score::product(layer.conv2.weight@, w1, w2, job)
    };
    let m2 = if k.settings.conv2_probe {
        k.copy_plan(t1, w1, w2, w1.len() as usize)
    } else {
        k.gemm_into_plan(t1, layer.conv2.weight@, w1, w2, job)
    };
    score::lemma_copy(k, t1, w1, w2, w1.len() as usize);
    score::lemma_product(k, t1, layer.conv2.weight@, w1, w2, job);
    score::lemma_step(s, t1, m2, a3, l4, mixes);
    let a5 = a3 + mixes;
    let q1 = m2.trace(name + ".norm1.after"@, w1);
    score::lemma_trace(m2, name + ".norm1.after"@, name + ".norm1.after"@, w1);
    score::lemma_silent(s, m2, q1, a5, l4);
    let m3 = k.channel_affine_act_in_place_plan(
        q1,
        w2,
        layer.conv2_ones@,
        layer.conv2.bias@,
        rows,
        wide,
        time,
        Activation::Identity,
    );
    score::lemma_rescale(k, q1, w2, layer.conv2_ones@, layer.conv2.bias@, rows, wide, time);
    score::lemma_step(
        s,
        q1,
        m3,
        a5,
        l4,
        seq![
            score::rescale(
                w2,
                layer.conv2_ones@,
                layer.conv2.bias@,
                rows as int,
                wide as int,
                time as int,
            ),
        ],
    );
    let a6 = a5 + seq![
        score::rescale(
            w2,
            layer.conv2_ones@,
            layer.conv2.bias@,
            rows as int,
            wide as int,
            time as int,
        ),
    ];
    let q2 = m3.trace(name + ".conv2"@, w2);
    score::lemma_trace(m3, name + ".conv2"@, name + ".conv2"@, w2);
    score::lemma_silent(s, m3, q2, a6, l4);
    assert(l4 =~= seq![w1, w2]);
    w1
}


/// The end of a layer of a residual branch.
spec fn closes(
    layer: GpuDConvLayer,
    x: TensorView,
    current: TensorView,
    rows: usize,
    time: usize,
    w3: TensorView,
    w4: TensorView,
    w5: TensorView,
) -> Seq<Step> {
    let wide = (2 * layer.channels) as usize;
    let half = (layer.channels * time) as usize;
    seq![
        norms_planes(x, layer.norm2_scale@, layer.norm2_shift@, w3, rows, wide, time),
    ] + seq![score::gate(w3, w4, rows as int, half as int)] + seq![
        score::rescale(
            w4,
            layer.gamma@,
            layer.gamma_zero@,
            rows as int,
            layer.channels as int,
            time as int,
        ),
    ] + seq![score::copy(current, w5, current.len() as usize as int)] + seq![
        score::sum_into(w5, w4),
    ]
}

#[verifier::rlimit(100)]
proof fn lemma_branch_closes(
    k: Kernels,
    s: Plan,
    x: TensorView,
    current: TensorView,
    layer: GpuDConvLayer,
    rows: usize,
    time: usize,
    name: Seq<char>,
) -> (w: (TensorView, TensorView))
    ensures
        ({
            let (r, y) = stages::branch_close_plan(k, s, x, current, layer, rows, time, name);
            score::runs(
                s,
                r,
                closes(layer, x, current, rows, time, w.0, w.1, y),
                seq![w.0, w.1, y],
            )
        }),
{
    reveal(stages::branch_close_plan);
    let a0 = score::silence();
    let l0 = score::nothing();
    score::lemma_stay(s);
    let wide = (2 * layer.channels) as usize;
    let half = (layer.channels * time) as usize;
    let w3 = s.fresh(seq![rows, wide, time]);
    let t0 = s.tensor(seq![rows, wide, time], name + ".norm2"@);
    score::lemma_tensor(s, seq![rows, wide, time], name + ".norm2"@);
    score::lemma_made(s, s, t0, a0, l0, w3);
    let l1 = l0.push(w3);
    let shape = stages::plane_norm_spec(rows, wide, time);
    let m0 = k.group_norm_into_plan(t0, x, layer.norm2_scale@, layer.norm2_shift@, w3, shape);
    score::lemma_normalise(k, t0, x, layer.norm2_scale@, layer.norm2_shift@, w3, shape);
    score::lemma_step(
        s,
        t0,
        m0,
        a0,
        l1,
        seq![norms_planes(x, layer.norm2_scale@, layer.norm2_shift@, w3, rows, wide, time)],
    );
    let a2 = a0 + seq![
        norms_planes(x, layer.norm2_scale@, layer.norm2_shift@, w3, rows, wide, time),
    ];
    assert(
        a2 =~= seq![norms_planes(x, layer.norm2_scale@, layer.norm2_shift@, w3, rows, wide, time)]
    );
    let w4 = m0.fresh(seq![rows, half]);
    let m1 = k.glu_plan(m0, w3, rows, half);
    score::lemma_gate(k, m0, w3, rows, half);
    score::lemma_then(
        s,
        m0,
        m1,
        a2,
        l1,
        seq![score::gate(w3, w4, rows as int, half as int)],
        seq![w4],
    );
    let a3 = a2 + seq![score::gate(w3, w4, rows as int, half as int)];
    let l3 = l1 + seq![w4];
    let q0 = m1.trace(name + ".glu"@, w4);
    score::lemma_trace(m1, name + ".glu"@, name + ".glu"@, w4);
    score::lemma_silent(s, m1, q0, a3, l3);
    let m2 = k.channel_affine_act_in_place_plan(
        q0,
        w4,
        layer.gamma@,
        layer.gamma_zero@,
        rows,
        layer.channels,
        time,
        Activation::Identity,
    );
    score::lemma_rescale(k, q0, w4, layer.gamma@, layer.gamma_zero@, rows, layer.channels, time);
    score::lemma_step(
        s,
        q0,
        m2,
        a3,
        l3,
        seq![
            score::rescale(
                w4,
                layer.gamma@,
                layer.gamma_zero@,
                rows as int,
                layer.channels as int,
                time as int,
            ),
        ],
    );
    let a4 = a3 + seq![
        score::rescale(
            w4,
            layer.gamma@,
            layer.gamma_zero@,
            rows as int,
            layer.channels as int,
            time as int,
        ),
    ];
    let q1 = m2.trace(name + ".out"@, w4);
    score::lemma_trace(m2, name + ".out"@, name + ".out"@, w4);
    score::lemma_silent(s, m2, q1, a4, l3);
    let q2 = q1.trace(name + ".scaled"@, w4);
    score::lemma_trace(q1, name + ".scaled"@, name + ".scaled"@, w4);
    score::lemma_silent(s, q1, q2, a4, l3);
    let w5 = q2.fresh(seq![rows, layer.channels, time]);
    let t1 = q2.tensor(seq![rows, layer.channels, time], name + ".add"@);
    score::lemma_tensor(q2, seq![rows, layer.channels, time], name + ".add"@);
    score::lemma_made(s, q2, t1, a4, l3, w5);
    let l5 = l3.push(w5);
    let m3 = k.copy_plan(t1, current, w5, current.len() as usize);
    score::lemma_copy(k, t1, current, w5, current.len() as usize);
    score::lemma_step(
        s,
        t1,
        m3,
        a4,
        l5,
        seq![score::copy(current, w5, current.len() as usize as int)],
    );
    let a6 = a4 + seq![score::copy(current, w5, current.len() as usize as int)];
    let q3 = m3.trace(name + ".residual"@, w5);
    score::lemma_trace(m3, name + ".residual"@, name + ".residual"@, w5);
    score::lemma_silent(s, m3, q3, a6, l5);
    let m4 = k.add_in_place_plan(q3, w5, w4);
    score::lemma_sum_into(k, q3, w5, w4);
    score::lemma_step(s, q3, m4, a6, l5, seq![score::sum_into(w5, w4)]);
    let a7 = a6 + seq![score::sum_into(w5, w4)];
    let q4 = m4.trace(name + ".added"@, w5);
    score::lemma_trace(m4, name + ".added"@, name + ".added"@, w5);
    score::lemma_silent(s, m4, q4, a7, l5);
    assert(l5 =~= seq![w3, w4, w5]);
    (w3, w4)
}

/// The plan of layer `i` of a residual branch, from where the layers before it left off.
spec fn branch_layer(
    k: Kernels,
    s: Plan,
    scratch: TensorView,
    current: TensorView,
    layer: GpuDConvLayer,
    rows: usize,
    time: usize,
    name: Seq<char>,
) -> (Plan, TensorView, TensorView) {
    let (s1, room, wide) = stages::branch_conv1_plan(
        k,
        s,
        scratch,
        current,
        layer,
        rows,
        time,
        name,
    );
    let (s2, mixed) = stages::branch_conv2_plan(k, s1, wide, layer, rows, time, name);
    let (s3, next) = stages::branch_close_plan(k, s2, mixed, current, layer, rows, time, name);
    (s3, room, next)
}

#[verifier::rlimit(100)]
proof fn lemma_branch_layer(
    k: Kernels,
    s: Plan,
    scratch: TensorView,
    current: TensorView,
    layer: GpuDConvLayer,
    rows: usize,
    time: usize,
    name: Seq<char>,
) -> (w: Seq<TensorView>)
    ensures
        w.len() == 6,
        ({
            let (r, room, y) = branch_layer(k, s, scratch, current, layer, rows, time, name);
            &&& y == w[5]
            &&& score::runs(s, r, branches(k, layer, current, room, rows, time, w), w)
        }),
{
    let (s1, room, w0) = stages::branch_conv1_plan(
        k,
        s,
        scratch,
        current,
        layer,
        rows,
        time,
        name,
    );
    let (s2, w2) = stages::branch_conv2_plan(k, s1, w0, layer, rows, time, name);
    let (s3, w5) = stages::branch_close_plan(k, s2, w2, current, layer, rows, time, name);
    let shape = stages::branch_shape(layer.conv1, rows, time);
    lemma_branch_open(k, s, scratch, current, layer, rows, time, name);
    let w1 = lemma_branch_mixes(k, s1, w0, layer, rows, time, name);
    let (w3, w4) = lemma_branch_closes(k, s2, w2, current, layer, rows, time, name);
    let a = gathers(layer.conv1, current, room, rows, time, 0) + convolves(
        k,
        layer.conv1.weight@,
        layer.conv1.bias@,
        current,
        room,
        w0,
        shape,
        layer.hidden,
    );
    let b = mixes(k, layer, w0, rows, time, w1, w2);
    let c = closes(layer, w2, current, rows, time, w3, w4, w5);
    score::lemma_then(s, s1, s2, a, seq![w0], b, seq![w1, w2]);
    score::lemma_then(s, s2, s3, a + b, seq![w0] + seq![w1, w2], c, seq![w3, w4, w5]);
    let w = seq![w0, w1, w2, w3, w4, w5];
    assert(seq![w0] + seq![w1, w2] + seq![w3, w4, w5] =~= w);
    assert(a + b + c =~= branches(k, layer, current, room, rows, time, w));
    w
}


/// The course of a residual branch: what it is before every layer and behind the last,
/// where each layer gathers, and the tensors each makes.
pub struct BranchCourse {
    pub x: Seq<TensorView>,
    pub rooms: Seq<TensorView>,
    pub w: Seq<Seq<TensorView>>,
}

/// The first `n` layers of a residual branch, one behind the other, each by its own
/// weights on what the one before it left.
pub open spec fn branch_steps(
    k: Kernels,
    layers: Seq<GpuDConvLayer>,
    rows: usize,
    time: usize,
    c: BranchCourse,
    n: nat,
) -> Seq<Step>
    decreases n,
{
    if n == 0 {
        score::silence()
    } else {
        let i = n - 1;
        branch_steps(k, layers, rows, time, c, i as nat) + branches(
            k,
            layers[i],
            c.x[i],
            c.rooms[i],
            rows,
            time,
            c.w[i],
        )
    }
}

/// The tensors the first `n` layers make.
pub open spec fn branch_made(c: BranchCourse, n: nat) -> Seq<TensorView>
    decreases n,
{
    if n == 0 {
        score::nothing()
    } else {
        branch_made(c, (n - 1) as nat) + c.w[n - 1]
    }
}

/// Whether a course leads through `n` layers.
pub open spec fn is_branch(c: BranchCourse, n: nat, from: TensorView, to: TensorView) -> bool {
    &&& c.x.len() == n + 1 && c.rooms.len() == n && c.w.len() == n
    &&& c.x[0] == from && c.x[n as int] == to
    &&& forall|i: int| 0 <= i < n ==> (#[trigger] c.w[i]).len() == 6 && c.x[i + 1] == c.w[i][5]
}

/// Whether two courses agree at layer `i`.
spec fn same_at(c: BranchCourse, d: BranchCourse, i: int) -> bool {
    c.x[i] == d.x[i] && c.rooms[i] == d.rooms[i] && c.w[i] == d.w[i]
}

/// Steps depend on their part of the course alone.
proof fn lemma_branch_stays(
    k: Kernels,
    layers: Seq<GpuDConvLayer>,
    rows: usize,
    time: usize,
    c: BranchCourse,
    d: BranchCourse,
    n: nat,
)
    requires
        forall|i: int| 0 <= i < n ==> #[trigger] same_at(c, d, i),
    ensures
        branch_steps(k, layers, rows, time, c, n) == branch_steps(k, layers, rows, time, d, n),
        branch_made(c, n) == branch_made(d, n),
    decreases n,
{
    if n > 0 {
        lemma_branch_stays(k, layers, rows, time, c, d, (n - 1) as nat);
        assert(same_at(c, d, n - 1));
    }
}

/// A residual branch runs through its layers in order, and layer `i` applies the weights
/// of layer `i`: its convolutions, norms and scale, on what the layer before it left.
pub proof fn law_every_branch_layer_applies_its_own_weights(
    k: Kernels,
    s: Plan,
    scratch: TensorView,
    input: TensorView,
    layers: Seq<GpuDConvLayer>,
    rows: usize,
    time: usize,
    n: nat,
) -> (c: BranchCourse)
    ensures
        ({
            let (r, room, y) = stages::dconv_stage_plan(
                k,
                s,
                scratch,
                input,
                layers,
                rows,
                time,
                n,
            );
            &&& is_branch(c, n, input, y)
            &&& score::runs(
                s,
                r,
                branch_steps(k, layers, rows, time, c, n),
                branch_made(c, n),
            )
        }),
    decreases n,
{
    if n == 0 {
        score::lemma_stay(s);
        BranchCourse { x: seq![input], rooms: Seq::empty(), w: Seq::empty() }
    } else {
        let m = (n - 1) as nat;
        let e = law_every_branch_layer_applies_its_own_weights(
            k,
            s,
            scratch,
            input,
            layers,
            rows,
            time,
            m,
        );
        let (before, room, current) = stages::dconv_stage_plan(
            k,
            s,
            scratch,
            input,
            layers,
            rows,
            time,
            m,
        );
        let layer = layers[n - 1];
        let name = "dconv."@ + text::decimal(m);
        let w = lemma_branch_layer(k, before, room, current, layer, rows, time, name);
        let (r, next_room, y) = branch_layer(
            k,
            before,
            room,
            current,
            layer,
            rows,
            time,
            name,
        );
        let c = BranchCourse {
            x: e.x.push(y),
            rooms: e.rooms.push(next_room),
            w: e.w.push(w),
        };
        assert(c.x[m as int] == current);
        assert(c.w[m as int] == w);
        assert forall|i: int| 0 <= i < n implies (#[trigger] c.w[i]).len() == 6 && c.x[i + 1]
            == c.w[i][5] by {
            if i < m {
                assert(e.w[i].len() == 6);
            }
        }
        assert forall|i: int| 0 <= i < m implies #[trigger] same_at(e, c, i) by {}
        lemma_branch_stays(k, layers, rows, time, e, c, m);
        score::lemma_then(
            s,
            before,
            r,
            branch_steps(k, layers, rows, time, c, m),
            branch_made(c, m),
            branches(k, layer, current, next_room, rows, time, w),
            w,
        );
        c
    }
}

// --------------------------------------------------------------------- upsamplings

/// Image `b` of an upsampling: the taps of that image, folded into that image of `out`,
/// and the bias.
pub open spec fn upsamples_image(
    conv: GpuConvT,
    padded: TensorView,
    taps: TensorView,
    out: TensorView,
    shape: Col2ImShape,
    b: int,
) -> Seq<Step> {
    let wide = shape.pitch();
    let ins = shape.k_pad() * wide;
    let tap = shape.m_pad() * wide;
    let outs = shape.out_channels * shape.positions_out_spec();
    let its = recorder::window(padded, b * ins, seq![ins as usize]);
    let its_taps = recorder::window(taps, b * tap, seq![tap as usize]);
    let its_out = recorder::window(out, b * outs, seq![outs as usize]);
    let places = (shape.in_h * shape.in_w) as usize;
    score::product(
        conv.weight@,
        its,
        its_taps,
        GemmJob {
            m: (shape.out_channels * shape.kernel.0 * shape.kernel.1) as usize,
            n: places,
            k: shape.in_channels,
            lda: shape.k_pad() as usize,
            ldb: wide as usize,
            ldc: wide as usize,
            batches: 1,
            inner_count: 1,
            a_outer: 0,
            a_inner: 0,
            b_outer: 0,
            b_inner: 0,
            c_outer: 0,
            c_inner: 0,
            transb: false,
        },
    ) + seq![
        score::fold(its_taps, its_out, (Col2ImShape { batch: 1, ..shape }), wide as usize as int),
    ] + seq![
        score::bias_rows(
            its_out,
            conv.bias@,
            shape.out_channels as int,
            shape.positions_out_spec() as usize as int,
            shape.out_channels as int,
        ),
    ]
}

/// The first `n` images.
pub open spec fn upsamples_images(
    conv: GpuConvT,
    padded: TensorView,
    taps: TensorView,
    out: TensorView,
    shape: Col2ImShape,
    n: nat,
) -> Seq<Step>
    decreases n,
{
    if n == 0 {
        score::silence()
    } else {
        upsamples_images(conv, padded, taps, out, shape, (n - 1) as nat) + upsamples_image(
            conv,
            padded,
            taps,
            out,
            shape,
            n - 1,
        )
    }
}

/// An upsampling: every image copied to padded rows, then image by image.
pub open spec fn upsamples(
    conv: GpuConvT,
    x: TensorView,
    padded: TensorView,
    taps: TensorView,
    out: TensorView,
    shape: Col2ImShape,
) -> Seq<Step> {
    let places = (shape.in_h * shape.in_w) as usize;
    seq![
        score::widen(
            x,
            padded,
            shape.batch as int,
            shape.in_channels as int,
            places as int,
            places as int,
            shape.pitch() as usize as int,
            shape.k_pad() as usize as int,
        ),
    ] + upsamples_images(conv, padded, taps, out, shape, shape.batch as nat)
}

proof fn lemma_upsamples_image(
    k: Kernels,
    s: Plan,
    conv: GpuConvT,
    padded: TensorView,
    taps: TensorView,
    out: TensorView,
    shape: Col2ImShape,
    b: int,
)
    ensures
        score::runs(
            s,
            k.upsample_image_plan(
                s,
                conv.weight@,
                Some(conv.bias@),
                padded,
                taps,
                out,
                shape,
                b,
            ),
            upsamples_image(conv, padded, taps, out, shape, b),
            score::nothing(),
        ),
{
    let ins = shape.k_pad() * shape.pitch();
    let tap = shape.m_pad() * shape.pitch();
    let outs = shape.out_channels * shape.positions_out_spec();
    let its = recorder::window(padded, b * ins, seq![ins as usize]);
    let its_taps = recorder::window(taps, b * tap, seq![tap as usize]);
    let its_out = recorder::window(out, b * outs, seq![outs as usize]);
    let job = upsample::tap_job(shape);
    let places = shape.positions_out_spec() as usize;
    let pitch = shape.pitch() as usize;

    let a0 = score::silence();
    let l0 = score::nothing();
    score::lemma_stay(s);
    let s1 = s.slice(padded, b * ins, seq![ins as usize]);
    score::lemma_slice(s, padded, b * ins, seq![ins as usize]);
    score::lemma_silent(s, s, s1, a0, l0);
    let s2 = s1.slice(taps, b * tap, seq![tap as usize]);
    score::lemma_slice(s1, taps, b * tap, seq![tap as usize]);
    score::lemma_silent(s, s1, s2, a0, l0);
    let s3 = s2.slice(out, b * outs, seq![outs as usize]);
    score::lemma_slice(s2, out, b * outs, seq![outs as usize]);
    score::lemma_silent(s, s2, s3, a0, l0);
    let m1 = k.gemm_into_plan(s3, conv.weight@, its, its_taps, job);
    score::lemma_product(k, s3, conv.weight@, its, its_taps, job);
    score::lemma_step(s, s3, m1, a0, l0, score::product(conv.weight@, its, its_taps, job));
    let a1 = a0 + score::product(conv.weight@, its, its_taps, job);
    assert(a1 =~= score::product(conv.weight@, its, its_taps, job));
    let m2 = k.col2im_into_plan(m1, its_taps, its_out, shape.single(), pitch);
    score::lemma_fold(k, m1, its_taps, its_out, shape.single(), pitch);
    score::lemma_step(
        s,
        m1,
        m2,
        a1,
        l0,
        seq![score::fold(its_taps, its_out, shape.single(), pitch as int)],
    );
    let a2 = a1 + seq![score::fold(its_taps, its_out, shape.single(), pitch as int)];
    let m3 = k.add_row_bias_in_place_plan(
        m2,
        its_out,
        conv.bias@,
        shape.out_channels,
        places,
        shape.out_channels,
    );
    score::lemma_bias_rows(
        k,
        m2,
        its_out,
        conv.bias@,
        shape.out_channels,
        places,
        shape.out_channels,
    );
    score::lemma_step(
        s,
        m2,
        m3,
        a2,
        l0,
        seq![
            score::bias_rows(
                its_out,
                conv.bias@,
                shape.out_channels as int,
                places as int,
                shape.out_channels as int,
            ),
        ],
    );
    let a3 = a2 + seq![
        score::bias_rows(
            its_out,
            conv.bias@,
            shape.out_channels as int,
            places as int,
            shape.out_channels as int,
        ),
    ];
    assert(a3 =~= upsamples_image(conv, padded, taps, out, shape, b));
    assert(l0 =~= score::nothing());
}

proof fn lemma_upsamples_images(
    k: Kernels,
    s: Plan,
    conv: GpuConvT,
    padded: TensorView,
    taps: TensorView,
    out: TensorView,
    shape: Col2ImShape,
    n: nat,
)
    ensures
        score::runs(
            s,
            k.upsample_images_plan(
                s,
                conv.weight@,
                Some(conv.bias@),
                padded,
                taps,
                out,
                shape,
                n,
            ),
            upsamples_images(conv, padded, taps, out, shape, n),
            score::nothing(),
        ),
    decreases n,
{
    if n == 0 {
        score::lemma_stay(s);
    } else {
        let i = (n - 1) as nat;
        lemma_upsamples_images(k, s, conv, padded, taps, out, shape, i);
        let m = k.upsample_images_plan(
            s,
            conv.weight@,
            Some(conv.bias@),
            padded,
            taps,
            out,
            shape,
            i,
        );
        lemma_upsamples_image(k, m, conv, padded, taps, out, shape, n - 1);
        score::lemma_step(
            s,
            m,
            k.upsample_images_plan(
                s,
                conv.weight@,
                Some(conv.bias@),
                padded,
                taps,
                out,
                shape,
                n,
            ),
            upsamples_images(conv, padded, taps, out, shape, i),
            score::nothing(),
            upsamples_image(conv, padded, taps, out, shape, n - 1),
        );
    }
}

/// Planning an upsampling makes its padded rows and its taps, and records its steps.
pub proof fn lemma_upsamples(
    k: Kernels,
    s: Plan,
    x: TensorView,
    conv: GpuConvT,
    out: TensorView,
    shape: Col2ImShape,
    prefix: Seq<char>,
    index: nat,
) -> (w: (TensorView, TensorView))
    ensures
        score::runs(
            s,
            decoder::upsample_stage_plan(k, s, x, conv, out, shape, prefix, index),
            upsamples(conv, x, w.0, w.1, out, shape),
            seq![w.0, w.1],
        ),
{
    reveal(decoder::upsample_stage_plan);
    let padded_len = shape.batch * shape.k_pad() * shape.pitch();
    let taps_len = shape.batch * shape.m_pad() * shape.pitch();
    let label = prefix + ".padded."@ + text::decimal(index);
    let label_t = prefix + ".taps."@ + text::decimal(index);
    let places = (shape.in_h * shape.in_w) as usize;

    let a0 = score::silence();
    let l0 = score::nothing();
    score::lemma_stay(s);
    let padded = s.fresh(seq![padded_len as usize]);
    let s1 = s.allocate((4 * padded_len) as nat, label);
    score::lemma_allocate(s, (4 * padded_len) as nat, label, seq![padded_len as usize]);
    score::lemma_made(s, s, s1, a0, l0, padded);
    let l1 = l0.push(padded);
    let taps = s1.fresh(seq![taps_len as usize]);
    let s2 = s1.allocate((4 * taps_len) as nat, label_t);
    score::lemma_allocate(s1, (4 * taps_len) as nat, label_t, seq![taps_len as usize]);
    score::lemma_made(s, s1, s2, a0, l1, taps);
    let l2 = l1.push(taps);
    let checked = Kernels::upsample_checked(s2, x, conv.weight@, padded, taps, out, shape);
    let wide = shape.pitch() as usize;
    let tall = shape.k_pad() as usize;
    let m1 = k.copy_pitched_into_plan(
        checked,
        x,
        padded,
        shape.batch,
        shape.in_channels,
        places,
        places,
        wide,
        tall,
    );
    let first = seq![
        score::widen(
            x,
            padded,
            shape.batch as int,
            shape.in_channels as int,
            places as int,
            places as int,
            wide as int,
            tall as int,
        ),
    ];
    score::lemma_widen(
        k,
        checked,
        x,
        padded,
        shape.batch,
        shape.in_channels,
        places,
        places,
        wide,
        tall,
    );
    score::lemma_faultless(checked, m1, first, score::nothing());
    score::lemma_checked(s2, checked, m1, first);
    score::lemma_step(s, s2, m1, a0, l2, first);
    let b = upsamples_images(conv, padded, taps, out, shape, shape.batch as nat);
    lemma_upsamples_images(k, m1, conv, padded, taps, out, shape, shape.batch as nat);
    let r = k.upsample_images_plan(
        m1,
        conv.weight@,
        Some(conv.bias@),
        padded,
        taps,
        out,
        shape,
        shape.batch as nat,
    );
    score::lemma_step(s, m1, r, a0 + first, l2, b);
    assert(a0 + first + b =~= upsamples(conv, x, padded, taps, out, shape));
    assert(l2 =~= seq![padded, taps]);
    (padded, taps)
}

} // verus!