//! What the encoders do with a pass: which layer applies which weights to what.

use vstd::prelude::*;

use crate::gpu::conv_steps;
use crate::gpu::conv_steps::BranchCourse;
use crate::gpu::encoder;
use crate::gpu::encoder::GpuEnc;
use crate::gpu::kernels::Kernels;
use crate::gpu::recorder;
use crate::gpu::recorder::{CommandView, Plan};
use crate::gpu::score;
use crate::gpu::score::Step;
use crate::gpu::stages;
use crate::gpu::tensor::TensorView;
use crate::text;

verus! {

// ------------------------------------------------------------------------- layers

/// The course of one layer: what its convolution reads, the tensors it makes, where its
/// two convolutions gather, and the course of its residual branch.
pub struct EncoderLayer {
    pub read: TensorView,
    pub w: Seq<TensorView>,
    pub rooms: (TensorView, TensorView),
    pub branch: BranchCourse,
}

/// A spectrogram layer on `x`: the convolution and its activation, the residual branch
/// over every bin's signal, the convolution of width one, the gating, and, in the first, a
/// bias for every bin of every channel. The tensors are the convolution, its bins in front,
/// the branch's channels in front, the second convolution and the gating.
#[verifier::opaque]
pub open spec fn encodes_bins(
    k: Kernels,
    layer: GpuEnc,
    embedding: TensorView,
    batch: usize,
    frames: usize,
    c: EncoderLayer,
    first: bool,
) -> Seq<Step> {
    let x = c.read;
    let kept = (x.shape[2] / 4) as usize;
    let oc = layer.conv.out_channels;
    let half = (layer.rewrite.out_channels / 2) as usize;
    let rows = (batch * kept) as usize;
    let n = layer.dconv.layers@.len();
    let branched = c.branch.x[n as int];
    conv_steps::convolution_of(k, layer.conv, x, c.rooms.0, c.w[0]) + seq![
        score::activate(c.w[0]),
    ] + seq![
        score::exchange(c.w[0], c.w[1], batch as int, oc as int, kept as int, frames as int),
    ] + conv_steps::branch_steps(k, layer.dconv.layers@, rows, frames, c.branch, n) + seq![
        score::exchange(
            branched,
            c.w[2],
            batch as int,
            kept as int,
            branched.shape[1] as int,
            branched.shape[2] as int,
        ),
    ] + conv_steps::convolution_of(k, layer.rewrite, c.w[2], c.rooms.1, c.w[3]) + seq![
        score::gate(c.w[3], c.w[4], batch as int, (half * kept * frames) as usize as int),
    ] + (if first {
        seq![
            score::bias_rows(
                bins_left(layer, batch, frames, c),
                embedding,
                (batch * half * kept) as usize as int,
                frames as int,
                (half * kept) as usize as int,
            ),
        ]
    } else {
        score::silence()
    })
}

/// What a spectrogram layer leaves: its gate, a quarter of the bins.
pub open spec fn bins_left(
    layer: GpuEnc,
    batch: usize,
    frames: usize,
    c: EncoderLayer,
) -> TensorView {
    let kept = (c.read.shape[2] / 4) as usize;
    let half = (layer.rewrite.out_channels / 2) as usize;
    TensorView { buffer: c.w[4].buffer, offset: 0, shape: seq![batch, half, kept, frames] }
}

/// The tensors a spectrogram layer makes, in order.
pub open spec fn bins_made(layer: GpuEnc, c: EncoderLayer) -> Seq<TensorView> {
    seq![c.w[0], c.w[1]] + conv_steps::branch_made(c.branch, layer.dconv.layers@.len()) + seq![
        c.w[2],
        c.w[3],
        c.w[4],
    ]
}

/// A waveform layer on `x`, brought to a multiple of four samples with zeros: the
/// convolution and its activation, the residual branch, the convolution of width one, and
/// the gating. The tensors are the convolution, the second convolution and the gating.
#[verifier::opaque]
pub open spec fn encodes_samples(
    k: Kernels,
    layer: GpuEnc,
    x: TensorView,
    batch: usize,
    c: EncoderLayer,
) -> Seq<Step> {
    let samples = x.shape[2];
    let channels = layer.conv.in_channels;
    let wide = ((samples + 3) / 4 * 4) as usize;
    let kept = ((samples + 3) / 4) as usize;
    let oc = layer.conv.out_channels;
    let half = (layer.rewrite.out_channels / 2) as usize;
    let n = layer.dconv.layers@.len();
    let convolved = TensorView { buffer: c.w[0].buffer, offset: 0, shape: seq![batch, oc, kept] };
    (if samples % 4 != 0 {
        seq![score::clear(c.read, c.read.len() as usize as int)] + seq![
            score::widen(
                x,
                c.read,
                batch as int,
                channels as int,
                samples as int,
                samples as int,
                wide as int,
                channels as int,
            ),
        ]
    } else {
        score::silence()
    }) + conv_steps::convolution_of(k, layer.conv, c.read, c.rooms.0, c.w[0]) + seq![
        score::activate(convolved),
    ] + conv_steps::branch_steps(k, layer.dconv.layers@, batch, kept, c.branch, n)
        + conv_steps::convolution_of(
        k,
        layer.rewrite,
        c.branch.x[n as int],
        c.rooms.1,
        c.w[1],
    ) + seq![score::gate(c.w[1], c.w[2], batch as int, (half * kept) as usize as int)]
}

/// Whether a waveform layer's convolution reads `x`, brought to a multiple of four
/// samples.
pub open spec fn reads(layer: GpuEnc, x: TensorView, batch: usize, c: EncoderLayer) -> bool {
    if x.shape[2] % 4 == 0 {
        c.read == x
    } else {
        c.read.shape == seq![
            batch,
            layer.conv.in_channels,
            ((x.shape[2] + 3) / 4 * 4) as usize,
        ]
    }
}

/// What a waveform layer leaves: its gate, a quarter of the samples, rounded up.
pub open spec fn samples_left(
    layer: GpuEnc,
    x: TensorView,
    batch: usize,
    c: EncoderLayer,
) -> TensorView {
    let kept = ((x.shape[2] + 3) / 4) as usize;
    let half = (layer.rewrite.out_channels / 2) as usize;
    TensorView { buffer: c.w[2].buffer, offset: 0, shape: seq![batch, half, kept] }
}

/// The tensors a waveform layer makes, in order.
pub open spec fn samples_made(layer: GpuEnc, x: TensorView, c: EncoderLayer) -> Seq<TensorView> {
    (if x.shape[2] % 4 != 0 {
        seq![c.read]
    } else {
        score::nothing()
    }) + seq![c.w[0]] + conv_steps::branch_made(c.branch, layer.dconv.layers@.len()) + seq![
        c.w[1],
        c.w[2],
    ]
}


#[verifier::rlimit(100)]
proof fn lemma_encodes_bins(
    k: Kernels,
    s: Plan,
    scratch: TensorView,
    x: TensorView,
    layer: GpuEnc,
    embedding: TensorView,
    batch: usize,
    frames: usize,
    index: nat,
) -> (c: EncoderLayer)
    ensures
        c.w.len() == 5 && c.read == x,
        ({
            let n = layer.dconv.layers@.len();
            conv_steps::is_branch(c.branch, n, c.w[1], c.branch.x[n as int])
        }),
        ({
            let (r, room, y) = encoder::freq_layer_plan(
                k,
                s,
                scratch,
                x,
                layer,
                embedding,
                batch,
                frames,
                index,
            );
            &&& y == bins_left(layer, batch, frames, c)
            &&& score::runs(
                s,
                r,
                encodes_bins(k, layer, embedding, batch, frames, c, index == 0),
                bins_made(layer, c),
            )
        }),
{
    reveal(encoder::freq_layer_plan);
    reveal(encodes_bins);
    let a0 = score::silence();
    let l0 = score::nothing();
    score::lemma_stay(s);
    let name = "encoder."@ + text::decimal(index);
    let kept = (x.shape[2] / 4) as usize;
    let oc = layer.conv.out_channels;
    let wide = layer.rewrite.out_channels;
    let half = (wide / 2) as usize;
    let rows = (batch * kept) as usize;
    let n = layer.dconv.layers@.len();
    let full = (half * kept * frames) as usize;
    let shape = seq![batch, half, kept, frames];
    let plane = seq![batch, oc, kept, frames];
    let w0 = s.fresh(plane);
    let t0 = s.tensor(plane, name + ".conv"@);
    score::lemma_tensor(s, plane, name + ".conv"@);
    score::lemma_made(s, s, t0, a0, l0, w0);
    let l1 = l0.push(w0);
    let (s1, room) = stages::conv_stage_plan(k, t0, scratch, x, layer.conv, w0);
    let conv = conv_steps::convolution_of(k, layer.conv, x, room, w0);
    conv_steps::lemma_convolution(k, t0, scratch, x, layer.conv, w0);
    score::lemma_step(s, t0, s1, a0, l1, conv);
    let a2 = a0 + conv;
    assert(a2 =~= conv);
    let q1 = s1.trace(name + ".conv"@, w0);
    score::lemma_trace(s1, name + ".conv"@, name + ".conv"@, w0);
    score::lemma_silent(s, s1, q1, a2, l1);
    let s2 = k.gelu_in_place_plan(q1, w0);
    score::lemma_activate(k, q1, w0);
    score::lemma_step(s, q1, s2, a2, l1, seq![score::activate(w0)]);
    let a3 = a2 + seq![score::activate(w0)];
    let w1 = s2.fresh(seq![rows, oc, frames]);
    let t2 = s2.tensor(seq![rows, oc, frames], name + ".perm"@);
    score::lemma_tensor(s2, seq![rows, oc, frames], name + ".perm"@);
    score::lemma_made(s, s2, t2, a3, l1, w1);
    let l4 = l1.push(w1);
    let p2 = k.transpose_plan(t2, w0, w1, batch, oc, kept, frames);
    score::lemma_exchange(k, t2, w0, w1, batch, oc, kept, frames);
    score::lemma_step(
        s,
        t2,
        p2,
        a3,
        l4,
        seq![score::exchange(w0, w1, batch as int, oc as int, kept as int, frames as int)],
    );
    let a5 = a3 + seq![
        score::exchange(w0, w1, batch as int, oc as int, kept as int, frames as int),
    ];
    assert(p2 == stages::channels_to_leading_freq_plan(k, t2, w0, w1)) by {
        reveal(stages::channels_to_leading_freq_plan);
    }
    let s3 = p2.trace(name + ".pre_emb"@, w1);
    score::lemma_trace(p2, name + ".pre_emb"@, name + ".pre_emb"@, w1);
    score::lemma_silent(s, p2, s3, a5, l4);
    let branch = conv_steps::law_every_branch_layer_applies_its_own_weights(
        k,
        s3,
        room,
        w1,
        layer.dconv.layers@,
        rows,
        frames,
        n,
    );
    let (s4, room2, branched) = stages::dconv_stage_plan(
        k,
        s3,
        room,
        w1,
        layer.dconv.layers@,
        rows,
        frames,
        n,
    );
    score::lemma_then(
        s,
        s3,
        s4,
        a5,
        l4,
        conv_steps::branch_steps(k, layer.dconv.layers@, rows, frames, branch, n),
        conv_steps::branch_made(branch, n),
    );
    let a6 = a5 + conv_steps::branch_steps(k, layer.dconv.layers@, rows, frames, branch, n);
    let l6 = l4 + conv_steps::branch_made(branch, n);
    let s5 = s4.trace(name + ".dconv"@, branched);
    score::lemma_trace(s4, name + ".dconv"@, name + ".dconv"@, branched);
    score::lemma_silent(s, s4, s5, a6, l6);
    let w2 = s5.fresh(plane);
    let t5 = s5.tensor(plane, name + ".unperm"@);
    score::lemma_tensor(s5, plane, name + ".unperm"@);
    score::lemma_made(s, s5, t5, a6, l6, w2);
    let l7 = l6.push(w2);
    let deep = branched.shape[1];
    let across = branched.shape[2];
    let s6 = k.transpose_plan(t5, branched, w2, batch, kept, deep, across);
    score::lemma_exchange(k, t5, branched, w2, batch, kept, deep, across);
    score::lemma_step(
        s,
        t5,
        s6,
        a6,
        l7,
        seq![score::exchange(branched, w2, batch as int, kept as int, deep as int, across as int)],
    );
    let a8 = a6 + seq![
        score::exchange(branched, w2, batch as int, kept as int, deep as int, across as int),
    ];
    assert(s6 == stages::leading_freq_to_channels_plan(k, t5, branched, w2)) by {
        reveal(stages::leading_freq_to_channels_plan);
    }
    let w3 = s6.fresh(seq![batch, wide, kept, frames]);
    let t6 = s6.tensor(seq![batch, wide, kept, frames], name + ".rewrite"@);
    score::lemma_tensor(s6, seq![batch, wide, kept, frames], name + ".rewrite"@);
    score::lemma_made(s, s6, t6, a8, l7, w3);
    let l9 = l7.push(w3);
    let (s7, room3) = stages::conv_stage_plan(k, t6, room2, w2, layer.rewrite, w3);
    let again = conv_steps::convolution_of(k, layer.rewrite, w2, room3, w3);
    conv_steps::lemma_convolution(k, t6, room2, w2, layer.rewrite, w3);
    score::lemma_step(s, t6, s7, a8, l9, again);
    let a10 = a8 + again;
    let s8 = s7.trace(name + ".rewrite"@, w3);
    score::lemma_trace(s7, name + ".rewrite"@, name + ".rewrite"@, w3);
    score::lemma_silent(s, s7, s8, a10, l9);
    let w4 = s8.fresh(seq![batch, full]);
    let g1 = k.glu_plan(s8, w3, batch, full);
    score::lemma_gate(k, s8, w3, batch, full);
    score::lemma_then(
        s,
        s8,
        g1,
        a10,
        l9,
        seq![score::gate(w3, w4, batch as int, full as int)],
        seq![w4],
    );
    let a11 = a10 + seq![score::gate(w3, w4, batch as int, full as int)];
    let l11 = l9 + seq![w4];
    let s9 = g1.reshape(w4, shape);
    score::lemma_reshape(g1, w4, shape);
    score::lemma_silent(s, g1, s9, a11, l11);
    let left = recorder::reshaped(w4, shape);
    let c = EncoderLayer { read: x, w: seq![w0, w1, w2, w3, w4], rooms: (room, room3), branch };
    assert(left == bins_left(layer, batch, frames, c));
    let places = (batch * half * kept) as usize;
    let period = (half * kept) as usize;
    let bias = if index == 0 {
        seq![score::bias_rows(left, embedding, places as int, frames as int, period as int)]
    } else {
        score::silence()
    };
    let s10 = if index == 0 {
        k.add_row_bias_in_place_plan(s9, left, embedding, places, frames, period)
    } else {
        s9
    };
    score::lemma_bias_rows(k, s9, left, embedding, places, frames, period);
    score::lemma_stay(s9);
    score::lemma_step(s, s9, s10, a11, l11, bias);
    let a12 = a11 + bias;
    let s11 = s10.trace(name, left);
    score::lemma_trace(s10, name, name, left);
    score::lemma_silent(s, s10, s11, a12, l11);
    assert(a12 =~= encodes_bins(k, layer, embedding, batch, frames, c, index == 0));
    assert(l11 =~= bins_made(layer, c));
    c
}


/// The steps that bring a waveform to a multiple of four samples.
spec fn widens(x: TensorView, read: TensorView, channels: usize, batch: usize) -> Seq<Step> {
    let samples = x.shape[2];
    let wide = ((samples + 3) / 4 * 4) as usize;
    if samples % 4 != 0 {
        seq![score::clear(read, read.len() as usize as int)] + seq![
            score::widen(
                x,
                read,
                batch as int,
                channels as int,
                samples as int,
                samples as int,
                wide as int,
                channels as int,
            ),
        ]
    } else {
        score::silence()
    }
}

proof fn lemma_widens(
    k: Kernels,
    s: Plan,
    x: TensorView,
    channels: usize,
    batch: usize,
    index: nat,
)
    ensures
        ({
            let (r, read) = encoder::widened_plan(k, s, x, channels, batch, index);
            &&& x.shape[2] % 4 == 0 ==> read == x
            &&& x.shape[2] % 4 != 0 ==> read.shape == seq![
                batch,
                channels,
                ((x.shape[2] + 3) / 4 * 4) as usize,
            ]
            &&& score::runs(
                s,
                r,
                widens(x, read, channels, batch),
                if x.shape[2] % 4 != 0 {
                    seq![read]
                } else {
                    score::nothing()
                },
            )
        }),
{
    reveal(encoder::widened_plan);
    let samples = x.shape[2];
    if samples % 4 != 0 {
        let wide = encoder::in_fours(samples as int) as usize;
        assert(encoder::in_fours(samples as int) == (samples + 3) / 4 * 4);
        let label = "tencoder."@ + text::decimal(index) + ".pad"@;
        let shape = seq![batch, channels, wide];

        let a0 = score::silence();
        let l0 = score::nothing();
        score::lemma_stay(s);
        let read = s.fresh(shape);
        let t0 = s.tensor(shape, label);
        score::lemma_tensor(s, shape, label);
        score::lemma_made(s, s, t0, a0, l0, read);
        let l1 = l0.push(read);
        let m0 = k.fill_zero_into_plan(t0, read, read.len() as usize);
        score::lemma_clear(k, t0, read, read.len() as usize);
        score::lemma_step(s, t0, m0, a0, l1, seq![score::clear(read, read.len() as usize as int)]);
        let a2 = a0 + seq![score::clear(read, read.len() as usize as int)];
        assert(a2 =~= seq![score::clear(read, read.len() as usize as int)]);
        let m1 = k.copy_pitched_into_plan(
            m0,
            x,
            read,
            batch,
            channels,
            samples,
            samples,
            wide,
            channels,
        );
        score::lemma_widen(k, m0, x, read, batch, channels, samples, samples, wide, channels);
        score::lemma_step(
            s,
            m0,
            m1,
            a2,
            l1,
            seq![
                score::widen(
                    x,
                    read,
                    batch as int,
                    channels as int,
                    samples as int,
                    samples as int,
                    wide as int,
                    channels as int,
                ),
            ],
        );
        let a3 = a2 + seq![
            score::widen(
                x,
                read,
                batch as int,
                channels as int,
                samples as int,
                samples as int,
                wide as int,
                channels as int,
            ),
        ];
        assert(a3 =~= widens(x, read, channels, batch));
        assert(l1 =~= seq![read]);
    } else {
        score::lemma_stay(s);
    }
}


#[verifier::rlimit(100)]
proof fn lemma_encodes_samples(
    k: Kernels,
    s: Plan,
    scratch: TensorView,
    x: TensorView,
    layer: GpuEnc,
    batch: usize,
    index: nat,
) -> (c: EncoderLayer)
    ensures
        c.w.len() == 3,
        reads(layer, x, batch, c),
        ({
            let n = layer.dconv.layers@.len();
            conv_steps::is_branch(
                c.branch,
                n,
                (TensorView {
                    buffer: c.w[0].buffer,
                    offset: 0,
                    shape: seq![
                        batch,
                        layer.conv.out_channels,
                        ((x.shape[2] + 3) / 4) as usize,
                    ],
                }),
                c.branch.x[n as int],
            )
        }),
        ({
            let (r, room, y) = encoder::time_layer_plan(k, s, scratch, x, layer, batch, index);
            &&& y == samples_left(layer, x, batch, c)
            &&& score::runs(
                s,
                r,
                encodes_samples(k, layer, x, batch, c),
                samples_made(layer, x, c),
            )
        }),
{
    reveal(encoder::time_layer_plan);
    reveal(encodes_samples);
    let a0 = score::silence();
    let l0 = score::nothing();
    score::lemma_stay(s);
    let name = "tencoder."@ + text::decimal(index);
    let kept = encoder::time_kept(x.shape[2] as int) as usize;
    assert(encoder::time_kept(x.shape[2] as int) == (x.shape[2] + 3) / 4);
    let oc = layer.conv.out_channels;
    let wide = layer.rewrite.out_channels;
    let half = (wide / 2) as usize;
    let n = layer.dconv.layers@.len();
    let full = (half * kept) as usize;
    let shape = seq![batch, half, kept];
    let (s1, read) = encoder::widened_plan(k, s, x, layer.conv.in_channels, batch, index);
    lemma_widens(k, s, x, layer.conv.in_channels, batch, index);
    let wider = widens(x, read, layer.conv.in_channels, batch);
    let extra = if x.shape[2] % 4 != 0 { seq![read] } else { score::nothing() };
    score::lemma_then(s, s, s1, a0, l0, wider, extra);
    let a1 = a0 + wider;
    let l1 = l0 + extra;
    assert(a1 =~= wider);
    assert(l1 =~= extra);
    let w0 = s1.fresh(seq![batch, oc, 1, kept]);
    let t1 = s1.tensor(seq![batch, oc, 1, kept], name + ".conv"@);
    score::lemma_tensor(s1, seq![batch, oc, 1, kept], name + ".conv"@);
    score::lemma_made(s, s1, t1, a1, l1, w0);
    let l2 = l1.push(w0);
    let (s2, room) = stages::conv_stage_plan(k, t1, scratch, read, layer.conv, w0);
    let conv = conv_steps::convolution_of(k, layer.conv, read, room, w0);
    conv_steps::lemma_convolution(k, t1, scratch, read, layer.conv, w0);
    score::lemma_step(s, t1, s2, a1, l2, conv);
    let a3 = a1 + conv;
    let convolved = recorder::window(w0, 0, seq![batch, oc, kept]);
    assert(
        convolved == (TensorView { buffer: w0.buffer, offset: 0, shape: seq![batch, oc, kept] })
    );
    let q2 = s2.slice(w0, 0, seq![batch, oc, kept]);
    score::lemma_slice(s2, w0, 0, seq![batch, oc, kept]);
    score::lemma_silent(s, s2, q2, a3, l2);
    let s3 = q2.trace(name + ".conv"@, convolved);
    score::lemma_trace(q2, name + ".conv"@, name + ".conv"@, convolved);
    score::lemma_silent(s, q2, s3, a3, l2);
    let m3 = k.gelu_in_place_plan(s3, convolved);
    score::lemma_activate(k, s3, convolved);
    score::lemma_step(s, s3, m3, a3, l2, seq![score::activate(convolved)]);
    let a4 = a3 + seq![score::activate(convolved)];
    let s4 = m3.trace(name + ".conv.gelu"@, convolved);
    score::lemma_trace(m3, name + ".conv.gelu"@, name + ".conv.gelu"@, convolved);
    score::lemma_silent(s, m3, s4, a4, l2);
    let branch = conv_steps::law_every_branch_layer_applies_its_own_weights(
        k,
        s4,
        room,
        convolved,
        layer.dconv.layers@,
        batch,
        kept,
        n,
    );
    let (s5, room2, branched) = stages::dconv_stage_plan(
        k,
        s4,
        room,
        convolved,
        layer.dconv.layers@,
        batch,
        kept,
        n,
    );
    score::lemma_then(
        s,
        s4,
        s5,
        a4,
        l2,
        conv_steps::branch_steps(k, layer.dconv.layers@, batch, kept, branch, n),
        conv_steps::branch_made(branch, n),
    );
    let a5 = a4 + conv_steps::branch_steps(k, layer.dconv.layers@, batch, kept, branch, n);
    let l5 = l2 + conv_steps::branch_made(branch, n);
    let w1 = s5.fresh(seq![batch, wide, kept]);
    let t5 = s5.tensor(seq![batch, wide, kept], name + ".rewrite"@);
    score::lemma_tensor(s5, seq![batch, wide, kept], name + ".rewrite"@);
    score::lemma_made(s, s5, t5, a5, l5, w1);
    let l6 = l5.push(w1);
    let (s6, room3) = stages::conv_stage_plan(k, t5, room2, branched, layer.rewrite, w1);
    let again = conv_steps::convolution_of(k, layer.rewrite, branched, room3, w1);
    conv_steps::lemma_convolution(k, t5, room2, branched, layer.rewrite, w1);
    score::lemma_step(s, t5, s6, a5, l6, again);
    let a7 = a5 + again;
    let s7 = s6.trace(name + ".rewrite"@, w1);
    score::lemma_trace(s6, name + ".rewrite"@, name + ".rewrite"@, w1);
    score::lemma_silent(s, s6, s7, a7, l6);
    let w2 = s7.fresh(seq![batch, full]);
    let g1 = k.glu_plan(s7, w1, batch, full);
    score::lemma_gate(k, s7, w1, batch, full);
    score::lemma_then(
        s,
        s7,
        g1,
        a7,
        l6,
        seq![score::gate(w1, w2, batch as int, full as int)],
        seq![w2],
    );
    let a8 = a7 + seq![score::gate(w1, w2, batch as int, full as int)];
    let l8 = l6 + seq![w2];
    let s8 = g1.reshape(w2, shape);
    score::lemma_reshape(g1, w2, shape);
    score::lemma_silent(s, g1, s8, a8, l8);
    let left = recorder::reshaped(w2, shape);
    let c = EncoderLayer { read, w: seq![w0, w1, w2], rooms: (room, room3), branch };
    assert(left == samples_left(layer, x, batch, c));
    let s9 = s8.trace(name, left);
    score::lemma_trace(s8, name, name, left);
    score::lemma_silent(s, s8, s9, a8, l8);
    assert(a8 =~= encodes_samples(k, layer, x, batch, c));
    assert(l8 =~= samples_made(layer, x, c));
    c
}


// ------------------------------------------------------------------------- stacks

/// The course of an encoder: the course of every layer, and where in the pass each begins.
pub struct EncoderCourse {
    pub layers: Seq<EncoderLayer>,
    pub marks: Seq<int>,
}

/// What layer `i` of an encoder takes: the input, or what the layer before left.
pub open spec fn taken(x: TensorView, saved: Seq<TensorView>, i: int) -> TensorView {
    if i == 0 {
        x
    } else {
        saved[i - 1]
    }
}


/// Whether the commands of spectrogram layer `i` are what that layer does, by that layer's
/// weights, and `saved` holds what it left.
pub open spec fn encodes_all_bins_at(
    commands: Seq<CommandView>,
    from: int,
    to: int,
    k: Kernels,
    x: TensorView,
    layers: Seq<GpuEnc>,
    embedding: TensorView,
    batch: usize,
    frames: usize,
    saved: Seq<TensorView>,
    c: EncoderCourse,
    i: int,
) -> bool {
    let begin = c.marks[i];
    let end = c.marks[i + 1];
    let n = layers[i].dconv.layers@.len();
    let its = taken(x, saved, i);
    let layer = layers[i];
    let l = c.layers[i];
    &&& from <= begin && begin <= end && end <= to
    &&& l.read == its && l.w.len() == 5
    &&& conv_steps::is_branch(l.branch, n, l.branch.x[0], l.branch.x[n as int])
    &&& score::score(commands.subrange(begin, end)) == encodes_bins(
        k,
        layer,
        embedding,
        batch,
        frames,
        l,
        i == 0,
    )
    &&& saved[i] == bins_left(layer, batch, frames, l)
}

/// Whether commands from `from` to `to` are the spectrogram layers, in order.
pub open spec fn encodes_all_bins(
    commands: Seq<CommandView>,
    from: int,
    to: int,
    k: Kernels,
    x: TensorView,
    layers: Seq<GpuEnc>,
    embedding: TensorView,
    batch: usize,
    frames: usize,
    saved: Seq<TensorView>,
    n: nat,
    c: EncoderCourse,
) -> bool {
    &&& c.layers.len() == n && c.marks.len() == n + 1 && saved.len() == n
    &&& c.marks[0] == from && c.marks[n as int] == to
    &&& forall|i: int|
        0 <= i < n ==> #[trigger] encodes_all_bins_at(
            commands,
            from,
            to,
            k,
            x,
            layers,
            embedding, batch, frames,
            saved,
            c,
            i,
        )
}

proof fn lemma_encodes_all_bins_stays(
    before: Seq<CommandView>,
    after: Seq<CommandView>,
    from: int,
    mid: int,
    to: int,
    k: Kernels,
    x: TensorView,
    layers: Seq<GpuEnc>,
    embedding: TensorView,
    batch: usize,
    frames: usize,
    saved: Seq<TensorView>,
    c: EncoderCourse,
    last: TensorView,
    d: EncoderCourse,
    i: int,
)
    requires
        0 <= from,
        0 <= i < saved.len(),
        encodes_all_bins_at(before, from, mid, k, x, layers, embedding, batch, frames, saved, c, i),
        mid <= to,
        mid == before.len(),
        mid <= after.len(),
        after.take(mid) == before,
        c.layers[i] == d.layers[i],
        c.marks[i] == d.marks[i] && c.marks[i + 1] == d.marks[i + 1],
    ensures
        encodes_all_bins_at(
            after,
            from,
            to,
            k,
            x,
            layers,
            embedding,
            batch,
            frames,
            saved.push(last),
            d,
            i,
        ),
{
    assert forall|j: int| 0 <= j < mid implies after[j] == before[j] by {
        assert(after.take(mid)[j] == after[j]);
    }
    assert(after.subrange(d.marks[i], d.marks[i + 1]) =~= before.subrange(
        c.marks[i],
        c.marks[i + 1],
    ));
    assert(taken(x, saved, i) == taken(x, saved.push(last), i));
}

/// The spectrogram encoder's layers are run through in order: layer `i` applies the weights
/// of layer `i` to what the layer before it left, the first to the input; only the first
/// adds the frequencies' own bias; and what every layer left is kept, in order.
pub proof fn law_every_spectrogram_layer_applies_its_own_weights(
    k: Kernels,
    s: Plan,
    scratch: TensorView,
    x: TensorView,
    layers: Seq<GpuEnc>,
    embedding: TensorView,
    batch: usize,
    frames: usize,
    n: nat,
) -> (c: EncoderCourse)
    ensures
        ({
            let (r, room, saved) = encoder::freq_layers_plan(
                k,
                s,
                scratch,
                x,
                layers,
                embedding,
                batch,
                frames,
                n,
            );
            &&& saved.len() == n
            &&& r.fault is None ==> {
                &&& encodes_all_bins(
                    r.commands,
                    s.commands.len() as int,
                    r.commands.len() as int,
                    k,
                    x,
                    layers,
                    embedding, batch, frames,
                    saved,
                    n,
                    c,
                )
                &&& s.fault is None && r.id == s.id
                &&& s.commands.len() <= r.commands.len()
                &&& r.commands.take(s.commands.len() as int) == s.commands
                &&& r.commands.len() <= usize::MAX ==> forall|i: int|
                    0 <= i < n ==> score::stand(
                        bins_made(layers[i], (#[trigger] c.layers[i])),
                        s.id,
                        c.marks[i],
                        c.marks[i + 1],
                    )
            }
        }),
    decreases n,
{
    reveal(encoder::freq_layers_plan);
    if n == 0 {
        assert(s.commands.take(s.commands.len() as int) =~= s.commands);
        EncoderCourse { layers: Seq::empty(), marks: seq![s.commands.len() as int] }
    } else {
        let m = (n - 1) as nat;
        let e = law_every_spectrogram_layer_applies_its_own_weights(
            k,
            s,
            scratch,
            x,
            layers,
            embedding,
            batch,
            frames,
            m,
        );
        let (before, room, saved) = encoder::freq_layers_plan(
            k,
            s,
            scratch,
            x,
            layers,
            embedding,
            batch,
            frames,
            m,
        );
        let input = if n == 1 {
            x
        } else {
            saved.last()
        };
        let layer = layers[n - 1];
        let (r, room1, y) = encoder::freq_layer_plan(
            k,
            before,
            room,
            input,
            layer,
            embedding,
            batch,
            frames,
            m,
        );
        let a = lemma_encodes_bins(k, before, room, input, layer, embedding, batch, frames, m);
        let d = EncoderCourse {
            layers: e.layers.push(a),
            marks: e.marks.push(r.commands.len() as int),
        };
        if r.fault is None {
            score::lemma_spent(
                before,
                r,
                encodes_bins(k, layer, embedding, batch, frames, a, m == 0),
                bins_made(layer, a),
            );
            let from = s.commands.len() as int;
            let mid = before.commands.len() as int;
            let to = r.commands.len() as int;
            assert forall|j: int| 0 <= j < mid implies r.commands[j] == before.commands[j] by {
                assert(r.commands.take(mid)[j] == r.commands[j]);
            }
            assert(r.commands.take(from) =~= before.commands.take(from));
            let all = saved.push(y);
            assert(d.marks[m as int] == mid && d.marks[n as int] == to && d.marks[0] == from);
            assert(d.layers[m as int] == a);
            assert(taken(x, all, m as int) == input);
            assert(all[m as int] == y);
            assert(
                encodes_all_bins_at(
                    r.commands,
                    from,
                    to,
                    k,
                    x,
                    layers,
                    embedding,
                    batch,
                    frames,
                    all,
                    d,
                    m as int,
                )
            );
            assert forall|i: int| 0 <= i < n implies #[trigger] encodes_all_bins_at(
                r.commands,
                from,
                to,
                k,
                x,
                layers,
                embedding, batch, frames,
                all,
                d,
                i,
            ) by {
                if i < m {
                    lemma_encodes_all_bins_stays(
                        before.commands,
                        r.commands,
                        from,
                        mid,
                        to,
                        k,
                        x,
                        layers,
                        embedding, batch, frames,
                        saved,
                        e,
                        y,
                        d,
                        i,
                    );
                }
            }
            if to <= usize::MAX {
                assert forall|i: int| 0 <= i < n implies score::stand(
                    bins_made(layers[i], (#[trigger] d.layers[i])),
                    s.id,
                    d.marks[i],
                    d.marks[i + 1],
                ) by {
                    if i < m {
                        assert(e.layers[i] == d.layers[i]);
                        assert(e.marks[i] == d.marks[i] && e.marks[i + 1] == d.marks[i + 1]);
                        assert(taken(x, saved, i) == taken(x, all, i));
                    }
                }
            }
        }
        d
    }
}


/// Whether the commands of waveform layer `i` are what that layer does, by that layer's
/// weights, and `saved` holds what it left.
pub open spec fn encodes_all_samples_at(
    commands: Seq<CommandView>,
    from: int,
    to: int,
    k: Kernels,
    x: TensorView,
    layers: Seq<GpuEnc>,
    batch: usize,
    saved: Seq<TensorView>,
    c: EncoderCourse,
    i: int,
) -> bool {
    let begin = c.marks[i];
    let end = c.marks[i + 1];
    let n = layers[i].dconv.layers@.len();
    let its = taken(x, saved, i);
    let layer = layers[i];
    let l = c.layers[i];
    &&& from <= begin && begin <= end && end <= to
    &&& reads(layer, its, batch, l) && l.w.len() == 3
    &&& conv_steps::is_branch(l.branch, n, l.branch.x[0], l.branch.x[n as int])
    &&& score::score(commands.subrange(begin, end)) == encodes_samples(k, layer, its, batch, l)
    &&& saved[i] == samples_left(layer, its, batch, l)
}

/// Whether commands from `from` to `to` are the waveform layers, in order.
pub open spec fn encodes_all_samples(
    commands: Seq<CommandView>,
    from: int,
    to: int,
    k: Kernels,
    x: TensorView,
    layers: Seq<GpuEnc>,
    batch: usize,
    saved: Seq<TensorView>,
    n: nat,
    c: EncoderCourse,
) -> bool {
    &&& c.layers.len() == n && c.marks.len() == n + 1 && saved.len() == n
    &&& c.marks[0] == from && c.marks[n as int] == to
    &&& forall|i: int|
        0 <= i < n ==> #[trigger] encodes_all_samples_at(
            commands,
            from,
            to,
            k,
            x,
            layers,
            batch,
            saved,
            c,
            i,
        )
}

proof fn lemma_encodes_all_samples_stays(
    before: Seq<CommandView>,
    after: Seq<CommandView>,
    from: int,
    mid: int,
    to: int,
    k: Kernels,
    x: TensorView,
    layers: Seq<GpuEnc>,
    batch: usize,
    saved: Seq<TensorView>,
    c: EncoderCourse,
    last: TensorView,
    d: EncoderCourse,
    i: int,
)
    requires
        0 <= from,
        0 <= i < saved.len(),
        encodes_all_samples_at(before, from, mid, k, x, layers, batch, saved, c, i),
        mid <= to,
        mid == before.len(),
        mid <= after.len(),
        after.take(mid) == before,
        c.layers[i] == d.layers[i],
        c.marks[i] == d.marks[i] && c.marks[i + 1] == d.marks[i + 1],
    ensures
        encodes_all_samples_at(after, from, to, k, x, layers, batch, saved.push(last), d, i),
{
    assert forall|j: int| 0 <= j < mid implies after[j] == before[j] by {
        assert(after.take(mid)[j] == after[j]);
    }
    assert(after.subrange(d.marks[i], d.marks[i + 1]) =~= before.subrange(
        c.marks[i],
        c.marks[i + 1],
    ));
    assert(taken(x, saved, i) == taken(x, saved.push(last), i));
}

/// The waveform encoder's layers are run through in order: layer `i` applies the weights of
/// layer `i` to what the layer before it left, the first to the input, brought to a
/// multiple of four samples with zeros; and what every layer left is kept, in order.
pub proof fn law_every_waveform_layer_applies_its_own_weights(
    k: Kernels,
    s: Plan,
    scratch: TensorView,
    x: TensorView,
    layers: Seq<GpuEnc>,
    batch: usize,
    n: nat,
) -> (c: EncoderCourse)
    ensures
        ({
            let (r, room, saved) = encoder::time_layers_plan(k, s, scratch, x, layers, batch, n);
            &&& saved.len() == n
            &&& r.fault is None ==> {
                &&& encodes_all_samples(
                    r.commands,
                    s.commands.len() as int,
                    r.commands.len() as int,
                    k,
                    x,
                    layers,
                    batch,
                    saved,
                    n,
                    c,
                )
                &&& s.fault is None && r.id == s.id
                &&& s.commands.len() <= r.commands.len()
                &&& r.commands.take(s.commands.len() as int) == s.commands
                &&& r.commands.len() <= usize::MAX ==> forall|i: int|
                    0 <= i < n ==> score::stand(
                        samples_made(layers[i], taken(x, saved, i), (#[trigger] c.layers[i])),
                        s.id,
                        c.marks[i],
                        c.marks[i + 1],
                    )
            }
        }),
    decreases n,
{
    reveal(encoder::time_layers_plan);
    if n == 0 {
        assert(s.commands.take(s.commands.len() as int) =~= s.commands);
        EncoderCourse { layers: Seq::empty(), marks: seq![s.commands.len() as int] }
    } else {
        let m = (n - 1) as nat;
        let e = law_every_waveform_layer_applies_its_own_weights(
            k,
            s,
            scratch,
            x,
            layers,
            batch,
            m,
        );
        let (before, room, saved) = encoder::time_layers_plan(k, s, scratch, x, layers, batch, m);
        let input = if n == 1 {
            x
        } else {
            saved.last()
        };
        let layer = layers[n - 1];
        let (r, room1, y) = encoder::time_layer_plan(k, before, room, input, layer, batch, m);
        let a = lemma_encodes_samples(k, before, room, input, layer, batch, m);
        let d = EncoderCourse {
            layers: e.layers.push(a),
            marks: e.marks.push(r.commands.len() as int),
        };
        if r.fault is None {
            score::lemma_spent(
                before,
                r,
                encodes_samples(k, layer, input, batch, a),
                samples_made(layer, input, a),
            );
            let from = s.commands.len() as int;
            let mid = before.commands.len() as int;
            let to = r.commands.len() as int;
            assert forall|j: int| 0 <= j < mid implies r.commands[j] == before.commands[j] by {
                assert(r.commands.take(mid)[j] == r.commands[j]);
            }
            assert(r.commands.take(from) =~= before.commands.take(from));
            let all = saved.push(y);
            assert(d.marks[m as int] == mid && d.marks[n as int] == to && d.marks[0] == from);
            assert(d.layers[m as int] == a);
            assert(taken(x, all, m as int) == input);
            assert(all[m as int] == y);
            assert(
                encodes_all_samples_at(r.commands, from, to, k, x, layers, batch, all, d, m as int)
            );
            assert forall|i: int| 0 <= i < n implies #[trigger] encodes_all_samples_at(
                r.commands,
                from,
                to,
                k,
                x,
                layers,
                batch,
                all,
                d,
                i,
            ) by {
                if i < m {
                    lemma_encodes_all_samples_stays(
                        before.commands,
                        r.commands,
                        from,
                        mid,
                        to,
                        k,
                        x,
                        layers,
                        batch,
                        saved,
                        e,
                        y,
                        d,
                        i,
                    );
                }
            }
            if to <= usize::MAX {
                assert forall|i: int| 0 <= i < n implies score::stand(
                    samples_made(layers[i], taken(x, all, i), (#[trigger] d.layers[i])),
                    s.id,
                    d.marks[i],
                    d.marks[i + 1],
                ) by {
                    if i < m {
                        assert(e.layers[i] == d.layers[i]);
                        assert(e.marks[i] == d.marks[i] && e.marks[i + 1] == d.marks[i + 1]);
                        assert(taken(x, saved, i) == taken(x, all, i));
                    }
                }
            }
        }
        d
    }
}

} // verus!