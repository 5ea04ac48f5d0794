//! The steps of one layer of the transformer, and that planning a layer records them.

use vstd::prelude::*;

use crate::gpu::arith;
use crate::gpu::kernels::Kernels;
use crate::gpu::recorder::Plan;
use crate::gpu::score;
use crate::gpu::score::Step;
use crate::gpu::shaders;
use crate::gpu::shapes::{Activation, GemmJob, GroupNormShape};
use crate::gpu::stages;
use crate::gpu::stages::{GpuProj, LayerNorm};
use crate::gpu::tensor::TensorView;
use crate::gpu::transformer;
use crate::gpu::transformer::{GpuTransformerLayer, Heads};

verus! {

// -------------------------------------------------------------------------- parts

/// A tensor's numbers under another shape.
pub open spec fn seen_as(t: TensorView, shape: Seq<usize>) -> TensorView {
    TensorView { buffer: t.buffer, offset: 0, shape }
}

/// A projection of `tokens` rows: the product with the weights, which are stored by
/// outputs and padded, and the bias.
pub open spec fn projects(
    x: TensorView,
    p: GpuProj,
    out: TensorView,
    tokens: usize,
    ones: TensorView,
) -> Seq<Step> {
    score::product(
        x,
        p.weight@,
        out,
        GemmJob {
            m: tokens,
            n: p.out_features,
            k: p.in_features,
            lda: p.in_features,
            ldb: arith::padded(p.in_features as int, shaders::BK as int) as usize,
            ldc: p.out_features,
            batches: 1,
            inner_count: 1,
            a_outer: 0,
            a_inner: 0,
            b_outer: 0,
            b_inner: 0,
            c_outer: 0,
            c_inner: 0,
            transb: true,
        },
    ) + seq![score::rescale(out, ones, p.bias@, tokens as int, p.out_features as int, 1)]
}

/// Every row of `x` normalised over its features.
pub open spec fn norms_rows(x: TensorView, norm: LayerNorm, out: TensorView, rows: usize) -> Step {
    score::normalise(
        x,
        norm.scale@,
        norm.shift@,
        out,
        GroupNormShape {
            rows,
            groups: 1,
            per_group: norm.dim,
            len: 1,
            row_stride: norm.dim,
            len_stride: 1,
            channel_stride: 1,
            eps: stages::NORM_EPS,
        },
    )
}

/// Every segment of `x` normalised over all its rows and features.
pub open spec fn norms_segments(
    x: TensorView,
    norm: LayerNorm,
    out: TensorView,
    rows: usize,
    batch: usize,
) -> Step {
    let tokens = (rows / batch) as usize;
    score::normalise(
        x,
        norm.scale@,
        norm.shift@,
        out,
        GroupNormShape {
            rows: batch,
            groups: 1,
            per_group: norm.dim,
            len: tokens,
            row_stride: (norm.dim * tokens) as usize,
            len_stride: norm.dim,
            channel_stride: 1,
            eps: stages::NORM_EPS,
        },
    )
}

/// What queries take from keys and values, head by head: the queries are multiplied with
/// the keys, scaled and softened row by row, multiplied with the values, and the heads are
/// put together again. The tensors in between are the scores, the weights and their sums.
#[verifier::opaque]
pub open spec fn weighs(
    q: TensorView,
    keys: TensorView,
    values: TensorView,
    out: TensorView,
    heads: Heads,
    batch: usize,
    q_tokens: usize,
    k_tokens: usize,
    width: usize,
    w: Seq<TensorView>,
) -> Seq<Step> {
    let h = heads.count;
    let pairs = (batch * h) as usize;
    score::product(
        q,
        keys,
        w[0],
        GemmJob {
            m: q_tokens,
            n: k_tokens,
            k: width,
            lda: width,
            ldb: width,
            ldc: k_tokens,
            batches: pairs,
            inner_count: h,
            a_outer: (h * q_tokens * width) as usize,
            a_inner: (q_tokens * width) as usize,
            b_outer: (h * k_tokens * width) as usize,
            b_inner: (k_tokens * width) as usize,
            c_outer: (h * q_tokens * k_tokens) as usize,
            c_inner: (q_tokens * k_tokens) as usize,
            transb: true,
        },
    ) + seq![
        score::soften(
            w[0],
            w[1],
            (batch * h * q_tokens) as usize as int,
            k_tokens as int,
            heads.scale,
        ),
    ] + score::product(
        w[1],
        values,
        w[2],
        GemmJob {
            m: q_tokens,
            n: width,
            k: k_tokens,
            lda: k_tokens,
            ldb: width,
            ldc: width,
            batches: pairs,
            inner_count: h,
            a_outer: (h * q_tokens * k_tokens) as usize,
            a_inner: (q_tokens * k_tokens) as usize,
            b_outer: (h * k_tokens * width) as usize,
            b_inner: (k_tokens * width) as usize,
            c_outer: (h * q_tokens * width) as usize,
            c_inner: (q_tokens * width) as usize,
            transb: false,
        },
    ) + seq![
        score::exchange(w[2], out, batch as int, h as int, q_tokens as int, width as int),
    ]
}

/// Attention of queries to keys and values: each is split into its heads, and the heads
/// are weighed. The tensors in between are the three splits and those of the weighing.
pub open spec fn attends(
    q: TensorView,
    keys: TensorView,
    values: TensorView,
    out: TensorView,
    heads: Heads,
    batch: usize,
    q_tokens: usize,
    k_tokens: usize,
    width: usize,
    w: Seq<TensorView>,
) -> Seq<Step> {
    let h = heads.count;
    let pairs = (batch * h) as usize;
    seq![score::exchange(q, w[0], batch as int, q_tokens as int, h as int, width as int)] + seq![
        score::exchange(keys, w[1], batch as int, k_tokens as int, h as int, width as int),
    ] + seq![
        score::exchange(values, w[2], batch as int, k_tokens as int, h as int, width as int),
    ] + weighs(
        seen_as(w[0], seq![pairs, q_tokens, width]),
        seen_as(w[1], seq![pairs, k_tokens, width]),
        seen_as(w[2], seq![pairs, k_tokens, width]),
        out,
        heads,
        batch,
        q_tokens,
        k_tokens,
        width,
        w.subrange(3, 6),
    )
}

/// The attending half of a layer on `x`: queries from one normalised tensor, keys and
/// values from another, attention, the projection out of it, the layer's own scale, and
/// the sum with `x`. The tensors in between are queries, keys, values, what attention
/// gives, attention's own six, the projection, and the sum.
pub open spec fn attending(
    layer: GpuTransformerLayer,
    x: TensorView,
    normed_q: TensorView,
    normed_k: TensorView,
    heads: Heads,
    ones: TensorView,
    zeros: TensorView,
    q_rows: usize,
    k_rows: usize,
    batch: usize,
    w: Seq<TensorView>,
) -> Seq<Step> {
    projects(normed_q, layer.q_proj, w[0], q_rows, ones) + projects(
        normed_k,
        layer.k_proj,
        w[1],
        k_rows,
        ones,
    ) + projects(normed_k, layer.v_proj, w[2], k_rows, ones) + attends(
        w[0],
        w[1],
        w[2],
        w[3],
        heads,
        batch,
        (q_rows / batch) as usize,
        (k_rows / batch) as usize,
        (layer.dim / heads.count) as usize,
        w.subrange(4, 10),
    ) + projects(w[3], layer.out_proj, w[10], q_rows, ones) + seq![
        score::rescale(w[10], layer.gamma1@, zeros, q_rows as int, layer.dim as int, 1),
        score::copy(x, w[11], x.len() as usize as int),
        score::sum_into(w[11], w[10]),
    ]
}

/// The feeding half of a layer on `x`: a norm, a projection, the activation, a projection,
/// the layer's own scale, the sum with `x`, and the norm over every segment. The tensors
/// in between are the normalised one, the hidden one, the projection, the sum, and the
/// layer's result.
pub open spec fn feeding(
    layer: GpuTransformerLayer,
    norm: LayerNorm,
    x: TensorView,
    ones: TensorView,
    zeros: TensorView,
    rows: usize,
    batch: usize,
    w: Seq<TensorView>,
) -> Seq<Step> {
    seq![norms_rows(x, norm, w[0], rows)] + projects(w[0], layer.linear1, w[1], rows, ones) + seq![
        score::activate(w[1]),
    ] + projects(w[1], layer.linear2, w[2], rows, ones) + seq![
        score::rescale(w[2], layer.gamma2@, zeros, rows as int, layer.dim as int, 1),
        score::copy(x, w[3], x.len() as usize as int),
        score::sum_into(w[3], w[2]),
        norms_segments(w[3], layer.norm_out, w[4], rows, batch),
    ]
}

/// A layer that attends to itself: everything comes from `x`, normalised by the layer's
/// first norm; the second stands in front of the feeding half. The last of the tensors is
/// the result.
pub open spec fn attends_itself(
    layer: GpuTransformerLayer,
    x: TensorView,
    heads: Heads,
    ones: TensorView,
    zeros: TensorView,
    rows: usize,
    batch: usize,
    w: Seq<TensorView>,
) -> Seq<Step> {
    seq![norms_rows(x, layer.norm1, w[0], rows)] + attending(
        layer,
        x,
        w[0],
        w[0],
        heads,
        ones,
        zeros,
        rows,
        rows,
        batch,
        w.subrange(1, 13),
    ) + feeding(layer, layer.norm2, w[12], ones, zeros, rows, batch, w.subrange(13, 18))
}

/// A layer that attends to the other branch: queries come from `x` by the first norm, keys
/// and values from `other` by the second, and the third stands in front of the feeding
/// half. The last of the tensors is the result.
pub open spec fn attends_other(
    layer: GpuTransformerLayer,
    x: TensorView,
    other: TensorView,
    heads: Heads,
    ones: TensorView,
    zeros: TensorView,
    rows: usize,
    other_rows: usize,
    batch: usize,
    w: Seq<TensorView>,
) -> Seq<Step> {
    seq![
        norms_rows(x, layer.norm1, w[0], rows),
        norms_rows(other, layer.norm2, w[1], other_rows),
    ] + attending(
        layer,
        x,
        w[0],
        w[1],
        heads,
        ones,
        zeros,
        rows,
        other_rows,
        batch,
        w.subrange(2, 14),
    ) + feeding(layer, layer.norm3->0, w[13], ones, zeros, rows, batch, w.subrange(14, 19))
}


pub proof fn lemma_projects(
    k: Kernels,
    s: Plan,
    x: TensorView,
    p: GpuProj,
    out: TensorView,
    tokens: usize,
    ones: TensorView,
)
    ensures
        score::runs(
            s,
            stages::proj_stage_plan(k, s, x, p, out, tokens, ones),
            projects(x, p, out, tokens, ones),
            score::nothing(),
        ),
{
    reveal(stages::proj_stage_plan);
    let job = stages::proj_job(p, tokens);
    let m = k.gemm_into_plan(s, x, p.weight@, out, job);
    score::lemma_product(k, s, x, p.weight@, out, job);
    score::lemma_rescale(k, m, out, ones, p.bias@, tokens, p.out_features, 1);
    score::lemma_step(
        s,
        m,
        stages::proj_stage_plan(k, s, x, p, out, tokens, ones),
        score::product(x, p.weight@, out, job),
        score::nothing(),
        seq![score::rescale(out, ones, p.bias@, tokens as int, p.out_features as int, 1)],
    );
}

pub proof fn lemma_norms_rows(
    k: Kernels,
    s: Plan,
    x: TensorView,
    norm: LayerNorm,
    out: TensorView,
    rows: usize,
)
    ensures
        score::runs(
            s,
            stages::layer_norm_stage_plan(k, s, x, out, norm, rows),
            seq![norms_rows(x, norm, out, rows)],
            score::nothing(),
        ),
{
    reveal(stages::layer_norm_stage_plan);
    score::lemma_normalise(
        k,
        s,
        x,
        norm.scale@,
        norm.shift@,
        out,
        stages::token_norm(norm.dim, rows),
    );
}

proof fn lemma_norms_segments(
    k: Kernels,
    s: Plan,
    x: TensorView,
    norm: LayerNorm,
    out: TensorView,
    rows: usize,
    batch: usize,
)
    ensures
        score::runs(
            s,
            stages::group_norm_positions_stage_plan(k, s, x, out, norm, rows, batch),
            seq![norms_segments(x, norm, out, rows, batch)],
            score::nothing(),
        ),
{
    reveal(stages::group_norm_positions_stage_plan);
    score::lemma_normalise(
        k,
        s,
        x,
        norm.scale@,
        norm.shift@,
        out,
        stages::segment_norm(norm.dim, rows, batch),
    );
}


proof fn lemma_split(
    k: Kernels,
    s: Plan,
    x: TensorView,
    batch: usize,
    tokens: usize,
    heads: usize,
    width: usize,
    label: Seq<char>,
)
    ensures
        ({
            let raw = s.fresh(seq![x.shape[0], heads, width]);
            let (r, y) = transformer::split_plan(k, s, x, batch, tokens, heads, width, label);
            &&& y == seen_as(raw, seq![(batch * heads) as usize, tokens, width])
            &&& score::runs(
                s,
                r,
                seq![
                    score::exchange(
                        x,
                        raw,
                        batch as int,
                        tokens as int,
                        heads as int,
                        width as int,
                    ),
                ],
                seq![raw],
            )
        }),
{
    let a0 = score::silence();
    let l0 = score::nothing();
    score::lemma_stay(s);
    let raw = s.fresh(seq![x.shape[0], heads, width]);
    let t0 = s.tensor(seq![x.shape[0], heads, width], label + ".split"@);
    score::lemma_tensor(s, seq![x.shape[0], heads, width], label + ".split"@);
    score::lemma_made(s, s, t0, a0, l0, raw);
    let l1 = l0.push(raw);
    let m0 = k.transpose_plan(t0, x, raw, batch, tokens, heads, width);
    score::lemma_exchange(k, t0, x, raw, batch, tokens, heads, width);
    score::lemma_step(
        s,
        t0,
        m0,
        a0,
        l1,
        seq![score::exchange(x, raw, batch as int, tokens as int, heads as int, width as int)],
    );
    let a2 = a0 + seq![
        score::exchange(x, raw, batch as int, tokens as int, heads as int, width as int),
    ];
    assert(
        a2 =~= seq![
            score::exchange(x, raw, batch as int, tokens as int, heads as int, width as int),
        ]
    );
    let shape = seq![(batch * heads) as usize, tokens, width];
    let r0 = m0.reshape(raw, shape);
    score::lemma_reshape(m0, raw, shape);
    score::lemma_silent(s, m0, r0, a2, l1);
    assert(l1 =~= seq![raw]);
}

/// The plan of attention behind its splits.
#[verifier::opaque]
spec fn weigh_plan(
    k: Kernels,
    s: Plan,
    heads: Heads,
    q: TensorView,
    keys: TensorView,
    v: TensorView,
    batch: usize,
    q_tokens: usize,
    k_tokens: usize,
    width: usize,
    out: TensorView,
    label: Seq<char>,
) -> Plan {
    let pairs = (batch * heads.count) as usize;
    let plane = seq![pairs, q_tokens, k_tokens];
    let s1 = k.gemm_into_plan(
        s.tensor(plane, label + ".scores"@),
        q,
        keys,
        s.fresh(plane),
        transformer::scores_job(batch, heads.count, q_tokens, k_tokens, width),
    );
    let s2 = k.softmax_scaled_plan(
        s1.tensor(plane, label + ".softmax"@),
        s.fresh(plane),
        s1.fresh(plane),
        (batch * heads.count * q_tokens) as usize,
        k_tokens,
        heads.scale,
    );
    let context = s2.fresh(seq![pairs, q_tokens, width]);
    let s3 = k.gemm_into_plan(
        s2.tensor(seq![pairs, q_tokens, width], label + ".ctx"@),
        s1.fresh(plane),
        v,
        context,
        transformer::context_job(batch, heads.count, q_tokens, k_tokens, width),
    );
    k.transpose_plan(s3, context, out, batch, heads.count, q_tokens, width)
}


#[verifier::rlimit(100)]
proof fn lemma_weighs(
    k: Kernels,
    s: Plan,
    heads: Heads,
    q: TensorView,
    keys: TensorView,
    v: TensorView,
    batch: usize,
    q_tokens: usize,
    k_tokens: usize,
    width: usize,
    out: TensorView,
    label: Seq<char>,
) -> (w: Seq<TensorView>)
    ensures
        w.len() == 3,
        score::runs(
            s,
            weigh_plan(
                k,
                s,
                heads,
                q,
                keys,
                v,
                batch,
                q_tokens,
                k_tokens,
                width,
                out,
                label,
            ),
            weighs(q, keys, v, out, heads, batch, q_tokens, k_tokens, width, w),
            w,
        ),
{
    reveal(weigh_plan);
    reveal(weighs);
    let a0 = score::silence();
    let l0 = score::nothing();
    score::lemma_stay(s);
    let pairs = (batch * heads.count) as usize;
    let plane = seq![pairs, q_tokens, k_tokens];
    let flat = seq![pairs, q_tokens, width];
    let jobs = transformer::scores_job(batch, heads.count, q_tokens, k_tokens, width);
    let jobc = transformer::context_job(batch, heads.count, q_tokens, k_tokens, width);
    let w3 = s.fresh(plane);
    let t3 = s.tensor(plane, label + ".scores"@);
    score::lemma_tensor(s, plane, label + ".scores"@);
    score::lemma_made(s, s, t3, a0, l0, w3);
    let l1 = l0.push(w3);
    let m3 = k.gemm_into_plan(t3, q, keys, w3, jobs);
    score::lemma_product(k, t3, q, keys, w3, jobs);
    score::lemma_step(s, t3, m3, a0, l1, score::product(q, keys, w3, jobs));
    let a2 = a0 + score::product(q, keys, w3, jobs);
    assert(a2 =~= score::product(q, keys, w3, jobs));
    let w4 = m3.fresh(plane);
    let t4 = m3.tensor(plane, label + ".softmax"@);
    score::lemma_tensor(m3, plane, label + ".softmax"@);
    score::lemma_made(s, m3, t4, a2, l1, w4);
    let l3 = l1.push(w4);
    let softened = (batch * heads.count * q_tokens) as usize;
    let m4 = k.softmax_scaled_plan(t4, w3, w4, softened, k_tokens, heads.scale);
    score::lemma_soften(k, t4, w3, w4, softened, k_tokens, heads.scale);
    score::lemma_step(
        s,
        t4,
        m4,
        a2,
        l3,
        seq![score::soften(w3, w4, softened as int, k_tokens as int, heads.scale)],
    );
    let a4 = a2 + seq![score::soften(w3, w4, softened as int, k_tokens as int, heads.scale)];
    let w5 = m4.fresh(flat);
    let t5 = m4.tensor(flat, label + ".ctx"@);
    score::lemma_tensor(m4, flat, label + ".ctx"@);
    score::lemma_made(s, m4, t5, a4, l3, w5);
    let l5 = l3.push(w5);
    let m5 = k.gemm_into_plan(t5, w4, v, w5, jobc);
    score::lemma_product(k, t5, w4, v, w5, jobc);
    score::lemma_step(s, t5, m5, a4, l5, score::product(w4, v, w5, jobc));
    let a6 = a4 + score::product(w4, v, w5, jobc);
    let m6 = k.transpose_plan(m5, w5, out, batch, heads.count, q_tokens, width);
    score::lemma_exchange(k, m5, w5, out, batch, heads.count, q_tokens, width);
    score::lemma_step(
        s,
        m5,
        m6,
        a6,
        l5,
        seq![
            score::exchange(
                w5,
                out,
                batch as int,
                heads.count as int,
                q_tokens as int,
                width as int,
            ),
        ],
    );
    let a7 = a6 + seq![
        score::exchange(w5, out, batch as int, heads.count as int, q_tokens as int, width as int),
    ];
    let w = seq![w3, w4, w5];
    assert(a7 =~= weighs(q, keys, v, out, heads, batch, q_tokens, k_tokens, width, w));
    assert(l5 =~= w);
    w
}


proof fn lemma_attention_weighs(
    k: Kernels,
    s: Plan,
    heads: Heads,
    q: TensorView,
    keys: TensorView,
    v: TensorView,
    batch: usize,
    q_tokens: usize,
    k_tokens: usize,
    out: TensorView,
    label: Seq<char>,
)
    ensures
        ({
            let width = (q.shape[1] / heads.count) as usize;
            let h = heads.count;
            let (s1, qh) = transformer::split_plan(
                k,
                s,
                q,
                batch,
                q_tokens,
                h,
                width,
                label + ".qh"@,
            );
            let (s2, kh) = transformer::split_plan(
                k,
                s1,
                keys,
                batch,
                k_tokens,
                h,
                width,
                label + ".kh"@,
            );
            let (s3, vh) = transformer::split_plan(
                k,
                s2,
                v,
                batch,
                k_tokens,
                h,
                width,
                label + ".vh"@,
            );
            transformer::attention_stage_plan(
                k,
                s,
                heads,
                q,
                keys,
                v,
                batch,
                q_tokens,
                k_tokens,
                out,
                label,
            ) == weigh_plan(k, s3, heads, qh, kh, vh, batch, q_tokens, k_tokens, width, out, label)
        }),
{
    reveal(transformer::attention_stage_plan);
    reveal(weigh_plan);
}

#[verifier::rlimit(100)]
proof fn lemma_attends(
    k: Kernels,
    s: Plan,
    heads: Heads,
    q: TensorView,
    keys: TensorView,
    v: TensorView,
    batch: usize,
    q_tokens: usize,
    k_tokens: usize,
    out: TensorView,
    label: Seq<char>,
) -> (w: Seq<TensorView>)
    ensures
        w.len() == 6,
        score::runs(
            s,
            transformer::attention_stage_plan(
                k,
                s,
                heads,
                q,
                keys,
                v,
                batch,
                q_tokens,
                k_tokens,
                out,
                label,
            ),
            attends(
                q,
                keys,
                v,
                out,
                heads,
                batch,
                q_tokens,
                k_tokens,
                (q.shape[1] / heads.count) as usize,
                w,
            ),
            w,
        ),
{
    let width = (q.shape[1] / heads.count) as usize;
    let h = heads.count;
    let (s1, qh) = transformer::split_plan(k, s, q, batch, q_tokens, h, width, label + ".qh"@);
    let (s2, kh) = transformer::split_plan(k, s1, keys, batch, k_tokens, h, width, label + ".kh"@);
    let (s3, vh) = transformer::split_plan(k, s2, v, batch, k_tokens, h, width, label + ".vh"@);
    let w0 = s.fresh(seq![q.shape[0], h, width]);
    let w1 = s1.fresh(seq![keys.shape[0], h, width]);
    let w2 = s2.fresh(seq![v.shape[0], h, width]);
    let a = seq![score::exchange(q, w0, batch as int, q_tokens as int, h as int, width as int)];
    let b = seq![score::exchange(keys, w1, batch as int, k_tokens as int, h as int, width as int)];
    let c = seq![score::exchange(v, w2, batch as int, k_tokens as int, h as int, width as int)];
    lemma_split(k, s, q, batch, q_tokens, h, width, label + ".qh"@);
    lemma_split(k, s1, keys, batch, k_tokens, h, width, label + ".kh"@);
    lemma_split(k, s2, v, batch, k_tokens, h, width, label + ".vh"@);
    score::lemma_then(s, s1, s2, a, seq![w0], b, seq![w1]);
    score::lemma_then(s, s2, s3, a + b, seq![w0] + seq![w1], c, seq![w2]);
    let r = weigh_plan(k, s3, heads, qh, kh, vh, batch, q_tokens, k_tokens, width, out, label);
    let tail = lemma_weighs(
        k,
        s3,
        heads,
        qh,
        kh,
        vh,
        batch,
        q_tokens,
        k_tokens,
        width,
        out,
        label,
    );
    let d = weighs(qh, kh, vh, out, heads, batch, q_tokens, k_tokens, width, tail);
    score::lemma_then(s, s3, r, a + b + c, seq![w0] + seq![w1] + seq![w2], d, tail);
    lemma_attention_weighs(k, s, heads, q, keys, v, batch, q_tokens, k_tokens, out, label);
    let w = seq![w0, w1, w2] + tail;
    assert(w.subrange(3, 6) =~= tail);
    assert(seq![w0] + seq![w1] + seq![w2] + tail =~= w);
    assert(w[0] == w0 && w[1] == w1 && w[2] == w2);
    assert(a + b + c + d == attends(
        q,
        keys,
        v,
        out,
        heads,
        batch,
        q_tokens,
        k_tokens,
        width,
        w,
    ));
    w
}


#[verifier::rlimit(100)]
proof fn lemma_attending(
    k: Kernels,
    s: Plan,
    heads: Heads,
    ones: TensorView,
    zeros: TensorView,
    layer: GpuTransformerLayer,
    x: TensorView,
    normed_q: TensorView,
    normed_k: TensorView,
    q_rows: usize,
    k_rows: usize,
    batch: usize,
    name: Seq<char>,
    traced: bool,
) -> (w: Seq<TensorView>)
    ensures
        w.len() == 12,
        ({
            let (r, y) = transformer::attend_plan(
                k,
                s,
                heads,
                ones,
                zeros,
                layer,
                x,
                normed_q,
                normed_k,
                q_rows,
                k_rows,
                batch,
                name,
                traced,
            );
            &&& y == w[11]
            &&& score::runs(
                s,
                r,
                attending(
                    layer,
                    x,
                    normed_q,
                    normed_k,
                    heads,
                    ones,
                    zeros,
                    q_rows,
                    k_rows,
                    batch,
                    w,
                ),
                w,
            )
        }),
{
    reveal(transformer::attend_plan);
    let a0 = score::silence();
    let l0 = score::nothing();
    score::lemma_stay(s);
    let q_shape = seq![q_rows, layer.dim];
    let k_shape = seq![k_rows, layer.dim];
    let asked = name + ".attn.q"@;
    let w0 = s.fresh(q_shape);
    let t0 = s.tensor(q_shape, name + ".q"@);
    score::lemma_tensor(s, q_shape, name + ".q"@);
    score::lemma_made(s, s, t0, a0, l0, w0);
    let l1 = l0.push(w0);
    let m0 = stages::proj_stage_plan(k, t0, normed_q, layer.q_proj, w0, q_rows, ones);
    lemma_projects(k, t0, normed_q, layer.q_proj, w0, q_rows, ones);
    score::lemma_step(s, t0, m0, a0, l1, projects(normed_q, layer.q_proj, w0, q_rows, ones));
    let a2 = a0 + projects(normed_q, layer.q_proj, w0, q_rows, ones);
    assert(a2 =~= projects(normed_q, layer.q_proj, w0, q_rows, ones));
    let w1 = m0.fresh(k_shape);
    let t1 = m0.tensor(k_shape, name + ".k"@);
    score::lemma_tensor(m0, k_shape, name + ".k"@);
    score::lemma_made(s, m0, t1, a2, l1, w1);
    let l3 = l1.push(w1);
    let m1 = stages::proj_stage_plan(k, t1, normed_k, layer.k_proj, w1, k_rows, ones);
    lemma_projects(k, t1, normed_k, layer.k_proj, w1, k_rows, ones);
    score::lemma_step(s, t1, m1, a2, l3, projects(normed_k, layer.k_proj, w1, k_rows, ones));
    let a4 = a2 + projects(normed_k, layer.k_proj, w1, k_rows, ones);
    let w2 = m1.fresh(k_shape);
    let t2 = m1.tensor(k_shape, name + ".v"@);
    score::lemma_tensor(m1, k_shape, name + ".v"@);
    score::lemma_made(s, m1, t2, a4, l3, w2);
    let l5 = l3.push(w2);
    let m2 = stages::proj_stage_plan(k, t2, normed_k, layer.v_proj, w2, k_rows, ones);
    lemma_projects(k, t2, normed_k, layer.v_proj, w2, k_rows, ones);
    score::lemma_step(s, t2, m2, a4, l5, projects(normed_k, layer.v_proj, w2, k_rows, ones));
    let a6 = a4 + projects(normed_k, layer.v_proj, w2, k_rows, ones);
    let q1 = m2.trace_with(asked, asked, w0);
    score::lemma_trace(m2, asked, asked, w0);
    score::lemma_silent(s, m2, q1, a6, l5);
    let q2 = q1.trace_with(asked, name + ".attn.k"@, w1);
    score::lemma_trace(q1, asked, name + ".attn.k"@, w1);
    score::lemma_silent(s, q1, q2, a6, l5);
    let q3 = q2.trace_with(asked, name + ".attn.v"@, w2);
    score::lemma_trace(q2, asked, name + ".attn.v"@, w2);
    score::lemma_silent(s, q2, q3, a6, l5);
    let w3 = q3.fresh(q_shape);
    let t3 = q3.tensor(q_shape, name + ".attn.raw"@);
    score::lemma_tensor(q3, q_shape, name + ".attn.raw"@);
    score::lemma_made(s, q3, t3, a6, l5, w3);
    let l7 = l5.push(w3);
    let qt = (q_rows / batch) as usize;
    let kt = (k_rows / batch) as usize;
    let width = (layer.dim / heads.count) as usize;
    let wa = lemma_attends(k, t3, heads, w0, w1, w2, batch, qt, kt, w3, name);
    let m3 = transformer::attention_stage_plan(k, t3, heads, w0, w1, w2, batch, qt, kt, w3, name);
    score::lemma_then(
        s,
        t3,
        m3,
        a6,
        l7,
        attends(w0, w1, w2, w3, heads, batch, qt, kt, width, wa),
        wa,
    );
    let a8 = a6 + attends(w0, w1, w2, w3, heads, batch, qt, kt, width, wa);
    let l8 = l7 + wa;
    let w10 = m3.fresh(q_shape);
    let t4 = m3.tensor(q_shape, name + ".attn"@);
    score::lemma_tensor(m3, q_shape, name + ".attn"@);
    score::lemma_made(s, m3, t4, a8, l8, w10);
    let l9 = l8.push(w10);
    let m4 = stages::proj_stage_plan(k, t4, w3, layer.out_proj, w10, q_rows, ones);
    lemma_projects(k, t4, w3, layer.out_proj, w10, q_rows, ones);
    score::lemma_step(s, t4, m4, a8, l9, projects(w3, layer.out_proj, w10, q_rows, ones));
    let a10 = a8 + projects(w3, layer.out_proj, w10, q_rows, ones);
    let q4 = if traced { m4.trace(name + ".attn"@, w10) } else { m4 };
    score::lemma_trace(m4, name + ".attn"@, name + ".attn"@, w10);
    score::lemma_stay(m4);
    score::lemma_silent(s, m4, q4, a10, l9);
    let m5 = k.channel_affine_act_in_place_plan(
        q4,
        w10,
        layer.gamma1@,
        zeros,
        q_rows,
        layer.dim,
        1,
        Activation::Identity,
    );
    score::lemma_rescale(k, q4, w10, layer.gamma1@, zeros, q_rows, layer.dim, 1);
    score::lemma_step(
        s,
        q4,
        m5,
        a10,
        l9,
        seq![score::rescale(w10, layer.gamma1@, zeros, q_rows as int, layer.dim as int, 1)],
    );
    let a11 = a10 + seq![
        score::rescale(w10, layer.gamma1@, zeros, q_rows as int, layer.dim as int, 1),
    ];
    let w11 = m5.fresh(q_shape);
    let t5 = m5.tensor(q_shape, name + ".res1"@);
    score::lemma_tensor(m5, q_shape, name + ".res1"@);
    score::lemma_made(s, m5, t5, a11, l9, w11);
    let l12 = l9.push(w11);
    let m6 = k.copy_plan(t5, x, w11, x.len() as usize);
    score::lemma_copy(k, t5, x, w11, x.len() as usize);
    score::lemma_step(s, t5, m6, a11, l12, seq![score::copy(x, w11, x.len() as usize as int)]);
    let a13 = a11 + seq![score::copy(x, w11, x.len() as usize as int)];
    let m7 = k.add_in_place_plan(m6, w11, w10);
    score::lemma_sum_into(k, m6, w11, w10);
    score::lemma_step(s, m6, m7, a13, l12, seq![score::sum_into(w11, w10)]);
    let a14 = a13 + seq![score::sum_into(w11, w10)];
    let q5 = if traced { m7.trace(name + ".res1"@, w11) } else { m7 };
    score::lemma_trace(m7, name + ".res1"@, name + ".res1"@, w11);
    score::lemma_stay(m7);
    score::lemma_silent(s, m7, q5, a14, l12);
    let w = seq![w0, w1, w2, w3, wa[0], wa[1], wa[2], wa[3], wa[4], wa[5], w10, w11];
    assert(w.subrange(4, 10) =~= wa);
    assert(
        a14 =~= attending(
            layer,
            x,
            normed_q,
            normed_k,
            heads,
            ones,
            zeros,
            q_rows,
            k_rows,
            batch,
            w,
        )
    );
    assert(l12 =~= w);
    w
}


#[verifier::rlimit(100)]
proof fn lemma_feeding(
    k: Kernels,
    s: Plan,
    ones: TensorView,
    zeros: TensorView,
    layer: GpuTransformerLayer,
    norm: LayerNorm,
    norm_name: Seq<char>,
    x: TensorView,
    rows: usize,
    batch: usize,
    name: Seq<char>,
    traced: bool,
) -> (w: Seq<TensorView>)
    ensures
        w.len() == 5,
        ({
            let (r, y) = transformer::feed_plan(
                k,
                s,
                ones,
                zeros,
                layer,
                norm,
                norm_name,
                x,
                rows,
                batch,
                name,
                traced,
            );
            &&& y == w[4]
            &&& score::runs(s, r, feeding(layer, norm, x, ones, zeros, rows, batch, w), w)
        }),
{
    reveal(transformer::feed_plan);
    let a0 = score::silence();
    let l0 = score::nothing();
    score::lemma_stay(s);
    let shape = seq![rows, layer.dim];
    let hidden_shape = seq![rows, layer.linear1.out_features];
    let w0 = s.fresh(shape);
    let t0 = s.tensor(shape, name + norm_name);
    score::lemma_tensor(s, shape, name + norm_name);
    score::lemma_made(s, s, t0, a0, l0, w0);
    let l1 = l0.push(w0);
    let m0 = stages::layer_norm_stage_plan(k, t0, x, w0, norm, rows);
    lemma_norms_rows(k, t0, x, norm, w0, rows);
    score::lemma_step(s, t0, m0, a0, l1, seq![norms_rows(x, norm, w0, rows)]);
    let a2 = a0 + seq![norms_rows(x, norm, w0, rows)];
    assert(a2 =~= seq![norms_rows(x, norm, w0, rows)]);
    let q0 = if traced { m0.trace(name + norm_name, w0) } else { m0 };
    score::lemma_trace(m0, name + norm_name, name + norm_name, w0);
    score::lemma_stay(m0);
    score::lemma_silent(s, m0, q0, a2, l1);
    let w1 = q0.fresh(hidden_shape);
    let t1 = q0.tensor(hidden_shape, name + ".hidden"@);
    score::lemma_tensor(q0, hidden_shape, name + ".hidden"@);
    score::lemma_made(s, q0, t1, a2, l1, w1);
    let l3 = l1.push(w1);
    let m1 = stages::proj_stage_plan(k, t1, w0, layer.linear1, w1, rows, ones);
    lemma_projects(k, t1, w0, layer.linear1, w1, rows, ones);
    score::lemma_step(s, t1, m1, a2, l3, projects(w0, layer.linear1, w1, rows, ones));
    let a4 = a2 + projects(w0, layer.linear1, w1, rows, ones);
    let q1 = if traced { m1.trace(name + ".linear1"@, w1) } else { m1 };
    score::lemma_trace(m1, name + ".linear1"@, name + ".linear1"@, w1);
    score::lemma_stay(m1);
    score::lemma_silent(s, m1, q1, a4, l3);
    let m2 = k.gelu_in_place_plan(q1, w1);
    score::lemma_activate(k, q1, w1);
    score::lemma_step(s, q1, m2, a4, l3, seq![score::activate(w1)]);
    let a5 = a4 + seq![score::activate(w1)];
    let w2 = m2.fresh(shape);
    let t2 = m2.tensor(shape, name + ".fed"@);
    score::lemma_tensor(m2, shape, name + ".fed"@);
    score::lemma_made(s, m2, t2, a5, l3, w2);
    let l6 = l3.push(w2);
    let m3 = stages::proj_stage_plan(k, t2, w1, layer.linear2, w2, rows, ones);
    lemma_projects(k, t2, w1, layer.linear2, w2, rows, ones);
    score::lemma_step(s, t2, m3, a5, l6, projects(w1, layer.linear2, w2, rows, ones));
    let a7 = a5 + projects(w1, layer.linear2, w2, rows, ones);
    let q2 = if traced { m3.trace(name + ".fed"@, w2) } else { m3 };
    score::lemma_trace(m3, name + ".fed"@, name + ".fed"@, w2);
    score::lemma_stay(m3);
    score::lemma_silent(s, m3, q2, a7, l6);
    let m4 = k.channel_affine_act_in_place_plan(
        q2,
        w2,
        layer.gamma2@,
        zeros,
        rows,
        layer.dim,
        1,
        Activation::Identity,
    );
    score::lemma_rescale(k, q2, w2, layer.gamma2@, zeros, rows, layer.dim, 1);
    score::lemma_step(
        s,
        q2,
        m4,
        a7,
        l6,
        seq![score::rescale(w2, layer.gamma2@, zeros, rows as int, layer.dim as int, 1)],
    );
    let a8 = a7 + seq![score::rescale(w2, layer.gamma2@, zeros, rows as int, layer.dim as int, 1)];
    let w3 = m4.fresh(shape);
    let t3 = m4.tensor(shape, name + ".res2"@);
    score::lemma_tensor(m4, shape, name + ".res2"@);
    score::lemma_made(s, m4, t3, a8, l6, w3);
    let l9 = l6.push(w3);
    let m5 = k.copy_plan(t3, x, w3, x.len() as usize);
    score::lemma_copy(k, t3, x, w3, x.len() as usize);
    score::lemma_step(s, t3, m5, a8, l9, seq![score::copy(x, w3, x.len() as usize as int)]);
    let a10 = a8 + seq![score::copy(x, w3, x.len() as usize as int)];
    let m6 = k.add_in_place_plan(m5, w3, w2);
    score::lemma_sum_into(k, m5, w3, w2);
    score::lemma_step(s, m5, m6, a10, l9, seq![score::sum_into(w3, w2)]);
    let a11 = a10 + seq![score::sum_into(w3, w2)];
    let w4 = m6.fresh(shape);
    let t4 = m6.tensor(shape, name + ".normout"@);
    score::lemma_tensor(m6, shape, name + ".normout"@);
    score::lemma_made(s, m6, t4, a11, l9, w4);
    let l12 = l9.push(w4);
    let m7 = stages::group_norm_positions_stage_plan(k, t4, w3, w4, layer.norm_out, rows, batch);
    lemma_norms_segments(k, t4, w3, layer.norm_out, w4, rows, batch);
    score::lemma_step(
        s,
        t4,
        m7,
        a11,
        l12,
        seq![norms_segments(w3, layer.norm_out, w4, rows, batch)],
    );
    let a13 = a11 + seq![norms_segments(w3, layer.norm_out, w4, rows, batch)];
    let q3 = m7.trace(name, w4);
    score::lemma_trace(m7, name, name, w4);
    score::lemma_silent(s, m7, q3, a13, l12);
    let w = seq![w0, w1, w2, w3, w4];
    assert(a13 =~= feeding(layer, norm, x, ones, zeros, rows, batch, w));
    assert(l12 =~= w);
    w
}


#[verifier::rlimit(100)]
pub proof fn lemma_attends_itself(
    k: Kernels,
    s: Plan,
    heads: Heads,
    ones: TensorView,
    zeros: TensorView,
    layer: GpuTransformerLayer,
    x: TensorView,
    rows: usize,
    batch: usize,
    name: Seq<char>,
) -> (w: Seq<TensorView>)
    ensures
        w.len() == 18,
        ({
            let (r, y) = transformer::self_layer_plan(
                k,
                s,
                heads,
                ones,
                zeros,
                layer,
                x,
                rows,
                batch,
                name,
            );
            &&& y == w[17]
            &&& score::runs(
                s,
                r,
                attends_itself(layer, x, heads, ones, zeros, rows, batch, w),
                w,
            )
        }),
{
    reveal(transformer::self_layer_plan);
    let a0 = score::silence();
    let l0 = score::nothing();
    score::lemma_stay(s);
    let n0 = s.fresh(seq![rows, layer.dim]);
    let t0 = s.tensor(seq![rows, layer.dim], name + ".norm1"@);
    score::lemma_tensor(s, seq![rows, layer.dim], name + ".norm1"@);
    score::lemma_made(s, s, t0, a0, l0, n0);
    let l1 = l0.push(n0);
    let m0 = stages::layer_norm_stage_plan(k, t0, x, n0, layer.norm1, rows);
    lemma_norms_rows(k, t0, x, layer.norm1, n0, rows);
    score::lemma_step(s, t0, m0, a0, l1, seq![norms_rows(x, layer.norm1, n0, rows)]);
    let a2 = a0 + seq![norms_rows(x, layer.norm1, n0, rows)];
    assert(a2 =~= seq![norms_rows(x, layer.norm1, n0, rows)]);
    let q0 = m0.trace(name + ".norm1"@, n0);
    score::lemma_trace(m0, name + ".norm1"@, name + ".norm1"@, n0);
    score::lemma_silent(s, m0, q0, a2, l1);
    let wa = lemma_attending(
        k,
        q0,
        heads,
        ones,
        zeros,
        layer,
        x,
        n0,
        n0,
        rows,
        rows,
        batch,
        name,
        true,
    );
    let (m1, sum) = transformer::attend_plan(
        k,
        q0,
        heads,
        ones,
        zeros,
        layer,
        x,
        n0,
        n0,
        rows,
        rows,
        batch,
        name,
        true,
    );
    score::lemma_then(
        s,
        q0,
        m1,
        a2,
        l1,
        attending(layer, x, n0, n0, heads, ones, zeros, rows, rows, batch, wa),
        wa,
    );
    let a3 = a2 + attending(layer, x, n0, n0, heads, ones, zeros, rows, rows, batch, wa);
    let l3 = l1 + wa;
    let wf = lemma_feeding(
        k,
        m1,
        ones,
        zeros,
        layer,
        layer.norm2,
        ".norm2"@,
        sum,
        rows,
        batch,
        name,
        true,
    );
    let (m2, y) = transformer::feed_plan(
        k,
        m1,
        ones,
        zeros,
        layer,
        layer.norm2,
        ".norm2"@,
        sum,
        rows,
        batch,
        name,
        true,
    );
    score::lemma_then(
        s,
        m1,
        m2,
        a3,
        l3,
        feeding(layer, layer.norm2, sum, ones, zeros, rows, batch, wf),
        wf,
    );
    let a4 = a3 + feeding(layer, layer.norm2, sum, ones, zeros, rows, batch, wf);
    let l4 = l3 + wf;
    let w = seq![n0] + wa + wf;
    assert(w[12] == wa[11]);
    assert(w[17] == wf[4]);
    assert(w.subrange(1, 13) =~= wa);
    assert(w.subrange(13, 18) =~= wf);
    assert(a4 =~= attends_itself(layer, x, heads, ones, zeros, rows, batch, w));
    assert(l4 =~= w);
    w
}


#[verifier::rlimit(100)]
pub proof fn lemma_attends_other(
    k: Kernels,
    s: Plan,
    heads: Heads,
    ones: TensorView,
    zeros: TensorView,
    layer: GpuTransformerLayer,
    x: TensorView,
    other: TensorView,
    rows: usize,
    other_rows: usize,
    batch: usize,
    name: Seq<char>,
) -> (w: Seq<TensorView>)
    ensures
        w.len() == 19,
        ({
            let (r, y) = transformer::cross_layer_plan(
                k,
                s,
                heads,
                ones,
                zeros,
                layer,
                x,
                other,
                rows,
                other_rows,
                batch,
                name,
            );
            &&& r.fault is None ==> layer.norm3 is Some && y == w[18]
            &&& score::runs(
                s,
                r,
                attends_other(layer, x, other, heads, ones, zeros, rows, other_rows, batch, w),
                w,
            )
        }),
{
    reveal(transformer::cross_layer_plan);
    let a0 = score::silence();
    let l0 = score::nothing();
    score::lemma_stay(s);
    let n0 = s.fresh(seq![rows, layer.dim]);
    let t0 = s.tensor(seq![rows, layer.dim], name + ".norm1"@);
    score::lemma_tensor(s, seq![rows, layer.dim], name + ".norm1"@);
    score::lemma_made(s, s, t0, a0, l0, n0);
    let l1 = l0.push(n0);
    let m0 = stages::layer_norm_stage_plan(k, t0, x, n0, layer.norm1, rows);
    lemma_norms_rows(k, t0, x, layer.norm1, n0, rows);
    score::lemma_step(s, t0, m0, a0, l1, seq![norms_rows(x, layer.norm1, n0, rows)]);
    let a2 = a0 + seq![norms_rows(x, layer.norm1, n0, rows)];
    assert(a2 =~= seq![norms_rows(x, layer.norm1, n0, rows)]);
    let n1 = m0.fresh(seq![other_rows, layer.dim]);
    let t1 = m0.tensor(seq![other_rows, layer.dim], name + ".norm2"@);
    score::lemma_tensor(m0, seq![other_rows, layer.dim], name + ".norm2"@);
    score::lemma_made(s, m0, t1, a2, l1, n1);
    let l3 = l1.push(n1);
    let m1 = stages::layer_norm_stage_plan(k, t1, other, n1, layer.norm2, other_rows);
    lemma_norms_rows(k, t1, other, layer.norm2, n1, other_rows);
    score::lemma_step(s, t1, m1, a2, l3, seq![norms_rows(other, layer.norm2, n1, other_rows)]);
    let a4 = a2 + seq![norms_rows(other, layer.norm2, n1, other_rows)];
    let q0 = m1.trace_with(name + ".norm1"@, name + ".norm1"@, n0);
    score::lemma_trace(m1, name + ".norm1"@, name + ".norm1"@, n0);
    score::lemma_silent(s, m1, q0, a4, l3);
    let q1 = q0.trace_with(name + ".norm1"@, name + ".norm2"@, n1);
    score::lemma_trace(q0, name + ".norm1"@, name + ".norm2"@, n1);
    score::lemma_silent(s, q0, q1, a4, l3);
    let wa = lemma_attending(
        k,
        q1,
        heads,
        ones,
        zeros,
        layer,
        x,
        n0,
        n1,
        rows,
        other_rows,
        batch,
        name,
        false,
    );
    let (m2, sum) = transformer::attend_plan(
        k,
        q1,
        heads,
        ones,
        zeros,
        layer,
        x,
        n0,
        n1,
        rows,
        other_rows,
        batch,
        name,
        false,
    );
    score::lemma_then(
        s,
        q1,
        m2,
        a4,
        l3,
        attending(layer, x, n0, n1, heads, ones, zeros, rows, other_rows, batch, wa),
        wa,
    );
    let a5 = a4 + attending(layer, x, n0, n1, heads, ones, zeros, rows, other_rows, batch, wa);
    let l5 = l3 + wa;
    let norm = layer.norm3->0;
    let wf = lemma_feeding(
        k,
        m2,
        ones,
        zeros,
        layer,
        norm,
        ".norm3"@,
        sum,
        rows,
        batch,
        name,
        false,
    );
    let (m3, y) = transformer::feed_plan(
        k,
        m2,
        ones,
        zeros,
        layer,
        norm,
        ".norm3"@,
        sum,
        rows,
        batch,
        name,
        false,
    );
    score::lemma_then(
        s,
        m2,
        m3,
        a5,
        l5,
        feeding(layer, norm, sum, ones, zeros, rows, batch, wf),
        wf,
    );
    let a6 = a5 + feeding(layer, norm, sum, ones, zeros, rows, batch, wf);
    let l6 = l5 + wf;
    let w = seq![n0, n1] + wa + wf;
    assert(w[13] == wa[11]);
    assert(w[18] == wf[4]);
    assert(w.subrange(2, 14) =~= wa);
    assert(w.subrange(14, 19) =~= wf);
    assert(a6 =~= attends_other(layer, x, other, heads, ones, zeros, rows, other_rows, batch, w));
    assert(l6 =~= w);
    if layer.norm3 is None { reveal(score::runs); }
    w
}

} // verus!