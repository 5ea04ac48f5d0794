//! The cross-domain transformer between the encoders and the decoders.

use vstd::prelude::*;
use vstd::string::*;

use crate::error::{Error, Fault};
use crate::gpu::kernels;
use crate::gpu::kernels::Kernels;
use crate::gpu::pass::Pass;
use crate::gpu::recorder;
use crate::gpu::recorder::{HostInput, Plan};
use crate::gpu::shapes;
use crate::gpu::shapes::{Activation, GemmJob};
use crate::gpu::stages;
use crate::gpu::stages::{GpuProj, LayerNorm};
use crate::gpu::tensor;
use crate::gpu::tensor::{DevTensor, TensorView};
use crate::text;

verus! {

/// Features of the position embeddings.
pub const POSITION_FEATURES: usize = 512;

/// One layer of the transformer.
#[derive(Debug)]
pub struct GpuTransformerLayer {
    pub is_cross: bool,
    pub q_proj: GpuProj,
    pub k_proj: GpuProj,
    pub v_proj: GpuProj,
    pub out_proj: GpuProj,
    pub linear1: GpuProj,
    pub linear2: GpuProj,
    pub norm1: LayerNorm,
    pub norm2: LayerNorm,
    pub norm3: Option<LayerNorm>,
    /// Normalises a segment's whole plane.
    pub norm_out: LayerNorm,
    pub gamma1: DevTensor,
    pub gamma2: DevTensor,
    pub dim: usize,
}

impl GpuTransformerLayer {
    pub open spec fn wf(&self) -> bool {
        &&& self.q_proj.wf()
        &&& self.k_proj.wf()
        &&& self.v_proj.wf()
        &&& self.out_proj.wf()
        &&& self.linear1.wf()
        &&& self.linear2.wf()
        &&& self.norm1.wf()
        &&& self.norm2.wf()
        &&& self.norm3 matches Some(n) ==> n.wf()
        &&& self.norm_out.wf()
        &&& self.gamma1.wf()
        &&& self.gamma2.wf()
    }
}

/// The transformer's weights.
#[derive(Debug)]
pub struct GpuTransformer {
    pub norm_in: LayerNorm,
    pub norm_in_t: LayerNorm,
    pub layers: Vec<GpuTransformerLayer>,
    pub layers_t: Vec<GpuTransformerLayer>,
    /// Ones, as many as the widest projection has features.
    pub ones: DevTensor,
    pub zeros: DevTensor,
}

impl GpuTransformer {
    pub open spec fn wf(&self) -> bool {
        &&& self.norm_in.wf()
        &&& self.norm_in_t.wf()
        &&& forall|i: int| 0 <= i < self.layers@.len() ==> (#[trigger] self.layers@[i]).wf()
        &&& forall|i: int| 0 <= i < self.layers_t@.len() ==> (#[trigger] self.layers_t@[i]).wf()
        &&& self.ones.wf()
        &&& self.zeros.wf()
    }
}

/// How attention splits its features: heads, and the bit pattern of one over the
/// square root of a head's width.
#[derive(Debug, Clone, Copy, PartialEq, Eq, Structural)]
pub struct Heads {
    pub count: usize,
    pub scale: u32,
}

// -------------------------------------------------------------------- attention

/// Splits `(rows, features)` into `(batch * heads, tokens, width)`.
pub open spec fn split_plan(
    k: Kernels,
    s: Plan,
    x: TensorView,
    batch: usize,
    tokens: usize,
    heads: usize,
    width: usize,
    label: Seq<char>,
) -> (Plan, TensorView) {
    let raw = s.fresh(seq![x.shape[0], heads, width]);
    let moved = k.transpose_plan(
        s.tensor(seq![x.shape[0], heads, width], label + ".split"@),
        x,
        raw,
        batch,
        tokens,
        heads,
        width,
    );
    let shape = seq![(batch * heads) as usize, tokens, width];
    (moved.reshape(raw, shape), recorder::reshaped(raw, shape))
}

/// Whether a split can be planned.
pub open spec fn splittable(
    rows: usize,
    batch: usize,
    tokens: usize,
    heads: usize,
    width: usize,
) -> bool {
    &&& recorder::askable(seq![rows, heads, width])
    &&& batch * tokens <= usize::MAX
    &&& batch * tokens * heads <= usize::MAX
    &&& batch * tokens * heads * width <= usize::MAX
    &&& batch * heads <= usize::MAX
    &&& recorder::askable(seq![(batch * heads) as usize, tokens, width])
}

fn split(
    k: &Kernels,
    pass: &mut Pass,
    x: &DevTensor,
    batch: usize,
    tokens: usize,
    heads: usize,
    width: usize,
    label: &str,
) -> (r: DevTensor)
    requires
        x.wf(),
        x.shape@.len() >= 1,
        splittable(x.shape@[0], batch, tokens, heads, width),
    ensures
        (final(pass)@, r@) == split_plan(
            *k,
            old(pass)@,
            x@,
            batch,
            tokens,
            heads,
            width,
            label@,
        ),
        r.wf(),
{
    let dims: Vec<usize> = vec![x.shape[0], heads, width];
    assert(dims@ =~= seq![x.shape@[0], heads, width]);
    let raw = pass.tensor(dims, text::concat(label, ".split").as_str());
    pass.transpose(k, x, &raw, batch, tokens, heads, width);
    let shape: Vec<usize> = vec![batch * heads, tokens, width];
    assert(shape@ =~= seq![(batch * heads) as usize, tokens, width]);
    pass.reshape(&raw, shape)
}

/// The product of queries and keys, one per segment and head.
pub open spec fn scores_job(
    batch: usize,
    heads: usize,
    q_tokens: usize,
    k_tokens: usize,
    width: usize,
) -> GemmJob {
    GemmJob {
        m: q_tokens,
        n: k_tokens,
        k: width,
        lda: width,
        ldb: width,
        ldc: k_tokens,
        batches: (batch * heads) as usize,
        inner_count: heads,
        a_outer: (heads * q_tokens * width) as usize,
        a_inner: (q_tokens * width) as usize,
        b_outer: (heads * k_tokens * width) as usize,
        b_inner: (k_tokens * width) as usize,
        c_outer: (heads * q_tokens * k_tokens) as usize,
        c_inner: (q_tokens * k_tokens) as usize,
        transb: true,
    }
}

/// The product of weights and values, one per segment and head.
pub open spec fn context_job(
    batch: usize,
    heads: usize,
    q_tokens: usize,
    k_tokens: usize,
    width: usize,
) -> GemmJob {
    GemmJob {
        m: q_tokens,
        n: width,
        k: k_tokens,
        lda: k_tokens,
        ldb: width,
        ldc: width,
        batches: (batch * heads) as usize,
        inner_count: heads,
        a_outer: (heads * q_tokens * k_tokens) as usize,
        a_inner: (q_tokens * k_tokens) as usize,
        b_outer: (heads * k_tokens * width) as usize,
        b_inner: (k_tokens * width) as usize,
        c_outer: (heads * q_tokens * width) as usize,
        c_inner: (q_tokens * width) as usize,
        transb: false,
    }
}

/// A batch's block of either product starts where the block of the batch before it
/// ends, so one segment's tokens never meet another's.
pub proof fn law_segments_stay_apart(
    batch: usize,
    heads: usize,
    q_tokens: usize,
    k_tokens: usize,
    width: usize,
    b: int,
)
    requires
        heads >= 1,
        heads * q_tokens * width <= usize::MAX,
        heads * k_tokens * width <= usize::MAX,
        heads * q_tokens * k_tokens <= usize::MAX,
        0 <= b < batch * heads,
    ensures
        ({
            let job = scores_job(batch, heads, q_tokens, k_tokens, width);
            &&& job.base(job.a_outer as int, job.a_inner as int, b) == (q_tokens * width) * b
            &&& job.base(job.b_outer as int, job.b_inner as int, b) == (k_tokens * width) * b
            &&& job.base(job.c_outer as int, job.c_inner as int, b) == (q_tokens * k_tokens) * b
        }),
        ({
            let job = context_job(batch, heads, q_tokens, k_tokens, width);
            &&& job.base(job.a_outer as int, job.a_inner as int, b) == (q_tokens * k_tokens) * b
            &&& job.base(job.b_outer as int, job.b_inner as int, b) == (k_tokens * width) * b
            &&& job.base(job.c_outer as int, job.c_inner as int, b) == (q_tokens * width) * b
        }),
{
    let scores = scores_job(batch, heads, q_tokens, k_tokens, width);
    let context = context_job(batch, heads, q_tokens, k_tokens, width);
    lemma_block_of_heads(heads as int, q_tokens as int, width as int);
    lemma_block_of_heads(heads as int, k_tokens as int, width as int);
    lemma_block_of_heads(heads as int, q_tokens as int, k_tokens as int);
    shapes::law_contiguous_batches_are_disjoint(q_tokens * width, scores, b);
    shapes::law_contiguous_batches_are_disjoint(k_tokens * width, scores, b);
    shapes::law_contiguous_batches_are_disjoint(q_tokens * k_tokens, scores, b);
    shapes::law_contiguous_batches_are_disjoint(q_tokens * width, context, b);
    shapes::law_contiguous_batches_are_disjoint(k_tokens * width, context, b);
    shapes::law_contiguous_batches_are_disjoint(q_tokens * k_tokens, context, b);
}

proof fn lemma_block_of_heads(heads: int, a: int, b: int)
    by (nonlinear_arith)
    requires
        heads >= 1,
        a >= 0,
        b >= 0,
    ensures
        heads * a * b == (a * b) * heads,
        0 <= a * b <= heads * a * b,
{
}

/// Whether one attention can be planned, for queries of `q_rows` rows and keys and
/// values of `k_rows`.
pub open spec fn attention_plannable(
    q_rows: usize,
    k_rows: usize,
    batch: usize,
    heads: usize,
    q_tokens: usize,
    k_tokens: usize,
    width: usize,
) -> bool {
    let pairs = (batch * heads) as usize;
    &&& splittable(q_rows, batch, q_tokens, heads, width)
    &&& splittable(k_rows, batch, k_tokens, heads, width)
    &&& recorder::askable(seq![pairs, q_tokens, k_tokens])
    &&& recorder::askable(seq![pairs, q_tokens, width])
    &&& q_tokens * width <= usize::MAX
    &&& k_tokens * width <= usize::MAX
    &&& q_tokens * k_tokens <= usize::MAX
    &&& heads * q_tokens <= usize::MAX
    &&& heads * k_tokens <= usize::MAX
    &&& heads * q_tokens * width <= usize::MAX
    &&& heads * k_tokens * width <= usize::MAX
    &&& heads * q_tokens * k_tokens <= usize::MAX
    &&& batch * heads * q_tokens <= usize::MAX
    &&& batch * heads * q_tokens * width <= usize::MAX
    &&& kernels::product_fits(scores_job(batch, heads, q_tokens, k_tokens, width))
    &&& kernels::product_fits(context_job(batch, heads, q_tokens, k_tokens, width))
}

#[verifier::opaque]
pub open spec fn attention_stage_plan(
    k: Kernels,
    s: Plan,
    heads: Heads,
    q: TensorView,
    keys: TensorView,
    v: TensorView,
    batch: usize,
    q_tokens: usize,
    k_tokens: usize,
    out: TensorView,
    label: Seq<char>,
) -> Plan {
    let width = (q.shape[1] / heads.count) as usize;
    let pairs = (batch * heads.count) as usize;
    let (s1, q_h) = split_plan(k, s, q, batch, q_tokens, heads.count, width, label + ".qh"@);
    let (s2, k_h) = split_plan(k, s1, keys, batch, k_tokens, heads.count, width, label + ".kh"@);
    let (s3, v_h) = split_plan(k, s2, v, batch, k_tokens, heads.count, width, label + ".vh"@);
    let scores = s3.fresh(seq![pairs, q_tokens, k_tokens]);
    let s4 = k.gemm_into_plan(
        s3.tensor(seq![pairs, q_tokens, k_tokens], label + ".scores"@),
        q_h,
        k_h,
        scores,
        scores_job(batch, heads.count, q_tokens, k_tokens, width),
    );
    let scaled = s4.fresh(seq![pairs, q_tokens, k_tokens]);
    let s5 = k.softmax_scaled_plan(
        s4.tensor(seq![pairs, q_tokens, k_tokens], label + ".softmax"@),
        scores,
        scaled,
        (batch * heads.count * q_tokens) as usize,
        k_tokens,
        heads.scale,
    );
    let context = s5.fresh(seq![pairs, q_tokens, width]);
    let s6 = k.gemm_into_plan(
        s5.tensor(seq![pairs, q_tokens, width], label + ".ctx"@),
        scaled,
        v_h,
        context,
        context_job(batch, heads.count, q_tokens, k_tokens, width),
    );
    k.transpose_plan(s6, context, out, batch, heads.count, q_tokens, width)
}

/// One attention: split into heads, score, weigh, mix, merge. Segments are stacked
/// on the token axis, and every pattern stays inside its own segment and head.
pub fn attention_stage(
    k: &Kernels,
    pass: &mut Pass,
    heads: Heads,
    q: &DevTensor,
    keys: &DevTensor,
    v: &DevTensor,
    batch: usize,
    q_tokens: usize,
    k_tokens: usize,
    out: &DevTensor,
    label: &str,
)
    requires
        q.wf(),
        keys.wf(),
        v.wf(),
        out.wf(),
        q.shape@.len() >= 2,
        keys.shape@.len() >= 1,
        v.shape@.len() >= 1,
        v.shape@[0] == keys.shape@[0],
        heads.count > 0,
        attention_plannable(
            q.shape@[0],
            keys.shape@[0],
            batch,
            heads.count,
            q_tokens,
            k_tokens,
            q.shape@[1] / heads.count,
        ),
    ensures
        final(pass)@ == attention_stage_plan(
            *k,
            old(pass)@,
            heads,
            q@,
            keys@,
            v@,
            batch,
            q_tokens,
            k_tokens,
            out@,
            label@,
        ),
{
    proof {
        reveal(attention_stage_plan);
    }
    let width: usize = q.shape[1] / heads.count;
    let n: usize = heads.count;
    let q_h = split(k, pass, q, batch, q_tokens, n, width, text::concat(label, ".qh").as_str());
    let k_h = split(k, pass, keys, batch, k_tokens, n, width, text::concat(label, ".kh").as_str());
    let v_h = split(k, pass, v, batch, k_tokens, n, width, text::concat(label, ".vh").as_str());
    let pairs: usize = batch * n;
    let dims: Vec<usize> = vec![pairs, q_tokens, k_tokens];
    assert(dims@ =~= seq![pairs, q_tokens, k_tokens]);
    let scores = pass.tensor(dims, text::concat(label, ".scores").as_str());
    let job = GemmJob {
        m: q_tokens,
        n: k_tokens,
        k: width,
        lda: width,
        ldb: width,
        ldc: k_tokens,
        batches: pairs,
        inner_count: n,
        a_outer: n * q_tokens * width,
        a_inner: q_tokens * width,
        b_outer: n * k_tokens * width,
        b_inner: k_tokens * width,
        c_outer: n * q_tokens * k_tokens,
        c_inner: q_tokens * k_tokens,
        transb: true,
    };
    pass.gemm_into(k, &q_h, &k_h, &scores, job);
    let dims: Vec<usize> = vec![pairs, q_tokens, k_tokens];
    assert(dims@ =~= seq![pairs, q_tokens, k_tokens]);
    let scaled = pass.tensor(dims, text::concat(label, ".softmax").as_str());
    pass.softmax_scaled(k, &scores, &scaled, batch * n * q_tokens, k_tokens, heads.scale);
    let dims: Vec<usize> = vec![pairs, q_tokens, width];
    assert(dims@ =~= seq![pairs, q_tokens, width]);
    let context = pass.tensor(dims, text::concat(label, ".ctx").as_str());
    let job = GemmJob {
        m: q_tokens,
        n: width,
        k: k_tokens,
        lda: k_tokens,
        ldb: width,
        ldc: width,
        batches: pairs,
        inner_count: n,
        a_outer: n * q_tokens * k_tokens,
        a_inner: q_tokens * k_tokens,
        b_outer: n * k_tokens * width,
        b_inner: k_tokens * width,
        c_outer: n * q_tokens * width,
        c_inner: q_tokens * width,
        transb: false,
    };
    pass.gemm_into(k, &scaled, &v_h, &context, job);
    pass.transpose(k, &context, out, batch, n, q_tokens, width);
}

// ----------------------------------------------------------------------- layers

/// Whether the attending half of a layer can be planned.
pub open spec fn attend_plannable(
    layer: GpuTransformerLayer,
    heads: Heads,
    q_tokens: usize,
    k_tokens: usize,
    batch: usize,
) -> bool {
    &&& heads.count > 0
    &&& batch > 0
    &&& recorder::askable(seq![q_tokens, layer.dim])
    &&& recorder::askable(seq![k_tokens, layer.dim])
    &&& stages::proj_plannable(layer.q_proj, q_tokens)
    &&& stages::proj_plannable(layer.k_proj, k_tokens)
    &&& stages::proj_plannable(layer.v_proj, k_tokens)
    &&& stages::proj_plannable(layer.out_proj, q_tokens)
    &&& attention_plannable(
        q_tokens,
        k_tokens,
        batch,
        heads.count,
        (q_tokens / batch) as usize,
        (k_tokens / batch) as usize,
        (layer.dim / heads.count) as usize,
    )
}

/// The attending half of a layer: projections, attention, scale and sum. `traced`
/// layers are observed at every step.
#[verifier::opaque]
pub open spec fn attend_plan(
    k: Kernels,
    s: Plan,
    heads: Heads,
    ones: TensorView,
    zeros: TensorView,
    layer: GpuTransformerLayer,
    x: TensorView,
    normed_q: TensorView,
    normed_k: TensorView,
    q_tokens: usize,
    k_tokens: usize,
    batch: usize,
    name: Seq<char>,
    traced: bool,
) -> (Plan, TensorView) {
    let q_shape = seq![q_tokens, layer.dim];
    let k_shape = seq![k_tokens, layer.dim];
    let asked = name + ".attn.q"@;
    let q = s.fresh(q_shape);
    let s1 = stages::proj_stage_plan(
        k,
        s.tensor(q_shape, name + ".q"@),
        normed_q,
        layer.q_proj,
        q,
        q_tokens,
        ones,
    );
    let keys = s1.fresh(k_shape);
    let s2 = stages::proj_stage_plan(
        k,
        s1.tensor(k_shape, name + ".k"@),
        normed_k,
        layer.k_proj,
        keys,
        k_tokens,
        ones,
    );
    let v = s2.fresh(k_shape);
    let s3 = stages::proj_stage_plan(
        k,
        s2.tensor(k_shape, name + ".v"@),
        normed_k,
        layer.v_proj,
        v,
        k_tokens,
        ones,
    ).trace_with(asked, asked, q).trace_with(asked, name + ".attn.k"@, keys).trace_with(
        asked,
        name + ".attn.v"@,
        v,
    );
    let raw = s3.fresh(q_shape);
    let s4 = attention_stage_plan(
        k,
        s3.tensor(q_shape, name + ".attn.raw"@),
        heads,
        q,
        keys,
        v,
        batch,
        (q_tokens / batch) as usize,
        (k_tokens / batch) as usize,
        raw,
        name,
    );
    let attended = s4.fresh(q_shape);
    let s5 = stages::proj_stage_plan(
        k,
        s4.tensor(q_shape, name + ".attn"@),
        raw,
        layer.out_proj,
        attended,
        q_tokens,
        ones,
    );
    let s6 = if traced {
        s5.trace(name + ".attn"@, attended)
    } else {
        s5
    };
    let s7 = k.channel_affine_act_in_place_plan(
        s6,
        attended,
        layer.gamma1@,
        zeros,
        q_tokens,
        layer.dim,
        1,
        Activation::Identity,
    );
    let sum = s7.fresh(q_shape);
    let s8 = k.add_in_place_plan(
        k.copy_plan(s7.tensor(q_shape, name + ".res1"@), x, sum, x.len() as usize),
        sum,
        attended,
    );
    (
        if traced {
            s8.trace(name + ".res1"@, sum)
        } else {
            s8
        },
        sum,
    )
}

/// Two-axis shapes as the tensors below have them.
proof fn lemma_plane(a: usize, b: usize)
    requires
        recorder::askable(seq![a, b]),
    ensures
        tensor::elements(seq![a, b]) == a * b,
        a * b <= usize::MAX,
        4 * (a * b) <= usize::MAX,
        a * b * 1 == a * b,
{
    tensor::lemma_axes_2(seq![a, b]);
}

fn attend(
    k: &Kernels,
    pass: &mut Pass,
    heads: Heads,
    ones: &DevTensor,
    zeros: &DevTensor,
    layer: &GpuTransformerLayer,
    x: &DevTensor,
    normed_q: &DevTensor,
    normed_k: &DevTensor,
    q_tokens: usize,
    k_tokens: usize,
    batch: usize,
    name: &str,
    traced: bool,
) -> (r: DevTensor)
    requires
        ones.wf(),
        zeros.wf(),
        layer.wf(),
        x.wf(),
        normed_q.wf(),
        normed_k.wf(),
        attend_plannable(*layer, heads, q_tokens, k_tokens, batch),
    ensures
        (final(pass)@, r@) == attend_plan(
            *k,
            old(pass)@,
            heads,
            ones@,
            zeros@,
            *layer,
            x@,
            normed_q@,
            normed_k@,
            q_tokens,
            k_tokens,
            batch,
            name@,
            traced,
        ),
        r.wf(),
        r@.shape == seq![q_tokens, layer.dim],
{
    proof {
        reveal(attend_plan);
        lemma_plane(q_tokens, layer.dim);
        lemma_plane(k_tokens, layer.dim);
    }
    let dim: usize = layer.dim;
    let q = pass.tensor(plane(q_tokens, dim), text::concat(name, ".q").as_str());
    stages::proj_stage(k, pass, normed_q, &layer.q_proj, &q, q_tokens, ones);
    let keys = pass.tensor(plane(k_tokens, dim), text::concat(name, ".k").as_str());
    stages::proj_stage(k, pass, normed_k, &layer.k_proj, &keys, k_tokens, ones);
    let v = pass.tensor(plane(k_tokens, dim), text::concat(name, ".v").as_str());
    stages::proj_stage(k, pass, normed_k, &layer.v_proj, &v, k_tokens, ones);
    pass.trace_with(text::concat(name, ".attn.q"), text::concat(name, ".attn.q"), &q);
    pass.trace_with(text::concat(name, ".attn.q"), text::concat(name, ".attn.k"), &keys);
    pass.trace_with(text::concat(name, ".attn.q"), text::concat(name, ".attn.v"), &v);
    let raw = pass.tensor(plane(q_tokens, dim), text::concat(name, ".attn.raw").as_str());
    attention_stage(
        k,
        pass,
        heads,
        &q,
        &keys,
        &v,
        batch,
        q_tokens / batch,
        k_tokens / batch,
        &raw,
        name,
    );
    let attended = pass.tensor(plane(q_tokens, dim), text::concat(name, ".attn").as_str());
    stages::proj_stage(k, pass, &raw, &layer.out_proj, &attended, q_tokens, ones);
    if traced {
        pass.trace(text::concat(name, ".attn"), &attended);
    }
    pass.channel_affine_act_in_place(
        k,
        &attended,
        &layer.gamma1,
        zeros,
        q_tokens,
        dim,
        1,
        Activation::Identity,
    );
    let sum = pass.tensor(plane(q_tokens, dim), text::concat(name, ".res1").as_str());
    let count: usize = x.len();
    pass.copy(k, x, &sum, count);
    pass.add_in_place(k, &sum, &attended);
    if traced {
        pass.trace(text::concat(name, ".res1"), &sum);
    }
    sum
}

fn plane(a: usize, b: usize) -> (r: Vec<usize>)
    ensures
        r@ == seq![a, b],
{
    let r: Vec<usize> = vec![a, b];
    assert(r@ =~= seq![a, b]);
    r
}

/// Whether the feeding half of a layer can be planned.
pub open spec fn feed_plannable(
    layer: GpuTransformerLayer,
    norm: LayerNorm,
    tokens: usize,
    batch: usize,
) -> bool {
    &&& batch > 0
    &&& recorder::askable(seq![tokens, layer.dim])
    &&& recorder::askable(seq![tokens, layer.linear1.out_features])
    &&& stages::normable(stages::token_norm(norm.dim, tokens))
    &&& stages::proj_plannable(layer.linear1, tokens)
    &&& stages::proj_plannable(layer.linear2, tokens)
    &&& layer.norm_out.dim * (tokens / batch) <= usize::MAX
    &&& stages::normable(stages::segment_norm(layer.norm_out.dim, tokens, batch))
}

/// The feeding half of a layer: norm, two projections around the activation, scale,
/// sum, and the norm over the segment.
#[verifier::opaque]
pub open spec fn feed_plan(
    k: Kernels,
    s: Plan,
    ones: TensorView,
    zeros: TensorView,
    layer: GpuTransformerLayer,
    norm: LayerNorm,
    norm_name: Seq<char>,
    x: TensorView,
    tokens: usize,
    batch: usize,
    name: Seq<char>,
    traced: bool,
) -> (Plan, TensorView) {
    let shape = seq![tokens, layer.dim];
    let hidden_shape = seq![tokens, layer.linear1.out_features];
    let normed = s.fresh(shape);
    let s1 = stages::layer_norm_stage_plan(
        k,
        s.tensor(shape, name + norm_name),
        x,
        normed,
        norm,
        tokens,
    );
    let s2 = if traced {
        s1.trace(name + norm_name, normed)
    } else {
        s1
    };
    let hidden = s2.fresh(hidden_shape);
    let s3 = stages::proj_stage_plan(
        k,
        s2.tensor(hidden_shape, name + ".hidden"@),
        normed,
        layer.linear1,
        hidden,
        tokens,
        ones,
    );
    let s4 = if traced {
        s3.trace(name + ".linear1"@, hidden)
    } else {
        s3
    };
    let s5 = k.gelu_in_place_plan(s4, hidden);
    let fed = s5.fresh(shape);
    let s6 = stages::proj_stage_plan(
        k,
        s5.tensor(shape, name + ".fed"@),
        hidden,
        layer.linear2,
        fed,
        tokens,
        ones,
    );
    let s7 = if traced {
        s6.trace(name + ".fed"@, fed)
    } else {
        s6
    };
    let s8 = k.channel_affine_act_in_place_plan(
        s7,
        fed,
        layer.gamma2@,
        zeros,
        tokens,
        layer.dim,
        1,
        Activation::Identity,
    );
    let sum = s8.fresh(shape);
    let s9 = k.add_in_place_plan(
        k.copy_plan(s8.tensor(shape, name + ".res2"@), x, sum, x.len() as usize),
        sum,
        fed,
    );
    let out = s9.fresh(shape);
    let s10 = stages::group_norm_positions_stage_plan(
        k,
        s9.tensor(shape, name + ".normout"@),
        sum,
        out,
        layer.norm_out,
        tokens,
        batch,
    );
    (s10.trace(name, out), out)
}

fn feed(
    k: &Kernels,
    pass: &mut Pass,
    ones: &DevTensor,
    zeros: &DevTensor,
    layer: &GpuTransformerLayer,
    norm: &LayerNorm,
    norm_name: &str,
    x: &DevTensor,
    tokens: usize,
    batch: usize,
    name: &str,
    traced: bool,
) -> (r: DevTensor)
    requires
        ones.wf(),
        zeros.wf(),
        layer.wf(),
        norm.wf(),
        x.wf(),
        feed_plannable(*layer, *norm, tokens, batch),
    ensures
        (final(pass)@, r@) == feed_plan(
            *k,
            old(pass)@,
            ones@,
            zeros@,
            *layer,
            *norm,
            norm_name@,
            x@,
            tokens,
            batch,
            name@,
            traced,
        ),
        r.wf(),
        r@.shape == seq![tokens, layer.dim],
{
    proof {
        reveal(feed_plan);
        lemma_plane(tokens, layer.dim);
    }
    let dim: usize = layer.dim;
    let normed = pass.tensor(plane(tokens, dim), text::concat(name, norm_name).as_str());
    stages::layer_norm_stage(k, pass, x, &normed, norm, tokens);
    if traced {
        pass.trace(text::concat(name, norm_name), &normed);
    }
    let hidden = pass.tensor(
        plane(tokens, layer.linear1.out_features),
        text::concat(name, ".hidden").as_str(),
    );
    stages::proj_stage(k, pass, &normed, &layer.linear1, &hidden, tokens, ones);
    if traced {
        pass.trace(text::concat(name, ".linear1"), &hidden);
    }
    pass.gelu_in_place(k, &hidden);
    let fed = pass.tensor(plane(tokens, dim), text::concat(name, ".fed").as_str());
    stages::proj_stage(k, pass, &hidden, &layer.linear2, &fed, tokens, ones);
    if traced {
        pass.trace(text::concat(name, ".fed"), &fed);
    }
    pass.channel_affine_act_in_place(
        k,
        &fed,
        &layer.gamma2,
        zeros,
        tokens,
        dim,
        1,
        Activation::Identity,
    );
    let sum = pass.tensor(plane(tokens, dim), text::concat(name, ".res2").as_str());
    let count: usize = x.len();
    pass.copy(k, x, &sum, count);
    pass.add_in_place(k, &sum, &fed);
    let out = pass.tensor(plane(tokens, dim), text::concat(name, ".normout").as_str());
    stages::group_norm_positions_stage(k, pass, &sum, &out, &layer.norm_out, tokens, batch);
    pass.trace(String::from_str(name), &out);
    out
}

/// Whether a self-attention layer can be planned.
pub open spec fn self_plannable(
    layer: GpuTransformerLayer,
    heads: Heads,
    tokens: usize,
    batch: usize,
) -> bool {
    &&& stages::normable(stages::token_norm(layer.norm1.dim, tokens))
    &&& attend_plannable(layer, heads, tokens, tokens, batch)
    &&& feed_plannable(layer, layer.norm2, tokens, batch)
}

#[verifier::opaque]
pub open spec fn self_layer_plan(
    k: Kernels,
    s: Plan,
    heads: Heads,
    ones: TensorView,
    zeros: TensorView,
    layer: GpuTransformerLayer,
    x: TensorView,
    tokens: usize,
    batch: usize,
    name: Seq<char>,
) -> (Plan, TensorView) {
    let normed = s.fresh(seq![tokens, layer.dim]);
    let s1 = stages::layer_norm_stage_plan(
        k,
        s.tensor(seq![tokens, layer.dim], name + ".norm1"@),
        x,
        normed,
        layer.norm1,
        tokens,
    ).trace(name + ".norm1"@, normed);
    let (s2, sum) = attend_plan(
        k,
        s1,
        heads,
        ones,
        zeros,
        layer,
        x,
        normed,
        normed,
        tokens,
        tokens,
        batch,
        name,
        true,
    );
    feed_plan(k, s2, ones, zeros, layer, layer.norm2, ".norm2"@, sum, tokens, batch, name, true)
}

/// A self-attention layer. `tokens` counts the rows of every segment, `batch` the
/// segments.
pub fn run_self_layer(
    k: &Kernels,
    pass: &mut Pass,
    heads: Heads,
    ones: &DevTensor,
    zeros: &DevTensor,
    layer: &GpuTransformerLayer,
    x: &DevTensor,
    tokens: usize,
    batch: usize,
    name: &str,
) -> (r: DevTensor)
    requires
        ones.wf(),
        zeros.wf(),
        layer.wf(),
        x.wf(),
        self_plannable(*layer, heads, tokens, batch),
    ensures
        (final(pass)@, r@) == self_layer_plan(
            *k,
            old(pass)@,
            heads,
            ones@,
            zeros@,
            *layer,
            x@,
            tokens,
            batch,
            name@,
        ),
        r.wf(),
        r@.shape == seq![tokens, layer.dim],
{
    proof {
        reveal(self_layer_plan);
    }
    let label = text::concat(name, ".norm1");
    let normed = pass.tensor(plane(tokens, layer.dim), label.as_str());
    stages::layer_norm_stage(k, pass, x, &normed, &layer.norm1, tokens);
    pass.trace(label, &normed);
    let sum = attend(
        k,
        pass,
        heads,
        ones,
        zeros,
        layer,
        x,
        &normed,
        &normed,
        tokens,
        tokens,
        batch,
        name,
        true,
    );
    feed(k, pass, ones, zeros, layer, &layer.norm2, ".norm2", &sum, tokens, batch, name, true)
}

/// Whether a cross-attention layer can be planned.
pub open spec fn cross_plannable(
    layer: GpuTransformerLayer,
    heads: Heads,
    q_tokens: usize,
    k_tokens: usize,
    batch: usize,
) -> bool {
    &&& stages::normable(stages::token_norm(layer.norm1.dim, q_tokens))
    &&& stages::normable(stages::token_norm(layer.norm2.dim, k_tokens))
    &&& attend_plannable(layer, heads, q_tokens, k_tokens, batch)
    &&& layer.norm3 matches Some(norm) ==> feed_plannable(layer, norm, q_tokens, batch)
}

#[verifier::opaque]
pub open spec fn cross_layer_plan(
    k: Kernels,
    s: Plan,
    heads: Heads,
    ones: TensorView,
    zeros: TensorView,
    layer: GpuTransformerLayer,
    q_in: TensorView,
    k_in: TensorView,
    q_tokens: usize,
    k_tokens: usize,
    batch: usize,
    name: Seq<char>,
) -> (Plan, TensorView) {
    let normed_q = s.fresh(seq![q_tokens, layer.dim]);
    let s1 = stages::layer_norm_stage_plan(
        k,
        s.tensor(seq![q_tokens, layer.dim], name + ".norm1"@),
        q_in,
        normed_q,
        layer.norm1,
        q_tokens,
    );
    let normed_k = s1.fresh(seq![k_tokens, layer.dim]);
    let s2 = stages::layer_norm_stage_plan(
        k,
        s1.tensor(seq![k_tokens, layer.dim], name + ".norm2"@),
        k_in,
        normed_k,
        layer.norm2,
        k_tokens,
    ).trace_with(name + ".norm1"@, name + ".norm1"@, normed_q).trace_with(
        name + ".norm1"@,
        name + ".norm2"@,
        normed_k,
    );
    let (s3, sum) = attend_plan(
        k,
        s2,
        heads,
        ones,
        zeros,
        layer,
        q_in,
        normed_q,
        normed_k,
        q_tokens,
        k_tokens,
        batch,
        name,
        false,
    );
    match layer.norm3 {
        Some(norm) => feed_plan(
            k,
            s3,
            ones,
            zeros,
            layer,
            norm,
            ".norm3"@,
            sum,
            q_tokens,
            batch,
            name,
            false,
        ),
        None => (s3.fail(Error::Gpu(Fault::CrossNorm)), sum),
    }
}

/// A cross-attention layer: queries from one branch, keys and values from the other.
pub fn run_cross_layer(
    k: &Kernels,
    pass: &mut Pass,
    heads: Heads,
    ones: &DevTensor,
    zeros: &DevTensor,
    layer: &GpuTransformerLayer,
    q_in: &DevTensor,
    k_in: &DevTensor,
    q_tokens: usize,
    k_tokens: usize,
    batch: usize,
    name: &str,
) -> (r: DevTensor)
    requires
        ones.wf(),
        zeros.wf(),
        layer.wf(),
        q_in.wf(),
        k_in.wf(),
        cross_plannable(*layer, heads, q_tokens, k_tokens, batch),
    ensures
        (final(pass)@, r@) == cross_layer_plan(
            *k,
            old(pass)@,
            heads,
            ones@,
            zeros@,
            *layer,
            q_in@,
            k_in@,
            q_tokens,
            k_tokens,
            batch,
            name@,
        ),
        r.wf(),
        r@.shape == seq![q_tokens, layer.dim],
{
    proof {
        reveal(cross_layer_plan);
    }
    let normed_q = pass.tensor(plane(q_tokens, layer.dim), text::concat(name, ".norm1").as_str());
    stages::layer_norm_stage(k, pass, q_in, &normed_q, &layer.norm1, q_tokens);
    let normed_k = pass.tensor(plane(k_tokens, layer.dim), text::concat(name, ".norm2").as_str());
    stages::layer_norm_stage(k, pass, k_in, &normed_k, &layer.norm2, k_tokens);
    pass.trace_with(text::concat(name, ".norm1"), text::concat(name, ".norm1"), &normed_q);
    pass.trace_with(text::concat(name, ".norm1"), text::concat(name, ".norm2"), &normed_k);
    let sum = attend(
        k,
        pass,
        heads,
        ones,
        zeros,
        layer,
        q_in,
        &normed_q,
        &normed_k,
        q_tokens,
        k_tokens,
        batch,
        name,
        false,
    );
    match &layer.norm3 {
        Some(norm) => feed(
            k,
            pass,
            ones,
            zeros,
            layer,
            norm,
            ".norm3",
            &sum,
            q_tokens,
            batch,
            name,
            false,
        ),
        None => {
            pass.fail(Error::Gpu(Fault::CrossNorm));
            sum
        },
    }
}

// ------------------------------------------------------------- the whole of it

/// The sizes of one pass through the transformer: segments, the spectrogram's
/// channels, bins and frames, and the waveform's channels and tokens.
#[derive(Debug, Clone, Copy, PartialEq, Eq, Structural)]
pub struct Bottleneck {
    pub batch: usize,
    pub channels: usize,
    pub bins: usize,
    pub frames: usize,
    pub channels_t: usize,
    pub tokens_t: usize,
}

impl Bottleneck {
    /// The sizes two tensors have.
    pub open spec fn of(freq: TensorView, time: TensorView) -> Bottleneck {
        Self::of_shapes(freq.shape, time.shape)
    }

    pub open spec fn of_shapes(freq: Seq<usize>, time: Seq<usize>) -> Bottleneck {
        Bottleneck {
            batch: freq[0],
            channels: freq[1],
            bins: freq[2],
            frames: freq[3],
            channels_t: time[1],
            tokens_t: time[2],
        }
    }

    /// Tokens of one segment's spectrogram.
    pub open spec fn tokens(self) -> int {
        self.bins * self.frames
    }

    /// Rows of every segment's spectrogram tokens.
    pub open spec fn rows(self) -> int {
        self.batch * self.tokens()
    }

    /// Rows of every segment's waveform tokens.
    pub open spec fn rows_t(self) -> int {
        self.batch * self.tokens_t
    }
}

/// Whether the way into the transformer can be planned.
pub open spec fn enter_plannable(t: GpuTransformer, b: Bottleneck) -> bool {
    let dim = t.norm_in.dim;
    let folded = (b.bins * b.channels) as usize;
    &&& b.bins * b.channels <= usize::MAX
    &&& b.tokens() <= usize::MAX
    &&& b.rows() <= usize::MAX
    &&& b.rows_t() <= usize::MAX
    &&& b.batch * b.channels <= usize::MAX
    &&& b.batch * b.channels * b.bins <= usize::MAX
    &&& b.batch * b.channels * b.bins * b.frames <= usize::MAX
    &&& recorder::askable(seq![b.batch, b.bins, b.channels, b.frames])
    &&& b.batch * folded <= usize::MAX
    &&& b.batch * folded * b.frames <= usize::MAX
    &&& recorder::askable(seq![b.batch, b.frames, folded])
    &&& recorder::askable(seq![b.rows() as usize, dim])
    &&& stages::normable(stages::token_norm(dim, b.rows() as usize))
    &&& recorder::askable(seq![1usize, b.tokens() as usize, POSITION_FEATURES])
    &&& recorder::askable(seq![b.batch, b.tokens_t, dim])
    &&& b.batch * b.channels_t <= usize::MAX
    &&& b.batch * b.channels_t * b.tokens_t <= usize::MAX
    &&& recorder::askable(seq![b.rows_t() as usize, dim])
    &&& stages::normable(stages::token_norm(t.norm_in_t.dim, b.rows_t() as usize))
    &&& recorder::askable(seq![1usize, b.tokens_t, POSITION_FEATURES])
}

/// The way in: both branches become `(tokens, features)`, normalised, with their
/// positions added. Spectrogram tokens run frame by frame.
#[verifier::opaque]
pub open spec fn enter_plan(
    k: Kernels,
    s: Plan,
    t: GpuTransformer,
    freq: TensorView,
    time: TensorView,
) -> (Plan, TensorView, TensorView) {
    let b = Bottleneck::of(freq, time);
    let dim = t.norm_in.dim;
    let folded = (b.bins * b.channels) as usize;
    let rows = b.rows() as usize;
    let rows_t = b.rows_t() as usize;
    let swapped = s.fresh(seq![b.batch, b.bins, b.channels, b.frames]);
    let s1 = k.transpose_plan(
        s.tensor(seq![b.batch, b.bins, b.channels, b.frames], "xt.spec.step1"@),
        freq,
        swapped,
        b.batch,
        b.channels,
        b.bins,
        b.frames,
    );
    let raw = s1.fresh(seq![b.batch, b.frames, folded]);
    let s2 = k.transpose_plan(
        s1.tensor(seq![b.batch, b.frames, folded], "xt.spec.tokens"@),
        swapped,
        raw,
        b.batch,
        folded,
        b.frames,
        1,
    ).reshape(raw, seq![rows, dim]);
    let spec_cur = s2.fresh(seq![rows, dim]);
    let s3 = stages::layer_norm_stage_plan(
        k,
        s2.tensor(seq![rows, dim], "xt.spec.normin"@),
        recorder::reshaped(raw, seq![rows, dim]),
        spec_cur,
        t.norm_in,
        rows,
    );
    let places = seq![1usize, b.tokens() as usize, POSITION_FEATURES];
    let s4 = k.add_in_place_plan(
        s3.input(places, HostInput::SpectrogramPositions, true, "xt.pos.spec"@),
        spec_cur,
        s3.fresh(places),
    );
    let tokens = s4.fresh(seq![b.batch, b.tokens_t, dim]);
    let s5 = k.transpose_plan(
        s4.tensor(seq![b.batch, b.tokens_t, dim], "xt.time.tokens"@),
        time,
        tokens,
        b.batch,
        b.channels_t,
        b.tokens_t,
        1,
    );
    let time_cur = s5.fresh(seq![rows_t, dim]);
    let s6 = stages::layer_norm_stage_plan(
        k,
        s5.tensor(seq![rows_t, dim], "xt.time.normin"@),
        tokens,
        time_cur,
        t.norm_in_t,
        rows_t,
    );
    let places_t = seq![1usize, b.tokens_t, POSITION_FEATURES];
    let s7 = k.add_in_place_plan(
        s6.input(places_t, HostInput::WaveformPositions, true, "xt.pos.time"@),
        time_cur,
        s6.fresh(places_t),
    );
    (
        s7.trace("crosstransformer.norm_in"@, spec_cur).trace(
            "crosstransformer.norm_in_t"@,
            time_cur,
        ),
        spec_cur,
        time_cur,
    )
}

/// An embedding of some places holds something.
proof fn lemma_places(tokens: usize, rows: usize, dim: usize, batch: int)
    requires
        recorder::askable(seq![1usize, tokens, POSITION_FEATURES]),
        recorder::askable(seq![rows, dim]),
        rows == batch * tokens,
    ensures
        tensor::elements(seq![1usize, tokens, POSITION_FEATURES]) > 0 || tensor::elements(
            seq![rows, dim],
        ) == 0,
{
    tensor::lemma_axes_3(seq![1usize, tokens, POSITION_FEATURES]);
    tensor::lemma_axes_2(seq![rows, dim]);
    if tokens == 0 {
        assert(batch * 0 == 0);
        assert(0 * dim == 0);
    } else {
        assert(1 * tokens == tokens);
        assert(tokens * 512 > 0);
    }
}

fn enter(
    k: &Kernels,
    pass: &mut Pass,
    t: &GpuTransformer,
    freq: &DevTensor,
    time: &DevTensor,
) -> (r: (DevTensor, DevTensor))
    requires
        t.wf(),
        freq.wf(),
        time.wf(),
        freq.shape@.len() == 4,
        time.shape@.len() == 3,
        enter_plannable(*t, Bottleneck::of(freq@, time@)),
    ensures
        (final(pass)@, r.0@, r.1@) == enter_plan(*k, old(pass)@, *t, freq@, time@),
        r.0.wf(),
        r.1.wf(),
{
    proof {
        reveal(enter_plan);
        let b = Bottleneck::of(freq@, time@);
        lemma_places(b.tokens() as usize, b.rows() as usize, t.norm_in.dim, b.batch as int);
        lemma_places(b.tokens_t, b.rows_t() as usize, t.norm_in.dim, b.batch as int);
    }
    let dim: usize = t.norm_in.dim;
    let batch: usize = freq.shape[0];
    let channels: usize = freq.shape[1];
    let bins: usize = freq.shape[2];
    let frames: usize = freq.shape[3];
    let channels_t: usize = time.shape[1];
    let tokens_t: usize = time.shape[2];
    let folded: usize = bins * channels;
    let tokens: usize = bins * frames;
    let rows: usize = batch * tokens;
    let rows_t: usize = batch * tokens_t;
    let dims: Vec<usize> = vec![batch, bins, channels, frames];
    assert(dims@ =~= seq![batch, bins, channels, frames]);
    let swapped = pass.tensor(dims, "xt.spec.step1");
    pass.transpose(k, freq, &swapped, batch, channels, bins, frames);
    let dims: Vec<usize> = vec![batch, frames, folded];
    assert(dims@ =~= seq![batch, frames, folded]);
    let raw = pass.tensor(dims, "xt.spec.tokens");
    assert(batch * folded * frames * 1 == batch * folded * frames);
    pass.transpose(k, &swapped, &raw, batch, folded, frames, 1);
    let spec = pass.reshape(&raw, plane(rows, dim));
    let spec_cur = pass.tensor(plane(rows, dim), "xt.spec.normin");
    stages::layer_norm_stage(k, pass, &spec, &spec_cur, &t.norm_in, rows);
    let dims: Vec<usize> = vec![1, tokens, POSITION_FEATURES];
    assert(dims@ =~= seq![1usize, tokens, POSITION_FEATURES]);
    let places = pass.input(dims, HostInput::SpectrogramPositions, true, "xt.pos.spec");
    pass.add_in_place(k, &spec_cur, &places);
    let dims: Vec<usize> = vec![batch, tokens_t, dim];
    assert(dims@ =~= seq![batch, tokens_t, dim]);
    let turned = pass.tensor(dims, "xt.time.tokens");
    assert(batch * channels_t * tokens_t * 1 == batch * channels_t * tokens_t);
    pass.transpose(k, time, &turned, batch, channels_t, tokens_t, 1);
    let time_cur = pass.tensor(plane(rows_t, dim), "xt.time.normin");
    stages::layer_norm_stage(k, pass, &turned, &time_cur, &t.norm_in_t, rows_t);
    let dims: Vec<usize> = vec![1, tokens_t, POSITION_FEATURES];
    assert(dims@ =~= seq![1usize, tokens_t, POSITION_FEATURES]);
    let places_t = pass.input(dims, HostInput::WaveformPositions, true, "xt.pos.time");
    pass.add_in_place(k, &time_cur, &places_t);
    pass.trace(String::from_str("crosstransformer.norm_in"), &spec_cur);
    pass.trace(String::from_str("crosstransformer.norm_in_t"), &time_cur);
    (spec_cur, time_cur)
}

/// Whether a pair of layers can be planned.
pub open spec fn pair_plannable(
    layer: GpuTransformerLayer,
    layer_t: GpuTransformerLayer,
    heads: Heads,
    rows: usize,
    rows_t: usize,
    batch: usize,
) -> bool {
    if layer.is_cross {
        &&& cross_plannable(layer, heads, rows, rows_t, batch)
        &&& cross_plannable(layer_t, heads, rows_t, rows, batch)
    } else {
        &&& self_plannable(layer, heads, rows, batch)
        &&& self_plannable(layer_t, heads, rows_t, batch)
    }
}

/// The first `n` pairs of layers. In a crossing pair both sides attend to what the
/// other was before the pair.
pub open spec fn pairs_plan(
    k: Kernels,
    s: Plan,
    heads: Heads,
    t: GpuTransformer,
    spec_in: TensorView,
    time_in: TensorView,
    rows: usize,
    rows_t: usize,
    batch: usize,
    n: nat,
) -> (Plan, TensorView, TensorView)
    decreases n,
{
    if n == 0 {
        (s, spec_in, time_in)
    } else {
        let (before, x, xt) = pairs_plan(
            k,
            s,
            heads,
            t,
            spec_in,
            time_in,
            rows,
            rows_t,
            batch,
            (n - 1) as nat,
        );
        let layer = t.layers@[n - 1];
        let layer_t = t.layers_t@[n - 1];
        let name = "crosstransformer.layers."@ + text::decimal((n - 1) as nat);
        let name_t = "crosstransformer.layers_t."@ + text::decimal((n - 1) as nat);
        if layer.is_cross {
            let (s1, y) = cross_layer_plan(
                k,
                before,
                heads,
                t.ones@,
                t.zeros@,
                layer,
                x,
                xt,
                rows,
                rows_t,
                batch,
                name,
            );
            let (s2, yt) = cross_layer_plan(
                k,
                s1,
                heads,
                t.ones@,
                t.zeros@,
                layer_t,
                xt,
                x,
                rows_t,
                rows,
                batch,
                name_t,
            );
            (s2, y, yt)
        } else {
            let (s1, y) = self_layer_plan(
                k,
                before,
                heads,
                t.ones@,
                t.zeros@,
                layer,
                x,
                rows,
                batch,
                name,
            );
            let (s2, yt) = self_layer_plan(
                k,
                s1,
                heads,
                t.ones@,
                t.zeros@,
                layer_t,
                xt,
                rows_t,
                batch,
                name_t,
            );
            (s2, y, yt)
        }
    }
}

/// Whether the first `n` pairs can be planned.
pub open spec fn pairs_plannable(
    t: GpuTransformer,
    heads: Heads,
    rows: usize,
    rows_t: usize,
    batch: usize,
    n: usize,
) -> bool {
    &&& n <= t.layers@.len()
    &&& n <= t.layers_t@.len()
    &&& forall|i: int|
        0 <= i < n ==> pair_plannable(
            #[trigger] t.layers@[i],
            t.layers_t@[i],
            heads,
            rows,
            rows_t,
            batch,
        )
}

fn pairs(
    k: &Kernels,
    pass: &mut Pass,
    heads: Heads,
    t: &GpuTransformer,
    spec_in: DevTensor,
    time_in: DevTensor,
    rows: usize,
    rows_t: usize,
    batch: usize,
    n: usize,
) -> (r: (DevTensor, DevTensor))
    requires
        t.wf(),
        spec_in.wf(),
        time_in.wf(),
        pairs_plannable(*t, heads, rows, rows_t, batch, n),
    ensures
        (final(pass)@, r.0@, r.1@) == pairs_plan(
            *k,
            old(pass)@,
            heads,
            *t,
            spec_in@,
            time_in@,
            rows,
            rows_t,
            batch,
            n as nat,
        ),
        r.0.wf(),
        r.1.wf(),
{
    let ghost first = spec_in@;
    let ghost first_t = time_in@;
    let mut x = spec_in;
    let mut xt = time_in;
    let mut index: usize = 0;
    while index < n
        invariant
            index <= n,
            t.wf(),
            x.wf(),
            xt.wf(),
            pairs_plannable(*t, heads, rows, rows_t, batch, n),
            (pass@, x@, xt@) == pairs_plan(
                *k,
                old(pass)@,
                heads,
                *t,
                first,
                first_t,
                rows,
                rows_t,
                batch,
                index as nat,
            ),
        decreases n - index,
    {
        let layer = &t.layers[index];
        let layer_t = &t.layers_t[index];
        let name = text::concat_number("crosstransformer.layers.", index);
        let name_t = text::concat_number("crosstransformer.layers_t.", index);
        if layer.is_cross {
            let y = run_cross_layer(
                k,
                pass,
                heads,
                &t.ones,
                &t.zeros,
                layer,
                &x,
                &xt,
                rows,
                rows_t,
                batch,
                name.as_str(),
            );
            let yt = run_cross_layer(
                k,
                pass,
                heads,
                &t.ones,
                &t.zeros,
                layer_t,
                &xt,
                &x,
                rows_t,
                rows,
                batch,
                name_t.as_str(),
            );
            x = y;
            xt = yt;
        } else {
            x = run_self_layer(
                k,
                pass,
                heads,
                &t.ones,
                &t.zeros,
                layer,
                &x,
                rows,
                batch,
                name.as_str(),
            );
            xt = run_self_layer(
                k,
                pass,
                heads,
                &t.ones,
                &t.zeros,
                layer_t,
                &xt,
                rows_t,
                batch,
                name_t.as_str(),
            );
        }
        index += 1;
    }
    (x, xt)
}

/// Whether the way out of the transformer can be planned.
pub open spec fn leave_plannable(dim: usize, b: Bottleneck) -> bool {
    &&& b.tokens() <= usize::MAX
    &&& b.rows() <= usize::MAX
    &&& recorder::askable(seq![b.rows() as usize, dim])
    &&& recorder::askable(seq![b.batch, b.frames, b.bins, dim])
    &&& b.batch * b.frames <= usize::MAX
    &&& b.batch * b.frames * b.bins <= usize::MAX
    &&& b.batch * b.frames * b.bins * dim <= usize::MAX
    &&& b.rows() * dim <= usize::MAX
    &&& b.rows_t() <= usize::MAX
    &&& b.rows_t() * dim <= usize::MAX
}

/// The way out: tokens are put back bin by bin, then both branches take the shapes
/// they came in with.
#[verifier::opaque]
pub open spec fn leave_plan(
    k: Kernels,
    s: Plan,
    dim: usize,
    x: TensorView,
    xt: TensorView,
    freq: TensorView,
    time: TensorView,
) -> (Plan, TensorView, TensorView) {
    let b = Bottleneck::of(freq, time);
    let rows = b.rows() as usize;
    let grid = seq![b.batch, b.frames, b.bins, dim];
    let turned = s.fresh(seq![rows, dim]);
    let s1 = k.transpose_plan(
        s.tensor(seq![rows, dim], "xt.spec.out1"@).reshape(x, grid),
        recorder::reshaped(x, grid),
        turned,
        b.batch,
        b.frames,
        b.bins,
        dim,
    );
    let spec_out = s1.fresh(freq.shape);
    let s2 = k.transpose_plan(
        s1.tensor(freq.shape, "xt.spec.out"@),
        turned,
        spec_out,
        b.batch,
        b.tokens() as usize,
        dim,
        1,
    );
    let time_out = s2.fresh(time.shape);
    let s3 = k.transpose_plan(
        s2.tensor(time.shape, "xt.time.out"@),
        xt,
        time_out,
        b.batch,
        b.tokens_t,
        dim,
        1,
    );
    (s3, spec_out, time_out)
}

fn leave(
    k: &Kernels,
    pass: &mut Pass,
    dim: usize,
    x: &DevTensor,
    xt: &DevTensor,
    freq: &DevTensor,
    time: &DevTensor,
) -> (r: (DevTensor, DevTensor))
    requires
        x.wf(),
        xt.wf(),
        freq.wf(),
        time.wf(),
        freq.shape@.len() == 4,
        time.shape@.len() == 3,
        leave_plannable(dim, Bottleneck::of(freq@, time@)),
        recorder::askable(freq@.shape),
        recorder::askable(time@.shape),
    ensures
        (final(pass)@, r.0@, r.1@) == leave_plan(
            *k,
            old(pass)@,
            dim,
            x@,
            xt@,
            freq@,
            time@,
        ),
        r.0.wf(),
        r.1.wf(),
        r.0@.shape == freq@.shape,
        r.1@.shape == time@.shape,
{
    proof {
        reveal(leave_plan);
    }
    let batch: usize = freq.shape[0];
    let bins: usize = freq.shape[2];
    let frames: usize = freq.shape[3];
    let tokens_t: usize = time.shape[2];
    let tokens: usize = bins * frames;
    let rows: usize = batch * tokens;
    let turned = pass.tensor(plane(rows, dim), "xt.spec.out1");
    let grid: Vec<usize> = vec![batch, frames, bins, dim];
    assert(grid@ =~= seq![batch, frames, bins, dim]);
    let gridded = pass.reshape(x, grid);
    pass.transpose(k, &gridded, &turned, batch, frames, bins, dim);
    let dims = freq.shape.clone();
    assert(freq.shape@ =~= dims@);
    let spec_out = pass.tensor(dims, "xt.spec.out");
    assert(batch * tokens * dim * 1 == batch * tokens * dim);
    pass.transpose(k, &turned, &spec_out, batch, tokens, dim, 1);
    let dims = time.shape.clone();
    assert(time.shape@ =~= dims@);
    let time_out = pass.tensor(dims, "xt.time.out");
    assert(batch * tokens_t * dim * 1 == batch * tokens_t * dim);
    pass.transpose(k, xt, &time_out, batch, tokens_t, dim, 1);
    (spec_out, time_out)
}

/// Whether a whole pass through the transformer can be planned.
pub open spec fn transformer_plannable(
    t: GpuTransformer,
    heads: Heads,
    layers: usize,
    freq: Seq<usize>,
    time: Seq<usize>,
) -> bool {
    let b = Bottleneck::of_shapes(freq, time);
    &&& recorder::askable(freq)
    &&& recorder::askable(time)
    &&& enter_plannable(t, b)
    &&& pairs_plannable(t, heads, b.rows() as usize, b.rows_t() as usize, b.batch, layers)
    &&& leave_plannable(t.norm_in.dim, b)
}

#[verifier::opaque]
pub open spec fn forward_transformer_plan(
    k: Kernels,
    s: Plan,
    heads: Heads,
    t: GpuTransformer,
    layers: usize,
    freq: TensorView,
    time: TensorView,
) -> (Plan, TensorView, TensorView) {
    let b = Bottleneck::of(freq, time);
    let (s1, x, xt) = enter_plan(k, s, t, freq, time);
    let (s2, y, yt) = pairs_plan(
        k,
        s1,
        heads,
        t,
        x,
        xt,
        b.rows() as usize,
        b.rows_t() as usize,
        b.batch,
        layers as nat,
    );
    leave_plan(k, s2, t.norm_in.dim, y, yt, freq, time)
}

/// The transformer, from the two bottlenecks back to their shapes.
pub fn forward_transformer(
    k: &Kernels,
    pass: &mut Pass,
    heads: Heads,
    t: &GpuTransformer,
    layers: usize,
    freq: &DevTensor,
    time: &DevTensor,
) -> (r: (DevTensor, DevTensor))
    requires
        t.wf(),
        freq.wf(),
        time.wf(),
        freq.shape@.len() == 4,
        time.shape@.len() == 3,
        transformer_plannable(*t, heads, layers, freq@.shape, time@.shape),
    ensures
        (final(pass)@, r.0@, r.1@) == forward_transformer_plan(
            *k,
            old(pass)@,
            heads,
            *t,
            layers,
            freq@,
            time@,
        ),
        r.0.wf(),
        r.1.wf(),
        r.0@.shape == freq@.shape,
        r.1@.shape == time@.shape,
{
    proof {
        reveal(forward_transformer_plan);
    }
    let (x, xt) = enter(k, pass, t, freq, time);
    let rows: usize = freq.shape[0] * (freq.shape[2] * freq.shape[3]);
    let rows_t: usize = freq.shape[0] * time.shape[2];
    let (y, yt) = pairs(k, pass, heads, t, x, xt, rows, rows_t, freq.shape[0], layers);
    leave(k, pass, t.norm_in.dim, &y, &yt, freq, time)
}

} // verus!
