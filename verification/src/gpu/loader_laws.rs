//! What the transformer's buffers hold once its weights are loaded.

use vstd::prelude::*;

use crate::gpu::arith;
use crate::gpu::loader;
use crate::gpu::recorder::{CommandView, Plan};
use crate::gpu::shaders;
use crate::gpu::stages::{GpuProj, LayerNorm};
use crate::gpu::tensor::TensorView;
use crate::gpu::transformer::{GpuTransformer, GpuTransformerLayer};
use crate::gpu::weights;
use crate::gpu::weights::{LayerNormW, TransformerLayerW, TransformerW};
use crate::text;

verus! {

/// Element `(row, col)` of a padded matrix is that of the matrix, and the margins are
/// zeros.
pub proof fn law_a_padded_matrix_holds_its_rows(
    data: Seq<u32>,
    rows: int,
    cols: int,
    row_tile: int,
    col_tile: int,
    row: int,
    col: int,
)
    requires
        0 <= row < arith::padded(rows, row_tile),
        0 <= col < arith::padded(cols, col_tile),
    ensures
        weights::padded_words(data, rows, cols, row_tile, col_tile)[row * arith::padded(
            cols,
            col_tile,
        ) + col] == (if row < rows && col < cols {
            data[row * cols + col]
        } else {
            0
        }),
{
    let height = arith::padded(rows, row_tile);
    let width = arith::padded(cols, col_tile);
    let i = row * width + col;
    vstd::arithmetic::div_mod::lemma_fundamental_div_mod_converse(i, width, row, col);
    assert(0 <= i < height * width) by (nonlinear_arith)
        requires
            i == row * width + col,
            0 <= row < height,
            0 <= col < width,
    ;
}

// ------------------------------------------------------------------------ uploads

/// Whether a buffer was made with these words in it.
pub open spec fn holds(commands: Seq<CommandView>, t: TensorView, what: Seq<u32>) -> bool {
    &&& 0 <= t.buffer.index < commands.len()
    &&& commands[t.buffer.index as int] matches CommandView::Upload { words, .. } && words == what
}

/// Whether a buffer holds these words, where planning came this far.
#[verifier::opaque]
pub open spec fn kept(r: Plan, t: TensorView, what: Seq<u32>) -> bool {
    r.fault is None && r.commands.len() <= usize::MAX ==> holds(r.commands, t, what)
}

/// Whether planning went on from `s` to `r`.
#[verifier::opaque]
pub open spec fn grows(s: Plan, r: Plan) -> bool {
    r.fault is None ==> {
        &&& s.fault is None
        &&& s.commands.len() <= r.commands.len()
        &&& forall|i: int| 0 <= i < s.commands.len() ==> #[trigger] r.commands[i] == s.commands[i]
    }
}

pub proof fn lemma_grows_on(a: Plan, b: Plan, c: Plan)
    requires
        grows(a, b),
        grows(b, c),
    ensures
        grows(a, c),
{
    reveal(grows);
}

pub proof fn lemma_kept_on(s: Plan, r: Plan, t: TensorView, what: Seq<u32>)
    requires
        grows(s, r),
        kept(s, t, what),
    ensures
        kept(r, t, what),
{
    reveal(grows);
    reveal(kept);
}

pub proof fn lemma_same(s: Plan)
    ensures
        grows(s, s),
{
    reveal(grows);
}

pub proof fn lemma_upload(s: Plan, shape: Seq<usize>, words: Seq<u32>, label: Seq<char>)
    ensures
        grows(s, s.upload(shape, words, label)),
        kept(s.upload(shape, words, label), s.fresh(shape), words),
{
    reveal(grows);
    reveal(kept);
}

pub proof fn lemma_matrix(
    s: Plan,
    data: Seq<u32>,
    rows: int,
    cols: int,
    row_tile: int,
    col_tile: int,
    label: Seq<char>,
)
    ensures
        ({
            let r = weights::matrix_plan(s, data, rows, cols, row_tile, col_tile, label);
            let shape = seq![
                arith::padded(rows, row_tile) as usize,
                arith::padded(cols, col_tile) as usize,
            ];
            &&& grows(s, r)
            &&& kept(
                r,
                s.fresh(shape),
                weights::padded_words(data, rows, cols, row_tile, col_tile),
            )
        }),
{
    let words = weights::padded_words(data, rows, cols, row_tile, col_tile);
    let shape = seq![
        arith::padded(rows, row_tile) as usize,
        arith::padded(cols, col_tile) as usize,
    ];
    let e = crate::error::Error::Shape(
        crate::error::Fault::MatrixLength {
            have: data.len() as usize,
            need: (rows * cols) as usize,
        },
    );
    let checked = s.require(data.len() >= rows * cols, e);
    lemma_upload(checked, shape, words, label);
    reveal(grows);
    reveal(kept);
}

/// Whether the buffers of a projection hold its weights, padded, and its bias.
pub open spec fn proj_kept(
    r: Plan,
    p: GpuProj,
    weight: Seq<u32>,
    bias: Seq<u32>,
    out: int,
    inner: int,
) -> bool {
    &&& p.out_features == out && p.in_features == inner
    &&& kept(
        r,
        p.weight@,
        weights::padded_words(weight, out, inner, shaders::BN as int, shaders::BK as int),
    )
    &&& kept(r, p.bias@, bias)
}

proof fn lemma_proj(
    p: GpuProj,
    s: Plan,
    weight: Seq<u32>,
    bias: Seq<u32>,
    out: int,
    inner: int,
    label: Seq<char>,
)
    requires
        loader::proj_made(p, s, weight, out, inner, label),
    ensures
        grows(s, loader::proj_plan(s, weight, bias, out, inner, label)),
        proj_kept(
            loader::proj_plan(s, weight, bias, out, inner, label),
            p,
            weight,
            bias,
            out,
            inner,
        ),
{
    let words = weights::padded_words(weight, out, inner, shaders::BN as int, shaders::BK as int);
    let m = loader::proj_weight_plan(s, weight, out, inner, label);
    lemma_matrix(s, weight, out, inner, shaders::BN as int, shaders::BK as int, label);
    lemma_upload(m, seq![out as usize], bias, label);
    let r = loader::proj_plan(s, weight, bias, out, inner, label);
    lemma_grows_on(s, m, r);
    lemma_kept_on(m, r, p.weight@, words);
}

proof fn lemma_proj_on(
    s: Plan,
    r: Plan,
    p: GpuProj,
    weight: Seq<u32>,
    bias: Seq<u32>,
    out: int,
    inner: int,
)
    requires
        grows(s, r),
        proj_kept(s, p, weight, bias, out, inner),
    ensures
        proj_kept(r, p, weight, bias, out, inner),
{
    let words = weights::padded_words(weight, out, inner, shaders::BN as int, shaders::BK as int);
    lemma_kept_on(s, r, p.weight@, words);
    lemma_kept_on(s, r, p.bias@, bias);
}

/// Whether the buffers of a norm hold its scale and its shift.
pub open spec fn norm_kept(r: Plan, n: LayerNorm, w: LayerNormW) -> bool {
    kept(r, n.scale@, w.weight@) && kept(r, n.shift@, w.bias@)
}

proof fn lemma_norm(n: LayerNorm, s: Plan, w: LayerNormW, label: Seq<char>)
    requires
        loader::norm_made(n, s, w, label),
    ensures
        grows(s, loader::norm_plan(s, w, label)),
        norm_kept(loader::norm_plan(s, w, label), n, w),
{
    let m = weights::vector_plan(s, w.weight@, label);
    let r = loader::norm_plan(s, w, label);
    lemma_upload(s, seq![w.weight@.len() as usize], w.weight@, label);
    lemma_upload(m, seq![w.bias@.len() as usize], w.bias@, label);
    lemma_grows_on(s, m, r);
    lemma_kept_on(m, r, n.scale@, w.weight@);
}

proof fn lemma_norm_on(s: Plan, r: Plan, n: LayerNorm, w: LayerNormW)
    requires
        grows(s, r),
        norm_kept(s, n, w),
    ensures
        norm_kept(r, n, w),
{
    lemma_kept_on(s, r, n.scale@, w.weight@);
    lemma_kept_on(s, r, n.shift@, w.bias@);
}

// ------------------------------------------------------------------------- layers

/// Whether the buffers of a layer hold that layer's weights, each its own.
pub open spec fn layer_kept(r: Plan, g: GpuTransformerLayer, w: TransformerLayerW) -> bool {
    let dim = w.q_bias@.len() as int;
    &&& g.is_cross == w.is_cross
    &&& proj_kept(r, g.q_proj, w.q_weight@, w.q_bias@, dim, dim)
    &&& proj_kept(
        r,
        g.k_proj,
        w.k_weight@,
        w.k_bias@,
        w.k_bias@.len() as int,
        w.k_bias@.len() as int,
    )
    &&& proj_kept(
        r,
        g.v_proj,
        w.v_weight@,
        w.v_bias@,
        w.v_bias@.len() as int,
        w.v_bias@.len() as int,
    )
    &&& linear_kept(r, g.out_proj, w.out_proj)
    &&& linear_kept(r, g.linear1, w.linear1)
    &&& linear_kept(r, g.linear2, w.linear2)
    &&& norm_kept(r, g.norm1, w.norm1)
    &&& norm_kept(r, g.norm2, w.norm2)
    &&& match w.norm3 {
        Some(n) => g.norm3 matches Some(m) && norm_kept(r, m, n),
        None => g.norm3 is None,
    }
    &&& norm_kept(r, g.norm_out, w.norm_out)
    &&& kept(r, g.gamma1@, w.gamma1@)
    &&& kept(r, g.gamma2@, w.gamma2@)
}

pub open spec fn linear_kept(r: Plan, p: GpuProj, l: weights::LinearW) -> bool {
    proj_kept(r, p, l.weight@, l.bias@, l.out_features as int, l.in_features as int)
}

proof fn lemma_linear_on(s: Plan, r: Plan, p: GpuProj, l: weights::LinearW)
    requires
        grows(s, r),
        linear_kept(s, p, l),
    ensures
        linear_kept(r, p, l),
{
    lemma_proj_on(
        s,
        r,
        p,
        l.weight@,
        l.bias@,
        l.out_features as int,
        l.in_features as int,
    );
}

proof fn lemma_square_on(s: Plan, r: Plan, p: GpuProj, weight: Seq<u32>, bias: Seq<u32>)
    requires
        grows(s, r),
        proj_kept(s, p, weight, bias, bias.len() as int, bias.len() as int),
    ensures
        proj_kept(r, p, weight, bias, bias.len() as int, bias.len() as int),
{
    lemma_proj_on(s, r, p, weight, bias, bias.len() as int, bias.len() as int);
}

proof fn lemma_layer_on(s: Plan, r: Plan, g: GpuTransformerLayer, w: TransformerLayerW)
    requires
        grows(s, r),
        layer_kept(s, g, w),
    ensures
        layer_kept(r, g, w),
{
    lemma_square_on(s, r, g.q_proj, w.q_weight@, w.q_bias@);
    lemma_square_on(s, r, g.k_proj, w.k_weight@, w.k_bias@);
    lemma_square_on(s, r, g.v_proj, w.v_weight@, w.v_bias@);
    lemma_linear_on(s, r, g.out_proj, w.out_proj);
    lemma_linear_on(s, r, g.linear1, w.linear1);
    lemma_linear_on(s, r, g.linear2, w.linear2);
    lemma_norm_on(s, r, g.norm1, w.norm1);
    lemma_norm_on(s, r, g.norm2, w.norm2);
    if let Some(n) = w.norm3 {
        lemma_norm_on(s, r, g.norm3->0, n);
    }
    lemma_norm_on(s, r, g.norm_out, w.norm_out);
    lemma_kept_on(s, r, g.gamma1@, w.gamma1@);
    lemma_kept_on(s, r, g.gamma2@, w.gamma2@);
}

proof fn lemma_projections(
    g: loader::Projections,
    s: Plan,
    w: TransformerLayerW,
    label: Seq<char>,
)
    requires
        loader::projections_made(g, s, w, label),
    ensures
        ({
            let r = loader::projections_plan(s, w, label);
            &&& grows(s, r)
            &&& proj_kept(
                r,
                g.0,
                w.q_weight@,
                w.q_bias@,
                w.q_bias@.len() as int,
                w.q_bias@.len() as int,
            )
            &&& proj_kept(
                r,
                g.1,
                w.k_weight@,
                w.k_bias@,
                w.k_bias@.len() as int,
                w.k_bias@.len() as int,
            )
            &&& proj_kept(
                r,
                g.2,
                w.v_weight@,
                w.v_bias@,
                w.v_bias@.len() as int,
                w.v_bias@.len() as int,
            )
            &&& linear_kept(r, g.3, w.out_proj)
            &&& linear_kept(r, g.4, w.linear1)
            &&& linear_kept(r, g.5, w.linear2)
        }),
{
    reveal(loader::projections_plan);
    reveal(loader::projections_made);
    let nq = w.q_bias@.len() as int;
    let nk = w.k_bias@.len() as int;
    let nv = w.v_bias@.len() as int;
    let s1 = loader::square_plan(s, w.q_weight@, w.q_bias@, label);
    let s2 = loader::square_plan(s1, w.k_weight@, w.k_bias@, label);
    let s3 = loader::square_plan(s2, w.v_weight@, w.v_bias@, label);
    let s4 = loader::linear_plan(s3, w.out_proj, label);
    let s5 = loader::linear_plan(s4, w.linear1, label);
    let s6 = loader::linear_plan(s5, w.linear2, label);
    lemma_proj(g.0, s, w.q_weight@, w.q_bias@, nq, nq, label);
    lemma_proj(g.1, s1, w.k_weight@, w.k_bias@, nk, nk, label);
    lemma_proj(g.2, s2, w.v_weight@, w.v_bias@, nv, nv, label);
    let o = w.out_proj;
    let l1 = w.linear1;
    let l2 = w.linear2;
    lemma_proj(g.3, s3, o.weight@, o.bias@, o.out_features as int, o.in_features as int, label);
    lemma_proj(g.4, s4, l1.weight@, l1.bias@, l1.out_features as int, l1.in_features as int, label);
    lemma_proj(g.5, s5, l2.weight@, l2.bias@, l2.out_features as int, l2.in_features as int, label);
    lemma_grows_on(s4, s5, s6);
    lemma_grows_on(s3, s4, s6);
    lemma_grows_on(s2, s3, s6);
    lemma_grows_on(s1, s2, s6);
    lemma_grows_on(s, s1, s6);
    lemma_square_on(s1, s6, g.0, w.q_weight@, w.q_bias@);
    lemma_square_on(s2, s6, g.1, w.k_weight@, w.k_bias@);
    lemma_square_on(s3, s6, g.2, w.v_weight@, w.v_bias@);
    lemma_linear_on(s4, s6, g.3, o);
    lemma_linear_on(s5, s6, g.4, l1);
}

proof fn lemma_norms(g: loader::Norms, s: Plan, w: TransformerLayerW, label: Seq<char>)
    requires
        loader::norms_made(g, s, w, label),
    ensures
        ({
            let r = loader::norms_plan(s, w, label);
            &&& grows(s, r)
            &&& norm_kept(r, g.0, w.norm1)
            &&& norm_kept(r, g.1, w.norm2)
            &&& match w.norm3 {
                Some(n) => g.2 matches Some(m) && norm_kept(r, m, n),
                None => g.2 is None,
            }
        }),
{
    reveal(loader::norms_plan);
    reveal(loader::norms_made);
    let s1 = loader::norm_plan(s, w.norm1, label);
    let s2 = loader::norm_plan(s1, w.norm2, label);
    let r = loader::norms_plan(s, w, label);
    lemma_norm(g.0, s, w.norm1, label);
    lemma_norm(g.1, s1, w.norm2, label);
    if let Some(n) = w.norm3 {
        lemma_norm(g.2->0, s2, n, label);
    } else {
        lemma_same(s2);
    }
    lemma_grows_on(s1, s2, r);
    lemma_grows_on(s, s1, r);
    lemma_norm_on(s1, r, g.0, w.norm1);
    lemma_norm_on(s2, r, g.1, w.norm2);
}

/// A layer that was loaded holds its own weights: every projection its matrix and bias,
/// every norm its scale and shift, and its two scales.
pub proof fn law_a_loaded_layer_holds_its_weights(
    g: GpuTransformerLayer,
    s: Plan,
    w: TransformerLayerW,
    label: Seq<char>,
)
    requires
        loader::layer_made(g, s, w, label),
    ensures
        layer_kept(loader::layer_plan(s, w, label), g, w),
{
    lemma_layer(g, s, w, label);
}

proof fn lemma_layer(g: GpuTransformerLayer, s: Plan, w: TransformerLayerW, label: Seq<char>)
    requires
        loader::layer_made(g, s, w, label),
    ensures
        grows(s, loader::layer_plan(s, w, label)),
        layer_kept(loader::layer_plan(s, w, label), g, w),
{
    reveal(loader::layer_plan);
    reveal(loader::layer_made);
    let dim = w.q_bias@.len() as usize;
    let shape = seq![dim];
    let s1 = s.upload(shape, w.norm_out.weight@, label);
    let m = s1.upload(shape, w.norm_out.bias@, label);
    let s2 = loader::shift_plan(m, dim, label);
    let s3 = loader::projections_plan(s2, w, label);
    let s4 = loader::norms_plan(s3, w, label);
    let s5 = s4.upload(shape, w.gamma1@, label);
    let r = s5.upload(shape, w.gamma2@, label);
    let projections = (g.q_proj, g.k_proj, g.v_proj, g.out_proj, g.linear1, g.linear2);
    let norms = (g.norm1, g.norm2, g.norm3);
    lemma_upload(s, shape, w.norm_out.weight@, label);
    lemma_upload(s1, shape, w.norm_out.bias@, label);
    lemma_upload(m, shape, loader::zeros(dim as nat), label);
    lemma_projections(projections, s2, w, label);
    lemma_norms(norms, s3, w, label);
    lemma_upload(s4, shape, w.gamma1@, label);
    lemma_upload(s5, shape, w.gamma2@, label);
    lemma_grows_on(s4, s5, r);
    lemma_grows_on(s3, s4, r);
    lemma_grows_on(s2, s3, r);
    lemma_grows_on(m, s2, r);
    lemma_grows_on(s1, m, r);
    lemma_grows_on(s, s1, r);
    lemma_kept_on(s1, r, g.norm_out.scale@, w.norm_out.weight@);
    lemma_kept_on(m, r, g.norm_out.shift@, w.norm_out.bias@);
    lemma_square_on(s3, r, g.q_proj, w.q_weight@, w.q_bias@);
    lemma_square_on(s3, r, g.k_proj, w.k_weight@, w.k_bias@);
    lemma_square_on(s3, r, g.v_proj, w.v_weight@, w.v_bias@);
    lemma_linear_on(s3, r, g.out_proj, w.out_proj);
    lemma_linear_on(s3, r, g.linear1, w.linear1);
    lemma_linear_on(s3, r, g.linear2, w.linear2);
    lemma_norm_on(s4, r, g.norm1, w.norm1);
    lemma_norm_on(s4, r, g.norm2, w.norm2);
    if let Some(n) = w.norm3 {
        lemma_norm_on(s4, r, g.norm3->0, n);
    }
    lemma_kept_on(s5, r, g.gamma1@, w.gamma1@);
}

// -------------------------------------------------------------------- transformer

/// Planning more pairs goes on from fewer.
proof fn lemma_pairs_grow(
    g: GpuTransformer,
    s: Plan,
    t: TransformerW,
    all: nat,
    i: nat,
    n: nat,
)
    requires
        loader::transformer_made(g, s, t, all),
        i <= n <= all,
    ensures
        grows(
            loader::pairs_plan(s, t.layers@, t.layers_t@, i),
            loader::pairs_plan(s, t.layers@, t.layers_t@, n),
        ),
    decreases n - i,
{
    if i == n {
        lemma_same(loader::pairs_plan(s, t.layers@, t.layers_t@, i));
    } else {
        let m = (n - 1) as nat;
        lemma_pairs_grow(g, s, t, all, i, m);
        lemma_pair(g, s, t, all, m);
        lemma_grows_on(
            loader::pairs_plan(s, t.layers@, t.layers_t@, i),
            loader::pairs_plan(s, t.layers@, t.layers_t@, m),
            loader::pairs_plan(s, t.layers@, t.layers_t@, n),
        );
    }
}

proof fn lemma_pair(g: GpuTransformer, s: Plan, t: TransformerW, all: nat, i: nat)
    requires
        loader::transformer_made(g, s, t, all),
        i < all,
    ensures
        ({
            let before = loader::pairs_plan(s, t.layers@, t.layers_t@, i);
            let after = loader::pairs_plan(s, t.layers@, t.layers_t@, i + 1);
            &&& grows(before, after)
            &&& layer_kept(after, g.layers@[i as int], t.layers@[i as int])
            &&& layer_kept(after, g.layers_t@[i as int], t.layers_t@[i as int])
        }),
{
    reveal(loader::transformer_made);
    let before = loader::pairs_plan(s, t.layers@, t.layers_t@, i);
    let after = loader::pairs_plan(s, t.layers@, t.layers_t@, i + 1);
    let layer = g.layers@[i as int];
    let layer_t = g.layers_t@[i as int];
    let w = t.layers@[i as int];
    let wt = t.layers_t@[i as int];
    let label = "xt.layer."@ + text::decimal(i);
    let label_t = "xt.layer_t."@ + text::decimal(i);
    assert(loader::pair_made(layer, layer_t, before, w, wt, i));
    let mid = loader::layer_plan(before, w, label);
    lemma_layer(layer, before, w, label);
    lemma_layer(layer_t, mid, wt, label_t);
    assert(after == loader::layer_plan(mid, wt, label_t));
    lemma_grows_on(before, mid, after);
    lemma_layer_on(mid, after, layer, w);
}

/// Whether the buffers of layer `i` of both branches hold the weights of layer `i`.
pub open spec fn pair_kept(r: Plan, g: GpuTransformer, t: TransformerW, i: int) -> bool {
    &&& layer_kept(r, g.layers@[i], t.layers@[i])
    &&& layer_kept(r, g.layers_t@[i], t.layers_t@[i])
}

/// A loaded transformer holds, in the buffers of its layer `i` of either branch, the
/// weights of layer `i` of that branch, for every `i`; and its two norms in front theirs.
pub proof fn law_a_loaded_transformer_holds_every_layer(
    g: GpuTransformer,
    s: Plan,
    t: TransformerW,
    n: nat,
)
    requires
        loader::transformer_made(g, s, t, n),
    ensures
        g.layers@.len() == n && g.layers_t@.len() == n,
        forall|i: int|
            0 <= i < n ==> #[trigger] pair_kept(loader::transformer_plan(s, t, n), g, t, i),
        norm_kept(loader::transformer_plan(s, t, n), g.norm_in, t.norm_in),
        norm_kept(loader::transformer_plan(s, t, n), g.norm_in_t, t.norm_in_t),
{
    let r = loader::transformer_plan(s, t, n);
    let s1 = loader::pairs_plan(s, t.layers@, t.layers_t@, n);
    let s2 = loader::norm_plan(s1, t.norm_in, "xt.norm_in"@);
    let s3 = loader::norm_plan(s2, t.norm_in_t, "xt.norm_in_t"@);
    let ones = loader::ones(loader::ONES as nat);
    let zeros = loader::zeros(t.channels as nat);
    let s4 = weights::vector_plan(s3, ones, "xt.ones"@);
    assert(loader::norm_made(g.norm_in, s1, t.norm_in, "xt.norm_in"@) && loader::norm_made(
        g.norm_in_t,
        s2,
        t.norm_in_t,
        "xt.norm_in_t"@,
    ) && g.layers@.len() == n && g.layers_t@.len() == n) by {
        reveal(loader::transformer_made);
    }
    lemma_norm(g.norm_in, s1, t.norm_in, "xt.norm_in"@);
    lemma_norm(g.norm_in_t, s2, t.norm_in_t, "xt.norm_in_t"@);
    lemma_upload(s3, seq![ones.len() as usize], ones, "xt.ones"@);
    lemma_upload(s4, seq![zeros.len() as usize], zeros, "xt.zeros"@);
    lemma_grows_on(s3, s4, r);
    lemma_grows_on(s2, s3, r);
    lemma_grows_on(s1, s2, r);
    lemma_norm_on(s2, r, g.norm_in, t.norm_in);
    lemma_norm_on(s3, r, g.norm_in_t, t.norm_in_t);
    assert forall|i: int| 0 <= i < n implies #[trigger] pair_kept(r, g, t, i) by {
        let after = loader::pairs_plan(s, t.layers@, t.layers_t@, (i + 1) as nat);
        lemma_pair(g, s, t, n, i as nat);
        lemma_pairs_grow(g, s, t, n, (i + 1) as nat, n);
        lemma_grows_on(after, s1, r);
        lemma_layer_on(after, r, g.layers@[i], t.layers@[i]);
        lemma_layer_on(after, r, g.layers_t@[i], t.layers_t@[i]);
    }
}

} // verus!
