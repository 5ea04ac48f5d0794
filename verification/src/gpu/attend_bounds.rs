//! Whether the transformer can be planned, tested.

use vstd::prelude::*;

use crate::gpu::counts;
use crate::gpu::kernels;
use crate::gpu::shapes::GemmJob;
use crate::gpu::stage_bounds;
use crate::gpu::stages::LayerNorm;
use crate::gpu::transformer;
use crate::gpu::transformer::{
    Bottleneck, GpuTransformer, GpuTransformerLayer, Heads, POSITION_FEATURES,
};

verus! {

fn splits(rows: usize, batch: usize, tokens: usize, heads: usize, width: usize) -> (r: bool)
    ensures
        r == transformer::splittable(rows, batch, tokens, heads, width),
{
    match counts::times(batch, heads) {
        Some(pairs) => counts::asks_3(rows, heads, width) && counts::fits_4(
            batch,
            tokens,
            heads,
            width,
        ) && counts::asks_3(pairs, tokens, width),
        None => false,
    }
}

/// The sizes both products of an attention index can be counted.
spec fn blocks_fit(heads: usize, q_tokens: usize, k_tokens: usize, width: usize) -> bool {
    &&& q_tokens * width <= usize::MAX
    &&& k_tokens * width <= usize::MAX
    &&& q_tokens * k_tokens <= usize::MAX
    &&& heads * q_tokens <= usize::MAX
    &&& heads * k_tokens <= usize::MAX
    &&& heads * q_tokens * width <= usize::MAX
    &&& heads * k_tokens * width <= usize::MAX
    &&& heads * q_tokens * k_tokens <= usize::MAX
}

fn scores_plan(
    batch: usize,
    heads: usize,
    q_tokens: usize,
    k_tokens: usize,
    width: usize,
) -> (r: bool)
    requires
        batch * heads <= usize::MAX,
        blocks_fit(heads, q_tokens, k_tokens, width),
    ensures
        r == kernels::product_fits(
            transformer::scores_job(batch, heads, q_tokens, k_tokens, width),
        ),
{
    stage_bounds::product_plans(
        &GemmJob {
            m: q_tokens,
            n: k_tokens,
            k: width,
            lda: width,
            ldb: width,
            ldc: k_tokens,
            batches: batch * heads,
            inner_count: heads,
            a_outer: heads * q_tokens * width,
            a_inner: q_tokens * width,
            b_outer: heads * k_tokens * width,
            b_inner: k_tokens * width,
            c_outer: heads * q_tokens * k_tokens,
            c_inner: q_tokens * k_tokens,
            transb: true,
        },
    )
}

fn context_plans(
    batch: usize,
    heads: usize,
    q_tokens: usize,
    k_tokens: usize,
    width: usize,
) -> (r: bool)
    requires
        batch * heads <= usize::MAX,
        blocks_fit(heads, q_tokens, k_tokens, width),
    ensures
        r == kernels::product_fits(
            transformer::context_job(batch, heads, q_tokens, k_tokens, width),
        ),
{
    stage_bounds::product_plans(
        &GemmJob {
            m: q_tokens,
            n: width,
            k: k_tokens,
            lda: k_tokens,
            ldb: width,
            ldc: width,
            batches: batch * heads,
            inner_count: heads,
            a_outer: heads * q_tokens * k_tokens,
            a_inner: q_tokens * k_tokens,
            b_outer: heads * k_tokens * width,
            b_inner: k_tokens * width,
            c_outer: heads * q_tokens * width,
            c_inner: q_tokens * width,
            transb: false,
        },
    )
}

fn attention_plans(
    q_rows: usize,
    k_rows: usize,
    batch: usize,
    heads: usize,
    q_tokens: usize,
    k_tokens: usize,
    width: usize,
) -> (r: bool)
    ensures
        r == transformer::attention_plannable(
            q_rows,
            k_rows,
            batch,
            heads,
            q_tokens,
            k_tokens,
            width,
        ),
{
    if !splits(q_rows, batch, q_tokens, heads, width) || !splits(
        k_rows,
        batch,
        k_tokens,
        heads,
        width,
    ) {
        return false;
    }
    let pairs: usize = batch * heads;
    if !counts::fits_2(q_tokens, width) || !counts::fits_2(k_tokens, width) || !counts::fits_2(
        q_tokens,
        k_tokens,
    ) || !counts::fits_3(heads, q_tokens, width) || !counts::fits_3(heads, k_tokens, width)
        || !counts::fits_3(heads, q_tokens, k_tokens) {
        return false;
    }
    counts::asks_3(pairs, q_tokens, k_tokens) && counts::asks_3(pairs, q_tokens, width)
        && counts::fits_4(batch, heads, q_tokens, width) && scores_plan(
        batch,
        heads,
        q_tokens,
        k_tokens,
        width,
    ) && context_plans(batch, heads, q_tokens, k_tokens, width)
}

fn attend_plans(
    layer: &GpuTransformerLayer,
    heads: Heads,
    q_tokens: usize,
    k_tokens: usize,
    batch: usize,
) -> (r: bool)
    ensures
        r == transformer::attend_plannable(*layer, heads, q_tokens, k_tokens, batch),
{
    if heads.count == 0 || batch == 0 {
        return false;
    }
    counts::asks_2(q_tokens, layer.dim) && counts::asks_2(k_tokens, layer.dim)
        && stage_bounds::proj_plans(&layer.q_proj, q_tokens) && stage_bounds::proj_plans(
        &layer.k_proj,
        k_tokens,
    ) && stage_bounds::proj_plans(&layer.v_proj, k_tokens) && stage_bounds::proj_plans(
        &layer.out_proj,
        q_tokens,
    ) && attention_plans(
        q_tokens,
        k_tokens,
        batch,
        heads.count,
        q_tokens / batch,
        k_tokens / batch,
        layer.dim / heads.count,
    )
}

fn feed_plans(layer: &GpuTransformerLayer, norm: &LayerNorm, tokens: usize, batch: usize) -> (r:
    bool)
    ensures
        r == transformer::feed_plannable(*layer, *norm, tokens, batch),
{
    if batch == 0 || !counts::fits_2(layer.norm_out.dim, tokens / batch) {
        return false;
    }
    counts::asks_2(tokens, layer.dim) && counts::asks_2(tokens, layer.linear1.out_features)
        && stage_bounds::token_norm_plans(norm.dim, tokens) && stage_bounds::proj_plans(
        &layer.linear1,
        tokens,
    ) && stage_bounds::proj_plans(&layer.linear2, tokens) && stage_bounds::segment_norm_plans(
        layer.norm_out.dim,
        tokens,
        batch,
    )
}

fn self_plans(layer: &GpuTransformerLayer, heads: Heads, tokens: usize, batch: usize) -> (r: bool)
    ensures
        r == transformer::self_plannable(*layer, heads, tokens, batch),
{
    stage_bounds::token_norm_plans(layer.norm1.dim, tokens) && attend_plans(
        layer,
        heads,
        tokens,
        tokens,
        batch,
    ) && feed_plans(layer, &layer.norm2, tokens, batch)
}

fn cross_plans(
    layer: &GpuTransformerLayer,
    heads: Heads,
    q_tokens: usize,
    k_tokens: usize,
    batch: usize,
) -> (r: bool)
    ensures
        r == transformer::cross_plannable(*layer, heads, q_tokens, k_tokens, batch),
{
    let fed = match &layer.norm3 {
        Some(norm) => feed_plans(layer, norm, q_tokens, batch),
        None => true,
    };
    fed && stage_bounds::token_norm_plans(layer.norm1.dim, q_tokens)
        && stage_bounds::token_norm_plans(layer.norm2.dim, k_tokens) && attend_plans(
        layer,
        heads,
        q_tokens,
        k_tokens,
        batch,
    )
}

fn pair_plans(
    layer: &GpuTransformerLayer,
    layer_t: &GpuTransformerLayer,
    heads: Heads,
    rows: usize,
    rows_t: usize,
    batch: usize,
) -> (r: bool)
    ensures
        r == transformer::pair_plannable(*layer, *layer_t, heads, rows, rows_t, batch),
{
    if layer.is_cross {
        cross_plans(layer, heads, rows, rows_t, batch) && cross_plans(
            layer_t,
            heads,
            rows_t,
            rows,
            batch,
        )
    } else {
        self_plans(layer, heads, rows, batch) && self_plans(layer_t, heads, rows_t, batch)
    }
}

fn pairs_plan(
    t: &GpuTransformer,
    heads: Heads,
    rows: usize,
    rows_t: usize,
    batch: usize,
    n: usize,
) -> (r: bool)
    ensures
        r == transformer::pairs_plannable(*t, heads, rows, rows_t, batch, n),
{
    if n > t.layers.len() || n > t.layers_t.len() {
        return false;
    }
    let mut i: usize = 0;
    while i < n
        invariant
            i <= n <= t.layers@.len(),
            n <= t.layers_t@.len(),
            forall|j: int|
                0 <= j < i ==> transformer::pair_plannable(
                    #[trigger] t.layers@[j],
                    t.layers_t@[j],
                    heads,
                    rows,
                    rows_t,
                    batch,
                ),
        decreases n - i,
    {
        if !pair_plans(&t.layers[i], &t.layers_t[i], heads, rows, rows_t, batch) {
            return false;
        }
        i += 1;
    }
    true
}

/// Tokens, rows and waveform rows of a bottleneck, where they can be counted.
fn rows_of(b: &Bottleneck) -> (r: Option<(usize, usize, usize)>)
    ensures
        match r {
            Some(n) => n.0 == b.tokens() && n.1 == b.rows() && n.2 == b.rows_t(),
            None => b.tokens() > usize::MAX || b.rows() > usize::MAX || b.rows_t() > usize::MAX,
        },
{
    match (counts::times(b.bins, b.frames), counts::times(b.batch, b.tokens_t)) {
        (Some(tokens), Some(rows_t)) => match counts::times(b.batch, tokens) {
            Some(rows) => Some((tokens, rows, rows_t)),
            None => None,
        },
        _ => None,
    }
}

fn enter_plans(
    t: &GpuTransformer,
    b: &Bottleneck,
    tokens: usize,
    rows: usize,
    rows_t: usize,
) -> (r: bool)
    requires
        tokens == b.tokens(),
        rows == b.rows(),
        rows_t == b.rows_t(),
    ensures
        r == transformer::enter_plannable(*t, *b),
{
    let dim: usize = t.norm_in.dim;
    let folded: usize = match counts::times(b.bins, b.channels) {
        Some(folded) => folded,
        None => {
            return false;
        },
    };
    let sizes = counts::fits_4(b.batch, b.channels, b.bins, b.frames) && counts::fits_3(
        b.batch,
        folded,
        b.frames,
    ) && counts::fits_3(b.batch, b.channels_t, b.tokens_t);
    let freq = counts::asks_4(b.batch, b.bins, b.channels, b.frames) && counts::asks_3(
        b.batch,
        b.frames,
        folded,
    ) && counts::asks_2(rows, dim) && stage_bounds::token_norm_plans(dim, rows)
        && counts::asks_3(1, tokens, POSITION_FEATURES);
    let time = counts::asks_3(b.batch, b.tokens_t, dim) && counts::asks_2(rows_t, dim)
        && stage_bounds::token_norm_plans(t.norm_in_t.dim, rows_t) && counts::asks_3(
        1,
        b.tokens_t,
        POSITION_FEATURES,
    );
    sizes && freq && time
}

fn leave_plans(dim: usize, b: &Bottleneck, rows: usize, rows_t: usize) -> (r: bool)
    requires
        b.tokens() <= usize::MAX,
        rows == b.rows(),
        rows_t == b.rows_t(),
    ensures
        r == transformer::leave_plannable(dim, *b),
{
    counts::asks_2(rows, dim) && counts::asks_4(b.batch, b.frames, b.bins, dim) && counts::fits_4(
        b.batch,
        b.frames,
        b.bins,
        dim,
    ) && counts::fits_2(rows, dim) && counts::fits_2(rows_t, dim)
}

/// Whether a pass through the transformer can be planned, from a
/// `(batch, channels, bins, frames)` spectrogram and a `(batch, channels, samples)`
/// waveform.
pub fn transformer_plans(
    t: &GpuTransformer,
    heads: Heads,
    layers: usize,
    batch: usize,
    channels: usize,
    bins: usize,
    frames: usize,
    samples: usize,
) -> (r: bool)
    ensures
        r == transformer::transformer_plannable(
            *t,
            heads,
            layers,
            seq![batch, channels, bins, frames],
            seq![batch, channels, samples],
        ),
{
    let b = Bottleneck { batch, channels, bins, frames, channels_t: channels, tokens_t: samples };
    assert(b == Bottleneck::of_shapes(
        seq![batch, channels, bins, frames],
        seq![batch, channels, samples],
    ));
    match rows_of(&b) {
        Some((tokens, rows, rows_t)) => counts::asks_4(batch, channels, bins, frames)
            && counts::asks_3(batch, channels, samples) && enter_plans(t, &b, tokens, rows, rows_t)
            && pairs_plan(t, heads, rows, rows_t, batch, layers) && leave_plans(
            t.norm_in.dim,
            &b,
            rows,
            rows_t,
        ),
        None => false,
    }
}

} // verus!
