//! Whether a model's weights can be uploaded, tested.

use vstd::prelude::*;

use crate::gpu::counts;
use crate::gpu::htdemucs::{ModelConfig, BOTTLENECK_CHANNELS, TRANSFORMER_CHANNELS};
use crate::gpu::loader;
use crate::gpu::shaders;
use crate::gpu::weights;
use crate::gpu::weights::{
    ConvW, DConvLayerW, DConvW, DecLayerW, EncLayerW, HtdemucsWeights, LayerNormW, LinearW,
    TransformerLayerW, TransformerW,
};

verus! {

fn vector_loads(words: &Vec<u32>) -> (r: bool)
    ensures
        r == weights::vector_fits(words@),
{
    counts::rounds(words.len())
}

fn matrix_loads(rows: usize, cols: usize, row_tile: usize, col_tile: usize) -> (r: bool)
    requires
        row_tile > 0,
        col_tile > 0,
    ensures
        r == weights::matrix_fits(rows as int, cols as int, row_tile as int, col_tile as int),
{
    match (counts::padding(rows, row_tile), counts::padding(cols, col_tile)) {
        (Some(height), Some(width)) => {
            counts::fits_2(rows, cols) && counts::asks_2(height, width)
        },
        _ => false,
    }
}

fn ranked(w: &ConvW) -> (r: bool)
    ensures
        r == (w.shape@.len() == 3 || w.shape@.len() == 4),
{
    w.shape.len() == 3 || w.shape.len() == 4
}

fn kernel(w: &ConvW) -> (r: (usize, usize))
    requires
        w.shape@.len() == 3 || w.shape@.len() == 4,
    ensures
        r == weights::kernel_of(w.shape@),
{
    if w.shape.len() == 4 {
        (w.shape[2], w.shape[3])
    } else {
        (1, w.shape[2])
    }
}

fn conv_loads(w: &ConvW) -> (r: bool)
    ensures
        r == weights::conv_fits(*w),
{
    if !ranked(w) {
        return false;
    }
    let (height, width) = kernel(w);
    let k: usize = match counts::times(w.shape[1], height) {
        Some(taps) => match counts::times(taps, width) {
            Some(k) => k,
            None => {
                return false;
            },
        },
        None => {
            return false;
        },
    };
    matrix_loads(w.shape[0], k, shaders::BM, shaders::BK) && counts::rounds(w.shape[0])
        && counts::bytes_fit(w.bias.len())
}

/// How many taps a kernel of `k` taps spans when they stand `dilation` apart.
fn span(k: usize, dilation: usize) -> (r: Option<usize>)
    requires
        k >= 1,
    ensures
        match r {
            Some(n) => n == (k - 1) * dilation + 1,
            None => (k - 1) * dilation + 1 > usize::MAX,
        },
{
    match counts::times(k - 1, dilation) {
        Some(n) => n.checked_add(1),
        None => None,
    }
}

fn widened_conv_loads(w: &ConvW, dilation: usize) -> (r: bool)
    requires
        dilation >= 1,
    ensures
        r == weights::widened_conv_fits(*w, dilation as int),
{
    if w.shape.len() < 3 || w.shape[2] == 0 {
        return false;
    }
    let k: usize = w.shape[2];
    let have: usize = w.weight.len();
    match (counts::times(w.shape[0], w.shape[1]), span(k, dilation)) {
        (Some(filters), Some(width)) => {
            let held = match counts::times(filters, k) {
                Some(n) => n <= have,
                None => false,
            };
            let matrix = match counts::times(w.shape[1], width) {
                Some(n) => matrix_loads(w.shape[0], n, shaders::BM, shaders::BK),
                None => false,
            };
            counts::fits_2(filters, width) && held && counts::fits_2(dilation, k / 2) && matrix
                && counts::rounds(w.shape[0]) && counts::bytes_fit(w.bias.len())
        },
        _ => false,
    }
}

fn conv_tr_loads(w: &ConvW) -> (r: bool)
    ensures
        r == weights::conv_tr_fits(*w),
{
    if !ranked(w) {
        return false;
    }
    let (height, width) = kernel(w);
    let rows: usize = match counts::times(height, width) {
        Some(taps) => match counts::times(w.shape[1], taps) {
            Some(rows) => rows,
            None => {
                return false;
            },
        },
        None => {
            return false;
        },
    };
    let held = match counts::times(rows, w.shape[0]) {
        Some(n) => n <= w.weight.len(),
        None => false,
    };
    held && counts::fits_2(w.shape[0], w.shape[1]) && matrix_loads(
        rows,
        w.shape[0],
        shaders::BM,
        shaders::BK,
    ) && counts::rounds(w.shape[1]) && counts::bytes_fit(w.bias.len())
}

fn branch_loads(layer: &DConvLayerW, dilation: usize) -> (r: bool)
    requires
        dilation >= 1,
    ensures
        r == loader::branch_fits(*layer, dilation as int),
{
    widened_conv_loads(&layer.conv1, dilation) && conv_loads(&layer.conv2) && vector_loads(
        &layer.norm1_weight,
    ) && vector_loads(&layer.norm1_bias) && vector_loads(&layer.norm2_weight) && vector_loads(
        &layer.norm2_bias,
    ) && vector_loads(&layer.gamma)
}

fn dconv_loads(d: &DConvW) -> (r: bool)
    ensures
        r == loader::dconv_fits(*d),
{
    proof {
        reveal(loader::dconv_fits);
    }
    let mut dilation: Option<usize> = Some(1);
    let mut i: usize = 0;
    while i < d.layers.len()
        invariant
            i <= d.layers@.len(),
            match dilation {
                Some(n) => n == loader::dilation_at(i as nat) && n >= 1,
                None => loader::dilation_at(i as nat) > usize::MAX,
            },
            forall|j: int|
                0 <= j < i ==> loader::branch_fits(
                    #[trigger] d.layers@[j],
                    loader::dilation_at(j as nat),
                ),
        decreases d.layers@.len() - i,
    {
        proof {
            reveal(loader::dconv_fits);
        }
        let ghost at = d.layers@[i as int];
        let n: usize = match dilation {
            Some(n) => n,
            None => {
                assert(!loader::branch_fits(at, loader::dilation_at(i as nat)));
                return false;
            },
        };
        if !branch_loads(&d.layers[i], n) {
            assert(!loader::branch_fits(at, loader::dilation_at(i as nat)));
            return false;
        }
        dilation = counts::times(2, n);
        i += 1;
    }
    true
}

fn encoder_loads(layer: &EncLayerW) -> (r: bool)
    ensures
        r == loader::encoder_fits(*layer),
{
    proof {
        reveal(loader::encoder_fits);
    }
    conv_loads(&layer.conv) && conv_loads(&layer.rewrite) && dconv_loads(&layer.dconv)
}

fn encoders_load(layers: &Vec<EncLayerW>) -> (r: bool)
    ensures
        r == loader::encoders_fit(layers@),
{
    let mut i: usize = 0;
    while i < layers.len()
        invariant
            i <= layers@.len(),
            forall|j: int| 0 <= j < i ==> loader::encoder_fits(#[trigger] layers@[j]),
        decreases layers@.len() - i,
    {
        if !encoder_loads(&layers[i]) {
            return false;
        }
        i += 1;
    }
    true
}

fn decoder_loads(layer: &DecLayerW, image: bool) -> (r: bool)
    ensures
        r == loader::decoder_fits(*layer, image),
{
    proof {
        reveal(loader::decoder_fits);
    }
    conv_loads(&layer.rewrite) && (!image || layer.rewrite.shape.len() == 4) && conv_tr_loads(
        &layer.conv_tr,
    ) && dconv_loads(&layer.dconv)
}

fn decoders_load(layers: &Vec<DecLayerW>) -> (r: bool)
    ensures
        r == loader::decoders_fit(layers@),
{
    let mut i: usize = 0;
    while i < layers.len()
        invariant
            i <= layers@.len(),
            forall|j: int|
                0 <= j < i ==> loader::decoder_fits(
                    #[trigger] layers@[j],
                    layers@[j].conv_tr.shape@.len() == 4,
                ),
        decreases layers@.len() - i,
    {
        if !decoder_loads(&layers[i], layers[i].conv_tr.shape.len() == 4) {
            return false;
        }
        i += 1;
    }
    true
}

fn tdecoders_load(layers: &Vec<DecLayerW>) -> (r: bool)
    ensures
        r == loader::tdecoders_fit(layers@),
{
    let mut i: usize = 0;
    while i < layers.len()
        invariant
            i <= layers@.len(),
            forall|j: int| 0 <= j < i ==> loader::decoder_fits(#[trigger] layers@[j], false),
        decreases layers@.len() - i,
    {
        if !decoder_loads(&layers[i], false) {
            return false;
        }
        i += 1;
    }
    true
}

fn proj_loads(weight: &Vec<u32>, bias: &Vec<u32>, out: usize, inner: usize) -> (r: bool)
    ensures
        r == loader::proj_fits(weight@, bias@, out as int, inner as int),
{
    let held = match counts::times(out, inner) {
        Some(n) => weight.len() >= n,
        None => false,
    };
    held && matrix_loads(out, inner, shaders::BN, shaders::BK) && counts::rounds(out)
        && counts::bytes_fit(bias.len())
}

fn linear_loads(l: &LinearW) -> (r: bool)
    ensures
        r == loader::linear_fits(*l),
{
    proj_loads(&l.weight, &l.bias, l.out_features, l.in_features)
}

fn square_loads(weight: &Vec<u32>, bias: &Vec<u32>) -> (r: bool)
    ensures
        r == loader::square_fits(weight@, bias@),
{
    proj_loads(weight, bias, bias.len(), bias.len())
}

fn norm_loads(n: &LayerNormW) -> (r: bool)
    ensures
        r == loader::norm_fits(*n),
{
    vector_loads(&n.weight) && vector_loads(&n.bias)
}

fn layer_loads(layer: &TransformerLayerW) -> (r: bool)
    ensures
        r == loader::layer_fits(*layer),
{
    let third = match &layer.norm3 {
        Some(n) => norm_loads(n),
        None => true,
    };
    let squares = square_loads(&layer.q_weight, &layer.q_bias) && square_loads(
        &layer.k_weight,
        &layer.k_bias,
    ) && square_loads(&layer.v_weight, &layer.v_bias);
    let linears = linear_loads(&layer.out_proj) && linear_loads(&layer.linear1) && linear_loads(
        &layer.linear2,
    );
    let norms = norm_loads(&layer.norm1) && norm_loads(&layer.norm2) && third
        && counts::bytes_fit(layer.norm_out.weight.len()) && counts::bytes_fit(
        layer.norm_out.bias.len(),
    );
    counts::rounds(layer.q_bias.len()) && squares && linears && norms && counts::bytes_fit(
        layer.gamma1.len(),
    ) && counts::bytes_fit(layer.gamma2.len())
}

fn layers_load(layers: &Vec<TransformerLayerW>, n: usize) -> (r: bool)
    requires
        n <= layers@.len(),
    ensures
        r == forall|i: int| 0 <= i < n ==> loader::layer_fits(#[trigger] layers@[i]),
{
    let mut i: usize = 0;
    while i < n
        invariant
            i <= n <= layers@.len(),
            forall|j: int| 0 <= j < i ==> loader::layer_fits(#[trigger] layers@[j]),
        decreases n - i,
    {
        if !layer_loads(&layers[i]) {
            return false;
        }
        i += 1;
    }
    true
}

fn transformer_loads(t: &TransformerW, n: usize) -> (r: bool)
    ensures
        r == loader::transformer_fits(*t, n as int),
{
    n <= t.layers.len() && n <= t.layers_t.len() && layers_load(&t.layers, n) && layers_load(
        &t.layers_t,
        n,
    ) && norm_loads(&t.norm_in) && norm_loads(&t.norm_in_t) && counts::rounds(t.channels)
}

fn pointwise_loads(l: &LinearW, outputs: usize, inputs: usize) -> (r: bool)
    ensures
        r == loader::pointwise_fits(*l, outputs, inputs),
{
    matrix_loads(outputs, inputs, shaders::BM, shaders::BK) && counts::rounds(outputs)
        && counts::bytes_fit(l.bias.len())
}

fn samplers_load(w: &HtdemucsWeights) -> (r: bool)
    ensures
        r == loader::samplers_fit(*w),
{
    pointwise_loads(&w.channel_upsampler, TRANSFORMER_CHANNELS, BOTTLENECK_CHANNELS)
        && pointwise_loads(&w.channel_upsampler_t, TRANSFORMER_CHANNELS, BOTTLENECK_CHANNELS)
        && pointwise_loads(&w.channel_downsampler, BOTTLENECK_CHANNELS, TRANSFORMER_CHANNELS)
        && pointwise_loads(&w.channel_downsampler_t, BOTTLENECK_CHANNELS, TRANSFORMER_CHANNELS)
}

impl HtdemucsWeights {
    /// Whether [`crate::gpu::htdemucs::GpuWeights::load`] may be asked to plan the
    /// uploads of these weights.
    pub fn is_loadable(&self, config: &ModelConfig) -> (r: bool)
        ensures
            r == loader::loadable(*self, *config),
    {
        let table = match counts::times(self.freq_emb_rows, self.freq_emb_columns) {
            Some(n) => self.freq_emb.len() == n,
            None => false,
        };
        encoders_load(&self.encoder) && encoders_load(&self.tencoder) && table && vector_loads(
            &self.freq_emb,
        ) && transformer_loads(&self.transformer, config.t_layers) && samplers_load(self)
            && decoders_load(&self.decoder) && tdecoders_load(&self.tdecoder)
    }
}

} // verus!
