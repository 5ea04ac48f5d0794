//! Loading the whole model: every weight, in the order the device receives them.

use vstd::prelude::*;
use vstd::string::*;

use crate::gpu::arith;
use crate::gpu::attend;
use crate::gpu::decoder::GpuDec;
use crate::gpu::encoder::GpuEnc;
use crate::gpu::htdemucs::{
    GpuWeights, ModelConfig, BOTTLENECK_CHANNELS, TRANSFORMER_CHANNELS,
};
use crate::gpu::pass::Pass;
use crate::gpu::recorder;
use crate::gpu::recorder::Plan;
use crate::gpu::shaders;
use crate::gpu::stages::{GpuConv, GpuDConv, GpuDConvLayer, GpuProj, LayerNorm};
use crate::gpu::transformer::{GpuTransformer, GpuTransformerLayer};
use crate::gpu::weights;
use crate::gpu::weights::{
    ConvW, DConvLayerW, DConvW, DecLayerW, EncLayerW, HtdemucsWeights, LayerNormW, LinearW,
    TransformerLayerW, TransformerW,
};
use crate::ops;
use crate::text;

verus! {

/// Ones the transformer's bias folds share.
pub const ONES: usize = 2048;

pub open spec fn ones(n: nat) -> Seq<u32> {
    Seq::new(n, |i: int| attend::ONE_BITS)
}

pub open spec fn zeros(n: nat) -> Seq<u32> {
    Seq::new(n, |i: int| 0u32)
}

// ------------------------------------------------------------- residual branches

/// How far apart the taps of layer `depth` stand.
pub open spec fn dilation_at(depth: nat) -> int
    decreases depth,
{
    if depth == 0 {
        1
    } else {
        2 * dilation_at((depth - 1) as nat)
    }
}

/// Whether a layer of a branch can be uploaded.
pub open spec fn branch_fits(layer: DConvLayerW, dilation: int) -> bool {
    &&& dilation <= usize::MAX
    &&& weights::widened_conv_fits(layer.conv1, dilation)
    &&& weights::conv_fits(layer.conv2)
    &&& weights::vector_fits(layer.norm1_weight@)
    &&& weights::vector_fits(layer.norm1_bias@)
    &&& weights::vector_fits(layer.norm2_weight@)
    &&& weights::vector_fits(layer.norm2_bias@)
    &&& weights::vector_fits(layer.gamma@)
}

/// One layer of a branch: convolutions, then the vectors around them.
pub open spec fn branch_plan(s: Plan, layer: DConvLayerW, dilation: int, label: Seq<char>) -> Plan {
    let s1 = weights::widened_conv_plan(s, layer.conv1, dilation, label);
    let s2 = weights::conv_plan(s1, layer.conv2, label);
    let s3 = weights::vector_plan(s2, ones(layer.conv2.shape@[0] as nat), label);
    let s4 = weights::vector_plan(s3, layer.norm1_weight@, label);
    let s5 = weights::vector_plan(s4, layer.norm1_bias@, label);
    let s6 = weights::vector_plan(s5, layer.norm2_weight@, label);
    let s7 = weights::vector_plan(s6, layer.norm2_bias@, label);
    let s8 = weights::vector_plan(s7, layer.gamma@, label);
    weights::vector_plan(s8, zeros(layer.gamma@.len()), label)
}

/// Whether `r` is what uploading `layer` after `s` gives.
#[verifier::opaque]
pub open spec fn branch_made(
    r: GpuDConvLayer,
    s: Plan,
    layer: DConvLayerW,
    dilation: int,
    channels: usize,
    label: Seq<char>,
) -> bool {
    let s1 = weights::widened_conv_plan(s, layer.conv1, dilation, label);
    let s2 = weights::conv_plan(s1, layer.conv2, label);
    let s3 = weights::vector_plan(s2, ones(layer.conv2.shape@[0] as nat), label);
    let s4 = weights::vector_plan(s3, layer.norm1_weight@, label);
    let s5 = weights::vector_plan(s4, layer.norm1_bias@, label);
    let s6 = weights::vector_plan(s5, layer.norm2_weight@, label);
    let s7 = weights::vector_plan(s6, layer.norm2_bias@, label);
    let s8 = weights::vector_plan(s7, layer.gamma@, label);
    &&& weights::widened_conv_made(r.conv1, s, layer.conv1, dilation, label)
    &&& weights::conv_made(r.conv2, s1, layer.conv2, (1, 1), (0, 0), label)
    &&& r.conv2_ones@ == s2.fresh(seq![layer.conv2.shape@[0]])
    &&& r.norm1_scale@ == s3.fresh(seq![layer.norm1_weight@.len() as usize])
    &&& r.norm1_shift@ == s4.fresh(seq![layer.norm1_bias@.len() as usize])
    &&& r.norm2_scale@ == s5.fresh(seq![layer.norm2_weight@.len() as usize])
    &&& r.norm2_shift@ == s6.fresh(seq![layer.norm2_bias@.len() as usize])
    &&& r.gamma@ == s7.fresh(seq![layer.gamma@.len() as usize])
    &&& r.gamma_zero@ == s8.fresh(seq![layer.gamma@.len() as usize])
    &&& r.channels == channels
    &&& r.hidden == layer.conv1.shape@[0]
}

fn upload_branch(
    pass: &mut Pass,
    layer: &DConvLayerW,
    dilation: usize,
    channels: usize,
    label: &str,
) -> (r: GpuDConvLayer)
    requires
        branch_fits(*layer, dilation as int),
    ensures
        final(pass)@ == branch_plan(old(pass)@, *layer, dilation as int, label@),
        branch_made(r, old(pass)@, *layer, dilation as int, channels, label@),
        r.wf(),
{
    proof {
        reveal(branch_made);
    }
    let conv1 = weights::upload_widened_conv(pass, &layer.conv1, dilation, label);
    let conv2 = weights::upload_conv(pass, &layer.conv2, (1, 1), (0, 0), label);
    let conv2_ones = weights::upload_owned(
        pass,
        weights::repeated(attend::ONE_BITS, layer.conv2.shape[0]),
        label,
    );
    let norm1_scale = weights::upload_vector(pass, &layer.norm1_weight, label);
    let norm1_shift = weights::upload_vector(pass, &layer.norm1_bias, label);
    let norm2_scale = weights::upload_vector(pass, &layer.norm2_weight, label);
    let norm2_shift = weights::upload_vector(pass, &layer.norm2_bias, label);
    let gamma = weights::upload_vector(pass, &layer.gamma, label);
    let gamma_zero = weights::upload_owned(pass, weights::repeated(0, layer.gamma.len()), label);
    GpuDConvLayer {
        conv1,
        conv2_ones,
        norm1_scale,
        norm1_shift,
        conv2,
        norm2_scale,
        norm2_shift,
        gamma,
        gamma_zero,
        channels,
        hidden: layer.conv1.shape[0],
    }
}

/// The first `n` layers of a branch.
pub open spec fn dconv_plan(s: Plan, layers: Seq<DConvLayerW>, label: Seq<char>, n: nat) -> Plan
    decreases n,
{
    if n == 0 {
        s
    } else {
        branch_plan(
            dconv_plan(s, layers, label, (n - 1) as nat),
            layers[n - 1],
            dilation_at((n - 1) as nat),
            label,
        )
    }
}

/// Whether every layer of a branch can be uploaded.
#[verifier::opaque]
pub open spec fn dconv_fits(d: DConvW) -> bool {
    forall|i: int|
        0 <= i < d.layers@.len() ==> branch_fits(#[trigger] d.layers@[i], dilation_at(i as nat))
}

/// Whether `r` is what uploading `d` after `s` gives.
#[verifier::opaque]
pub open spec fn dconv_made(r: GpuDConv, s: Plan, d: DConvW, label: Seq<char>) -> bool {
    &&& r.layers@.len() == d.layers@.len()
    &&& forall|i: int|
        0 <= i < d.layers@.len() ==> branch_made(
            #[trigger] r.layers@[i],
            dconv_plan(s, d.layers@, label, i as nat),
            d.layers@[i],
            dilation_at(i as nat),
            d.channels,
            label,
        )
}

/// Uploads a residual branch: layer by layer its taps stand twice as far apart.
pub fn upload_dconv(pass: &mut Pass, d: &DConvW, label: &str) -> (r: GpuDConv)
    requires
        dconv_fits(*d),
    ensures
        final(pass)@ == dconv_plan(old(pass)@, d.layers@, label@, d.layers@.len()),
        dconv_made(r, old(pass)@, *d, label@),
        r.wf(),
{
    let mut layers: Vec<GpuDConvLayer> = Vec::new();
    let mut dilation: usize = 1;
    let mut depth: usize = 0;
    while depth < d.layers.len()
        invariant
            depth <= d.layers@.len(),
            dconv_fits(*d),
            depth < d.layers@.len() ==> dilation == dilation_at(depth as nat),
            pass@ == dconv_plan(old(pass)@, d.layers@, label@, depth as nat),
            layers@.len() == depth,
            forall|i: int|
                0 <= i < depth ==> (#[trigger] layers@[i]).wf() && branch_made(
                    layers@[i],
                    dconv_plan(old(pass)@, d.layers@, label@, i as nat),
                    d.layers@[i],
                    dilation_at(i as nat),
                    d.channels,
                    label@,
                ),
        decreases d.layers@.len() - depth,
    {
        proof {
            reveal(dconv_fits);
            assert(branch_fits(d.layers@[depth as int], dilation_at(depth as nat)));
        }
        let layer = upload_branch(pass, &d.layers[depth], dilation, d.channels, label);
        layers.push(layer);
        depth += 1;
        if depth < d.layers.len() {
            assert(branch_fits(d.layers@[depth as int], dilation_at(depth as nat)));
            dilation = dilation * 2;
        }
    }
    proof {
        reveal(dconv_made);
    }
    GpuDConv { layers }
}

// --------------------------------------------------------------------- encoders

/// Stride and padding of an encoder's convolution: along frequency for an image,
/// along time for a signal.
pub open spec fn encoder_geometry(rank: nat) -> ((usize, usize), (usize, usize)) {
    if rank == 4 {
        ((4, 1), (2, 0))
    } else {
        ((1, 4), (0, 2))
    }
}

#[verifier::opaque]
pub open spec fn encoder_fits(layer: EncLayerW) -> bool {
    &&& weights::conv_fits(layer.conv)
    &&& weights::conv_fits(layer.rewrite)
    &&& dconv_fits(layer.dconv)
}

#[verifier::opaque]
pub open spec fn encoder_plan(s: Plan, layer: EncLayerW, label: Seq<char>) -> Plan {
    dconv_plan(
        weights::conv_plan(weights::conv_plan(s, layer.conv, label), layer.rewrite, label),
        layer.dconv.layers@,
        label,
        layer.dconv.layers@.len(),
    )
}

/// Whether `r` is what uploading `layer` after `s` gives.
#[verifier::opaque]
pub open spec fn encoder_made(r: GpuEnc, s: Plan, layer: EncLayerW, label: Seq<char>) -> bool {
    let (stride, pad) = encoder_geometry(layer.conv.shape@.len());
    let s1 = weights::conv_plan(s, layer.conv, label);
    let s2 = weights::conv_plan(s1, layer.rewrite, label);
    &&& weights::conv_made(r.conv, s, layer.conv, stride, pad, label)
    &&& weights::conv_made(r.rewrite, s1, layer.rewrite, (1, 1), (0, 0), label)
    &&& dconv_made(r.dconv, s2, layer.dconv, label)
}

/// Uploads one layer of an encoder.
pub fn upload_encoder(pass: &mut Pass, layer: &EncLayerW, label: &str) -> (r: GpuEnc)
    requires
        encoder_fits(*layer),
    ensures
        final(pass)@ == encoder_plan(old(pass)@, *layer, label@),
        encoder_made(r, old(pass)@, *layer, label@),
        r.wf(),
{
    proof {
        reveal(encoder_made);
        reveal(encoder_plan);
        reveal(encoder_fits);
    }
    let conv = if layer.conv.shape.len() == 4 {
        weights::upload_conv(pass, &layer.conv, (4, 1), (2, 0), label)
    } else {
        weights::upload_conv(pass, &layer.conv, (1, 4), (0, 2), label)
    };
    let rewrite = weights::upload_conv(pass, &layer.rewrite, (1, 1), (0, 0), label);
    let dconv = upload_dconv(pass, &layer.dconv, label);
    GpuEnc { conv, rewrite, dconv }
}

/// The first `n` layers of an encoder.
pub open spec fn encoders_plan(s: Plan, layers: Seq<EncLayerW>, prefix: Seq<char>, n: nat) -> Plan
    decreases n,
{
    if n == 0 {
        s
    } else {
        encoder_plan(
            encoders_plan(s, layers, prefix, (n - 1) as nat),
            layers[n - 1],
            prefix + text::decimal((n - 1) as nat),
        )
    }
}

pub open spec fn encoders_fit(layers: Seq<EncLayerW>) -> bool {
    forall|i: int| 0 <= i < layers.len() ==> encoder_fits(#[trigger] layers[i])
}

/// Whether `r` is what uploading `layers` after `s` gives.
pub open spec fn encoders_made(
    r: Seq<GpuEnc>,
    s: Plan,
    layers: Seq<EncLayerW>,
    prefix: Seq<char>,
) -> bool {
    &&& r.len() == layers.len()
    &&& forall|i: int|
        0 <= i < layers.len() ==> (#[trigger] r[i]).wf() && encoder_made(
            r[i],
            encoders_plan(s, layers, prefix, i as nat),
            layers[i],
            prefix + text::decimal(i as nat),
        )
}

fn upload_encoders(pass: &mut Pass, layers: &Vec<EncLayerW>, prefix: &str) -> (r: Vec<GpuEnc>)
    requires
        encoders_fit(layers@),
    ensures
        final(pass)@ == encoders_plan(old(pass)@, layers@, prefix@, layers@.len()),
        encoders_made(r@, old(pass)@, layers@, prefix@),
{
    let mut out: Vec<GpuEnc> = Vec::new();
    let mut i: usize = 0;
    while i < layers.len()
        invariant
            i <= layers@.len(),
            encoders_fit(layers@),
            pass@ == encoders_plan(old(pass)@, layers@, prefix@, i as nat),
            out@.len() == i,
            forall|j: int|
                0 <= j < i ==> (#[trigger] out@[j]).wf() && encoder_made(
                    out@[j],
                    encoders_plan(old(pass)@, layers@, prefix@, j as nat),
                    layers@[j],
                    prefix@ + text::decimal(j as nat),
                ),
        decreases layers@.len() - i,
    {
        let label = text::concat_number(prefix, i);
        let layer = upload_encoder(pass, &layers[i], label.as_str());
        out.push(layer);
        i += 1;
    }
    out
}

// --------------------------------------------------------------------- decoders

/// Padding of a decoder's convolution and stride of its upsampling. `image` decoders
/// upsample along frequency, the others along time.
pub open spec fn decoder_geometry(layer: DecLayerW, image: bool, stride: usize) -> (
    (usize, usize),
    (usize, usize),
) {
    if image {
        (
            ((layer.rewrite.shape@[2] / 2) as usize, (layer.rewrite.shape@[3] / 2) as usize),
            (stride, 1),
        )
    } else {
        ((0, (layer.rewrite.shape@[2] / 2) as usize), (1, stride))
    }
}

#[verifier::opaque]
pub open spec fn decoder_fits(layer: DecLayerW, image: bool) -> bool {
    &&& weights::conv_fits(layer.rewrite)
    &&& image ==> layer.rewrite.shape@.len() == 4
    &&& weights::conv_tr_fits(layer.conv_tr)
    &&& dconv_fits(layer.dconv)
}

/// One layer of the spectrogram's decoder.
#[verifier::opaque]
pub open spec fn decoder_plan(s: Plan, layer: DecLayerW) -> Plan {
    dconv_plan(
        weights::conv_tr_plan(
            weights::conv_plan(s, layer.rewrite, "dec.rewrite"@),
            layer.conv_tr,
            "dec.conv_tr"@,
        ),
        layer.dconv.layers@,
        "dec.dconv"@,
        layer.dconv.layers@.len(),
    )
}

/// Whether `r` is what uploading `layer` after `s` gives.
#[verifier::opaque]
pub open spec fn decoder_made(r: GpuDec, s: Plan, layer: DecLayerW, stride: usize) -> bool {
    let (pad, up) = decoder_geometry(layer, layer.conv_tr.shape@.len() == 4, stride);
    let s1 = weights::conv_plan(s, layer.rewrite, "dec.rewrite"@);
    let s2 = weights::conv_tr_plan(s1, layer.conv_tr, "dec.conv_tr"@);
    &&& weights::conv_made(r.rewrite, s, layer.rewrite, (1, 1), pad, "dec.rewrite"@)
    &&& weights::conv_tr_made(r.conv_tr, s1, layer.conv_tr, up, "dec.conv_tr"@)
    &&& dconv_made(r.dconv, s2, layer.dconv, "dec.dconv"@)
}

fn upload_decoder(pass: &mut Pass, layer: &DecLayerW, stride: usize) -> (r: GpuDec)
    requires
        decoder_fits(*layer, layer.conv_tr.shape@.len() == 4),
    ensures
        final(pass)@ == decoder_plan(old(pass)@, *layer),
        decoder_made(r, old(pass)@, *layer, stride),
        r.wf(),
{
    proof {
        reveal(decoder_made);
        reveal(decoder_plan);
        reveal(decoder_fits);
    }
    let image = layer.conv_tr.shape.len() == 4;
    let (pad, up): ((usize, usize), (usize, usize)) = if image {
        ((layer.rewrite.shape[2] / 2, layer.rewrite.shape[3] / 2), (stride, 1))
    } else {
        ((0, layer.rewrite.shape[2] / 2), (1, stride))
    };
    let rewrite = weights::upload_conv(pass, &layer.rewrite, (1, 1), pad, "dec.rewrite");
    let conv_tr = weights::upload_conv_tr(pass, &layer.conv_tr, up, "dec.conv_tr");
    let dconv = upload_dconv(pass, &layer.dconv, "dec.dconv");
    GpuDec { rewrite, dconv, conv_tr }
}

/// The first `n` layers of the spectrogram's decoder.
pub open spec fn decoders_plan(s: Plan, layers: Seq<DecLayerW>, n: nat) -> Plan
    decreases n,
{
    if n == 0 {
        s
    } else {
        decoder_plan(decoders_plan(s, layers, (n - 1) as nat), layers[n - 1])
    }
}

pub open spec fn decoders_fit(layers: Seq<DecLayerW>) -> bool {
    forall|i: int|
        0 <= i < layers.len() ==> decoder_fits(
            #[trigger] layers[i],
            layers[i].conv_tr.shape@.len() == 4,
        )
}

/// Whether `r` is what uploading `layers` after `s` gives.
pub open spec fn decoders_made(
    r: Seq<GpuDec>,
    s: Plan,
    layers: Seq<DecLayerW>,
    stride: usize,
) -> bool {
    &&& r.len() == layers.len()
    &&& forall|i: int|
        0 <= i < layers.len() ==> (#[trigger] r[i]).wf() && decoder_made(
            r[i],
            decoders_plan(s, layers, i as nat),
            layers[i],
            stride,
        )
}

fn upload_decoders(pass: &mut Pass, layers: &Vec<DecLayerW>, stride: usize) -> (r: Vec<GpuDec>)
    requires
        decoders_fit(layers@),
    ensures
        final(pass)@ == decoders_plan(old(pass)@, layers@, layers@.len()),
        decoders_made(r@, old(pass)@, layers@, stride),
{
    let mut out: Vec<GpuDec> = Vec::new();
    let mut i: usize = 0;
    while i < layers.len()
        invariant
            i <= layers@.len(),
            decoders_fit(layers@),
            pass@ == decoders_plan(old(pass)@, layers@, i as nat),
            out@.len() == i,
            forall|j: int|
                0 <= j < i ==> (#[trigger] out@[j]).wf() && decoder_made(
                    out@[j],
                    decoders_plan(old(pass)@, layers@, j as nat),
                    layers@[j],
                    stride,
                ),
        decreases layers@.len() - i,
    {
        let layer = upload_decoder(pass, &layers[i], stride);
        out.push(layer);
        i += 1;
    }
    out
}

/// One layer of the waveform's decoder.
#[verifier::opaque]
pub open spec fn tdecoder_plan(s: Plan, layer: DecLayerW) -> Plan {
    weights::conv_tr_plan(
        dconv_plan(
            weights::conv_plan(s, layer.rewrite, "tdec.rewrite"@),
            layer.dconv.layers@,
            "tdec.dconv"@,
            layer.dconv.layers@.len(),
        ),
        layer.conv_tr,
        "tdec.conv_tr"@,
    )
}

/// Whether `r` is what uploading `layer` after `s` gives.
#[verifier::opaque]
pub open spec fn tdecoder_made(r: GpuDec, s: Plan, layer: DecLayerW, stride: usize) -> bool {
    let (pad, up) = decoder_geometry(layer, false, stride);
    let s1 = weights::conv_plan(s, layer.rewrite, "tdec.rewrite"@);
    let s2 = dconv_plan(s1, layer.dconv.layers@, "tdec.dconv"@, layer.dconv.layers@.len());
    &&& weights::conv_made(r.rewrite, s, layer.rewrite, (1, 1), pad, "tdec.rewrite"@)
    &&& dconv_made(r.dconv, s1, layer.dconv, "tdec.dconv"@)
    &&& weights::conv_tr_made(r.conv_tr, s2, layer.conv_tr, up, "tdec.conv_tr"@)
}

fn upload_tdecoder(pass: &mut Pass, layer: &DecLayerW, stride: usize) -> (r: GpuDec)
    requires
        decoder_fits(*layer, false),
    ensures
        final(pass)@ == tdecoder_plan(old(pass)@, *layer),
        tdecoder_made(r, old(pass)@, *layer, stride),
        r.wf(),
{
    proof {
        reveal(tdecoder_made);
        reveal(tdecoder_plan);
        reveal(decoder_fits);
    }
    let k: usize = layer.rewrite.shape[2];
    let rewrite = weights::upload_conv(pass, &layer.rewrite, (1, 1), (0, k / 2), "tdec.rewrite");
    let dconv = upload_dconv(pass, &layer.dconv, "tdec.dconv");
    let conv_tr = weights::upload_conv_tr(pass, &layer.conv_tr, (1, stride), "tdec.conv_tr");
    GpuDec { rewrite, dconv, conv_tr }
}

/// The first `n` layers of the waveform's decoder.
pub open spec fn tdecoders_plan(s: Plan, layers: Seq<DecLayerW>, n: nat) -> Plan
    decreases n,
{
    if n == 0 {
        s
    } else {
        tdecoder_plan(tdecoders_plan(s, layers, (n - 1) as nat), layers[n - 1])
    }
}

pub open spec fn tdecoders_fit(layers: Seq<DecLayerW>) -> bool {
    forall|i: int| 0 <= i < layers.len() ==> decoder_fits(#[trigger] layers[i], false)
}

/// Whether `r` is what uploading `layers` after `s` gives.
pub open spec fn tdecoders_made(
    r: Seq<GpuDec>,
    s: Plan,
    layers: Seq<DecLayerW>,
    stride: usize,
) -> bool {
    &&& r.len() == layers.len()
    &&& forall|i: int|
        0 <= i < layers.len() ==> (#[trigger] r[i]).wf() && tdecoder_made(
            r[i],
            tdecoders_plan(s, layers, i as nat),
            layers[i],
            stride,
        )
}

fn upload_tdecoders(pass: &mut Pass, layers: &Vec<DecLayerW>, stride: usize) -> (r: Vec<GpuDec>)
    requires
        tdecoders_fit(layers@),
    ensures
        final(pass)@ == tdecoders_plan(old(pass)@, layers@, layers@.len()),
        tdecoders_made(r@, old(pass)@, layers@, stride),
{
    let mut out: Vec<GpuDec> = Vec::new();
    let mut i: usize = 0;
    while i < layers.len()
        invariant
            i <= layers@.len(),
            tdecoders_fit(layers@),
            pass@ == tdecoders_plan(old(pass)@, layers@, i as nat),
            out@.len() == i,
            forall|j: int|
                0 <= j < i ==> (#[trigger] out@[j]).wf() && tdecoder_made(
                    out@[j],
                    tdecoders_plan(old(pass)@, layers@, j as nat),
                    layers@[j],
                    stride,
                ),
        decreases layers@.len() - i,
    {
        let layer = upload_tdecoder(pass, &layers[i], stride);
        out.push(layer);
        i += 1;
    }
    out
}

// ------------------------------------------------------------------ transformer

/// Whether a projection can be uploaded.
pub open spec fn proj_fits(weight: Seq<u32>, bias: Seq<u32>, out: int, inner: int) -> bool {
    &&& weight.len() >= out * inner
    &&& weights::matrix_fits(out, inner, shaders::BN as int, shaders::BK as int)
    &&& recorder::roundable((4 * out) as nat)
    &&& 4 * bias.len() <= usize::MAX
}

pub open spec fn proj_weight_plan(
    s: Plan,
    weight: Seq<u32>,
    out: int,
    inner: int,
    label: Seq<char>,
) -> Plan {
    weights::matrix_plan(s, weight, out, inner, shaders::BN as int, shaders::BK as int, label)
}

/// The weights as they are, padded, then the bias.
pub open spec fn proj_plan(
    s: Plan,
    weight: Seq<u32>,
    bias: Seq<u32>,
    out: int,
    inner: int,
    label: Seq<char>,
) -> Plan {
    proj_weight_plan(s, weight, out, inner, label).upload(seq![out as usize], bias, label)
}

/// Whether `r` is what uploading a projection after `s` gives.
pub open spec fn proj_made(
    r: GpuProj,
    s: Plan,
    weight: Seq<u32>,
    out: int,
    inner: int,
    label: Seq<char>,
) -> bool {
    &&& r.wf()
    &&& r.weight@ == s.fresh(
        seq![
            arith::padded(out, shaders::BN as int) as usize,
            arith::padded(inner, shaders::BK as int) as usize,
        ],
    )
    &&& r.bias@ == proj_weight_plan(s, weight, out, inner, label).fresh(seq![out as usize])
    &&& r.out_features == out
    &&& r.in_features == inner
}

fn upload_rows(
    pass: &mut Pass,
    weight: &Vec<u32>,
    bias: &Vec<u32>,
    out: usize,
    inner: usize,
    label: &str,
) -> (r: GpuProj)
    requires
        proj_fits(weight@, bias@, out as int, inner as int),
    ensures
        final(pass)@ == proj_plan(
            old(pass)@,
            weight@,
            bias@,
            out as int,
            inner as int,
            label@,
        ),
        proj_made(r, old(pass)@, weight@, out as int, inner as int, label@),
{
    let words = weights::upload_matrix(pass, weight, out, inner, shaders::BN, shaders::BK, label);
    let shift = weights::upload_sized(pass, out, bias, label);
    GpuProj { weight: words, bias: shift, out_features: out, in_features: inner }
}

pub open spec fn linear_fits(l: LinearW) -> bool {
    proj_fits(l.weight@, l.bias@, l.out_features as int, l.in_features as int)
}

pub open spec fn linear_plan(s: Plan, l: LinearW, label: Seq<char>) -> Plan {
    proj_plan(s, l.weight@, l.bias@, l.out_features as int, l.in_features as int, label)
}

pub open spec fn linear_made(r: GpuProj, s: Plan, l: LinearW, label: Seq<char>) -> bool {
    proj_made(r, s, l.weight@, l.out_features as int, l.in_features as int, label)
}

/// Uploads a projection for a product that reads it transposed.
pub fn upload_proj(pass: &mut Pass, l: &LinearW, label: &str) -> (r: GpuProj)
    requires
        linear_fits(*l),
    ensures
        final(pass)@ == linear_plan(old(pass)@, *l, label@),
        linear_made(r, old(pass)@, *l, label@),
{
    upload_rows(pass, &l.weight, &l.bias, l.out_features, l.in_features, label)
}

pub open spec fn square_fits(weight: Seq<u32>, bias: Seq<u32>) -> bool {
    proj_fits(weight, bias, bias.len() as int, bias.len() as int)
}

pub open spec fn square_plan(s: Plan, weight: Seq<u32>, bias: Seq<u32>, label: Seq<char>) -> Plan {
    proj_plan(s, weight, bias, bias.len() as int, bias.len() as int, label)
}

pub open spec fn square_made(
    r: GpuProj,
    s: Plan,
    weight: Seq<u32>,
    bias: Seq<u32>,
    label: Seq<char>,
) -> bool {
    proj_made(r, s, weight, bias.len() as int, bias.len() as int, label)
}

pub open spec fn norm_fits(n: LayerNormW) -> bool {
    weights::vector_fits(n.weight@) && weights::vector_fits(n.bias@)
}

pub open spec fn norm_plan(s: Plan, n: LayerNormW, label: Seq<char>) -> Plan {
    weights::vector_plan(weights::vector_plan(s, n.weight@, label), n.bias@, label)
}

pub open spec fn norm_made(r: LayerNorm, s: Plan, n: LayerNormW, label: Seq<char>) -> bool {
    &&& r.wf()
    &&& r.scale@ == s.fresh(seq![n.weight@.len() as usize])
    &&& r.shift@ == weights::vector_plan(s, n.weight@, label).fresh(
        seq![n.bias@.len() as usize],
    )
    &&& r.dim == n.weight@.len()
}

/// Uploads a normalisation.
pub fn upload_ln(pass: &mut Pass, n: &LayerNormW, label: &str) -> (r: LayerNorm)
    requires
        norm_fits(*n),
    ensures
        final(pass)@ == norm_plan(old(pass)@, *n, label@),
        norm_made(r, old(pass)@, *n, label@),
{
    let scale = weights::upload_vector(pass, &n.weight, label);
    let shift = weights::upload_vector(pass, &n.bias, label);
    LayerNorm { scale, shift, dim: n.weight.len() }
}

/// Whether a layer of the transformer can be uploaded.
pub open spec fn layer_fits(layer: TransformerLayerW) -> bool {
    let dim = layer.q_bias@.len();
    &&& recorder::roundable((4 * dim) as nat)
    &&& 4 * layer.norm_out.weight@.len() <= usize::MAX
    &&& 4 * layer.norm_out.bias@.len() <= usize::MAX
    &&& square_fits(layer.q_weight@, layer.q_bias@)
    &&& square_fits(layer.k_weight@, layer.k_bias@)
    &&& square_fits(layer.v_weight@, layer.v_bias@)
    &&& linear_fits(layer.out_proj)
    &&& linear_fits(layer.linear1)
    &&& linear_fits(layer.linear2)
    &&& norm_fits(layer.norm1)
    &&& norm_fits(layer.norm2)
    &&& layer.norm3 matches Some(n) ==> norm_fits(n)
    &&& 4 * layer.gamma1@.len() <= usize::MAX
    &&& 4 * layer.gamma2@.len() <= usize::MAX
}

/// A layer's projections: queries, keys, values, output, and the two of its feed.
pub type Projections = (GpuProj, GpuProj, GpuProj, GpuProj, GpuProj, GpuProj);

/// A layer's norms, in front of its parts.
pub type Norms = (LayerNorm, LayerNorm, Option<LayerNorm>);

#[verifier::opaque]
pub open spec fn projections_plan(s: Plan, layer: TransformerLayerW, label: Seq<char>) -> Plan {
    let s1 = square_plan(s, layer.q_weight@, layer.q_bias@, label);
    let s2 = square_plan(s1, layer.k_weight@, layer.k_bias@, label);
    let s3 = square_plan(s2, layer.v_weight@, layer.v_bias@, label);
    let s4 = linear_plan(s3, layer.out_proj, label);
    let s5 = linear_plan(s4, layer.linear1, label);
    linear_plan(s5, layer.linear2, label)
}

/// Whether `r` is what uploading the projections of `layer` after `s` gives.
#[verifier::opaque]
pub open spec fn projections_made(
    r: Projections,
    s: Plan,
    layer: TransformerLayerW,
    label: Seq<char>,
) -> bool {
    let s1 = square_plan(s, layer.q_weight@, layer.q_bias@, label);
    let s2 = square_plan(s1, layer.k_weight@, layer.k_bias@, label);
    let s3 = square_plan(s2, layer.v_weight@, layer.v_bias@, label);
    let s4 = linear_plan(s3, layer.out_proj, label);
    let s5 = linear_plan(s4, layer.linear1, label);
    &&& square_made(r.0, s, layer.q_weight@, layer.q_bias@, label)
    &&& square_made(r.1, s1, layer.k_weight@, layer.k_bias@, label)
    &&& square_made(r.2, s2, layer.v_weight@, layer.v_bias@, label)
    &&& linear_made(r.3, s3, layer.out_proj, label)
    &&& linear_made(r.4, s4, layer.linear1, label)
    &&& linear_made(r.5, s5, layer.linear2, label)
}

fn upload_projections(pass: &mut Pass, layer: &TransformerLayerW, label: &str) -> (r: Projections)
    requires
        layer_fits(*layer),
    ensures
        final(pass)@ == projections_plan(old(pass)@, *layer, label@),
        projections_made(r, old(pass)@, *layer, label@),
        r.0.wf() && r.1.wf() && r.2.wf() && r.3.wf() && r.4.wf() && r.5.wf(),
{
    proof {
        reveal(projections_plan);
        reveal(projections_made);
    }
    let q_dim: usize = layer.q_bias.len();
    let q_proj = upload_rows(pass, &layer.q_weight, &layer.q_bias, q_dim, q_dim, label);
    let k_dim: usize = layer.k_bias.len();
    let k_proj = upload_rows(pass, &layer.k_weight, &layer.k_bias, k_dim, k_dim, label);
    let v_dim: usize = layer.v_bias.len();
    let v_proj = upload_rows(pass, &layer.v_weight, &layer.v_bias, v_dim, v_dim, label);
    let out_proj = upload_proj(pass, &layer.out_proj, label);
    let linear1 = upload_proj(pass, &layer.linear1, label);
    let linear2 = upload_proj(pass, &layer.linear2, label);
    (q_proj, k_proj, v_proj, out_proj, linear1, linear2)
}

#[verifier::opaque]
pub open spec fn norms_plan(s: Plan, layer: TransformerLayerW, label: Seq<char>) -> Plan {
    let s1 = norm_plan(s, layer.norm1, label);
    let s2 = norm_plan(s1, layer.norm2, label);
    match layer.norm3 {
        Some(n) => norm_plan(s2, n, label),
        None => s2,
    }
}

/// Whether `r` is what uploading the norms of `layer` after `s` gives.
#[verifier::opaque]
pub open spec fn norms_made(r: Norms, s: Plan, layer: TransformerLayerW, label: Seq<char>) -> bool {
    let s1 = norm_plan(s, layer.norm1, label);
    let s2 = norm_plan(s1, layer.norm2, label);
    &&& norm_made(r.0, s, layer.norm1, label)
    &&& norm_made(r.1, s1, layer.norm2, label)
    &&& match layer.norm3 {
        Some(n) => r.2 matches Some(m) && norm_made(m, s2, n, label),
        None => r.2 is None,
    }
}

fn upload_norms(pass: &mut Pass, layer: &TransformerLayerW, label: &str) -> (r: Norms)
    requires
        layer_fits(*layer),
    ensures
        final(pass)@ == norms_plan(old(pass)@, *layer, label@),
        norms_made(r, old(pass)@, *layer, label@),
        r.0.wf() && r.1.wf() && (r.2 matches Some(m) ==> m.wf()),
{
    proof {
        reveal(norms_plan);
        reveal(norms_made);
    }
    let norm1 = upload_ln(pass, &layer.norm1, label);
    let norm2 = upload_ln(pass, &layer.norm2, label);
    let norm3 = match &layer.norm3 {
        Some(norm) => Some(upload_ln(pass, norm, label)),
        None => None,
    };
    (norm1, norm2, norm3)
}

/// One layer: the norm of its output, a shift of zeros for its scales, its projections,
/// its norms, its two scales.
#[verifier::opaque]
pub open spec fn layer_plan(s: Plan, layer: TransformerLayerW, label: Seq<char>) -> Plan {
    let dim = layer.q_bias@.len() as usize;
    let s1 = s.upload(seq![dim], layer.norm_out.weight@, label);
    let s2 = s1.upload(seq![dim], layer.norm_out.bias@, label);
    let s3 = norms_plan(projections_plan(shift_plan(s2, dim, label), layer, label), layer, label);
    let s4 = s3.upload(seq![dim], layer.gamma1@, label);
    s4.upload(seq![dim], layer.gamma2@, label)
}

/// The zeros that ride along with a layer's scales, which have no shift.
pub open spec fn shift_plan(s: Plan, dim: usize, label: Seq<char>) -> Plan {
    s.upload(seq![dim], zeros(dim as nat), label)
}

/// Whether `r` is what uploading `layer` after `s` gives.
#[verifier::opaque]
pub open spec fn layer_made(
    r: GpuTransformerLayer,
    s: Plan,
    layer: TransformerLayerW,
    label: Seq<char>,
) -> bool {
    let dim = layer.q_bias@.len() as usize;
    let s1 = s.upload(seq![dim], layer.norm_out.weight@, label);
    let s2 = shift_plan(s1.upload(seq![dim], layer.norm_out.bias@, label), dim, label);
    let s3 = projections_plan(s2, layer, label);
    let s4 = norms_plan(s3, layer, label);
    let s5 = s4.upload(seq![dim], layer.gamma1@, label);
    &&& r.is_cross == layer.is_cross
    &&& r.norm_out.scale@ == s.fresh(seq![dim])
    &&& r.norm_out.shift@ == s1.fresh(seq![dim])
    &&& r.norm_out.dim == dim
    &&& projections_made(
        (r.q_proj, r.k_proj, r.v_proj, r.out_proj, r.linear1, r.linear2),
        s2,
        layer,
        label,
    )
    &&& norms_made((r.norm1, r.norm2, r.norm3), s3, layer, label)
    &&& r.gamma1@ == s4.fresh(seq![dim])
    &&& r.gamma2@ == s5.fresh(seq![dim])
    &&& r.dim == dim
}

/// Uploads one layer of the transformer. Queries, keys and values keep projections
/// of their own.
pub fn upload_transformer_layer(pass: &mut Pass, layer: &TransformerLayerW, label: &str) -> (r:
    GpuTransformerLayer)
    requires
        layer_fits(*layer),
    ensures
        final(pass)@ == layer_plan(old(pass)@, *layer, label@),
        layer_made(r, old(pass)@, *layer, label@),
        r.wf(),
{
    proof {
        reveal(layer_plan);
        reveal(layer_made);
    }
    let dim: usize = layer.q_bias.len();
    let scale = weights::upload_sized(pass, dim, &layer.norm_out.weight, label);
    let shift = weights::upload_sized(pass, dim, &layer.norm_out.bias, label);
    let _ = weights::upload_sized(pass, dim, &weights::repeated(0, dim), label);
    let (q_proj, k_proj, v_proj, out_proj, linear1, linear2) = upload_projections(
        pass,
        layer,
        label,
    );
    let (norm1, norm2, norm3) = upload_norms(pass, layer, label);
    let gamma1 = weights::upload_sized(pass, dim, &layer.gamma1, label);
    let gamma2 = weights::upload_sized(pass, dim, &layer.gamma2, label);
    GpuTransformerLayer {
        is_cross: layer.is_cross,
        q_proj,
        k_proj,
        v_proj,
        out_proj,
        linear1,
        linear2,
        norm1,
        norm2,
        norm3,
        norm_out: LayerNorm { scale, shift, dim },
        gamma1,
        gamma2,
        dim,
    }
}

/// The first `n` pairs of layers, spectrogram first.
pub open spec fn pairs_plan(
    s: Plan,
    layers: Seq<TransformerLayerW>,
    layers_t: Seq<TransformerLayerW>,
    n: nat,
) -> Plan
    decreases n,
{
    if n == 0 {
        s
    } else {
        let i = (n - 1) as nat;
        layer_plan(
            layer_plan(
                pairs_plan(s, layers, layers_t, i),
                layers[i as int],
                "xt.layer."@ + text::decimal(i),
            ),
            layers_t[i as int],
            "xt.layer_t."@ + text::decimal(i),
        )
    }
}

/// Whether the first `n` pairs of layers can be uploaded.
pub open spec fn pairs_fit(t: TransformerW, n: int) -> bool {
    &&& n <= t.layers@.len()
    &&& n <= t.layers_t@.len()
    &&& forall|i: int| 0 <= i < n ==> layer_fits(#[trigger] t.layers@[i])
    &&& forall|i: int| 0 <= i < n ==> layer_fits(#[trigger] t.layers_t@[i])
}

/// Whether a pair is what uploading it after `s` gives.
pub open spec fn pair_made(
    r: GpuTransformerLayer,
    rt: GpuTransformerLayer,
    s: Plan,
    layer: TransformerLayerW,
    layer_t: TransformerLayerW,
    i: nat,
) -> bool {
    let label = "xt.layer."@ + text::decimal(i);
    &&& layer_made(r, s, layer, label)
    &&& layer_made(rt, layer_plan(s, layer, label), layer_t, "xt.layer_t."@ + text::decimal(i))
    &&& r.wf()
    &&& rt.wf()
}

fn upload_pairs(pass: &mut Pass, t: &TransformerW, n: usize) -> (r: (
    Vec<GpuTransformerLayer>,
    Vec<GpuTransformerLayer>,
))
    requires
        pairs_fit(*t, n as int),
    ensures
        final(pass)@ == pairs_plan(old(pass)@, t.layers@, t.layers_t@, n as nat),
        r.0@.len() == n,
        r.1@.len() == n,
        forall|i: int|
            0 <= i < n ==> pair_made(
                #[trigger] r.0@[i],
                r.1@[i],
                pairs_plan(old(pass)@, t.layers@, t.layers_t@, i as nat),
                t.layers@[i],
                t.layers_t@[i],
                i as nat,
            ),
{
    let mut layers: Vec<GpuTransformerLayer> = Vec::new();
    let mut layers_t: Vec<GpuTransformerLayer> = Vec::new();
    let mut i: usize = 0;
    while i < n
        invariant
            i <= n,
            pairs_fit(*t, n as int),
            pass@ == pairs_plan(old(pass)@, t.layers@, t.layers_t@, i as nat),
            layers@.len() == i,
            layers_t@.len() == i,
            forall|j: int|
                0 <= j < i ==> pair_made(
                    #[trigger] layers@[j],
                    layers_t@[j],
                    pairs_plan(old(pass)@, t.layers@, t.layers_t@, j as nat),
                    t.layers@[j],
                    t.layers_t@[j],
                    j as nat,
                ),
        decreases n - i,
    {
        let label = text::concat_number("xt.layer.", i);
        let layer = upload_transformer_layer(pass, &t.layers[i], label.as_str());
        let label_t = text::concat_number("xt.layer_t.", i);
        let layer_t = upload_transformer_layer(pass, &t.layers_t[i], label_t.as_str());
        layers.push(layer);
        layers_t.push(layer_t);
        i += 1;
    }
    (layers, layers_t)
}

/// Whether the transformer's first `n` pairs and the rest of it can be uploaded.
pub open spec fn transformer_fits(t: TransformerW, n: int) -> bool {
    &&& pairs_fit(t, n)
    &&& norm_fits(t.norm_in)
    &&& norm_fits(t.norm_in_t)
    &&& recorder::roundable((4 * t.channels) as nat)
}

/// Pairs of layers, the norms in front of them, the shared ones and zeros.
pub open spec fn transformer_plan(s: Plan, t: TransformerW, n: nat) -> Plan {
    let s1 = pairs_plan(s, t.layers@, t.layers_t@, n);
    let s2 = norm_plan(s1, t.norm_in, "xt.norm_in"@);
    let s3 = norm_plan(s2, t.norm_in_t, "xt.norm_in_t"@);
    let s4 = weights::vector_plan(s3, ones(ONES as nat), "xt.ones"@);
    weights::vector_plan(s4, zeros(t.channels as nat), "xt.zeros"@)
}

/// Whether `r` is what uploading `t` after `s` gives.
#[verifier::opaque]
pub open spec fn transformer_made(r: GpuTransformer, s: Plan, t: TransformerW, n: nat) -> bool {
    let s1 = pairs_plan(s, t.layers@, t.layers_t@, n);
    let s2 = norm_plan(s1, t.norm_in, "xt.norm_in"@);
    let s3 = norm_plan(s2, t.norm_in_t, "xt.norm_in_t"@);
    let s4 = weights::vector_plan(s3, ones(ONES as nat), "xt.ones"@);
    &&& r.layers@.len() == n
    &&& r.layers_t@.len() == n
    &&& forall|i: int|
        0 <= i < n ==> pair_made(
            #[trigger] r.layers@[i],
            r.layers_t@[i],
            pairs_plan(s, t.layers@, t.layers_t@, i as nat),
            t.layers@[i],
            t.layers_t@[i],
            i as nat,
        )
    &&& norm_made(r.norm_in, s1, t.norm_in, "xt.norm_in"@)
    &&& norm_made(r.norm_in_t, s2, t.norm_in_t, "xt.norm_in_t"@)
    &&& r.ones@ == s3.fresh(seq![ONES])
    &&& r.zeros@ == s4.fresh(seq![t.channels])
}

/// Uploads the transformer's first `n` pairs of layers and what they share.
pub fn upload_transformer(pass: &mut Pass, t: &TransformerW, n: usize) -> (r: GpuTransformer)
    requires
        transformer_fits(*t, n as int),
    ensures
        final(pass)@ == transformer_plan(old(pass)@, *t, n as nat),
        transformer_made(r, old(pass)@, *t, n as nat),
        r.wf(),
{
    let (layers, layers_t) = upload_pairs(pass, t, n);
    let norm_in = upload_ln(pass, &t.norm_in, "xt.norm_in");
    let norm_in_t = upload_ln(pass, &t.norm_in_t, "xt.norm_in_t");
    let ones = weights::upload_owned(pass, weights::repeated(attend::ONE_BITS, ONES), "xt.ones");
    let zeros = weights::upload_owned(pass, weights::repeated(0, t.channels), "xt.zeros");
    proof {
        reveal(transformer_made);
        assert forall|i: int| 0 <= i < layers_t@.len() implies (#[trigger] layers_t@[i]).wf() by {
            assert(layers@[i].wf());
        }
    }
    GpuTransformer { norm_in, norm_in_t, layers, layers_t, ones, zeros }
}

/// Queries, keys and values stacked: one square block after the other.
pub open spec fn fused_words(layer: TransformerLayerW) -> Seq<u32> {
    layer.q_weight@ + layer.k_weight@ + layer.v_weight@
}

/// The three projections as one matrix of `3 * dim` rows.
pub fn fused_qkv(layer: &TransformerLayerW) -> (r: Vec<u32>)
    requires
        layer.q_weight@.len() == layer.q_bias@.len() * layer.q_bias@.len(),
        layer.k_weight@.len() == layer.q_bias@.len() * layer.q_bias@.len(),
        layer.v_weight@.len() == layer.q_bias@.len() * layer.q_bias@.len(),
    ensures
        r@ == fused_words(*layer),
        r@.len() == 3 * layer.q_bias@.len() * layer.q_bias@.len(),
{
    let mut fused: Vec<u32> = Vec::new();
    append_words(&mut fused, &layer.q_weight);
    append_words(&mut fused, &layer.k_weight);
    append_words(&mut fused, &layer.v_weight);
    proof {
        let dim = layer.q_bias@.len() as int;
        assert(3 * dim * dim == 3 * (dim * dim)) by (nonlinear_arith);
    }
    fused
}

fn append_words(to: &mut Vec<u32>, words: &Vec<u32>)
    ensures
        final(to)@ == old(to)@ + words@,
{
    let mut i: usize = 0;
    while i < words.len()
        invariant
            i <= words@.len(),
            to@ == old(to)@ + words@.take(i as int),
        decreases words@.len() - i,
    {
        to.push(words[i]);
        i += 1;
        assert(to@ =~= old(to)@ + words@.take(i as int));
    }
    assert(words@.take(i as int) =~= words@);
}

// -------------------------------------------------------------------- the model

/// Whether a projection between channels can be uploaded as a convolution.
pub open spec fn pointwise_fits(l: LinearW, outputs: usize, inputs: usize) -> bool {
    &&& weights::matrix_fits(
        outputs as int,
        inputs as int,
        shaders::BM as int,
        shaders::BK as int,
    )
    &&& recorder::roundable((4 * outputs) as nat)
    &&& 4 * l.bias@.len() <= usize::MAX
}

pub open spec fn pointwise_weight_plan(
    s: Plan,
    l: LinearW,
    outputs: usize,
    inputs: usize,
    label: Seq<char>,
) -> Plan {
    weights::matrix_plan(
        s,
        l.weight@,
        outputs as int,
        inputs as int,
        shaders::BM as int,
        shaders::BK as int,
        label,
    )
}

/// A projection between channels as a convolution of width one.
pub open spec fn pointwise_plan(
    s: Plan,
    l: LinearW,
    outputs: usize,
    inputs: usize,
    label: Seq<char>,
) -> Plan {
    pointwise_weight_plan(s, l, outputs, inputs, label).upload(seq![outputs], l.bias@, label)
}

/// Whether `r` is what uploading the projection `l` after `s` gives.
#[verifier::opaque]
pub open spec fn pointwise_made(
    r: GpuConv,
    s: Plan,
    l: LinearW,
    outputs: usize,
    inputs: usize,
    label: Seq<char>,
) -> bool {
    &&& r.weight@ == s.fresh(
        seq![
            arith::padded(outputs as int, shaders::BM as int) as usize,
            arith::padded(inputs as int, shaders::BK as int) as usize,
        ],
    )
    &&& r.bias@ == pointwise_weight_plan(s, l, outputs, inputs, label).fresh(seq![outputs])
    &&& r.in_channels == inputs
    &&& r.out_channels == outputs
    &&& r.kernel == (1usize, 1usize)
    &&& r.stride == (1usize, 1usize)
    &&& r.pad == (0usize, 0usize)
}

fn upload_pointwise(
    pass: &mut Pass,
    l: &LinearW,
    outputs: usize,
    inputs: usize,
    label: &str,
) -> (r: GpuConv)
    requires
        pointwise_fits(*l, outputs, inputs),
    ensures
        final(pass)@ == pointwise_plan(old(pass)@, *l, outputs, inputs, label@),
        pointwise_made(r, old(pass)@, *l, outputs, inputs, label@),
        r.wf(),
{
    let shape: Vec<usize> = vec![outputs, inputs, 1];
    let w = ConvW { weight: weights::copied(&l.weight), bias: weights::copied(&l.bias), shape };
    proof {
        reveal(pointwise_made);
        assert(w.shape@ =~= seq![outputs, inputs, 1usize]);
        assert(weights::kernel_of(w.shape@) == (1usize, 1usize));
        assert(w.shape@[1] * 1 * 1 == inputs);
    }
    weights::upload_conv(pass, &w, (1, 1), (0, 0), label)
}

/// The samplers between the encoders' channels and the transformer's.
pub type Samplers = (GpuConv, GpuConv, GpuConv, GpuConv);

#[verifier::opaque]
pub open spec fn samplers_plan(s: Plan, w: HtdemucsWeights) -> Plan {
    let s1 = pointwise_plan(s, w.channel_upsampler, TRANSFORMER_CHANNELS, BOTTLENECK_CHANNELS, "up.freq"@);
    let s2 = pointwise_plan(s1, w.channel_upsampler_t, TRANSFORMER_CHANNELS, BOTTLENECK_CHANNELS, "up.time"@);
    let s3 = pointwise_plan(s2, w.channel_downsampler, BOTTLENECK_CHANNELS, TRANSFORMER_CHANNELS, "down.freq"@);
    pointwise_plan(s3, w.channel_downsampler_t, BOTTLENECK_CHANNELS, TRANSFORMER_CHANNELS, "down.time"@)
}

#[verifier::opaque]
pub open spec fn samplers_made(r: Samplers, s: Plan, w: HtdemucsWeights) -> bool {
    let s1 = pointwise_plan(s, w.channel_upsampler, TRANSFORMER_CHANNELS, BOTTLENECK_CHANNELS, "up.freq"@);
    let s2 = pointwise_plan(s1, w.channel_upsampler_t, TRANSFORMER_CHANNELS, BOTTLENECK_CHANNELS, "up.time"@);
    let s3 = pointwise_plan(s2, w.channel_downsampler, BOTTLENECK_CHANNELS, TRANSFORMER_CHANNELS, "down.freq"@);
    &&& pointwise_made(r.0, s, w.channel_upsampler, TRANSFORMER_CHANNELS, BOTTLENECK_CHANNELS, "up.freq"@)
    &&& pointwise_made(r.1, s1, w.channel_upsampler_t, TRANSFORMER_CHANNELS, BOTTLENECK_CHANNELS, "up.time"@)
    &&& pointwise_made(r.2, s2, w.channel_downsampler, BOTTLENECK_CHANNELS, TRANSFORMER_CHANNELS, "down.freq"@)
    &&& pointwise_made(r.3, s3, w.channel_downsampler_t, BOTTLENECK_CHANNELS, TRANSFORMER_CHANNELS, "down.time"@)
}

pub open spec fn samplers_fit(w: HtdemucsWeights) -> bool {
    &&& pointwise_fits(w.channel_upsampler, TRANSFORMER_CHANNELS, BOTTLENECK_CHANNELS)
    &&& pointwise_fits(w.channel_upsampler_t, TRANSFORMER_CHANNELS, BOTTLENECK_CHANNELS)
    &&& pointwise_fits(w.channel_downsampler, BOTTLENECK_CHANNELS, TRANSFORMER_CHANNELS)
    &&& pointwise_fits(w.channel_downsampler_t, BOTTLENECK_CHANNELS, TRANSFORMER_CHANNELS)
}

fn upload_samplers(pass: &mut Pass, w: &HtdemucsWeights) -> (r: Samplers)
    requires
        samplers_fit(*w),
    ensures
        final(pass)@ == samplers_plan(old(pass)@, *w),
        samplers_made(r, old(pass)@, *w),
        r.0.wf() && r.1.wf() && r.2.wf() && r.3.wf(),
{
    proof {
        reveal(samplers_plan);
        reveal(samplers_made);
    }
    let up_freq = upload_pointwise(pass, &w.channel_upsampler, TRANSFORMER_CHANNELS, BOTTLENECK_CHANNELS, "up.freq");
    let up_time = upload_pointwise(pass, &w.channel_upsampler_t, TRANSFORMER_CHANNELS, BOTTLENECK_CHANNELS, "up.time");
    let down_freq = upload_pointwise(pass, &w.channel_downsampler, BOTTLENECK_CHANNELS, TRANSFORMER_CHANNELS, "down.freq");
    let down_time = upload_pointwise(pass, &w.channel_downsampler_t, BOTTLENECK_CHANNELS, TRANSFORMER_CHANNELS, "down.time");
    (up_freq, up_time, down_freq, down_time)
}

/// Whether the model can be uploaded under `config`.
pub open spec fn loadable(w: HtdemucsWeights, config: ModelConfig) -> bool {
    &&& encoders_fit(w.encoder@)
    &&& encoders_fit(w.tencoder@)
    &&& w.freq_emb@.len() == w.freq_emb_rows * w.freq_emb_columns
    &&& weights::vector_fits(w.freq_emb@)
    &&& transformer_fits(w.transformer, config.t_layers as int)
    &&& samplers_fit(w)
    &&& decoders_fit(w.decoder@)
    &&& tdecoders_fit(w.tdecoder@)
}

/// The passes after each part of the model.
pub open spec fn encoded_plan(s: Plan, w: HtdemucsWeights) -> Plan {
    encoders_plan(s, w.encoder@, "encoder."@, w.encoder@.len())
}

pub open spec fn tencoded_plan(s: Plan, w: HtdemucsWeights) -> Plan {
    encoders_plan(encoded_plan(s, w), w.tencoder@, "tencoder."@, w.tencoder@.len())
}

pub open spec fn embedded_plan(s: Plan, w: HtdemucsWeights) -> Plan {
    weights::vector_plan(
        tencoded_plan(s, w),
        ops::transposed(w.freq_emb@, w.freq_emb_rows as int, w.freq_emb_columns as int),
        "freq_emb"@,
    )
}

pub open spec fn attended_plan(s: Plan, w: HtdemucsWeights, config: ModelConfig) -> Plan {
    transformer_plan(embedded_plan(s, w), w.transformer, config.t_layers as nat)
}

pub open spec fn sampled_plan(s: Plan, w: HtdemucsWeights, config: ModelConfig) -> Plan {
    samplers_plan(attended_plan(s, w, config), w)
}

pub open spec fn decoded_plan(s: Plan, w: HtdemucsWeights, config: ModelConfig) -> Plan {
    decoders_plan(sampled_plan(s, w, config), w.decoder@, w.decoder@.len())
}

pub open spec fn tdecoded_plan(s: Plan, w: HtdemucsWeights, config: ModelConfig) -> Plan {
    tdecoders_plan(decoded_plan(s, w, config), w.tdecoder@, w.tdecoder@.len())
}

/// Every upload of the model, in order; the unit and the zero come last.
pub open spec fn load_plan(s: Plan, w: HtdemucsWeights, config: ModelConfig) -> Plan {
    weights::vector_plan(
        weights::vector_plan(tdecoded_plan(s, w, config), ones(1), "unit"@),
        zeros(1),
        "zero"@,
    )
}

/// Whether `r` is what uploading the model after `s` gives.
pub open spec fn loaded(r: GpuWeights, s: Plan, w: HtdemucsWeights, config: ModelConfig) -> bool {
    &&& r.wf()
    &&& encoders_made(r.encoder@, s, w.encoder@, "encoder."@)
    &&& encoders_made(r.tencoder@, encoded_plan(s, w), w.tencoder@, "tencoder."@)
    &&& r.freq_emb_rows@ == tencoded_plan(s, w).fresh(seq![w.freq_emb@.len() as usize])
    &&& transformer_made(
        r.transformer,
        embedded_plan(s, w),
        w.transformer,
        config.t_layers as nat,
    )
    &&& samplers_made(
        (r.up_freq, r.up_time, r.down_freq, r.down_time),
        attended_plan(s, w, config),
        w,
    )
    &&& decoders_made(r.decoder@, sampled_plan(s, w, config), w.decoder@, config.stride)
    &&& tdecoders_made(r.tdecoder@, decoded_plan(s, w, config), w.tdecoder@, config.stride)
    &&& r.unit@ == tdecoded_plan(s, w, config).fresh(seq![1usize])
    &&& r.zero@ == weights::vector_plan(tdecoded_plan(s, w, config), ones(1), "unit"@).fresh(
        seq![1usize],
    )
}

impl GpuWeights {
    /// Uploads the model.
    pub fn load(pass: &mut Pass, w: &HtdemucsWeights, config: &ModelConfig) -> (r: GpuWeights)
        requires
            loadable(*w, *config),
        ensures
            final(pass)@ == load_plan(old(pass)@, *w, *config),
            loaded(r, old(pass)@, *w, *config),
    {
        let encoder = upload_encoders(pass, &w.encoder, "encoder.");
        let tencoder = upload_encoders(pass, &w.tencoder, "tencoder.");
        let have: usize = w.freq_emb.len();
        let expanded = ops::transpose_owned(&w.freq_emb, w.freq_emb_rows, w.freq_emb_columns);
        let freq_emb_rows = weights::upload_owned(pass, expanded, "freq_emb");
        let transformer = upload_transformer(pass, &w.transformer, config.t_layers);
        let (up_freq, up_time, down_freq, down_time) = upload_samplers(pass, w);
        let decoder = upload_decoders(pass, &w.decoder, config.stride);
        let tdecoder = upload_tdecoders(pass, &w.tdecoder, config.stride);
        let unit = weights::upload_owned(pass, weights::repeated(attend::ONE_BITS, 1), "unit");
        let zero = weights::upload_owned(pass, weights::repeated(0, 1), "zero");
        assert(have == w.freq_emb@.len());
        GpuWeights {
            encoder,
            tencoder,
            freq_emb_rows,
            unit,
            zero,
            transformer,
            up_freq,
            up_time,
            down_freq,
            down_time,
            decoder,
            tdecoder,
        }
    }
}

} // verus!
