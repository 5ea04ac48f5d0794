//! What the buffers of the encoders and decoders hold once their weights are loaded.

use vstd::prelude::*;

use crate::gpu::decoder::GpuDec;
use crate::gpu::encoder::GpuEnc;
use crate::gpu::loader;
use crate::gpu::loader_laws::{
    grows, kept, lemma_grows_on, lemma_kept_on, lemma_matrix, lemma_same, lemma_upload,
};
use crate::gpu::recorder::Plan;
use crate::gpu::shaders;
use crate::gpu::stages::{GpuConv, GpuConvT, GpuDConv, GpuDConvLayer};
use crate::gpu::weights;
use crate::gpu::weights::{ConvW, DConvLayerW, DConvW, DecLayerW, EncLayerW};
use crate::text;

verus! {

// ------------------------------------------------------------------- convolutions

/// Whether the buffers of a convolution hold its weights, one row per output, padded, and
/// its bias.
pub open spec fn conv_kept(r: Plan, c: GpuConv, w: ConvW) -> bool {
    let kernel = weights::kernel_of(w.shape@);
    &&& c.in_channels == w.shape@[1] && c.out_channels == w.shape@[0] && c.kernel == kernel
    &&& kept(
        r,
        c.weight@,
        weights::padded_words(
            w.weight@,
            w.shape@[0] as int,
            w.shape@[1] * kernel.0 * kernel.1,
            shaders::BM as int,
            shaders::BK as int,
        ),
    )
    &&& kept(r, c.bias@, w.bias@)
}

proof fn lemma_conv(
    c: GpuConv,
    s: Plan,
    w: ConvW,
    stride: (usize, usize),
    pad: (usize, usize),
    label: Seq<char>,
)
    requires
        weights::conv_made(c, s, w, stride, pad, label),
    ensures
        grows(s, weights::conv_plan(s, w, label)),
        conv_kept(weights::conv_plan(s, w, label), c, w),
{
    let kernel = weights::kernel_of(w.shape@);
    let rows = w.shape@[0] as int;
    let cols = w.shape@[1] * kernel.0 * kernel.1;
    let m = weights::conv_weight_plan(s, w, label);
    let r = weights::conv_plan(s, w, label);
    lemma_matrix(s, w.weight@, rows, cols, shaders::BM as int, shaders::BK as int, label);
    lemma_upload(m, seq![w.shape@[0]], w.bias@, label);
    lemma_grows_on(s, m, r);
    lemma_kept_on(
        m,
        r,
        c.weight@,
        weights::padded_words(w.weight@, rows, cols, shaders::BM as int, shaders::BK as int),
    );
}

proof fn lemma_conv_on(s: Plan, r: Plan, c: GpuConv, w: ConvW)
    requires
        grows(s, r),
        conv_kept(s, c, w),
    ensures
        conv_kept(r, c, w),
{
    let kernel = weights::kernel_of(w.shape@);
    let words = weights::padded_words(
        w.weight@,
        w.shape@[0] as int,
        w.shape@[1] * kernel.0 * kernel.1,
        shaders::BM as int,
        shaders::BK as int,
    );
    lemma_kept_on(s, r, c.weight@, words);
    lemma_kept_on(s, r, c.bias@, w.bias@);
}

/// Whether the buffers of a convolution hold its weights with its taps `dilation` apart,
/// padded, and its bias.
pub open spec fn spread_kept(r: Plan, c: GpuConv, w: ConvW, dilation: int) -> bool {
    let width = (w.shape@[2] - 1) * dilation + 1;
    &&& c.in_channels == w.shape@[1] && c.out_channels == w.shape@[0]
    &&& c.kernel == (1usize, width as usize)
    &&& c.pad == (0usize, (dilation * (w.shape@[2] as int / 2)) as usize)
    &&& kept(
        r,
        c.weight@,
        weights::padded_words(
            weights::widened_words(
                w.weight@,
                w.shape@[0] * w.shape@[1],
                w.shape@[2] as int,
                dilation,
            ),
            w.shape@[0] as int,
            w.shape@[1] * width,
            shaders::BM as int,
            shaders::BK as int,
        ),
    )
    &&& kept(r, c.bias@, w.bias@)
}

proof fn lemma_spread(c: GpuConv, s: Plan, w: ConvW, dilation: int, label: Seq<char>)
    requires
        weights::widened_conv_made(c, s, w, dilation, label),
    ensures
        grows(s, weights::widened_conv_plan(s, w, dilation, label)),
        spread_kept(weights::widened_conv_plan(s, w, dilation, label), c, w, dilation),
{
    let width = (w.shape@[2] - 1) * dilation + 1;
    let data = weights::widened_words(
        w.weight@,
        w.shape@[0] * w.shape@[1],
        w.shape@[2] as int,
        dilation,
    );
    let rows = w.shape@[0] as int;
    let cols = w.shape@[1] * width;
    let m = weights::widened_weight_plan(s, w, dilation, label);
    let r = weights::widened_conv_plan(s, w, dilation, label);
    lemma_matrix(s, data, rows, cols, shaders::BM as int, shaders::BK as int, label);
    lemma_upload(m, seq![w.shape@[0]], w.bias@, label);
    lemma_grows_on(s, m, r);
    lemma_kept_on(
        m,
        r,
        c.weight@,
        weights::padded_words(data, rows, cols, shaders::BM as int, shaders::BK as int),
    );
}

proof fn lemma_spread_on(s: Plan, r: Plan, c: GpuConv, w: ConvW, dilation: int)
    requires
        grows(s, r),
        spread_kept(s, c, w, dilation),
    ensures
        spread_kept(r, c, w, dilation),
{
    let width = (w.shape@[2] - 1) * dilation + 1;
    let data = weights::widened_words(
        w.weight@,
        w.shape@[0] * w.shape@[1],
        w.shape@[2] as int,
        dilation,
    );
    let words = weights::padded_words(
        data,
        w.shape@[0] as int,
        w.shape@[1] * width,
        shaders::BM as int,
        shaders::BK as int,
    );
    lemma_kept_on(s, r, c.weight@, words);
    lemma_kept_on(s, r, c.bias@, w.bias@);
}

/// Whether the buffers of an upsampling hold its taps, one row per output and tap, padded,
/// and its bias.
pub open spec fn taps_kept(r: Plan, c: GpuConvT, w: ConvW) -> bool {
    let kernel = weights::kernel_of(w.shape@);
    let taps = kernel.0 * kernel.1;
    &&& c.in_channels == w.shape@[0] && c.out_channels == w.shape@[1] && c.kernel == kernel
    &&& kept(
        r,
        c.weight@,
        weights::padded_words(
            weights::tap_words(w.weight@, w.shape@[0] as int, w.shape@[1] as int, taps),
            w.shape@[1] * taps,
            w.shape@[0] as int,
            shaders::BM as int,
            shaders::BK as int,
        ),
    )
    &&& kept(r, c.bias@, w.bias@)
}

proof fn lemma_taps(c: GpuConvT, s: Plan, w: ConvW, stride: (usize, usize), label: Seq<char>)
    requires
        weights::conv_tr_made(c, s, w, stride, label),
    ensures
        grows(s, weights::conv_tr_plan(s, w, label)),
        taps_kept(weights::conv_tr_plan(s, w, label), c, w),
{
    let kernel = weights::kernel_of(w.shape@);
    let taps = kernel.0 * kernel.1;
    let data = weights::tap_words(w.weight@, w.shape@[0] as int, w.shape@[1] as int, taps);
    let rows = w.shape@[1] * taps;
    let cols = w.shape@[0] as int;
    let m = weights::conv_tr_weight_plan(s, w, label);
    let r = weights::conv_tr_plan(s, w, label);
    lemma_matrix(s, data, rows, cols, shaders::BM as int, shaders::BK as int, label);
    lemma_upload(m, seq![w.shape@[1]], w.bias@, label);
    lemma_grows_on(s, m, r);
    lemma_kept_on(
        m,
        r,
        c.weight@,
        weights::padded_words(data, rows, cols, shaders::BM as int, shaders::BK as int),
    );
}

proof fn lemma_taps_on(s: Plan, r: Plan, c: GpuConvT, w: ConvW)
    requires
        grows(s, r),
        taps_kept(s, c, w),
    ensures
        taps_kept(r, c, w),
{
    let kernel = weights::kernel_of(w.shape@);
    let taps = kernel.0 * kernel.1;
    let words = weights::padded_words(
        weights::tap_words(w.weight@, w.shape@[0] as int, w.shape@[1] as int, taps),
        w.shape@[1] * taps,
        w.shape@[0] as int,
        shaders::BM as int,
        shaders::BK as int,
    );
    lemma_kept_on(s, r, c.weight@, words);
    lemma_kept_on(s, r, c.bias@, w.bias@);
}

// --------------------------------------------------------------- residual branches

/// Whether the buffers of a layer of a residual branch hold that layer's weights.
pub open spec fn branch_kept(r: Plan, g: GpuDConvLayer, w: DConvLayerW, dilation: int) -> bool {
    &&& spread_kept(r, g.conv1, w.conv1, dilation)
    &&& conv_kept(r, g.conv2, w.conv2)
    &&& kept(r, g.norm1_scale@, w.norm1_weight@) && kept(r, g.norm1_shift@, w.norm1_bias@)
    &&& kept(r, g.norm2_scale@, w.norm2_weight@) && kept(r, g.norm2_shift@, w.norm2_bias@)
    &&& kept(r, g.gamma@, w.gamma@)
    &&& g.hidden == w.conv1.shape@[0]
}

proof fn lemma_branch_on(s: Plan, r: Plan, g: GpuDConvLayer, w: DConvLayerW, dilation: int)
    requires
        grows(s, r),
        branch_kept(s, g, w, dilation),
    ensures
        branch_kept(r, g, w, dilation),
{
    lemma_spread_on(s, r, g.conv1, w.conv1, dilation);
    lemma_conv_on(s, r, g.conv2, w.conv2);
    lemma_kept_on(s, r, g.norm1_scale@, w.norm1_weight@);
    lemma_kept_on(s, r, g.norm1_shift@, w.norm1_bias@);
    lemma_kept_on(s, r, g.norm2_scale@, w.norm2_weight@);
    lemma_kept_on(s, r, g.norm2_shift@, w.norm2_bias@);
    lemma_kept_on(s, r, g.gamma@, w.gamma@);
}

proof fn lemma_branch(
    g: GpuDConvLayer,
    s: Plan,
    w: DConvLayerW,
    dilation: int,
    channels: usize,
    label: Seq<char>,
)
    requires
        loader::branch_made(g, s, w, dilation, channels, label),
    ensures
        grows(s, loader::branch_plan(s, w, dilation, label)),
        branch_kept(loader::branch_plan(s, w, dilation, label), g, w, dilation),
{
    reveal(loader::branch_made);
    let ones = loader::ones(w.conv2.shape@[0] as nat);
    let zeros = loader::zeros(w.gamma@.len());
    let s1 = weights::widened_conv_plan(s, w.conv1, dilation, label);
    let s2 = weights::conv_plan(s1, w.conv2, label);
    let s3 = weights::vector_plan(s2, ones, label);
    let s4 = weights::vector_plan(s3, w.norm1_weight@, label);
    let s5 = weights::vector_plan(s4, w.norm1_bias@, label);
    let s6 = weights::vector_plan(s5, w.norm2_weight@, label);
    let s7 = weights::vector_plan(s6, w.norm2_bias@, label);
    let s8 = weights::vector_plan(s7, w.gamma@, label);
    let r = loader::branch_plan(s, w, dilation, label);
    lemma_spread(g.conv1, s, w.conv1, dilation, label);
    lemma_conv(g.conv2, s1, w.conv2, (1, 1), (0, 0), label);
    lemma_upload(s2, seq![ones.len() as usize], ones, label);
    lemma_upload(s3, seq![w.norm1_weight@.len() as usize], w.norm1_weight@, label);
    lemma_upload(s4, seq![w.norm1_bias@.len() as usize], w.norm1_bias@, label);
    lemma_upload(s5, seq![w.norm2_weight@.len() as usize], w.norm2_weight@, label);
    lemma_upload(s6, seq![w.norm2_bias@.len() as usize], w.norm2_bias@, label);
    lemma_upload(s7, seq![w.gamma@.len() as usize], w.gamma@, label);
    lemma_upload(s8, seq![zeros.len() as usize], zeros, label);
    lemma_grows_on(s7, s8, r);
    lemma_grows_on(s6, s7, r);
    lemma_grows_on(s5, s6, r);
    lemma_grows_on(s4, s5, r);
    lemma_grows_on(s3, s4, r);
    lemma_grows_on(s2, s3, r);
    lemma_grows_on(s1, s2, r);
    lemma_grows_on(s, s1, r);
    lemma_spread_on(s1, r, g.conv1, w.conv1, dilation);
    lemma_conv_on(s2, r, g.conv2, w.conv2);
    lemma_kept_on(s4, r, g.norm1_scale@, w.norm1_weight@);
    lemma_kept_on(s5, r, g.norm1_shift@, w.norm1_bias@);
    lemma_kept_on(s6, r, g.norm2_scale@, w.norm2_weight@);
    lemma_kept_on(s7, r, g.norm2_shift@, w.norm2_bias@);
    lemma_kept_on(s8, r, g.gamma@, w.gamma@);
}

/// How far apart the taps of layer `i` of a residual branch stand: one, and twice as far
/// with every layer.
pub proof fn law_dilations_double(i: nat)
    ensures
        loader::dilation_at(i) == vstd::arithmetic::power2::pow2(i),
    decreases i,
{
    if i == 0 {
        vstd::arithmetic::power2::lemma2_to64();
    } else {
        law_dilations_double((i - 1) as nat);
        vstd::arithmetic::power2::lemma_pow2_unfold(i);
    }
}

/// Whether the buffers of every layer of a residual branch hold that layer's weights, the
/// taps of layer `i` a power of two apart.
pub open spec fn dconv_kept(r: Plan, g: GpuDConv, d: DConvW) -> bool {
    &&& g.layers@.len() == d.layers@.len()
    &&& forall|i: int| 0 <= i < d.layers@.len() ==> #[trigger] branch_kept_at(r, g, d, i)
}

pub open spec fn branch_kept_at(r: Plan, g: GpuDConv, d: DConvW, i: int) -> bool {
    branch_kept(
        r,
        g.layers@[i],
        d.layers@[i],
        vstd::arithmetic::power2::pow2(i as nat) as int,
    )
}

proof fn lemma_dconv_on(s: Plan, r: Plan, g: GpuDConv, d: DConvW)
    requires
        grows(s, r),
        dconv_kept(s, g, d),
    ensures
        dconv_kept(r, g, d),
{
    assert forall|i: int| 0 <= i < d.layers@.len() implies #[trigger] branch_kept_at(
        r,
        g,
        d,
        i,
    ) by {
        assert(branch_kept_at(s, g, d, i));
        lemma_branch_on(
            s,
            r,
            g.layers@[i],
            d.layers@[i],
            vstd::arithmetic::power2::pow2(i as nat) as int,
        );
    }
}

proof fn lemma_dconv_layers(g: GpuDConv, s: Plan, d: DConvW, label: Seq<char>, n: nat)
    requires
        loader::dconv_made(g, s, d, label),
        n <= d.layers@.len(),
    ensures
        grows(s, loader::dconv_plan(s, d.layers@, label, n)),
        forall|i: int|
            0 <= i < n ==> #[trigger] branch_kept_at(
                loader::dconv_plan(s, d.layers@, label, n),
                g,
                d,
                i,
            ),
    decreases n,
{
    if n == 0 {
        lemma_same(s);
    } else {
        let m = (n - 1) as nat;
        let before = loader::dconv_plan(s, d.layers@, label, m);
        let after = loader::dconv_plan(s, d.layers@, label, n);
        lemma_dconv_layers(g, s, d, label, m);
        law_dilations_double(m);
        assert(loader::branch_made(
            g.layers@[m as int],
            before,
            d.layers@[m as int],
            loader::dilation_at(m),
            d.channels,
            label,
        )) by {
            reveal(loader::dconv_made);
        }
        lemma_branch(
            g.layers@[m as int],
            before,
            d.layers@[m as int],
            loader::dilation_at(m),
            d.channels,
            label,
        );
        lemma_grows_on(s, before, after);
        assert forall|i: int| 0 <= i < n implies #[trigger] branch_kept_at(after, g, d, i) by {
            if i < m {
                assert(branch_kept_at(before, g, d, i));
                lemma_branch_on(
                    before,
                    after,
                    g.layers@[i],
                    d.layers@[i],
                    vstd::arithmetic::power2::pow2(i as nat) as int,
                );
            }
        }
    }
}

proof fn lemma_dconv(g: GpuDConv, s: Plan, d: DConvW, label: Seq<char>)
    requires
        loader::dconv_made(g, s, d, label),
    ensures
        grows(s, loader::dconv_plan(s, d.layers@, label, d.layers@.len())),
        dconv_kept(loader::dconv_plan(s, d.layers@, label, d.layers@.len()), g, d),
{
    lemma_dconv_layers(g, s, d, label, d.layers@.len());
    assert(g.layers@.len() == d.layers@.len()) by {
        reveal(loader::dconv_made);
    }
}

// ------------------------------------------------------------------------- layers

/// Whether the buffers of a layer of an encoder hold that layer's weights.
pub open spec fn encoder_kept(r: Plan, g: GpuEnc, w: EncLayerW) -> bool {
    &&& conv_kept(r, g.conv, w.conv)
    &&& conv_kept(r, g.rewrite, w.rewrite)
    &&& dconv_kept(r, g.dconv, w.dconv)
}

proof fn lemma_encoder(g: GpuEnc, s: Plan, w: EncLayerW, label: Seq<char>)
    requires
        loader::encoder_made(g, s, w, label),
    ensures
        grows(s, loader::encoder_plan(s, w, label)),
        encoder_kept(loader::encoder_plan(s, w, label), g, w),
{
    reveal(loader::encoder_made);
    reveal(loader::encoder_plan);
    let (stride, pad) = loader::encoder_geometry(w.conv.shape@.len());
    let s1 = weights::conv_plan(s, w.conv, label);
    let s2 = weights::conv_plan(s1, w.rewrite, label);
    let r = loader::encoder_plan(s, w, label);
    lemma_conv(g.conv, s, w.conv, stride, pad, label);
    lemma_conv(g.rewrite, s1, w.rewrite, (1, 1), (0, 0), label);
    lemma_dconv(g.dconv, s2, w.dconv, label);
    lemma_grows_on(s1, s2, r);
    lemma_grows_on(s, s1, r);
    lemma_conv_on(s1, r, g.conv, w.conv);
    lemma_conv_on(s2, r, g.rewrite, w.rewrite);
}

proof fn lemma_encoder_on(s: Plan, r: Plan, g: GpuEnc, w: EncLayerW)
    requires
        grows(s, r),
        encoder_kept(s, g, w),
    ensures
        encoder_kept(r, g, w),
{
    lemma_conv_on(s, r, g.conv, w.conv);
    lemma_conv_on(s, r, g.rewrite, w.rewrite);
    lemma_dconv_on(s, r, g.dconv, w.dconv);
}

/// Whether the buffers of a layer of a decoder hold that layer's weights.
pub open spec fn decoder_kept(r: Plan, g: GpuDec, w: DecLayerW) -> bool {
    &&& conv_kept(r, g.rewrite, w.rewrite)
    &&& taps_kept(r, g.conv_tr, w.conv_tr)
    &&& dconv_kept(r, g.dconv, w.dconv)
}

proof fn lemma_decoder_on(s: Plan, r: Plan, g: GpuDec, w: DecLayerW)
    requires
        grows(s, r),
        decoder_kept(s, g, w),
    ensures
        decoder_kept(r, g, w),
{
    lemma_conv_on(s, r, g.rewrite, w.rewrite);
    lemma_taps_on(s, r, g.conv_tr, w.conv_tr);
    lemma_dconv_on(s, r, g.dconv, w.dconv);
}

proof fn lemma_decoder(g: GpuDec, s: Plan, w: DecLayerW, stride: usize)
    requires
        loader::decoder_made(g, s, w, stride),
    ensures
        grows(s, loader::decoder_plan(s, w)),
        decoder_kept(loader::decoder_plan(s, w), g, w),
{
    reveal(loader::decoder_made);
    reveal(loader::decoder_plan);
    let (pad, up) = loader::decoder_geometry(w, w.conv_tr.shape@.len() == 4, stride);
    let s1 = weights::conv_plan(s, w.rewrite, "dec.rewrite"@);
    let s2 = weights::conv_tr_plan(s1, w.conv_tr, "dec.conv_tr"@);
    let r = loader::decoder_plan(s, w);
    lemma_conv(g.rewrite, s, w.rewrite, (1, 1), pad, "dec.rewrite"@);
    lemma_taps(g.conv_tr, s1, w.conv_tr, up, "dec.conv_tr"@);
    lemma_dconv(g.dconv, s2, w.dconv, "dec.dconv"@);
    lemma_grows_on(s1, s2, r);
    lemma_grows_on(s, s1, r);
    lemma_conv_on(s1, r, g.rewrite, w.rewrite);
    lemma_taps_on(s2, r, g.conv_tr, w.conv_tr);
}

proof fn lemma_tdecoder(g: GpuDec, s: Plan, w: DecLayerW, stride: usize)
    requires
        loader::tdecoder_made(g, s, w, stride),
    ensures
        grows(s, loader::tdecoder_plan(s, w)),
        decoder_kept(loader::tdecoder_plan(s, w), g, w),
{
    reveal(loader::tdecoder_made);
    reveal(loader::tdecoder_plan);
    let (pad, up) = loader::decoder_geometry(w, false, stride);
    let s1 = weights::conv_plan(s, w.rewrite, "tdec.rewrite"@);
    let s2 = loader::dconv_plan(s1, w.dconv.layers@, "tdec.dconv"@, w.dconv.layers@.len());
    let r = loader::tdecoder_plan(s, w);
    lemma_conv(g.rewrite, s, w.rewrite, (1, 1), pad, "tdec.rewrite"@);
    lemma_dconv(g.dconv, s1, w.dconv, "tdec.dconv"@);
    lemma_taps(g.conv_tr, s2, w.conv_tr, up, "tdec.conv_tr"@);
    lemma_grows_on(s1, s2, r);
    lemma_grows_on(s, s1, r);
    lemma_conv_on(s1, r, g.rewrite, w.rewrite);
    lemma_dconv_on(s2, r, g.dconv, w.dconv);
}

proof fn lemma_encoders(
    g: Seq<GpuEnc>,
    s: Plan,
    w: Seq<EncLayerW>,
    prefix: Seq<char>,
    n: nat,
)
    requires
        loader::encoders_made(g, s, w, prefix),
        n <= w.len(),
    ensures
        grows(s, loader::encoders_plan(s, w, prefix, n)),
        forall|i: int|
            0 <= i < n ==> encoder_kept(
                loader::encoders_plan(s, w, prefix, n),
                #[trigger] g[i],
                w[i],
            ),
    decreases n,
{
    if n == 0 {
        lemma_same(s);
    } else {
        let m = (n - 1) as nat;
        let before = loader::encoders_plan(s, w, prefix, m);
        let after = loader::encoders_plan(s, w, prefix, n);
        lemma_encoders(g, s, w, prefix, m);
        assert(g[m as int].wf());
        lemma_encoder(g[m as int], before, w[m as int], prefix + text::decimal(m));
        lemma_grows_on(s, before, after);
        assert forall|i: int| 0 <= i < n implies encoder_kept(after, #[trigger] g[i], w[i]) by {
            if i < m {
                lemma_encoder_on(before, after, g[i], w[i]);
            }
        }
    }
}

/// A loaded encoder holds, in the buffers of its layer `i`, the weights of layer `i`, for
/// every `i`.
pub proof fn law_a_loaded_encoder_holds_every_layer(
    g: Seq<GpuEnc>,
    s: Plan,
    w: Seq<EncLayerW>,
    prefix: Seq<char>,
)
    requires
        loader::encoders_made(g, s, w, prefix),
    ensures
        g.len() == w.len(),
        forall|i: int|
            0 <= i < w.len() ==> encoder_kept(
                loader::encoders_plan(s, w, prefix, w.len()),
                #[trigger] g[i],
                w[i],
            ),
{
    lemma_encoders(g, s, w, prefix, w.len());
}

proof fn lemma_decoders(
    g: Seq<GpuDec>,
    s: Plan,
    w: Seq<DecLayerW>,
    stride: usize,
    n: nat,
)
    requires
        loader::decoders_made(g, s, w, stride),
        n <= w.len(),
    ensures
        grows(s, loader::decoders_plan(s, w, n)),
        forall|i: int|
            0 <= i < n ==> decoder_kept(
                loader::decoders_plan(s, w, n),
                #[trigger] g[i],
                w[i],
            ),
    decreases n,
{
    if n == 0 {
        lemma_same(s);
    } else {
        let m = (n - 1) as nat;
        let before = loader::decoders_plan(s, w, m);
        let after = loader::decoders_plan(s, w, n);
        lemma_decoders(g, s, w, stride, m);
        assert(g[m as int].wf());
        lemma_decoder(g[m as int], before, w[m as int], stride);
        lemma_grows_on(s, before, after);
        assert forall|i: int| 0 <= i < n implies decoder_kept(after, #[trigger] g[i], w[i]) by {
            if i < m {
                lemma_decoder_on(before, after, g[i], w[i]);
            }
        }
    }
}

/// A loaded spectrogram decoder holds, in the buffers of its layer `i`, the weights of
/// layer `i`, for every `i`.
pub proof fn law_a_loaded_decoder_holds_every_layer(
    g: Seq<GpuDec>,
    s: Plan,
    w: Seq<DecLayerW>,
    stride: usize,
)
    requires
        loader::decoders_made(g, s, w, stride),
    ensures
        g.len() == w.len(),
        forall|i: int|
            0 <= i < w.len() ==> decoder_kept(
                loader::decoders_plan(s, w, w.len()),
                #[trigger] g[i],
                w[i],
            ),
{
    lemma_decoders(g, s, w, stride, w.len());
}

proof fn lemma_tdecoders(
    g: Seq<GpuDec>,
    s: Plan,
    w: Seq<DecLayerW>,
    stride: usize,
    n: nat,
)
    requires
        loader::tdecoders_made(g, s, w, stride),
        n <= w.len(),
    ensures
        grows(s, loader::tdecoders_plan(s, w, n)),
        forall|i: int|
            0 <= i < n ==> decoder_kept(
                loader::tdecoders_plan(s, w, n),
                #[trigger] g[i],
                w[i],
            ),
    decreases n,
{
    if n == 0 {
        lemma_same(s);
    } else {
        let m = (n - 1) as nat;
        let before = loader::tdecoders_plan(s, w, m);
        let after = loader::tdecoders_plan(s, w, n);
        lemma_tdecoders(g, s, w, stride, m);
        assert(g[m as int].wf());
        lemma_tdecoder(g[m as int], before, w[m as int], stride);
        lemma_grows_on(s, before, after);
        assert forall|i: int| 0 <= i < n implies decoder_kept(after, #[trigger] g[i], w[i]) by {
            if i < m {
                lemma_decoder_on(before, after, g[i], w[i]);
            }
        }
    }
}

/// A loaded waveform decoder holds, in the buffers of its layer `i`, the weights of layer
/// `i`, for every `i`.
pub proof fn law_a_loaded_waveform_decoder_holds_every_layer(
    g: Seq<GpuDec>,
    s: Plan,
    w: Seq<DecLayerW>,
    stride: usize,
)
    requires
        loader::tdecoders_made(g, s, w, stride),
    ensures
        g.len() == w.len(),
        forall|i: int|
            0 <= i < w.len() ==> decoder_kept(
                loader::tdecoders_plan(s, w, w.len()),
                #[trigger] g[i],
                w[i],
            ),
{
    lemma_tdecoders(g, s, w, stride, w.len());
}

} // verus!
