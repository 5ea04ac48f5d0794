//! The two decoders.

use vstd::prelude::*;
use vstd::string::*;

use crate::gpu::arith;
use crate::gpu::encoder;
use crate::gpu::kernels::Kernels;
use crate::gpu::pass::Pass;
use crate::gpu::recorder;
use crate::gpu::recorder::Plan;
use crate::gpu::shaders;
use crate::gpu::shapes::Col2ImShape;
use crate::gpu::stages;
use crate::gpu::stages::{GpuConv, GpuConvT, GpuDConv};
use crate::gpu::tensor;
use crate::gpu::tensor::{DevTensor, TensorView};
use crate::text;

verus! {

/// One layer of a decoder.
#[derive(Debug)]
pub struct GpuDec {
    pub rewrite: GpuConv,
    pub dconv: GpuDConv,
    pub conv_tr: GpuConvT,
}

impl GpuDec {
    pub open spec fn wf(&self) -> bool {
        self.rewrite.wf() && self.dconv.wf() && self.conv_tr.wf()
    }
}

// ------------------------------------------------------------------ plane sizes

/// Bins a spectrogram layer leaves: the upsampled axis, cropped on both sides.
pub open spec fn bins_after(f: int, stride: int, kernel: int) -> int {
    (f - 1) * stride + kernel - 2 * (kernel / 4)
}

/// A decoder layer brings back the size in front of the encoder layer it mirrors. Of the
/// bins it restores every whole quarter; of the samples it makes at least as many as it
/// has to keep from the third on.
pub proof fn law_layers_restore_their_sizes(bins: int, samples: int)
    requires
        bins >= 4,
        samples >= 1,
    ensures
        bins_after(bins / 4, 4, 8) == bins - bins % 4,
        (encoder::time_kept(samples) - 1) * 4 + 8 >= samples + 2,
{
}

/// Bins in front of layer `n`.
pub open spec fn bins_before(f: usize, stride: usize, layers: Seq<GpuDec>, n: nat) -> int
    decreases n,
{
    if n == 0 {
        f as int
    } else {
        bins_after(
            bins_before(f, stride, layers, (n - 1) as nat),
            stride as int,
            layers[n - 1].conv_tr.kernel.0 as int,
        )
    }
}

/// The waveform's length in front of layer `n`: what the encoder's layers recorded,
/// last first; the length so far where there is no record.
pub open spec fn samples_before(samples: usize, lengths: Seq<usize>, depth: nat, n: nat) -> usize
    decreases n,
{
    if n == 0 {
        samples
    } else if 0 <= depth - n < lengths.len() {
        lengths[depth - n]
    } else {
        samples_before(samples, lengths, depth, (n - 1) as nat)
    }
}

/// The largest patch matrix of one pair of layers.
pub open spec fn layer_plane(
    batch: usize,
    f: usize,
    t: usize,
    samples: usize,
    layer: GpuDec,
    layer_t: GpuDec,
) -> int {
    encoder::larger(
        encoder::larger(
            layer.rewrite.shape_spec(batch, f, t).patch_len(),
            encoder::dconv_plane(
                (batch * f) as usize,
                t,
                layer.dconv.layers@,
                layer.dconv.layers@.len(),
            ),
        ),
        encoder::larger(
            layer_t.rewrite.shape_spec(batch, 1, samples).patch_len(),
            encoder::dconv_plane(
                batch,
                samples,
                layer_t.dconv.layers@,
                layer_t.dconv.layers@.len(),
            ),
        ),
    )
}

/// Whether those can be counted.
pub open spec fn layer_countable(
    batch: usize,
    f: int,
    t: usize,
    samples: usize,
    stride: usize,
    layer: GpuDec,
    layer_t: GpuDec,
) -> bool {
    &&& 1 <= f
    &&& (f - 1) * stride + layer.conv_tr.kernel.0 <= usize::MAX
    &&& layer.rewrite.shape_spec(batch, f as usize, t).patches_fit()
    &&& batch * f <= usize::MAX
    &&& encoder::dconv_countable((batch * f) as usize, t, layer.dconv.layers@)
    &&& layer_t.rewrite.shape_spec(batch, 1, samples).patches_fit()
    &&& encoder::dconv_countable(batch, samples, layer_t.dconv.layers@)
}

/// Layers both decoders have.
pub open spec fn shared_depth(decoder: Seq<GpuDec>, tdecoder: Seq<GpuDec>) -> nat {
    if decoder.len() < tdecoder.len() {
        decoder.len()
    } else {
        tdecoder.len()
    }
}

/// The largest patch matrix of the first `n` pairs of layers.
pub open spec fn decoder_planes(
    batch: usize,
    f: usize,
    t: usize,
    samples: usize,
    lengths: Seq<usize>,
    decoder: Seq<GpuDec>,
    tdecoder: Seq<GpuDec>,
    stride: usize,
    n: nat,
) -> int
    decreases n,
{
    if n == 0 {
        0
    } else {
        encoder::larger(
            decoder_planes(
                batch,
                f,
                t,
                samples,
                lengths,
                decoder,
                tdecoder,
                stride,
                (n - 1) as nat,
            ),
            layer_plane(
                batch,
                bins_before(f, stride, decoder, (n - 1) as nat) as usize,
                t,
                samples_before(samples, lengths, decoder.len(), (n - 1) as nat),
                decoder[n - 1],
                tdecoder[n - 1],
            ),
        )
    }
}

/// Whether those can be counted.
#[verifier::opaque]
pub open spec fn decoder_countable(
    batch: usize,
    f: usize,
    t: usize,
    samples: usize,
    lengths: Seq<usize>,
    decoder: Seq<GpuDec>,
    tdecoder: Seq<GpuDec>,
    stride: usize,
) -> bool {
    forall|i: int|
        0 <= i < shared_depth(decoder, tdecoder) ==> layer_countable(
            batch,
            bins_before(f, stride, decoder, i as nat),
            t,
            samples_before(samples, lengths, decoder.len(), i as nat),
            stride,
            #[trigger] decoder[i],
            tdecoder[i],
        )
}

fn layer_plane_elems(
    batch: usize,
    f: usize,
    t: usize,
    samples: usize,
    stride: usize,
    layer: &GpuDec,
    layer_t: &GpuDec,
) -> (r: usize)
    requires
        layer_countable(batch, f as int, t, samples, stride, *layer, *layer_t),
    ensures
        r == layer_plane(batch, f, t, samples, *layer, *layer_t),
{
    let first: usize = encoder::conv_plane_elems(batch, f, t, &layer.rewrite);
    let branch: usize = encoder::dconv_plane_elems(batch * f, t, &layer.dconv);
    let first_t: usize = encoder::conv_plane_elems(batch, 1, samples, &layer_t.rewrite);
    let branch_t: usize = encoder::dconv_plane_elems(batch, samples, &layer_t.dconv);
    encoder::larger_of(
        encoder::larger_of(first, branch),
        encoder::larger_of(first_t, branch_t),
    )
}

/// The largest patch matrix the decoders will ask the scratch to hold.
pub fn decoder_scratch_elems(
    batch: usize,
    freq_h: usize,
    freq_t: usize,
    time_samples: usize,
    lengths_t: &Vec<usize>,
    decoder: &Vec<GpuDec>,
    tdecoder: &Vec<GpuDec>,
    stride: usize,
) -> (r: usize)
    requires
        decoder_countable(
            batch,
            freq_h,
            freq_t,
            time_samples,
            lengths_t@,
            decoder@,
            tdecoder@,
            stride,
        ),
    ensures
        r == decoder_planes(
            batch,
            freq_h,
            freq_t,
            time_samples,
            lengths_t@,
            decoder@,
            tdecoder@,
            stride,
            shared_depth(decoder@, tdecoder@),
        ),
{
    let mut most: usize = 0;
    let mut f: usize = freq_h;
    let mut samples: usize = time_samples;
    let depth: usize = decoder.len();
    let mut i: usize = 0;
    while i < decoder.len() && i < tdecoder.len()
        invariant
            depth == decoder@.len(),
            i <= shared_depth(decoder@, tdecoder@),
            i > 0 ==> f == bins_before(freq_h, stride, decoder@, i as nat),
            i == 0 ==> f == freq_h,
            samples == samples_before(time_samples, lengths_t@, decoder@.len(), i as nat),
            most == decoder_planes(
                batch,
                freq_h,
                freq_t,
                time_samples,
                lengths_t@,
                decoder@,
                tdecoder@,
                stride,
                i as nat,
            ),
            decoder_countable(
                batch,
                freq_h,
                freq_t,
                time_samples,
                lengths_t@,
                decoder@,
                tdecoder@,
                stride,
            ),
        decreases decoder@.len() - i,
    {
        proof {
            reveal(decoder_countable);
        }
        let layer = &decoder[i];
        let layer_t = &tdecoder[i];
        assert(layer_countable(
            batch,
            f as int,
            freq_t,
            samples,
            stride,
            decoder@[i as int],
            tdecoder@[i as int],
        ));
        let plane: usize = layer_plane_elems(batch, f, freq_t, samples, stride, layer, layer_t);
        most = encoder::larger_of(most, plane);
        let kh: usize = layer.conv_tr.kernel.0;
        proof {
            arith::lemma_mul_bounds(f - 1, stride as int);
        }
        f = (f - 1) * stride + kh - 2 * (kh / 4);
        if depth - 1 - i < lengths_t.len() {
            samples = lengths_t[depth - 1 - i];
        }
        i += 1;
    }
    most
}

/// Every pair of layers' patch matrices fit the decoders' scratch.
pub proof fn law_decoder_scratch_covers(
    batch: usize,
    f: usize,
    t: usize,
    samples: usize,
    lengths: Seq<usize>,
    decoder: Seq<GpuDec>,
    tdecoder: Seq<GpuDec>,
    stride: usize,
    n: nat,
    i: nat,
)
    requires
        i < n,
    ensures
        layer_plane(
            batch,
            bins_before(f, stride, decoder, i) as usize,
            t,
            samples_before(samples, lengths, decoder.len(), i),
            decoder[i as int],
            tdecoder[i as int],
        ) <= decoder_planes(batch, f, t, samples, lengths, decoder, tdecoder, stride, n),
    decreases n,
{
    if i < n - 1 {
        law_decoder_scratch_covers(
            batch,
            f,
            t,
            samples,
            lengths,
            decoder,
            tdecoder,
            stride,
            (n - 1) as nat,
            i,
        );
    }
}

// ------------------------------------------------------------ spectrogram layers

/// The upsampling of a `(f, t)` image along its first axis.
pub open spec fn freq_upsample(layer: GpuDec, batch: usize, f: usize, t: usize, stride: usize) -> Col2ImShape {
    Col2ImShape {
        batch,
        in_channels: layer.conv_tr.in_channels,
        out_channels: layer.conv_tr.out_channels,
        in_h: f,
        in_w: t,
        kernel: layer.conv_tr.kernel,
        stride: (stride, 1),
    }
}

/// Whether the scratch of an upsampling can be asked for.
pub open spec fn upsample_plannable(shape: Col2ImShape) -> bool {
    &&& shape.upsample_fits()
    &&& recorder::roundable((4 * (shape.batch * shape.k_pad() * shape.pitch())) as nat)
    &&& recorder::roundable((4 * (shape.batch * shape.m_pad() * shape.pitch())) as nat)
}

/// One upsampling with its two pieces of scratch.
#[verifier::opaque]
pub open spec fn upsample_stage_plan(
    k: Kernels,
    s: Plan,
    x: TensorView,
    conv: GpuConvT,
    out: TensorView,
    shape: Col2ImShape,
    prefix: Seq<char>,
    index: nat,
) -> Plan {
    let padded_len = shape.batch * shape.k_pad() * shape.pitch();
    let taps_len = shape.batch * shape.m_pad() * shape.pitch();
    let padded = s.fresh(seq![padded_len as usize]);
    let s1 = s.allocate(
        (4 * padded_len) as nat,
        prefix + ".padded."@ + text::decimal(index),
    );
    let taps = s1.fresh(seq![taps_len as usize]);
    let s2 = s1.allocate((4 * taps_len) as nat, prefix + ".taps."@ + text::decimal(index));
    k.conv_transpose2d_into_plan(
        s2,
        x,
        conv.weight@,
        Some(conv.bias@),
        padded,
        taps,
        out,
        shape,
    )
}

fn upsample_stage(
    k: &Kernels,
    pass: &mut Pass,
    x: &DevTensor,
    conv: &GpuConvT,
    out: &DevTensor,
    shape: Col2ImShape,
    prefix: &str,
    index: usize,
)
    requires
        x.wf(),
        conv.wf(),
        out.wf(),
        upsample_plannable(shape),
    ensures
        final(pass)@ == upsample_stage_plan(
            *k,
            old(pass)@,
            x@,
            *conv,
            out@,
            shape,
            prefix@,
            index as nat,
        ),
{
    proof {
        reveal(upsample_stage_plan);
    }
    let k_pad: usize = arith::pad_ceil(shape.in_channels, shaders::BK);
    let pitch: usize = arith::pad_ceil(shape.positions_in(), shaders::BN);
    let m_pad: usize = arith::pad_ceil(shape.m(), shaders::BM);
    let padded_len: usize = shape.batch * k_pad * pitch;
    let padded = pass.allocate(
        (padded_len * 4) as u64,
        text::concat_number(text::concat(prefix, ".padded.").as_str(), index).as_str(),
    );
    let taps_len: usize = shape.batch * m_pad * pitch;
    let taps = pass.allocate(
        (taps_len * 4) as u64,
        text::concat_number(text::concat(prefix, ".taps.").as_str(), index).as_str(),
    );
    pass.conv_transpose2d_into(k, x, &conv.weight, Some(&conv.bias), &padded, &taps, out, shape);
}

/// Whether a spectrogram layer can be planned.
pub open spec fn freq_layer_plannable(
    k: Kernels,
    layer: GpuDec,
    stride: usize,
    batch: usize,
    f: usize,
    t: usize,
) -> bool {
    let wide = layer.rewrite.out_channels;
    let half = (wide / 2) as usize;
    let oc = layer.conv_tr.out_channels;
    let kh = layer.conv_tr.kernel.0;
    let tall = (f - 1) * stride + kh;
    let kept = bins_after(f as int, stride as int, kh as int);
    let c = encoder::branched_channels(layer.dconv.layers@, half);
    &&& recorder::askable(seq![batch, wide, f, t])
    &&& stages::conv_plannable(k, layer.rewrite.shape_spec(batch, f, t), wide)
    &&& half * f <= usize::MAX
    &&& half * f * t <= usize::MAX
    &&& recorder::askable(seq![batch, (half * f * t) as usize])
    &&& recorder::askable(seq![batch, half, f, t])
    &&& batch * f <= usize::MAX
    &&& recorder::askable(seq![(batch * f) as usize, half, t])
    &&& stages::dconv_plannable(k, layer.dconv.layers@, (batch * f) as usize, t)
    &&& batch * f * c <= usize::MAX
    &&& batch * f * c * t <= usize::MAX
    &&& f >= 1
    &&& tall <= usize::MAX
    &&& recorder::askable(seq![batch, oc, tall as usize, t])
    &&& upsample_plannable(freq_upsample(layer, batch, f, t, stride))
    &&& recorder::askable(seq![batch, oc, kept as usize, t])
    &&& batch * oc <= usize::MAX
    &&& batch * oc * kept <= usize::MAX
    &&& batch * oc * kept * t <= usize::MAX
    &&& tall * t <= usize::MAX
    &&& tall * t * (batch * oc) <= usize::MAX
}

/// One spectrogram layer: the sum with what the encoder left, convolution, gate,
/// branch, upsampling, crop; the activation but in the last.
#[verifier::opaque]
pub open spec fn freq_layer_plan(
    k: Kernels,
    s: Plan,
    scratch: TensorView,
    x: TensorView,
    skip: TensorView,
    layer: GpuDec,
    stride: usize,
    batch: usize,
    index: nat,
    last: bool,
) -> (Plan, TensorView, TensorView) {
    let name = "decoder."@ + text::decimal(index);
    let f = x.shape[2];
    let t = x.shape[3];
    let wide = layer.rewrite.out_channels;
    let half = (wide / 2) as usize;
    let rows = (batch * f) as usize;
    let oc = layer.conv_tr.out_channels;
    let kh = layer.conv_tr.kernel.0;
    let tall = ((f - 1) * stride + kh) as usize;
    let kept = bins_after(f as int, stride as int, kh as int) as usize;
    let s1 = k.add_in_place_plan(s, x, skip);
    let rewritten = s1.fresh(seq![batch, wide, f, t]);
    let (s2, room1) = stages::conv_stage_plan(
        k,
        s1.tensor(seq![batch, wide, f, t], name + ".rewrite"@),
        scratch,
        x,
        layer.rewrite,
        rewritten,
    );
    let s3 = s2.trace(name + ".rewrite"@, rewritten);
    let gated = s3.fresh(seq![batch, (half * f * t) as usize]);
    let shape = seq![batch, half, f, t];
    let s4 = k.glu_plan(s3, rewritten, batch, (half * f * t) as usize).reshape(gated, shape);
    let permuted = s4.fresh(seq![rows, half, t]);
    let s5 = stages::channels_to_leading_freq_plan(
        k,
        s4.tensor(seq![rows, half, t], name + ".perm"@),
        recorder::reshaped(gated, shape),
        permuted,
    );
    let (s6, room2, branched) = stages::dconv_stage_plan(
        k,
        s5,
        room1,
        permuted,
        layer.dconv.layers@,
        rows,
        t,
        layer.dconv.layers@.len(),
    );
    let s7 = s6.trace(name + ".dconv"@, branched);
    let back = s7.fresh(shape);
    let s8 = stages::leading_freq_to_channels_plan(
        k,
        s7.tensor(shape, name + ".unperm"@),
        branched,
        back,
    );
    let up = s8.fresh(seq![batch, oc, tall, t]);
    let s9 = upsample_stage_plan(
        k,
        s8.tensor(seq![batch, oc, tall, t], name + ".up"@),
        back,
        layer.conv_tr,
        up,
        freq_upsample(layer, batch, f, t, stride),
        "dec"@,
        index,
    ).trace(name + ".conv_tr"@, up);
    let out = s9.fresh(seq![batch, oc, kept, t]);
    let s10 = k.crop_rows_into_plan(
        s9.tensor(seq![batch, oc, kept, t], name + ".crop"@),
        up,
        out,
        (batch * oc) as usize,
        (tall * t) as usize,
        kept,
        t,
        (kh / 4) as usize,
    );
    let s11 = if last {
        s10
    } else {
        k.gelu_in_place_plan(s10, out)
    };
    (s11.trace(name + "#0"@, out), room2, out)
}

fn freq_layer(
    k: &Kernels,
    pass: &mut Pass,
    scratch: &mut DevTensor,
    x: &DevTensor,
    skip: &DevTensor,
    layer: &GpuDec,
    stride: usize,
    batch: usize,
    index: usize,
    last: bool,
) -> (r: DevTensor)
    requires
        old(scratch).wf(),
        x.wf(),
        skip.wf(),
        layer.wf(),
        x.shape@.len() == 4,
        x.shape@[0] == batch,
        skip@.len() > 0 || x@.len() == 0,
        freq_layer_plannable(*k, *layer, stride, batch, x.shape@[2], x.shape@[3]),
    ensures
        final(scratch).wf(),
        (final(pass)@, final(scratch)@, r@) == freq_layer_plan(
            *k,
            old(pass)@,
            old(scratch)@,
            x@,
            skip@,
            *layer,
            stride,
            batch,
            index as nat,
            last,
        ),
        r.wf(),
        r@.shape == seq![
            batch,
            layer.conv_tr.out_channels,
            bins_after(x.shape@[2] as int, stride as int, layer.conv_tr.kernel.0 as int) as usize,
            x.shape@[3],
        ],
{
    proof {
        reveal(freq_layer_plan);
    }
    let name = text::concat_number("decoder.", index);
    let f: usize = x.shape[2];
    let t: usize = x.shape[3];
    let wide: usize = layer.rewrite.out_channels;
    let half: usize = wide / 2;
    let rows: usize = batch * f;
    let oc: usize = layer.conv_tr.out_channels;
    let kh: usize = layer.conv_tr.kernel.0;
    proof {
        arith::lemma_mul_bounds(f - 1, stride as int);
    }
    let tall: usize = (f - 1) * stride + kh;
    let pad: usize = kh / 4;
    let kept: usize = tall - 2 * pad;
    pass.add_in_place(k, x, skip);
    let rewritten = pass.tensor(
        encoder::axes_4(batch, wide, f, t),
        text::concat(name.as_str(), ".rewrite").as_str(),
    );
    stages::conv_stage(k, pass, scratch, x, &layer.rewrite, &rewritten);
    pass.trace(text::concat(name.as_str(), ".rewrite"), &rewritten);
    let gated = pass.glu(k, &rewritten, batch, half * f * t);
    let freq = pass.reshape(&gated, encoder::axes_4(batch, half, f, t));
    let permuted = pass.tensor(
        encoder::axes_3(rows, half, t),
        text::concat(name.as_str(), ".perm").as_str(),
    );
    stages::channels_to_leading_freq(k, pass, &freq, &permuted);
    let branched = stages::dconv_stage(k, pass, scratch, &permuted, &layer.dconv, rows, t);
    pass.trace(text::concat(name.as_str(), ".dconv"), &branched);
    let back = pass.tensor(
        encoder::axes_4(batch, half, f, t),
        text::concat(name.as_str(), ".unperm").as_str(),
    );
    stages::leading_freq_to_channels(k, pass, &branched, &back);
    let up = pass.tensor(
        encoder::axes_4(batch, oc, tall, t),
        text::concat(name.as_str(), ".up").as_str(),
    );
    let shape = Col2ImShape {
        batch,
        in_channels: layer.conv_tr.in_channels,
        out_channels: oc,
        in_h: f,
        in_w: t,
        kernel: layer.conv_tr.kernel,
        stride: (stride, 1),
    };
    upsample_stage(k, pass, &back, &layer.conv_tr, &up, shape, "dec", index);
    pass.trace(text::concat(name.as_str(), ".conv_tr"), &up);
    let out = pass.tensor(
        encoder::axes_4(batch, oc, kept, t),
        text::concat(name.as_str(), ".crop").as_str(),
    );
    pass.crop_rows_into(k, &up, &out, batch * oc, tall * t, kept, t, pad);
    if !last {
        pass.gelu_in_place(k, &out);
    }
    pass.trace(text::concat(name.as_str(), "#0"), &out);
    out
}

// --------------------------------------------------------------- waveform layers

/// The upsampling of a signal of `samples`.
pub open spec fn time_upsample(layer: GpuDec, batch: usize, samples: usize, stride: usize) -> Col2ImShape {
    Col2ImShape {
        batch,
        in_channels: layer.conv_tr.in_channels,
        out_channels: layer.conv_tr.out_channels,
        in_h: 1,
        in_w: samples,
        kernel: (1, layer.conv_tr.kernel.1),
        stride: (1, stride),
    }
}

/// Whether a waveform layer that crops to `length` can be planned.
pub open spec fn time_layer_plannable(
    k: Kernels,
    layer: GpuDec,
    stride: usize,
    batch: usize,
    samples: usize,
    length: usize,
) -> bool {
    let wide = layer.rewrite.out_channels;
    let half = (wide / 2) as usize;
    let oc = layer.conv_tr.out_channels;
    let kw = layer.conv_tr.kernel.1;
    let long = (samples - 1) * stride + kw;
    &&& recorder::askable(seq![batch, wide, samples])
    &&& stages::conv_plannable(k, layer.rewrite.shape_spec(batch, 1, samples), wide)
    &&& half * samples <= usize::MAX
    &&& recorder::askable(seq![batch, (half * samples) as usize])
    &&& recorder::askable(seq![batch, half, samples])
    &&& stages::dconv_plannable(k, layer.dconv.layers@, batch, samples)
    &&& samples >= 1
    &&& long <= usize::MAX
    &&& recorder::askable(seq![batch, oc, 1, long as usize])
    &&& upsample_plannable(time_upsample(layer, batch, samples, stride))
    &&& recorder::askable(seq![batch, oc, length])
    &&& batch * oc <= usize::MAX
    &&& batch * oc * length <= usize::MAX
    &&& long * (batch * oc) <= usize::MAX
}

/// One waveform layer, cropped to `length` samples.
#[verifier::opaque]
pub open spec fn time_layer_plan(
    k: Kernels,
    s: Plan,
    scratch: TensorView,
    x: TensorView,
    skip: TensorView,
    layer: GpuDec,
    stride: usize,
    batch: usize,
    length: usize,
    index: nat,
    last: bool,
) -> (Plan, TensorView, TensorView) {
    let name = "tdecoder."@ + text::decimal(index);
    let samples = x.shape[2];
    let wide = layer.rewrite.out_channels;
    let half = (wide / 2) as usize;
    let oc = layer.conv_tr.out_channels;
    let kw = layer.conv_tr.kernel.1;
    let long = ((samples - 1) * stride + kw) as usize;
    let s1 = k.add_in_place_plan(s, x, skip);
    let rewritten = s1.fresh(seq![batch, wide, samples]);
    let (s2, room1) = stages::conv_stage_plan(
        k,
        s1.tensor(seq![batch, wide, samples], name + ".rewrite"@),
        scratch,
        x,
        layer.rewrite,
        rewritten,
    );
    let gated = s2.fresh(seq![batch, (half * samples) as usize]);
    let shape = seq![batch, half, samples];
    let s3 = k.glu_plan(s2, rewritten, batch, (half * samples) as usize).reshape(gated, shape);
    let (s4, room2, branched) = stages::dconv_stage_plan(
        k,
        s3,
        room1,
        recorder::reshaped(gated, shape),
        layer.dconv.layers@,
        batch,
        samples,
        layer.dconv.layers@.len(),
    );
    let up = s4.fresh(seq![batch, oc, 1, long]);
    let s5 = upsample_stage_plan(
        k,
        s4.tensor(seq![batch, oc, 1, long], name + ".up"@),
        branched,
        layer.conv_tr,
        up,
        time_upsample(layer, batch, samples, stride),
        "tdec"@,
        index,
    );
    let out = s5.fresh(seq![batch, oc, length]);
    let s6 = k.crop_rows_into_plan(
        s5.tensor(seq![batch, oc, length], name + ".crop"@),
        up,
        out,
        (batch * oc) as usize,
        long,
        length,
        1,
        (kw / 4) as usize,
    );
    let s7 = if last {
        s6
    } else {
        k.gelu_in_place_plan(s6, out)
    };
    (s7.trace(name + "#0"@, out), room2, out)
}

fn time_layer(
    k: &Kernels,
    pass: &mut Pass,
    scratch: &mut DevTensor,
    x: &DevTensor,
    skip: &DevTensor,
    layer: &GpuDec,
    stride: usize,
    batch: usize,
    length: usize,
    index: usize,
    last: bool,
) -> (r: DevTensor)
    requires
        old(scratch).wf(),
        x.wf(),
        skip.wf(),
        layer.wf(),
        x.shape@.len() == 3,
        x.shape@[0] == batch,
        skip@.len() > 0 || x@.len() == 0,
        time_layer_plannable(*k, *layer, stride, batch, x.shape@[2], length),
    ensures
        final(scratch).wf(),
        (final(pass)@, final(scratch)@, r@) == time_layer_plan(
            *k,
            old(pass)@,
            old(scratch)@,
            x@,
            skip@,
            *layer,
            stride,
            batch,
            length,
            index as nat,
            last,
        ),
        r.wf(),
        r@.shape == seq![batch, layer.conv_tr.out_channels, length],
{
    proof {
        reveal(time_layer_plan);
    }
    let name = text::concat_number("tdecoder.", index);
    let samples: usize = x.shape[2];
    let wide: usize = layer.rewrite.out_channels;
    let half: usize = wide / 2;
    let oc: usize = layer.conv_tr.out_channels;
    let kw: usize = layer.conv_tr.kernel.1;
    proof {
        arith::lemma_mul_bounds(samples - 1, stride as int);
        assert(batch * oc * length * 1 == batch * oc * length);
    }
    let long: usize = (samples - 1) * stride + kw;
    pass.add_in_place(k, x, skip);
    let rewritten = pass.tensor(
        encoder::axes_3(batch, wide, samples),
        text::concat(name.as_str(), ".rewrite").as_str(),
    );
    stages::conv_stage(k, pass, scratch, x, &layer.rewrite, &rewritten);
    let gated = pass.glu(k, &rewritten, batch, half * samples);
    let shaped = pass.reshape(&gated, encoder::axes_3(batch, half, samples));
    let branched = stages::dconv_stage(k, pass, scratch, &shaped, &layer.dconv, batch, samples);
    let up = pass.tensor(
        encoder::axes_4(batch, oc, 1, long),
        text::concat(name.as_str(), ".up").as_str(),
    );
    let shape = Col2ImShape {
        batch,
        in_channels: layer.conv_tr.in_channels,
        out_channels: oc,
        in_h: 1,
        in_w: samples,
        kernel: (1, kw),
        stride: (1, stride),
    };
    upsample_stage(k, pass, &branched, &layer.conv_tr, &up, shape, "tdec", index);
    let out = pass.tensor(
        encoder::axes_3(batch, oc, length),
        text::concat(name.as_str(), ".crop").as_str(),
    );
    pass.crop_rows_into(k, &up, &out, batch * oc, long, length, 1, kw / 4);
    if !last {
        pass.gelu_in_place(k, &out);
    }
    pass.trace(text::concat(name.as_str(), "#0"), &out);
    out
}

// ------------------------------------------------------------------------ stacks

/// What the encoders leave for the decoders.
#[verifier::ext_equal]
pub struct SavedView {
    pub freq: Seq<TensorView>,
    pub time: Seq<TensorView>,
    pub lengths: Seq<usize>,
}

/// The shapes of what the encoders leave for the decoders.
#[verifier::ext_equal]
pub struct SavedShapes {
    pub freq: Seq<Seq<usize>>,
    pub time: Seq<Seq<usize>>,
    pub lengths: Seq<usize>,
}

impl SavedView {
    pub open spec fn shapes(self) -> SavedShapes {
        SavedShapes {
            freq: Seq::new(self.freq.len(), |i: int| self.freq[i].shape),
            time: Seq::new(self.time.len(), |i: int| self.time[i].shape),
            lengths: self.lengths,
        }
    }
}

/// The first `n` pairs of layers: the pass, the scratch, and both branches. Layer
/// `i` takes what the encoders' layer `i` from the end left.
#[verifier::opaque]
pub open spec fn layers_plan(
    k: Kernels,
    s: Plan,
    scratch: TensorView,
    x: TensorView,
    xt: TensorView,
    saved: SavedView,
    decoder: Seq<GpuDec>,
    tdecoder: Seq<GpuDec>,
    stride: usize,
    batch: usize,
    depth: nat,
    n: nat,
) -> (Plan, TensorView, TensorView, TensorView)
    decreases n,
{
    if n == 0 {
        (s, scratch, x, xt)
    } else {
        let i = (n - 1) as nat;
        let (before, room, y, yt) = layers_plan(
            k,
            s,
            scratch,
            x,
            xt,
            saved,
            decoder,
            tdecoder,
            stride,
            batch,
            depth,
            i,
        );
        let (s1, room1, z) = freq_layer_plan(
            k,
            before,
            room,
            y,
            saved.freq[saved.freq.len() - n],
            decoder[i as int],
            stride,
            batch,
            i,
            n == depth,
        );
        let (s2, room2, zt) = time_layer_plan(
            k,
            s1,
            room1,
            yt,
            saved.time[saved.time.len() - n],
            tdecoder[i as int],
            stride,
            batch,
            saved.lengths[saved.lengths.len() - n],
            i,
            n == depth,
        );
        (s2, room2, z, zt)
    }
}

/// The shape of the spectrogram in front of layer `n`.
pub open spec fn freq_shape_before(x: Seq<usize>, decoder: Seq<GpuDec>, stride: usize, n: nat) -> Seq<usize> {
    if n == 0 {
        x
    } else {
        seq![
            x[0],
            decoder[n - 1].conv_tr.out_channels,
            bins_before(x[2], stride, decoder, n) as usize,
            x[3],
        ]
    }
}

/// The shape of the waveform in front of layer `n`.
pub open spec fn time_shape_before(
    xt: Seq<usize>,
    tdecoder: Seq<GpuDec>,
    lengths: Seq<usize>,
    n: nat,
) -> Seq<usize> {
    if n == 0 {
        xt
    } else {
        seq![xt[0], tdecoder[n - 1].conv_tr.out_channels, lengths[lengths.len() - n]]
    }
}

/// Whether layer `i` of both decoders can be planned.
pub open spec fn pair_plannable(
    k: Kernels,
    x: Seq<usize>,
    xt: Seq<usize>,
    saved: SavedShapes,
    decoder: Seq<GpuDec>,
    tdecoder: Seq<GpuDec>,
    stride: usize,
    i: int,
) -> bool {
    let shape = freq_shape_before(x, decoder, stride, i as nat);
    let shape_t = time_shape_before(xt, tdecoder, saved.lengths, i as nat);
    let skip = saved.freq[saved.freq.len() - 1 - i];
    let skip_t = saved.time[saved.time.len() - 1 - i];
    &&& 1 <= bins_before(x[2], stride, decoder, i as nat) <= usize::MAX
    &&& freq_layer_plannable(k, decoder[i], stride, x[0], shape[2], shape[3])
    &&& tensor::elements(skip) > 0 || tensor::elements(shape) == 0
    &&& time_layer_plannable(
        k,
        tdecoder[i],
        stride,
        x[0],
        shape_t[2],
        saved.lengths[saved.lengths.len() - 1 - i],
    )
    &&& tensor::elements(skip_t) > 0 || tensor::elements(shape_t) == 0
}

/// Whether the first `depth` layers of both decoders can be planned.
pub open spec fn layers_plannable(
    k: Kernels,
    x: Seq<usize>,
    xt: Seq<usize>,
    saved: SavedShapes,
    decoder: Seq<GpuDec>,
    tdecoder: Seq<GpuDec>,
    stride: usize,
    depth: int,
) -> bool {
    &&& x.len() == 4
    &&& xt.len() == 3
    &&& xt[0] == x[0]
    &&& depth <= decoder.len()
    &&& depth <= tdecoder.len()
    &&& depth <= saved.freq.len()
    &&& depth <= saved.time.len()
    &&& depth <= saved.lengths.len()
    &&& forall|i: int|
        0 <= i < depth ==> #[trigger] pair_plannable(
            k,
            x,
            xt,
            saved,
            decoder,
            tdecoder,
            stride,
            i,
        )
}

pub fn layers(
    k: &Kernels,
    pass: &mut Pass,
    scratch: &mut DevTensor,
    x: DevTensor,
    xt: DevTensor,
    saved_freq: &Vec<DevTensor>,
    saved_t: &Vec<DevTensor>,
    lengths: &Vec<usize>,
    decoder: &Vec<GpuDec>,
    tdecoder: &Vec<GpuDec>,
    stride: usize,
    depth: usize,
) -> (r: (DevTensor, DevTensor))
    requires
        old(scratch).wf(),
        x.wf(),
        xt.wf(),
        forall|i: int| 0 <= i < saved_freq@.len() ==> (#[trigger] saved_freq@[i]).wf(),
        forall|i: int| 0 <= i < saved_t@.len() ==> (#[trigger] saved_t@[i]).wf(),
        forall|i: int| 0 <= i < decoder@.len() ==> (#[trigger] decoder@[i]).wf(),
        forall|i: int| 0 <= i < tdecoder@.len() ==> (#[trigger] tdecoder@[i]).wf(),
        layers_plannable(
            *k,
            x@.shape,
            xt@.shape,
            (SavedView {
                freq: encoder::views(saved_freq@),
                time: encoder::views(saved_t@),
                lengths: lengths@,
            }).shapes(),
            decoder@,
            tdecoder@,
            stride,
            depth as int,
        ),
    ensures
        final(scratch).wf(),
        (final(pass)@, final(scratch)@, r.0@, r.1@) == layers_plan(
            *k,
            old(pass)@,
            old(scratch)@,
            x@,
            xt@,
            (SavedView {
                freq: encoder::views(saved_freq@),
                time: encoder::views(saved_t@),
                lengths: lengths@,
            }),
            decoder@,
            tdecoder@,
            stride,
            x@.shape[0],
            depth as nat,
            depth as nat,
        ),
        r.0.wf(),
        r.1.wf(),
{
    proof {
        reveal(layers_plan);
    }
    let ghost saved = SavedView {
        freq: encoder::views(saved_freq@),
        time: encoder::views(saved_t@),
        lengths: lengths@,
    };
    let ghost first = x@;
    let ghost first_t = xt@;
    let batch: usize = x.shape[0];
    let mut y = x;
    let mut yt = xt;
    let mut i: usize = 0;
    while i < depth
        invariant
            i <= depth,
            scratch.wf(),
            y.wf(),
            yt.wf(),
            forall|j: int| 0 <= j < saved_freq@.len() ==> (#[trigger] saved_freq@[j]).wf(),
            forall|j: int| 0 <= j < saved_t@.len() ==> (#[trigger] saved_t@[j]).wf(),
            forall|j: int| 0 <= j < decoder@.len() ==> (#[trigger] decoder@[j]).wf(),
            forall|j: int| 0 <= j < tdecoder@.len() ==> (#[trigger] tdecoder@[j]).wf(),
            saved.freq == encoder::views(saved_freq@),
            saved.time == encoder::views(saved_t@),
            saved.lengths == lengths@,
            batch == first.shape[0],
            y@.shape == freq_shape_before(first.shape, decoder@, stride, i as nat),
            yt@.shape == time_shape_before(first_t.shape, tdecoder@, lengths@, i as nat),
            layers_plannable(
                *k,
                first.shape,
                first_t.shape,
                saved.shapes(),
                decoder@,
                tdecoder@,
                stride,
                depth as int,
            ),
            (pass@, scratch@, y@, yt@) == layers_plan(
                *k,
                old(pass)@,
                old(scratch)@,
                first,
                first_t,
                saved,
                decoder@,
                tdecoder@,
                stride,
                batch,
                depth as nat,
                i as nat,
            ),
        decreases depth - i,
    {
        proof {
            reveal(layers_plan);
        }
        let ghost at = i as int;
        assert(pair_plannable(
            *k,
            first.shape,
            first_t.shape,
            saved.shapes(),
            decoder@,
            tdecoder@,
            stride,
            at,
        ));
        let last = i == depth - 1;
        let skip = &saved_freq[saved_freq.len() - 1 - i];
        let skip_t = &saved_t[saved_t.len() - 1 - i];
        let length: usize = lengths[lengths.len() - 1 - i];
        assert(skip@ == saved.freq[saved.freq.len() - 1 - i]);
        assert(skip_t@ == saved.time[saved.time.len() - 1 - i]);
        y = freq_layer(k, pass, scratch, &y, skip, &decoder[i], stride, batch, i, last);
        yt = time_layer(
            k,
            pass,
            scratch,
            &yt,
            skip_t,
            &tdecoder[i],
            stride,
            batch,
            length,
            i,
            last,
        );
        i += 1;
    }
    (y, yt)
}

} // verus!
