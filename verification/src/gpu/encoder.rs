//! The two encoders, and the scratch their gathers share with the decoders'.

use vstd::prelude::*;
use vstd::string::*;

use crate::gpu::arith;
use crate::gpu::kernels::Kernels;
use crate::gpu::pass::Pass;
use crate::gpu::recorder;
use crate::gpu::recorder::Plan;
use crate::gpu::shaders;
use crate::gpu::stages;
use crate::gpu::stages::{GpuConv, GpuDConv, GpuDConvLayer};
use crate::gpu::tensor;
use crate::gpu::tensor::{DevTensor, TensorView};
use crate::text;

verus! {

/// One layer of an encoder.
#[derive(Debug)]
pub struct GpuEnc {
    pub conv: GpuConv,
    pub rewrite: GpuConv,
    pub dconv: GpuDConv,
}

impl GpuEnc {
    pub open spec fn wf(&self) -> bool {
        self.conv.wf() && self.rewrite.wf() && self.dconv.wf()
    }
}

/// The descriptions of a list of tensors.
pub open spec fn views(list: Seq<DevTensor>) -> Seq<TensorView> {
    Seq::new(list.len(), |i: int| list[i]@)
}

pub open spec fn larger(a: int, b: int) -> int {
    if a < b {
        b
    } else {
        a
    }
}

pub fn larger_of(a: usize, b: usize) -> (r: usize)
    ensures
        r == larger(a as int, b as int),
{
    if a < b {
        b
    } else {
        a
    }
}

// ------------------------------------------------------------------ plane sizes

/// Elements of the patch matrix of `conv` on a `(batch, c, h, w)` input.
pub fn conv_plane_elems(batch: usize, h: usize, w: usize, conv: &GpuConv) -> (r: usize)
    requires
        conv.shape_spec(batch, h, w).patches_fit(),
    ensures
        r == conv.shape_spec(batch, h, w).patch_len(),
{
    let shape = conv.shape(batch, h, w);
    batch * arith::pad_ceil(shape.k(), shaders::BK) * arith::pad_ceil(shape.positions(), shaders::BN)
}

/// The largest patch matrix of the first `n` layers of a branch.
pub open spec fn dconv_plane(rows: usize, time: usize, layers: Seq<GpuDConvLayer>, n: nat) -> int
    decreases n,
{
    if n == 0 {
        0
    } else {
        larger(
            dconv_plane(rows, time, layers, (n - 1) as nat),
            stages::branch_plane(layers[n - 1].conv1, rows, time),
        )
    }
}

/// Whether the patch matrices of a branch can be counted.
pub open spec fn dconv_countable(rows: usize, time: usize, layers: Seq<GpuDConvLayer>) -> bool {
    &&& stages::branch_pitch(time) <= usize::MAX
    &&& forall|i: int|
        0 <= i < layers.len() ==> branch_countable(rows, time, (#[trigger] layers[i]).conv1)
}

/// Whether the patch matrix of one layer of a branch can be counted.
pub open spec fn branch_countable(rows: usize, time: usize, conv: GpuConv) -> bool {
    let shape = stages::branch_shape(conv, rows, time);
    &&& shape.in_channels * shape.kernel.0 <= usize::MAX
    &&& shape.k_spec() <= usize::MAX
    &&& shape.k_pad() <= usize::MAX
    &&& rows * shape.k_pad() <= usize::MAX
    &&& stages::branch_plane(conv, rows, time) <= usize::MAX
}

/// The largest patch matrix of a branch.
pub fn dconv_plane_elems(rows: usize, time: usize, dconv: &GpuDConv) -> (r: usize)
    requires
        dconv_countable(rows, time, dconv.layers@),
    ensures
        r == dconv_plane(rows, time, dconv.layers@, dconv.layers@.len()),
{
    let mut most: usize = 0;
    let mut i: usize = 0;
    while i < dconv.layers.len()
        invariant
            i <= dconv.layers@.len(),
            dconv_countable(rows, time, dconv.layers@),
            most == dconv_plane(rows, time, dconv.layers@, i as nat),
        decreases dconv.layers@.len() - i,
    {
        let conv = &dconv.layers[i].conv1;
        assert(branch_countable(rows, time, dconv.layers@[i as int].conv1));
        let k: usize = conv.in_channels * conv.kernel.0 * conv.kernel.1;
        let plane: usize = rows * arith::pad_ceil(k, shaders::BK) * arith::pad_ceil(
            time,
            shaders::BN,
        );
        most = larger_of(most, plane);
        i += 1;
    }
    most
}

/// Every layer's patch matrix fits the largest.
pub proof fn law_branch_scratch_covers(
    rows: usize,
    time: usize,
    layers: Seq<GpuDConvLayer>,
    n: nat,
    i: int,
)
    requires
        0 <= i < n,
    ensures
        stages::branch_plane(layers[i].conv1, rows, time) <= dconv_plane(rows, time, layers, n),
    decreases n,
{
    if i < n - 1 {
        law_branch_scratch_covers(rows, time, layers, (n - 1) as nat, i);
    }
}

/// Bins left after `n` layers, each of which keeps a quarter.
pub open spec fn bins_at(bins: usize, n: nat) -> usize
    decreases n,
{
    if n == 0 {
        bins
    } else {
        bins_at(bins, (n - 1) as nat) / 4
    }
}

/// A length rounded up to a multiple of four.
pub open spec fn in_fours(length: int) -> int {
    if length % 4 != 0 {
        length + 4 - length % 4
    } else {
        length
    }
}

pub(crate) fn in_fours_of(length: usize) -> (r: usize)
    requires
        length + 4 <= usize::MAX,
    ensures
        r == in_fours(length as int),
        r >= length,
        r % 4 == 0,
{
    if length % 4 != 0 {
        length + 4 - length % 4
    } else {
        length
    }
}

/// The waveform's length in front of layer `n`, by the layers' own geometry.
pub open spec fn samples_at(batch: usize, samples: usize, layers: Seq<GpuEnc>, n: nat) -> int
    decreases n,
{
    if n == 0 {
        samples as int
    } else {
        let before = samples_at(batch, samples, layers, (n - 1) as nat);
        layers[n - 1].conv.shape_spec(batch, 1, in_fours(before) as usize).out_w()
    }
}

/// The largest patch matrix of one spectrogram layer on `bins` bins.
pub open spec fn freq_layer_plane(batch: usize, bins: usize, frames: usize, layer: GpuEnc) -> int {
    let kept = (bins / 4) as usize;
    larger(
        larger(
            layer.conv.shape_spec(batch, bins, frames).patch_len(),
            dconv_plane(
                (batch * kept) as usize,
                frames,
                layer.dconv.layers@,
                layer.dconv.layers@.len(),
            ),
        ),
        layer.rewrite.shape_spec(batch, kept, frames).patch_len(),
    )
}

/// Whether those can be counted.
pub open spec fn freq_layer_countable(
    batch: usize,
    bins: usize,
    frames: usize,
    layer: GpuEnc,
) -> bool {
    let kept = (bins / 4) as usize;
    &&& layer.conv.shape_spec(batch, bins, frames).patches_fit()
    &&& batch * kept <= usize::MAX
    &&& dconv_countable((batch * kept) as usize, frames, layer.dconv.layers@)
    &&& layer.rewrite.shape_spec(batch, kept, frames).patches_fit()
}

/// The largest patch matrix of one waveform layer on `samples` samples.
pub open spec fn time_layer_plane(batch: usize, samples: usize, layer: GpuEnc) -> int {
    let wide = in_fours(samples as int) as usize;
    let kept = layer.conv.shape_spec(batch, 1, wide).out_w() as usize;
    larger(
        larger(
            layer.conv.shape_spec(batch, 1, wide).patch_len(),
            dconv_plane(batch, kept, layer.dconv.layers@, layer.dconv.layers@.len()),
        ),
        layer.rewrite.shape_spec(batch, 1, kept).patch_len(),
    )
}

/// Whether those can be counted.
pub open spec fn time_layer_countable(batch: usize, samples: int, layer: GpuEnc) -> bool {
    let wide = in_fours(samples) as usize;
    let kept = layer.conv.shape_spec(batch, 1, wide).out_w() as usize;
    &&& 0 <= samples
    &&& samples + 4 <= usize::MAX
    &&& layer.conv.shape_spec(batch, 1, wide).patches_fit()
    &&& dconv_countable(batch, kept, layer.dconv.layers@)
    &&& layer.rewrite.shape_spec(batch, 1, kept).patches_fit()
}

/// The largest patch matrix of the first `n` spectrogram layers.
pub open spec fn freq_planes(
    batch: usize,
    bins: usize,
    frames: usize,
    layers: Seq<GpuEnc>,
    n: nat,
) -> int
    decreases n,
{
    if n == 0 {
        0
    } else {
        larger(
            freq_planes(batch, bins, frames, layers, (n - 1) as nat),
            freq_layer_plane(batch, bins_at(bins, (n - 1) as nat), frames, layers[n - 1]),
        )
    }
}

/// The largest patch matrix of the first `n` waveform layers.
pub open spec fn time_planes(batch: usize, samples: usize, layers: Seq<GpuEnc>, n: nat) -> int
    decreases n,
{
    if n == 0 {
        0
    } else {
        larger(
            time_planes(batch, samples, layers, (n - 1) as nat),
            time_layer_plane(
                batch,
                samples_at(batch, samples, layers, (n - 1) as nat) as usize,
                layers[n - 1],
            ),
        )
    }
}

/// The largest patch matrix of both encoders.
pub open spec fn encoder_scratch(
    batch: usize,
    bins: usize,
    frames: usize,
    samples: usize,
    encoder: Seq<GpuEnc>,
    tencoder: Seq<GpuEnc>,
) -> int {
    larger(
        freq_planes(batch, bins, frames, encoder, encoder.len()),
        time_planes(batch, samples, tencoder, tencoder.len()),
    )
}

/// Whether those can be counted.
#[verifier::opaque]
pub open spec fn encoder_countable(
    batch: usize,
    bins: usize,
    frames: usize,
    samples: usize,
    encoder: Seq<GpuEnc>,
    tencoder: Seq<GpuEnc>,
) -> bool {
    &&& forall|i: int|
        0 <= i < encoder.len() ==> freq_layer_countable(
            batch,
            bins_at(bins, i as nat),
            frames,
            #[trigger] encoder[i],
        )
    &&& forall|i: int|
        0 <= i < tencoder.len() ==> time_layer_countable(
            batch,
            samples_at(batch, samples, tencoder, i as nat),
            #[trigger] tencoder[i],
        )
}

/// The largest patch matrix the encoders will ask the scratch to hold.
pub fn encoder_scratch_elems(
    batch: usize,
    bins: usize,
    frames: usize,
    samples: usize,
    encoder: &Vec<GpuEnc>,
    tencoder: &Vec<GpuEnc>,
) -> (r: usize)
    requires
        encoder_countable(batch, bins, frames, samples, encoder@, tencoder@),
    ensures
        r == encoder_scratch(batch, bins, frames, samples, encoder@, tencoder@),
{
    let mut most: usize = 0;
    let mut freq: usize = bins;
    let mut i: usize = 0;
    while i < encoder.len()
        invariant
            i <= encoder@.len(),
            freq == bins_at(bins, i as nat),
            most == freq_planes(batch, bins, frames, encoder@, i as nat),
            encoder_countable(batch, bins, frames, samples, encoder@, tencoder@),
        decreases encoder@.len() - i,
    {
        proof {
            reveal(encoder_countable);
        }
        let layer = &encoder[i];
        assert(freq_layer_countable(batch, freq, frames, encoder@[i as int]));
        let kept: usize = freq / 4;
        let first: usize = conv_plane_elems(batch, freq, frames, &layer.conv);
        let branch: usize = dconv_plane_elems(batch * kept, frames, &layer.dconv);
        let second: usize = conv_plane_elems(batch, kept, frames, &layer.rewrite);
        most = larger_of(most, larger_of(larger_of(first, branch), second));
        freq = kept;
        i += 1;
    }
    let freq_most: usize = most;
    let mut most_t: usize = 0;
    let mut time: usize = samples;
    let mut j: usize = 0;
    while j < tencoder.len()
        invariant
            j <= tencoder@.len(),
            time == samples_at(batch, samples, tencoder@, j as nat),
            most_t == time_planes(batch, samples, tencoder@, j as nat),
            encoder_countable(batch, bins, frames, samples, encoder@, tencoder@),
        decreases tencoder@.len() - j,
    {
        proof {
            reveal(encoder_countable);
        }
        let layer = &tencoder[j];
        assert(time_layer_countable(batch, time as int, tencoder@[j as int]));
        let wide: usize = in_fours_of(time);
        let first: usize = conv_plane_elems(batch, 1, wide, &layer.conv);
        let (_, kept) = layer.conv.shape(batch, 1, wide).out_hw();
        let branch: usize = dconv_plane_elems(batch, kept, &layer.dconv);
        let second: usize = conv_plane_elems(batch, 1, kept, &layer.rewrite);
        most_t = larger_of(most_t, larger_of(larger_of(first, branch), second));
        time = kept;
        j += 1;
    }
    larger_of(freq_most, most_t)
}

/// Every spectrogram layer's patch matrices fit the encoders' scratch.
pub proof fn law_freq_scratch_covers(
    batch: usize,
    bins: usize,
    frames: usize,
    layers: Seq<GpuEnc>,
    n: nat,
    i: nat,
)
    requires
        i < n,
    ensures
        freq_layer_plane(batch, bins_at(bins, i), frames, layers[i as int]) <= freq_planes(
            batch,
            bins,
            frames,
            layers,
            n,
        ),
    decreases n,
{
    if i < n - 1 {
        law_freq_scratch_covers(batch, bins, frames, layers, (n - 1) as nat, i);
    }
}

/// Every waveform layer's patch matrices fit the encoders' scratch.
pub proof fn law_time_scratch_covers(
    batch: usize,
    samples: usize,
    layers: Seq<GpuEnc>,
    n: nat,
    i: nat,
)
    requires
        i < n,
    ensures
        time_layer_plane(
            batch,
            samples_at(batch, samples, layers, i) as usize,
            layers[i as int],
        ) <= time_planes(batch, samples, layers, n),
    decreases n,
{
    if i < n - 1 {
        law_time_scratch_covers(batch, samples, layers, (n - 1) as nat, i);
    }
}

/// The lengths in front of the first `n` waveform layers.
pub open spec fn lengths_before(
    batch: usize,
    samples: usize,
    layers: Seq<GpuEnc>,
    n: nat,
) -> Seq<usize> {
    Seq::new(n, |i: int| samples_at(batch, samples, layers, i as nat) as usize)
}

/// The bottleneck's bins, frames and samples, and the length in front of every
/// waveform layer, which the decoders crop back to.
pub fn bottleneck_shapes(
    batch: usize,
    bins: usize,
    frames: usize,
    samples: usize,
    encoder: &Vec<GpuEnc>,
    tencoder: &Vec<GpuEnc>,
) -> (r: (usize, usize, usize, Vec<usize>))
    requires
        encoder_countable(batch, bins, frames, samples, encoder@, tencoder@),
    ensures
        r.0 == bins_at(bins, encoder@.len()),
        r.1 == frames,
        r.2 == samples_at(batch, samples, tencoder@, tencoder@.len()),
        r.3@ == lengths_before(batch, samples, tencoder@, tencoder@.len()),
{
    let mut kept: usize = bins;
    let mut i: usize = 0;
    while i < encoder.len()
        invariant
            i <= encoder@.len(),
            kept == bins_at(bins, i as nat),
        decreases encoder@.len() - i,
    {
        proof {
            reveal(encoder_countable);
        }
        kept = kept / 4;
        i += 1;
    }
    let mut time: usize = samples;
    let mut lengths: Vec<usize> = Vec::new();
    let mut j: usize = 0;
    while j < tencoder.len()
        invariant
            j <= tencoder@.len(),
            time == samples_at(batch, samples, tencoder@, j as nat),
            lengths@ == lengths_before(batch, samples, tencoder@, j as nat),
            encoder_countable(batch, bins, frames, samples, encoder@, tencoder@),
        decreases tencoder@.len() - j,
    {
        proof {
            reveal(encoder_countable);
        }
        lengths.push(time);
        assert(time_layer_countable(batch, time as int, tencoder@[j as int]));
        let (_, next) = tencoder[j].conv.shape(batch, 1, in_fours_of(time)).out_hw();
        time = next;
        j += 1;
        assert(lengths@ =~= lengths_before(batch, samples, tencoder@, j as nat));
    }
    (kept, frames, time, lengths)
}

/// Each layer keeps a quarter of the bins, so `n` of them keep one in `4^n`.
pub proof fn law_bins_are_quartered(bins: usize, n: nat)
    ensures
        bins_at(bins, n) == bins as int / vstd::arithmetic::power::pow(4, n),
    decreases n,
{
    vstd::arithmetic::power::lemma_pow_positive(4, n);
    if n == 0 {
        vstd::arithmetic::power::lemma_pow0(4);
    } else {
        let m = (n - 1) as nat;
        law_bins_are_quartered(bins, m);
        vstd::arithmetic::power::lemma_pow_positive(4, m);
        vstd::arithmetic::power::lemma_pow_adds(4, m, 1);
        vstd::arithmetic::power::lemma_pow1(4);
        vstd::arithmetic::div_mod::lemma_div_denominator(
            bins as int,
            vstd::arithmetic::power::pow(4, m),
            4,
        );
    }
}

// ------------------------------------------------------------ spectrogram layers

/// Channels a branch leaves: its last layer's, or what went in.
pub open spec fn branched_channels(layers: Seq<GpuDConvLayer>, channels: usize) -> usize {
    if layers.len() == 0 {
        channels
    } else {
        layers.last().channels
    }
}

/// Whether a spectrogram layer can be planned.
pub open spec fn freq_layer_plannable(
    k: Kernels,
    layer: GpuEnc,
    batch: usize,
    bins: usize,
    frames: usize,
) -> bool {
    let kept = (bins / 4) as usize;
    let oc = layer.conv.out_channels;
    let wide = layer.rewrite.out_channels;
    let half = (wide / 2) as usize;
    let c = branched_channels(layer.dconv.layers@, oc);
    &&& stages::conv_plannable(k, layer.conv.shape_spec(batch, bins, frames), oc)
    &&& recorder::askable(seq![batch, oc, kept, frames])
    &&& batch * kept <= usize::MAX
    &&& recorder::askable(seq![(batch * kept) as usize, oc, frames])
    &&& stages::dconv_plannable(k, layer.dconv.layers@, (batch * kept) as usize, frames)
    &&& batch * kept * c <= usize::MAX
    &&& batch * kept * c * frames <= usize::MAX
    &&& stages::conv_plannable(k, layer.rewrite.shape_spec(batch, kept, frames), wide)
    &&& recorder::askable(seq![batch, wide, kept, frames])
    &&& half * kept <= usize::MAX
    &&& half * kept * frames <= usize::MAX
    &&& recorder::askable(seq![batch, (half * kept * frames) as usize])
    &&& recorder::askable(seq![batch, half, kept, frames])
    &&& batch * half <= usize::MAX
    &&& batch * half * kept <= usize::MAX
    &&& batch * half * kept * frames <= usize::MAX
}

/// One spectrogram layer: convolution, branch along time for every band, 1x1
/// convolution, gate. The first also adds the frequency embedding.
#[verifier::opaque]
pub open spec fn freq_layer_plan(
    k: Kernels,
    s: Plan,
    scratch: TensorView,
    x: TensorView,
    layer: GpuEnc,
    embedding: TensorView,
    batch: usize,
    frames: usize,
    index: nat,
) -> (Plan, TensorView, TensorView) {
    let name = "encoder."@ + text::decimal(index);
    let kept = (x.shape[2] / 4) as usize;
    let oc = layer.conv.out_channels;
    let wide = layer.rewrite.out_channels;
    let half = (wide / 2) as usize;
    let rows = (batch * kept) as usize;
    let convolved = s.fresh(seq![batch, oc, kept, frames]);
    let (s1, room1) = stages::conv_stage_plan(
        k,
        s.tensor(seq![batch, oc, kept, frames], name + ".conv"@),
        scratch,
        x,
        layer.conv,
        convolved,
    );
    let s2 = k.gelu_in_place_plan(s1.trace(name + ".conv"@, convolved), convolved);
    let permuted = s2.fresh(seq![rows, oc, frames]);
    let s3 = stages::channels_to_leading_freq_plan(
        k,
        s2.tensor(seq![rows, oc, frames], name + ".perm"@),
        convolved,
        permuted,
    ).trace(name + ".pre_emb"@, permuted);
    let (s4, room2, branched) = stages::dconv_stage_plan(
        k,
        s3,
        room1,
        permuted,
        layer.dconv.layers@,
        rows,
        frames,
        layer.dconv.layers@.len(),
    );
    let s5 = s4.trace(name + ".dconv"@, branched);
    let back = s5.fresh(seq![batch, oc, kept, frames]);
    let s6 = stages::leading_freq_to_channels_plan(
        k,
        s5.tensor(seq![batch, oc, kept, frames], name + ".unperm"@),
        branched,
        back,
    );
    let rewritten = s6.fresh(seq![batch, wide, kept, frames]);
    let (s7, room3) = stages::conv_stage_plan(
        k,
        s6.tensor(seq![batch, wide, kept, frames], name + ".rewrite"@),
        room2,
        back,
        layer.rewrite,
        rewritten,
    );
    let s8 = s7.trace(name + ".rewrite"@, rewritten);
    let gated = s8.fresh(seq![batch, (half * kept * frames) as usize]);
    let shape = seq![batch, half, kept, frames];
    let s9 = k.glu_plan(s8, rewritten, batch, (half * kept * frames) as usize).reshape(
        gated,
        shape,
    );
    let out = recorder::reshaped(gated, shape);
    let s10 = if index == 0 {
        k.add_row_bias_in_place_plan(
            s9,
            out,
            embedding,
            (batch * half * kept) as usize,
            frames,
            (half * kept) as usize,
        )
    } else {
        s9
    };
    (s10.trace(name, out), room3, out)
}

fn freq_layer(
    k: &Kernels,
    pass: &mut Pass,
    scratch: &mut DevTensor,
    x: &DevTensor,
    layer: &GpuEnc,
    embedding: &DevTensor,
    batch: usize,
    frames: usize,
    index: usize,
) -> (r: DevTensor)
    requires
        old(scratch).wf(),
        x.wf(),
        layer.wf(),
        embedding.wf(),
        x.shape@.len() == 4,
        x.shape@[0] == batch,
        x.shape@[3] == frames,
        freq_layer_plannable(*k, *layer, batch, x.shape@[2], frames),
    ensures
        final(scratch).wf(),
        (final(pass)@, final(scratch)@, r@) == freq_layer_plan(
            *k,
            old(pass)@,
            old(scratch)@,
            x@,
            *layer,
            embedding@,
            batch,
            frames,
            index as nat,
        ),
        r.wf(),
        r@.shape == seq![
            batch,
            (layer.rewrite.out_channels / 2) as usize,
            (x.shape@[2] / 4) as usize,
            frames,
        ],
{
    proof {
        reveal(freq_layer_plan);
    }
    let name = text::concat_number("encoder.", index);
    let kept: usize = x.shape[2] / 4;
    let oc: usize = layer.conv.out_channels;
    let wide: usize = layer.rewrite.out_channels;
    let half: usize = wide / 2;
    let rows: usize = batch * kept;
    let convolved = pass.tensor(
        axes_4(batch, oc, kept, frames),
        text::concat(name.as_str(), ".conv").as_str(),
    );
    stages::conv_stage(k, pass, scratch, x, &layer.conv, &convolved);
    pass.trace(text::concat(name.as_str(), ".conv"), &convolved);
    pass.gelu_in_place(k, &convolved);
    let permuted = pass.tensor(
        axes_3(rows, oc, frames),
        text::concat(name.as_str(), ".perm").as_str(),
    );
    stages::channels_to_leading_freq(k, pass, &convolved, &permuted);
    pass.trace(text::concat(name.as_str(), ".pre_emb"), &permuted);
    let branched = stages::dconv_stage(k, pass, scratch, &permuted, &layer.dconv, rows, frames);
    pass.trace(text::concat(name.as_str(), ".dconv"), &branched);
    let back = pass.tensor(
        axes_4(batch, oc, kept, frames),
        text::concat(name.as_str(), ".unperm").as_str(),
    );
    stages::leading_freq_to_channels(k, pass, &branched, &back);
    let rewritten = pass.tensor(
        axes_4(batch, wide, kept, frames),
        text::concat(name.as_str(), ".rewrite").as_str(),
    );
    stages::conv_stage(k, pass, scratch, &back, &layer.rewrite, &rewritten);
    pass.trace(text::concat(name.as_str(), ".rewrite"), &rewritten);
    let gated = pass.glu(k, &rewritten, batch, half * kept * frames);
    let out = pass.reshape(&gated, axes_4(batch, half, kept, frames));
    if index == 0 {
        pass.add_row_bias_in_place(k, &out, embedding, batch * half * kept, frames, half * kept);
    }
    pass.trace(name, &out);
    out
}

pub(crate) fn axes_3(a: usize, b: usize, c: usize) -> (r: Vec<usize>)
    ensures
        r@ == seq![a, b, c],
{
    let r: Vec<usize> = vec![a, b, c];
    assert(r@ =~= seq![a, b, c]);
    r
}

pub(crate) fn axes_4(a: usize, b: usize, c: usize, d: usize) -> (r: Vec<usize>)
    ensures
        r@ == seq![a, b, c, d],
{
    let r: Vec<usize> = vec![a, b, c, d];
    assert(r@ =~= seq![a, b, c, d]);
    r
}

/// The first `n` spectrogram layers: the pass, the scratch, and what every layer
/// left, which the decoders take up again.
#[verifier::opaque]
pub open spec fn freq_layers_plan(
    k: Kernels,
    s: Plan,
    scratch: TensorView,
    x: TensorView,
    layers: Seq<GpuEnc>,
    embedding: TensorView,
    batch: usize,
    frames: usize,
    n: nat,
) -> (Plan, TensorView, Seq<TensorView>)
    decreases n,
{
    if n == 0 {
        (s, scratch, Seq::empty())
    } else {
        let (before, room, saved) = freq_layers_plan(
            k,
            s,
            scratch,
            x,
            layers,
            embedding,
            batch,
            frames,
            (n - 1) as nat,
        );
        let (after, room1, out) = freq_layer_plan(
            k,
            before,
            room,
            if n == 1 {
                x
            } else {
                saved.last()
            },
            layers[n - 1],
            embedding,
            batch,
            frames,
            (n - 1) as nat,
        );
        (after, room1, saved.push(out))
    }
}

/// Whether every spectrogram layer can be planned.
#[verifier::opaque]
pub open spec fn freq_layers_plannable(
    k: Kernels,
    layers: Seq<GpuEnc>,
    batch: usize,
    bins: usize,
    frames: usize,
) -> bool {
    forall|i: int|
        0 <= i < layers.len() ==> freq_layer_plannable(
            k,
            #[trigger] layers[i],
            batch,
            bins_at(bins, i as nat),
            frames,
        )
}

/// The shape a spectrogram layer leaves.
pub open spec fn freq_shape_at(
    layers: Seq<GpuEnc>,
    batch: usize,
    bins: usize,
    frames: usize,
    i: int,
) -> Seq<usize> {
    seq![
        batch,
        (layers[i].rewrite.out_channels / 2) as usize,
        bins_at(bins, (i + 1) as nat),
        frames,
    ]
}

pub fn freq_layers(
    k: &Kernels,
    pass: &mut Pass,
    scratch: &mut DevTensor,
    x: &DevTensor,
    layers: &Vec<GpuEnc>,
    embedding: &DevTensor,
    batch: usize,
    bins: usize,
    frames: usize,
) -> (r: Vec<DevTensor>)
    requires
        old(scratch).wf(),
        x.wf(),
        embedding.wf(),
        forall|i: int| 0 <= i < layers@.len() ==> (#[trigger] layers@[i]).wf(),
        x.shape@.len() == 4,
        x.shape@[0] == batch,
        x.shape@[2] == bins,
        x.shape@[3] == frames,
        freq_layers_plannable(*k, layers@, batch, bins, frames),
    ensures
        final(scratch).wf(),
        (final(pass)@, final(scratch)@, views(r@)) == freq_layers_plan(
            *k,
            old(pass)@,
            old(scratch)@,
            x@,
            layers@,
            embedding@,
            batch,
            frames,
            layers@.len(),
        ),
        r@.len() == layers@.len(),
        forall|i: int|
            0 <= i < r@.len() ==> (#[trigger] r@[i]).wf() && r@[i]@.shape == freq_shape_at(
                layers@,
                batch,
                bins,
                frames,
                i,
            ),
{
    proof {
        reveal(freq_layers_plannable);
        reveal(freq_layers_plan);
    }
    let mut saved: Vec<DevTensor> = Vec::new();
    let mut i: usize = 0;
    assert(views(saved@) =~= Seq::<TensorView>::empty());
    while i < layers.len()
        invariant
            i <= layers@.len(),
            scratch.wf(),
            x.wf(),
            embedding.wf(),
            forall|j: int| 0 <= j < layers@.len() ==> (#[trigger] layers@[j]).wf(),
            x.shape@.len() == 4,
            x.shape@[0] == batch,
            x.shape@[2] == bins,
            x.shape@[3] == frames,
            freq_layers_plannable(*k, layers@, batch, bins, frames),
            saved@.len() == i,
            forall|j: int|
                0 <= j < i ==> (#[trigger] saved@[j]).wf() && saved@[j]@.shape == freq_shape_at(
                    layers@,
                    batch,
                    bins,
                    frames,
                    j,
                ),
            (pass@, scratch@, views(saved@)) == freq_layers_plan(
                *k,
                old(pass)@,
                old(scratch)@,
                x@,
                layers@,
                embedding@,
                batch,
                frames,
                i as nat,
            ),
        decreases layers@.len() - i,
    {
        proof {
            reveal(freq_layers_plannable);
            reveal(freq_layers_plan);
        }
        assert(freq_layer_plannable(
            *k,
            layers@[i as int],
            batch,
            bins_at(bins, i as nat),
            frames,
        ));
        let ghost before = views(saved@);
        let out = if i == 0 {
            freq_layer(k, pass, scratch, x, &layers[i], embedding, batch, frames, i)
        } else {
            freq_layer(k, pass, scratch, &saved[i - 1], &layers[i], embedding, batch, frames, i)
        };
        saved.push(out);
        i += 1;
        assert(views(saved@) =~= before.push(out@));
    }
    saved
}

// --------------------------------------------------------------- waveform layers

/// Length a waveform layer leaves.
pub open spec fn time_kept(samples: int) -> int {
    (in_fours(samples) - 4) / 4 + 1
}

/// The waveform's length in front of layer `n`.
pub open spec fn time_at(samples: usize, n: nat) -> int
    decreases n,
{
    if n == 0 {
        samples as int
    } else {
        time_kept(time_at(samples, (n - 1) as nat))
    }
}

/// Whether a waveform layer can be planned.
pub open spec fn time_layer_plannable(k: Kernels, layer: GpuEnc, batch: usize, samples: int) -> bool {
    let wide_len = in_fours(samples) as usize;
    let kept = time_kept(samples) as usize;
    let ic = layer.conv.in_channels;
    let oc = layer.conv.out_channels;
    let wide = layer.rewrite.out_channels;
    let half = (wide / 2) as usize;
    &&& 0 <= samples
    &&& samples + 4 <= usize::MAX
    &&& in_fours(samples) >= 4
    &&& recorder::askable(seq![batch, ic, wide_len])
    &&& batch * ic <= usize::MAX
    &&& batch * ic * samples <= usize::MAX
    &&& batch * ic * wide_len <= usize::MAX
    &&& stages::conv_plannable(k, layer.conv.shape_spec(batch, 1, wide_len), oc)
    &&& recorder::askable(seq![batch, oc, 1, kept])
    &&& tensor::countable(seq![batch, oc, kept])
    &&& stages::dconv_plannable(k, layer.dconv.layers@, batch, kept)
    &&& stages::conv_plannable(k, layer.rewrite.shape_spec(batch, 1, kept), wide)
    &&& recorder::askable(seq![batch, wide, kept])
    &&& half * kept <= usize::MAX
    &&& recorder::askable(seq![batch, (half * kept) as usize])
    &&& recorder::askable(seq![batch, half, kept])
}

/// A waveform brought to a multiple of four samples with zeros.
#[verifier::opaque]
pub open spec fn widened_plan(
    k: Kernels,
    s: Plan,
    x: TensorView,
    channels: usize,
    batch: usize,
    index: nat,
) -> (Plan, TensorView) {
    let samples = x.shape[2];
    let wide_len = in_fours(samples as int) as usize;
    if samples % 4 != 0 {
        let wide = s.fresh(seq![batch, channels, wide_len]);
        let asked = s.tensor(
            seq![batch, channels, wide_len],
            "tencoder."@ + text::decimal(index) + ".pad"@,
        );
        (
            k.copy_pitched_into_plan(
                k.fill_zero_into_plan(asked, wide, wide.len() as usize),
                x,
                wide,
                batch,
                channels,
                samples,
                samples,
                wide_len,
                channels,
            ),
            wide,
        )
    } else {
        (s, x)
    }
}

fn widened(
    k: &Kernels,
    pass: &mut Pass,
    x: &DevTensor,
    channels: usize,
    batch: usize,
    index: usize,
) -> (r: DevTensor)
    requires
        x.wf(),
        x.shape@.len() == 3,
        x.shape@[0] == batch,
        x.shape@[2] + 4 <= usize::MAX,
        recorder::askable(seq![batch, channels, in_fours(x.shape@[2] as int) as usize]),
        batch * channels <= usize::MAX,
        batch * channels * x.shape@[2] <= usize::MAX,
        batch * channels * in_fours(x.shape@[2] as int) <= usize::MAX,
    ensures
        (final(pass)@, r@) == widened_plan(*k, old(pass)@, x@, channels, batch, index as nat),
        r.wf(),
        r@.shape.len() == 3,
        r@.shape[0] == batch,
        r@.shape[2] == in_fours(x.shape@[2] as int),
{
    proof {
        reveal(widened_plan);
    }
    let samples: usize = x.shape[2];
    if samples % 4 != 0 {
        let wide_len: usize = in_fours_of(samples);
        let label = text::concat(text::concat_number("tencoder.", index).as_str(), ".pad");
        let wide = pass.tensor(axes_3(batch, channels, wide_len), label.as_str());
        let count: usize = wide.len();
        pass.fill_zero_into(k, &wide, count);
        pass.copy_pitched_into(
            k,
            x,
            &wide,
            batch,
            channels,
            samples,
            samples,
            wide_len,
            channels,
        );
        wide
    } else {
        x.clone()
    }
}

/// One waveform layer: convolution, branch, 1x1 convolution, gate.
#[verifier::opaque]
pub open spec fn time_layer_plan(
    k: Kernels,
    s: Plan,
    scratch: TensorView,
    x: TensorView,
    layer: GpuEnc,
    batch: usize,
    index: nat,
) -> (Plan, TensorView, TensorView) {
    let name = "tencoder."@ + text::decimal(index);
    let kept = time_kept(x.shape[2] as int) as usize;
    let oc = layer.conv.out_channels;
    let wide = layer.rewrite.out_channels;
    let half = (wide / 2) as usize;
    let (s1, padded) = widened_plan(k, s, x, layer.conv.in_channels, batch, index);
    let image = s1.fresh(seq![batch, oc, 1, kept]);
    let (s2, room1) = stages::conv_stage_plan(
        k,
        s1.tensor(seq![batch, oc, 1, kept], name + ".conv"@),
        scratch,
        padded,
        layer.conv,
        image,
    );
    let convolved = recorder::window(image, 0, seq![batch, oc, kept]);
    let s3 = s2.slice(image, 0, seq![batch, oc, kept]).trace(name + ".conv"@, convolved);
    let s4 = k.gelu_in_place_plan(s3, convolved).trace(name + ".conv.gelu"@, convolved);
    let (s5, room2, branched) = stages::dconv_stage_plan(
        k,
        s4,
        room1,
        convolved,
        layer.dconv.layers@,
        batch,
        kept,
        layer.dconv.layers@.len(),
    );
    let rewritten = s5.fresh(seq![batch, wide, kept]);
    let (s6, room3) = stages::conv_stage_plan(
        k,
        s5.tensor(seq![batch, wide, kept], name + ".rewrite"@),
        room2,
        branched,
        layer.rewrite,
        rewritten,
    );
    let s7 = s6.trace(name + ".rewrite"@, rewritten);
    let gated = s7.fresh(seq![batch, (half * kept) as usize]);
    let shape = seq![batch, half, kept];
    let s8 = k.glu_plan(s7, rewritten, batch, (half * kept) as usize).reshape(gated, shape);
    let out = recorder::reshaped(gated, shape);
    (s8.trace(name, out), room3, out)
}

fn time_layer(
    k: &Kernels,
    pass: &mut Pass,
    scratch: &mut DevTensor,
    x: &DevTensor,
    layer: &GpuEnc,
    batch: usize,
    index: usize,
) -> (r: DevTensor)
    requires
        old(scratch).wf(),
        x.wf(),
        layer.wf(),
        x.shape@.len() == 3,
        x.shape@[0] == batch,
        time_layer_plannable(*k, *layer, batch, x.shape@[2] as int),
    ensures
        final(scratch).wf(),
        (final(pass)@, final(scratch)@, r@) == time_layer_plan(
            *k,
            old(pass)@,
            old(scratch)@,
            x@,
            *layer,
            batch,
            index as nat,
        ),
        r.wf(),
        r@.shape == seq![
            batch,
            (layer.rewrite.out_channels / 2) as usize,
            time_kept(x.shape@[2] as int) as usize,
        ],
{
    proof {
        reveal(time_layer_plan);
    }
    let name = text::concat_number("tencoder.", index);
    let oc: usize = layer.conv.out_channels;
    let wide: usize = layer.rewrite.out_channels;
    let half: usize = wide / 2;
    let padded = widened(k, pass, x, layer.conv.in_channels, batch, index);
    let length: usize = padded.shape[2];
    let kept: usize = (length - 4) / 4 + 1;
    let image = pass.tensor(
        axes_4(batch, oc, 1, kept),
        text::concat(name.as_str(), ".conv").as_str(),
    );
    stages::conv_stage(k, pass, scratch, &padded, &layer.conv, &image);
    proof {
        tensor::lemma_axes_4(seq![batch, oc, 1, kept]);
        tensor::lemma_axes_3(seq![batch, oc, kept]);
        assert(batch * oc * 1 == batch * oc);
    }
    let convolved = pass.slice(&image, 0, axes_3(batch, oc, kept));
    pass.trace(text::concat(name.as_str(), ".conv"), &convolved);
    pass.gelu_in_place(k, &convolved);
    pass.trace(text::concat(name.as_str(), ".conv.gelu"), &convolved);
    let branched = stages::dconv_stage(k, pass, scratch, &convolved, &layer.dconv, batch, kept);
    let rewritten = pass.tensor(
        axes_3(batch, wide, kept),
        text::concat(name.as_str(), ".rewrite").as_str(),
    );
    stages::conv_stage(k, pass, scratch, &branched, &layer.rewrite, &rewritten);
    pass.trace(text::concat(name.as_str(), ".rewrite"), &rewritten);
    let gated = pass.glu(k, &rewritten, batch, half * kept);
    let out = pass.reshape(&gated, axes_3(batch, half, kept));
    pass.trace(name, &out);
    out
}

/// The first `n` waveform layers: the pass, the scratch, and what every layer left.
#[verifier::opaque]
pub open spec fn time_layers_plan(
    k: Kernels,
    s: Plan,
    scratch: TensorView,
    x: TensorView,
    layers: Seq<GpuEnc>,
    batch: usize,
    n: nat,
) -> (Plan, TensorView, Seq<TensorView>)
    decreases n,
{
    if n == 0 {
        (s, scratch, Seq::empty())
    } else {
        let (before, room, saved) = time_layers_plan(
            k,
            s,
            scratch,
            x,
            layers,
            batch,
            (n - 1) as nat,
        );
        let (after, room1, out) = time_layer_plan(
            k,
            before,
            room,
            if n == 1 {
                x
            } else {
                saved.last()
            },
            layers[n - 1],
            batch,
            (n - 1) as nat,
        );
        (after, room1, saved.push(out))
    }
}

/// Whether every waveform layer can be planned.
#[verifier::opaque]
pub open spec fn time_layers_plannable(
    k: Kernels,
    layers: Seq<GpuEnc>,
    batch: usize,
    samples: usize,
) -> bool {
    forall|i: int|
        0 <= i < layers.len() ==> time_layer_plannable(
            k,
            #[trigger] layers[i],
            batch,
            time_at(samples, i as nat),
        )
}

/// The shape a waveform layer leaves.
pub open spec fn time_shape_at(
    layers: Seq<GpuEnc>,
    batch: usize,
    samples: usize,
    i: int,
) -> Seq<usize> {
    seq![
        batch,
        (layers[i].rewrite.out_channels / 2) as usize,
        time_at(samples, (i + 1) as nat) as usize,
    ]
}

/// The lengths in front of the first `n` waveform layers, as the layers see them.
pub open spec fn time_lengths(samples: usize, n: nat) -> Seq<usize> {
    Seq::new(n, |i: int| time_at(samples, i as nat) as usize)
}

pub fn time_layers(
    k: &Kernels,
    pass: &mut Pass,
    scratch: &mut DevTensor,
    x: &DevTensor,
    layers: &Vec<GpuEnc>,
    batch: usize,
    samples: usize,
) -> (r: (Vec<DevTensor>, Vec<usize>))
    requires
        old(scratch).wf(),
        x.wf(),
        forall|i: int| 0 <= i < layers@.len() ==> (#[trigger] layers@[i]).wf(),
        x.shape@.len() == 3,
        x.shape@[0] == batch,
        x.shape@[2] == samples,
        time_layers_plannable(*k, layers@, batch, samples),
    ensures
        final(scratch).wf(),
        (final(pass)@, final(scratch)@, views(r.0@)) == time_layers_plan(
            *k,
            old(pass)@,
            old(scratch)@,
            x@,
            layers@,
            batch,
            layers@.len(),
        ),
        r.0@.len() == layers@.len(),
        forall|i: int|
            0 <= i < r.0@.len() ==> (#[trigger] r.0@[i]).wf() && r.0@[i]@.shape == time_shape_at(
                layers@,
                batch,
                samples,
                i,
            ),
        r.1@ == time_lengths(samples, layers@.len()),
{
    proof {
        reveal(time_layers_plannable);
        reveal(time_layers_plan);
    }
    let mut saved: Vec<DevTensor> = Vec::new();
    let mut lengths: Vec<usize> = Vec::new();
    let mut i: usize = 0;
    assert(views(saved@) =~= Seq::<TensorView>::empty());
    while i < layers.len()
        invariant
            i <= layers@.len(),
            scratch.wf(),
            x.wf(),
            forall|j: int| 0 <= j < layers@.len() ==> (#[trigger] layers@[j]).wf(),
            x.shape@.len() == 3,
            x.shape@[0] == batch,
            x.shape@[2] == samples,
            time_layers_plannable(*k, layers@, batch, samples),
            saved@.len() == i,
            forall|j: int|
                0 <= j < i ==> (#[trigger] saved@[j]).wf() && saved@[j]@.shape == time_shape_at(
                    layers@,
                    batch,
                    samples,
                    j,
                ),
            lengths@ == time_lengths(samples, i as nat),
            (pass@, scratch@, views(saved@)) == time_layers_plan(
                *k,
                old(pass)@,
                old(scratch)@,
                x@,
                layers@,
                batch,
                i as nat,
            ),
        decreases layers@.len() - i,
    {
        proof {
            reveal(time_layers_plannable);
            reveal(time_layers_plan);
        }
        assert(time_layer_plannable(*k, layers@[i as int], batch, time_at(samples, i as nat)));
        let ghost before = views(saved@);
        let out = if i == 0 {
            lengths.push(samples);
            time_layer(k, pass, scratch, x, &layers[i], batch, i)
        } else {
            proof {
                assert(time_layer_plannable(
                    *k,
                    layers@[i as int - 1],
                    batch,
                    time_at(samples, (i - 1) as nat),
                ));
            }
            lengths.push(saved[i - 1].shape[2]);
            time_layer(k, pass, scratch, &saved[i - 1], &layers[i], batch, i)
        };
        saved.push(out);
        i += 1;
        assert(views(saved@) =~= before.push(out@));
        assert(lengths@ =~= time_lengths(samples, i as nat));
    }
    (saved, lengths)
}

} // verus!
