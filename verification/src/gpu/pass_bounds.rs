//! Whether the passes of the model can be planned, tested.

use vstd::prelude::*;

use crate::gpu::arith;
use crate::gpu::attend_bounds;
use crate::gpu::counts;
use crate::gpu::decoder;
use crate::gpu::decoder::GpuDec;
use crate::gpu::encoder;
use crate::gpu::encoder::GpuEnc;
use crate::gpu::htdemucs;
use crate::gpu::htdemucs::{
    GpuHtdemucsRunner, GpuWeights, ModelConfig, Segments, BOTTLENECK_CHANNELS,
    TRANSFORMER_CHANNELS,
};
use crate::gpu::kernels::Kernels;
use crate::gpu::shaders;
use crate::gpu::shapes::Col2ImShape;
use crate::gpu::stage_bounds;
use crate::gpu::stages;
use crate::gpu::stages::{GpuConv, GpuDConvLayer};

verus! {

// ------------------------------------------------------------------- scratches

fn branch_counts(rows: usize, pitch: usize, time: usize, conv: &GpuConv) -> (r: bool)
    requires
        pitch == stages::branch_pitch(time),
    ensures
        r == encoder::branch_countable(rows, time, *conv),
{
    if !counts::fits_3(conv.in_channels, conv.kernel.0, conv.kernel.1) {
        return false;
    }
    match counts::padding(conv.in_channels * conv.kernel.0 * conv.kernel.1, shaders::BK) {
        Some(k_pad) => counts::fits_3(rows, k_pad, pitch),
        None => false,
    }
}

fn dconv_counts(rows: usize, time: usize, layers: &Vec<GpuDConvLayer>) -> (r: bool)
    ensures
        r == encoder::dconv_countable(rows, time, layers@),
{
    let pitch: usize = match counts::padding(time, shaders::BN) {
        Some(pitch) => pitch,
        None => {
            return false;
        },
    };
    let mut i: usize = 0;
    while i < layers.len()
        invariant
            i <= layers@.len(),
            pitch == stages::branch_pitch(time),
            forall|j: int|
                0 <= j < i ==> encoder::branch_countable(
                    rows,
                    time,
                    (#[trigger] layers@[j]).conv1,
                ),
        decreases layers@.len() - i,
    {
        if !branch_counts(rows, pitch, time, &layers[i].conv1) {
            return false;
        }
        i += 1;
    }
    true
}

fn conv_counts(conv: &GpuConv, batch: usize, h: usize, w: usize) -> (r: bool)
    ensures
        r == conv.shape_spec(batch, h, w).patches_fit(),
{
    stage_bounds::patches(&conv.shape(batch, h, w)).is_some()
}

fn freq_layer_counts(batch: usize, bins: usize, frames: usize, layer: &GpuEnc) -> (r: bool)
    ensures
        r == encoder::freq_layer_countable(batch, bins, frames, *layer),
{
    let kept: usize = bins / 4;
    match counts::times(batch, kept) {
        Some(rows) => conv_counts(&layer.conv, batch, bins, frames) && dconv_counts(
            rows,
            frames,
            &layer.dconv.layers,
        ) && conv_counts(&layer.rewrite, batch, kept, frames),
        None => false,
    }
}

/// The length behind a waveform layer, where its scratch can be counted.
fn time_layer_counts(batch: usize, samples: usize, layer: &GpuEnc) -> (r: Option<usize>)
    ensures
        match r {
            Some(kept) => {
                &&& encoder::time_layer_countable(batch, samples as int, *layer)
                &&& kept == layer.conv.shape_spec(
                    batch,
                    1,
                    encoder::in_fours(samples as int) as usize,
                ).out_w()
            },
            None => !encoder::time_layer_countable(batch, samples as int, *layer),
        },
{
    if samples > usize::MAX - 4 {
        return None;
    }
    let wide: usize = encoder::in_fours_of(samples);
    if !conv_counts(&layer.conv, batch, 1, wide) {
        return None;
    }
    let (_, kept) = layer.conv.shape(batch, 1, wide).out_hw();
    if dconv_counts(batch, kept, &layer.dconv.layers) && conv_counts(
        &layer.rewrite,
        batch,
        1,
        kept,
    ) {
        Some(kept)
    } else {
        None
    }
}

/// Whether waveform layer `i` can be counted.
#[verifier::opaque]
spec fn wave_countable(batch: usize, samples: usize, layers: Seq<GpuEnc>, i: int) -> bool {
    encoder::time_layer_countable(
        batch,
        encoder::samples_at(batch, samples, layers, i as nat),
        layers[i],
    )
}

fn freq_counts(w: &GpuWeights, seg: Segments) -> (r: bool)
    ensures
        r == forall|i: int|
            0 <= i < w.encoder@.len() ==> encoder::freq_layer_countable(
                seg.batch,
                encoder::bins_at(seg.bins, i as nat),
                seg.frames,
                #[trigger] w.encoder@[i],
            ),
{
    let mut bins: usize = seg.bins;
    let mut i: usize = 0;
    while i < w.encoder.len()
        invariant
            i <= w.encoder@.len(),
            bins == encoder::bins_at(seg.bins, i as nat),
            forall|j: int|
                0 <= j < i ==> encoder::freq_layer_countable(
                    seg.batch,
                    encoder::bins_at(seg.bins, j as nat),
                    seg.frames,
                    #[trigger] w.encoder@[j],
                ),
        decreases w.encoder@.len() - i,
    {
        if !freq_layer_counts(seg.batch, bins, seg.frames, &w.encoder[i]) {
            return false;
        }
        bins = bins / 4;
        i += 1;
    }
    true
}

fn time_counts(w: &GpuWeights, seg: Segments) -> (r: bool)
    ensures
        r == forall|i: int|
            0 <= i < w.tencoder@.len() ==> #[trigger] wave_countable(
                seg.batch,
                seg.samples,
                w.tencoder@,
                i,
            ),
{
    let mut samples: usize = seg.samples;
    let mut i: usize = 0;
    while i < w.tencoder.len()
        invariant
            i <= w.tencoder@.len(),
            samples == encoder::samples_at(seg.batch, seg.samples, w.tencoder@, i as nat),
            forall|j: int|
                0 <= j < i ==> #[trigger] wave_countable(seg.batch, seg.samples, w.tencoder@, j),
        decreases w.tencoder@.len() - i,
    {
        let kept = time_layer_counts(seg.batch, samples, &w.tencoder[i]);
        assert((kept is Some) == wave_countable(
            seg.batch,
            seg.samples,
            w.tencoder@,
            i as int,
        )) by {
            reveal(wave_countable);
        }
        match kept {
            Some(kept) => {
                samples = kept;
            },
            None => {
                return false;
            },
        }
        i += 1;
    }
    true
}

fn encoder_counts(w: &GpuWeights, seg: Segments) -> (r: bool)
    ensures
        r == encoder::encoder_countable(
            seg.batch,
            seg.bins,
            seg.frames,
            seg.samples,
            w.encoder@,
            w.tencoder@,
        ),
{
    proof {
        reveal(encoder::encoder_countable);
        reveal(wave_countable);
        let layers = w.tencoder@;
        assert forall|i: int|
            0 <= i < layers.len() && encoder::encoder_countable(
                seg.batch,
                seg.bins,
                seg.frames,
                seg.samples,
                w.encoder@,
                layers,
            ) implies #[trigger] wave_countable(seg.batch, seg.samples, layers, i) by {
            assert(encoder::time_layer_countable(
                seg.batch,
                encoder::samples_at(seg.batch, seg.samples, layers, i as nat),
                layers[i],
            ));
        }
        assert forall|i: int|
            0 <= i < layers.len() && wave_countable(
                seg.batch,
                seg.samples,
                layers,
                i,
            ) implies encoder::time_layer_countable(
            seg.batch,
            encoder::samples_at(seg.batch, seg.samples, layers, i as nat),
            #[trigger] layers[i],
        ) by {
        }
    }
    freq_counts(w, seg) && time_counts(w, seg)
}

fn pair_counts(
    batch: usize,
    f: usize,
    t: usize,
    samples: usize,
    stride: usize,
    layer: &GpuDec,
    layer_t: &GpuDec,
) -> (r: bool)
    ensures
        r == decoder::layer_countable(batch, f as int, t, samples, stride, *layer, *layer_t),
{
    if f == 0 {
        return false;
    }
    match counts::times(batch, f) {
        Some(rows) => counts::reaches(f - 1, stride, 0, 0, layer.conv_tr.kernel.0) && conv_counts(
            &layer.rewrite,
            batch,
            f,
            t,
        ) && dconv_counts(rows, t, &layer.dconv.layers) && conv_counts(
            &layer_t.rewrite,
            batch,
            1,
            samples,
        ) && dconv_counts(batch, samples, &layer_t.dconv.layers),
        None => false,
    }
}

/// The bins behind a decoder layer that can be counted.
fn bins_behind(f: usize, stride: usize, kernel: usize) -> (r: usize)
    requires
        f >= 1,
        (f - 1) * stride + kernel <= usize::MAX,
    ensures
        r == decoder::bins_after(f as int, stride as int, kernel as int),
{
    proof {
        arith::lemma_mul_bounds(f - 1, stride as int);
    }
    (f - 1) * stride + kernel - 2 * (kernel / 4)
}

/// Whether pair `i` of the decoders' layers can be counted.
#[verifier::opaque]
spec fn pair_countable(
    batch: usize,
    f: usize,
    t: usize,
    samples: usize,
    lengths: Seq<usize>,
    dec: Seq<GpuDec>,
    tdec: Seq<GpuDec>,
    stride: usize,
    i: int,
) -> bool {
    decoder::layer_countable(
        batch,
        decoder::bins_before(f, stride, dec, i as nat),
        t,
        decoder::samples_before(samples, lengths, dec.len(), i as nat),
        stride,
        dec[i],
        tdec[i],
    )
}

proof fn lemma_pairs(
    batch: usize,
    f: usize,
    t: usize,
    samples: usize,
    lengths: Seq<usize>,
    dec: Seq<GpuDec>,
    tdec: Seq<GpuDec>,
    stride: usize,
)
    ensures
        decoder::decoder_countable(batch, f, t, samples, lengths, dec, tdec, stride) == forall|
            i: int,
        |
            0 <= i < decoder::shared_depth(dec, tdec) ==> #[trigger] pair_countable(
                batch,
                f,
                t,
                samples,
                lengths,
                dec,
                tdec,
                stride,
                i,
            ),
{
    reveal(decoder::decoder_countable);
    reveal(pair_countable);
    let n = decoder::shared_depth(dec, tdec);
    if decoder::decoder_countable(batch, f, t, samples, lengths, dec, tdec, stride) {
        assert forall|i: int| 0 <= i < n implies #[trigger] pair_countable(
            batch,
            f,
            t,
            samples,
            lengths,
            dec,
            tdec,
            stride,
            i,
        ) by {
            assert(decoder::layer_countable(
                batch,
                decoder::bins_before(f, stride, dec, i as nat),
                t,
                decoder::samples_before(samples, lengths, dec.len(), i as nat),
                stride,
                dec[i],
                tdec[i],
            ));
        }
    } else {
        let i = choose|i: int|
            0 <= i < n && !decoder::layer_countable(
                batch,
                decoder::bins_before(f, stride, dec, i as nat),
                t,
                decoder::samples_before(samples, lengths, dec.len(), i as nat),
                stride,
                #[trigger] dec[i],
                tdec[i],
            );
        assert(!pair_countable(batch, f, t, samples, lengths, dec, tdec, stride, i));
    }
}

fn decoder_counts(
    batch: usize,
    freq_h: usize,
    freq_t: usize,
    time_samples: usize,
    lengths: &Vec<usize>,
    dec: &Vec<GpuDec>,
    tdec: &Vec<GpuDec>,
    stride: usize,
) -> (r: bool)
    ensures
        r == decoder::decoder_countable(
            batch,
            freq_h,
            freq_t,
            time_samples,
            lengths@,
            dec@,
            tdec@,
            stride,
        ),
{
    proof {
        lemma_pairs(batch, freq_h, freq_t, time_samples, lengths@, dec@, tdec@, stride);
    }
    let mut f: usize = freq_h;
    let mut samples: usize = time_samples;
    let depth: usize = dec.len();
    let mut i: usize = 0;
    while i < dec.len() && i < tdec.len()
        invariant
            depth == dec@.len(),
            i <= decoder::shared_depth(dec@, tdec@),
            f == decoder::bins_before(freq_h, stride, dec@, i as nat),
            samples == decoder::samples_before(time_samples, lengths@, dec@.len(), i as nat),
            decoder::decoder_countable(
                batch,
                freq_h,
                freq_t,
                time_samples,
                lengths@,
                dec@,
                tdec@,
                stride,
            ) == forall|j: int|
                0 <= j < decoder::shared_depth(dec@, tdec@) ==> #[trigger] pair_countable(
                    batch,
                    freq_h,
                    freq_t,
                    time_samples,
                    lengths@,
                    dec@,
                    tdec@,
                    stride,
                    j,
                ),
            forall|j: int|
                0 <= j < i ==> #[trigger] pair_countable(
                    batch,
                    freq_h,
                    freq_t,
                    time_samples,
                    lengths@,
                    dec@,
                    tdec@,
                    stride,
                    j,
                ),
        decreases dec@.len() - i,
    {
        let fits = pair_counts(batch, f, freq_t, samples, stride, &dec[i], &tdec[i]);
        assert(fits == pair_countable(
            batch,
            freq_h,
            freq_t,
            time_samples,
            lengths@,
            dec@,
            tdec@,
            stride,
            i as int,
        )) by {
            reveal(pair_countable);
        }
        if !fits {
            return false;
        }
        f = bins_behind(f, stride, dec[i].conv_tr.kernel.0);
        if depth - 1 - i < lengths.len() {
            samples = lengths[depth - 1 - i];
        }
        i += 1;
    }
    true
}

// -------------------------------------------------------------------- encoders

/// Channels a branch leaves.
fn channels_left(layers: &Vec<GpuDConvLayer>, channels: usize) -> (r: usize)
    ensures
        r == encoder::branched_channels(layers@, channels),
{
    if layers.len() == 0 {
        channels
    } else {
        layers[layers.len() - 1].channels
    }
}

fn freq_layer_plans(k: &Kernels, layer: &GpuEnc, batch: usize, bins: usize, frames: usize) -> (r:
    bool)
    ensures
        r == encoder::freq_layer_plannable(*k, *layer, batch, bins, frames),
{
    let kept: usize = bins / 4;
    let oc: usize = layer.conv.out_channels;
    let wide: usize = layer.rewrite.out_channels;
    let half: usize = wide / 2;
    let c: usize = channels_left(&layer.dconv.layers, oc);
    if !counts::fits_2(batch, kept) || !counts::fits_3(half, kept, frames) {
        return false;
    }
    let rows: usize = batch * kept;
    let convolved = stage_bounds::conv_plans(k, &layer.conv.shape(batch, bins, frames), oc)
        && counts::asks_4(batch, oc, kept, frames);
    let branched = counts::asks_3(rows, oc, frames) && stage_bounds::dconv_plans(
        k,
        &layer.dconv.layers,
        rows,
        frames,
    ) && counts::fits_3(rows, c, frames);
    let rewritten = stage_bounds::conv_plans(k, &layer.rewrite.shape(batch, kept, frames), wide)
        && counts::asks_4(batch, wide, kept, frames);
    let left = counts::asks_2(batch, half * kept * frames) && counts::asks_4(
        batch,
        half,
        kept,
        frames,
    ) && counts::fits_4(batch, half, kept, frames);
    convolved && branched && rewritten && left
}

fn freq_layers_plan(k: &Kernels, w: &GpuWeights, seg: Segments) -> (r: bool)
    ensures
        r == encoder::freq_layers_plannable(*k, w.encoder@, seg.batch, seg.bins, seg.frames),
{
    proof {
        reveal(encoder::freq_layers_plannable);
    }
    let mut bins: usize = seg.bins;
    let mut i: usize = 0;
    while i < w.encoder.len()
        invariant
            i <= w.encoder@.len(),
            bins == encoder::bins_at(seg.bins, i as nat),
            forall|j: int|
                0 <= j < i ==> encoder::freq_layer_plannable(
                    *k,
                    #[trigger] w.encoder@[j],
                    seg.batch,
                    encoder::bins_at(seg.bins, j as nat),
                    seg.frames,
                ),
        decreases w.encoder@.len() - i,
    {
        if !freq_layer_plans(k, &w.encoder[i], seg.batch, bins, seg.frames) {
            proof {
                reveal(encoder::freq_layers_plannable);
                assert(!encoder::freq_layer_plannable(
                    *k,
                    w.encoder@[i as int],
                    seg.batch,
                    bins,
                    seg.frames,
                ));
            }
            return false;
        }
        bins = bins / 4;
        i += 1;
    }
    true
}

/// The length behind a waveform layer, where it can be planned.
fn time_layer_plans(k: &Kernels, layer: &GpuEnc, batch: usize, samples: usize) -> (r: Option<
    usize,
>)
    ensures
        match r {
            Some(kept) => {
                &&& encoder::time_layer_plannable(*k, *layer, batch, samples as int)
                &&& kept == encoder::time_kept(samples as int)
            },
            None => !encoder::time_layer_plannable(*k, *layer, batch, samples as int),
        },
{
    if samples > usize::MAX - 4 {
        return None;
    }
    let long: usize = encoder::in_fours_of(samples);
    if long < 4 {
        return None;
    }
    let kept: usize = (long - 4) / 4 + 1;
    let ic: usize = layer.conv.in_channels;
    let oc: usize = layer.conv.out_channels;
    let wide: usize = layer.rewrite.out_channels;
    let half: usize = wide / 2;
    if !counts::fits_2(half, kept) {
        return None;
    }
    let padded = counts::asks_3(batch, ic, long) && counts::fits_3(batch, ic, samples)
        && counts::fits_3(batch, ic, long);
    let convolved = stage_bounds::conv_plans(k, &layer.conv.shape(batch, 1, long), oc)
        && counts::asks_4(batch, oc, 1, kept) && counts::counts_3(batch, oc, kept);
    let branched = stage_bounds::dconv_plans(k, &layer.dconv.layers, batch, kept);
    let rewritten = stage_bounds::conv_plans(k, &layer.rewrite.shape(batch, 1, kept), wide)
        && counts::asks_3(batch, wide, kept);
    let left = counts::asks_2(batch, half * kept) && counts::asks_3(batch, half, kept);
    if padded && convolved && branched && rewritten && left {
        Some(kept)
    } else {
        None
    }
}

/// The lengths in front of the waveform's layers and behind the last, where all of
/// them can be planned.
fn time_layers_plan(k: &Kernels, w: &GpuWeights, seg: Segments) -> (r: Option<(Vec<usize>, usize)>)
    ensures
        match r {
            Some((lengths, last)) => {
                &&& encoder::time_layers_plannable(*k, w.tencoder@, seg.batch, seg.samples)
                &&& lengths@ == encoder::time_lengths(seg.samples, w.tencoder@.len())
                &&& last == encoder::time_at(seg.samples, w.tencoder@.len())
            },
            None => !encoder::time_layers_plannable(*k, w.tencoder@, seg.batch, seg.samples),
        },
{
    proof {
        reveal(encoder::time_layers_plannable);
    }
    let mut lengths: Vec<usize> = Vec::new();
    let mut samples: usize = seg.samples;
    let mut i: usize = 0;
    while i < w.tencoder.len()
        invariant
            i <= w.tencoder@.len(),
            samples == encoder::time_at(seg.samples, i as nat),
            lengths@ == encoder::time_lengths(seg.samples, i as nat),
            forall|j: int|
                0 <= j < i ==> encoder::time_layer_plannable(
                    *k,
                    #[trigger] w.tencoder@[j],
                    seg.batch,
                    encoder::time_at(seg.samples, j as nat),
                ),
        decreases w.tencoder@.len() - i,
    {
        let kept: usize = match time_layer_plans(k, &w.tencoder[i], seg.batch, samples) {
            Some(kept) => kept,
            None => {
                proof {
                    reveal(encoder::time_layers_plannable);
                    assert(!encoder::time_layer_plannable(
                        *k,
                        w.tencoder@[i as int],
                        seg.batch,
                        samples as int,
                    ));
                }
                return None;
            },
        };
        lengths.push(samples);
        samples = kept;
        i += 1;
        assert(lengths@ =~= encoder::time_lengths(seg.samples, i as nat));
    }
    Some((lengths, samples))
}

/// As [`time_layers_plan`], where the encoders can be planned.
fn stack_plans(k: &Kernels, w: &GpuWeights, stride: usize, seg: Segments) -> (r: Option<
    (Vec<usize>, usize),
>)
    ensures
        match r {
            Some((lengths, last)) => {
                &&& htdemucs::stack_plannable(*k, *w, stride, seg)
                &&& lengths@ == encoder::time_lengths(seg.samples, w.tencoder@.len())
                &&& last == encoder::time_at(seg.samples, w.tencoder@.len())
            },
            None => !htdemucs::stack_plannable(*k, *w, stride, seg),
        },
{
    if !counts::asks_4(seg.batch, seg.channels, seg.bins, seg.frames) || !counts::asks_3(
        seg.batch,
        seg.channels_t,
        seg.samples,
    ) || !encoder_counts(w, seg) {
        return None;
    }
    let (bins, frames, samples, before) = encoder::bottleneck_shapes(
        seg.batch,
        seg.bins,
        seg.frames,
        seg.samples,
        &w.encoder,
        &w.tencoder,
    );
    if !decoder_counts(
        seg.batch,
        bins,
        frames,
        samples,
        &before,
        &w.decoder,
        &w.tdecoder,
        stride,
    ) {
        return None;
    }
    if !counts::rounds(htdemucs::shared_scratch_elems(w, stride, seg)) || !freq_layers_plan(
        k,
        w,
        seg,
    ) {
        return None;
    }
    time_layers_plan(k, w, seg)
}

// ---------------------------------------------------------------------- middle

fn sampler_plans(
    k: &Kernels,
    conv: &GpuConv,
    batch: usize,
    channels_in: usize,
    channels_out: usize,
    flat: usize,
) -> (r: bool)
    ensures
        r == htdemucs::sampler_plannable(*k, *conv, batch, channels_in, channels_out, flat),
{
    let pitch: usize = match counts::padding(flat, shaders::BN) {
        Some(pitch) => pitch,
        None => {
            return false;
        },
    };
    counts::asks_4(batch, channels_in, 1, flat) && counts::asks_4(batch, channels_out, 1, flat)
        && counts::fits_3(batch, channels_in, pitch) && counts::rounds(batch * channels_in * pitch)
        && stage_bounds::conv_plans(k, &conv.shape(batch, 1, flat), conv.out_channels)
}

fn middle_plans(
    k: &Kernels,
    w: &GpuWeights,
    config: ModelConfig,
    batch: usize,
    bins: usize,
    frames: usize,
    samples: usize,
) -> (r: bool)
    ensures
        forall|freq: Seq<usize>, time: Seq<usize>|
            #![trigger htdemucs::middle_plannable(*k, *w, config, freq, time)]
            freq.len() == 4 && time.len() == 3 && freq[0] == batch && freq[2] == bins && freq[3]
                == frames && time[2] == samples ==> r == htdemucs::middle_plannable(
                *k,
                *w,
                config,
                freq,
                time,
            ),
{
    let flat: usize = match counts::times(bins, frames) {
        Some(flat) => flat,
        None => {
            return false;
        },
    };
    let inner: usize = TRANSFORMER_CHANNELS;
    let outer: usize = BOTTLENECK_CHANNELS;
    let up = sampler_plans(k, &w.up_freq, batch, outer, inner, flat) && sampler_plans(
        k,
        &w.up_time,
        batch,
        outer,
        inner,
        samples,
    );
    let inside = counts::asks_4(batch, inner, bins, frames) && counts::asks_3(batch, inner, samples)
        && attend_bounds::transformer_plans(
        &w.transformer,
        config.heads,
        config.t_layers,
        batch,
        inner,
        bins,
        frames,
        samples,
    );
    let down = sampler_plans(k, &w.down_freq, batch, inner, outer, flat) && sampler_plans(
        k,
        &w.down_time,
        batch,
        inner,
        outer,
        samples,
    );
    up && inside && down && counts::asks_4(batch, outer, bins, frames) && counts::asks_3(
        batch,
        outer,
        samples,
    )
}

/// As [`stack_plans`], where everything up to the decoders' inputs can be planned.
fn inputs_plan(k: &Kernels, w: &GpuWeights, config: ModelConfig, seg: Segments) -> (r: Option<
    (Vec<usize>, usize),
>)
    ensures
        match r {
            Some((lengths, last)) => {
                &&& htdemucs::inputs_plannable(*k, *w, config, seg)
                &&& lengths@ == encoder::time_lengths(seg.samples, w.tencoder@.len())
                &&& last == encoder::time_at(seg.samples, w.tencoder@.len())
            },
            None => !htdemucs::inputs_plannable(*k, *w, config, seg),
        },
{
    match stack_plans(k, w, config.stride, seg) {
        Some((lengths, last)) => {
            let bins: usize = bins_left(seg.bins, w.encoder.len());
            if middle_plans(k, w, config, seg.batch, bins, seg.frames, last) {
                Some((lengths, last))
            } else {
                None
            }
        },
        None => None,
    }
}

/// Bins left after `n` layers.
fn bins_left(bins: usize, n: usize) -> (r: usize)
    ensures
        r == encoder::bins_at(bins, n as nat),
{
    let mut kept: usize = bins;
    let mut i: usize = 0;
    while i < n
        invariant
            i <= n,
            kept == encoder::bins_at(bins, i as nat),
        decreases n - i,
    {
        kept = kept / 4;
        i += 1;
    }
    kept
}

// -------------------------------------------------------------------- decoders

fn freq_pair_plans(
    k: &Kernels,
    layer: &GpuDec,
    stride: usize,
    batch: usize,
    f: usize,
    t: usize,
) -> (r: bool)
    ensures
        r == decoder::freq_layer_plannable(*k, *layer, stride, batch, f, t),
{
    let wide: usize = layer.rewrite.out_channels;
    let half: usize = wide / 2;
    let oc: usize = layer.conv_tr.out_channels;
    let kh: usize = layer.conv_tr.kernel.0;
    let c: usize = channels_left(&layer.dconv.layers, half);
    if f == 0 || !counts::reaches(f - 1, stride, 0, 0, kh) || !counts::fits_3(half, f, t)
        || !counts::fits_2(batch, f) || !counts::fits_2(batch, oc) {
        return false;
    }
    proof {
        arith::lemma_mul_bounds(f - 1, stride as int);
    }
    let tall: usize = (f - 1) * stride + kh;
    let kept: usize = bins_behind(f, stride, kh);
    let rows: usize = batch * f;
    let upward = Col2ImShape {
        batch,
        in_channels: layer.conv_tr.in_channels,
        out_channels: oc,
        in_h: f,
        in_w: t,
        kernel: layer.conv_tr.kernel,
        stride: (stride, 1),
    };
    let rewritten = counts::asks_4(batch, wide, f, t) && stage_bounds::conv_plans(
        k,
        &layer.rewrite.shape(batch, f, t),
        wide,
    );
    let gated = counts::asks_2(batch, half * f * t) && counts::asks_4(batch, half, f, t);
    let branched = counts::asks_3(rows, half, t) && stage_bounds::dconv_plans(
        k,
        &layer.dconv.layers,
        rows,
        t,
    ) && counts::fits_3(rows, c, t);
    let spread = counts::asks_4(batch, oc, tall, t) && stage_bounds::upsample_plans(&upward);
    let cropped = counts::asks_4(batch, oc, kept, t) && counts::fits_4(batch, oc, kept, t);
    let read = match counts::times(tall, t) {
        Some(plane) => counts::fits_2(plane, batch * oc),
        None => false,
    };
    rewritten && gated && branched && spread && cropped && read
}

fn time_pair_plans(
    k: &Kernels,
    layer: &GpuDec,
    stride: usize,
    batch: usize,
    samples: usize,
    length: usize,
) -> (r: bool)
    ensures
        r == decoder::time_layer_plannable(*k, *layer, stride, batch, samples, length),
{
    let wide: usize = layer.rewrite.out_channels;
    let half: usize = wide / 2;
    let oc: usize = layer.conv_tr.out_channels;
    let kw: usize = layer.conv_tr.kernel.1;
    if samples == 0 || !counts::reaches(samples - 1, stride, 0, 0, kw) || !counts::fits_2(
        half,
        samples,
    ) || !counts::fits_2(batch, oc) {
        return false;
    }
    proof {
        arith::lemma_mul_bounds(samples - 1, stride as int);
    }
    let long: usize = (samples - 1) * stride + kw;
    let upward = Col2ImShape {
        batch,
        in_channels: layer.conv_tr.in_channels,
        out_channels: oc,
        in_h: 1,
        in_w: samples,
        kernel: (1, kw),
        stride: (1, stride),
    };
    let rewritten = counts::asks_3(batch, wide, samples) && stage_bounds::conv_plans(
        k,
        &layer.rewrite.shape(batch, 1, samples),
        wide,
    );
    let gated = counts::asks_2(batch, half * samples) && counts::asks_3(batch, half, samples);
    let branched = stage_bounds::dconv_plans(k, &layer.dconv.layers, batch, samples);
    let spread = counts::asks_4(batch, oc, 1, long) && stage_bounds::upsample_plans(&upward);
    let cropped = counts::asks_3(batch, oc, length) && counts::fits_3(batch, oc, length)
        && counts::fits_2(long, batch * oc);
    rewritten && gated && branched && spread && cropped
}

/// Bins in front of every spectrogram layer, and behind the last.
fn bins_between(bins: usize, n: usize) -> (r: Vec<usize>)
    ensures
        r@.len() == n + 1,
        forall|i: int| 0 <= i <= n ==> #[trigger] r@[i] == encoder::bins_at(bins, i as nat),
{
    let mut list: Vec<usize> = vec![bins];
    let mut i: usize = 0;
    while i < n
        invariant
            i <= n,
            list@.len() == i + 1,
            forall|j: int| 0 <= j <= i ==> #[trigger] list@[j] == encoder::bins_at(bins, j as nat),
        decreases n - i,
    {
        let kept: usize = list[i] / 4;
        list.push(kept);
        i += 1;
    }
    list
}

/// What the decoders take: the bottleneck's channels at the sizes the encoders left.
proof fn lemma_inputs(w: GpuWeights, seg: Segments)
    ensures
        htdemucs::freq_in_shape(w, seg) == seq![
            seg.batch,
            BOTTLENECK_CHANNELS,
            encoder::bins_at(seg.bins, w.encoder@.len()),
            seg.frames,
        ],
        htdemucs::time_in_shape(w, seg) == seq![
            seg.batch,
            BOTTLENECK_CHANNELS,
            encoder::time_at(seg.samples, w.tencoder@.len()) as usize,
        ],
{
}

/// Whether pair `i` of the decoders' layers can be planned, from `f` bins and
/// `samples` samples in front of it.
fn pair_plans(
    k: &Kernels,
    w: &GpuWeights,
    stride: usize,
    seg: Segments,
    i: usize,
    f: usize,
    bins: usize,
    samples: usize,
    length: usize,
) -> (r: bool)
    requires
        i < w.decoder@.len(),
        i < w.tdecoder@.len(),
        i < w.encoder@.len(),
        i < w.tencoder@.len(),
        f == decoder::bins_before(htdemucs::freq_in_shape(*w, seg)[2], stride, w.decoder@, i as nat),
        bins == encoder::bins_at(seg.bins, (w.encoder@.len() - i) as nat),
        samples == encoder::time_at(seg.samples, (w.tencoder@.len() - i) as nat),
        length == encoder::time_at(seg.samples, (w.tencoder@.len() - 1 - i) as nat),
    ensures
        r == decoder::pair_plannable(
            *k,
            htdemucs::freq_in_shape(*w, seg),
            htdemucs::time_in_shape(*w, seg),
            htdemucs::saved_shapes(*w, seg),
            w.decoder@,
            w.tdecoder@,
            stride,
            i as int,
        ),
{
    proof {
        lemma_inputs(*w, seg);
    }
    let (channels, channels_t): (usize, usize) = if i == 0 {
        (BOTTLENECK_CHANNELS, BOTTLENECK_CHANNELS)
    } else {
        (w.decoder[i - 1].conv_tr.out_channels, w.tdecoder[i - 1].conv_tr.out_channels)
    };
    let kept: usize = w.encoder[w.encoder.len() - 1 - i].rewrite.out_channels / 2;
    let kept_t: usize = w.tencoder[w.tencoder.len() - 1 - i].rewrite.out_channels / 2;
    let ghost x = htdemucs::freq_in_shape(*w, seg);
    let ghost xt = htdemucs::time_in_shape(*w, seg);
    let ghost saved = htdemucs::saved_shapes(*w, seg);
    assert(decoder::freq_shape_before(x, w.decoder@, stride, i as nat) =~= seq![
        seg.batch,
        channels,
        f,
        seg.frames,
    ]);
    assert(decoder::time_shape_before(xt, w.tdecoder@, saved.lengths, i as nat) =~= seq![
        seg.batch,
        channels_t,
        samples,
    ]);
    assert(saved.freq[saved.freq.len() - 1 - i] =~= seq![seg.batch, kept, bins, seg.frames]);
    assert(saved.time[saved.time.len() - 1 - i] =~= seq![seg.batch, kept_t, samples]);
    let skips = !counts::empty_4(seg.batch, kept, bins, seg.frames) || counts::empty_4(
        seg.batch,
        channels,
        f,
        seg.frames,
    );
    let skips_t = !counts::empty_3(seg.batch, kept_t, samples) || counts::empty_3(
        seg.batch,
        channels_t,
        samples,
    );
    f >= 1 && freq_pair_plans(k, &w.decoder[i], stride, seg.batch, f, seg.frames) && skips
        && time_pair_plans(k, &w.tdecoder[i], stride, seg.batch, samples, length) && skips_t
}

fn pairs_plan(
    k: &Kernels,
    w: &GpuWeights,
    config: ModelConfig,
    seg: Segments,
    lengths: &Vec<usize>,
    last: usize,
) -> (r: bool)
    requires
        lengths@ == encoder::time_lengths(seg.samples, w.tencoder@.len()),
        forall|i: int|
            0 <= i < w.tencoder@.len() ==> 0 <= #[trigger] encoder::time_at(seg.samples, i as nat)
                <= usize::MAX,
        last == encoder::time_at(seg.samples, w.tencoder@.len()),
    ensures
        r == decoder::layers_plannable(
            *k,
            htdemucs::freq_in_shape(*w, seg),
            htdemucs::time_in_shape(*w, seg),
            htdemucs::saved_shapes(*w, seg),
            w.decoder@,
            w.tdecoder@,
            config.stride,
            config.depth as int,
        ),
{
    let depth: usize = config.depth;
    if depth > w.decoder.len() || depth > w.tdecoder.len() || depth > w.encoder.len() || depth
        > w.tencoder.len() {
        return false;
    }
    let ghost x = htdemucs::freq_in_shape(*w, seg);
    let ghost xt = htdemucs::time_in_shape(*w, seg);
    let ghost saved = htdemucs::saved_shapes(*w, seg);
    proof {
        lemma_inputs(*w, seg);
    }
    let bins = bins_between(seg.bins, w.encoder.len());
    let mut f: usize = bins[w.encoder.len()];
    let mut samples: usize = last;
    let mut i: usize = 0;
    while i < depth
        invariant
            i <= depth,
            depth == config.depth,
            depth <= w.decoder@.len(),
            depth <= w.tdecoder@.len(),
            depth <= w.encoder@.len(),
            depth <= w.tencoder@.len(),
            x == htdemucs::freq_in_shape(*w, seg),
            xt == htdemucs::time_in_shape(*w, seg),
            saved == htdemucs::saved_shapes(*w, seg),
            lengths@ == encoder::time_lengths(seg.samples, w.tencoder@.len()),
            forall|j: int|
                0 <= j < w.tencoder@.len() ==> 0 <= #[trigger] encoder::time_at(
                    seg.samples,
                    j as nat,
                ) <= usize::MAX,
            bins@.len() == w.encoder@.len() + 1,
            forall|j: int|
                0 <= j <= w.encoder@.len() ==> #[trigger] bins@[j] == encoder::bins_at(
                    seg.bins,
                    j as nat,
                ),
            f == decoder::bins_before(x[2], config.stride, w.decoder@, i as nat),
            samples == encoder::time_at(seg.samples, (w.tencoder@.len() - i) as nat),
            forall|j: int|
                0 <= j < i ==> #[trigger] decoder::pair_plannable(
                    *k,
                    x,
                    xt,
                    saved,
                    w.decoder@,
                    w.tdecoder@,
                    config.stride,
                    j,
                ),
        decreases depth - i,
    {
        let ghost at = (w.tencoder@.len() - 1 - i) as int;
        assert(0 <= encoder::time_at(seg.samples, at as nat) <= usize::MAX);
        let length: usize = lengths[w.tencoder.len() - 1 - i];
        let behind: usize = bins[w.encoder.len() - i];
        if !pair_plans(k, w, config.stride, seg, i, f, behind, samples, length) {
            assert(!decoder::pair_plannable(
                *k,
                x,
                xt,
                saved,
                w.decoder@,
                w.tdecoder@,
                config.stride,
                i as int,
            ));
            return false;
        }
        f = bins_behind(f, config.stride, w.decoder[i].conv_tr.kernel.0);
        samples = length;
        i += 1;
    }
    true
}

fn decoders_plan(
    k: &Kernels,
    w: &GpuWeights,
    config: ModelConfig,
    seg: Segments,
    lengths: &Vec<usize>,
    last: usize,
) -> (r: bool)
    requires
        lengths@ == encoder::time_lengths(seg.samples, w.tencoder@.len()),
        forall|i: int|
            0 <= i < w.tencoder@.len() ==> 0 <= #[trigger] encoder::time_at(seg.samples, i as nat)
                <= usize::MAX,
        last == encoder::time_at(seg.samples, w.tencoder@.len()),
    ensures
        r == htdemucs::decoders_plannable(
            *k,
            *w,
            config,
            htdemucs::freq_in_shape(*w, seg),
            htdemucs::time_in_shape(*w, seg),
            htdemucs::saved_shapes(*w, seg),
        ),
{
    proof {
        lemma_inputs(*w, seg);
    }
    let bins: usize = bins_left(seg.bins, w.encoder.len());
    if !decoder_counts(
        seg.batch,
        bins,
        seg.frames,
        last,
        lengths,
        &w.decoder,
        &w.tdecoder,
        config.stride,
    ) {
        return false;
    }
    let elements: usize = arith::at_least_one_of(
        decoder::decoder_scratch_elems(
            seg.batch,
            bins,
            seg.frames,
            last,
            lengths,
            &w.decoder,
            &w.tdecoder,
            config.stride,
        ),
    );
    counts::rounds(elements) && pairs_plan(k, w, config, seg, lengths, last)
}

// ---------------------------------------------------------------------- passes

impl GpuHtdemucsRunner {
    /// Whether [`GpuHtdemucsRunner::forward_encoders`] may be asked for these segments.
    pub fn encoders_are_plannable(&self, seg: Segments) -> (r: bool)
        ensures
            r == htdemucs::stack_plannable(
                self.kernels,
                self.weights,
                self.config.stride,
                seg,
            ),
    {
        stack_plans(&self.kernels, &self.weights, self.config.stride, seg).is_some()
    }

    /// Whether [`GpuHtdemucsRunner::forward_encoder_and_transformer`] may be asked for
    /// these segments.
    pub fn inputs_are_plannable(&self, seg: Segments) -> (r: bool)
        ensures
            r == htdemucs::inputs_plannable(self.kernels, self.weights, self.config, seg),
    {
        inputs_plan(&self.kernels, &self.weights, self.config, seg).is_some()
    }

    /// Whether [`GpuHtdemucsRunner::forward_branch_outputs`] may be asked for these
    /// segments.
    pub fn is_plannable(&self, seg: Segments) -> (r: bool)
        ensures
            r == self.plannable(seg),
    {
        match inputs_plan(&self.kernels, &self.weights, self.config, seg) {
            Some((lengths, last)) => {
                proof {
                    reveal(encoder::time_layers_plannable);
                    let layers = self.weights.tencoder@;
                    assert forall|i: int| 0 <= i < layers.len() implies 0
                        <= #[trigger] encoder::time_at(seg.samples, i as nat) <= usize::MAX by {
                        assert(encoder::time_layer_plannable(
                            self.kernels,
                            layers[i],
                            seg.batch,
                            encoder::time_at(seg.samples, i as nat),
                        ));
                    }
                }
                decoders_plan(
                    &self.kernels,
                    &self.weights,
                    self.config,
                    seg,
                    &lengths,
                    last,
                )
            },
            None => false,
        }
    }
}

} // verus!
