//! Whether the stages of a pass can be planned, tested.

use vstd::prelude::*;

use crate::gpu::arith;
use crate::gpu::convolution;
use crate::gpu::counts;
use crate::gpu::decoder;
use crate::gpu::kernels;
use crate::gpu::kernels::Kernels;
use crate::gpu::recorder;
use crate::gpu::shaders;
use crate::gpu::shapes::{Col2ImShape, GemmJob, GroupNormShape, Im2ColShape};
use crate::gpu::stages;
use crate::gpu::stages::{GpuConv, GpuDConvLayer, GpuProj, NORM_EPS};

verus! {

// ----------------------------------------------------------------- convolutions

/// Sizes of a padded patch matrix.
pub struct Patches {
    pub positions: usize,
    pub k_pad: usize,
    pub pitch: usize,
    pub len: usize,
}

/// Places a kernel of `kernel` taps takes along an axis.
fn places(size: usize, pad: usize, kernel: usize, stride: usize) -> (r: Option<usize>)
    ensures
        match r {
            Some(n) => {
                &&& stride > 0
                &&& kernel <= size + 2 * pad <= usize::MAX
                &&& n == (size + 2 * pad - kernel) / (stride as int) + 1
            },
            None => {
                ||| stride == 0
                ||| kernel > size + 2 * pad
                ||| size + 2 * pad > usize::MAX
                ||| (size + 2 * pad - kernel) / (stride as int) + 1 > usize::MAX
            },
        },
{
    if stride == 0 {
        return None;
    }
    match counts::times(2, pad) {
        Some(both) => match size.checked_add(both) {
            Some(padded) => {
                if padded < kernel {
                    None
                } else {
                    ((padded - kernel) / stride).checked_add(1)
                }
            },
            None => None,
        },
        None => None,
    }
}

/// The padded patch matrix of a geometry, where it can be counted.
pub fn patches(shape: &Im2ColShape) -> (r: Option<Patches>)
    ensures
        match r {
            Some(p) => {
                &&& shape.patches_fit()
                &&& p.positions == shape.positions_spec()
                &&& p.k_pad == shape.k_pad()
                &&& p.pitch == shape.pitch()
                &&& p.len == shape.patch_len()
            },
            None => !shape.patches_fit(),
        },
{
    let (out_h, out_w): (usize, usize) = match (
        places(shape.h, shape.pad.0, shape.kernel.0, shape.stride.0),
        places(shape.w, shape.pad.1, shape.kernel.1, shape.stride.1),
    ) {
        (Some(out_h), Some(out_w)) => (out_h, out_w),
        _ => {
            return None;
        },
    };
    assert(shape.slides());
    let positions: usize = match counts::times(out_h, out_w) {
        Some(positions) => positions,
        None => {
            return None;
        },
    };
    if !counts::fits_3(shape.in_channels, shape.kernel.0, shape.kernel.1) {
        return None;
    }
    match (counts::padding(shape.k(), shaders::BK), counts::padding(positions, shaders::BN)) {
        (Some(k_pad), Some(pitch)) => match counts::times(shape.batch, k_pad) {
            Some(rows) => match counts::times(rows, pitch) {
                Some(len) => Some(Patches { positions, k_pad, pitch, len }),
                None => None,
            },
            None => None,
        },
        _ => None,
    }
}

/// Whether a convolution's products can be counted, given its patch matrix.
fn conv_counts(shape: &Im2ColShape, out_channels: usize, p: &Patches) -> (r: bool)
    requires
        shape.patches_fit(),
        p.positions == shape.positions_spec(),
        p.k_pad == shape.k_pad(),
        p.pitch == shape.pitch(),
    ensures
        r == convolution::conv_fits(*shape, out_channels),
{
    match counts::padding(out_channels, shaders::BM) {
        Some(rows) => counts::fits_2(p.k_pad, p.pitch) && counts::fits_2(rows, p.k_pad)
            && counts::fits_2(out_channels, p.positions) && counts::fits_3(
            shape.batch,
            out_channels,
            p.positions,
        ) && counts::fits_3(shape.in_channels, shape.h, shape.w),
        None => false,
    }
}

fn is_general(k: &Kernels, shape: &Im2ColShape, out_channels: usize) -> (r: bool)
    requires
        shape.slides(),
    ensures
        r == k.conv_is_general(*shape, out_channels),
{
    let (_, out_w) = shape.out_hw();
    !(k.settings.conv_direct && out_w % shaders::BN == 0) && !(out_channels <= 64
        && k.settings.bm64) && !(out_channels <= 192 && k.settings.bm96)
}

pub fn conv_plans(k: &Kernels, shape: &Im2ColShape, out_channels: usize) -> (r: bool)
    ensures
        r == stages::conv_plannable(*k, *shape, out_channels),
{
    match patches(shape) {
        Some(p) => conv_counts(shape, out_channels, &p) && counts::fits_4(
            shape.batch,
            shape.in_channels,
            shape.h,
            shape.w,
        ) && counts::rounds(p.len) && (!is_general(k, shape, out_channels) || shape.batch >= 1),
        None => false,
    }
}

pub fn upsample_plans(shape: &Col2ImShape) -> (r: bool)
    ensures
        r == decoder::upsample_plannable(*shape),
{
    if shape.in_h == 0 || shape.in_w == 0 {
        return false;
    }
    proof {
        arith::lemma_mul_bounds(shape.in_h - 1, shape.stride.0 as int);
        arith::lemma_mul_bounds(shape.in_w - 1, shape.stride.1 as int);
    }
    if !counts::reaches(shape.in_h - 1, shape.stride.0, 0, 0, shape.kernel.0) || !counts::reaches(
        shape.in_w - 1,
        shape.stride.1,
        0,
        0,
        shape.kernel.1,
    ) {
        return false;
    }
    assert(shape.spreads());
    if !counts::fits_3(shape.out_channels, shape.kernel.0, shape.kernel.1) {
        return false;
    }
    let (out_h, out_w) = shape.out_hw();
    let (inside, outside): (usize, usize) = match (
        counts::times(shape.in_h, shape.in_w),
        counts::times(out_h, out_w),
    ) {
        (Some(inside), Some(outside)) => (inside, outside),
        _ => {
            return false;
        },
    };
    assert(shape.fits());
    let (m_pad, k_pad, pitch): (usize, usize, usize) = match (
        counts::padding(shape.m(), shaders::BM),
        counts::padding(shape.in_channels, shaders::BK),
        counts::padding(inside, shaders::BN),
    ) {
        (Some(m_pad), Some(k_pad), Some(pitch)) => (m_pad, k_pad, pitch),
        _ => {
            return false;
        },
    };
    if !counts::fits_3(shape.batch, m_pad, pitch) || !counts::fits_3(shape.batch, k_pad, pitch) {
        return false;
    }
    counts::fits_3(shape.batch, shape.out_channels, outside) && counts::fits_2(m_pad, k_pad)
        && counts::fits_2(m_pad, pitch) && counts::fits_2(k_pad, pitch) && counts::fits_3(
        shape.batch,
        shape.in_channels,
        inside,
    ) && counts::fits_2(shape.out_channels, outside) && counts::rounds(
        shape.batch * k_pad * pitch,
    ) && counts::rounds(shape.batch * m_pad * pitch)
}

// -------------------------------------------------------------- normalisations

pub fn norm_plans(shape: &GroupNormShape) -> (r: bool)
    ensures
        r == stages::normable(*shape),
{
    if shape.rows == 0 || shape.groups == 0 || shape.per_group == 0 || shape.len == 0 {
        return true;
    }
    if !counts::fits_2(shape.groups, shape.per_group) || !norm_reaches(shape) {
        return false;
    }
    match (
        counts::times(shape.rows, shape.groups),
        counts::times(shape.per_group, shape.len),
    ) {
        (Some(pairs), Some(size)) => {
            let segments: usize = arith::at_least_one_of(
                arith::ceil_div(size, kernels::GROUP_NORM_SEGMENT_ELEMENTS),
            );
            proof {
                arith::lemma_mul_bounds(2 * pairs as int, segments as int);
            }
            match counts::times(2, pairs) {
                Some(both) => match counts::times(both, segments) {
                    Some(n) => counts::rounds(n),
                    None => false,
                },
                None => false,
            }
        },
        _ => false,
    }
}

/// Whether the last element a normalisation touches can be counted.
fn norm_reaches(shape: &GroupNormShape) -> (r: bool)
    requires
        !shape.empty(),
        shape.channels_spec() <= usize::MAX,
    ensures
        r == (shape.needed_spec() <= usize::MAX),
{
    proof {
        arith::lemma_mul_le(shape.groups - 1, shape.groups as int, shape.per_group as int);
        arith::lemma_mul_bounds(shape.rows - 1, shape.row_stride as int);
        arith::lemma_mul_bounds(shape.groups - 1, shape.per_group as int);
        arith::lemma_mul_bounds(
            (shape.groups - 1) * shape.per_group,
            shape.channel_stride as int,
        );
        arith::lemma_mul_bounds(shape.per_group - 1, shape.channel_stride as int);
        arith::lemma_mul_bounds(shape.len - 1, shape.len_stride as int);
    }
    let before: usize = (shape.groups - 1) * shape.per_group;
    match (
        counts::times(before, shape.channel_stride),
        counts::times(shape.per_group - 1, shape.channel_stride),
    ) {
        (Some(group), Some(channel)) => match group.checked_add(channel) {
            Some(start) => match start.checked_add(1) {
                Some(start) => counts::reaches(
                    shape.rows - 1,
                    shape.row_stride,
                    shape.len - 1,
                    shape.len_stride,
                    start,
                ),
                None => false,
            },
            None => false,
        },
        _ => false,
    }
}

/// The normalisation of a `(rows, channels, time)` plane, row by row.
fn plane_norm_plans(rows: usize, channels: usize, time: usize) -> (r: bool)
    requires
        channels * time <= usize::MAX,
    ensures
        r == stages::normable(stages::plane_norm_spec(rows, channels, time)),
{
    norm_plans(
        &GroupNormShape {
            rows,
            groups: 1,
            per_group: channels,
            len: time,
            row_stride: channels * time,
            len_stride: 1,
            channel_stride: time,
            eps: NORM_EPS,
        },
    )
}

pub fn token_norm_plans(dim: usize, tokens: usize) -> (r: bool)
    ensures
        r == stages::normable(stages::token_norm(dim, tokens)),
{
    norm_plans(
        &GroupNormShape {
            rows: tokens,
            groups: 1,
            per_group: dim,
            len: 1,
            row_stride: dim,
            len_stride: 1,
            channel_stride: 1,
            eps: NORM_EPS,
        },
    )
}

pub fn segment_norm_plans(dim: usize, tokens: usize, batch: usize) -> (r: bool)
    requires
        batch > 0,
        dim * (tokens / batch) <= usize::MAX,
    ensures
        r == stages::normable(stages::segment_norm(dim, tokens, batch)),
{
    let len: usize = tokens / batch;
    norm_plans(
        &GroupNormShape {
            rows: batch,
            groups: 1,
            per_group: dim,
            len,
            row_stride: dim * len,
            len_stride: dim,
            channel_stride: 1,
            eps: NORM_EPS,
        },
    )
}

// ------------------------------------------------------------------- products

/// Whether one operand of a job can be indexed to its end.
fn operand_reaches(
    job: &GemmJob,
    outer: usize,
    inner: usize,
    rows: usize,
    stride: usize,
    tail: usize,
) -> (r: bool)
    requires
        job.batches >= 1,
        job.inner_count >= 1,
        rows >= 1,
    ensures
        r == (job.base(outer as int, inner as int, job.batches - 1) + (rows - 1) * stride + tail
            <= usize::MAX),
{
    let last: usize = job.batches - 1;
    let high: usize = last / job.inner_count;
    let low: usize = last % job.inner_count;
    proof {
        arith::lemma_mul_bounds(outer as int, high as int);
        arith::lemma_mul_bounds(inner as int, low as int);
        arith::lemma_mul_bounds(rows - 1, stride as int);
    }
    match counts::times(rows - 1, stride) {
        Some(n) => match n.checked_add(tail) {
            Some(end) => counts::reaches(outer, high, inner, low, end),
            None => false,
        },
        None => false,
    }
}

pub fn product_plans(job: &GemmJob) -> (r: bool)
    ensures
        r == kernels::product_fits(*job),
{
    if job.m == 0 || job.n == 0 || job.k == 0 || job.batches > 65535 || job.inner_count == 0 {
        return true;
    }
    if job.batches == 0 {
        return false;
    }
    let (b_rows, b_tail): (usize, usize) = if job.transb {
        (job.n, job.k)
    } else {
        (job.k, job.n)
    };
    operand_reaches(job, job.a_outer, job.a_inner, job.m, job.lda, job.k) && operand_reaches(
        job,
        job.b_outer,
        job.b_inner,
        b_rows,
        job.ldb,
        b_tail,
    ) && operand_reaches(job, job.c_outer, job.c_inner, job.m, job.ldc, job.n)
        && counts::padding(job.m, 128).is_some() && counts::padding(job.n, 128).is_some()
}

pub fn proj_plans(proj: &GpuProj, tokens: usize) -> (r: bool)
    ensures
        r == stages::proj_plannable(*proj, tokens),
{
    match counts::padding(proj.in_features, shaders::BK) {
        Some(ldb) => counts::fits_2(tokens, proj.out_features) && product_plans(
            &GemmJob {
                m: tokens,
                n: proj.out_features,
                k: proj.in_features,
                lda: proj.in_features,
                ldb,
                ldc: proj.out_features,
                batches: 1,
                inner_count: 1,
                a_outer: 0,
                a_inner: 0,
                b_outer: 0,
                b_inner: 0,
                c_outer: 0,
                c_inner: 0,
                transb: true,
            },
        ),
        None => false,
    }
}

// ------------------------------------------------------------ residual branches

/// The geometry of a branch's first convolution.
pub fn branch_geometry(conv: &GpuConv, rows: usize, time: usize) -> (r: Im2ColShape)
    ensures
        r == stages::branch_shape(*conv, rows, time),
{
    Im2ColShape {
        batch: rows,
        in_channels: conv.in_channels,
        h: 1,
        w: time,
        kernel: conv.kernel,
        stride: (1, 1),
        pad: conv.pad,
    }
}

/// Whether the first half of a branch layer can be planned.
fn first_half_plans(k: &Kernels, layer: &GpuDConvLayer, rows: usize, time: usize) -> (r: bool)
    ensures
        r == {
            &&& stages::gathers_fit(layer.conv1, rows, time)
            &&& recorder::roundable((4 * stages::branch_plane(layer.conv1, rows, time)) as nat)
            &&& convolution::conv_fits(
                stages::branch_shape(layer.conv1, rows, time),
                layer.hidden,
            )
            &&& k.conv_is_general(
                stages::branch_shape(layer.conv1, rows, time),
                layer.hidden,
            ) ==> rows >= 1
        },
{
    let shape = branch_geometry(&layer.conv1, rows, time);
    match (patches(&shape), counts::padding(time, shaders::BN)) {
        (Some(p), Some(pitch)) => {
            let plane = match counts::times(rows, p.k_pad) {
                Some(n) => match counts::times(n, pitch) {
                    Some(n) => counts::rounds(n),
                    None => false,
                },
                None => false,
            };
            plane && counts::fits_4(rows, shape.in_channels, 1, time) && conv_counts(
                &shape,
                layer.hidden,
                &p,
            ) && (!is_general(k, &shape, layer.hidden) || rows >= 1)
        },
        _ => false,
    }
}

/// Whether the second product of a branch layer can be planned.
fn second_product_plans(layer: &GpuDConvLayer, rows: usize, time: usize) -> (r: bool)
    requires
        layer.hidden * time <= usize::MAX,
        2 * layer.channels <= usize::MAX,
        2 * layer.channels * time <= usize::MAX,
        arith::padded(layer.hidden as int, shaders::BK as int) <= usize::MAX,
    ensures
        r == kernels::product_fits(stages::branch_job(*layer, rows, time)),
{
    product_plans(
        &GemmJob {
            m: 2 * layer.channels,
            n: time,
            k: layer.hidden,
            lda: arith::pad_ceil(layer.hidden, shaders::BK),
            ldb: time,
            ldc: time,
            batches: rows,
            inner_count: 1,
            a_outer: 0,
            a_inner: 0,
            b_outer: layer.hidden * time,
            b_inner: 0,
            c_outer: 2 * layer.channels * time,
            c_inner: 0,
            transb: false,
        },
    )
}

fn branch_plans(k: &Kernels, layer: &GpuDConvLayer, rows: usize, time: usize) -> (r: bool)
    ensures
        r == stages::branch_plannable(*k, *layer, rows, time),
{
    if !first_half_plans(k, layer, rows, time) || !counts::fits_2(layer.hidden, time)
        || !counts::fits_3(2, layer.channels, time) || !counts::fits_2(layer.channels, time)
        || counts::padding(layer.hidden, shaders::BK).is_none() {
        return false;
    }
    let wide: usize = 2 * layer.channels;
    counts::asks_3(rows, layer.hidden, time) && plane_norm_plans(rows, layer.hidden, time)
        && counts::asks_3(rows, wide, time) && (k.settings.conv2_probe || second_product_plans(
        layer,
        rows,
        time,
    )) && plane_norm_plans(rows, wide, time) && counts::asks_2(rows, layer.channels * time)
        && counts::asks_3(rows, layer.channels, time)
}

pub fn dconv_plans(k: &Kernels, layers: &Vec<GpuDConvLayer>, rows: usize, time: usize) -> (r: bool)
    ensures
        r == stages::dconv_plannable(*k, layers@, rows, time),
{
    let mut i: usize = 0;
    while i < layers.len()
        invariant
            i <= layers@.len(),
            forall|j: int|
                0 <= j < i ==> stages::branch_plannable(*k, #[trigger] layers@[j], rows, time),
        decreases layers@.len() - i,
    {
        if !branch_plans(k, &layers[i], rows, time) {
            return false;
        }
        i += 1;
    }
    true
}

} // verus!
