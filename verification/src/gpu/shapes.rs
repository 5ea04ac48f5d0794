//! What the kernels are asked to do: shapes, strides and jobs.

use vstd::prelude::*;

use crate::error::{Error, ErrorView, Fault};
use crate::gpu::arith;
use crate::gpu::shaders;

verus! {

// ---------------------------------------------------------------- convolutions

/// A convolution, as its gather sees it: patches come out `(batch, k, positions)`
/// with `k = in_channels * kh * kw` in `(channel, ky, kx)` order.
#[derive(Debug, Clone, Copy, PartialEq, Eq)]
pub struct Im2ColShape {
    pub batch: usize,
    pub in_channels: usize,
    pub h: usize,
    pub w: usize,
    pub kernel: (usize, usize),
    pub stride: (usize, usize),
    pub pad: (usize, usize),
}

impl Im2ColShape {
    pub open spec fn out_h(self) -> int {
        (self.h + 2 * self.pad.0 - self.kernel.0) / (self.stride.0 as int) + 1
    }

    pub open spec fn out_w(self) -> int {
        (self.w + 2 * self.pad.1 - self.kernel.1) / (self.stride.1 as int) + 1
    }

    pub open spec fn k_spec(self) -> int {
        self.in_channels * self.kernel.0 * self.kernel.1
    }

    pub open spec fn positions_spec(self) -> int {
        self.out_h() * self.out_w()
    }

    /// The kernel lies inside the padded image and the strides move.
    pub open spec fn slides(self) -> bool {
        &&& self.stride.0 > 0
        &&& self.stride.1 > 0
        &&& self.kernel.0 <= self.h + 2 * self.pad.0 <= usize::MAX
        &&& self.kernel.1 <= self.w + 2 * self.pad.1 <= usize::MAX
        &&& self.out_h() <= usize::MAX
        &&& self.out_w() <= usize::MAX
    }

    /// The taps of all channels can be counted.
    pub open spec fn taps_fit(self) -> bool {
        &&& self.in_channels * self.kernel.0 <= usize::MAX
        &&& self.k_spec() <= usize::MAX
    }

    /// The kernel slides and the sizes below can be counted.
    pub open spec fn fits(self) -> bool {
        &&& self.slides()
        &&& self.positions_spec() <= usize::MAX
        &&& self.taps_fit()
    }

    /// Height and width of the output.
    pub fn out_hw(&self) -> (r: (usize, usize))
        requires
            self.slides(),
        ensures
            r.0 == self.out_h(),
            r.1 == self.out_w(),
    {
        proof {
            lemma_quotient(self.h + 2 * self.pad.0 - self.kernel.0, self.stride.0 as int);
            lemma_quotient(self.w + 2 * self.pad.1 - self.kernel.1, self.stride.1 as int);
        }
        (
            (self.h + 2 * self.pad.0 - self.kernel.0) / self.stride.0 + 1,
            (self.w + 2 * self.pad.1 - self.kernel.1) / self.stride.1 + 1,
        )
    }

    /// Reduction length of the product this feeds.
    pub fn k(&self) -> (r: usize)
        requires
            self.taps_fit(),
        ensures
            r == self.k_spec(),
    {
        self.in_channels * self.kernel.0 * self.kernel.1
    }

    /// Output positions.
    pub fn positions(&self) -> (r: usize)
        requires
            self.slides(),
            self.positions_spec() <= usize::MAX,
        ensures
            r == self.positions_spec(),
    {
        let (out_h, out_w) = self.out_hw();
        out_h * out_w
    }

    /// Elements of the tight patch matrix.
    pub fn output_len(&self) -> (r: usize)
        requires
            self.fits(),
            self.batch * self.k_spec() <= usize::MAX,
            self.batch * self.k_spec() * self.positions_spec() <= usize::MAX,
        ensures
            r == self.batch * self.k_spec() * self.positions_spec(),
    {
        self.batch * self.k() * self.positions()
    }

    /// Elements of a patch matrix with `pitch`-wide rows.
    pub fn pitched_len(&self, pitch: usize) -> (r: usize)
        requires
            self.taps_fit(),
            self.batch * self.k_spec() <= usize::MAX,
            self.batch * self.k_spec() * pitch <= usize::MAX,
        ensures
            r == self.batch * self.k_spec() * pitch,
    {
        self.pitched_len_with(pitch, self.k())
    }

    /// Elements of a patch matrix with `rows` rows of `pitch` per batch.
    pub fn pitched_len_with(&self, pitch: usize, rows: usize) -> (r: usize)
        requires
            self.batch * rows <= usize::MAX,
            self.batch * rows * pitch <= usize::MAX,
        ensures
            r == self.batch * rows * pitch,
    {
        self.batch * rows * pitch
    }
}

proof fn lemma_quotient(a: int, b: int)
    by (nonlinear_arith)
    requires
        a >= 0,
        b > 0,
    ensures
        0 <= a / b <= a,
{
}

/// A transposed convolution: one product gives a tap matrix of
/// `out_channels * kh * kw` rows, and a gather folds the taps into the image.
#[derive(Debug, Clone, Copy, PartialEq, Eq)]
pub struct Col2ImShape {
    pub batch: usize,
    pub in_channels: usize,
    pub out_channels: usize,
    pub in_h: usize,
    pub in_w: usize,
    pub kernel: (usize, usize),
    pub stride: (usize, usize),
}

impl Col2ImShape {
    pub open spec fn out_h(self) -> int {
        (self.in_h - 1) * self.stride.0 + self.kernel.0
    }

    pub open spec fn out_w(self) -> int {
        (self.in_w - 1) * self.stride.1 + self.kernel.1
    }

    pub open spec fn m_spec(self) -> int {
        self.out_channels * self.kernel.0 * self.kernel.1
    }

    pub open spec fn positions_in_spec(self) -> int {
        self.in_h * self.in_w
    }

    pub open spec fn positions_out_spec(self) -> int {
        self.out_h() * self.out_w()
    }

    /// The image is not empty, and what it spreads to can be counted.
    pub open spec fn spreads(self) -> bool {
        &&& self.in_h > 0
        &&& self.in_w > 0
        &&& self.out_h() <= usize::MAX
        &&& self.out_w() <= usize::MAX
    }

    /// The taps of all channels can be counted.
    pub open spec fn taps_fit(self) -> bool {
        &&& self.out_channels * self.kernel.0 <= usize::MAX
        &&& self.m_spec() <= usize::MAX
    }

    /// The image is not empty and the sizes below can be counted.
    pub open spec fn fits(self) -> bool {
        &&& self.spreads()
        &&& self.taps_fit()
        &&& self.positions_in_spec() <= usize::MAX
        &&& self.positions_out_spec() <= usize::MAX
    }

    /// Height and width of the output.
    pub fn out_hw(&self) -> (r: (usize, usize))
        requires
            self.spreads(),
        ensures
            r.0 == self.out_h(),
            r.1 == self.out_w(),
    {
        proof {
            arith::lemma_mul_bounds(self.in_h - 1, self.stride.0 as int);
            arith::lemma_mul_bounds(self.in_w - 1, self.stride.1 as int);
        }
        (
            (self.in_h - 1) * self.stride.0 + self.kernel.0,
            (self.in_w - 1) * self.stride.1 + self.kernel.1,
        )
    }

    /// Rows of the tap matrix.
    pub fn m(&self) -> (r: usize)
        requires
            self.taps_fit(),
        ensures
            r == self.m_spec(),
    {
        self.out_channels * self.kernel.0 * self.kernel.1
    }

    pub fn positions_in(&self) -> (r: usize)
        requires
            self.positions_in_spec() <= usize::MAX,
        ensures
            r == self.positions_in_spec(),
    {
        self.in_h * self.in_w
    }

    pub fn positions_out(&self) -> (r: usize)
        requires
            self.spreads(),
            self.positions_out_spec() <= usize::MAX,
        ensures
            r == self.positions_out_spec(),
    {
        let (out_h, out_w) = self.out_hw();
        out_h * out_w
    }
}

// --------------------------------------------------------------- activations

/// The activation fused into a per-channel affine.
#[derive(Debug, Clone, Copy, PartialEq, Eq, Structural)]
pub enum Activation {
    Identity,
    Relu,
    Gelu,
    Silu,
}

impl Activation {
    /// The number the kernel knows it by.
    pub open spec fn code_spec(self) -> u32 {
        match self {
            Activation::Identity => 0,
            Activation::Relu => 1,
            Activation::Gelu => 2,
            Activation::Silu => 3,
        }
    }

    pub fn code(self) -> (r: u32)
        ensures
            r == self.code_spec(),
    {
        match self {
            Activation::Identity => 0,
            Activation::Relu => 1,
            Activation::Gelu => 2,
            Activation::Silu => 3,
        }
    }
}

// --------------------------------------------------------- normalisation, LSTM

/// A group normalisation, by strides: a row's sequence axis need not be contiguous.
#[derive(Debug, Clone, Copy, PartialEq, Eq, Structural)]
pub struct GroupNormShape {
    pub rows: usize,
    pub groups: usize,
    /// Channels per group.
    pub per_group: usize,
    pub len: usize,
    /// Distance between consecutive rows' first elements.
    pub row_stride: usize,
    pub len_stride: usize,
    pub channel_stride: usize,
    /// Bit pattern of the epsilon.
    pub eps: u32,
}

impl GroupNormShape {
    pub open spec fn empty(self) -> bool {
        self.rows == 0 || self.groups == 0 || self.per_group == 0 || self.len == 0
    }

    pub open spec fn channels_spec(self) -> int {
        self.groups * self.per_group
    }

    /// The element at `(row, group, channel, place)`.
    pub open spec fn index(self, row: int, group: int, channel: int, place: int) -> int {
        row * self.row_stride + group * self.per_group * self.channel_stride + channel
            * self.channel_stride + place * self.len_stride
    }

    pub open spec fn needed_spec(self) -> int {
        self.index(self.rows - 1, self.groups - 1, self.per_group - 1, self.len - 1) + 1
    }

    /// Nothing is empty and the sizes can be counted.
    pub open spec fn fits(self) -> bool {
        &&& !self.empty()
        &&& self.channels_spec() <= usize::MAX
        &&& self.needed_spec() <= usize::MAX
        &&& self.rows * self.groups <= usize::MAX
        &&& self.per_group * self.len <= usize::MAX
    }

    pub fn channels(&self) -> (r: usize)
        requires
            self.channels_spec() <= usize::MAX,
        ensures
            r == self.channels_spec(),
    {
        self.groups * self.per_group
    }

    /// One past the last element touched.
    pub fn needed(&self) -> (r: usize)
        requires
            !self.empty(),
            self.channels_spec() <= usize::MAX,
            self.needed_spec() <= usize::MAX,
        ensures
            r == self.needed_spec(),
    {
        proof {
            arith::lemma_mul_le(self.groups - 1, self.groups as int, self.per_group as int);
            arith::lemma_mul_bounds(self.rows - 1, self.row_stride as int);
            arith::lemma_mul_bounds(self.groups - 1, self.per_group as int);
            arith::lemma_mul_bounds(
                (self.groups - 1) * self.per_group,
                self.channel_stride as int,
            );
            arith::lemma_mul_bounds(self.per_group - 1, self.channel_stride as int);
            arith::lemma_mul_bounds(self.len - 1, self.len_stride as int);
        }
        (self.rows - 1) * self.row_stride + (self.groups - 1) * self.per_group
            * self.channel_stride + (self.per_group - 1) * self.channel_stride + (self.len - 1)
            * self.len_stride + 1
    }
}

/// Every element a group normalisation touches lies below what it says it needs.
pub proof fn law_group_norm_needs_cover(
    shape: GroupNormShape,
    row: int,
    group: int,
    channel: int,
    place: int,
)
    requires
        0 <= row < shape.rows,
        0 <= group < shape.groups,
        0 <= channel < shape.per_group,
        0 <= place < shape.len,
    ensures
        0 <= shape.index(row, group, channel, place) < shape.needed_spec(),
{
    arith::lemma_mul_le(row, shape.rows - 1, shape.row_stride as int);
    arith::lemma_mul_bounds(row, shape.row_stride as int);
    arith::lemma_mul_le(group, shape.groups - 1, shape.per_group as int);
    arith::lemma_mul_bounds(group, shape.per_group as int);
    arith::lemma_mul_le(
        group * shape.per_group,
        (shape.groups - 1) * shape.per_group,
        shape.channel_stride as int,
    );
    arith::lemma_mul_bounds(group * shape.per_group, shape.channel_stride as int);
    arith::lemma_mul_le(channel, shape.per_group - 1, shape.channel_stride as int);
    arith::lemma_mul_bounds(channel, shape.channel_stride as int);
    arith::lemma_mul_le(place, shape.len - 1, shape.len_stride as int);
    arith::lemma_mul_bounds(place, shape.len_stride as int);
}

/// One direction of one recurrent layer.
#[derive(Debug, Clone, Copy, PartialEq, Eq, Structural)]
pub struct LstmJob {
    pub rows: usize,
    pub time: usize,
    pub hidden: usize,
    /// Walk the time axis backwards.
    pub reverse: bool,
    /// Row pitch of the projected gates.
    pub proj_pitch: usize,
    /// Row pitch of the output.
    pub out_pitch: usize,
    /// Where this direction's values start in an output row.
    pub out_offset: usize,
}

/// Two 16-bit numbers in one word.
pub open spec fn packed(high: usize, low: usize) -> u32 {
    ((high as u32) << 16) | (low as u32)
}

/// Two 16-bit numbers in one word.
pub fn pack(high: usize, low: usize) -> (r: u32)
    ensures
        r == packed(high, low),
        high < 65536 && low < 65536 ==> r == high * 65536 + low,
{
    let h: u32 = high as u32;
    let l: u32 = low as u32;
    proof {
        assert(h < 65536 && l < 65536 ==> (h << 16) | l == h * 65536 + l) by (bit_vector);
    }
    (h << 16) | l
}

// -------------------------------------------------------------------- products

/// One batched matrix product. Batches are addressed on two levels with
/// independent strides, because attention's operands are indexed by
/// `(segment, head)` and the two are not one stride apart.
#[derive(Debug, Clone, Copy, PartialEq, Eq, Structural)]
pub struct GemmJob {
    pub m: usize,
    pub n: usize,
    pub k: usize,
    pub lda: usize,
    pub ldb: usize,
    pub ldc: usize,
    pub batches: usize,
    pub inner_count: usize,
    pub a_outer: usize,
    pub a_inner: usize,
    pub b_outer: usize,
    pub b_inner: usize,
    pub c_outer: usize,
    pub c_inner: usize,
    /// Read `B` as `(n, k)`.
    pub transb: bool,
}

impl GemmJob {
    pub open spec fn simple_spec(m: usize, n: usize, k: usize) -> GemmJob {
        let lda = arith::padded(k as int, shaders::BK as int);
        let ldb = arith::padded(n as int, shaders::BN as int);
        GemmJob {
            m,
            n,
            k,
            lda: lda as usize,
            ldb: ldb as usize,
            ldc: n,
            batches: 1,
            inner_count: 1,
            a_outer: (lda * arith::padded(m as int, shaders::BM as int)) as usize,
            a_inner: 0,
            b_outer: (ldb * lda) as usize,
            b_inner: 0,
            c_outer: (m * n) as usize,
            c_inner: 0,
            transb: false,
        }
    }

    /// Whether the padded operands of [`GemmJob::simple`] can be counted.
    pub open spec fn simple_fits(m: usize, n: usize, k: usize) -> bool {
        let lda = arith::padded(k as int, shaders::BK as int);
        let ldb = arith::padded(n as int, shaders::BN as int);
        let mp = arith::padded(m as int, shaders::BM as int);
        &&& lda <= usize::MAX
        &&& ldb <= usize::MAX
        &&& mp <= usize::MAX
        &&& lda * mp <= usize::MAX
        &&& ldb * lda <= usize::MAX
        &&& m * n <= usize::MAX
    }

    /// `C[m, n] = A[m, k] @ B[k, n]` with both operands contiguous and padded.
    pub fn simple(m: usize, n: usize, k: usize) -> (r: Self)
        requires
            Self::simple_fits(m, n, k),
        ensures
            r == Self::simple_spec(m, n, k),
    {
        let lda: usize = arith::pad_pitch(k, shaders::BK);
        let ldb: usize = arith::pad_pitch(n, shaders::BN);
        let a_outer: usize = lda * arith::pad_ceil(m, shaders::BM);
        GemmJob {
            m,
            n,
            k,
            lda,
            ldb,
            ldc: n,
            batches: 1,
            inner_count: 1,
            a_outer,
            a_inner: 0,
            b_outer: ldb * lda,
            b_inner: 0,
            c_outer: m * n,
            c_inner: 0,
            transb: false,
        }
    }

    /// The same product over `batches` slices.
    pub fn batched(self, batches: usize) -> (r: Self)
        ensures
            r == (GemmJob { batches, ..self }),
    {
        let mut job = self;
        job.batches = batches;
        job
    }

    /// Outer and inner stride of an operand whose batches are contiguous: the outer
    /// one spans the whole inner run.
    pub fn contiguous_batch(per_batch: usize, inner_count: usize) -> (r: (usize, usize))
        requires
            per_batch * inner_count <= usize::MAX,
        ensures
            r.0 == per_batch * (if inner_count < 1 {
                1
            } else {
                inner_count as int
            }),
            r.1 == per_batch,
    {
        let inner: usize = if inner_count < 1 {
            1
        } else {
            inner_count
        };
        (per_batch * inner, per_batch)
    }

    /// Whether the grid of a tile can be counted.
    pub open spec fn grid_fits(self, bm: usize, bn: usize) -> bool {
        &&& bm > 0
        &&& bn > 0
        &&& arith::padded(self.m as int, bm as int) <= usize::MAX
        &&& arith::padded(self.n as int, bn as int) <= usize::MAX
    }

    /// Tiles along `m`, tiles along `n`, batches.
    pub open spec fn grid_spec(self, bm: int, bn: int) -> (u32, u32, u32) {
        (
            arith::ceil(self.m as int, bm) as u32,
            arith::ceil(self.n as int, bn) as u32,
            self.batches as u32,
        )
    }

    /// The grid of the square tile.
    pub fn grid(&self) -> (r: (u32, u32, u32))
        requires
            self.grid_fits(shaders::BM, shaders::BN),
        ensures
            r == self.grid_spec(shaders::BM as int, shaders::BN as int),
    {
        self.grid_with(shaders::BM, shaders::BN)
    }

    /// The grid of a tile. A kernel finds its tile from its workgroup and its own
    /// compiled-in size, so the two must be told the same numbers.
    pub fn grid_with(&self, bm: usize, bn: usize) -> (r: (u32, u32, u32))
        requires
            self.grid_fits(bm, bn),
        ensures
            r == self.grid_spec(bm as int, bn as int),
    {
        proof {
            lemma_tiles(self.m as int, bm as int);
            lemma_tiles(self.n as int, bn as int);
        }
        (
            (arith::pad_ceil(self.m, bm) / bm) as u32,
            (arith::pad_ceil(self.n, bn) / bn) as u32,
            self.batches as u32,
        )
    }

    /// Where batch `b` of an operand with these strides starts.
    pub open spec fn base(self, outer: int, inner: int, b: int) -> int {
        outer * (b / (self.inner_count as int)) + inner * (b % (self.inner_count as int))
    }
}

proof fn lemma_tiles(value: int, tile: int)
    by (nonlinear_arith)
    requires
        value >= 0,
        tile > 0,
    ensures
        arith::padded(value, tile) / tile == arith::ceil(value, tile),
{
    let q = arith::ceil(value, tile);
    assert((q * tile) / tile == q);
}

/// Contiguous batches lie one block apart: batch `b` of an operand with
/// [`GemmJob::contiguous_batch`] strides starts `b` blocks in, so no two collide.
pub proof fn law_contiguous_batches_are_disjoint(per_batch: int, job: GemmJob, b: int)
    requires
        job.inner_count >= 1,
        b >= 0,
        per_batch >= 0,
    ensures
        job.base(per_batch * job.inner_count, per_batch, b) == per_batch * b,
{
    let inner = job.inner_count as int;
    assert((per_batch * inner) * (b / inner) + per_batch * (b % inner) == per_batch * b)
        by (nonlinear_arith)
        requires
            inner >= 1,
    {
        assert(b == inner * (b / inner) + b % inner);
    }
}

/// The tiles of a grid cover the whole result.
pub proof fn law_tiles_cover(job: GemmJob, bm: int, bn: int)
    requires
        bm > 0,
        bn > 0,
        arith::ceil(job.m as int, bm) <= u32::MAX,
        arith::ceil(job.n as int, bn) <= u32::MAX,
    ensures
        job.grid_spec(bm, bn).0 * bm >= job.m,
        job.grid_spec(bm, bn).1 * bn >= job.n,
{
    arith::law_padding(job.m as int, bm);
    arith::law_padding(job.n as int, bn);
    lemma_ceil_range(job.m as int, bm);
    lemma_ceil_range(job.n as int, bn);
}

proof fn lemma_ceil_range(value: int, tile: int)
    by (nonlinear_arith)
    requires
        value >= 0,
        tile > 0,
    ensures
        arith::ceil(value, tile) >= 0,
{
}

// ------------------------------------------------------------------- attention

/// One attention pass over a fused `(bands, frames, 3 * heads * dim_head)` tensor.
#[derive(Debug, Clone, Copy, PartialEq, Eq, Structural)]
pub struct AttentionShape {
    pub bands: usize,
    pub frames: usize,
    pub heads: usize,
    pub dim_head: usize,
}

impl AttentionShape {
    pub open spec fn inner_spec(self) -> int {
        self.heads * self.dim_head
    }

    pub open spec fn pitch_spec(self) -> int {
        arith::padded(self.frames as int, shaders::BK as int)
    }

    pub open spec fn scores_len_spec(self) -> int {
        self.bands * self.heads * self.frames * self.pitch_spec()
    }

    pub open spec fn output_len_spec(self) -> int {
        self.bands * self.frames * self.inner_spec()
    }

    /// The sizes below can be counted.
    pub open spec fn fits(self) -> bool {
        &&& 3 * self.inner_spec() <= usize::MAX
        &&& self.pitch_spec() <= usize::MAX
        &&& self.bands * self.heads <= usize::MAX
        &&& self.bands * self.heads * self.frames <= usize::MAX
        &&& self.scores_len_spec() <= usize::MAX
        &&& self.bands * self.frames <= usize::MAX
        &&& self.output_len_spec() <= usize::MAX
    }

    pub fn inner(&self) -> (r: usize)
        requires
            self.inner_spec() <= usize::MAX,
        ensures
            r == self.inner_spec(),
    {
        self.heads * self.dim_head
    }

    /// Elements of one row of the fused tensor.
    pub fn row(&self) -> (r: usize)
        requires
            3 * self.inner_spec() <= usize::MAX,
        ensures
            r == 3 * self.inner_spec(),
    {
        proof {
            arith::lemma_mul_bounds(self.heads as int, self.dim_head as int);
        }
        3 * self.inner()
    }

    /// Row pitch of the scores, rounded so that the second product reduces over a
    /// whole number of steps.
    pub fn scores_pitch(&self) -> (r: usize)
        requires
            self.pitch_spec() <= usize::MAX,
        ensures
            r == self.pitch_spec(),
    {
        arith::pad_ceil(self.frames, shaders::BK)
    }

    pub fn scores_len(&self) -> (r: usize)
        requires
            self.pitch_spec() <= usize::MAX,
            self.bands * self.heads <= usize::MAX,
            self.bands * self.heads * self.frames <= usize::MAX,
            self.scores_len_spec() <= usize::MAX,
        ensures
            r == self.scores_len_spec(),
    {
        self.bands * self.heads * self.frames * self.scores_pitch()
    }

    pub fn output_len(&self) -> (r: usize)
        requires
            self.inner_spec() <= usize::MAX,
            self.bands * self.frames <= usize::MAX,
            self.output_len_spec() <= usize::MAX,
        ensures
            r == self.output_len_spec(),
    {
        self.bands * self.frames * self.inner()
    }
}

// --------------------------------------------------------------------- padding

/// Element `i` of a `(rows, cols)` matrix laid out `width` wide: the matrix inside,
/// zero in the margins.
pub open spec fn padded_element(data: Seq<u32>, rows: int, cols: int, width: int, i: int) -> u32 {
    let r = i / width;
    let c = i % width;
    if r < rows && c < cols {
        data[r * cols + c]
    } else {
        0
    }
}

/// Pads `(rows, cols)` to multiples of the tiles. The zeros are what a kernel's
/// unguarded tile reads land on.
pub fn pad_matrix_for(
    data: &[u32],
    rows: usize,
    cols: usize,
    row_tile: usize,
    col_tile: usize,
) -> (r: Result<(Vec<u32>, usize, usize), Error>)
    requires
        row_tile > 0,
        col_tile > 0,
        arith::padded(rows as int, row_tile as int) <= usize::MAX,
        arith::padded(cols as int, col_tile as int) <= usize::MAX,
        rows * cols <= usize::MAX,
        arith::padded(rows as int, row_tile as int) * arith::padded(cols as int, col_tile as int)
            <= usize::MAX,
    ensures
        match r {
            Ok((out, padded_rows, padded_cols)) => {
                &&& data@.len() >= rows * cols
                &&& padded_rows == arith::padded(rows as int, row_tile as int)
                &&& padded_cols == arith::padded(cols as int, col_tile as int)
                &&& out@.len() == padded_rows * padded_cols
                &&& forall|i: int|
                    0 <= i < out@.len() ==> #[trigger] out@[i] == padded_element(
                        data@,
                        rows as int,
                        cols as int,
                        padded_cols as int,
                        i,
                    )
            },
            Err(e) => {
                &&& data@.len() < rows * cols
                &&& e@ == ErrorView::Shape(
                    Fault::MatrixLength { have: data@.len() as usize, need: (rows * cols) as usize },
                )
            },
        },
{
    let padded_rows: usize = arith::pad_ceil(rows, row_tile);
    let padded_cols: usize = arith::pad_ceil(cols, col_tile);
    if data.len() < rows * cols {
        return Err(Error::Shape(Fault::MatrixLength { have: data.len(), need: rows * cols }));
    }
    let total: usize = padded_rows * padded_cols;
    let mut out: Vec<u32> = Vec::new();
    let mut r: usize = 0;
    while r < padded_rows
        invariant
            r <= padded_rows,
            rows <= padded_rows,
            cols <= padded_cols,
            total == padded_rows * padded_cols,
            total <= usize::MAX,
            rows * cols <= data@.len(),
            rows * cols <= usize::MAX,
            out@.len() == r * padded_cols,
            forall|i: int|
                0 <= i < out@.len() ==> #[trigger] out@[i] == padded_element(
                    data@,
                    rows as int,
                    cols as int,
                    padded_cols as int,
                    i,
                ),
        decreases padded_rows - r,
    {
        let mut c: usize = 0;
        while c < padded_cols
            invariant
                c <= padded_cols,
                r < padded_rows,
                rows <= padded_rows,
                cols <= padded_cols,
                total == padded_rows * padded_cols,
                rows * cols <= data@.len(),
                rows * cols <= usize::MAX,
                out@.len() == r * padded_cols + c,
                forall|i: int|
                    0 <= i < out@.len() ==> #[trigger] out@[i] == padded_element(
                        data@,
                        rows as int,
                        cols as int,
                        padded_cols as int,
                        i,
                    ),
            decreases padded_cols - c,
        {
            proof {
                lemma_split(r as int, padded_cols as int, c as int);
                if r < rows && c < cols {
                    lemma_inside(r as int, rows as int, c as int, cols as int);
                }
            }
            if r < rows && c < cols {
                out.push(data[r * cols + c]);
            } else {
                out.push(0);
            }
            c += 1;
        }
        proof {
            assert((r + 1) * padded_cols == r * padded_cols + padded_cols) by (nonlinear_arith);
        }
        r += 1;
    }
    Ok((out, padded_rows, padded_cols))
}

/// Row and column of element `r * width + c`.
pub proof fn lemma_split(r: int, width: int, c: int)
    requires
        0 <= r,
        0 <= c < width,
    ensures
        (r * width + c) / width == r,
        (r * width + c) % width == c,
{
    vstd::arithmetic::div_mod::lemma_fundamental_div_mod_converse(r * width + c, width, r, c);
}

/// An element of a matrix lies inside it.
pub proof fn lemma_inside(r: int, rows: int, c: int, cols: int)
    by (nonlinear_arith)
    requires
        0 <= r < rows,
        0 <= c < cols,
    ensures
        0 <= r * cols + c < rows * cols,
        r * cols <= r * cols + c,
        0 <= r * cols,
{
}

} // verus!
