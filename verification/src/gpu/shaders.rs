//! The kernels: tuning constants and the generators of the WGSL texts.
//!
//! The tuning constants are filled into the texts, so the host's padding and
//! dispatch arithmetic and what a kernel assumes are the same numbers.

use vstd::prelude::*;
use vstd::string::*;

use crate::gpu::gemm_source;
use crate::gpu::gemm_source::GemmForm;
use crate::gpu::wgsl;
use crate::text;

verus! {

/// Rows of the square product tile; operands are padded to these multiples.
pub const BM: usize = 128;

/// Columns of the square product tile.
pub const BN: usize = 128;

/// K elements one staged block covers.
pub const BK: usize = 16;

/// Row count of the 64x128 convolution tile.
pub const BM64: usize = 64;

/// Row count of the 96x128 convolution tile.
pub const BM96: usize = 96;

/// Shared-memory row pitch in elements: even, so rows stay aligned for two-wide
/// slots, and not a multiple of `BK`, so column reads spread over the banks.
pub const PAD: usize = 18;

/// Row pitch in two-wide slots.
pub const PW: usize = 9;

/// Threads of a product workgroup along each axis.
pub const THREADS_X: usize = 16;

pub const THREADS_Y: usize = 16;

/// Two-wide slots per tile row that hold data.
pub const ROW_SLOTS: usize = 8;

/// A product tile and the thread block that fills it.
#[derive(Debug, Clone, Copy, PartialEq, Eq, Structural)]
pub struct Tile {
    pub bm: usize,
    pub bn: usize,
    pub tx: usize,
    pub ty: usize,
}

impl Default for Tile {
    /// The square tile.
    fn default() -> (r: Self)
        ensures
            r == Tile::square_spec(),
    {
        Tile { bm: BM, bn: BN, tx: THREADS_X, ty: THREADS_Y }
    }
}

impl Tile {
    /// The 128x128 tile.
    pub open spec fn square_spec() -> Tile {
        Tile { bm: BM, bn: BN, tx: THREADS_X, ty: THREADS_Y }
    }

    /// 64 columns: the attention products whose `n` is a head's width or a short
    /// sequence.
    pub fn bn64() -> (r: Self)
        ensures
            r == (Tile { bn: 64, ..Tile::square_spec() }),
    {
        Tile { bm: BM, bn: 64, tx: THREADS_X, ty: THREADS_Y }
    }

    /// Both sides 64: attention over the frequency axis, 60 by 60 per head.
    pub fn bm64_bn64() -> (r: Self)
        ensures
            r == (Tile { bm: 64, bn: 64, ..Tile::square_spec() }),
    {
        Tile { bm: 64, bn: 64, tx: THREADS_X, ty: THREADS_Y }
    }

    /// 64 rows: convolutions with few output channels.
    pub fn bm64_bn128() -> (r: Self)
        ensures
            r == (Tile { bm: 64, ..Tile::square_spec() }),
    {
        Tile { bm: 64, bn: BN, tx: THREADS_X, ty: THREADS_Y }
    }

    /// 96 rows: 96 output channels are one tile and 192 are two.
    pub fn bm96_bn128() -> (r: Self)
        ensures
            r == (Tile { bm: 96, ..Tile::square_spec() }),
    {
        Tile { bm: 96, bn: BN, tx: THREADS_X, ty: THREADS_Y }
    }

    /// The 128x128 tile.
    pub fn square() -> (r: Self)
        ensures
            r == Tile::square_spec(),
    {
        Tile { bm: BM, bn: BN, tx: THREADS_X, ty: THREADS_Y }
    }
}

/// What a product does to each accumulator before it stores it. The unfused order
/// is kept: the bias first, then the activation, then the element already there.
#[derive(Debug, Clone, Copy, PartialEq, Eq, Structural)]
pub enum GemmEpilogue {
    /// `C = acc`.
    Plain,
    /// `C = acc + Bias[col]`.
    Bias,
    /// `C = gelu(acc + Bias[col])`.
    GeluBias,
    /// `C = acc + C`.
    Residual,
    /// `C = acc + Bias[col] + C`.
    BiasResidual,
    /// `C = acc + Bias[row]`.
    RowBias,
    /// `C = gelu(acc) + C`.
    GeluResidual,
    /// `C = gelu(acc + Bias[col]) + C`.
    GeluBiasResidual,
}

impl GemmEpilogue {
    /// Whether a bias is added.
    pub open spec fn adds_bias(self) -> bool {
        self is Bias || self is GeluBias || self is BiasResidual || self is RowBias
            || self is GeluBiasResidual
    }

    /// Whether the element already there is added.
    pub open spec fn adds_residual(self) -> bool {
        self is Residual || self is BiasResidual || self is GeluResidual || self is GeluBiasResidual
    }

    /// Whether the activation is applied.
    pub open spec fn applies_gelu(self) -> bool {
        self is GeluBias || self is GeluResidual || self is GeluBiasResidual
    }

    pub fn has_bias(self) -> (r: bool)
        ensures
            r == self.adds_bias(),
    {
        match self {
            GemmEpilogue::Bias => true,
            GemmEpilogue::GeluBias => true,
            GemmEpilogue::BiasResidual => true,
            GemmEpilogue::RowBias => true,
            GemmEpilogue::GeluBiasResidual => true,
            GemmEpilogue::Plain => false,
            GemmEpilogue::Residual => false,
            GemmEpilogue::GeluResidual => false,
        }
    }

    pub fn has_residual(self) -> (r: bool)
        ensures
            r == self.adds_residual(),
    {
        match self {
            GemmEpilogue::Residual => true,
            GemmEpilogue::BiasResidual => true,
            GemmEpilogue::GeluResidual => true,
            GemmEpilogue::GeluBiasResidual => true,
            GemmEpilogue::Bias => false,
            GemmEpilogue::GeluBias => false,
            GemmEpilogue::RowBias => false,
            GemmEpilogue::Plain => false,
        }
    }

    pub fn has_gelu(self) -> (r: bool)
        ensures
            r == self.applies_gelu(),
    {
        match self {
            GemmEpilogue::GeluBias => true,
            GemmEpilogue::GeluResidual => true,
            GemmEpilogue::GeluBiasResidual => true,
            _ => false,
        }
    }
}

// ------------------------------------------------------------- plain kernels

/// The holes of an elementwise kernel.
pub open spec fn row_holes() -> text::Bindings {
    text::no_holes().push(("threads"@, text::decimal(ROW_THREADS as nat)))
}

fn row_holes_of() -> (r: text::Holes)
    ensures
        r@ == row_holes(),
{
    text::Holes::new().number("threads", ROW_THREADS)
}

/// The holes of a kernel that walks rows over a two-axis grid.
pub open spec fn row_grid_holes() -> text::Bindings {
    row_holes().push(("grid_x"@, text::decimal(ROW_GRID_X as nat)))
}

fn row_grid_holes_of() -> (r: text::Holes)
    ensures
        r@ == row_grid_holes(),
{
    row_holes_of().number("grid_x", ROW_GRID_X)
}

/// The holes of a kernel that takes a row per warp: 8 warps of 32 lanes.
pub open spec fn warp_holes() -> text::Bindings {
    row_grid_holes().push(("lanes"@, text::decimal(32))).push(("warps"@, text::decimal(8)))
}

fn warp_holes_of() -> (r: text::Holes)
    ensures
        r@ == warp_holes(),
{
    row_grid_holes_of().number("lanes", 32).number("warps", 8)
}

pub open spec fn rms_norm_wgsl() -> Seq<char> {
    text::filled(wgsl::RMS_NORM@, row_grid_holes())
}

/// `x / max(|x|, 1e-12) * sqrt(dim) * gamma` per row, one workgroup per row.
/// The norm is the L2 norm of the row, not its root mean square.
pub fn rms_norm() -> (r: String)
    ensures
        r@ == rms_norm_wgsl(),
{
    text::fill(wgsl::RMS_NORM, &row_grid_holes_of())
}

pub open spec fn gelu_wgsl() -> Seq<char> {
    text::filled(wgsl::GELU@, row_holes())
}

/// Exact (erf) GELU, elementwise.
pub fn gelu() -> (r: String)
    ensures
        r@ == gelu_wgsl(),
{
    text::fill(wgsl::GELU, &row_holes_of())
}

pub open spec fn gelu_in_place_wgsl() -> Seq<char> {
    text::filled(wgsl::GELU_IN_PLACE@, row_holes())
}

/// Exact GELU, in place.
pub fn gelu_in_place() -> (r: String)
    ensures
        r@ == gelu_in_place_wgsl(),
{
    text::fill(wgsl::GELU_IN_PLACE, &row_holes_of())
}

pub open spec fn glu_wgsl() -> Seq<char> {
    text::filled(wgsl::GLU@, row_holes())
}

/// `first_half * sigmoid(second_half)` along a row.
pub fn glu() -> (r: String)
    ensures
        r@ == glu_wgsl(),
{
    text::fill(wgsl::GLU, &row_holes_of())
}

pub open spec fn sigmoid_gate_wgsl() -> Seq<char> {
    text::filled(wgsl::SIGMOID_GATE@, row_holes())
}

/// `out = a * sigmoid(b)` on a row, the attention gate.
pub fn sigmoid_gate() -> (r: String)
    ensures
        r@ == sigmoid_gate_wgsl(),
{
    text::fill(wgsl::SIGMOID_GATE, &row_holes_of())
}

pub open spec fn rope_wgsl() -> Seq<char> {
    text::filled(wgsl::ROPE@, row_holes())
}

/// Interleaved rotary position embedding.
pub fn rope() -> (r: String)
    ensures
        r@ == rope_wgsl(),
{
    text::fill(wgsl::ROPE, &row_holes_of())
}

pub open spec fn transpose_wgsl() -> Seq<char> {
    text::filled(wgsl::TRANSPOSE@, row_holes())
}

/// `(batch, rows, cols, width) -> (batch, cols, rows, width)`.
pub fn transpose() -> (r: String)
    ensures
        r@ == transpose_wgsl(),
{
    text::fill(wgsl::TRANSPOSE, &row_holes_of())
}

pub open spec fn im2col_wgsl() -> Seq<char> {
    text::filled(wgsl::IM2COL@, row_holes())
}

/// The convolution gather: `(batch, channels, h, w)` in, patch rows out.
pub fn im2col() -> (r: String)
    ensures
        r@ == im2col_wgsl(),
{
    text::fill(wgsl::IM2COL, &row_holes_of())
}

pub open spec fn add_row_bias_in_place_wgsl() -> Seq<char> {
    text::filled(wgsl::ADD_ROW_BIAS_IN_PLACE@, row_holes())
}

/// Adds a bias that varies along the row axis, in place.
pub fn add_row_bias_in_place() -> (r: String)
    ensures
        r@ == add_row_bias_in_place_wgsl(),
{
    text::fill(wgsl::ADD_ROW_BIAS_IN_PLACE, &row_holes_of())
}

pub open spec fn col2im_wgsl() -> Seq<char> {
    text::filled(wgsl::COL2IM@, row_holes())
}

/// The gather half of a transposed convolution.
pub fn col2im() -> (r: String)
    ensures
        r@ == col2im_wgsl(),
{
    text::fill(wgsl::COL2IM, &row_holes_of())
}

pub open spec fn tanh_wgsl() -> Seq<char> {
    text::filled(wgsl::TANH@, row_holes())
}

/// Hyperbolic tangent, elementwise.
pub fn tanh() -> (r: String)
    ensures
        r@ == tanh_wgsl(),
{
    text::fill(wgsl::TANH, &row_holes_of())
}

pub open spec fn tanh_bias_in_place_wgsl() -> Seq<char> {
    text::filled(wgsl::TANH_BIAS_IN_PLACE@, row_holes())
}

/// `x = tanh(x + bias)`, in place, with a bias per block of rows.
pub fn tanh_bias_in_place() -> (r: String)
    ensures
        r@ == tanh_bias_in_place_wgsl(),
{
    text::fill(wgsl::TANH_BIAS_IN_PLACE, &row_holes_of())
}

pub open spec fn copy_wgsl() -> Seq<char> {
    text::filled(wgsl::COPY@, row_holes())
}

/// `out = in`, elementwise.
pub fn copy() -> (r: String)
    ensures
        r@ == copy_wgsl(),
{
    text::fill(wgsl::COPY, &row_holes_of())
}

pub open spec fn add_in_place_wgsl() -> Seq<char> {
    text::filled(wgsl::ADD_IN_PLACE@, row_holes())
}

/// `out += source`; a shorter source repeats.
pub fn add_in_place() -> (r: String)
    ensures
        r@ == add_in_place_wgsl(),
{
    text::fill(wgsl::ADD_IN_PLACE, &row_holes_of())
}

pub open spec fn add_in_place_vec4_wgsl() -> Seq<char> {
    text::filled(wgsl::ADD_IN_PLACE_VEC4@, row_holes())
}

/// `out += source` in four-lane groups.
pub fn add_in_place_vec4() -> (r: String)
    ensures
        r@ == add_in_place_vec4_wgsl(),
{
    text::fill(wgsl::ADD_IN_PLACE_VEC4, &row_holes_of())
}

pub open spec fn gelu_in_place_vec4_wgsl() -> Seq<char> {
    text::filled(wgsl::GELU_IN_PLACE_VEC4@, row_holes())
}

/// GELU in place, four lanes per thread.
pub fn gelu_in_place_vec4() -> (r: String)
    ensures
        r@ == gelu_in_place_vec4_wgsl(),
{
    text::fill(wgsl::GELU_IN_PLACE_VEC4, &row_holes_of())
}

pub open spec fn softmax_wgsl() -> Seq<char> {
    text::filled(wgsl::SOFTMAX@, row_grid_holes())
}

/// Scaled softmax over a row, one workgroup per row.
pub fn softmax() -> (r: String)
    ensures
        r@ == softmax_wgsl(),
{
    text::fill(wgsl::SOFTMAX, &row_grid_holes_of())
}

pub open spec fn softmax_warp_wgsl() -> Seq<char> {
    text::filled(wgsl::SOFTMAX_WARP@, warp_holes())
}

/// In-place softmax of short rows, one warp per row.
pub fn softmax_warp() -> (r: String)
    ensures
        r@ == softmax_warp_wgsl(),
{
    text::fill(wgsl::SOFTMAX_WARP, &warp_holes_of())
}

pub open spec fn softmax_scaled_warp_wgsl() -> Seq<char> {
    text::filled(wgsl::SOFTMAX_SCALED_WARP@, warp_holes())
}

/// Out-of-place scaled softmax, one warp per row, any column count.
pub fn softmax_scaled_warp() -> (r: String)
    ensures
        r@ == softmax_scaled_warp_wgsl(),
{
    text::fill(wgsl::SOFTMAX_SCALED_WARP, &warp_holes_of())
}

pub open spec fn softmax_stats_warp_wgsl() -> Seq<char> {
    text::filled(wgsl::SOFTMAX_STATS_WARP@, warp_holes())
}

/// The row scan of the softmax; writes each row's maximum and inverse sum
/// instead of the probabilities.
pub fn softmax_stats_warp() -> (r: String)
    ensures
        r@ == softmax_stats_warp_wgsl(),
{
    text::fill(wgsl::SOFTMAX_STATS_WARP, &warp_holes_of())
}

pub open spec fn mul_in_place_wgsl() -> Seq<char> {
    text::filled(wgsl::MUL_IN_PLACE@, row_holes())
}

/// `out *= source`, elementwise.
pub fn mul_in_place() -> (r: String)
    ensures
        r@ == mul_in_place_wgsl(),
{
    text::fill(wgsl::MUL_IN_PLACE, &row_holes_of())
}

pub open spec fn fill_zero_wgsl() -> Seq<char> {
    text::filled(wgsl::FILL_ZERO@, row_holes())
}

/// Writes zeros.
pub fn fill_zero() -> (r: String)
    ensures
        r@ == fill_zero_wgsl(),
{
    text::fill(wgsl::FILL_ZERO, &row_holes_of())
}

pub open spec fn crop_rows_wgsl() -> Seq<char> {
    wgsl::CROP_ROWS@
}

/// Copies the middle of each row of a wider block.
pub fn crop_rows() -> (r: String)
    ensures
        r@ == crop_rows_wgsl(),
{
    String::from_str(wgsl::CROP_ROWS)
}

pub open spec fn copy_pitched_wgsl() -> Seq<char> {
    text::filled(wgsl::COPY_PITCHED@, row_holes())
}

/// Copies a `(batch, rows, cols)` block from one row pitch to another.
pub fn copy_pitched() -> (r: String)
    ensures
        r@ == copy_pitched_wgsl(),
{
    text::fill(wgsl::COPY_PITCHED, &row_holes_of())
}

pub open spec fn group_norm_wgsl() -> Seq<char> {
    text::filled(wgsl::GROUP_NORM@, row_grid_holes())
}

/// Group normalisation, one workgroup per `(row, group)` pair.
pub fn group_norm() -> (r: String)
    ensures
        r@ == group_norm_wgsl(),
{
    text::fill(wgsl::GROUP_NORM, &row_grid_holes_of())
}

pub open spec fn group_norm_partial_wgsl() -> Seq<char> {
    text::filled(wgsl::GROUP_NORM_PARTIAL@, row_grid_holes())
}

/// The split group normalisation's partial moments, one segment each.
pub fn group_norm_partial() -> (r: String)
    ensures
        r@ == group_norm_partial_wgsl(),
{
    text::fill(wgsl::GROUP_NORM_PARTIAL, &row_grid_holes_of())
}

pub open spec fn group_norm_combine_wgsl() -> Seq<char> {
    text::filled(wgsl::GROUP_NORM_COMBINE@, row_grid_holes())
}

/// Folds a pair's partial moments into its mean and scale.
pub fn group_norm_combine() -> (r: String)
    ensures
        r@ == group_norm_combine_wgsl(),
{
    text::fill(wgsl::GROUP_NORM_COMBINE, &row_grid_holes_of())
}

pub open spec fn group_norm_apply_wgsl() -> Seq<char> {
    text::filled(wgsl::GROUP_NORM_APPLY@, row_grid_holes())
}

/// Applies a pair's combined mean and scale.
pub fn group_norm_apply() -> (r: String)
    ensures
        r@ == group_norm_apply_wgsl(),
{
    text::fill(wgsl::GROUP_NORM_APPLY, &row_grid_holes_of())
}

pub open spec fn group_norm_apply_from_partials_wgsl() -> Seq<char> {
    text::filled(wgsl::GROUP_NORM_APPLY_FROM_PARTIALS@, row_grid_holes())
}

/// Applies a pair's moments, summing its partials in every workgroup.
pub fn group_norm_apply_from_partials() -> (r: String)
    ensures
        r@ == group_norm_apply_from_partials_wgsl(),
{
    text::fill(wgsl::GROUP_NORM_APPLY_FROM_PARTIALS, &row_grid_holes_of())
}

pub open spec fn heads_permute_wgsl() -> Seq<char> {
    text::filled(wgsl::HEADS_PERMUTE@, row_holes())
}

/// The band-sequence permutation, in both directions.
pub fn heads_permute() -> (r: String)
    ensures
        r@ == heads_permute_wgsl(),
{
    text::fill(wgsl::HEADS_PERMUTE, &row_holes_of())
}

pub open spec fn istft_irfft4096_wgsl() -> Seq<char> {
    wgsl::ISTFT_IRFFT4096@
}

/// 4096-point unnormalised inverse FFT of a one-sided Hermitian spectrum.
pub fn istft_irfft4096() -> (r: String)
    ensures
        r@ == istft_irfft4096_wgsl(),
{
    String::from_str(wgsl::ISTFT_IRFFT4096)
}

pub open spec fn stft_rfft4096_wgsl() -> Seq<char> {
    wgsl::STFT_RFFT4096@
}

/// 4096-point real forward FFT of one frame, real and imaginary parts as channels.
pub fn stft_rfft4096() -> (r: String)
    ensures
        r@ == stft_rfft4096_wgsl(),
{
    String::from_str(wgsl::STFT_RFFT4096)
}

pub open spec fn batch_moments_wgsl() -> Seq<char> {
    text::filled(wgsl::BATCH_MOMENTS@, row_holes())
}

/// Mean and unbiased deviation of each batch item.
pub fn batch_moments() -> (r: String)
    ensures
        r@ == batch_moments_wgsl(),
{
    text::fill(wgsl::BATCH_MOMENTS, &row_holes_of())
}

pub open spec fn batch_moments_partial_wgsl() -> Seq<char> {
    text::filled(wgsl::BATCH_MOMENTS_PARTIAL@, row_grid_holes())
}

/// The split moments' partial sums, one segment each.
pub fn batch_moments_partial() -> (r: String)
    ensures
        r@ == batch_moments_partial_wgsl(),
{
    text::fill(wgsl::BATCH_MOMENTS_PARTIAL, &row_grid_holes_of())
}

pub open spec fn batch_moments_combine_wgsl() -> Seq<char> {
    text::filled(wgsl::BATCH_MOMENTS_COMBINE@, row_holes())
}

/// Folds a batch item's partial sums into its moments.
pub fn batch_moments_combine() -> (r: String)
    ensures
        r@ == batch_moments_combine_wgsl(),
{
    text::fill(wgsl::BATCH_MOMENTS_COMBINE, &row_holes_of())
}

pub open spec fn batch_normalize_in_place_wgsl() -> Seq<char> {
    text::filled(wgsl::BATCH_NORMALIZE_IN_PLACE@, row_grid_holes())
}

/// `x = (x - mean) / (1e-5 + std)` per batch item, in place.
pub fn batch_normalize_in_place() -> (r: String)
    ensures
        r@ == batch_normalize_in_place_wgsl(),
{
    text::fill(wgsl::BATCH_NORMALIZE_IN_PLACE, &row_grid_holes_of())
}

pub open spec fn istft_ola_wgsl() -> Seq<char> {
    text::filled(wgsl::ISTFT_OLA@, row_grid_holes())
}

/// Overlap-add of windowed frames, divided by the window's envelope.
pub fn istft_ola() -> (r: String)
    ensures
        r@ == istft_ola_wgsl(),
{
    text::fill(wgsl::ISTFT_OLA, &row_grid_holes_of())
}

pub open spec fn batch_affine_in_place_wgsl() -> Seq<char> {
    text::filled(wgsl::BATCH_AFFINE_IN_PLACE@, row_grid_holes())
}

/// `x = x * scale + shift` per batch item, in place.
pub fn batch_affine_in_place() -> (r: String)
    ensures
        r@ == batch_affine_in_place_wgsl(),
{
    text::fill(wgsl::BATCH_AFFINE_IN_PLACE, &row_grid_holes_of())
}

// ------------------------------------------------------------ matrix products

/// The unbatched plain product of a tile, without an epilogue.
pub open spec fn plain_form(tile: Tile) -> GemmForm {
    GemmForm {
        tile,
        batched: false,
        transb: false,
        ep: GemmEpilogue::Plain,
        coalesced_b: false,
        conv_direct: false,
        a_row_exp: false,
        wide: false,
    }
}

/// The tiles the kernels are compiled for: 16x16 threads, sides a multiple of 32.
pub open spec fn compiled_tile(tile: Tile) -> bool {
    &&& tile.tx == THREADS_X
    &&& tile.ty == THREADS_Y
    &&& (tile.bm == 64 || tile.bm == 96 || tile.bm == 128)
    &&& (tile.bn == 64 || tile.bn == 128)
}

/// Every admissible combination on a compiled tile is one the generator emits.
pub proof fn lemma_compiled_forms(f: GemmForm)
    requires
        compiled_tile(f.tile),
        !(f.transb && (f.coalesced_b || f.conv_direct)),
        f.a_row_exp ==> f.batched && !f.transb && !f.conv_direct && !f.coalesced_b,
    ensures
        f.valid(),
{
    assert(f.tile.tx * f.tile.ty == 256) by (nonlinear_arith)
        requires
            f.tile.tx == 16,
            f.tile.ty == 16,
    ;
    if f.wide {
        assert(f.row_slots() == 4);
        assert(f.pw() == 20nat / 4nat);
        assert(f.slots_a() == (f.tile.bm * 4) as nat / 256);
        assert(f.slots_b() == (f.tile.bn * 4) as nat / 256);
    } else {
        assert(f.row_slots() == 8);
        assert(f.pw() == 18nat / 2nat);
        assert(f.slots_a() == (f.tile.bm * 8) as nat / 256);
        assert(f.slots_b() == (f.tile.bn * 8) as nat / 256);
    }
}

pub open spec fn gemm_f32_wgsl(batched: bool) -> Seq<char> {
    gemm_source::gemm_wgsl(GemmForm { batched, ..plain_form(Tile::square_spec()) })
}

/// The plain product `C = A @ B`, all row-major.
pub fn gemm_f32(batched: bool) -> (r: String)
    ensures
        r@ == gemm_f32_wgsl(batched),
{
    let form = GemmForm { tile: Tile::square(), batched, transb: false, ep: GemmEpilogue::Plain, coalesced_b: false, conv_direct: false, a_row_exp: false, wide: false };
    proof {
        lemma_compiled_forms(form);
    }
    gemm_source::gemm_impl_width(form)
}

pub open spec fn gemm_f32_transb_wgsl(batched: bool) -> Seq<char> {
    gemm_source::gemm_wgsl(GemmForm { batched, transb: true, ..plain_form(Tile::square_spec()) })
}

/// The product with `B` read as `(n, k)`.
pub fn gemm_f32_transb(batched: bool) -> (r: String)
    ensures
        r@ == gemm_f32_transb_wgsl(batched),
{
    let form = GemmForm { tile: Tile::square(), batched, transb: true, ep: GemmEpilogue::Plain, coalesced_b: false, conv_direct: false, a_row_exp: false, wide: false };
    proof {
        lemma_compiled_forms(form);
    }
    gemm_source::gemm_impl_width(form)
}

pub open spec fn gemm_batched_bn64_wgsl() -> Seq<char> {
    gemm_source::gemm_wgsl(GemmForm { batched: true, ..plain_form(Tile { bn: 64, ..Tile::square_spec() }) })
}

/// The batched product with 64-wide column tiles.
pub fn gemm_batched_bn64() -> (r: String)
    ensures
        r@ == gemm_batched_bn64_wgsl(),
{
    let form = GemmForm { tile: Tile::bn64(), batched: true, transb: false, ep: GemmEpilogue::Plain, coalesced_b: false, conv_direct: false, a_row_exp: false, wide: false };
    proof {
        lemma_compiled_forms(form);
    }
    gemm_source::gemm_impl_width(form)
}

pub open spec fn gemm_batched_bn64_row_exp_wgsl() -> Seq<char> {
    gemm_source::gemm_wgsl(GemmForm { batched: true, a_row_exp: true, ..plain_form(Tile { bn: 64, ..Tile::square_spec() }) })
}

/// The attention's second product with the softmax folded into the staging of
/// `A`: each score becomes `exp(a * scale - max) * inv` on the way in.
pub fn gemm_batched_bn64_row_exp() -> (r: String)
    ensures
        r@ == gemm_batched_bn64_row_exp_wgsl(),
{
    let form = GemmForm { tile: Tile::bn64(), batched: true, transb: false, ep: GemmEpilogue::Plain, coalesced_b: false, conv_direct: false, a_row_exp: true, wide: false };
    proof {
        lemma_compiled_forms(form);
    }
    gemm_source::gemm_impl_width(form)
}

pub open spec fn gemm_transb_bn64_wgsl() -> Seq<char> {
    gemm_source::gemm_wgsl(GemmForm { batched: true, transb: true, ..plain_form(Tile { bn: 64, ..Tile::square_spec() }) })
}

/// The transposed product with 64-wide column tiles.
pub fn gemm_transb_bn64() -> (r: String)
    ensures
        r@ == gemm_transb_bn64_wgsl(),
{
    let form = GemmForm { tile: Tile::bn64(), batched: true, transb: true, ep: GemmEpilogue::Plain, coalesced_b: false, conv_direct: false, a_row_exp: false, wide: false };
    proof {
        lemma_compiled_forms(form);
    }
    gemm_source::gemm_impl_width(form)
}

pub open spec fn gemm_transb_bm64_wgsl() -> Seq<char> {
    gemm_source::gemm_wgsl(GemmForm { batched: true, transb: true, ..plain_form(Tile { bm: 64, bn: 64, ..Tile::square_spec() }) })
}

/// The transposed batched product with 64x64 tiles.
pub fn gemm_transb_bm64() -> (r: String)
    ensures
        r@ == gemm_transb_bm64_wgsl(),
{
    let form = GemmForm { tile: Tile::bm64_bn64(), batched: true, transb: true, ep: GemmEpilogue::Plain, coalesced_b: false, conv_direct: false, a_row_exp: false, wide: false };
    proof {
        lemma_compiled_forms(form);
    }
    gemm_source::gemm_impl_width(form)
}

pub open spec fn gemm_batched_bm64_wgsl() -> Seq<char> {
    gemm_source::gemm_wgsl(GemmForm { batched: true, ..plain_form(Tile { bm: 64, bn: 64, ..Tile::square_spec() }) })
}

/// The plain batched product with 64x64 tiles.
pub fn gemm_batched_bm64() -> (r: String)
    ensures
        r@ == gemm_batched_bm64_wgsl(),
{
    let form = GemmForm { tile: Tile::bm64_bn64(), batched: true, transb: false, ep: GemmEpilogue::Plain, coalesced_b: false, conv_direct: false, a_row_exp: false, wide: false };
    proof {
        lemma_compiled_forms(form);
    }
    gemm_source::gemm_impl_width(form)
}

pub open spec fn gemm_bm64_wgsl() -> Seq<char> {
    gemm_source::gemm_wgsl(plain_form(Tile { bm: 64, ..Tile::square_spec() }))
}

/// The unbatched product with 64x128 tiles, for few output channels.
pub fn gemm_bm64() -> (r: String)
    ensures
        r@ == gemm_bm64_wgsl(),
{
    let form = GemmForm { tile: Tile::bm64_bn128(), batched: false, transb: false, ep: GemmEpilogue::Plain, coalesced_b: false, conv_direct: false, a_row_exp: false, wide: false };
    proof {
        lemma_compiled_forms(form);
    }
    gemm_source::gemm_impl_width(form)
}

pub open spec fn gemm_conv_direct_wgsl() -> Seq<char> {
    gemm_source::gemm_wgsl(GemmForm { coalesced_b: true, conv_direct: true, ..plain_form(Tile { bm: 64, ..Tile::square_spec() }) })
}

/// A convolution whose patch matrix is never materialised: the gather is the
/// staging of `B`. A tile must lie in one output row.
pub fn gemm_conv_direct() -> (r: String)
    ensures
        r@ == gemm_conv_direct_wgsl(),
{
    let form = GemmForm { tile: Tile::bm64_bn128(), batched: false, transb: false, ep: GemmEpilogue::Plain, coalesced_b: true, conv_direct: true, a_row_exp: false, wide: false };
    proof {
        lemma_compiled_forms(form);
    }
    gemm_source::gemm_impl_width(form)
}

pub open spec fn gemm_conv_direct_batched_wgsl() -> Seq<char> {
    gemm_source::gemm_wgsl(GemmForm { batched: true, coalesced_b: true, conv_direct: true, ..plain_form(Tile { bm: 64, ..Tile::square_spec() }) })
}

/// [`gemm_conv_direct`] over several segments.
pub fn gemm_conv_direct_batched() -> (r: String)
    ensures
        r@ == gemm_conv_direct_batched_wgsl(),
{
    let form = GemmForm { tile: Tile::bm64_bn128(), batched: true, transb: false, ep: GemmEpilogue::Plain, coalesced_b: true, conv_direct: true, a_row_exp: false, wide: false };
    proof {
        lemma_compiled_forms(form);
    }
    gemm_source::gemm_impl_width(form)
}

pub open spec fn gemm_bm64_coalesced_wgsl() -> Seq<char> {
    gemm_source::gemm_wgsl(GemmForm { coalesced_b: true, ..plain_form(Tile { bm: 64, ..Tile::square_spec() }) })
}

/// [`gemm_bm64`] with the coalesced walk of `B`.
pub fn gemm_bm64_coalesced() -> (r: String)
    ensures
        r@ == gemm_bm64_coalesced_wgsl(),
{
    let form = GemmForm { tile: Tile::bm64_bn128(), batched: false, transb: false, ep: GemmEpilogue::Plain, coalesced_b: true, conv_direct: false, a_row_exp: false, wide: false };
    proof {
        lemma_compiled_forms(form);
    }
    gemm_source::gemm_impl_width(form)
}

pub open spec fn gemm_batched_bm64_bn128_wgsl() -> Seq<char> {
    gemm_source::gemm_wgsl(GemmForm { batched: true, ..plain_form(Tile { bm: 64, ..Tile::square_spec() }) })
}

/// The batched convolution product with 64x128 tiles.
pub fn gemm_batched_bm64_bn128() -> (r: String)
    ensures
        r@ == gemm_batched_bm64_bn128_wgsl(),
{
    let form = GemmForm { tile: Tile::bm64_bn128(), batched: true, transb: false, ep: GemmEpilogue::Plain, coalesced_b: false, conv_direct: false, a_row_exp: false, wide: false };
    proof {
        lemma_compiled_forms(form);
    }
    gemm_source::gemm_impl_width(form)
}

pub open spec fn gemm_batched_bm96_bn128_wgsl() -> Seq<char> {
    gemm_source::gemm_wgsl(GemmForm { batched: true, ..plain_form(Tile { bm: 96, ..Tile::square_spec() }) })
}

/// The batched convolution product with 96x128 tiles.
pub fn gemm_batched_bm96_bn128() -> (r: String)
    ensures
        r@ == gemm_batched_bm96_bn128_wgsl(),
{
    let form = GemmForm { tile: Tile::bm96_bn128(), batched: true, transb: false, ep: GemmEpilogue::Plain, coalesced_b: false, conv_direct: false, a_row_exp: false, wide: false };
    proof {
        lemma_compiled_forms(form);
    }
    gemm_source::gemm_impl_width(form)
}

pub open spec fn gemm_batched_bm64_bn128_coalesced_wgsl() -> Seq<char> {
    gemm_source::gemm_wgsl(GemmForm { batched: true, coalesced_b: true, ..plain_form(Tile { bm: 64, ..Tile::square_spec() }) })
}

/// [`gemm_batched_bm64_bn128`] with the coalesced walk of `B`.
pub fn gemm_batched_bm64_bn128_coalesced() -> (r: String)
    ensures
        r@ == gemm_batched_bm64_bn128_coalesced_wgsl(),
{
    let form = GemmForm { tile: Tile::bm64_bn128(), batched: true, transb: false, ep: GemmEpilogue::Plain, coalesced_b: true, conv_direct: false, a_row_exp: false, wide: false };
    proof {
        lemma_compiled_forms(form);
    }
    gemm_source::gemm_impl_width(form)
}

pub open spec fn gemm_bias_wgsl() -> Seq<char> {
    gemm_source::gemm_wgsl(GemmForm { batched: true, ep: GemmEpilogue::Bias, ..plain_form(Tile::square_spec()) })
}

/// `C = A @ B + bias`.
pub fn gemm_bias() -> (r: String)
    ensures
        r@ == gemm_bias_wgsl(),
{
    let form = GemmForm { tile: Tile::square(), batched: true, transb: false, ep: GemmEpilogue::Bias, coalesced_b: false, conv_direct: false, a_row_exp: false, wide: false };
    proof {
        lemma_compiled_forms(form);
    }
    gemm_source::gemm_impl_width(form)
}

pub open spec fn gemm_transb_plain_bias_wgsl() -> Seq<char> {
    gemm_source::gemm_wgsl(GemmForm { transb: true, ep: GemmEpilogue::Bias, ..plain_form(Tile::square_spec()) })
}

/// The single-batch transposed product with the bias folded in.
pub fn gemm_transb_plain_bias() -> (r: String)
    ensures
        r@ == gemm_transb_plain_bias_wgsl(),
{
    let form = GemmForm { tile: Tile::square(), batched: false, transb: true, ep: GemmEpilogue::Bias, coalesced_b: false, conv_direct: false, a_row_exp: false, wide: false };
    proof {
        lemma_compiled_forms(form);
    }
    gemm_source::gemm_impl_width(form)
}

pub open spec fn gemm_gelu_bias_wgsl() -> Seq<char> {
    gemm_source::gemm_wgsl(GemmForm { batched: true, ep: GemmEpilogue::GeluBias, ..plain_form(Tile::square_spec()) })
}

/// `C = gelu(A @ B + bias)`.
pub fn gemm_gelu_bias() -> (r: String)
    ensures
        r@ == gemm_gelu_bias_wgsl(),
{
    let form = GemmForm { tile: Tile::square(), batched: true, transb: false, ep: GemmEpilogue::GeluBias, coalesced_b: false, conv_direct: false, a_row_exp: false, wide: false };
    proof {
        lemma_compiled_forms(form);
    }
    gemm_source::gemm_impl_width(form)
}

pub open spec fn gemm_residual_wgsl() -> Seq<char> {
    gemm_source::gemm_wgsl(GemmForm { batched: true, ep: GemmEpilogue::Residual, ..plain_form(Tile::square_spec()) })
}

/// `C += A @ B`.
pub fn gemm_residual() -> (r: String)
    ensures
        r@ == gemm_residual_wgsl(),
{
    let form = GemmForm { tile: Tile::square(), batched: true, transb: false, ep: GemmEpilogue::Residual, coalesced_b: false, conv_direct: false, a_row_exp: false, wide: false };
    proof {
        lemma_compiled_forms(form);
    }
    gemm_source::gemm_impl_width(form)
}

pub open spec fn gemm_bias_residual_wgsl() -> Seq<char> {
    gemm_source::gemm_wgsl(GemmForm { batched: true, ep: GemmEpilogue::BiasResidual, ..plain_form(Tile::square_spec()) })
}

/// `C += A @ B + bias`.
pub fn gemm_bias_residual() -> (r: String)
    ensures
        r@ == gemm_bias_residual_wgsl(),
{
    let form = GemmForm { tile: Tile::square(), batched: true, transb: false, ep: GemmEpilogue::BiasResidual, coalesced_b: false, conv_direct: false, a_row_exp: false, wide: false };
    proof {
        lemma_compiled_forms(form);
    }
    gemm_source::gemm_impl_width(form)
}

pub open spec fn gemm_gelu_residual_wgsl() -> Seq<char> {
    gemm_source::gemm_wgsl(GemmForm { batched: true, ep: GemmEpilogue::GeluResidual, ..plain_form(Tile::square_spec()) })
}

/// `C += gelu(A @ B)`.
pub fn gemm_gelu_residual() -> (r: String)
    ensures
        r@ == gemm_gelu_residual_wgsl(),
{
    let form = GemmForm { tile: Tile::square(), batched: true, transb: false, ep: GemmEpilogue::GeluResidual, coalesced_b: false, conv_direct: false, a_row_exp: false, wide: false };
    proof {
        lemma_compiled_forms(form);
    }
    gemm_source::gemm_impl_width(form)
}

pub open spec fn gemm_gelu_bias_residual_wgsl() -> Seq<char> {
    gemm_source::gemm_wgsl(GemmForm { batched: true, ep: GemmEpilogue::GeluBiasResidual, ..plain_form(Tile::square_spec()) })
}

/// `C += gelu(A @ B + bias)`.
pub fn gemm_gelu_bias_residual() -> (r: String)
    ensures
        r@ == gemm_gelu_bias_residual_wgsl(),
{
    let form = GemmForm { tile: Tile::square(), batched: true, transb: false, ep: GemmEpilogue::GeluBiasResidual, coalesced_b: false, conv_direct: false, a_row_exp: false, wide: false };
    proof {
        lemma_compiled_forms(form);
    }
    gemm_source::gemm_impl_width(form)
}

pub open spec fn row_bias_form(tile: Tile, coalesced_b: bool) -> GemmForm {
    GemmForm { batched: true, ep: GemmEpilogue::RowBias, coalesced_b, ..plain_form(tile) }
}

/// The batched product with the bias along the rows: a convolution's.
pub fn gemm_batched_row_bias(tile: Tile, coalesced_b: bool) -> (r: String)
    requires
        row_bias_form(tile, coalesced_b).valid(),
    ensures
        r@ == gemm_source::gemm_wgsl(row_bias_form(tile, coalesced_b)),
{
    gemm_source::gemm_impl_width(
        GemmForm {
            tile,
            batched: true,
            transb: false,
            ep: GemmEpilogue::RowBias,
            coalesced_b,
            conv_direct: false,
            a_row_exp: false,
            wide: false,
        },
    )
}

pub open spec fn variant_form(tile: Tile, transb: bool, ep: GemmEpilogue, wide: bool) -> GemmForm {
    GemmForm { transb, ep, wide, ..plain_form(tile) }
}

/// One unbatched product in an arbitrary form, for the probes.
pub fn gemm_variant(tile: Tile, transb: bool, ep: GemmEpilogue, wide: bool) -> (r: String)
    requires
        variant_form(tile, transb, ep, wide).valid(),
    ensures
        r@ == gemm_source::gemm_wgsl(variant_form(tile, transb, ep, wide)),
{
    gemm_source::gemm_impl_width(
        GemmForm {
            tile,
            batched: false,
            transb,
            ep,
            coalesced_b: false,
            conv_direct: false,
            a_row_exp: false,
            wide,
        },
    )
}

// -------------------------------------------------------------------- constants

/// Multiply-adds the probe issues per outer iteration: 8 chains, unrolled 4 times.
pub const FMA_PROBE_PER_ITER: usize = 32;

/// Threads per workgroup of the row-wise kernels.
pub const ROW_THREADS: usize = 256;

/// Workgroups a row-wise kernel may take along the x axis; the row is
/// `wid.x + wid.y * ROW_GRID_X`.
pub const ROW_GRID_X: usize = 65535;

/// Columns one lane of the warp normalisation covers.
pub const RMS_WARP_SLOTS: u32 = 12;

/// The widest row the warp normalisation takes.
pub const RMS_WARP_COLS: usize = 384;

/// Rows one workgroup of the warp normalisation covers.
pub const RMS_WARP_ROWS_PER_WG: usize = 8;

/// Side of the tile a transpose moves through shared memory.
pub const TRANSPOSE_TILE: usize = 32;

/// Columns one lane of the register softmax covers.
pub const SOFTMAX_SLOTS: u32 = 13;

/// Rows one workgroup of the register softmax covers.
pub const SOFTMAX_ROWS_PER_WG: usize = 1;

/// Lanes of the register softmax.
pub const SOFTMAX_LANES: usize = 64;

/// Rows one workgroup of the warp softmax covers.
pub const SOFTMAX_WARP_ROWS_PER_WG: usize = 8;

/// The widest row the warp softmax takes.
pub const SOFTMAX_WARP_COLS: usize = 64;

/// Sequences one workgroup of the recurrence covers.
pub const LSTM_ROWS: usize = 4;

/// Sequences one workgroup of the register recurrence covers.
pub const LSTM_REG_ROWS: usize = 2;

/// The widest state the register recurrence takes.
pub const LSTM_REG_MAX_HIDDEN: usize = 96;

/// The widest state the recurrence takes.
pub const LSTM_MAX_HIDDEN: usize = 128;

/// Queries one workgroup of the fused attention covers.
pub const FLASH_TILE: usize = 32;

// ------------------------------------------------------------ unrolled kernels

pub open spec fn fma_probe_wgsl(iters: nat) -> Seq<char> {
    text::filled(
        wgsl::FMA_PROBE@,
        text::no_holes().push(("init"@, text::repeated(8, |c: int| fma_init(c as nat)))).push(
            ("body"@, text::repeated(8, |c: int| fma_chain(c as nat))),
        ).push(
            ("sum"@, "acc0 + acc1 + acc2 + acc3 + acc4 + acc5 + acc6 + acc7"@),
        ).push(("iters"@, text::decimal(iters))),
    )
}

/// Chain `c` starts at `0.5 + c / 100`.
pub open spec fn fma_init(c: nat) -> Seq<char> {
    text::filled(
        "    var acc${c} = f32(gid.x) * 1e-9 + ${start};\n"@,
        text::no_holes().push(("c"@, text::decimal(c))).push(
            (
                "start"@,
                if c == 0 {
                    "0.5"@
                } else {
                    "0.5"@ + text::decimal(c)
                },
            ),
        ),
    )
}

/// The four unrolled links of chain `c`.
pub open spec fn fma_chain(c: nat) -> Seq<char> {
    let link = text::numbered_line(wgsl::FMA_PROBE_LINE@, c);
    link + link + link + link
}

/// A pure multiply-add loop, to find what the device sustains: independent
/// chains, unrolled, so that the loop's own overhead does not show.
pub fn fma_probe(iters: usize) -> (r: String)
    ensures
        r@ == fma_probe_wgsl(iters as nat),
{
    let mut init = String::new();
    let mut body = String::new();
    let mut c: usize = 0;
    while c < 8
        invariant
            c <= 8,
            init@ == text::repeated(c as nat, |c: int| fma_init(c as nat)),
            body@ == text::repeated(c as nat, |c: int| fma_chain(c as nat)),
        decreases 8 - c,
    {
        let mut start = String::from_str("0.5");
        if c > 0 {
            start.append(text::decimal_text(c as u64).as_str());
        }
        let line = text::fill(
            "    var acc${c} = f32(gid.x) * 1e-9 + ${start};\n",
            &text::Holes::new().number("c", c).text("start", start.as_str()),
        );
        init.append(line.as_str());
        let link = text::numbered_line_text(wgsl::FMA_PROBE_LINE, c);
        let ghost before = body@;
        body.append(link.as_str());
        body.append(link.as_str());
        body.append(link.as_str());
        body.append(link.as_str());
        assert(body@ =~= before + fma_chain(c as nat));
        c += 1;
    }
    text::fill(
        wgsl::FMA_PROBE,
        &text::Holes::new().text("init", init.as_str()).text("body", body.as_str()).text(
            "sum",
            "acc0 + acc1 + acc2 + acc3 + acc4 + acc5 + acc6 + acc7",
        ).number("iters", iters),
    )
}

pub open spec fn rms_norm_warp_wgsl() -> Seq<char> {
    text::filled(
        wgsl::RMS_NORM_WARP@,
        warp_holes().push(
            ("load"@, text::numbered(wgsl::RMS_WARP_LOAD_LINE@, RMS_WARP_SLOTS as nat)),
        ).push(("store"@, text::numbered(wgsl::RMS_WARP_STORE_LINE@, RMS_WARP_SLOTS as nat))),
    )
}

/// [`rms_norm`] with one warp per row, held in registers.
pub fn rms_norm_warp() -> (r: String)
    ensures
        r@ == rms_norm_warp_wgsl(),
{
    let load = text::numbered_text(wgsl::RMS_WARP_LOAD_LINE, 12);
    let store = text::numbered_text(wgsl::RMS_WARP_STORE_LINE, 12);
    text::fill(
        wgsl::RMS_NORM_WARP,
        &warp_holes_of().text("load", load.as_str()).text("store", store.as_str()),
    )
}

pub open spec fn glu_channel_affine_form(add: bool) -> Seq<char> {
    text::filled(
        wgsl::GLU_CHANNEL_AFFINE@,
        row_holes().push(
            (
                "base_decl"@,
                if add {
                    "@group(0) @binding(5) var<storage, read> Base: array<f32>;"@
                } else {
                    ""@
                },
            ),
        ).push(
            (
                "entry"@,
                if add {
                    "glu_channel_affine_add"@
                } else {
                    "glu_channel_affine"@
                },
            ),
        ).push(
            (
                "store"@,
                if add {
                    "    Out[i] = Base[i] + (value * Scale[channel] + Shift[channel]);"@
                } else {
                    "    Out[i] = value * Scale[channel] + Shift[channel];"@
                },
            ),
        ),
    )
}

pub open spec fn glu_channel_affine_wgsl() -> Seq<char> {
    glu_channel_affine_form(false)
}

pub open spec fn glu_channel_affine_add_wgsl() -> Seq<char> {
    glu_channel_affine_form(true)
}

/// Gating followed by a per-channel affine, in one pass.
pub fn glu_channel_affine() -> (r: String)
    ensures
        r@ == glu_channel_affine_wgsl(),
{
    glu_channel_affine_impl(false)
}

/// [`glu_channel_affine`] with a residual added.
pub fn glu_channel_affine_add() -> (r: String)
    ensures
        r@ == glu_channel_affine_add_wgsl(),
{
    glu_channel_affine_impl(true)
}

fn glu_channel_affine_impl(add: bool) -> (r: String)
    ensures
        r@ == glu_channel_affine_form(add),
{
    let base_decl = if add {
        "@group(0) @binding(5) var<storage, read> Base: array<f32>;"
    } else {
        ""
    };
    let entry = if add {
        "glu_channel_affine_add"
    } else {
        "glu_channel_affine"
    };
    let store = if add {
        "    Out[i] = Base[i] + (value * Scale[channel] + Shift[channel]);"
    } else {
        "    Out[i] = value * Scale[channel] + Shift[channel];"
    };
    text::fill(
        wgsl::GLU_CHANNEL_AFFINE,
        &row_holes_of().text("base_decl", base_decl).text("entry", entry).text("store", store),
    )
}

pub open spec fn channel_affine_act_form(add: bool) -> Seq<char> {
    text::filled(
        wgsl::CHANNEL_AFFINE_ACT@,
        row_holes().push(
            (
                "x_decl"@,
                if add {
                    "@group(0) @binding(0) var<storage, read> X: array<f32>;"@
                } else {
                    "@group(0) @binding(0) var<storage, read_write> X: array<f32>;"@
                },
            ),
        ).push(
            (
                "extra_decl"@,
                if add {
                    "@group(0) @binding(4) var<storage, read> Base: array<f32>;\n@group(0) @binding(5) var<storage, read_write> Out: array<f32>;"@
                } else {
                    ""@
                },
            ),
        ).push(
            (
                "entry"@,
                if add {
                    "channel_affine_act_add"@
                } else {
                    "channel_affine_act_in_place"@
                },
            ),
        ).push(
            (
                "store"@,
                if add {
                    "    Out[i] = Base[i] + value;"@
                } else {
                    "    X[i] = value;"@
                },
            ),
        ),
    )
}

pub open spec fn channel_affine_act_in_place_wgsl() -> Seq<char> {
    channel_affine_act_form(false)
}

pub open spec fn channel_affine_act_add_wgsl() -> Seq<char> {
    channel_affine_act_form(true)
}

/// A per-channel affine and an activation, in place.
pub fn channel_affine_act_in_place() -> (r: String)
    ensures
        r@ == channel_affine_act_in_place_wgsl(),
{
    channel_affine_act(false)
}

/// A per-channel affine and an activation, added to a residual.
pub fn channel_affine_act_add() -> (r: String)
    ensures
        r@ == channel_affine_act_add_wgsl(),
{
    channel_affine_act(true)
}

fn channel_affine_act(add: bool) -> (r: String)
    ensures
        r@ == channel_affine_act_form(add),
{
    let x_decl = if add {
        "@group(0) @binding(0) var<storage, read> X: array<f32>;"
    } else {
        "@group(0) @binding(0) var<storage, read_write> X: array<f32>;"
    };
    let extra_decl = if add {
        "@group(0) @binding(4) var<storage, read> Base: array<f32>;\n@group(0) @binding(5) var<storage, read_write> Out: array<f32>;"
    } else {
        ""
    };
    let entry = if add {
        "channel_affine_act_add"
    } else {
        "channel_affine_act_in_place"
    };
    let store = if add {
        "    Out[i] = Base[i] + value;"
    } else {
        "    X[i] = value;"
    };
    text::fill(
        wgsl::CHANNEL_AFFINE_ACT,
        &row_holes_of().text("x_decl", x_decl).text("extra_decl", extra_decl).text(
            "entry",
            entry,
        ).text("store", store),
    )
}

pub open spec fn softmax_in_place_wgsl() -> Seq<char> {
    text::filled(
        wgsl::SOFTMAX_IN_PLACE@,
        text::no_holes().push(("threads_n"@, text::decimal(64))).push(
            ("lanes"@, text::decimal(64)),
        ).push(("rows_per_wg"@, text::decimal(1))).push(
            ("grid_x"@, text::decimal(ROW_GRID_X as nat)),
        ).push(("load"@, text::numbered(wgsl::SOFTMAX_LOAD_LINE@, SOFTMAX_SLOTS as nat))).push(
            ("max_fold"@, text::numbered(wgsl::SOFTMAX_MAX_LINE@, SOFTMAX_SLOTS as nat)),
        ).push(("exp_fold"@, text::numbered(wgsl::SOFTMAX_EXP_LINE@, SOFTMAX_SLOTS as nat))).push(
            ("store"@, text::numbered(wgsl::SOFTMAX_STORE_LINE@, SOFTMAX_SLOTS as nat)),
        ),
    )
}

/// Softmax in place with a scale folded in, the row held in registers. Columns
/// between the row's width and its pitch are cleared.
pub fn softmax_in_place() -> (r: String)
    ensures
        r@ == softmax_in_place_wgsl(),
{
    let load = text::numbered_text(wgsl::SOFTMAX_LOAD_LINE, 13);
    let max_fold = text::numbered_text(wgsl::SOFTMAX_MAX_LINE, 13);
    let exp_fold = text::numbered_text(wgsl::SOFTMAX_EXP_LINE, 13);
    let store = text::numbered_text(wgsl::SOFTMAX_STORE_LINE, 13);
    text::fill(
        wgsl::SOFTMAX_IN_PLACE,
        &text::Holes::new().number("threads_n", 64).number("lanes", SOFTMAX_LANES).number(
            "rows_per_wg",
            SOFTMAX_ROWS_PER_WG,
        ).number("grid_x", ROW_GRID_X).text("load", load.as_str()).text(
            "max_fold",
            max_fold.as_str(),
        ).text("exp_fold", exp_fold.as_str()).text("store", store.as_str()),
    )
}

pub open spec fn flash_attention_wgsl() -> Seq<char> {
    text::filled(
        wgsl::FLASH_ATTENTION@,
        text::no_holes().push(("tile"@, text::decimal(FLASH_TILE as nat))).push(
            ("pad"@, text::decimal(65)),
        ).push(("d_head"@, text::decimal(64))).push(("threads"@, text::decimal(32))),
    )
}

/// Fused attention for heads 64 wide. One workgroup takes a block of
/// [`FLASH_TILE`] queries and streams the keys past it.
pub fn flash_attention() -> (r: String)
    ensures
        r@ == flash_attention_wgsl(),
{
    text::fill(
        wgsl::FLASH_ATTENTION,
        &text::Holes::new().number("tile", FLASH_TILE).number("pad", 65).number(
            "d_head",
            64,
        ).number("threads", 32),
    )
}

pub open spec fn lstm_recur_wgsl() -> Seq<char> {
    text::filled(
        wgsl::LSTM_RECUR@,
        row_holes().push(("max_hidden"@, text::decimal(LSTM_MAX_HIDDEN as nat))).push(
            ("rows"@, text::decimal(LSTM_ROWS as nat)),
        ).push(("state_slots"@, text::decimal((LSTM_MAX_HIDDEN * LSTM_ROWS) as nat))).push(
            ("gate_slots"@, text::decimal((LSTM_MAX_HIDDEN * 4 * LSTM_ROWS) as nat)),
        ).push(("zap"@, text::numbered(wgsl::LSTM_ZERO_LINE@, LSTM_ROWS as nat))).push(
            ("acc_decl"@, text::numbered(wgsl::LSTM_ACC_LINE@, LSTM_ROWS as nat)),
        ).push(("acc_load"@, text::numbered(wgsl::LSTM_LOAD_LINE@, LSTM_ROWS as nat))).push(
            ("dispatch"@, text::numbered(wgsl::LSTM_FMA_LINE@, LSTM_ROWS as nat)),
        ).push(("gate_store"@, text::numbered(wgsl::LSTM_STORE_LINE@, LSTM_ROWS as nat))),
    )
}

/// One direction of a single-layer recurrence, several sequences per workgroup.
pub fn lstm_recur() -> (r: String)
    ensures
        r@ == lstm_recur_wgsl(),
{
    let zero = text::numbered_text(wgsl::LSTM_ZERO_LINE, LSTM_ROWS);
    let acc_decl = text::numbered_text(wgsl::LSTM_ACC_LINE, LSTM_ROWS);
    let acc_load = text::numbered_text(wgsl::LSTM_LOAD_LINE, LSTM_ROWS);
    let step = text::numbered_text(wgsl::LSTM_FMA_LINE, LSTM_ROWS);
    let gate_store = text::numbered_text(wgsl::LSTM_STORE_LINE, LSTM_ROWS);
    text::fill(
        wgsl::LSTM_RECUR,
        &row_holes_of().number("max_hidden", LSTM_MAX_HIDDEN).number("rows", LSTM_ROWS).number(
            "state_slots",
            LSTM_MAX_HIDDEN * LSTM_ROWS,
        ).number("gate_slots", LSTM_MAX_HIDDEN * 4 * LSTM_ROWS).text("zap", zero.as_str()).text(
            "acc_decl",
            acc_decl.as_str(),
        ).text("acc_load", acc_load.as_str()).text("dispatch", step.as_str()).text(
            "gate_store",
            gate_store.as_str(),
        ),
    )
}

/// The state widths the register recurrence is compiled for.
pub open spec fn lstm_reg_width(hidden: usize) -> bool {
    4 <= hidden <= LSTM_REG_MAX_HIDDEN && hidden % 2 == 0
}

pub open spec fn lstm_recur_regs_wgsl(hidden: usize) -> Seq<char> {
    let gates = (4 * hidden) as nat;
    text::filled(
        wgsl::LSTM_RECUR_REGS@,
        text::no_holes().push(("threads"@, text::decimal(2 * gates))).push(
            ("max_hidden"@, text::decimal(LSTM_MAX_HIDDEN as nat)),
        ).push(("gate_count"@, text::decimal(gates))).push(
            ("weights_per_thread"@, text::decimal((hidden / 2) as nat)),
        ).push(("state_slots"@, text::decimal((LSTM_MAX_HIDDEN * LSTM_REG_ROWS) as nat))).push(
            ("partial_slots"@, text::decimal(2 * gates)),
        ).push(("gate_slots"@, text::decimal(gates * LSTM_REG_ROWS as nat))).push(
            ("load_weights"@, text::numbered(wgsl::LSTM_REG_LOAD_LINE@, (hidden / 2) as nat)),
        ).push(("dot"@, text::numbered(wgsl::LSTM_REG_DOT_LINE@, (hidden / 2) as nat))),
    )
}

/// The recurrence with its weights held in registers: thread `t` keeps gate
/// `t % gates` over half of the state, so the weights are loaded once.
pub fn lstm_recur_regs(hidden: usize) -> (r: String)
    requires
        lstm_reg_width(hidden),
    ensures
        r@ == lstm_recur_regs_wgsl(hidden),
{
    let gates: usize = 4 * hidden;
    let wpt: usize = hidden / 2;
    let load_weights = text::numbered_text(wgsl::LSTM_REG_LOAD_LINE, wpt);
    let dot = text::numbered_text(wgsl::LSTM_REG_DOT_LINE, wpt);
    text::fill(
        wgsl::LSTM_RECUR_REGS,
        &text::Holes::new().number("threads", 2 * gates).number(
            "max_hidden",
            LSTM_MAX_HIDDEN,
        ).number("gate_count", gates).number("weights_per_thread", wpt).number(
            "state_slots",
            LSTM_MAX_HIDDEN * LSTM_REG_ROWS,
        ).number("partial_slots", 2 * gates).number("gate_slots", gates * LSTM_REG_ROWS).text(
            "load_weights",
            load_weights.as_str(),
        ).text("dot", dot.as_str()),
    )
}

// -------------------------------------------------------------------- settings

/// A switch that is on unless it is set to `0`.
pub open spec fn unless_zero(setting: Option<&str>) -> bool {
    setting matches Some(v) ==> v@ != "0"@
}

fn unless_zero_of(setting: Option<&str>) -> (r: bool)
    ensures
        r == unless_zero(setting),
{
    match setting {
        Some(v) => !text::same_text(v, "0"),
        None => true,
    }
}

/// Whether convolutions fold their gather into the product: only where
/// `DEMUCS_CONV_DIRECT` is `1`.
pub fn conv_direct_for_convs(setting: Option<&str>) -> (r: bool)
    ensures
        r == (setting matches Some(v) && v@ == "1"@),
{
    match setting {
        Some(v) => text::same_text(v, "1"),
        None => false,
    }
}

/// Whether convolutions stage `B` with the coalesced walk: only where
/// `DEMUCS_GEMM_B_WALK` is `coalesced`.
pub fn coalesced_b_for_convs(setting: Option<&str>) -> (r: bool)
    ensures
        r == (setting matches Some(v) && v@ == "coalesced"@),
{
    match setting {
        Some(v) => text::same_text(v, "coalesced"),
        None => false,
    }
}

/// Whether a single-batch transposed product drops the batch bases, unless
/// `DEMUCS_GEMM_TRANSB_PLAIN` is `0`.
pub fn transb_plain_for_single_batch(setting: Option<&str>) -> (r: bool)
    ensures
        r == unless_zero(setting),
{
    unless_zero_of(setting)
}

/// Whether the split group normalisation may reduce a pair's partials once,
/// unless `DEMUCS_GN_COMBINE` is `0`.
pub fn group_norm_combine_stats(setting: Option<&str>) -> (r: bool)
    ensures
        r == unless_zero(setting),
{
    unless_zero_of(setting)
}

/// Whether gating and the scale behind it are one dispatch, unless
/// `DEMUCS_FUSE_GLU_SCALE` is `0`.
pub fn fuse_glu_scale(setting: Option<&str>) -> (r: bool)
    ensures
        r == unless_zero(setting),
{
    unless_zero_of(setting)
}

/// Whether a convolution's bias rides its product, unless
/// `DEMUCS_CONV_BIAS_FUSE` is `0`.
pub fn conv_bias_fuse(setting: Option<&str>) -> (r: bool)
    ensures
        r == unless_zero(setting),
{
    unless_zero_of(setting)
}

/// Whether a projection's bias rides its product, unless
/// `DEMUCS_LINEAR_BIAS_FUSE` is `0`.
pub fn linear_bias_fuse(setting: Option<&str>) -> (r: bool)
    ensures
        r == unless_zero(setting),
{
    unless_zero_of(setting)
}

/// Whether a residual rides the affine before it, unless
/// `DEMUCS_RESIDUAL_FUSE` is `0`.
pub fn residual_fuse(setting: Option<&str>) -> (r: bool)
    ensures
        r == unless_zero(setting),
{
    unless_zero_of(setting)
}

/// Whether convolutions may use the narrow row tiles, unless `DEMUCS_CONV_TILE`
/// is `128`.
pub fn bm64_for_convs(setting: Option<&str>) -> (r: bool)
    ensures
        r == (setting matches Some(v) ==> v@ != "128"@),
{
    match setting {
        Some(v) => !text::same_text(v, "128"),
        None => true,
    }
}

/// Whether convolutions may use the 96-row tile, unless `DEMUCS_CONV_TILE` is
/// `128` or `64`.
pub fn bm96_for_convs(setting: Option<&str>) -> (r: bool)
    ensures
        r == (setting matches Some(v) ==> v@ != "128"@ && v@ != "64"@),
{
    match setting {
        Some(v) => !text::same_text(v, "128") && !text::same_text(v, "64"),
        None => true,
    }
}

/// A number a setting may override; an unreadable setting counts as absent.
pub open spec fn number_or(setting: Option<&str>, default: nat) -> nat {
    match setting {
        Some(v) => match text::parsed_usize(v@) {
            Some(n) => n,
            None => default,
        },
        None => default,
    }
}

fn number_or_of(setting: Option<&str>, default: usize) -> (r: usize)
    ensures
        r == number_or(setting, default as nat),
{
    match setting {
        Some(v) => match text::parse_usize(v) {
            Ok(n) => n,
            Err(_) => default,
        },
        None => default,
    }
}

/// The smaller of a product and the largest machine word.
pub open spec fn saturating(a: nat, b: nat) -> nat {
    if a * b <= usize::MAX {
        a * b
    } else {
        usize::MAX as nat
    }
}

fn saturating_product(a: usize, b: usize) -> (r: usize)
    ensures
        r == saturating(a as nat, b as nat),
{
    match a.checked_mul(b) {
        Some(p) => p,
        None => usize::MAX,
    }
}

/// Whether `pairs` slices of `segments` segments are worth a combine dispatch:
/// replaying the partials costs `pairs * segments * segments` loads, and past the
/// limit (`DEMUCS_GN_COMBINE_WORK`, 4096 by default) the dispatch is cheaper.
pub open spec fn combine_pays(pairs: nat, segments: nat, enabled: bool, limit: nat) -> bool {
    enabled && saturating(saturating(pairs, segments), segments) > limit
}

/// Whether the combine dispatch is allowed and pays.
pub fn combine_pays_for(pairs: usize, segments: usize, enabled: bool, limit: usize) -> (r: bool)
    ensures
        r == combine_pays(pairs as nat, segments as nat, enabled, limit as nat),
{
    if !enabled {
        return false;
    }
    saturating_product(saturating_product(pairs, segments), segments) > limit
}

/// Whether a group normalisation of `pairs` slices in `segments` segments takes
/// the combine dispatch; `combine` and `work` are the settings `DEMUCS_GN_COMBINE`
/// and `DEMUCS_GN_COMBINE_WORK`.
pub fn group_norm_combine_for(
    pairs: usize,
    segments: usize,
    combine: Option<&str>,
    work: Option<&str>,
) -> (r: bool)
    ensures
        r == combine_pays(
            pairs as nat,
            segments as nat,
            unless_zero(combine),
            number_or(work, 4096),
        ),
{
    combine_pays_for(
        pairs,
        segments,
        group_norm_combine_stats(combine),
        group_norm_combine_work(work),
    )
}

/// The limit of [`group_norm_combine_for`]: `DEMUCS_GN_COMBINE_WORK` or 4096.
pub fn group_norm_combine_work(setting: Option<&str>) -> (r: usize)
    ensures
        r == number_or(setting, 4096),
{
    number_or_of(setting, 4096)
}

/// Whether the recurrence may keep its weights in registers, unless
/// `DEMUCS_LSTM_REGS` is `0`.
pub fn lstm_in_registers(setting: Option<&str>) -> (r: bool)
    ensures
        r == unless_zero(setting),
{
    unless_zero_of(setting)
}

/// Elements one workgroup of the split moments covers: `DEMUCS_BATCH_MOMENTS_SEG`
/// or 4096.
pub fn batch_moments_segment_elements(setting: Option<&str>) -> (r: usize)
    ensures
        r == number_or(setting, 4096),
{
    number_or_of(setting, 4096)
}

} // verus!
