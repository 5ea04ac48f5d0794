//! The compiled kernels: which text each one runs, and under which entry point.

use vstd::prelude::*;
use vstd::string::*;

use crate::gpu::shaders;

verus! {

/// A compiled kernel.
#[derive(Debug, Clone, Copy, PartialEq, Eq, Structural)]
pub enum Kernel {
    Gemm,
    GemmBatched,
    GemmTransb,
    GemmTransbPlain,
    GemmBm64,
    GemmBm64Coalesced,
    GemmBatchedBm64Bn128,
    GemmBatchedBm64Bn128Coalesced,
    GemmBatchedBm96Bn128,
    GemmConvDirect,
    GemmConvDirectBatched,
    GemmTransbBn64,
    GemmBatchedBn64,
    GemmBatchedBn64RowExp,
    GemmTransbBm64,
    GemmBatchedBm64,
    GemmTransbPlainBias,
    GemmBias,
    GemmGeluBias,
    GemmResidual,
    GemmBiasResidual,
    RmsNorm,
    RmsNormWarp,
    Gelu,
    GeluInPlace,
    GeluInPlaceVec4,
    Glu,
    GluChannelAffine,
    GluChannelAffineAdd,
    SigmoidGate,
    Rope,
    AddInPlace,
    MulInPlace,
    AddInPlaceVec4,
    Transpose,
    Im2col,
    FillZero,
    CropRows,
    CopyPitched,
    GroupNorm,
    GroupNormPartial,
    GroupNormCombine,
    GroupNormApply,
    GroupNormApplyFromPartials,
    LstmRecur,
    HeadsPermute,
    AddRowBiasInPlace,
    ChannelAffineActInPlace,
    ChannelAffineActAdd,
    Col2im,
    Tanh,
    TanhBiasInPlace,
    Copy,
    Softmax,
    SoftmaxInPlace,
    SoftmaxWarp,
    SoftmaxScaledWarp,
    SoftmaxStatsWarp,
    FlashAttention,
    IstftIrfft4096,
    IstftOla,
    BatchAffineInPlace,
    StftRfft4096,
    BatchMoments,
    BatchMomentsPartial,
    BatchMomentsCombine,
    BatchNormalizeInPlace,
    /// A product with the activation and the skip connection, compiled where asked for.
    GemmGeluResidual,
    /// The same with a bias.
    GemmGeluBiasResidual,
    /// The register recurrence, compiled per state width.
    LstmRecurRegs {
        hidden: usize,
    },
}

/// What a pipeline is built from.
#[verifier::ext_equal]
pub struct PipelineView {
    pub kernel: Kernel,
    pub label: Seq<char>,
    pub source: Seq<char>,
    pub entry: Seq<char>,
}

/// What a pipeline is built from.
#[derive(Debug)]
pub struct PipelineSource {
    pub kernel: Kernel,
    pub label: &'static str,
    pub source: String,
    pub entry: &'static str,
}

impl View for PipelineSource {
    type V = PipelineView;

    open spec fn view(&self) -> PipelineView {
        PipelineView {
            kernel: self.kernel,
            label: self.label@,
            source: self.source@,
            entry: self.entry@,
        }
    }
}

impl Kernel {
    /// Whether it reduces across a 32-lane subgroup.
    pub open spec fn shuffles(self) -> bool {
        self is RmsNormWarp || self is SoftmaxWarp || self is SoftmaxScaledWarp || self is SoftmaxStatsWarp
    }

    /// A width the register recurrence is compiled for; any other kernel.
    pub open spec fn buildable(self) -> bool {
        self matches Kernel::LstmRecurRegs { hidden } ==> shaders::lstm_reg_width(hidden)
    }

    /// The label, text and entry point of a kernel.
    pub open spec fn recipe(self) -> PipelineView {
        match self {
            Kernel::Gemm => PipelineView { kernel: self, label: "gemm_f32"@, source: shaders::gemm_f32_wgsl(false), entry: "gemm"@ },
            Kernel::GemmBatched => PipelineView { kernel: self, label: "gemm_f32_batched"@, source: shaders::gemm_f32_wgsl(true), entry: "gemm"@ },
            Kernel::GemmTransb => PipelineView { kernel: self, label: "gemm_f32_transb"@, source: shaders::gemm_f32_transb_wgsl(true), entry: "gemm"@ },
            Kernel::GemmTransbPlain => PipelineView { kernel: self, label: "gemm_f32_transb_plain"@, source: shaders::gemm_f32_transb_wgsl(false), entry: "gemm"@ },
            Kernel::GemmBm64 => PipelineView { kernel: self, label: "gemm_f32_bm64"@, source: shaders::gemm_bm64_wgsl(), entry: "gemm"@ },
            Kernel::GemmBm64Coalesced => PipelineView { kernel: self, label: "gemm_f32_bm64_coalesced"@, source: shaders::gemm_bm64_coalesced_wgsl(), entry: "gemm"@ },
            Kernel::GemmBatchedBm64Bn128 => PipelineView { kernel: self, label: "gemm_f32_batched_bm64_bn128"@, source: shaders::gemm_batched_bm64_bn128_wgsl(), entry: "gemm"@ },
            Kernel::GemmBatchedBm64Bn128Coalesced => PipelineView { kernel: self, label: "gemm_f32_batched_bm64_bn128_coalesced"@, source: shaders::gemm_batched_bm64_bn128_coalesced_wgsl(), entry: "gemm"@ },
            Kernel::GemmBatchedBm96Bn128 => PipelineView { kernel: self, label: "gemm_f32_batched_bm96_bn128"@, source: shaders::gemm_batched_bm96_bn128_wgsl(), entry: "gemm"@ },
            Kernel::GemmConvDirect => PipelineView { kernel: self, label: "gemm_f32_conv_direct"@, source: shaders::gemm_conv_direct_wgsl(), entry: "gemm"@ },
            Kernel::GemmConvDirectBatched => PipelineView { kernel: self, label: "gemm_f32_conv_direct_batched"@, source: shaders::gemm_conv_direct_batched_wgsl(), entry: "gemm"@ },
            Kernel::GemmTransbBn64 => PipelineView { kernel: self, label: "gemm_f32_transb_bn64"@, source: shaders::gemm_transb_bn64_wgsl(), entry: "gemm"@ },
            Kernel::GemmBatchedBn64 => PipelineView { kernel: self, label: "gemm_f32_batched_bn64"@, source: shaders::gemm_batched_bn64_wgsl(), entry: "gemm"@ },
            Kernel::GemmBatchedBn64RowExp => PipelineView { kernel: self, label: "gemm_f32_batched_bn64_row_exp"@, source: shaders::gemm_batched_bn64_row_exp_wgsl(), entry: "gemm"@ },
            Kernel::GemmTransbBm64 => PipelineView { kernel: self, label: "gemm_f32_transb_bm64"@, source: shaders::gemm_transb_bm64_wgsl(), entry: "gemm"@ },
            Kernel::GemmBatchedBm64 => PipelineView { kernel: self, label: "gemm_f32_batched_bm64"@, source: shaders::gemm_batched_bm64_wgsl(), entry: "gemm"@ },
            Kernel::GemmTransbPlainBias => PipelineView { kernel: self, label: "gemm_f32_transb_plain_bias"@, source: shaders::gemm_transb_plain_bias_wgsl(), entry: "gemm"@ },
            Kernel::GemmBias => PipelineView { kernel: self, label: "gemm_f32_bias"@, source: shaders::gemm_bias_wgsl(), entry: "gemm"@ },
            Kernel::GemmGeluBias => PipelineView { kernel: self, label: "gemm_f32_gelu_bias"@, source: shaders::gemm_gelu_bias_wgsl(), entry: "gemm"@ },
            Kernel::GemmResidual => PipelineView { kernel: self, label: "gemm_f32_residual"@, source: shaders::gemm_residual_wgsl(), entry: "gemm"@ },
            Kernel::GemmBiasResidual => PipelineView { kernel: self, label: "gemm_f32_bias_residual"@, source: shaders::gemm_bias_residual_wgsl(), entry: "gemm"@ },
            Kernel::RmsNorm => PipelineView { kernel: self, label: "rms_norm"@, source: shaders::rms_norm_wgsl(), entry: "rms_norm"@ },
            Kernel::RmsNormWarp => PipelineView { kernel: self, label: "rms_norm_warp"@, source: shaders::rms_norm_warp_wgsl(), entry: "rms_norm"@ },
            Kernel::Gelu => PipelineView { kernel: self, label: "gelu"@, source: shaders::gelu_wgsl(), entry: "gelu"@ },
            Kernel::GeluInPlace => PipelineView { kernel: self, label: "gelu_in_place"@, source: shaders::gelu_in_place_wgsl(), entry: "gelu_in_place"@ },
            Kernel::GeluInPlaceVec4 => PipelineView { kernel: self, label: "gelu_in_place_vec4"@, source: shaders::gelu_in_place_vec4_wgsl(), entry: "gelu_in_place_vec4"@ },
            Kernel::Glu => PipelineView { kernel: self, label: "glu"@, source: shaders::glu_wgsl(), entry: "glu"@ },
            Kernel::GluChannelAffine => PipelineView { kernel: self, label: "glu_channel_affine"@, source: shaders::glu_channel_affine_wgsl(), entry: "glu_channel_affine"@ },
            Kernel::GluChannelAffineAdd => PipelineView { kernel: self, label: "glu_channel_affine_add"@, source: shaders::glu_channel_affine_add_wgsl(), entry: "glu_channel_affine_add"@ },
            Kernel::SigmoidGate => PipelineView { kernel: self, label: "sigmoid_gate"@, source: shaders::sigmoid_gate_wgsl(), entry: "sigmoid_gate"@ },
            Kernel::Rope => PipelineView { kernel: self, label: "rope"@, source: shaders::rope_wgsl(), entry: "rope"@ },
            Kernel::AddInPlace => PipelineView { kernel: self, label: "add_in_place"@, source: shaders::add_in_place_wgsl(), entry: "add_in_place"@ },
            Kernel::MulInPlace => PipelineView { kernel: self, label: "mul_in_place"@, source: shaders::mul_in_place_wgsl(), entry: "mul_in_place"@ },
            Kernel::AddInPlaceVec4 => PipelineView { kernel: self, label: "add_in_place_vec4"@, source: shaders::add_in_place_vec4_wgsl(), entry: "add_in_place_vec4"@ },
            Kernel::Transpose => PipelineView { kernel: self, label: "transpose"@, source: shaders::transpose_wgsl(), entry: "transpose"@ },
            Kernel::Im2col => PipelineView { kernel: self, label: "im2col"@, source: shaders::im2col_wgsl(), entry: "im2col"@ },
            Kernel::FillZero => PipelineView { kernel: self, label: "fill_zero"@, source: shaders::fill_zero_wgsl(), entry: "fill_zero"@ },
            Kernel::CropRows => PipelineView { kernel: self, label: "crop_rows"@, source: shaders::crop_rows_wgsl(), entry: "crop_rows"@ },
            Kernel::CopyPitched => PipelineView { kernel: self, label: "copy_pitched"@, source: shaders::copy_pitched_wgsl(), entry: "copy_pitched"@ },
            Kernel::GroupNorm => PipelineView { kernel: self, label: "group_norm"@, source: shaders::group_norm_wgsl(), entry: "group_norm"@ },
            Kernel::GroupNormPartial => PipelineView { kernel: self, label: "group_norm_partial"@, source: shaders::group_norm_partial_wgsl(), entry: "group_norm_partial"@ },
            Kernel::GroupNormCombine => PipelineView { kernel: self, label: "group_norm_combine"@, source: shaders::group_norm_combine_wgsl(), entry: "group_norm_combine"@ },
            Kernel::GroupNormApply => PipelineView { kernel: self, label: "group_norm_apply"@, source: shaders::group_norm_apply_wgsl(), entry: "group_norm_apply"@ },
            Kernel::GroupNormApplyFromPartials => PipelineView { kernel: self, label: "group_norm_apply_from_partials"@, source: shaders::group_norm_apply_from_partials_wgsl(), entry: "group_norm_apply"@ },
            Kernel::LstmRecur => PipelineView { kernel: self, label: "lstm_recur"@, source: shaders::lstm_recur_wgsl(), entry: "lstm_recur"@ },
            Kernel::HeadsPermute => PipelineView { kernel: self, label: "heads_permute"@, source: shaders::heads_permute_wgsl(), entry: "heads_permute"@ },
            Kernel::AddRowBiasInPlace => PipelineView { kernel: self, label: "add_row_bias_in_place"@, source: shaders::add_row_bias_in_place_wgsl(), entry: "add_row_bias_in_place"@ },
            Kernel::ChannelAffineActInPlace => PipelineView { kernel: self, label: "channel_affine_act_in_place"@, source: shaders::channel_affine_act_in_place_wgsl(), entry: "channel_affine_act_in_place"@ },
            Kernel::ChannelAffineActAdd => PipelineView { kernel: self, label: "channel_affine_act_add"@, source: shaders::channel_affine_act_add_wgsl(), entry: "channel_affine_act_add"@ },
            Kernel::Col2im => PipelineView { kernel: self, label: "col2im"@, source: shaders::col2im_wgsl(), entry: "col2im"@ },
            Kernel::Tanh => PipelineView { kernel: self, label: "tanh_activation"@, source: shaders::tanh_wgsl(), entry: "tanh_activation"@ },
            Kernel::TanhBiasInPlace => PipelineView { kernel: self, label: "tanh_bias_in_place"@, source: shaders::tanh_bias_in_place_wgsl(), entry: "tanh_bias"@ },
            Kernel::Copy => PipelineView { kernel: self, label: "copy"@, source: shaders::copy_wgsl(), entry: "copy"@ },
            Kernel::Softmax => PipelineView { kernel: self, label: "softmax"@, source: shaders::softmax_wgsl(), entry: "softmax"@ },
            Kernel::SoftmaxInPlace => PipelineView { kernel: self, label: "softmax_in_place"@, source: shaders::softmax_in_place_wgsl(), entry: "softmax_in_place"@ },
            Kernel::SoftmaxWarp => PipelineView { kernel: self, label: "softmax_in_place_warp"@, source: shaders::softmax_warp_wgsl(), entry: "softmax_in_place"@ },
            Kernel::SoftmaxScaledWarp => PipelineView { kernel: self, label: "softmax_scaled_warp"@, source: shaders::softmax_scaled_warp_wgsl(), entry: "softmax"@ },
            Kernel::SoftmaxStatsWarp => PipelineView { kernel: self, label: "softmax_stats_warp"@, source: shaders::softmax_stats_warp_wgsl(), entry: "softmax_stats"@ },
            Kernel::FlashAttention => PipelineView { kernel: self, label: "flash_attention"@, source: shaders::flash_attention_wgsl(), entry: "flash_attention"@ },
            Kernel::IstftIrfft4096 => PipelineView { kernel: self, label: "istft_irfft4096"@, source: shaders::istft_irfft4096_wgsl(), entry: "istft_irfft4096"@ },
            Kernel::IstftOla => PipelineView { kernel: self, label: "istft_ola"@, source: shaders::istft_ola_wgsl(), entry: "istft_ola"@ },
            Kernel::BatchAffineInPlace => PipelineView { kernel: self, label: "batch_affine_in_place"@, source: shaders::batch_affine_in_place_wgsl(), entry: "batch_affine_in_place"@ },
            Kernel::StftRfft4096 => PipelineView { kernel: self, label: "stft_rfft4096"@, source: shaders::stft_rfft4096_wgsl(), entry: "stft_rfft4096"@ },
            Kernel::BatchMoments => PipelineView { kernel: self, label: "batch_moments"@, source: shaders::batch_moments_wgsl(), entry: "batch_moments"@ },
            Kernel::BatchMomentsPartial => PipelineView { kernel: self, label: "batch_moments_partial"@, source: shaders::batch_moments_partial_wgsl(), entry: "batch_moments_partial"@ },
            Kernel::BatchMomentsCombine => PipelineView { kernel: self, label: "batch_moments_combine"@, source: shaders::batch_moments_combine_wgsl(), entry: "batch_moments_combine"@ },
            Kernel::BatchNormalizeInPlace => PipelineView { kernel: self, label: "batch_normalize_in_place"@, source: shaders::batch_normalize_in_place_wgsl(), entry: "batch_normalize_in_place"@ },
            Kernel::GemmGeluResidual => PipelineView { kernel: self, label: "gemm_f32_gelu_residual"@, source: shaders::gemm_gelu_residual_wgsl(), entry: "gemm"@ },
            Kernel::GemmGeluBiasResidual => PipelineView { kernel: self, label: "gemm_f32_gelu_bias_residual"@, source: shaders::gemm_gelu_bias_residual_wgsl(), entry: "gemm"@ },
            Kernel::LstmRecurRegs { hidden } => PipelineView {
                kernel: self,
                label: "lstm_recur_regs"@,
                source: shaders::lstm_recur_regs_wgsl(hidden),
                entry: "lstm_recur_regs"@,
            },
        }
    }

    /// What this kernel's pipeline is built from.
    pub fn pipeline(self) -> (r: PipelineSource)
        requires
            self.buildable(),
        ensures
            r@ == self.recipe(),
    {
        match self {
            Kernel::Gemm => PipelineSource { kernel: self, label: "gemm_f32", source: shaders::gemm_f32(false), entry: "gemm" },
            Kernel::GemmBatched => PipelineSource { kernel: self, label: "gemm_f32_batched", source: shaders::gemm_f32(true), entry: "gemm" },
            Kernel::GemmTransb => PipelineSource { kernel: self, label: "gemm_f32_transb", source: shaders::gemm_f32_transb(true), entry: "gemm" },
            Kernel::GemmTransbPlain => PipelineSource { kernel: self, label: "gemm_f32_transb_plain", source: shaders::gemm_f32_transb(false), entry: "gemm" },
            Kernel::GemmBm64 => PipelineSource { kernel: self, label: "gemm_f32_bm64", source: shaders::gemm_bm64(), entry: "gemm" },
            Kernel::GemmBm64Coalesced => PipelineSource { kernel: self, label: "gemm_f32_bm64_coalesced", source: shaders::gemm_bm64_coalesced(), entry: "gemm" },
            Kernel::GemmBatchedBm64Bn128 => PipelineSource { kernel: self, label: "gemm_f32_batched_bm64_bn128", source: shaders::gemm_batched_bm64_bn128(), entry: "gemm" },
            Kernel::GemmBatchedBm64Bn128Coalesced => PipelineSource { kernel: self, label: "gemm_f32_batched_bm64_bn128_coalesced", source: shaders::gemm_batched_bm64_bn128_coalesced(), entry: "gemm" },
            Kernel::GemmBatchedBm96Bn128 => PipelineSource { kernel: self, label: "gemm_f32_batched_bm96_bn128", source: shaders::gemm_batched_bm96_bn128(), entry: "gemm" },
            Kernel::GemmConvDirect => PipelineSource { kernel: self, label: "gemm_f32_conv_direct", source: shaders::gemm_conv_direct(), entry: "gemm" },
            Kernel::GemmConvDirectBatched => PipelineSource { kernel: self, label: "gemm_f32_conv_direct_batched", source: shaders::gemm_conv_direct_batched(), entry: "gemm" },
            Kernel::GemmTransbBn64 => PipelineSource { kernel: self, label: "gemm_f32_transb_bn64", source: shaders::gemm_transb_bn64(), entry: "gemm" },
            Kernel::GemmBatchedBn64 => PipelineSource { kernel: self, label: "gemm_f32_batched_bn64", source: shaders::gemm_batched_bn64(), entry: "gemm" },
            Kernel::GemmBatchedBn64RowExp => PipelineSource { kernel: self, label: "gemm_f32_batched_bn64_row_exp", source: shaders::gemm_batched_bn64_row_exp(), entry: "gemm" },
            Kernel::GemmTransbBm64 => PipelineSource { kernel: self, label: "gemm_f32_transb_bm64", source: shaders::gemm_transb_bm64(), entry: "gemm" },
            Kernel::GemmBatchedBm64 => PipelineSource { kernel: self, label: "gemm_f32_batched_bm64", source: shaders::gemm_batched_bm64(), entry: "gemm" },
            Kernel::GemmTransbPlainBias => PipelineSource { kernel: self, label: "gemm_f32_transb_plain_bias", source: shaders::gemm_transb_plain_bias(), entry: "gemm" },
            Kernel::GemmBias => PipelineSource { kernel: self, label: "gemm_f32_bias", source: shaders::gemm_bias(), entry: "gemm" },
            Kernel::GemmGeluBias => PipelineSource { kernel: self, label: "gemm_f32_gelu_bias", source: shaders::gemm_gelu_bias(), entry: "gemm" },
            Kernel::GemmResidual => PipelineSource { kernel: self, label: "gemm_f32_residual", source: shaders::gemm_residual(), entry: "gemm" },
            Kernel::GemmBiasResidual => PipelineSource { kernel: self, label: "gemm_f32_bias_residual", source: shaders::gemm_bias_residual(), entry: "gemm" },
            Kernel::RmsNorm => PipelineSource { kernel: self, label: "rms_norm", source: shaders::rms_norm(), entry: "rms_norm" },
            Kernel::RmsNormWarp => PipelineSource { kernel: self, label: "rms_norm_warp", source: shaders::rms_norm_warp(), entry: "rms_norm" },
            Kernel::Gelu => PipelineSource { kernel: self, label: "gelu", source: shaders::gelu(), entry: "gelu" },
            Kernel::GeluInPlace => PipelineSource { kernel: self, label: "gelu_in_place", source: shaders::gelu_in_place(), entry: "gelu_in_place" },
            Kernel::GeluInPlaceVec4 => PipelineSource { kernel: self, label: "gelu_in_place_vec4", source: shaders::gelu_in_place_vec4(), entry: "gelu_in_place_vec4" },
            Kernel::Glu => PipelineSource { kernel: self, label: "glu", source: shaders::glu(), entry: "glu" },
            Kernel::GluChannelAffine => PipelineSource { kernel: self, label: "glu_channel_affine", source: shaders::glu_channel_affine(), entry: "glu_channel_affine" },
            Kernel::GluChannelAffineAdd => PipelineSource { kernel: self, label: "glu_channel_affine_add", source: shaders::glu_channel_affine_add(), entry: "glu_channel_affine_add" },
            Kernel::SigmoidGate => PipelineSource { kernel: self, label: "sigmoid_gate", source: shaders::sigmoid_gate(), entry: "sigmoid_gate" },
            Kernel::Rope => PipelineSource { kernel: self, label: "rope", source: shaders::rope(), entry: "rope" },
            Kernel::AddInPlace => PipelineSource { kernel: self, label: "add_in_place", source: shaders::add_in_place(), entry: "add_in_place" },
            Kernel::MulInPlace => PipelineSource { kernel: self, label: "mul_in_place", source: shaders::mul_in_place(), entry: "mul_in_place" },
            Kernel::AddInPlaceVec4 => PipelineSource { kernel: self, label: "add_in_place_vec4", source: shaders::add_in_place_vec4(), entry: "add_in_place_vec4" },
            Kernel::Transpose => PipelineSource { kernel: self, label: "transpose", source: shaders::transpose(), entry: "transpose" },
            Kernel::Im2col => PipelineSource { kernel: self, label: "im2col", source: shaders::im2col(), entry: "im2col" },
            Kernel::FillZero => PipelineSource { kernel: self, label: "fill_zero", source: shaders::fill_zero(), entry: "fill_zero" },
            Kernel::CropRows => PipelineSource { kernel: self, label: "crop_rows", source: shaders::crop_rows(), entry: "crop_rows" },
            Kernel::CopyPitched => PipelineSource { kernel: self, label: "copy_pitched", source: shaders::copy_pitched(), entry: "copy_pitched" },
            Kernel::GroupNorm => PipelineSource { kernel: self, label: "group_norm", source: shaders::group_norm(), entry: "group_norm" },
            Kernel::GroupNormPartial => PipelineSource { kernel: self, label: "group_norm_partial", source: shaders::group_norm_partial(), entry: "group_norm_partial" },
            Kernel::GroupNormCombine => PipelineSource { kernel: self, label: "group_norm_combine", source: shaders::group_norm_combine(), entry: "group_norm_combine" },
            Kernel::GroupNormApply => PipelineSource { kernel: self, label: "group_norm_apply", source: shaders::group_norm_apply(), entry: "group_norm_apply" },
            Kernel::GroupNormApplyFromPartials => PipelineSource { kernel: self, label: "group_norm_apply_from_partials", source: shaders::group_norm_apply_from_partials(), entry: "group_norm_apply" },
            Kernel::LstmRecur => PipelineSource { kernel: self, label: "lstm_recur", source: shaders::lstm_recur(), entry: "lstm_recur" },
            Kernel::HeadsPermute => PipelineSource { kernel: self, label: "heads_permute", source: shaders::heads_permute(), entry: "heads_permute" },
            Kernel::AddRowBiasInPlace => PipelineSource { kernel: self, label: "add_row_bias_in_place", source: shaders::add_row_bias_in_place(), entry: "add_row_bias_in_place" },
            Kernel::ChannelAffineActInPlace => PipelineSource { kernel: self, label: "channel_affine_act_in_place", source: shaders::channel_affine_act_in_place(), entry: "channel_affine_act_in_place" },
            Kernel::ChannelAffineActAdd => PipelineSource { kernel: self, label: "channel_affine_act_add", source: shaders::channel_affine_act_add(), entry: "channel_affine_act_add" },
            Kernel::Col2im => PipelineSource { kernel: self, label: "col2im", source: shaders::col2im(), entry: "col2im" },
            Kernel::Tanh => PipelineSource { kernel: self, label: "tanh_activation", source: shaders::tanh(), entry: "tanh_activation" },
            Kernel::TanhBiasInPlace => PipelineSource { kernel: self, label: "tanh_bias_in_place", source: shaders::tanh_bias_in_place(), entry: "tanh_bias" },
            Kernel::Copy => PipelineSource { kernel: self, label: "copy", source: shaders::copy(), entry: "copy" },
            Kernel::Softmax => PipelineSource { kernel: self, label: "softmax", source: shaders::softmax(), entry: "softmax" },
            Kernel::SoftmaxInPlace => PipelineSource { kernel: self, label: "softmax_in_place", source: shaders::softmax_in_place(), entry: "softmax_in_place" },
            Kernel::SoftmaxWarp => PipelineSource { kernel: self, label: "softmax_in_place_warp", source: shaders::softmax_warp(), entry: "softmax_in_place" },
            Kernel::SoftmaxScaledWarp => PipelineSource { kernel: self, label: "softmax_scaled_warp", source: shaders::softmax_scaled_warp(), entry: "softmax" },
            Kernel::SoftmaxStatsWarp => PipelineSource { kernel: self, label: "softmax_stats_warp", source: shaders::softmax_stats_warp(), entry: "softmax_stats" },
            Kernel::FlashAttention => PipelineSource { kernel: self, label: "flash_attention", source: shaders::flash_attention(), entry: "flash_attention" },
            Kernel::IstftIrfft4096 => PipelineSource { kernel: self, label: "istft_irfft4096", source: shaders::istft_irfft4096(), entry: "istft_irfft4096" },
            Kernel::IstftOla => PipelineSource { kernel: self, label: "istft_ola", source: shaders::istft_ola(), entry: "istft_ola" },
            Kernel::BatchAffineInPlace => PipelineSource { kernel: self, label: "batch_affine_in_place", source: shaders::batch_affine_in_place(), entry: "batch_affine_in_place" },
            Kernel::StftRfft4096 => PipelineSource { kernel: self, label: "stft_rfft4096", source: shaders::stft_rfft4096(), entry: "stft_rfft4096" },
            Kernel::BatchMoments => PipelineSource { kernel: self, label: "batch_moments", source: shaders::batch_moments(), entry: "batch_moments" },
            Kernel::BatchMomentsPartial => PipelineSource { kernel: self, label: "batch_moments_partial", source: shaders::batch_moments_partial(), entry: "batch_moments_partial" },
            Kernel::BatchMomentsCombine => PipelineSource { kernel: self, label: "batch_moments_combine", source: shaders::batch_moments_combine(), entry: "batch_moments_combine" },
            Kernel::BatchNormalizeInPlace => PipelineSource { kernel: self, label: "batch_normalize_in_place", source: shaders::batch_normalize_in_place(), entry: "batch_normalize_in_place" },
            Kernel::GemmGeluResidual => PipelineSource { kernel: self, label: "gemm_f32_gelu_residual", source: shaders::gemm_gelu_residual(), entry: "gemm" },
            Kernel::GemmGeluBiasResidual => PipelineSource { kernel: self, label: "gemm_f32_gelu_bias_residual", source: shaders::gemm_gelu_bias_residual(), entry: "gemm" },
            Kernel::LstmRecurRegs { hidden } => PipelineSource {
                kernel: self,
                label: "lstm_recur_regs",
                source: shaders::lstm_recur_regs(hidden),
                entry: "lstm_recur_regs",
            },
        }
    }
}

/// The kernels built up front, in order; those that shuffle only where the adapter
/// can.
pub open spec fn built_kernels(shuffle_reduction: bool) -> Seq<Kernel> {
    kept(all_kernels(), shuffle_reduction)
}

/// `list` without the kernels that shuffle, unless `shuffle_reduction`.
pub open spec fn kept(list: Seq<Kernel>, shuffle_reduction: bool) -> Seq<Kernel>
    decreases list.len(),
{
    if list.len() == 0 {
        Seq::empty()
    } else {
        let rest = kept(list.drop_last(), shuffle_reduction);
        if shuffle_reduction || !list.last().shuffles() {
            rest.push(list.last())
        } else {
            rest
        }
    }
}

/// Every kernel with a single form, in the order they are built.
pub open spec fn all_kernels() -> Seq<Kernel> {
    seq![
        Kernel::Gemm,
        Kernel::GemmBatched,
        Kernel::GemmTransb,
        Kernel::GemmTransbPlain,
        Kernel::GemmBm64,
        Kernel::GemmBm64Coalesced,
        Kernel::GemmBatchedBm64Bn128,
        Kernel::GemmBatchedBm64Bn128Coalesced,
        Kernel::GemmBatchedBm96Bn128,
        Kernel::GemmConvDirect,
        Kernel::GemmConvDirectBatched,
        Kernel::GemmTransbBn64,
        Kernel::GemmBatchedBn64,
        Kernel::GemmBatchedBn64RowExp,
        Kernel::GemmTransbBm64,
        Kernel::GemmBatchedBm64,
        Kernel::GemmTransbPlainBias,
        Kernel::GemmBias,
        Kernel::GemmGeluBias,
        Kernel::GemmResidual,
        Kernel::GemmBiasResidual,
        Kernel::RmsNorm,
        Kernel::RmsNormWarp,
        Kernel::Gelu,
        Kernel::GeluInPlace,
        Kernel::GeluInPlaceVec4,
        Kernel::Glu,
        Kernel::GluChannelAffine,
        Kernel::GluChannelAffineAdd,
        Kernel::SigmoidGate,
        Kernel::Rope,
        Kernel::AddInPlace,
        Kernel::MulInPlace,
        Kernel::AddInPlaceVec4,
        Kernel::Transpose,
        Kernel::Im2col,
        Kernel::FillZero,
        Kernel::CropRows,
        Kernel::CopyPitched,
        Kernel::GroupNorm,
        Kernel::GroupNormPartial,
        Kernel::GroupNormCombine,
        Kernel::GroupNormApply,
        Kernel::GroupNormApplyFromPartials,
        Kernel::LstmRecur,
        Kernel::HeadsPermute,
        Kernel::AddRowBiasInPlace,
        Kernel::ChannelAffineActInPlace,
        Kernel::ChannelAffineActAdd,
        Kernel::Col2im,
        Kernel::Tanh,
        Kernel::TanhBiasInPlace,
        Kernel::Copy,
        Kernel::Softmax,
        Kernel::SoftmaxInPlace,
        Kernel::SoftmaxWarp,
        Kernel::SoftmaxScaledWarp,
        Kernel::SoftmaxStatsWarp,
        Kernel::FlashAttention,
        Kernel::IstftIrfft4096,
        Kernel::IstftOla,
        Kernel::BatchAffineInPlace,
        Kernel::StftRfft4096,
        Kernel::BatchMoments,
        Kernel::BatchMomentsPartial,
        Kernel::BatchMomentsCombine,
        Kernel::BatchNormalizeInPlace,
    ]
}

/// The pipelines built up front.
pub open spec fn pipeline_table(shuffle_reduction: bool) -> Seq<PipelineView> {
    recipes(built_kernels(shuffle_reduction))
}

pub open spec fn recipes(list: Seq<Kernel>) -> Seq<PipelineView> {
    Seq::new(list.len(), |i: int| list[i].recipe())
}

/// The pipelines built up front: every kernel with a single form, those that
/// shuffle only where `shuffle_reduction` says the adapter can.
pub fn pipelines(shuffle_reduction: bool) -> (r: Vec<PipelineSource>)
    ensures
        Seq::new(r@.len(), |i: int| r@[i]@) == pipeline_table(shuffle_reduction),
{
    let all: Vec<Kernel> = vec![
        Kernel::Gemm,
        Kernel::GemmBatched,
        Kernel::GemmTransb,
        Kernel::GemmTransbPlain,
        Kernel::GemmBm64,
        Kernel::GemmBm64Coalesced,
        Kernel::GemmBatchedBm64Bn128,
        Kernel::GemmBatchedBm64Bn128Coalesced,
        Kernel::GemmBatchedBm96Bn128,
        Kernel::GemmConvDirect,
        Kernel::GemmConvDirectBatched,
        Kernel::GemmTransbBn64,
        Kernel::GemmBatchedBn64,
        Kernel::GemmBatchedBn64RowExp,
        Kernel::GemmTransbBm64,
        Kernel::GemmBatchedBm64,
        Kernel::GemmTransbPlainBias,
        Kernel::GemmBias,
        Kernel::GemmGeluBias,
        Kernel::GemmResidual,
        Kernel::GemmBiasResidual,
        Kernel::RmsNorm,
        Kernel::RmsNormWarp,
        Kernel::Gelu,
        Kernel::GeluInPlace,
        Kernel::GeluInPlaceVec4,
        Kernel::Glu,
        Kernel::GluChannelAffine,
        Kernel::GluChannelAffineAdd,
        Kernel::SigmoidGate,
        Kernel::Rope,
        Kernel::AddInPlace,
        Kernel::MulInPlace,
        Kernel::AddInPlaceVec4,
        Kernel::Transpose,
        Kernel::Im2col,
        Kernel::FillZero,
        Kernel::CropRows,
        Kernel::CopyPitched,
        Kernel::GroupNorm,
        Kernel::GroupNormPartial,
        Kernel::GroupNormCombine,
        Kernel::GroupNormApply,
        Kernel::GroupNormApplyFromPartials,
        Kernel::LstmRecur,
        Kernel::HeadsPermute,
        Kernel::AddRowBiasInPlace,
        Kernel::ChannelAffineActInPlace,
        Kernel::ChannelAffineActAdd,
        Kernel::Col2im,
        Kernel::Tanh,
        Kernel::TanhBiasInPlace,
        Kernel::Copy,
        Kernel::Softmax,
        Kernel::SoftmaxInPlace,
        Kernel::SoftmaxWarp,
        Kernel::SoftmaxScaledWarp,
        Kernel::SoftmaxStatsWarp,
        Kernel::FlashAttention,
        Kernel::IstftIrfft4096,
        Kernel::IstftOla,
        Kernel::BatchAffineInPlace,
        Kernel::StftRfft4096,
        Kernel::BatchMoments,
        Kernel::BatchMomentsPartial,
        Kernel::BatchMomentsCombine,
        Kernel::BatchNormalizeInPlace,
    ];
    assert(all@ =~= all_kernels());
    let mut out: Vec<PipelineSource> = Vec::new();
    let mut i: usize = 0;
    while i < all.len()
        invariant
            i <= all@.len(),
            all@ == all_kernels(),
            forall|k: int| 0 <= k < all@.len() ==> (#[trigger] all@[k]).buildable(),
            Seq::new(out@.len(), |k: int| out@[k]@) == recipes(
                kept(all@.take(i as int), shuffle_reduction),
            ),
        decreases all@.len() - i,
    {
        let kernel = all[i];
        proof {
            let next = all@.take(i as int + 1);
            assert(next.drop_last() =~= all@.take(i as int));
            assert(next.last() == kernel);
        }
        let ghost before = kept(all@.take(i as int), shuffle_reduction);
        let ghost had = out@;
        let shuffles = kernel.needs_shuffle();
        if shuffle_reduction || !shuffles {
            out.push(kernel.pipeline());
            proof {
                assert(had.len() == before.len()) by {
                    assert(Seq::new(had.len(), |k: int| had[k]@).len() == recipes(before).len());
                }
                assert forall|k: int| 0 <= k < out@.len() implies (#[trigger] out@[k])@ == recipes(
                    before.push(kernel),
                )[k] by {
                    if k < had.len() {
                        assert(Seq::new(had.len(), |k: int| had[k]@)[k] == recipes(before)[k]);
                    }
                }
                assert(Seq::new(out@.len(), |k: int| out@[k]@) =~= recipes(before.push(kernel)));
            }
        }
        i += 1;
    }
    assert(all@.take(i as int) =~= all@);
    out
}

impl Kernel {
    /// Whether it reduces across a 32-lane subgroup.
    pub fn needs_shuffle(self) -> (r: bool)
        ensures
            r == self.shuffles(),
    {
        match self {
            Kernel::RmsNormWarp => true,
            Kernel::SoftmaxWarp => true,
            Kernel::SoftmaxScaledWarp => true,
            Kernel::SoftmaxStatsWarp => true,
            _ => false,
        }
    }
}

} // verus!
