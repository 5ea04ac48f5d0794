//! The library's errors.
//!
//! An error carries the numbers and texts it reports; [`Error::message`] puts them into
//! a sentence.

use vstd::prelude::*;
use vstd::string::*;

use crate::text;

verus! {

/// What went wrong, with the numbers that show it.
#[derive(Debug, Clone, Copy, PartialEq, Eq)]
pub enum Fault {
    SliceEnd { start: usize, end: usize, len: usize },
    StatsShuffle,
    StatsLength { values: usize, rows: usize, len: usize },
    FoldedRows { a_inner: usize, lda: usize },
    FoldedStats { need: usize, len: usize },
    ConvPacking { name: &'static str, value: usize },
    GridZ { batches: usize },
    InnerCount,
    GemmOperand { operand: &'static str, have: usize, need: usize },
    EpilogueBatch,
    EpilogueTransb,
    EpiloguePlain,
    AddLength { source: usize, count: usize },
    MulLength { count: usize, out: usize, source: usize },
    MulCount { count: usize },
    Col2ImPitch { pitch: usize, positions: usize },
    Col2ImWord { pitch: usize },
    Col2ImTaps { need: usize, len: usize },
    Col2ImTarget { need: usize, len: usize },
    GroupNormZero,
    GroupNormAffine { channels: usize, gammas: usize, betas: usize },
    GroupNormLength { needed: usize, x: usize, out: usize },
    GroupNormGrid { workgroups: usize },
    LstmZero,
    LstmWidth { hidden: usize },
    LstmProjected { need: usize, len: usize },
    LstmWeights { gates: usize, hidden: usize, weights: usize, biases: usize },
    LstmTarget { need: usize, len: usize },
    LstmPacking { name: &'static str, value: usize },
    HeadsZero,
    HeadsLength { count: usize, x: usize, out: usize },
    HeadsPacking { name: &'static str, value: usize },
    HeadsCount { count: usize },
    AffineChannels { channels: usize, scales: usize, shifts: usize },
    AffinePlane,
    AffineLength { total: usize, len: usize },
    AffineOperand { total: usize, operand: &'static str, len: usize },
    RowBiasPeriod,
    RowBiasValues { need: usize, have: usize },
    RowBiasLength { need: usize, len: usize },
    ConvScratch { need: usize, batch: usize, k: usize, pitch: usize, len: usize },
    ConvWeight { need: usize, len: usize },
    ConvTarget { need: usize, len: usize },
    PitchedRows { rows: usize, dst_rows: usize },
    PitchedWord { name: &'static str, value: usize },
    PitchedSource { need: usize, len: usize },
    PitchedTarget { need: usize, len: usize },
    CropTarget { need: usize, len: usize },
    CropSource { need: usize, len: usize },
    FillCount { count: usize },
    FillLength { count: usize, len: usize },
    BatchAffinePlane { count: usize, plane: usize },
    BatchAffineValues { batch: usize },
    StftSize { nfft: usize },
    MomentsPlane { count: usize, plane: usize },
    NormalizePlane { count: usize, plane: usize },
    IspecWindow,
    IspecBins { bins: usize },
    IspecTarget { have: usize, need: usize },
    UpsampleZero,
    UpsampleWeight { need: usize, len: usize },
    UpsampleInput { need: usize, len: usize },
    UpsamplePadded { need: usize, len: usize },
    UpsampleTaps { need: usize, len: usize },
    UpsampleTarget { need: usize, len: usize },
    Im2ColPitch { pitch: usize, positions: usize },
    Im2ColWord { pitch: usize },
    Im2ColRows { rows: usize, k: usize },
    Im2ColInput { need: usize, len: usize },
    Im2ColTarget { need: usize, pitch: usize, len: usize },
    Im2ColGrid { value: usize, axis: &'static str },
    TransposeLength { batch: usize, rows: usize, cols: usize, width: usize, elements: usize },
    SoftmaxPitch { pitch: usize, cols: usize },
    SoftmaxCapacity { cols: usize },
    FlashWidth { dim_head: usize },
    ScoresLength { have: usize, need: usize },
    AttentionLength { have: usize, need: usize },
    MatrixLength { have: usize, need: usize },
    CrossNorm,
    NpyMagic,
    NpyVersion { major: usize, minor: usize },
    NpyTruncated,
    NpyNoDescr,
    NpyNoShape,
    NpyNoTuple,
    NpyPayload { have: usize, need: usize },
    NpyCount { count: usize, len: usize },
    NpyHeaderLength { axes: usize },
    HeaderShort,
    HeaderClaim { claimed: u64, len: usize },
    HeaderObject,
    TensorNoDtype,
    TensorNoShape,
    TensorNoOffsets,
    TensorOffsets,
    TensorRange { begin: u64, stop: u64, len: usize },
    TensorUncountable,
    AdapterIndex { index: usize, found: usize },
    RmsGamma { entries: usize, dim: usize },
    GluWidth { width: usize },
}

/// What went wrong, with a text that shows it: a label, a list of axes, what was read,
/// or another error's sentence.
#[derive(Debug, Clone, PartialEq, Eq)]
pub enum Detail<T = String> {
    Reshape { from: T, to: T },
    SliceAlignment { element: usize, base: u64, byte: u64, shape: T, parent: T, len: usize },
    BufferLimit { label: T, wanted: u64, limit: u64 },
    UploadSize { label: T, bytes: usize, shape: T },
    StftInput { found: T, batch: usize, channels: usize, len: usize },
    StftOutput { found: T, batch: usize, channels: usize, bins: usize, frames: usize },
    IspecShape { found: T, batch: usize, channels: usize, bins: usize, frames: usize },
    NpyHeader { reason: T },
    NpyBadShape { shape: T, reason: T },
    NpyElement { body: T },
    HeaderJson { reason: T },
    TensorDtype { dtype: T },
    TensorBytes { bytes: usize, elements: usize, dtype: T },
    TensorShape { reason: T },
    AdapterText { text: T, reason: T },
    SelectorText { text: T },
    NoAdapter { selector: T },
}

/// The library's error: which layer rejected the request, and why. The reason is
/// numbers, or numbers and texts.
#[derive(Debug, Clone, PartialEq, Eq)]
pub enum Error<T = String> {
    /// A tensor, matrix or parameter has the wrong size.
    Shape(Fault),
    /// The device, or a kernel compiled for it, cannot do what was asked.
    Gpu(Fault),
    /// A file does not hold what its format promises.
    Checkpoint(Fault),
    /// As [`Error::Shape`].
    ShapeOf(Detail<T>),
    /// As [`Error::Gpu`].
    GpuOf(Detail<T>),
    /// As [`Error::Checkpoint`].
    CheckpointOf(Detail<T>),
}

/// What an error stands for.
pub type ErrorView = Error<Seq<char>>;

impl View for Detail<String> {
    type V = Detail<Seq<char>>;

    open spec fn view(&self) -> Detail<Seq<char>> {
        match self {
            Detail::Reshape { from, to } => Detail::Reshape { from: from@, to: to@ },
            Detail::SliceAlignment { element, base, byte, shape, parent, len } => Detail::SliceAlignment { element: *element, base: *base, byte: *byte, shape: shape@, parent: parent@, len: *len },
            Detail::BufferLimit { label, wanted, limit } => Detail::BufferLimit { label: label@, wanted: *wanted, limit: *limit },
            Detail::UploadSize { label, bytes, shape } => Detail::UploadSize { label: label@, bytes: *bytes, shape: shape@ },
            Detail::StftInput { found, batch, channels, len } => Detail::StftInput { found: found@, batch: *batch, channels: *channels, len: *len },
            Detail::StftOutput { found, batch, channels, bins, frames } => Detail::StftOutput { found: found@, batch: *batch, channels: *channels, bins: *bins, frames: *frames },
            Detail::IspecShape { found, batch, channels, bins, frames } => Detail::IspecShape { found: found@, batch: *batch, channels: *channels, bins: *bins, frames: *frames },
            Detail::NpyHeader { reason } => Detail::NpyHeader { reason: reason@ },
            Detail::NpyBadShape { shape, reason } => Detail::NpyBadShape { shape: shape@, reason: reason@ },
            Detail::NpyElement { body } => Detail::NpyElement { body: body@ },
            Detail::HeaderJson { reason } => Detail::HeaderJson { reason: reason@ },
            Detail::TensorDtype { dtype } => Detail::TensorDtype { dtype: dtype@ },
            Detail::TensorBytes { bytes, elements, dtype } => Detail::TensorBytes { bytes: *bytes, elements: *elements, dtype: dtype@ },
            Detail::TensorShape { reason } => Detail::TensorShape { reason: reason@ },
            Detail::AdapterText { text, reason } => Detail::AdapterText { text: text@, reason: reason@ },
            Detail::SelectorText { text } => Detail::SelectorText { text: text@ },
            Detail::NoAdapter { selector } => Detail::NoAdapter { selector: selector@ },
        }
    }
}

impl View for Error<String> {
    type V = ErrorView;

    open spec fn view(&self) -> ErrorView {
        match self {
            Error::Shape(fault) => Error::Shape(*fault),
            Error::Gpu(fault) => Error::Gpu(*fault),
            Error::Checkpoint(fault) => Error::Checkpoint(*fault),
            Error::ShapeOf(detail) => Error::ShapeOf(detail@),
            Error::GpuOf(detail) => Error::GpuOf(detail@),
            Error::CheckpointOf(detail) => Error::CheckpointOf(detail@),
        }
    }
}

/// A result, its error as what it stands for.
pub open spec fn told<T>(r: Result<T, Error>) -> Result<T, ErrorView> {
    match r {
        Ok(value) => Ok(value),
        Err(e) => Err(e@),
    }
}

impl Detail<Seq<char>> {
    /// The sentence of a reason.
    pub open spec fn sentence(self) -> Seq<char> {
        match self {
            Detail::Reshape { from, to } => text::filled(
                "reshape from ${from} to ${to} is not length preserving"@,
                text::no_holes().push(("from"@, from)).push(("to"@, to)),
            ),
            Detail::SliceAlignment { element, base, byte, shape, parent, len } => text::filled(
                "slice at element ${element} of a tensor at byte ${base} lands on byte ${byte}, which is not a multiple of the 32-byte binding offset alignment (shape ${shape} of parent ${parent} with ${len} elements)"@,
                text::no_holes().push(("element"@, text::decimal(element as nat))).push(("base"@, text::decimal(base as nat))).push(("byte"@, text::decimal(byte as nat))).push(("shape"@, shape)).push(("parent"@, parent)).push(("len"@, text::decimal(len as nat))),
            ),
            Detail::BufferLimit { label, wanted, limit } => text::filled(
                "${label} needs ${wanted} MiB, more than the ${limit} MiB a single buffer may hold"@,
                text::no_holes().push(("label"@, label)).push(("wanted"@, text::decimal(wanted as nat))).push(("limit"@, text::decimal(limit as nat))),
            ),
            Detail::UploadSize { label, bytes, shape } => text::filled(
                "${label}: ${bytes} bytes do not fit ${shape}"@,
                text::no_holes().push(("label"@, label)).push(("bytes"@, text::decimal(bytes as nat))).push(("shape"@, shape)),
            ),
            Detail::StftInput { found, batch, channels, len } => text::filled(
                "stft padded shape ${found} != [${batch}, ${channels}, ${len}]"@,
                text::no_holes().push(("found"@, found)).push(("batch"@, text::decimal(batch as nat))).push(("channels"@, text::decimal(channels as nat))).push(("len"@, text::decimal(len as nat))),
            ),
            Detail::StftOutput { found, batch, channels, bins, frames } => text::filled(
                "stft out shape ${found} != [${batch}, ${channels}, ${bins}, ${frames}]"@,
                text::no_holes().push(("found"@, found)).push(("batch"@, text::decimal(batch as nat))).push(("channels"@, text::decimal(channels as nat))).push(("bins"@, text::decimal(bins as nat))).push(("frames"@, text::decimal(frames as nat))),
            ),
            Detail::IspecShape { found, batch, channels, bins, frames } => text::filled(
                "ispec_cac spec shape ${found} != [${batch}, ${channels}, ${bins}, ${frames}]"@,
                text::no_holes().push(("found"@, found)).push(("batch"@, text::decimal(batch as nat))).push(("channels"@, text::decimal(channels as nat))).push(("bins"@, text::decimal(bins as nat))).push(("frames"@, text::decimal(frames as nat))),
            ),
            Detail::NpyHeader { reason } => text::filled(
                "invalid .npy header: ${reason}"@,
                text::no_holes().push(("reason"@, reason)),
            ),
            Detail::NpyBadShape { shape, reason } => text::filled(
                "bad npy shape `${shape}`: ${reason}"@,
                text::no_holes().push(("shape"@, shape)).push(("reason"@, reason)),
            ),
            Detail::NpyElement { body } => text::filled(
                "unsupported .npy dtype descriptor `${body}`"@,
                text::no_holes().push(("body"@, body)),
            ),
            Detail::HeaderJson { reason } => text::filled(
                "safetensors header is not JSON: ${reason}"@,
                text::no_holes().push(("reason"@, reason)),
            ),
            Detail::TensorDtype { dtype } => text::filled(
                "unsupported safetensors dtype ${dtype}"@,
                text::no_holes().push(("dtype"@, dtype)),
            ),
            Detail::TensorBytes { bytes, elements, dtype } => text::filled(
                "${bytes} data bytes do not match ${elements} elements of ${dtype}"@,
                text::no_holes().push(("bytes"@, text::decimal(bytes as nat))).push(("elements"@, text::decimal(elements as nat))).push(("dtype"@, dtype)),
            ),
            Detail::TensorShape { reason } => text::filled(
                "${reason}"@,
                text::no_holes().push(("reason"@, reason)),
            ),
            Detail::AdapterText { text, reason } => text::filled(
                "bad adapter index `${text}`: ${reason}"@,
                text::no_holes().push(("text"@, text)).push(("reason"@, reason)),
            ),
            Detail::SelectorText { text } => text::filled(
                "`${text}` is neither a runtime (`vulkan`, `metal`, `dx12`, `gl`) nor a plain name"@,
                text::no_holes().push(("text"@, text)),
            ),
            Detail::NoAdapter { selector } => text::filled(
                "no adapter matched ${selector}; run `demucs kernels` to list what is available"@,
                text::no_holes().push(("selector"@, selector)),
            ),
        }
    }
}

impl Detail<String> {
    /// The sentence of a reason.
    pub fn message(&self) -> (r: String)
        ensures
            r@ == self@.sentence(),
    {
        match self {
            Detail::Reshape { from, to } => text::fill(
                "reshape from ${from} to ${to} is not length preserving",
                &text::Holes::new().text("from", from.as_str()).text("to", to.as_str()),
            ),
            Detail::SliceAlignment { element, base, byte, shape, parent, len } => text::fill(
                "slice at element ${element} of a tensor at byte ${base} lands on byte ${byte}, which is not a multiple of the 32-byte binding offset alignment (shape ${shape} of parent ${parent} with ${len} elements)",
                &text::Holes::new().number("element", *element).word("base", *base).word("byte", *byte).text("shape", shape.as_str()).text("parent", parent.as_str()).number("len", *len),
            ),
            Detail::BufferLimit { label, wanted, limit } => text::fill(
                "${label} needs ${wanted} MiB, more than the ${limit} MiB a single buffer may hold",
                &text::Holes::new().text("label", label.as_str()).word("wanted", *wanted).word("limit", *limit),
            ),
            Detail::UploadSize { label, bytes, shape } => text::fill(
                "${label}: ${bytes} bytes do not fit ${shape}",
                &text::Holes::new().text("label", label.as_str()).number("bytes", *bytes).text("shape", shape.as_str()),
            ),
            Detail::StftInput { found, batch, channels, len } => text::fill(
                "stft padded shape ${found} != [${batch}, ${channels}, ${len}]",
                &text::Holes::new().text("found", found.as_str()).number("batch", *batch).number("channels", *channels).number("len", *len),
            ),
            Detail::StftOutput { found, batch, channels, bins, frames } => text::fill(
                "stft out shape ${found} != [${batch}, ${channels}, ${bins}, ${frames}]",
                &text::Holes::new().text("found", found.as_str()).number("batch", *batch).number("channels", *channels).number("bins", *bins).number("frames", *frames),
            ),
            Detail::IspecShape { found, batch, channels, bins, frames } => text::fill(
                "ispec_cac spec shape ${found} != [${batch}, ${channels}, ${bins}, ${frames}]",
                &text::Holes::new().text("found", found.as_str()).number("batch", *batch).number("channels", *channels).number("bins", *bins).number("frames", *frames),
            ),
            Detail::NpyHeader { reason } => text::fill(
                "invalid .npy header: ${reason}",
                &text::Holes::new().text("reason", reason.as_str()),
            ),
            Detail::NpyBadShape { shape, reason } => text::fill(
                "bad npy shape `${shape}`: ${reason}",
                &text::Holes::new().text("shape", shape.as_str()).text("reason", reason.as_str()),
            ),
            Detail::NpyElement { body } => text::fill(
                "unsupported .npy dtype descriptor `${body}`",
                &text::Holes::new().text("body", body.as_str()),
            ),
            Detail::HeaderJson { reason } => text::fill(
                "safetensors header is not JSON: ${reason}",
                &text::Holes::new().text("reason", reason.as_str()),
            ),
            Detail::TensorDtype { dtype } => text::fill(
                "unsupported safetensors dtype ${dtype}",
                &text::Holes::new().text("dtype", dtype.as_str()),
            ),
            Detail::TensorBytes { bytes, elements, dtype } => text::fill(
                "${bytes} data bytes do not match ${elements} elements of ${dtype}",
                &text::Holes::new().number("bytes", *bytes).number("elements", *elements).text("dtype", dtype.as_str()),
            ),
            Detail::TensorShape { reason } => text::fill(
                "${reason}",
                &text::Holes::new().text("reason", reason.as_str()),
            ),
            Detail::AdapterText { text, reason } => text::fill(
                "bad adapter index `${text}`: ${reason}",
                &text::Holes::new().text("text", text.as_str()).text("reason", reason.as_str()),
            ),
            Detail::SelectorText { text } => text::fill(
                "`${text}` is neither a runtime (`vulkan`, `metal`, `dx12`, `gl`) nor a plain name",
                &text::Holes::new().text("text", text.as_str()),
            ),
            Detail::NoAdapter { selector } => text::fill(
                "no adapter matched ${selector}; run `demucs kernels` to list what is available",
                &text::Holes::new().text("selector", selector.as_str()),
            ),
        }
    }
}

impl Fault {
    /// The sentence of a fault.
    pub open spec fn sentence(self) -> Seq<char> {
        match self {
            Fault::SliceEnd { start, end, len } => text::filled(
                "slice [${start}, ${end}) runs past a tensor of ${len}"@,
                text::no_holes().push(("start"@, text::decimal(start as nat))).push(("end"@, text::decimal(end as nat))).push(("len"@, text::decimal(len as nat))),
            ),
            Fault::StatsShuffle => "softmax stats needs the 32-lane subgroup reduction"@,
            Fault::StatsLength { values, rows, len } => text::filled(
                "softmax stats writes ${values} values for ${rows} rows, the tensor holds ${len}"@,
                text::no_holes().push(("values"@, text::decimal(values as nat))).push(("rows"@, text::decimal(rows as nat))).push(("len"@, text::decimal(len as nat))),
            ),
            Fault::FoldedRows { a_inner, lda } => text::filled(
                "the folded softmax needs whole rows: a_inner ${a_inner} is not a multiple of lda ${lda}"@,
                text::no_holes().push(("a_inner"@, text::decimal(a_inner as nat))).push(("lda"@, text::decimal(lda as nat))),
            ),
            Fault::FoldedStats { need, len } => text::filled(
                "the folded softmax needs ${need} statistics, the tensor holds ${len}"@,
                text::no_holes().push(("need"@, text::decimal(need as nat))).push(("len"@, text::decimal(len as nat))),
            ),
            Fault::ConvPacking { name, value } => text::filled(
                "conv-direct parameter ${name}=${value} does not fit the kernel's 16-bit packing"@,
                text::no_holes().push(("name"@, name@)).push(("value"@, text::decimal(value as nat))),
            ),
            Fault::GridZ { batches } => text::filled(
                "${batches} batches overflows the z grid dimension"@,
                text::no_holes().push(("batches"@, text::decimal(batches as nat))),
            ),
            Fault::InnerCount => "inner_count must be at least 1"@,
            Fault::GemmOperand { operand, have, need } => text::filled(
                "GEMM operand ${operand} holds ${have} elements, the job indexes up to ${need}"@,
                text::no_holes().push(("operand"@, operand@)).push(("have"@, text::decimal(have as nat))).push(("need"@, text::decimal(need as nat))),
            ),
            Fault::EpilogueBatch => "the bias/GELU epilogue is compiled for single-batch GEMMs only"@,
            Fault::EpilogueTransb => "the transb epilogue is bias-only, single-batch"@,
            Fault::EpiloguePlain => "the plain epilogue is `gemm_into`"@,
            Fault::AddLength { source, count } => text::filled(
                "cannot add ${source} elements into ${count}: the source must match or divide it"@,
                text::no_holes().push(("source"@, text::decimal(source as nat))).push(("count"@, text::decimal(count as nat))),
            ),
            Fault::MulLength { count, out, source } => text::filled(
                "mul_in_place covers ${count} elements, the tensors hold ${out} and ${source}"@,
                text::no_holes().push(("count"@, text::decimal(count as nat))).push(("out"@, text::decimal(out as nat))).push(("source"@, text::decimal(source as nat))),
            ),
            Fault::MulCount { count } => text::filled(
                "mul_in_place covers ${count} elements, more than a u32"@,
                text::no_holes().push(("count"@, text::decimal(count as nat))),
            ),
            Fault::Col2ImPitch { pitch, positions } => text::filled(
                "col2im pitch ${pitch} is narrower than its ${positions} input positions"@,
                text::no_holes().push(("pitch"@, text::decimal(pitch as nat))).push(("positions"@, text::decimal(positions as nat))),
            ),
            Fault::Col2ImWord { pitch } => text::filled(
                "col2im pitch ${pitch} overflows a u32"@,
                text::no_holes().push(("pitch"@, text::decimal(pitch as nat))),
            ),
            Fault::Col2ImTaps { need, len } => text::filled(
                "col2im reads ${need} tap elements, the tensor holds ${len}"@,
                text::no_holes().push(("need"@, text::decimal(need as nat))).push(("len"@, text::decimal(len as nat))),
            ),
            Fault::Col2ImTarget { need, len } => text::filled(
                "col2im writes ${need} elements, the target holds ${len}"@,
                text::no_holes().push(("need"@, text::decimal(need as nat))).push(("len"@, text::decimal(len as nat))),
            ),
            Fault::GroupNormZero => "group_norm needs non-zero rows, groups, per_group and len"@,
            Fault::GroupNormAffine { channels, gammas, betas } => text::filled(
                "group_norm has ${channels} channels but ${gammas} gammas and ${betas} betas"@,
                text::no_holes().push(("channels"@, text::decimal(channels as nat))).push(("gammas"@, text::decimal(gammas as nat))).push(("betas"@, text::decimal(betas as nat))),
            ),
            Fault::GroupNormLength { needed, x, out } => text::filled(
                "group_norm covers ${needed} elements, the tensors hold ${x} and ${out}"@,
                text::no_holes().push(("needed"@, text::decimal(needed as nat))).push(("x"@, text::decimal(x as nat))).push(("out"@, text::decimal(out as nat))),
            ),
            Fault::GroupNormGrid { workgroups } => text::filled(
                "group_norm needs ${workgroups} workgroups, more than the grid can address"@,
                text::no_holes().push(("workgroups"@, text::decimal(workgroups as nat))),
            ),
            Fault::LstmZero => "lstm_recur needs non-zero dimensions"@,
            Fault::LstmWidth { hidden } => text::filled(
                "lstm_recur is compiled for hidden <= 128, this layer has ${hidden}"@,
                text::no_holes().push(("hidden"@, text::decimal(hidden as nat))),
            ),
            Fault::LstmProjected { need, len } => text::filled(
                "lstm_recur reads ${need} projected elements, the tensor holds ${len}"@,
                text::no_holes().push(("need"@, text::decimal(need as nat))).push(("len"@, text::decimal(len as nat))),
            ),
            Fault::LstmWeights { gates, hidden, weights, biases } => text::filled(
                "lstm_recur needs a (${gates}, ${hidden}) weight and a ${gates}-element bias, the tensors hold ${weights} and ${biases}"@,
                text::no_holes().push(("gates"@, text::decimal(gates as nat))).push(("hidden"@, text::decimal(hidden as nat))).push(("weights"@, text::decimal(weights as nat))).push(("biases"@, text::decimal(biases as nat))),
            ),
            Fault::LstmTarget { need, len } => text::filled(
                "lstm_recur writes ${need} elements, the target holds ${len}"@,
                text::no_holes().push(("need"@, text::decimal(need as nat))).push(("len"@, text::decimal(len as nat))),
            ),
            Fault::LstmPacking { name, value } => text::filled(
                "lstm_recur parameter ${name}=${value} does not fit the kernel's 16-bit packing"@,
                text::no_holes().push(("name"@, name@)).push(("value"@, text::decimal(value as nat))),
            ),
            Fault::HeadsZero => "heads_permute needs non-zero batches, heads, per_head, t and f"@,
            Fault::HeadsLength { count, x, out } => text::filled(
                "heads_permute moves ${count} elements, the tensors hold ${x} and ${out}"@,
                text::no_holes().push(("count"@, text::decimal(count as nat))).push(("x"@, text::decimal(x as nat))).push(("out"@, text::decimal(out as nat))),
            ),
            Fault::HeadsPacking { name, value } => text::filled(
                "heads_permute parameter ${name}=${value} does not fit the kernel's 16-bit packing"@,
                text::no_holes().push(("name"@, name@)).push(("value"@, text::decimal(value as nat))),
            ),
            Fault::HeadsCount { count } => text::filled(
                "heads_permute moves ${count} elements, more than a u32"@,
                text::no_holes().push(("count"@, text::decimal(count as nat))),
            ),
            Fault::AffineChannels { channels, scales, shifts } => text::filled(
                "an affine of ${channels} channels was given ${scales} scales and ${shifts} shifts"@,
                text::no_holes().push(("channels"@, text::decimal(channels as nat))).push(("scales"@, text::decimal(scales as nat))).push(("shifts"@, text::decimal(shifts as nat))),
            ),
            Fault::AffinePlane => "affine needs a non-zero plane"@,
            Fault::AffineLength { total, len } => text::filled(
                "affine covers ${total} elements, the tensor holds ${len}"@,
                text::no_holes().push(("total"@, text::decimal(total as nat))).push(("len"@, text::decimal(len as nat))),
            ),
            Fault::AffineOperand { total, operand, len } => text::filled(
                "affine covers ${total} elements, `${operand}` holds ${len}"@,
                text::no_holes().push(("total"@, text::decimal(total as nat))).push(("operand"@, operand@)).push(("len"@, text::decimal(len as nat))),
            ),
            Fault::RowBiasPeriod => "a row bias repeats every 0 rows"@,
            Fault::RowBiasValues { need, have } => text::filled(
                "a row bias of ${need} values was given ${have}"@,
                text::no_holes().push(("need"@, text::decimal(need as nat))).push(("have"@, text::decimal(have as nat))),
            ),
            Fault::RowBiasLength { need, len } => text::filled(
                "add_row_bias needs ${need} elements, the tensor holds ${len}"@,
                text::no_holes().push(("need"@, text::decimal(need as nat))).push(("len"@, text::decimal(len as nat))),
            ),
            Fault::ConvScratch { need, batch, k, pitch, len } => text::filled(
                "conv2d needs a patch scratch of ${need} elements (batch ${batch} x k ${k} x pitch ${pitch}), the tensor holds ${len}"@,
                text::no_holes().push(("need"@, text::decimal(need as nat))).push(("batch"@, text::decimal(batch as nat))).push(("k"@, text::decimal(k as nat))).push(("pitch"@, text::decimal(pitch as nat))).push(("len"@, text::decimal(len as nat))),
            ),
            Fault::ConvWeight { need, len } => text::filled(
                "conv2d needs a padded weight of ${need} elements, the tensor holds ${len}"@,
                text::no_holes().push(("need"@, text::decimal(need as nat))).push(("len"@, text::decimal(len as nat))),
            ),
            Fault::ConvTarget { need, len } => text::filled(
                "conv2d writes ${need} elements, the target holds ${len}"@,
                text::no_holes().push(("need"@, text::decimal(need as nat))).push(("len"@, text::decimal(len as nat))),
            ),
            Fault::PitchedRows { rows, dst_rows } => text::filled(
                "copy_pitched has ${rows} rows per batch but the destination holds ${dst_rows}"@,
                text::no_holes().push(("rows"@, text::decimal(rows as nat))).push(("dst_rows"@, text::decimal(dst_rows as nat))),
            ),
            Fault::PitchedWord { name, value } => text::filled(
                "copy_pitched parameter ${name}=${value} overflows a u32"@,
                text::no_holes().push(("name"@, name@)).push(("value"@, text::decimal(value as nat))),
            ),
            Fault::PitchedSource { need, len } => text::filled(
                "copy_pitched reads ${need} input elements, the tensor holds ${len}"@,
                text::no_holes().push(("need"@, text::decimal(need as nat))).push(("len"@, text::decimal(len as nat))),
            ),
            Fault::PitchedTarget { need, len } => text::filled(
                "copy_pitched writes ${need} elements, the target holds ${len}"@,
                text::no_holes().push(("need"@, text::decimal(need as nat))).push(("len"@, text::decimal(len as nat))),
            ),
            Fault::CropTarget { need, len } => text::filled(
                "crop_rows writes ${need} elements, the target holds ${len}"@,
                text::no_holes().push(("need"@, text::decimal(need as nat))).push(("len"@, text::decimal(len as nat))),
            ),
            Fault::CropSource { need, len } => text::filled(
                "crop_rows reads ${need} elements per the given strides, the tensor holds ${len}"@,
                text::no_holes().push(("need"@, text::decimal(need as nat))).push(("len"@, text::decimal(len as nat))),
            ),
            Fault::FillCount { count } => text::filled(
                "fill_zero covers ${count} elements, more than a u32"@,
                text::no_holes().push(("count"@, text::decimal(count as nat))),
            ),
            Fault::FillLength { count, len } => text::filled(
                "fill_zero covers ${count} elements, the tensor holds ${len}"@,
                text::no_holes().push(("count"@, text::decimal(count as nat))).push(("len"@, text::decimal(len as nat))),
            ),
            Fault::BatchAffinePlane { count, plane } => text::filled(
                "batch affine: ${count} elements are not a multiple of plane ${plane}"@,
                text::no_holes().push(("count"@, text::decimal(count as nat))).push(("plane"@, text::decimal(plane as nat))),
            ),
            Fault::BatchAffineValues { batch } => text::filled(
                "batch affine: scale/shift need ${batch} values"@,
                text::no_holes().push(("batch"@, text::decimal(batch as nat))),
            ),
            Fault::StftSize { nfft } => text::filled(
                "stft_cac needs nfft=4096, got ${nfft}"@,
                text::no_holes().push(("nfft"@, text::decimal(nfft as nat))),
            ),
            Fault::MomentsPlane { count, plane } => text::filled(
                "batch moments: ${count} is not a multiple of plane ${plane}"@,
                text::no_holes().push(("count"@, text::decimal(count as nat))).push(("plane"@, text::decimal(plane as nat))),
            ),
            Fault::NormalizePlane { count, plane } => text::filled(
                "batch normalize: ${count} is not a multiple of plane ${plane}"@,
                text::no_holes().push(("count"@, text::decimal(count as nat))).push(("plane"@, text::decimal(plane as nat))),
            ),
            Fault::IspecWindow => "istft window is shorter than nfft=4096"@,
            Fault::IspecBins { bins } => text::filled(
                "ispec_cac expected 2048 bins, got ${bins}"@,
                text::no_holes().push(("bins"@, text::decimal(bins as nat))),
            ),
            Fault::IspecTarget { have, need } => text::filled(
                "ispec_cac out holds ${have} elements, need ${need}"@,
                text::no_holes().push(("have"@, text::decimal(have as nat))).push(("need"@, text::decimal(need as nat))),
            ),
            Fault::UpsampleZero => "conv_transpose2d needs non-zero dimensions"@,
            Fault::UpsampleWeight { need, len } => text::filled(
                "conv_transpose2d needs a padded weight of ${need} elements, the tensor holds ${len}"@,
                text::no_holes().push(("need"@, text::decimal(need as nat))).push(("len"@, text::decimal(len as nat))),
            ),
            Fault::UpsampleInput { need, len } => text::filled(
                "conv_transpose2d needs ${need} input elements, the tensor holds ${len}"@,
                text::no_holes().push(("need"@, text::decimal(need as nat))).push(("len"@, text::decimal(len as nat))),
            ),
            Fault::UpsamplePadded { need, len } => text::filled(
                "conv_transpose2d needs a padded input of ${need} elements, the tensor holds ${len}"@,
                text::no_holes().push(("need"@, text::decimal(need as nat))).push(("len"@, text::decimal(len as nat))),
            ),
            Fault::UpsampleTaps { need, len } => text::filled(
                "conv_transpose2d needs a tap scratch of ${need} elements, the tensor holds ${len}"@,
                text::no_holes().push(("need"@, text::decimal(need as nat))).push(("len"@, text::decimal(len as nat))),
            ),
            Fault::UpsampleTarget { need, len } => text::filled(
                "conv_transpose2d writes ${need} elements, the target holds ${len}"@,
                text::no_holes().push(("need"@, text::decimal(need as nat))).push(("len"@, text::decimal(len as nat))),
            ),
            Fault::Im2ColPitch { pitch, positions } => text::filled(
                "im2col pitch ${pitch} is narrower than its ${positions} positions"@,
                text::no_holes().push(("pitch"@, text::decimal(pitch as nat))).push(("positions"@, text::decimal(positions as nat))),
            ),
            Fault::Im2ColWord { pitch } => text::filled(
                "im2col pitch ${pitch} overflows a u32"@,
                text::no_holes().push(("pitch"@, text::decimal(pitch as nat))),
            ),
            Fault::Im2ColRows { rows, k } => text::filled(
                "im2col has ${rows} rows per batch but the gather writes ${k}"@,
                text::no_holes().push(("rows"@, text::decimal(rows as nat))).push(("k"@, text::decimal(k as nat))),
            ),
            Fault::Im2ColInput { need, len } => text::filled(
                "im2col needs ${need} input elements, the tensor holds ${len}"@,
                text::no_holes().push(("need"@, text::decimal(need as nat))).push(("len"@, text::decimal(len as nat))),
            ),
            Fault::Im2ColTarget { need, pitch, len } => text::filled(
                "im2col writes ${need} elements at pitch ${pitch}, the target holds ${len}"@,
                text::no_holes().push(("need"@, text::decimal(need as nat))).push(("pitch"@, text::decimal(pitch as nat))).push(("len"@, text::decimal(len as nat))),
            ),
            Fault::Im2ColGrid { value, axis } => text::filled(
                "im2col needs ${value} workgroups on the ${axis} grid axis, over the 65535 cap"@,
                text::no_holes().push(("value"@, text::decimal(value as nat))).push(("axis"@, axis@)),
            ),
            Fault::TransposeLength { batch, rows, cols, width, elements } => text::filled(
                "transpose ${batch}x${rows}x${cols}x${width} needs ${elements} elements on both sides"@,
                text::no_holes().push(("batch"@, text::decimal(batch as nat))).push(("rows"@, text::decimal(rows as nat))).push(("cols"@, text::decimal(cols as nat))).push(("width"@, text::decimal(width as nat))).push(("elements"@, text::decimal(elements as nat))),
            ),
            Fault::SoftmaxPitch { pitch, cols } => text::filled(
                "softmax pitch ${pitch} is narrower than its ${cols} columns"@,
                text::no_holes().push(("pitch"@, text::decimal(pitch as nat))).push(("cols"@, text::decimal(cols as nat))),
            ),
            Fault::SoftmaxCapacity { cols } => text::filled(
                "softmax rows of ${cols} columns exceed the kernel's register cache (832 = 13 slots x 64 lanes); widen SOFTMAX_SLOTS"@,
                text::no_holes().push(("cols"@, text::decimal(cols as nat))),
            ),
            Fault::FlashWidth { dim_head } => text::filled(
                "flash attention is compiled for dim_head 64, got ${dim_head}"@,
                text::no_holes().push(("dim_head"@, text::decimal(dim_head as nat))),
            ),
            Fault::ScoresLength { have, need } => text::filled(
                "score scratch holds ${have} elements, needs ${need}"@,
                text::no_holes().push(("have"@, text::decimal(have as nat))).push(("need"@, text::decimal(need as nat))),
            ),
            Fault::AttentionLength { have, need } => text::filled(
                "attention output holds ${have} elements, needs ${need}"@,
                text::no_holes().push(("have"@, text::decimal(have as nat))).push(("need"@, text::decimal(need as nat))),
            ),
            Fault::MatrixLength { have, need } => text::filled(
                "matrix holds ${have} elements, expected ${need}"@,
                text::no_holes().push(("have"@, text::decimal(have as nat))).push(("need"@, text::decimal(need as nat))),
            ),
            Fault::CrossNorm => "cross layer without norm3"@,
            Fault::NpyMagic => "not a .npy file (bad magic)"@,
            Fault::NpyVersion { major, minor } => text::filled(
                "unsupported .npy version ${major}.${minor}"@,
                text::no_holes().push(("major"@, text::decimal(major as nat))).push(("minor"@, text::decimal(minor as nat))),
            ),
            Fault::NpyTruncated => "truncated .npy header"@,
            Fault::NpyNoDescr => "npy header has no descr"@,
            Fault::NpyNoShape => "npy header has no shape"@,
            Fault::NpyNoTuple => "npy shape is not a tuple"@,
            Fault::NpyPayload { have, need } => text::filled(
                "npy payload holds ${have} bytes, need ${need}"@,
                text::no_holes().push(("have"@, text::decimal(have as nat))).push(("need"@, text::decimal(need as nat))),
            ),
            Fault::NpyHeaderLength { axes } => text::filled(
                "npy writer got ${axes} axes, more than a version 1.0 header can list"@,
                text::no_holes().push(("axes"@, text::decimal(axes as nat))),
            ),
            Fault::NpyCount { count, len } => text::filled(
                "npy writer got ${count} slots from the shape but ${len} values"@,
                text::no_holes().push(("count"@, text::decimal(count as nat))).push(("len"@, text::decimal(len as nat))),
            ),
            Fault::HeaderShort => "safetensors file is shorter than its header length"@,
            Fault::HeaderClaim { claimed, len } => text::filled(
                "safetensors header claims ${claimed} bytes but the file holds ${len}"@,
                text::no_holes().push(("claimed"@, text::decimal(claimed as nat))).push(("len"@, text::decimal(len as nat))),
            ),
            Fault::HeaderObject => "safetensors header is not an object"@,
            Fault::TensorNoDtype => "no dtype"@,
            Fault::TensorNoShape => "no shape"@,
            Fault::TensorNoOffsets => "no data_offsets"@,
            Fault::TensorOffsets => "malformed data_offsets"@,
            Fault::TensorUncountable => "the shape counts more elements than there can be"@,
            Fault::TensorRange { begin, stop, len } => text::filled(
                "data range [${begin}, ${stop}) is outside the ${len} data bytes"@,
                text::no_holes().push(("begin"@, text::decimal(begin as nat))).push(("stop"@, text::decimal(stop as nat))).push(("len"@, text::decimal(len as nat))),
            ),
            Fault::AdapterIndex { index, found } => text::filled(
                "adapter index ${index} does not exist (${found} found)"@,
                text::no_holes().push(("index"@, text::decimal(index as nat))).push(("found"@, text::decimal(found as nat))),
            ),
            Fault::RmsGamma { entries, dim } => text::filled(
                "rms_norm gamma has ${entries} entries but the feature dim is ${dim}"@,
                text::no_holes().push(("entries"@, text::decimal(entries as nat))).push(("dim"@, text::decimal(dim as nat))),
            ),
            Fault::GluWidth { width } => text::filled(
                "GLU needs an even feature width, found ${width}"@,
                text::no_holes().push(("width"@, text::decimal(width as nat))),
            ),
        }
    }

    /// The sentence of a fault.
    pub fn message(&self) -> (r: String)
        ensures
            r@ == self.sentence(),
    {
        match *self {
            Fault::SliceEnd { start, end, len } => text::fill(
                "slice [${start}, ${end}) runs past a tensor of ${len}",
                &text::Holes::new().number("start", start).number("end", end).number("len", len),
            ),
            Fault::StatsShuffle => String::from_str("softmax stats needs the 32-lane subgroup reduction"),
            Fault::StatsLength { values, rows, len } => text::fill(
                "softmax stats writes ${values} values for ${rows} rows, the tensor holds ${len}",
                &text::Holes::new().number("values", values).number("rows", rows).number("len", len),
            ),
            Fault::FoldedRows { a_inner, lda } => text::fill(
                "the folded softmax needs whole rows: a_inner ${a_inner} is not a multiple of lda ${lda}",
                &text::Holes::new().number("a_inner", a_inner).number("lda", lda),
            ),
            Fault::FoldedStats { need, len } => text::fill(
                "the folded softmax needs ${need} statistics, the tensor holds ${len}",
                &text::Holes::new().number("need", need).number("len", len),
            ),
            Fault::ConvPacking { name, value } => text::fill(
                "conv-direct parameter ${name}=${value} does not fit the kernel's 16-bit packing",
                &text::Holes::new().text("name", name).number("value", value),
            ),
            Fault::GridZ { batches } => text::fill(
                "${batches} batches overflows the z grid dimension",
                &text::Holes::new().number("batches", batches),
            ),
            Fault::InnerCount => String::from_str("inner_count must be at least 1"),
            Fault::GemmOperand { operand, have, need } => text::fill(
                "GEMM operand ${operand} holds ${have} elements, the job indexes up to ${need}",
                &text::Holes::new().text("operand", operand).number("have", have).number("need", need),
            ),
            Fault::EpilogueBatch => String::from_str("the bias/GELU epilogue is compiled for single-batch GEMMs only"),
            Fault::EpilogueTransb => String::from_str("the transb epilogue is bias-only, single-batch"),
            Fault::EpiloguePlain => String::from_str("the plain epilogue is `gemm_into`"),
            Fault::AddLength { source, count } => text::fill(
                "cannot add ${source} elements into ${count}: the source must match or divide it",
                &text::Holes::new().number("source", source).number("count", count),
            ),
            Fault::MulLength { count, out, source } => text::fill(
                "mul_in_place covers ${count} elements, the tensors hold ${out} and ${source}",
                &text::Holes::new().number("count", count).number("out", out).number("source", source),
            ),
            Fault::MulCount { count } => text::fill(
                "mul_in_place covers ${count} elements, more than a u32",
                &text::Holes::new().number("count", count),
            ),
            Fault::Col2ImPitch { pitch, positions } => text::fill(
                "col2im pitch ${pitch} is narrower than its ${positions} input positions",
                &text::Holes::new().number("pitch", pitch).number("positions", positions),
            ),
            Fault::Col2ImWord { pitch } => text::fill(
                "col2im pitch ${pitch} overflows a u32",
                &text::Holes::new().number("pitch", pitch),
            ),
            Fault::Col2ImTaps { need, len } => text::fill(
                "col2im reads ${need} tap elements, the tensor holds ${len}",
                &text::Holes::new().number("need", need).number("len", len),
            ),
            Fault::Col2ImTarget { need, len } => text::fill(
                "col2im writes ${need} elements, the target holds ${len}",
                &text::Holes::new().number("need", need).number("len", len),
            ),
            Fault::GroupNormZero => String::from_str("group_norm needs non-zero rows, groups, per_group and len"),
            Fault::GroupNormAffine { channels, gammas, betas } => text::fill(
                "group_norm has ${channels} channels but ${gammas} gammas and ${betas} betas",
                &text::Holes::new().number("channels", channels).number("gammas", gammas).number("betas", betas),
            ),
            Fault::GroupNormLength { needed, x, out } => text::fill(
                "group_norm covers ${needed} elements, the tensors hold ${x} and ${out}",
                &text::Holes::new().number("needed", needed).number("x", x).number("out", out),
            ),
            Fault::GroupNormGrid { workgroups } => text::fill(
                "group_norm needs ${workgroups} workgroups, more than the grid can address",
                &text::Holes::new().number("workgroups", workgroups),
            ),
            Fault::LstmZero => String::from_str("lstm_recur needs non-zero dimensions"),
            Fault::LstmWidth { hidden } => text::fill(
                "lstm_recur is compiled for hidden <= 128, this layer has ${hidden}",
                &text::Holes::new().number("hidden", hidden),
            ),
            Fault::LstmProjected { need, len } => text::fill(
                "lstm_recur reads ${need} projected elements, the tensor holds ${len}",
                &text::Holes::new().number("need", need).number("len", len),
            ),
            Fault::LstmWeights { gates, hidden, weights, biases } => text::fill(
                "lstm_recur needs a (${gates}, ${hidden}) weight and a ${gates}-element bias, the tensors hold ${weights} and ${biases}",
                &text::Holes::new().number("gates", gates).number("hidden", hidden).number("weights", weights).number("biases", biases),
            ),
            Fault::LstmTarget { need, len } => text::fill(
                "lstm_recur writes ${need} elements, the target holds ${len}",
                &text::Holes::new().number("need", need).number("len", len),
            ),
            Fault::LstmPacking { name, value } => text::fill(
                "lstm_recur parameter ${name}=${value} does not fit the kernel's 16-bit packing",
                &text::Holes::new().text("name", name).number("value", value),
            ),
            Fault::HeadsZero => String::from_str("heads_permute needs non-zero batches, heads, per_head, t and f"),
            Fault::HeadsLength { count, x, out } => text::fill(
                "heads_permute moves ${count} elements, the tensors hold ${x} and ${out}",
                &text::Holes::new().number("count", count).number("x", x).number("out", out),
            ),
            Fault::HeadsPacking { name, value } => text::fill(
                "heads_permute parameter ${name}=${value} does not fit the kernel's 16-bit packing",
                &text::Holes::new().text("name", name).number("value", value),
            ),
            Fault::HeadsCount { count } => text::fill(
                "heads_permute moves ${count} elements, more than a u32",
                &text::Holes::new().number("count", count),
            ),
            Fault::AffineChannels { channels, scales, shifts } => text::fill(
                "an affine of ${channels} channels was given ${scales} scales and ${shifts} shifts",
                &text::Holes::new().number("channels", channels).number("scales", scales).number("shifts", shifts),
            ),
            Fault::AffinePlane => String::from_str("affine needs a non-zero plane"),
            Fault::AffineLength { total, len } => text::fill(
                "affine covers ${total} elements, the tensor holds ${len}",
                &text::Holes::new().number("total", total).number("len", len),
            ),
            Fault::AffineOperand { total, operand, len } => text::fill(
                "affine covers ${total} elements, `${operand}` holds ${len}",
                &text::Holes::new().number("total", total).text("operand", operand).number("len", len),
            ),
            Fault::RowBiasPeriod => String::from_str("a row bias repeats every 0 rows"),
            Fault::RowBiasValues { need, have } => text::fill(
                "a row bias of ${need} values was given ${have}",
                &text::Holes::new().number("need", need).number("have", have),
            ),
            Fault::RowBiasLength { need, len } => text::fill(
                "add_row_bias needs ${need} elements, the tensor holds ${len}",
                &text::Holes::new().number("need", need).number("len", len),
            ),
            Fault::ConvScratch { need, batch, k, pitch, len } => text::fill(
                "conv2d needs a patch scratch of ${need} elements (batch ${batch} x k ${k} x pitch ${pitch}), the tensor holds ${len}",
                &text::Holes::new().number("need", need).number("batch", batch).number("k", k).number("pitch", pitch).number("len", len),
            ),
            Fault::ConvWeight { need, len } => text::fill(
                "conv2d needs a padded weight of ${need} elements, the tensor holds ${len}",
                &text::Holes::new().number("need", need).number("len", len),
            ),
            Fault::ConvTarget { need, len } => text::fill(
                "conv2d writes ${need} elements, the target holds ${len}",
                &text::Holes::new().number("need", need).number("len", len),
            ),
            Fault::PitchedRows { rows, dst_rows } => text::fill(
                "copy_pitched has ${rows} rows per batch but the destination holds ${dst_rows}",
                &text::Holes::new().number("rows", rows).number("dst_rows", dst_rows),
            ),
            Fault::PitchedWord { name, value } => text::fill(
                "copy_pitched parameter ${name}=${value} overflows a u32",
                &text::Holes::new().text("name", name).number("value", value),
            ),
            Fault::PitchedSource { need, len } => text::fill(
                "copy_pitched reads ${need} input elements, the tensor holds ${len}",
                &text::Holes::new().number("need", need).number("len", len),
            ),
            Fault::PitchedTarget { need, len } => text::fill(
                "copy_pitched writes ${need} elements, the target holds ${len}",
                &text::Holes::new().number("need", need).number("len", len),
            ),
            Fault::CropTarget { need, len } => text::fill(
                "crop_rows writes ${need} elements, the target holds ${len}",
                &text::Holes::new().number("need", need).number("len", len),
            ),
            Fault::CropSource { need, len } => text::fill(
                "crop_rows reads ${need} elements per the given strides, the tensor holds ${len}",
                &text::Holes::new().number("need", need).number("len", len),
            ),
            Fault::FillCount { count } => text::fill(
                "fill_zero covers ${count} elements, more than a u32",
                &text::Holes::new().number("count", count),
            ),
            Fault::FillLength { count, len } => text::fill(
                "fill_zero covers ${count} elements, the tensor holds ${len}",
                &text::Holes::new().number("count", count).number("len", len),
            ),
            Fault::BatchAffinePlane { count, plane } => text::fill(
                "batch affine: ${count} elements are not a multiple of plane ${plane}",
                &text::Holes::new().number("count", count).number("plane", plane),
            ),
            Fault::BatchAffineValues { batch } => text::fill(
                "batch affine: scale/shift need ${batch} values",
                &text::Holes::new().number("batch", batch),
            ),
            Fault::StftSize { nfft } => text::fill(
                "stft_cac needs nfft=4096, got ${nfft}",
                &text::Holes::new().number("nfft", nfft),
            ),
            Fault::MomentsPlane { count, plane } => text::fill(
                "batch moments: ${count} is not a multiple of plane ${plane}",
                &text::Holes::new().number("count", count).number("plane", plane),
            ),
            Fault::NormalizePlane { count, plane } => text::fill(
                "batch normalize: ${count} is not a multiple of plane ${plane}",
                &text::Holes::new().number("count", count).number("plane", plane),
            ),
            Fault::IspecWindow => String::from_str("istft window is shorter than nfft=4096"),
            Fault::IspecBins { bins } => text::fill(
                "ispec_cac expected 2048 bins, got ${bins}",
                &text::Holes::new().number("bins", bins),
            ),
            Fault::IspecTarget { have, need } => text::fill(
                "ispec_cac out holds ${have} elements, need ${need}",
                &text::Holes::new().number("have", have).number("need", need),
            ),
            Fault::UpsampleZero => String::from_str("conv_transpose2d needs non-zero dimensions"),
            Fault::UpsampleWeight { need, len } => text::fill(
                "conv_transpose2d needs a padded weight of ${need} elements, the tensor holds ${len}",
                &text::Holes::new().number("need", need).number("len", len),
            ),
            Fault::UpsampleInput { need, len } => text::fill(
                "conv_transpose2d needs ${need} input elements, the tensor holds ${len}",
                &text::Holes::new().number("need", need).number("len", len),
            ),
            Fault::UpsamplePadded { need, len } => text::fill(
                "conv_transpose2d needs a padded input of ${need} elements, the tensor holds ${len}",
                &text::Holes::new().number("need", need).number("len", len),
            ),
            Fault::UpsampleTaps { need, len } => text::fill(
                "conv_transpose2d needs a tap scratch of ${need} elements, the tensor holds ${len}",
                &text::Holes::new().number("need", need).number("len", len),
            ),
            Fault::UpsampleTarget { need, len } => text::fill(
                "conv_transpose2d writes ${need} elements, the target holds ${len}",
                &text::Holes::new().number("need", need).number("len", len),
            ),
            Fault::Im2ColPitch { pitch, positions } => text::fill(
                "im2col pitch ${pitch} is narrower than its ${positions} positions",
                &text::Holes::new().number("pitch", pitch).number("positions", positions),
            ),
            Fault::Im2ColWord { pitch } => text::fill(
                "im2col pitch ${pitch} overflows a u32",
                &text::Holes::new().number("pitch", pitch),
            ),
            Fault::Im2ColRows { rows, k } => text::fill(
                "im2col has ${rows} rows per batch but the gather writes ${k}",
                &text::Holes::new().number("rows", rows).number("k", k),
            ),
            Fault::Im2ColInput { need, len } => text::fill(
                "im2col needs ${need} input elements, the tensor holds ${len}",
                &text::Holes::new().number("need", need).number("len", len),
            ),
            Fault::Im2ColTarget { need, pitch, len } => text::fill(
                "im2col writes ${need} elements at pitch ${pitch}, the target holds ${len}",
                &text::Holes::new().number("need", need).number("pitch", pitch).number("len", len),
            ),
            Fault::Im2ColGrid { value, axis } => text::fill(
                "im2col needs ${value} workgroups on the ${axis} grid axis, over the 65535 cap",
                &text::Holes::new().number("value", value).text("axis", axis),
            ),
            Fault::TransposeLength { batch, rows, cols, width, elements } => text::fill(
                "transpose ${batch}x${rows}x${cols}x${width} needs ${elements} elements on both sides",
                &text::Holes::new().number("batch", batch).number("rows", rows).number("cols", cols).number("width", width).number("elements", elements),
            ),
            Fault::SoftmaxPitch { pitch, cols } => text::fill(
                "softmax pitch ${pitch} is narrower than its ${cols} columns",
                &text::Holes::new().number("pitch", pitch).number("cols", cols),
            ),
            Fault::SoftmaxCapacity { cols } => text::fill(
                "softmax rows of ${cols} columns exceed the kernel's register cache (832 = 13 slots x 64 lanes); widen SOFTMAX_SLOTS",
                &text::Holes::new().number("cols", cols),
            ),
            Fault::FlashWidth { dim_head } => text::fill(
                "flash attention is compiled for dim_head 64, got ${dim_head}",
                &text::Holes::new().number("dim_head", dim_head),
            ),
            Fault::ScoresLength { have, need } => text::fill(
                "score scratch holds ${have} elements, needs ${need}",
                &text::Holes::new().number("have", have).number("need", need),
            ),
            Fault::AttentionLength { have, need } => text::fill(
                "attention output holds ${have} elements, needs ${need}",
                &text::Holes::new().number("have", have).number("need", need),
            ),
            Fault::MatrixLength { have, need } => text::fill(
                "matrix holds ${have} elements, expected ${need}",
                &text::Holes::new().number("have", have).number("need", need),
            ),
            Fault::CrossNorm => String::from_str("cross layer without norm3"),
            Fault::NpyMagic => String::from_str("not a .npy file (bad magic)"),
            Fault::NpyVersion { major, minor } => text::fill(
                "unsupported .npy version ${major}.${minor}",
                &text::Holes::new().number("major", major).number("minor", minor),
            ),
            Fault::NpyTruncated => String::from_str("truncated .npy header"),
            Fault::NpyNoDescr => String::from_str("npy header has no descr"),
            Fault::NpyNoShape => String::from_str("npy header has no shape"),
            Fault::NpyNoTuple => String::from_str("npy shape is not a tuple"),
            Fault::NpyPayload { have, need } => text::fill(
                "npy payload holds ${have} bytes, need ${need}",
                &text::Holes::new().number("have", have).number("need", need),
            ),
            Fault::NpyHeaderLength { axes } => text::fill(
                "npy writer got ${axes} axes, more than a version 1.0 header can list",
                &text::Holes::new().number("axes", axes),
            ),
            Fault::NpyCount { count, len } => text::fill(
                "npy writer got ${count} slots from the shape but ${len} values",
                &text::Holes::new().number("count", count).number("len", len),
            ),
            Fault::HeaderShort => String::from_str("safetensors file is shorter than its header length"),
            Fault::HeaderClaim { claimed, len } => text::fill(
                "safetensors header claims ${claimed} bytes but the file holds ${len}",
                &text::Holes::new().word("claimed", claimed).number("len", len),
            ),
            Fault::HeaderObject => String::from_str("safetensors header is not an object"),
            Fault::TensorNoDtype => String::from_str("no dtype"),
            Fault::TensorNoShape => String::from_str("no shape"),
            Fault::TensorNoOffsets => String::from_str("no data_offsets"),
            Fault::TensorOffsets => String::from_str("malformed data_offsets"),
            Fault::TensorUncountable => String::from_str(
                "the shape counts more elements than there can be",
            ),
            Fault::TensorRange { begin, stop, len } => text::fill(
                "data range [${begin}, ${stop}) is outside the ${len} data bytes",
                &text::Holes::new().word("begin", begin).word("stop", stop).number("len", len),
            ),
            Fault::AdapterIndex { index, found } => text::fill(
                "adapter index ${index} does not exist (${found} found)",
                &text::Holes::new().number("index", index).number("found", found),
            ),
            Fault::RmsGamma { entries, dim } => text::fill(
                "rms_norm gamma has ${entries} entries but the feature dim is ${dim}",
                &text::Holes::new().number("entries", entries).number("dim", dim),
            ),
            Fault::GluWidth { width } => text::fill(
                "GLU needs an even feature width, found ${width}",
                &text::Holes::new().number("width", width),
            ),
        }
    }
}

impl Error<Seq<char>> {
    /// The sentence of an error.
    pub open spec fn sentence(self) -> Seq<char> {
        match self {
            Error::Shape(fault) => fault.sentence(),
            Error::Gpu(fault) => fault.sentence(),
            Error::Checkpoint(fault) => fault.sentence(),
            Error::ShapeOf(detail) => detail.sentence(),
            Error::GpuOf(detail) => detail.sentence(),
            Error::CheckpointOf(detail) => detail.sentence(),
        }
    }
}

impl Error<String> {
    /// The sentence of an error.
    pub fn message(&self) -> (r: String)
        ensures
            r@ == self@.sentence(),
    {
        match self {
            Error::Shape(fault) => fault.message(),
            Error::Gpu(fault) => fault.message(),
            Error::Checkpoint(fault) => fault.message(),
            Error::ShapeOf(detail) => detail.message(),
            Error::GpuOf(detail) => detail.message(),
            Error::CheckpointOf(detail) => detail.message(),
        }
    }
}

} // verus!
