//! Bringing the model's weights into the layouts the kernels read.
//!
//! Elements are 32-bit patterns throughout: the layouts move numbers and never
//! compute with them.

use vstd::prelude::*;
use vstd::string::*;

use crate::error::{Error, Fault};
use crate::gpu::arith;
use crate::gpu::pass::Pass;
use crate::gpu::recorder;
use crate::gpu::recorder::Plan;
use crate::gpu::shaders;
use crate::gpu::shapes;
use crate::gpu::stages::{GpuConv, GpuConvT};
use crate::gpu::tensor;
use crate::gpu::tensor::DevTensor;

verus! {

// ------------------------------------------------------------------ host weights

/// A convolution as a checkpoint stores it: `(out, in, kh, kw)` or `(out, in, k)`;
/// a transposed one has its first two axes the other way round.
#[derive(Debug)]
pub struct ConvW {
    pub weight: Vec<u32>,
    pub bias: Vec<u32>,
    pub shape: Vec<usize>,
}

/// The kernel's height and width.
pub open spec fn kernel_of(shape: Seq<usize>) -> (usize, usize) {
    if shape.len() == 4 {
        (shape[2], shape[3])
    } else {
        (1, shape[2])
    }
}

fn kernel(shape: &Vec<usize>) -> (r: (usize, usize))
    requires
        shape@.len() == 3 || shape@.len() == 4,
    ensures
        r == kernel_of(shape@),
{
    if shape.len() == 4 {
        (shape[2], shape[3])
    } else {
        (1, shape[2])
    }
}

/// One layer of a residual branch.
#[derive(Debug)]
pub struct DConvLayerW {
    pub conv1: ConvW,
    pub norm1_weight: Vec<u32>,
    pub norm1_bias: Vec<u32>,
    pub conv2: ConvW,
    pub norm2_weight: Vec<u32>,
    pub norm2_bias: Vec<u32>,
    pub gamma: Vec<u32>,
}

/// A residual branch.
#[derive(Debug)]
pub struct DConvW {
    pub channels: usize,
    pub layers: Vec<DConvLayerW>,
}

/// One layer of an encoder.
#[derive(Debug)]
pub struct EncLayerW {
    pub conv: ConvW,
    pub rewrite: ConvW,
    pub dconv: DConvW,
}

/// One layer of a decoder.
#[derive(Debug)]
pub struct DecLayerW {
    pub rewrite: ConvW,
    pub dconv: DConvW,
    pub conv_tr: ConvW,
}

/// A normalisation.
#[derive(Debug)]
pub struct LayerNormW {
    pub weight: Vec<u32>,
    pub bias: Vec<u32>,
}

/// A projection, `(out, in)` row by row.
#[derive(Debug)]
pub struct LinearW {
    pub weight: Vec<u32>,
    pub bias: Vec<u32>,
    pub out_features: usize,
    pub in_features: usize,
}

/// One layer of the transformer.
#[derive(Debug)]
pub struct TransformerLayerW {
    pub is_cross: bool,
    pub q_weight: Vec<u32>,
    pub q_bias: Vec<u32>,
    pub k_weight: Vec<u32>,
    pub k_bias: Vec<u32>,
    pub v_weight: Vec<u32>,
    pub v_bias: Vec<u32>,
    pub out_proj: LinearW,
    pub linear1: LinearW,
    pub linear2: LinearW,
    pub norm1: LayerNormW,
    pub norm2: LayerNormW,
    pub norm3: Option<LayerNormW>,
    pub norm_out: LayerNormW,
    pub gamma1: Vec<u32>,
    pub gamma2: Vec<u32>,
}

/// The transformer.
#[derive(Debug)]
pub struct TransformerW {
    pub layers: Vec<TransformerLayerW>,
    pub layers_t: Vec<TransformerLayerW>,
    pub norm_in: LayerNormW,
    pub norm_in_t: LayerNormW,
    pub channels: usize,
}

/// Every weight of the model.
#[derive(Debug)]
pub struct HtdemucsWeights {
    pub encoder: Vec<EncLayerW>,
    pub tencoder: Vec<EncLayerW>,
    /// The frequency embedding, `(frequencies, channels)`, scaled as it is added.
    pub freq_emb: Vec<u32>,
    pub freq_emb_rows: usize,
    pub freq_emb_columns: usize,
    pub transformer: TransformerW,
    pub channel_upsampler: LinearW,
    pub channel_upsampler_t: LinearW,
    pub channel_downsampler: LinearW,
    pub channel_downsampler_t: LinearW,
    pub decoder: Vec<DecLayerW>,
    pub tdecoder: Vec<DecLayerW>,
}

// ---------------------------------------------------------------------- vectors

/// The plan of uploading a vector as it is.
pub open spec fn vector_plan(s: Plan, words: Seq<u32>, label: Seq<char>) -> Plan {
    s.upload(seq![words.len() as usize], words, label)
}

/// Whether a vector can be uploaded.
pub open spec fn vector_fits(words: Seq<u32>) -> bool {
    recorder::roundable((4 * words.len()) as nat)
}

pub(crate) fn copied(words: &Vec<u32>) -> (r: Vec<u32>)
    ensures
        r@ == words@,
{
    let r = words.clone();
    assert(r@ =~= words@);
    r
}

pub(crate) fn repeated(word: u32, n: usize) -> (r: Vec<u32>)
    ensures
        r@ == Seq::new(n as nat, |i: int| word),
{
    let mut r: Vec<u32> = Vec::new();
    let mut i: usize = 0;
    while i < n
        invariant
            i <= n,
            r@ == Seq::new(i as nat, |j: int| word),
        decreases n - i,
    {
        r.push(word);
        i += 1;
        assert(r@ =~= Seq::new(i as nat, |j: int| word));
    }
    assert(r@ =~= Seq::new(n as nat, |i: int| word));
    r
}

pub(crate) fn upload_vector(pass: &mut Pass, words: &Vec<u32>, label: &str) -> (r: DevTensor)
    requires
        vector_fits(words@),
    ensures
        final(pass)@ == vector_plan(old(pass)@, words@, label@),
        r@ == old(pass)@.fresh(seq![words@.len() as usize]),
        r.wf(),
{
    upload_owned(pass, copied(words), label)
}

pub(crate) fn upload_owned(pass: &mut Pass, words: Vec<u32>, label: &str) -> (r: DevTensor)
    requires
        vector_fits(words@),
    ensures
        final(pass)@ == vector_plan(old(pass)@, words@, label@),
        r@ == old(pass)@.fresh(seq![words@.len() as usize]),
        r.wf(),
{
    let dims: Vec<usize> = vec![words.len()];
    proof {
        assert(dims@ =~= seq![words@.len() as usize]);
        tensor::lemma_axes_1(dims@);
    }
    pass.upload(dims, words, label)
}

/// `words` as a tensor of `len` elements.
pub(crate) fn upload_sized(pass: &mut Pass, len: usize, words: &Vec<u32>, label: &str) -> (r: DevTensor)
    requires
        recorder::roundable((4 * len) as nat),
        4 * words@.len() <= usize::MAX,
    ensures
        final(pass)@ == old(pass)@.upload(seq![len], words@, label@),
        r@ == old(pass)@.fresh(seq![len]),
        r.wf(),
{
    let dims: Vec<usize> = vec![len];
    proof {
        assert(dims@ =~= seq![len]);
        tensor::lemma_axes_1(dims@);
    }
    pass.upload(dims, copied(words), label)
}

// --------------------------------------------------------------------- matrices

/// A matrix padded with zeros to whole tiles.
pub open spec fn padded_words(
    data: Seq<u32>,
    rows: int,
    cols: int,
    row_tile: int,
    col_tile: int,
) -> Seq<u32> {
    let height = arith::padded(rows, row_tile);
    let width = arith::padded(cols, col_tile);
    Seq::new(
        (height * width) as nat,
        |i: int| shapes::padded_element(data, rows, cols, width, i),
    )
}

/// Whether a padded matrix can be uploaded.
pub open spec fn matrix_fits(rows: int, cols: int, row_tile: int, col_tile: int) -> bool {
    let height = arith::padded(rows, row_tile);
    let width = arith::padded(cols, col_tile);
    &&& 0 <= rows <= usize::MAX
    &&& 0 <= cols <= usize::MAX
    &&& rows * cols <= usize::MAX
    &&& height <= usize::MAX
    &&& width <= usize::MAX
    &&& recorder::askable(seq![height as usize, width as usize])
}

/// The plan of uploading a matrix padded to whole tiles; too few numbers stop it.
pub open spec fn matrix_plan(
    s: Plan,
    data: Seq<u32>,
    rows: int,
    cols: int,
    row_tile: int,
    col_tile: int,
    label: Seq<char>,
) -> Plan {
    s.require(
        data.len() >= rows * cols,
        Error::Shape(
            Fault::MatrixLength { have: data.len() as usize, need: (rows * cols) as usize },
        ),
    ).upload(
        seq![
            arith::padded(rows, row_tile) as usize,
            arith::padded(cols, col_tile) as usize,
        ],
        padded_words(data, rows, cols, row_tile, col_tile),
        label,
    )
}

pub(crate) fn upload_matrix(
    pass: &mut Pass,
    data: &Vec<u32>,
    rows: usize,
    cols: usize,
    row_tile: usize,
    col_tile: usize,
    label: &str,
) -> (r: DevTensor)
    requires
        row_tile > 0,
        col_tile > 0,
        matrix_fits(rows as int, cols as int, row_tile as int, col_tile as int),
    ensures
        final(pass)@ == matrix_plan(
            old(pass)@,
            data@,
            rows as int,
            cols as int,
            row_tile as int,
            col_tile as int,
            label@,
        ),
        r@ == old(pass)@.fresh(
            seq![
                arith::padded(rows as int, row_tile as int) as usize,
                arith::padded(cols as int, col_tile as int) as usize,
            ],
        ),
        r.wf(),
{
    let height: usize = arith::pad_ceil(rows, row_tile);
    let width: usize = arith::pad_ceil(cols, col_tile);
    let dims: Vec<usize> = vec![height, width];
    proof {
        assert(dims@ =~= seq![height, width]);
        tensor::lemma_axes_2(dims@);
    }
    match shapes::pad_matrix_for(data.as_slice(), rows, cols, row_tile, col_tile) {
        Ok((words, _, _)) => {
            proof {
                assert(words@ =~= padded_words(
                    data@,
                    rows as int,
                    cols as int,
                    row_tile as int,
                    col_tile as int,
                ));
            }
            pass.upload(dims, words, label)
        },
        Err(e) => {
            pass.fail(e);
            pass.upload(dims, Vec::new(), label)
        },
    }
}

// ----------------------------------------------------------------- convolutions

/// Whether a convolution can be uploaded.
pub open spec fn conv_fits(w: ConvW) -> bool {
    let kernel = kernel_of(w.shape@);
    let k = w.shape@[1] * kernel.0 * kernel.1;
    &&& w.shape@.len() == 3 || w.shape@.len() == 4
    &&& w.shape@[1] * kernel.0 <= usize::MAX
    &&& matrix_fits(w.shape@[0] as int, k, shaders::BM as int, shaders::BK as int)
    &&& recorder::roundable((4 * w.shape@[0]) as nat)
    &&& 4 * w.bias@.len() <= usize::MAX
}

/// The weights as `(out, in * kh * kw)` rows, then the bias.
pub open spec fn conv_plan(s: Plan, w: ConvW, label: Seq<char>) -> Plan {
    conv_weight_plan(s, w, label).upload(seq![w.shape@[0]], w.bias@, label)
}

pub open spec fn conv_weight_plan(s: Plan, w: ConvW, label: Seq<char>) -> Plan {
    let kernel = kernel_of(w.shape@);
    matrix_plan(
        s,
        w.weight@,
        w.shape@[0] as int,
        w.shape@[1] * kernel.0 * kernel.1,
        shaders::BM as int,
        shaders::BK as int,
        label,
    )
}

/// Whether `r` is what uploading `w` after `s` gives.
pub open spec fn conv_made(
    r: GpuConv,
    s: Plan,
    w: ConvW,
    stride: (usize, usize),
    pad: (usize, usize),
    label: Seq<char>,
) -> bool {
    let kernel = kernel_of(w.shape@);
    &&& r.wf()
    &&& r.weight@ == s.fresh(
        seq![
            arith::padded(w.shape@[0] as int, shaders::BM as int) as usize,
            arith::padded(w.shape@[1] * kernel.0 * kernel.1, shaders::BK as int) as usize,
        ],
    )
    &&& r.bias@ == conv_weight_plan(s, w, label).fresh(seq![w.shape@[0]])
    &&& r.in_channels == w.shape@[1]
    &&& r.out_channels == w.shape@[0]
    &&& r.kernel == kernel
    &&& r.stride == stride
    &&& r.pad == pad
}

/// Uploads a convolution; the gather emits its rows in the order the weights have.
pub fn upload_conv(
    pass: &mut Pass,
    w: &ConvW,
    stride: (usize, usize),
    pad: (usize, usize),
    label: &str,
) -> (r: GpuConv)
    requires
        conv_fits(*w),
    ensures
        final(pass)@ == conv_plan(old(pass)@, *w, label@),
        conv_made(r, old(pass)@, *w, stride, pad, label@),
{
    let kernel = kernel(&w.shape);
    let out_channels: usize = w.shape[0];
    let in_channels: usize = w.shape[1];
    let k: usize = in_channels * kernel.0 * kernel.1;
    let weight = upload_matrix(
        pass,
        &w.weight,
        out_channels,
        k,
        shaders::BM,
        shaders::BK,
        label,
    );
    let bias = upload_sized(pass, out_channels, &w.bias, label);
    GpuConv { weight, bias, in_channels, out_channels, kernel, stride, pad }
}

/// The taps of a `k`-wide kernel spread `dilation` apart, zeros between them.
pub open spec fn widened_words(words: Seq<u32>, filters: int, k: int, dilation: int) -> Seq<u32> {
    let width = (k - 1) * dilation + 1;
    Seq::new(
        (filters * width) as nat,
        |i: int| widened_element(words, k, dilation, width, i),
    )
}

pub open spec fn widened_element(
    words: Seq<u32>,
    k: int,
    dilation: int,
    width: int,
    i: int,
) -> u32 {
    if (i % width) % dilation == 0 {
        words[(i / width) * k + (i % width) / dilation]
    } else {
        0
    }
}

/// Tap `j` of filter `f` stands `j * dilation` places into the widened filter.
pub proof fn law_widening_keeps_taps(
    words: Seq<u32>,
    filters: int,
    k: int,
    dilation: int,
    f: int,
    j: int,
)
    requires
        0 <= f < filters,
        0 <= j < k,
        dilation >= 1,
    ensures
        ({
            let width = (k - 1) * dilation + 1;
            widened_words(words, filters, k, dilation)[f * width + j * dilation] == words[f * k + j]
        }),
{
    let width = (k - 1) * dilation + 1;
    arith::lemma_mul_le(j, k - 1, dilation);
    arith::lemma_mul_bounds(j, dilation);
    shapes::lemma_split(f, width, j * dilation);
    shapes::lemma_inside(f, filters, j * dilation, width);
    assert((j * dilation) % dilation == 0 && (j * dilation) / dilation == j) by (nonlinear_arith)
        requires
            dilation >= 1,
    {
    }
}

/// Whether a convolution of `k` taps can be widened.
pub open spec fn widen_fits(w: ConvW, dilation: int) -> bool {
    let k = w.shape@[2] as int;
    let filters = w.shape@[0] * w.shape@[1];
    let width = (k - 1) * dilation + 1;
    &&& w.shape@.len() >= 3
    &&& k >= 1
    &&& dilation >= 1
    &&& filters <= usize::MAX
    &&& (k - 1) * dilation + 1 <= usize::MAX
    &&& filters * width <= usize::MAX
    &&& filters * k <= w.weight@.len()
    &&& dilation * (k / 2) <= usize::MAX
}

/// The widened convolution.
pub open spec fn widened_shape(w: ConvW, dilation: int) -> Seq<usize> {
    seq![w.shape@[0], w.shape@[1], ((w.shape@[2] - 1) * dilation + 1) as usize]
}

fn widened(w: &ConvW, dilation: usize) -> (r: ConvW)
    requires
        widen_fits(*w, dilation as int),
    ensures
        r.weight@ == widened_words(
            w.weight@,
            w.shape@[0] * w.shape@[1],
            w.shape@[2] as int,
            dilation as int,
        ),
        r.bias@ == w.bias@,
        r.shape@ == widened_shape(*w, dilation as int),
{
    let k: usize = w.shape[2];
    let filters: usize = w.shape[0] * w.shape[1];
    proof {
        arith::lemma_mul_bounds(k - 1, dilation as int);
        arith::lemma_mul_bounds(filters as int, (k - 1) * dilation + 1);
    }
    let width: usize = (k - 1) * dilation + 1;
    let total: usize = filters * width;
    let have: usize = w.weight.len();
    let mut weight: Vec<u32> = Vec::new();
    let mut i: usize = 0;
    while i < total
        invariant
            i <= total,
            total == filters * width,
            width == (k - 1) * dilation + 1,
            k >= 1,
            dilation >= 1,
            filters * k <= have,
            have == w.weight@.len(),
            weight@.len() == i,
            forall|j: int|
                0 <= j < i ==> #[trigger] weight@[j] == widened_element(
                    w.weight@,
                    k as int,
                    dilation as int,
                    width as int,
                    j,
                ),
        decreases total - i,
    {
        let place: usize = i % width;
        let filter: usize = i / width;
        proof {
            lemma_tap(i as int, filters as int, width as int, k as int, dilation as int);
        }
        if place % dilation == 0 {
            weight.push(w.weight[filter * k + place / dilation]);
        } else {
            weight.push(0);
        }
        i += 1;
    }
    let shape: Vec<usize> = vec![w.shape[0], w.shape[1], width];
    proof {
        assert(shape@ =~= widened_shape(*w, dilation as int));
        assert(weight@ =~= widened_words(
            w.weight@,
            filters as int,
            k as int,
            dilation as int,
        ));
    }
    ConvW { weight, bias: copied(&w.bias), shape }
}

proof fn lemma_tap(i: int, filters: int, width: int, k: int, dilation: int)
    requires
        0 <= i < filters * width,
        width == (k - 1) * dilation + 1,
        k >= 1,
        dilation >= 1,
        filters >= 0,
    ensures
        0 <= i / width < filters,
        0 <= (i % width) / dilation <= k - 1,
        0 <= (i / width) * k + (i % width) / dilation < filters * k,
        0 <= (i / width) * k,
{
    arith::lemma_mul_bounds(k - 1, dilation);
    assert(0 <= i / width < filters) by (nonlinear_arith)
        requires
            0 <= i < filters * width,
            width >= 1,
    {
    }
    assert(0 <= (i % width) / dilation <= k - 1) by (nonlinear_arith)
        requires
            width == (k - 1) * dilation + 1,
            width >= 1,
            dilation >= 1,
            k >= 1,
    {
        let p = i % width;
        assert(0 <= p <= (k - 1) * dilation);
        assert(p / dilation <= ((k - 1) * dilation) / dilation);
        assert(((k - 1) * dilation) / dilation == k - 1);
    }
    shapes::lemma_inside(i / width, filters, (i % width) / dilation, k);
}

/// The plan of uploading a convolution widened by `dilation`.
pub open spec fn widened_conv_plan(s: Plan, w: ConvW, dilation: int, label: Seq<char>) -> Plan {
    widened_weight_plan(s, w, dilation, label).upload(seq![w.shape@[0]], w.bias@, label)
}

pub open spec fn widened_weight_plan(s: Plan, w: ConvW, dilation: int, label: Seq<char>) -> Plan {
    matrix_plan(
        s,
        widened_words(
            w.weight@,
            w.shape@[0] * w.shape@[1],
            w.shape@[2] as int,
            dilation,
        ),
        w.shape@[0] as int,
        w.shape@[1] * ((w.shape@[2] - 1) * dilation + 1),
        shaders::BM as int,
        shaders::BK as int,
        label,
    )
}

/// Whether a widened convolution can be uploaded.
pub open spec fn widened_conv_fits(w: ConvW, dilation: int) -> bool {
    let width = (w.shape@[2] - 1) * dilation + 1;
    &&& widen_fits(w, dilation)
    &&& matrix_fits(
        w.shape@[0] as int,
        w.shape@[1] * width,
        shaders::BM as int,
        shaders::BK as int,
    )
    &&& recorder::roundable((4 * w.shape@[0]) as nat)
    &&& 4 * w.bias@.len() <= usize::MAX
}

/// Whether `r` is what uploading `w`, widened, after `s` gives.
pub open spec fn widened_conv_made(
    r: GpuConv,
    s: Plan,
    w: ConvW,
    dilation: int,
    label: Seq<char>,
) -> bool {
    let width = (w.shape@[2] - 1) * dilation + 1;
    &&& r.wf()
    &&& r.weight@ == s.fresh(
        seq![
            arith::padded(w.shape@[0] as int, shaders::BM as int) as usize,
            arith::padded(w.shape@[1] * width, shaders::BK as int) as usize,
        ],
    )
    &&& r.bias@ == widened_weight_plan(s, w, dilation, label).fresh(seq![w.shape@[0]])
    &&& r.in_channels == w.shape@[1]
    &&& r.out_channels == w.shape@[0]
    &&& r.kernel == (1usize, width as usize)
    &&& r.stride == (1usize, 1usize)
    &&& r.pad == (0usize, (dilation * (w.shape@[2] as int / 2)) as usize)
}

/// Uploads a convolution with its taps spread `dilation` apart, padded so that it
/// keeps the length of its input.
pub fn upload_widened_conv(pass: &mut Pass, w: &ConvW, dilation: usize, label: &str) -> (r: GpuConv)
    requires
        widened_conv_fits(*w, dilation as int),
    ensures
        final(pass)@ == widened_conv_plan(old(pass)@, *w, dilation as int, label@),
        widened_conv_made(r, old(pass)@, *w, dilation as int, label@),
{
    let wide = widened(w, dilation);
    let k: usize = w.shape[2];
    proof {
        assert(wide.shape@.len() == 3);
        assert(wide.shape@[1] * 1 == wide.shape@[1]);
    }
    upload_conv(pass, &wide, (1, 1), (0, dilation * (k / 2)), label)
}

/// The taps of a transposed convolution, one row per `(oc, tap)` across the inputs.
pub open spec fn tap_words(words: Seq<u32>, inputs: int, outputs: int, taps: int) -> Seq<u32> {
    Seq::new(
        (outputs * taps * inputs) as nat,
        |i: int| tap_element(words, inputs, outputs, taps, i),
    )
}

pub open spec fn tap_element(
    words: Seq<u32>,
    inputs: int,
    outputs: int,
    taps: int,
    i: int,
) -> u32 {
    let row = i / inputs;
    words[((i % inputs) * outputs + row / taps) * taps + row % taps]
}

/// The element of input `ic`, output `oc` and `tap` keeps its value.
pub proof fn law_taps_are_reordered(
    words: Seq<u32>,
    inputs: int,
    outputs: int,
    taps: int,
    ic: int,
    oc: int,
    tap: int,
)
    requires
        0 <= ic < inputs,
        0 <= oc < outputs,
        0 <= tap < taps,
    ensures
        tap_words(words, inputs, outputs, taps)[(oc * taps + tap) * inputs + ic] == words[(ic
            * outputs + oc) * taps + tap],
{
    shapes::lemma_split(oc, taps, tap);
    shapes::lemma_inside(oc, outputs, tap, taps);
    shapes::lemma_split(oc * taps + tap, inputs, ic);
    shapes::lemma_inside(oc * taps + tap, outputs * taps, ic, inputs);
}

/// Whether a transposed convolution can be uploaded.
pub open spec fn conv_tr_fits(w: ConvW) -> bool {
    let kernel = kernel_of(w.shape@);
    let taps = kernel.0 * kernel.1;
    let inputs = w.shape@[0];
    let outputs = w.shape@[1];
    &&& w.shape@.len() == 3 || w.shape@.len() == 4
    &&& taps <= usize::MAX
    &&& outputs * taps <= usize::MAX
    &&& outputs * taps * inputs <= w.weight@.len()
    &&& inputs * outputs <= usize::MAX
    &&& matrix_fits(outputs * taps, inputs as int, shaders::BM as int, shaders::BK as int)
    &&& recorder::roundable((4 * outputs) as nat)
    &&& 4 * w.bias@.len() <= usize::MAX
}

pub open spec fn conv_tr_weight_plan(s: Plan, w: ConvW, label: Seq<char>) -> Plan {
    let kernel = kernel_of(w.shape@);
    let taps = kernel.0 * kernel.1;
    matrix_plan(
        s,
        tap_words(w.weight@, w.shape@[0] as int, w.shape@[1] as int, taps),
        w.shape@[1] * taps,
        w.shape@[0] as int,
        shaders::BM as int,
        shaders::BK as int,
        label,
    )
}

/// The reordered taps, then the bias.
pub open spec fn conv_tr_plan(s: Plan, w: ConvW, label: Seq<char>) -> Plan {
    conv_tr_weight_plan(s, w, label).upload(seq![w.shape@[1]], w.bias@, label)
}

/// Whether `r` is what uploading `w` after `s` gives.
pub open spec fn conv_tr_made(
    r: GpuConvT,
    s: Plan,
    w: ConvW,
    stride: (usize, usize),
    label: Seq<char>,
) -> bool {
    let kernel = kernel_of(w.shape@);
    &&& r.wf()
    &&& r.weight@ == s.fresh(
        seq![
            arith::padded(w.shape@[1] * (kernel.0 * kernel.1), shaders::BM as int) as usize,
            arith::padded(w.shape@[0] as int, shaders::BK as int) as usize,
        ],
    )
    &&& r.bias@ == conv_tr_weight_plan(s, w, label).fresh(seq![w.shape@[1]])
    &&& r.in_channels == w.shape@[0]
    &&& r.out_channels == w.shape@[1]
    &&& r.kernel == kernel
    &&& r.stride == stride
}

proof fn lemma_tap_source(i: int, inputs: int, outputs: int, taps: int)
    requires
        0 <= i < outputs * taps * inputs,
        inputs >= 0,
        outputs >= 0,
        taps >= 0,
    ensures
        inputs > 0,
        taps > 0,
        outputs > 0,
        0 <= i % inputs < inputs,
        0 <= i / inputs < outputs * taps,
        0 <= (i / inputs) / taps < outputs,
        0 <= (i / inputs) % taps < taps,
        0 <= (i % inputs) * outputs,
        (i % inputs) * outputs + (i / inputs) / taps < inputs * outputs,
        0 <= ((i % inputs) * outputs + (i / inputs) / taps) * taps,
        ((i % inputs) * outputs + (i / inputs) / taps) * taps + (i / inputs) % taps < outputs * taps
            * inputs,
{
    assert(inputs > 0 && taps > 0 && outputs > 0) by (nonlinear_arith)
        requires
            0 <= i < outputs * taps * inputs,
            inputs >= 0,
            outputs >= 0,
            taps >= 0,
    {
    }
    assert(0 <= i / inputs < outputs * taps) by (nonlinear_arith)
        requires
            0 <= i < outputs * taps * inputs,
            inputs > 0,
    {
    }
    let row = i / inputs;
    assert(0 <= row / taps < outputs) by (nonlinear_arith)
        requires
            0 <= row < outputs * taps,
            taps > 0,
    {
    }
    let ic = i % inputs;
    let oc = row / taps;
    shapes::lemma_inside(ic, inputs, oc, outputs);
    shapes::lemma_inside(ic * outputs + oc, inputs * outputs, row % taps, taps);
    assert(inputs * outputs * taps == outputs * taps * inputs) by (nonlinear_arith);
}

/// Uploads a transposed convolution: its taps are reordered to one row per output
/// channel and tap.
pub fn upload_conv_tr(pass: &mut Pass, w: &ConvW, stride: (usize, usize), label: &str) -> (r:
    GpuConvT)
    requires
        conv_tr_fits(*w),
    ensures
        final(pass)@ == conv_tr_plan(old(pass)@, *w, label@),
        conv_tr_made(r, old(pass)@, *w, stride, label@),
{
    let kernel = kernel(&w.shape);
    let inputs: usize = w.shape[0];
    let outputs: usize = w.shape[1];
    let taps: usize = kernel.0 * kernel.1;
    let m: usize = outputs * taps;
    let total: usize = m * inputs;
    let mut ordered: Vec<u32> = Vec::new();
    let mut i: usize = 0;
    while i < total
        invariant
            i <= total,
            total == outputs * taps * inputs,
            total <= w.weight@.len(),
            inputs * outputs <= usize::MAX,
            ordered@.len() == i,
            forall|j: int|
                0 <= j < i ==> #[trigger] ordered@[j] == tap_element(
                    w.weight@,
                    inputs as int,
                    outputs as int,
                    taps as int,
                    j,
                ),
        decreases total - i,
    {
        proof {
            lemma_tap_source(i as int, inputs as int, outputs as int, taps as int);
        }
        let row: usize = i / inputs;
        let ic: usize = i % inputs;
        ordered.push(w.weight[(ic * outputs + row / taps) * taps + row % taps]);
        i += 1;
    }
    assert(ordered@ =~= tap_words(w.weight@, inputs as int, outputs as int, taps as int));
    let weight = upload_matrix(pass, &ordered, m, inputs, shaders::BM, shaders::BK, label);
    let bias = upload_sized(pass, outputs, &w.bias, label);
    GpuConvT { weight, bias, in_channels: inputs, out_channels: outputs, kernel, stride }
}

} // verus!
