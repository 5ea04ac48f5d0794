//! What a pass computes, launch by launch: its commands read as steps, each an operation
//! and what it is applied to.

use vstd::prelude::*;

use crate::gpu::arith;
use crate::gpu::elementwise;
use crate::gpu::kernels;
use crate::gpu::kernels::Kernels;
use crate::gpu::pipelines::Kernel;
use crate::gpu::recorder;
use crate::gpu::recorder::{BindingView, CommandView, DispatchView, Plan};
use crate::gpu::shaders;
use crate::gpu::shapes;
use crate::gpu::shapes::{Activation, Col2ImShape, GemmJob, GroupNormShape, Im2ColShape};
use crate::gpu::tensor::TensorView;

verus! {

// ------------------------------------------------------------------------- steps

/// An operation, whichever of its kernels performs it.
#[verifier::ext_equal]
pub enum Op {
    /// A product of two matrices.
    Product,
    /// A product of which the right matrix is stored by columns.
    ProductByColumns,
    /// A normalisation over groups, with its scale and shift.
    Norm,
    /// A scale, a shift and an activation per channel.
    Affine,
    /// The activation of a whole tensor.
    Gelu,
    /// One half of a row, scaled by the sigmoid of the other.
    Glu,
    Softmax,
    Add,
    Copy,
    /// Two axes exchanged.
    Transpose,
    Crop,
    /// Rows copied to another width.
    Pitch,
    Zero,
    /// One number per row added.
    RowBias,
    /// The patches a convolution multiplies.
    Gather,
    /// Taps summed into an image.
    Fold,
    /// Something else.
    Other(Kernel),
}

/// One step: the operation, and what it binds in binding order.
#[verifier::ext_equal]
pub struct Step {
    pub op: Op,
    pub table: Seq<BindingView>,
}

/// The operation a kernel performs.
pub open spec fn op_of(kernel: Kernel) -> Op {
    match kernel {
        Kernel::Gemm | Kernel::GemmBatched | Kernel::GemmBatchedBm64Bn128
        | Kernel::GemmBatchedBm64Bn128Coalesced | Kernel::GemmBatchedBm96Bn128
        | Kernel::GemmBatchedBn64 | Kernel::GemmBatchedBm64 | Kernel::GemmConvDirect
        | Kernel::GemmConvDirectBatched => Op::Product,
        Kernel::GemmTransb | Kernel::GemmTransbPlain | Kernel::GemmTransbBn64
        | Kernel::GemmTransbBm64 => Op::ProductByColumns,
        Kernel::GroupNorm | Kernel::GroupNormApply | Kernel::GroupNormApplyFromPartials => Op::Norm,
        Kernel::ChannelAffineActInPlace => Op::Affine,
        Kernel::GeluInPlace | Kernel::GeluInPlaceVec4 => Op::Gelu,
        Kernel::Glu => Op::Glu,
        Kernel::Softmax | Kernel::SoftmaxScaledWarp => Op::Softmax,
        Kernel::AddInPlace | Kernel::AddInPlaceVec4 => Op::Add,
        Kernel::Copy => Op::Copy,
        Kernel::Transpose => Op::Transpose,
        Kernel::CropRows => Op::Crop,
        Kernel::CopyPitched => Op::Pitch,
        Kernel::FillZero => Op::Zero,
        Kernel::AddRowBiasInPlace => Op::RowBias,
        Kernel::Im2col => Op::Gather,
        Kernel::Col2im => Op::Fold,
        other => Op::Other(other),
    }
}

/// The first `n` bindings of a table that has more.
pub open spec fn first(table: Seq<BindingView>, n: nat) -> Seq<BindingView> {
    if table.len() > n {
        table.take(n as int)
    } else {
        table
    }
}

/// Bindings that say how an operation is carried out, not on what: a normalisation in
/// segments has its segments and their sums, a convolution its geometry, behind the rest.
pub open spec fn operands(kernel: Kernel, table: Seq<BindingView>) -> Seq<BindingView> {
    match kernel {
        Kernel::GroupNormApply | Kernel::GroupNormApplyFromPartials => first(table, 6),
        _ => table,
    }
}

/// The step a command is: launches that only prepare a normalisation's sums, and commands
/// that launch nothing, are none.
pub open spec fn sound(c: CommandView) -> Seq<Step> {
    match c {
        CommandView::Dispatch(d) => match d.kernel {
            Kernel::GroupNormPartial | Kernel::GroupNormCombine => Seq::empty(),
            _ => seq![Step { op: op_of(d.kernel), table: operands(d.kernel, d.table) }],
        },
        _ => Seq::empty(),
    }
}

/// The steps of some commands, in order.
pub open spec fn score(commands: Seq<CommandView>) -> Seq<Step>
    decreases commands.len(),
{
    if commands.len() == 0 {
        Seq::empty()
    } else {
        score(commands.drop_last()) + sound(commands.last())
    }
}

/// Whether planning went from `s` to `r` with these steps, and made these tensors on the
/// way, each in a buffer of its own and one behind the other, where nothing stopped it.
#[verifier::opaque]
pub open spec fn runs(s: Plan, r: Plan, steps: Seq<Step>, list: Seq<TensorView>) -> bool {
    r.fault is None ==> {
        &&& s.fault is None
        &&& r.id == s.id
        &&& s.commands.len() <= r.commands.len()
        &&& r.commands.take(s.commands.len() as int) == s.commands
        &&& score(r.commands) == score(s.commands) + steps
        &&& r.commands.len() <= usize::MAX ==> made(list, s, r)
    }
}

/// Whether tensors stand in buffers made between two commands of a pass, one behind the
/// other.
pub open spec fn stand(list: Seq<TensorView>, id: u32, from: int, to: int) -> bool {
    &&& forall|i: int|
        0 <= i < list.len() ==> {
            &&& (#[trigger] list[i]).buffer.plan == id
            &&& list[i].offset == 0
            &&& from <= list[i].buffer.index < to
        }
    &&& forall|i: int, j: int|
        0 <= i < j < list.len() ==> (#[trigger] list[i]).buffer.index < (
        #[trigger] list[j]).buffer.index
}

/// Whether tensors stand in buffers made between two points of a pass.
pub open spec fn made(list: Seq<TensorView>, s: Plan, r: Plan) -> bool {
    stand(list, s.id, s.commands.len() as int, r.commands.len() as int)
}

pub open spec fn nothing() -> Seq<TensorView> {
    Seq::empty()
}

pub open spec fn silence() -> Seq<Step> {
    Seq::empty()
}

/// Steps of a whole are those of its two parts.
proof fn lemma_parts(commands: Seq<CommandView>, m: int)
    requires
        0 <= m <= commands.len(),
    ensures
        score(commands) == score(commands.take(m)) + score(
            commands.subrange(m, commands.len() as int),
        ),
    decreases commands.len() - m,
{
    let n = commands.len() as int;
    if m == n {
        assert(commands.take(m) =~= commands);
        assert(commands.subrange(m, n) =~= Seq::empty());
        assert(score(commands.subrange(m, n)) =~= Seq::empty());
    } else {
        let front = commands.drop_last();
        lemma_parts(front, m);
        assert(front.take(m) =~= commands.take(m));
        assert(commands.subrange(m, n).drop_last() =~= front.subrange(m, n - 1));
        assert(commands.subrange(m, n).last() == commands.last());
        assert(score(commands) =~= score(front) + sound(commands.last()));
        assert(score(commands.subrange(m, n)) =~= score(front.subrange(m, n - 1)) + sound(
            commands.last(),
        ));
    }
}

/// What lies between two points of a pass: the steps, and the tensors that were made.
pub proof fn lemma_spent(s: Plan, r: Plan, steps: Seq<Step>, list: Seq<TensorView>)
    requires
        runs(s, r, steps, list),
        r.fault is None,
    ensures
        s.fault is None,
        r.id == s.id,
        s.commands.len() <= r.commands.len(),
        r.commands.take(s.commands.len() as int) == s.commands,
        score(r.commands.subrange(s.commands.len() as int, r.commands.len() as int)) == steps,
        r.commands.len() <= usize::MAX ==> made(list, s, r),
{
    reveal(runs);
    let m = s.commands.len() as int;
    lemma_parts(r.commands, m);
    let rest = score(r.commands.subrange(m, r.commands.len() as int));
    assert(rest =~= steps) by {
        let front = score(s.commands);
        assert(front + rest == front + steps);
        assert((front + rest).len() == front.len() + rest.len());
        assert((front + steps).len() == front.len() + steps.len());
        assert forall|i: int| 0 <= i < rest.len() implies rest[i] == steps[i] by {
            assert((front + rest)[front.len() + i] == rest[i]);
            assert((front + steps)[front.len() + i] == steps[i]);
        }
    }
}

/// Where nothing stopped planning, nothing had before.
pub proof fn lemma_faultless(s: Plan, r: Plan, steps: Seq<Step>, list: Seq<TensorView>)
    requires
        runs(s, r, steps, list),
    ensures
        r.fault is None ==> s.fault is None,
{
    reveal(runs);
}

/// Whether a command is a launch that binds the whole of a tensor.
pub open spec fn binds(c: CommandView, t: TensorView) -> bool {
    c matches CommandView::Dispatch(d) && exists|j: int|
        0 <= j < d.table.len() && #[trigger] d.table[j] == held(t)
}

/// Every step of some commands is one of them.
pub proof fn lemma_heard(commands: Seq<CommandView>, j: int) -> (i: int)
    requires
        0 <= j < score(commands).len(),
    ensures
        0 <= i < commands.len(),
        sound(commands[i]) == seq![score(commands)[j]],
    decreases commands.len(),
{
    let front = score(commands.drop_last());
    if j < front.len() {
        lemma_heard(commands.drop_last(), j)
    } else {
        assert(score(commands)[j] == sound(commands.last())[j - front.len()]);
        assert(sound(commands.last()) =~= seq![score(commands)[j]]);
        commands.len() - 1
    }
}

/// Every command that is a step is one of the steps.
pub proof fn lemma_said(commands: Seq<CommandView>, i: int) -> (j: int)
    requires
        0 <= i < commands.len(),
        sound(commands[i]).len() == 1,
    ensures
        0 <= j < score(commands).len(),
        score(commands)[j] == sound(commands[i])[0],
    decreases commands.len(),
{
    let front = score(commands.drop_last());
    if i < commands.len() - 1 {
        let j = lemma_said(commands.drop_last(), i);
        assert(score(commands)[j] == front[j]);
        j
    } else {
        assert(score(commands)[front.len() as int] == sound(commands.last())[0]);
        front.len() as int
    }
}

/// A step that binds a tensor is a launch that does.
pub proof fn lemma_bound(commands: Seq<CommandView>, j: int, place: int, t: TensorView) -> (i: int)
    requires
        0 <= j < score(commands).len(),
        0 <= place < score(commands)[j].table.len(),
        score(commands)[j].table[place] == held(t),
    ensures
        0 <= i < commands.len(),
        binds(commands[i], t),
{
    let i = lemma_heard(commands, j);
    let c = commands[i];
    assert(seq![score(commands)[j]][0] == score(commands)[j]);
    assert(sound(c).len() == 1);
    assert(sound(c)[0] == score(commands)[j]);
    match c {
        CommandView::Dispatch(d) => {
            assert(operands(d.kernel, d.table)[place] == held(t));
            assert(d.table[place] == held(t));
        },
        _ => {},
    }
    i
}

pub proof fn lemma_stay(s: Plan)
    ensures
        runs(s, s, silence(), nothing()),
{
    reveal(runs);
    assert(s.commands.take(s.commands.len() as int) =~= s.commands);
    assert(score(s.commands) + silence() =~= score(s.commands));
}

/// Steps follow one another.
pub proof fn lemma_then(
    s: Plan,
    m: Plan,
    r: Plan,
    a: Seq<Step>,
    la: Seq<TensorView>,
    b: Seq<Step>,
    lb: Seq<TensorView>,
)
    requires
        runs(s, m, a, la),
        runs(m, r, b, lb),
    ensures
        runs(s, r, a + b, la + lb),
{
    reveal(runs);
    if r.fault is None {
        assert(r.commands.take(s.commands.len() as int) =~= m.commands.take(
            s.commands.len() as int,
        ));
        assert(score(s.commands) + a + b =~= score(s.commands) + (a + b));
        if r.commands.len() <= usize::MAX {
            let list = la + lb;
            assert forall|i: int| 0 <= i < list.len() implies {
                &&& (#[trigger] list[i]).buffer.plan == s.id
                &&& list[i].offset == 0
                &&& s.commands.len() <= list[i].buffer.index < r.commands.len()
            } by {
                if i < la.len() {
                    assert(list[i] == la[i]);
                } else {
                    assert(list[i] == lb[i - la.len()]);
                }
            }
            assert forall|i: int, j: int| 0 <= i < j < list.len() implies (
            #[trigger] list[i]).buffer.index < (#[trigger] list[j]).buffer.index by {
                if j < la.len() {
                    assert(list[i] == la[i] && list[j] == la[j]);
                } else if i < la.len() {
                    assert(list[i] == la[i] && list[j] == lb[j - la.len()]);
                } else {
                    assert(list[i] == lb[i - la.len()] && list[j] == lb[j - la.len()]);
                }
            }
        }
    }
}

/// One more step, which makes nothing.
pub proof fn lemma_step(
    s: Plan,
    m: Plan,
    r: Plan,
    a: Seq<Step>,
    list: Seq<TensorView>,
    b: Seq<Step>,
)
    requires
        runs(s, m, a, list),
        runs(m, r, b, nothing()),
    ensures
        runs(s, r, a + b, list),
{
    lemma_then(s, m, r, a, list, b, nothing());
    assert(list + nothing() =~= list);
}

/// What launches nothing is no step.
pub proof fn lemma_silent(s: Plan, m: Plan, r: Plan, a: Seq<Step>, list: Seq<TensorView>)
    requires
        runs(s, m, a, list),
        runs(m, r, silence(), nothing()),
    ensures
        runs(s, r, a, list),
{
    lemma_then(s, m, r, a, list, silence(), nothing());
    assert(a + silence() =~= a);
    assert(list + nothing() =~= list);
}

/// One more tensor.
pub proof fn lemma_made(
    s: Plan,
    m: Plan,
    r: Plan,
    a: Seq<Step>,
    list: Seq<TensorView>,
    t: TensorView,
)
    requires
        runs(s, m, a, list),
        runs(m, r, silence(), seq![t]),
    ensures
        runs(s, r, a, list.push(t)),
{
    lemma_then(s, m, r, a, list, silence(), seq![t]);
    assert(a + silence() =~= a);
    assert(list + seq![t] =~= list.push(t));
}

pub proof fn lemma_command(s: Plan, c: CommandView)
    ensures
        runs(s, s.command(c), sound(c), nothing()),
{
    reveal(runs);
    let r = s.command(c);
    if r.fault is None {
        assert(r.commands.drop_last() =~= s.commands);
        assert(r.commands.take(s.commands.len() as int) =~= s.commands);
    }
}

pub proof fn lemma_require(s: Plan, holds: bool, e: crate::error::ErrorView)
    ensures
        runs(s, s.require(holds, e), silence(), nothing()),
{
    reveal(runs);
    lemma_stay(s);
}

/// Two plans alike but for errors run alike.
pub proof fn lemma_checked(s: Plan, m: Plan, r: Plan, steps: Seq<Step>)
    requires
        runs(m, r, steps, nothing()),
        m.fault is None ==> m == s,
        r.fault is None ==> m.fault is None,
    ensures
        runs(s, r, steps, nothing()),
{
    reveal(runs);
}

/// A buffer asked for is the next tensor's.
proof fn lemma_asked(s: Plan, m: Plan, r: Plan, c: CommandView, shape: Seq<usize>)
    requires
        m.fault is None ==> m == s,
        r == m.command(c),
        sound(c) == silence(),
    ensures
        runs(s, r, silence(), seq![s.fresh(shape)]),
{
    lemma_command(m, c);
    lemma_checked(s, m, r, silence());
    reveal(runs);
}

pub proof fn lemma_allocate(s: Plan, bytes: nat, label: Seq<char>, shape: Seq<usize>)
    ensures
        runs(s, s.allocate(bytes, label), silence(), seq![s.fresh(shape)]),
{
    let m = s.within_limit(bytes, label);
    lemma_asked(
        s,
        m,
        s.allocate(bytes, label),
        CommandView::Alloc { bytes: recorder::aligned(bytes) as u64, label },
        shape,
    );
}

pub proof fn lemma_tensor(s: Plan, shape: Seq<usize>, label: Seq<char>)
    ensures
        runs(s, s.tensor(shape, label), silence(), seq![s.fresh(shape)]),
{
    lemma_allocate(s, 4 * crate::gpu::tensor::elements(shape), label, shape);
}

pub proof fn lemma_input(
    s: Plan,
    shape: Seq<usize>,
    input: recorder::HostInput,
    dedicated: bool,
    label: Seq<char>,
)
    ensures
        runs(s, s.input(shape, input, dedicated, label), silence(), seq![s.fresh(shape)]),
{
    let bytes = 4 * crate::gpu::tensor::elements(shape);
    lemma_asked(
        s,
        s.within_limit(bytes, label),
        s.input(shape, input, dedicated, label),
        CommandView::Input { bytes: recorder::aligned(bytes) as u64, input, dedicated, label },
        shape,
    );
}

/// Tensors made need not be spoken of.
pub proof fn lemma_forget(s: Plan, r: Plan, steps: Seq<Step>, list: Seq<TensorView>)
    requires
        runs(s, r, steps, list),
    ensures
        runs(s, r, steps, nothing()),
{
    reveal(runs);
}

pub proof fn lemma_trace(s: Plan, asked: Seq<char>, name: Seq<char>, t: TensorView)
    ensures
        runs(s, s.trace_with(asked, name, t), silence(), nothing()),
{
    lemma_command(s, CommandView::Trace { asked, name, tensor: t });
}

pub proof fn lemma_reshape(s: Plan, t: TensorView, shape: Seq<usize>)
    ensures
        runs(s, s.reshape(t, shape), silence(), nothing()),
        s.reshape(t, shape).fault is None ==> crate::gpu::tensor::elements(shape) == t.len(),
{
    lemma_require(
        s,
        crate::gpu::tensor::elements(shape) == t.len(),
        crate::error::Error::ShapeOf(crate::gpu::tensor::reshape_fault(t.shape, shape)),
    );
}

pub proof fn lemma_slice(s: Plan, t: TensorView, start: int, shape: Seq<usize>)
    ensures
        runs(s, s.slice(t, start, shape), silence(), nothing()),
{
    reveal(runs);
    lemma_stay(s);
}

/// A plan that was checked and then launched one kernel ran that kernel's step.
proof fn lemma_launched(s: Plan, m: Plan, r: Plan, d: DispatchView, step: Step)
    requires
        m.fault is None ==> m == s,
        r == m.command(CommandView::Dispatch(d)),
        sound(CommandView::Dispatch(d)) == seq![step],
    ensures
        runs(s, r, seq![step], nothing()),
{
    lemma_command(m, CommandView::Dispatch(d));
    lemma_checked(s, m, r, seq![step]);
}

// -------------------------------------------------------------------- operations

/// All of a tensor.
pub open spec fn held(t: TensorView) -> BindingView {
    BindingView::Storage { buffer: t.buffer, offset: t.offset, size: (4 * t.len()) as u64 }
}

/// The first numbers of a tensor.
pub open spec fn held_first(t: TensorView, count: int) -> BindingView {
    BindingView::Storage { buffer: t.buffer, offset: t.offset, size: (4 * count) as u64 }
}

/// Four parameters.
pub open spec fn four(a: int, b: int, c: int, d: int) -> BindingView {
    BindingView::Uniform { words: seq![a as u32, b as u32, c as u32, d as u32], size: 16 }
}

/// `c = a b`, batch by batch: sizes, row lengths, and how far apart batches stand.
pub open spec fn multiply(a: TensorView, b: TensorView, c: TensorView, job: GemmJob) -> Step {
    Step {
        op: if job.transb {
            Op::ProductByColumns
        } else {
            Op::Product
        },
        table: seq![
            held(a),
            held(b),
            held(c),
            BindingView::Uniform {
                words: seq![
                    job.m as u32,
                    job.n as u32,
                    job.k as u32,
                    job.lda as u32,
                    job.ldb as u32,
                    job.ldc as u32,
                    job.inner_count as u32,
                    job.a_outer as u32,
                    job.a_inner as u32,
                    job.b_outer as u32,
                    job.b_inner as u32,
                    job.c_outer as u32,
                    job.c_inner as u32,
                    0u32,
                ],
                size: 64,
            },
        ],
    }
}

/// A product whose right side is read out of an image, patch by patch.
pub open spec fn direct(
    weight: TensorView,
    x: TensorView,
    out: TensorView,
    job: GemmJob,
    shape: Im2ColShape,
) -> Step {
    Step {
        op: Op::Product,
        table: multiply(weight, x, out, job).table + seq![
            four(shape.out_w(), shape.out_h(), shape.w as int, shape.h as int),
            BindingView::Uniform {
                words: seq![
                    shapes::packed(shape.stride.1, shape.stride.0),
                    shapes::packed(shape.pad.1, shape.pad.0),
                    shapes::packed(shape.kernel.0, shape.kernel.1),
                    shape.in_channels as u32,
                ],
                size: 16,
            },
        ],
    }
}

/// Normalises `x` into `out`, group by group, with a scale and a shift per channel.
pub open spec fn normalise(
    x: TensorView,
    scale: TensorView,
    shift: TensorView,
    out: TensorView,
    shape: GroupNormShape,
) -> Step {
    Step {
        op: Op::Norm,
        table: seq![
            held(x),
            held(scale),
            held(shift),
            held(out),
            four(
                shape.groups as int,
                shape.per_group as int,
                shape.len as int,
                shape.row_stride as int,
            ),
            four(
                shape.rows as int,
                shape.len_stride as int,
                shape.channel_stride as int,
                shape.eps as int,
            ),
        ],
    }
}

/// Scales and shifts the channels of `x`, `plane` numbers each, and does no more.
pub open spec fn rescale(
    x: TensorView,
    scale: TensorView,
    shift: TensorView,
    batch: int,
    channels: int,
    plane: int,
) -> Step {
    Step {
        op: Op::Affine,
        table: seq![
            held(x),
            held(scale),
            held(shift),
            four(channels, plane, 0, batch * channels * plane),
        ],
    }
}

pub open spec fn activate(x: TensorView) -> Step {
    Step { op: Op::Gelu, table: seq![held(x), four(x.len() as int, 0, 0, 0)] }
}

pub open spec fn gate(x: TensorView, out: TensorView, rows: int, half: int) -> Step {
    Step {
        op: Op::Glu,
        table: seq![held(x), held_first(out, rows * half), four(rows, half, 0, 0)],
    }
}

pub open spec fn soften(x: TensorView, out: TensorView, rows: int, cols: int, scale: u32) -> Step {
    Step { op: Op::Softmax, table: seq![held(x), held(out), four(rows, cols, scale as int, 0)] }
}

/// Adds `source`, over and over where it is shorter.
pub open spec fn sum_into(out: TensorView, source: TensorView) -> Step {
    Step {
        op: Op::Add,
        table: seq![
            held(out),
            held(source),
            four(
                out.len() as int,
                if source.len() == out.len() {
                    0
                } else {
                    source.len() as int
                },
                0,
                0,
            ),
        ],
    }
}

pub open spec fn copy(x: TensorView, out: TensorView, count: int) -> Step {
    Step {
        op: Op::Copy,
        table: seq![held_first(x, count), held_first(out, count), four(count, 0, 0, 0)],
    }
}

/// `(batch, rows, cols, width)` to `(batch, cols, rows, width)`.
pub open spec fn exchange(
    x: TensorView,
    out: TensorView,
    batch: int,
    rows: int,
    cols: int,
    width: int,
) -> Step {
    Step { op: Op::Transpose, table: seq![held(x), held(out), four(batch, rows, cols, width)] }
}

/// Of every `stride` numbers keeps `rows` rows of `cols` from row `from` on.
pub open spec fn crop(
    x: TensorView,
    out: TensorView,
    batch: int,
    stride: int,
    rows: int,
    cols: int,
    from: int,
) -> Step {
    Step {
        op: Op::Crop,
        table: seq![held(x), held(out), four(stride, rows, cols, from), four(batch, 0, 0, 0)],
    }
}

/// Copies `(batch, rows, cols)` from rows of `narrow` to `tall` rows of `wide`.
pub open spec fn widen(
    x: TensorView,
    out: TensorView,
    batch: int,
    rows: int,
    cols: int,
    narrow: int,
    wide: int,
    tall: int,
) -> Step {
    Step {
        op: Op::Pitch,
        table: seq![held(x), held(out), four(batch, rows, cols, narrow), four(tall, wide, 0, 0)],
    }
}

pub open spec fn clear(x: TensorView, count: int) -> Step {
    Step { op: Op::Zero, table: seq![held(x), four(count, 0, 0, 0)] }
}

/// Adds one number to each row, the numbers over again every `period` rows.
pub open spec fn bias_rows(
    x: TensorView,
    bias: TensorView,
    rows: int,
    cols: int,
    period: int,
) -> Step {
    Step { op: Op::RowBias, table: seq![held(x), held(bias), four(rows, cols, period, 0)] }
}

/// Gathers the patches of a convolution, `rows` rows of `pitch` per image.
pub open spec fn gather(
    x: TensorView,
    out: TensorView,
    shape: Im2ColShape,
    pitch: int,
    rows: int,
) -> Step {
    Step {
        op: Op::Gather,
        table: seq![
            held(x),
            held(out),
            four(
                shape.in_channels as int,
                shape.kernel.0 as int,
                shape.kernel.1 as int,
                shape.h as int,
            ),
            four(shape.w as int, shape.out_h(), shape.out_w(), shape.batch as int),
            four(
                shape.stride.0 as int,
                shape.stride.1 as int,
                shape.pad.0 as int,
                shape.pad.1 as int,
            ),
            four(
                pitch,
                rows,
                arith::at_least_one(arith::ceil(shape.out_w(), shaders::ROW_THREADS as int))
                    * shaders::ROW_THREADS,
                0,
            ),
        ],
    }
}

/// Sums taps into an image.
pub open spec fn fold(taps: TensorView, out: TensorView, shape: Col2ImShape, pitch: int) -> Step {
    Step {
        op: Op::Fold,
        table: seq![
            held(taps),
            held(out),
            four(
                shape.out_channels as int,
                shape.kernel.0 as int,
                shape.kernel.1 as int,
                shape.out_h(),
            ),
            four(
                shape.out_w(),
                shape.stride.0 as int,
                shape.stride.1 as int,
                shape.in_h as int,
            ),
            four(shape.in_w as int, shape.batch as int, pitch, shape.m_pad()),
        ],
    }
}

pub proof fn lemma_multiply(
    k: Kernels,
    s: Plan,
    a: TensorView,
    b: TensorView,
    c: TensorView,
    job: GemmJob,
)
    requires
        job.m > 0,
        job.n > 0,
        job.k > 0,
    ensures
        runs(s, k.gemm_into_plan(s, a, b, c, job), seq![multiply(a, b, c, job)], nothing()),
{
    let (kernel, label, bm, bn) = kernels::product_choice(job, k.settings.transb_plain);
    let r = k.gemm_into_plan(s, a, b, c, job);
    let d = DispatchView {
        label,
        kernel,
        table: kernels::product_table(a, b, c, job),
        grid: job.grid_spec(bm, bn),
    };
    assert(d.table =~= multiply(a, b, c, job).table);
    if r.fault is None {
        assert(r == s.command(CommandView::Dispatch(d)));
        lemma_launched(s, s, r, d, multiply(a, b, c, job));
    } else {
        reveal(runs);
    }
}

/// The steps of a product: one of which a side is empty is none.
pub open spec fn product(a: TensorView, b: TensorView, c: TensorView, job: GemmJob) -> Seq<Step> {
    if job.m == 0 || job.n == 0 || job.k == 0 {
        silence()
    } else {
        seq![multiply(a, b, c, job)]
    }
}

pub proof fn lemma_product(
    k: Kernels,
    s: Plan,
    a: TensorView,
    b: TensorView,
    c: TensorView,
    job: GemmJob,
)
    ensures
        runs(s, k.gemm_into_plan(s, a, b, c, job), product(a, b, c, job), nothing()),
{
    if job.m == 0 || job.n == 0 || job.k == 0 {
        lemma_stay(s);
    } else {
        lemma_multiply(k, s, a, b, c, job);
    }
}

pub proof fn lemma_tile(
    k: Kernels,
    s: Plan,
    a: TensorView,
    b: TensorView,
    c: TensorView,
    job: GemmJob,
    kernel: Kernel,
    tile: (usize, usize),
)
    requires
        op_of(kernel) == Op::Product,
        !job.transb,
    ensures
        runs(
            s,
            k.gemm_into_tile_plan(s, a, b, c, job, kernel, tile),
            product(a, b, c, job),
            nothing(),
        ),
{
    if job.m == 0 || job.n == 0 || job.k == 0 {
        lemma_stay(s);
    } else {
        let r = k.gemm_into_tile_plan(s, a, b, c, job, kernel, tile);
        let d = DispatchView {
            label: if tile.0 == shaders::BM96 {
                "gemm_bm96"@
            } else if tile.0 == shaders::BM64 {
                "gemm_bm64"@
            } else {
                "gemm"@
            },
            kernel,
            table: kernels::product_table(a, b, c, job),
            grid: job.grid_spec(tile.0 as int, tile.1 as int),
        };
        assert(d.table =~= multiply(a, b, c, job).table);
        lemma_launched(s, s, r, d, multiply(a, b, c, job));
    }
}

/// The right side and the target of a direct product: all of them for many images, the
/// one image otherwise.
pub open spec fn image(t: TensorView, batch: int, len: int) -> TensorView {
    if batch > 1 {
        t
    } else {
        recorder::window(t, 0, seq![len as usize])
    }
}

pub proof fn lemma_direct(
    k: Kernels,
    s: Plan,
    weight: TensorView,
    x: TensorView,
    c: TensorView,
    job: GemmJob,
    shape: Im2ColShape,
)
    requires
        !job.transb,
    ensures
        runs(
            s,
            k.gemm_conv_into_plan(s, weight, x, c, job, shape, shape.batch > 1),
            seq![
                direct(
                    weight,
                    image(x, shape.batch as int, shape.in_channels * shape.h * shape.w),
                    image(c, shape.batch as int, job.m * job.n),
                    GemmJob {
                        b_outer: if shape.batch > 1 {
                            (shape.in_channels * shape.h * shape.w) as usize
                        } else {
                            job.b_outer
                        },
                        ..job
                    },
                    shape,
                ),
            ],
            nothing(),
        ),
{
    let per_in = (shape.in_channels * shape.h * shape.w) as usize;
    let per_out = (job.m * job.n) as usize;
    let many = shape.batch > 1;
    let bx = image(x, shape.batch as int, shape.in_channels * shape.h * shape.w);
    let bc = image(c, shape.batch as int, job.m * job.n);
    let its = if many {
        GemmJob { b_outer: per_in, ..job }
    } else {
        job
    };
    let step = direct(weight, bx, bc, its, shape);
    let r = k.gemm_conv_into_plan(s, weight, x, c, job, shape, many);
    let packed = Kernels::conv_packable(s, shape);
    let m = if many {
        packed
    } else {
        packed.slice(x, 0, seq![per_in]).slice(c, 0, seq![per_out])
    };
    let cd = recorder::params(
        shape.out_w() as u32,
        shape.out_h() as u32,
        shape.w as u32,
        shape.h as u32,
    );
    let ce = recorder::params(
        shapes::packed(shape.stride.1, shape.stride.0),
        shapes::packed(shape.pad.1, shape.pad.0),
        shapes::packed(shape.kernel.0, shape.kernel.1),
        shape.in_channels as u32,
    );
    let d = DispatchView {
        label: if many {
            "gemm_conv_direct_batched"@
        } else {
            "gemm_conv_direct"@
        },
        kernel: if many {
            Kernel::GemmConvDirectBatched
        } else {
            Kernel::GemmConvDirect
        },
        table: kernels::product_table(weight, bx, bc, its).push(cd).push(ce),
        grid: job.grid_spec(shaders::BM64 as int, shaders::BN as int),
    };
    assert(kernels::product_table(weight, bx, bc, its) =~= multiply(weight, bx, bc, its).table);
    assert(d.table =~= step.table);
    assert(m.fault is None ==> m == s);
    assert(r == m.command(CommandView::Dispatch(d)));
    lemma_launched(s, m, r, d, step);
}

pub proof fn lemma_normalise(
    k: Kernels,
    s: Plan,
    x: TensorView,
    scale: TensorView,
    shift: TensorView,
    out: TensorView,
    shape: GroupNormShape,
)
    ensures
        runs(
            s,
            k.group_norm_into_plan(s, x, scale, shift, out, shape),
            seq![normalise(x, scale, shift, out, shape)],
            nothing(),
        ),
{
    let step = normalise(x, scale, shift, out, shape);
    let checked = Kernels::group_norm_checked(s, x, scale, shift, out, shape);
    let r = k.group_norm_into_plan(s, x, scale, shift, out, shape);
    let table = Kernels::group_apply_table(x, scale, shift, out, shape);
    assert(table =~= step.table);
    if r.fault is Some {
        reveal(runs);
    } else if Kernels::group_segments(shape) > 1 {
        lemma_split(k, checked, x, scale, shift, out, shape);
        assert(checked.fault is None) by {
            reveal(runs);
        }
        assert(checked == s);
    } else {
        let d = DispatchView {
            label: "group_norm"@,
            kernel: Kernel::GroupNorm,
            table,
            grid: kernels::row_workgroups(shape.rows * shape.groups),
        };
        assert(checked.fault is None);
        assert(checked == s);
        lemma_launched(s, checked, r, d, step);
    }
}

proof fn lemma_split(
    k: Kernels,
    s: Plan,
    x: TensorView,
    scale: TensorView,
    shift: TensorView,
    out: TensorView,
    shape: GroupNormShape,
)
    ensures
        runs(
            s,
            k.group_norm_split_plan(s, x, scale, shift, out, shape),
            seq![normalise(x, scale, shift, out, shape)],
            nothing(),
        ),
{
    let step = normalise(x, scale, shift, out, shape);
    let r = k.group_norm_split_plan(s, x, scale, shift, out, shape);
    let segments = Kernels::group_segments(shape);
    let pairs = shape.rows * shape.groups;
    let cut = recorder::params(
        segments as u32,
        arith::ceil(shape.per_group * shape.len, segments) as u32,
        0,
        0,
    );
    let partials = s.fresh(seq![(2 * pairs * segments) as usize]);
    let (gd, ge) = Kernels::group_params(shape);
    let asked = s.allocate((2 * pairs * segments * 4) as nat, "group_norm.partials"@);
    lemma_allocate(
        s,
        (2 * pairs * segments * 4) as nat,
        "group_norm.partials"@,
        partials.shape,
    );
    lemma_forget(s, asked, silence(), seq![partials]);
    let checked = Kernels::group_grid_checked(asked, pairs * segments);
    lemma_require(
        asked,
        arith::ceil(pairs * segments, shaders::ROW_GRID_X as int) <= shaders::ROW_GRID_X,
        crate::error::Error::Shape(
            crate::error::Fault::GroupNormGrid { workgroups: (pairs * segments) as usize },
        ),
    );
    lemma_silent(s, asked, checked, silence(), nothing());
    let d1 = DispatchView {
        label: "group_norm_partial"@,
        kernel: Kernel::GroupNormPartial,
        table: kernels::no_bindings().push(recorder::whole(x)).push(gd).push(ge).push(cut).push(
            recorder::whole(partials),
        ),
        grid: kernels::row_workgroups(pairs * segments),
    };
    let reduced = checked.command(CommandView::Dispatch(d1));
    lemma_command(checked, CommandView::Dispatch(d1));
    lemma_silent(s, checked, reduced, silence(), nothing());
    let table = Kernels::group_apply_table(x, scale, shift, out, shape);
    let apply = table.push(cut);
    assert(table =~= step.table);
    if shaders::combine_pays(
        pairs as nat,
        segments as nat,
        k.settings.combine_stats,
        k.settings.combine_work as nat,
    ) {
        let stats = reduced.fresh(seq![(2 * pairs) as usize]);
        let asked2 = reduced.allocate((2 * pairs * 4) as nat, "group_norm.stats"@);
        lemma_allocate(reduced, (2 * pairs * 4) as nat, "group_norm.stats"@, stats.shape);
        lemma_forget(reduced, asked2, silence(), seq![stats]);
        lemma_silent(s, reduced, asked2, silence(), nothing());
        let d2 = DispatchView {
            label: "group_norm_combine"@,
            kernel: Kernel::GroupNormCombine,
            table: kernels::no_bindings().push(recorder::whole(partials)).push(
                recorder::whole(stats),
            ).push(gd).push(ge).push(cut),
            grid: kernels::over(pairs),
        };
        let combined = asked2.command(CommandView::Dispatch(d2));
        lemma_command(asked2, CommandView::Dispatch(d2));
        lemma_silent(s, asked2, combined, silence(), nothing());
        let d3 = DispatchView {
            label: "group_norm_apply"@,
            kernel: Kernel::GroupNormApply,
            table: apply.push(recorder::whole(stats)),
            grid: kernels::row_workgroups(pairs * segments),
        };
        assert(d3.table.take(6) =~= table);
        lemma_command(combined, CommandView::Dispatch(d3));
        lemma_step(s, combined, r, silence(), nothing(), seq![step]);
        assert(silence() + seq![step] =~= seq![step]);
    } else {
        let d3 = DispatchView {
            label: "group_norm_apply"@,
            kernel: Kernel::GroupNormApplyFromPartials,
            table: apply.push(recorder::whole(partials)),
            grid: kernels::row_workgroups(pairs * segments),
        };
        assert(d3.table.take(6) =~= table);
        lemma_command(reduced, CommandView::Dispatch(d3));
        lemma_step(s, reduced, r, silence(), nothing(), seq![step]);
        assert(silence() + seq![step] =~= seq![step]);
    }
}

pub proof fn lemma_rescale(
    k: Kernels,
    s: Plan,
    x: TensorView,
    scale: TensorView,
    shift: TensorView,
    batch: usize,
    channels: usize,
    plane: usize,
)
    ensures
        runs(
            s,
            k.channel_affine_act_in_place_plan(
                s,
                x,
                scale,
                shift,
                batch,
                channels,
                plane,
                Activation::Identity,
            ),
            seq![rescale(x, scale, shift, batch as int, channels as int, plane as int)],
            nothing(),
        ),
{
    let step = rescale(x, scale, shift, batch as int, channels as int, plane as int);
    let r = k.channel_affine_act_in_place_plan(
        s,
        x,
        scale,
        shift,
        batch,
        channels,
        plane,
        Activation::Identity,
    );
    let total = batch * channels * plane;
    let d = DispatchView {
        label: "channel_affine_act_in_place"@,
        kernel: Kernel::ChannelAffineActInPlace,
        table: kernels::no_bindings().push(recorder::whole(x)).push(recorder::whole(scale)).push(
            recorder::whole(shift),
        ).push(
            recorder::params(
                channels as u32,
                plane as u32,
                Activation::Identity.code_spec(),
                total as u32,
            ),
        ),
        grid: kernels::over(total),
    };
    assert(d.table =~= step.table);
    if r.fault is None {
        lemma_launched(s, s, r, d, step);
    } else {
        reveal(runs);
    }
}

pub proof fn lemma_activate(k: Kernels, s: Plan, x: TensorView)
    ensures
        runs(s, k.gelu_in_place_plan(s, x), seq![activate(x)], nothing()),
{
    let d = DispatchView {
        label: "gelu_in_place"@,
        kernel: Kernel::GeluInPlace,
        table: kernels::no_bindings().push(recorder::first(x, x.len())).push(
            recorder::params(x.len() as u32, 0, 0, 0),
        ),
        grid: kernels::over(x.len() as int),
    };
    assert(d.table =~= activate(x).table);
    lemma_launched(s, s, k.gelu_in_place_plan(s, x), d, activate(x));
}

pub proof fn lemma_gate(k: Kernels, s: Plan, x: TensorView, rows: usize, half: usize)
    ensures
        runs(
            s,
            k.glu_plan(s, x, rows, half),
            seq![gate(x, s.fresh(seq![rows, half]), rows as int, half as int)],
            seq![s.fresh(seq![rows, half])],
        ),
{
    let out = s.fresh(seq![rows, half]);
    let step = gate(x, out, rows as int, half as int);
    let asked = s.tensor(seq![rows, half], "glu.out"@);
    lemma_tensor(s, seq![rows, half], "glu.out"@);
    let d = DispatchView {
        label: "glu"@,
        kernel: Kernel::Glu,
        table: kernels::no_bindings().push(recorder::whole(x)).push(
            recorder::first(out, (rows * half) as nat),
        ).push(recorder::params(rows as u32, half as u32, 0, 0)),
        grid: kernels::over(rows * half),
    };
    assert(rows * half >= 0) by (nonlinear_arith);
    assert(d.table =~= step.table);
    lemma_launched(asked, asked, k.glu_plan(s, x, rows, half), d, step);
    lemma_step(s, asked, k.glu_plan(s, x, rows, half), silence(), seq![out], seq![step]);
    assert(silence() + seq![step] =~= seq![step]);
}

pub proof fn lemma_soften(
    k: Kernels,
    s: Plan,
    x: TensorView,
    out: TensorView,
    rows: usize,
    cols: usize,
    scale: u32,
)
    ensures
        runs(
            s,
            k.softmax_scaled_plan(s, x, out, rows, cols, scale),
            seq![soften(x, out, rows as int, cols as int, scale)],
            nothing(),
        ),
{
    let step = soften(x, out, rows as int, cols as int, scale);
    let d = DispatchView {
        label: "softmax"@,
        kernel: if k.shuffle_reduction {
            Kernel::SoftmaxScaledWarp
        } else {
            Kernel::Softmax
        },
        table: kernels::no_bindings().push(recorder::whole(x)).push(recorder::whole(out)).push(
            recorder::params(rows as u32, cols as u32, scale, 0),
        ),
        grid: kernels::row_workgroups(
            if k.shuffle_reduction {
                arith::ceil(rows as int, shaders::SOFTMAX_WARP_ROWS_PER_WG as int)
            } else {
                rows as int
            },
        ),
    };
    assert(d.table =~= step.table);
    lemma_launched(s, s, k.softmax_scaled_plan(s, x, out, rows, cols, scale), d, step);
}

pub proof fn lemma_sum_into(k: Kernels, s: Plan, out: TensorView, source: TensorView)
    ensures
        runs(s, k.add_in_place_plan(s, out, source), seq![sum_into(out, source)], nothing()),
{
    let step = sum_into(out, source);
    let r = k.add_in_place_plan(s, out, source);
    let count = out.len();
    let len = source.len();
    let table = kernels::no_bindings().push(recorder::first(out, count)).push(
        recorder::first(source, len),
    ).push(
        recorder::params(
            count as u32,
            if len == count {
                0
            } else {
                len as u32
            },
            0,
            0,
        ),
    );
    assert(table =~= step.table);
    if r.fault is Some {
        reveal(runs);
    } else if count % 4 == 0 {
        let d = DispatchView {
            label: "add_in_place_vec4"@,
            kernel: Kernel::AddInPlaceVec4,
            table,
            grid: kernels::over(count as int / 4),
        };
        lemma_launched(s, s, r, d, step);
    } else {
        let d = DispatchView {
            label: "add_in_place"@,
            kernel: Kernel::AddInPlace,
            table,
            grid: kernels::over(count as int),
        };
        lemma_launched(s, s, r, d, step);
    }
}

pub proof fn lemma_copy(k: Kernels, s: Plan, x: TensorView, out: TensorView, count: usize)
    ensures
        runs(s, k.copy_plan(s, x, out, count), seq![copy(x, out, count as int)], nothing()),
{
    let step = copy(x, out, count as int);
    let d = DispatchView {
        label: "copy"@,
        kernel: Kernel::Copy,
        table: elementwise::map_table(x, out, count as int),
        grid: kernels::over(count as int),
    };
    assert(d.table =~= step.table);
    lemma_launched(s, s, k.copy_plan(s, x, out, count), d, step);
}

pub proof fn lemma_exchange(
    k: Kernels,
    s: Plan,
    x: TensorView,
    out: TensorView,
    batch: usize,
    rows: usize,
    cols: usize,
    width: usize,
)
    ensures
        runs(
            s,
            k.transpose_plan(s, x, out, batch, rows, cols, width),
            seq![exchange(x, out, batch as int, rows as int, cols as int, width as int)],
            nothing(),
        ),
{
    let step = exchange(x, out, batch as int, rows as int, cols as int, width as int);
    let r = k.transpose_plan(s, x, out, batch, rows, cols, width);
    let d = DispatchView {
        label: "transpose"@,
        kernel: Kernel::Transpose,
        table: kernels::no_bindings().push(recorder::whole(x)).push(recorder::whole(out)).push(
            recorder::params(batch as u32, rows as u32, cols as u32, width as u32),
        ),
        grid: kernels::over(batch * rows * cols * width),
    };
    assert(d.table =~= step.table);
    if r.fault is None {
        lemma_launched(s, s, r, d, step);
    } else {
        reveal(runs);
    }
}

pub proof fn lemma_crop(
    k: Kernels,
    s: Plan,
    x: TensorView,
    out: TensorView,
    batch: usize,
    stride: usize,
    rows: usize,
    cols: usize,
    from: usize,
)
    ensures
        runs(
            s,
            k.crop_rows_into_plan(s, x, out, batch, stride, rows, cols, from),
            seq![
                crop(
                    x,
                    out,
                    batch as int,
                    stride as int,
                    rows as int,
                    cols as int,
                    from as int,
                ),
            ],
            nothing(),
        ),
{
    let step = crop(
        x,
        out,
        batch as int,
        stride as int,
        rows as int,
        cols as int,
        from as int,
    );
    let r = k.crop_rows_into_plan(s, x, out, batch, stride, rows, cols, from);
    let d = DispatchView {
        label: "crop_rows"@,
        kernel: Kernel::CropRows,
        table: kernels::no_bindings().push(recorder::whole(x)).push(recorder::whole(out)).push(
            recorder::params(stride as u32, rows as u32, cols as u32, from as u32),
        ).push(recorder::params(batch as u32, 0, 0, 0)),
        grid: kernels::over(batch * rows * cols),
    };
    assert(d.table =~= step.table);
    if r.fault is None {
        lemma_launched(s, s, r, d, step);
    } else {
        reveal(runs);
    }
}

pub proof fn lemma_widen(
    k: Kernels,
    s: Plan,
    x: TensorView,
    out: TensorView,
    batch: usize,
    rows: usize,
    cols: usize,
    narrow: usize,
    wide: usize,
    tall: usize,
)
    ensures
        runs(
            s,
            k.copy_pitched_into_plan(s, x, out, batch, rows, cols, narrow, wide, tall),
            seq![
                widen(
                    x,
                    out,
                    batch as int,
                    rows as int,
                    cols as int,
                    narrow as int,
                    wide as int,
                    tall as int,
                ),
            ],
            nothing(),
        ),
{
    let step = widen(
        x,
        out,
        batch as int,
        rows as int,
        cols as int,
        narrow as int,
        wide as int,
        tall as int,
    );
    let r = k.copy_pitched_into_plan(s, x, out, batch, rows, cols, narrow, wide, tall);
    let d = DispatchView {
        label: "copy_pitched"@,
        kernel: Kernel::CopyPitched,
        table: kernels::no_bindings().push(recorder::whole(x)).push(recorder::whole(out)).push(
            recorder::params(batch as u32, rows as u32, cols as u32, narrow as u32),
        ).push(recorder::params(tall as u32, wide as u32, 0, 0)),
        grid: kernels::over(batch * rows * cols),
    };
    assert(d.table =~= step.table);
    if r.fault is None {
        lemma_launched(s, s, r, d, step);
    } else {
        reveal(runs);
    }
}

pub proof fn lemma_clear(k: Kernels, s: Plan, x: TensorView, count: usize)
    ensures
        runs(s, k.fill_zero_into_plan(s, x, count), seq![clear(x, count as int)], nothing()),
{
    let step = clear(x, count as int);
    let r = k.fill_zero_into_plan(s, x, count);
    let d = DispatchView {
        label: "fill_zero"@,
        kernel: Kernel::FillZero,
        table: kernels::no_bindings().push(recorder::whole(x)).push(
            recorder::params(count as u32, 0, 0, 0),
        ),
        grid: kernels::over(count as int),
    };
    assert(d.table =~= step.table);
    if r.fault is None {
        lemma_launched(s, s, r, d, step);
    } else {
        reveal(runs);
    }
}

pub proof fn lemma_bias_rows(
    k: Kernels,
    s: Plan,
    x: TensorView,
    bias: TensorView,
    rows: usize,
    cols: usize,
    period: usize,
)
    ensures
        runs(
            s,
            k.add_row_bias_in_place_plan(s, x, bias, rows, cols, period),
            seq![bias_rows(x, bias, rows as int, cols as int, period as int)],
            nothing(),
        ),
{
    let step = bias_rows(x, bias, rows as int, cols as int, period as int);
    let r = k.add_row_bias_in_place_plan(s, x, bias, rows, cols, period);
    let d = DispatchView {
        label: "add_row_bias_in_place"@,
        kernel: Kernel::AddRowBiasInPlace,
        table: kernels::no_bindings().push(recorder::whole(x)).push(recorder::whole(bias)).push(
            recorder::params(rows as u32, cols as u32, period as u32, 0),
        ),
        grid: kernels::over(rows * cols),
    };
    assert(d.table =~= step.table);
    if r.fault is None {
        lemma_launched(s, s, r, d, step);
    } else {
        reveal(runs);
    }
}

pub proof fn lemma_gather(
    k: Kernels,
    s: Plan,
    x: TensorView,
    out: TensorView,
    shape: Im2ColShape,
)
    ensures
        runs(
            s,
            k.conv2d_gather_into_plan(s, x, out, shape),
            seq![
                gather(
                    x,
                    out,
                    shape,
                    shape.pitch() as usize as int,
                    shape.k_pad() as usize as int,
                ),
            ],
            nothing(),
        ),
{
    let pitch = shape.pitch() as usize;
    let rows = shape.k_pad() as usize;
    let step = gather(x, out, shape, pitch as int, rows as int);
    let r = k.conv2d_gather_into_plan(s, x, out, shape);
    let gx = arith::ceil(shape.out_w(), shaders::ROW_THREADS as int);
    let gy = rows * shape.batch;
    let d = DispatchView {
        label: "im2col"@,
        kernel: Kernel::Im2col,
        table: kernels::no_bindings().push(recorder::whole(x)).push(recorder::whole(out)).push(
            recorder::params(
                shape.in_channels as u32,
                shape.kernel.0 as u32,
                shape.kernel.1 as u32,
                shape.h as u32,
            ),
        ).push(
            recorder::params(
                shape.w as u32,
                shape.out_h() as u32,
                shape.out_w() as u32,
                shape.batch as u32,
            ),
        ).push(
            recorder::params(
                shape.stride.0 as u32,
                shape.stride.1 as u32,
                shape.pad.0 as u32,
                shape.pad.1 as u32,
            ),
        ).push(
            recorder::params(
                pitch as u32,
                rows as u32,
                (arith::at_least_one(gx) * shaders::ROW_THREADS) as u32,
                0,
            ),
        ),
        grid: (
            arith::at_least_one(gx) as u32,
            arith::at_least_one(gy) as u32,
            arith::at_least_one(shape.out_h()) as u32,
        ),
    };
    assert(d.table =~= step.table);
    if r.fault is None {
        lemma_launched(s, s, r, d, step);
    } else {
        reveal(runs);
    }
}

pub proof fn lemma_fold(
    k: Kernels,
    s: Plan,
    taps: TensorView,
    out: TensorView,
    shape: Col2ImShape,
    pitch: usize,
)
    ensures
        runs(
            s,
            k.col2im_into_plan(s, taps, out, shape, pitch),
            seq![fold(taps, out, shape, pitch as int)],
            nothing(),
        ),
{
    let step = fold(taps, out, shape, pitch as int);
    let r = k.col2im_into_plan(s, taps, out, shape, pitch);
    let d = DispatchView {
        label: "col2im"@,
        kernel: Kernel::Col2im,
        table: kernels::no_bindings().push(recorder::whole(taps)).push(recorder::whole(out)).push(
            recorder::params(
                shape.out_channels as u32,
                shape.kernel.0 as u32,
                shape.kernel.1 as u32,
                shape.out_h() as u32,
            ),
        ).push(
            recorder::params(
                shape.out_w() as u32,
                shape.stride.0 as u32,
                shape.stride.1 as u32,
                shape.in_h as u32,
            ),
        ).push(
            recorder::params(
                shape.in_w as u32,
                shape.batch as u32,
                pitch as u32,
                shape.m_pad() as u32,
            ),
        ),
        grid: kernels::over(shape.output_len()),
    };
    assert(d.table =~= step.table);
    if r.fault is None {
        lemma_launched(s, s, r, d, step);
    } else {
        reveal(runs);
    }
}

} // verus!
