//! Operations that move elements without computing on them.

use vstd::prelude::*;

use crate::error::{Error, ErrorView, Fault};
use crate::gpu::kernels;
use crate::gpu::kernels::Kernels;
use crate::gpu::pipelines::Kernel;
use crate::gpu::recorder;
use crate::gpu::recorder::{Plan, Recorder, Table};
use crate::gpu::tensor::{DevTensor, TensorView};

verus! {

pub open spec fn pitched_word(name: &'static str, value: usize) -> ErrorView {
    Error::Shape(Fault::PitchedWord { name, value })
}

pub open spec fn heads_packing(name: &'static str, value: usize) -> ErrorView {
    Error::Shape(Fault::HeadsPacking { name, value })
}

/// A parameter that must fit 32 bits.
fn word_checked(name: &'static str, value: usize) -> (r: Result<(), Error>)
    ensures
        match r {
            Ok(()) => value <= u32::MAX,
            Err(e) => value > u32::MAX && e@ == pitched_word(name, value),
        },
{
    if value as u64 > u32::MAX as u64 {
        Err(Error::Shape(Fault::PitchedWord { name, value }))
    } else {
        Ok(())
    }
}

impl Kernels {
    pub open spec fn transpose_plan(
        self,
        s: Plan,
        x: TensorView,
        out: TensorView,
        batch: usize,
        rows: usize,
        cols: usize,
        width: usize,
    ) -> Plan {
        let elements = batch * rows * cols * width;
        s.require(
            x.len() >= elements && out.len() >= elements,
            Error::Shape(
                Fault::TransposeLength { batch, rows, cols, width, elements: elements as usize },
            ),
        ).launch(
            "transpose"@,
            Kernel::Transpose,
            kernels::no_bindings().push(recorder::whole(x)).push(recorder::whole(out)).push(
                recorder::params(batch as u32, rows as u32, cols as u32, width as u32),
            ),
            kernels::over(elements),
        )
    }

    /// Swaps the middle axes of `(batch, rows, cols, width)`; `width` is the run
    /// that travels as a unit.
    pub fn transpose(
        &self,
        rec: &mut Recorder,
        x: &DevTensor,
        out: &DevTensor,
        batch: usize,
        rows: usize,
        cols: usize,
        width: usize,
    ) -> (r: Result<(), Error>)
        requires
            x.wf(),
            out.wf(),
            batch * rows <= usize::MAX,
            batch * rows * cols <= usize::MAX,
            batch * rows * cols * width <= usize::MAX,
        ensures
            recorder::settled(final(rec)@, r) == self.transpose_plan(
                old(rec)@,
                x@,
                out@,
                batch,
                rows,
                cols,
                width,
            ),
    {
        proof {
            rec.lemma_running();
        }
        let elements: usize = batch * rows * cols * width;
        if x.len() < elements || out.len() < elements {
            return Err(
                Error::Shape(Fault::TransposeLength { batch, rows, cols, width, elements }),
            );
        }
        let table = Table::new().whole(x).whole(out).params(
            batch as u32,
            rows as u32,
            cols as u32,
            width as u32,
        );
        rec.dispatch("transpose", Kernel::Transpose, table, kernels::over_of(elements));
        Ok(())
    }

    pub open spec fn copy_pitched_into_plan(
        self,
        s: Plan,
        x: TensorView,
        out: TensorView,
        batch: usize,
        rows: usize,
        cols: usize,
        src_pitch: usize,
        dst_pitch: usize,
        dst_rows: usize,
    ) -> Plan {
        let read = batch * rows * src_pitch;
        let written = batch * dst_rows * dst_pitch;
        s.require(rows <= dst_rows, Error::Shape(Fault::PitchedRows { rows, dst_rows })).require(
            batch <= u32::MAX,
            pitched_word("batch", batch),
        ).require(rows <= u32::MAX, pitched_word("rows", rows)).require(
            cols <= u32::MAX,
            pitched_word("cols", cols),
        ).require(src_pitch <= u32::MAX, pitched_word("src_pitch", src_pitch)).require(
            dst_pitch <= u32::MAX,
            pitched_word("dst_pitch", dst_pitch),
        ).require(dst_rows <= u32::MAX, pitched_word("dst_rows", dst_rows)).require(
            x.len() >= read,
            Error::Shape(Fault::PitchedSource { need: read as usize, len: x.len() as usize }),
        ).require(
            out.len() >= written,
            Error::Shape(Fault::PitchedTarget { need: written as usize, len: out.len() as usize }),
        ).launch(
            "copy_pitched"@,
            Kernel::CopyPitched,
            kernels::no_bindings().push(recorder::whole(x)).push(recorder::whole(out)).push(
                recorder::params(batch as u32, rows as u32, cols as u32, src_pitch as u32),
            ).push(recorder::params(dst_rows as u32, dst_pitch as u32, 0, 0)),
            kernels::over(batch * rows * cols),
        )
    }

    /// Copies a `(batch, rows, cols)` block from one row pitch to another; the
    /// target's extra rows per batch are left alone.
    pub fn copy_pitched_into(
        &self,
        rec: &mut Recorder,
        x: &DevTensor,
        out: &DevTensor,
        batch: usize,
        rows: usize,
        cols: usize,
        src_pitch: usize,
        dst_pitch: usize,
        dst_rows: usize,
    ) -> (r: Result<(), Error>)
        requires
            x.wf(),
            out.wf(),
            batch * rows <= usize::MAX,
            batch * rows * src_pitch <= usize::MAX,
            batch * dst_rows <= usize::MAX,
            batch * dst_rows * dst_pitch <= usize::MAX,
            batch * rows * cols <= usize::MAX,
        ensures
            recorder::settled(final(rec)@, r) == self.copy_pitched_into_plan(
                old(rec)@,
                x@,
                out@,
                batch,
                rows,
                cols,
                src_pitch,
                dst_pitch,
                dst_rows,
            ),
    {
        proof {
            rec.lemma_running();
        }
        if rows > dst_rows {
            return Err(Error::Shape(Fault::PitchedRows { rows, dst_rows }));
        }
        match word_checked("batch", batch) {
            Ok(()) => {},
            Err(e) => {
                return Err(e);
            },
        }
        match word_checked("rows", rows) {
            Ok(()) => {},
            Err(e) => {
                return Err(e);
            },
        }
        match word_checked("cols", cols) {
            Ok(()) => {},
            Err(e) => {
                return Err(e);
            },
        }
        match word_checked("src_pitch", src_pitch) {
            Ok(()) => {},
            Err(e) => {
                return Err(e);
            },
        }
        match word_checked("dst_pitch", dst_pitch) {
            Ok(()) => {},
            Err(e) => {
                return Err(e);
            },
        }
        match word_checked("dst_rows", dst_rows) {
            Ok(()) => {},
            Err(e) => {
                return Err(e);
            },
        }
        let read: usize = batch * rows * src_pitch;
        let x_len: usize = x.len();
        if x_len < read {
            return Err(Error::Shape(Fault::PitchedSource { need: read, len: x_len }));
        }
        let written: usize = batch * dst_rows * dst_pitch;
        let out_len: usize = out.len();
        if out_len < written {
            return Err(Error::Shape(Fault::PitchedTarget { need: written, len: out_len }));
        }
        let table = Table::new().whole(x).whole(out).params(
            batch as u32,
            rows as u32,
            cols as u32,
            src_pitch as u32,
        ).params(dst_rows as u32, dst_pitch as u32, 0, 0);
        rec.dispatch(
            "copy_pitched",
            Kernel::CopyPitched,
            table,
            kernels::over_of(batch * rows * cols),
        );
        Ok(())
    }

    pub open spec fn crop_rows_into_plan(
        self,
        s: Plan,
        x: TensorView,
        out: TensorView,
        batch: usize,
        src_batch_stride: usize,
        dst_rows: usize,
        cols: usize,
        row_offset: usize,
    ) -> Plan {
        let total = batch * dst_rows * cols;
        let read = src_batch_stride * batch;
        s.require(
            out.len() >= total,
            Error::Shape(Fault::CropTarget { need: total as usize, len: out.len() as usize }),
        ).require(
            x.len() >= read,
            Error::Shape(Fault::CropSource { need: read as usize, len: x.len() as usize }),
        ).launch(
            "crop_rows"@,
            Kernel::CropRows,
            kernels::no_bindings().push(recorder::whole(x)).push(recorder::whole(out)).push(
                recorder::params(
                    src_batch_stride as u32,
                    dst_rows as u32,
                    cols as u32,
                    row_offset as u32,
                ),
            ).push(recorder::params(batch as u32, 0, 0, 0)),
            kernels::over(total),
        )
    }

    /// Keeps the rows `row_offset .. row_offset + dst_rows` of each batch.
    pub fn crop_rows_into(
        &self,
        rec: &mut Recorder,
        x: &DevTensor,
        out: &DevTensor,
        batch: usize,
        src_batch_stride: usize,
        dst_rows: usize,
        cols: usize,
        row_offset: usize,
    ) -> (r: Result<(), Error>)
        requires
            x.wf(),
            out.wf(),
            batch * dst_rows <= usize::MAX,
            batch * dst_rows * cols <= usize::MAX,
            src_batch_stride * batch <= usize::MAX,
        ensures
            recorder::settled(final(rec)@, r) == self.crop_rows_into_plan(
                old(rec)@,
                x@,
                out@,
                batch,
                src_batch_stride,
                dst_rows,
                cols,
                row_offset,
            ),
    {
        proof {
            rec.lemma_running();
        }
        let total: usize = batch * dst_rows * cols;
        let out_len: usize = out.len();
        if out_len < total {
            return Err(Error::Shape(Fault::CropTarget { need: total, len: out_len }));
        }
        let x_len: usize = x.len();
        if src_batch_stride * batch > x_len {
            return Err(Error::Shape(Fault::CropSource { need: src_batch_stride * batch, len: x_len }));
        }
        let table = Table::new().whole(x).whole(out).params(
            src_batch_stride as u32,
            dst_rows as u32,
            cols as u32,
            row_offset as u32,
        ).params(batch as u32, 0, 0, 0);
        rec.dispatch("crop_rows", Kernel::CropRows, table, kernels::over_of(total));
        Ok(())
    }

    pub open spec fn heads_permute_into_plan(
        self,
        s: Plan,
        x: TensorView,
        out: TensorView,
        batches: usize,
        heads: usize,
        per_head: usize,
        t: usize,
        f: usize,
        inverse: bool,
    ) -> Plan {
        let count = batches * heads * per_head * t * f;
        s.require(
            batches != 0 && heads != 0 && per_head != 0 && t != 0 && f != 0,
            Error::Shape(Fault::HeadsZero),
        ).require(
            x.len() >= count && out.len() >= count,
            Error::Shape(
                Fault::HeadsLength {
                    count: count as usize,
                    x: x.len() as usize,
                    out: out.len() as usize,
                },
            ),
        ).require(batches <= u16::MAX, heads_packing("batches", batches)).require(
            heads <= u16::MAX,
            heads_packing("heads", heads),
        ).require(per_head <= u16::MAX, heads_packing("per_head", per_head)).require(
            t <= u16::MAX,
            heads_packing("t", t),
        ).require(f <= u16::MAX, heads_packing("f", f)).require(
            count <= u32::MAX,
            Error::Shape(Fault::HeadsCount { count: count as usize }),
        ).launch(
            "heads_permute"@,
            Kernel::HeadsPermute,
            kernels::no_bindings().push(recorder::whole(x)).push(recorder::whole(out)).push(
                recorder::params(batches as u32, heads as u32, per_head as u32, t as u32),
            ).push(
                recorder::params(
                    f as u32,
                    count as u32,
                    if inverse {
                        1
                    } else {
                        0
                    },
                    0,
                ),
            ),
            kernels::over(count),
        )
    }

    /// `(b, c, t, f) -> (b * heads, f, t, c / heads)`, or back where `inverse`.
    pub fn heads_permute_into(
        &self,
        rec: &mut Recorder,
        x: &DevTensor,
        out: &DevTensor,
        batches: usize,
        heads: usize,
        per_head: usize,
        t: usize,
        f: usize,
        inverse: bool,
    ) -> (r: Result<(), Error>)
        requires
            x.wf(),
            out.wf(),
            batches * heads <= usize::MAX,
            batches * heads * per_head <= usize::MAX,
            batches * heads * per_head * t <= usize::MAX,
            batches * heads * per_head * t * f <= usize::MAX,
        ensures
            recorder::settled(final(rec)@, r) == self.heads_permute_into_plan(
                old(rec)@,
                x@,
                out@,
                batches,
                heads,
                per_head,
                t,
                f,
                inverse,
            ),
    {
        proof {
            rec.lemma_running();
        }
        if batches == 0 || heads == 0 || per_head == 0 || t == 0 || f == 0 {
            return Err(Error::Shape(Fault::HeadsZero));
        }
        let count: usize = batches * heads * per_head * t * f;
        let x_len: usize = x.len();
        let out_len: usize = out.len();
        if x_len < count || out_len < count {
            return Err(Error::Shape(Fault::HeadsLength { count, x: x_len, out: out_len }));
        }
        if batches > 65535 {
            return Err(Error::Shape(Fault::HeadsPacking { name: "batches", value: batches }));
        }
        if heads > 65535 {
            return Err(Error::Shape(Fault::HeadsPacking { name: "heads", value: heads }));
        }
        if per_head > 65535 {
            return Err(Error::Shape(Fault::HeadsPacking { name: "per_head", value: per_head }));
        }
        if t > 65535 {
            return Err(Error::Shape(Fault::HeadsPacking { name: "t", value: t }));
        }
        if f > 65535 {
            return Err(Error::Shape(Fault::HeadsPacking { name: "f", value: f }));
        }
        if count as u64 > u32::MAX as u64 {
            return Err(Error::Shape(Fault::HeadsCount { count }));
        }
        let direction: u32 = if inverse {
            1
        } else {
            0
        };
        let table = Table::new().whole(x).whole(out).params(
            batches as u32,
            heads as u32,
            per_head as u32,
            t as u32,
        ).params(f as u32, count as u32, direction, 0);
        rec.dispatch("heads_permute", Kernel::HeadsPermute, table, kernels::over_of(count));
        Ok(())
    }
}

// ----------------------------------------------------------- the heads' permutation

/// The sizes of a permutation: `(batches, heads * per_head, t, f)` on the one side,
/// `(batches * heads, f, t, per_head)` on the other.
pub struct HeadsShape {
    pub batches: nat,
    pub heads: nat,
    pub per_head: nat,
    pub t: nat,
    pub f: nat,
}

impl HeadsShape {
    pub open spec fn count(self) -> int {
        (self.batches * self.heads * self.per_head * self.t * self.f) as int
    }

    pub open spec fn holds(self, b: int, h: int, j: int, ti: int, fi: int) -> bool {
        &&& 0 <= b < self.batches
        &&& 0 <= h < self.heads
        &&& 0 <= j < self.per_head
        &&& 0 <= ti < self.t
        &&& 0 <= fi < self.f
    }

    /// Where element `j` of head `h` lies with the channels outside.
    pub open spec fn spread(self, b: int, h: int, j: int, ti: int, fi: int) -> int {
        ((b * (self.heads * self.per_head) + h * self.per_head + j) * self.t + ti) * self.f + fi
    }

    /// Where it lies with the heads outside and their elements inside.
    pub open spec fn grouped(self, b: int, h: int, j: int, ti: int, fi: int) -> int {
        ((b * self.heads + h) * self.f + fi) * (self.t * self.per_head) + ti * self.per_head + j
    }

    /// Where the kernel moves element `i` of the one side.
    pub open spec fn forth(self, i: int) -> int {
        let per_batch = (self.heads * self.per_head * self.t * self.f) as int;
        let plane = (self.t * self.f) as int;
        let rest = i % per_batch;
        let c = rest / plane;
        let after = rest % plane;
        self.grouped(
            i / per_batch,
            c / (self.per_head as int),
            c % (self.per_head as int),
            after / (self.f as int),
            after % (self.f as int),
        )
    }

    /// Where it moves element `i` of the other side.
    pub open spec fn back(self, i: int) -> int {
        let per_batch = (self.f * self.t * self.per_head) as int;
        let plane = (self.t * self.per_head) as int;
        let head = i / per_batch;
        let rest = i % per_batch;
        let after = rest % plane;
        self.spread(
            head / (self.heads as int),
            head % (self.heads as int),
            after % (self.per_head as int),
            after / (self.per_head as int),
            rest / plane,
        )
    }
}

/// `hi * n + lo` names one pair below `m` and `n`.
proof fn lemma_pairing(hi: int, lo: int, m: int, n: int)
    requires
        0 <= hi < m,
        0 <= lo < n,
    ensures
        0 <= hi * n + lo < m * n,
        (hi * n + lo) / n == hi,
        (hi * n + lo) % n == lo,
{
    assert(0 <= hi * n + lo < m * n) by (nonlinear_arith)
        requires
            0 <= hi < m,
            0 <= lo < n,
    ;
    vstd::arithmetic::div_mod::lemma_fundamental_div_mod_converse(hi * n + lo, n, hi, lo);
}

/// A place below `m * n` is such a pair.
proof fn lemma_unpairing(i: int, m: int, n: int)
    requires
        0 <= i < m * n,
        0 <= n,
    ensures
        n > 0,
        0 <= i / n < m,
        0 <= i % n < n,
        i == (i / n) * n + i % n,
{
    assert(n > 0) by (nonlinear_arith)
        requires
            0 <= i < m * n,
            0 <= n,
    ;
    vstd::arithmetic::div_mod::lemma_fundamental_div_mod(i, n);
    vstd::arithmetic::div_mod::lemma_mod_bound(i, n);
    let q = i / n;
    assert(0 <= q < m) by (nonlinear_arith)
        requires
            0 <= i < m * n,
            i == n * q + i % n,
            0 <= i % n < n,
    ;
    assert(n * q == q * n) by (nonlinear_arith);
}

/// The products of a permutation's sizes, put together two ways.
proof fn lemma_heads_products(s: HeadsShape)
    ensures
        s.count() == s.batches * (s.heads * s.per_head * s.t * s.f),
        s.heads * s.per_head * s.t * s.f == (s.heads * s.per_head) * (s.t * s.f),
        s.count() == (s.batches * s.heads) * (s.f * s.t * s.per_head),
        s.f * s.t * s.per_head == s.f * (s.t * s.per_head),
{
    let (b, h, p, t, f) = (s.batches, s.heads, s.per_head, s.t, s.f);
    assert(b * h * p * t * f == b * (h * p * t * f)) by (nonlinear_arith);
    assert(h * p * t * f == (h * p) * (t * f)) by (nonlinear_arith);
    assert(b * h * p * t * f == (b * h) * (f * t * p)) by (nonlinear_arith);
    assert(f * t * p == f * (t * p)) by (nonlinear_arith);
}

/// A spread place, batch by batch and plane by plane.
proof fn lemma_spread(s: HeadsShape, b: int, h: int, j: int, ti: int, fi: int)
    ensures
        s.spread(b, h, j, ti, fi) == b * ((s.heads * s.per_head) * (s.t * s.f)) + ((h * s.per_head
            + j) * (s.t * s.f) + (ti * s.f + fi)),
{
    let (t, f) = (s.t as int, s.f as int);
    let channels = (s.heads * s.per_head) as int;
    let (lead, c) = (b * channels, h * s.per_head + j);
    assert(((lead + c) * t + ti) * f + fi == lead * (t * f) + (c * (t * f) + (ti * f + fi)))
        by (nonlinear_arith);
    assert(lead * (t * f) == b * (channels * (t * f))) by (nonlinear_arith)
        requires
            lead == b * channels,
    ;
}

/// A grouped place, head by head and plane by plane.
proof fn lemma_grouped(s: HeadsShape, b: int, h: int, j: int, ti: int, fi: int)
    ensures
        s.grouped(b, h, j, ti, fi) == (b * s.heads + h) * (s.f * (s.t * s.per_head)) + (fi * (s.t
            * s.per_head) + (ti * s.per_head + j)),
{
    let f = s.f as int;
    let (head, plane) = (b * s.heads + h, (s.t * s.per_head) as int);
    assert((head * f + fi) * plane == head * (f * plane) + fi * plane) by (nonlinear_arith);
}

/// The kernel finds a spread place's element again.
proof fn lemma_forth(s: HeadsShape, b: int, h: int, j: int, ti: int, fi: int)
    requires
        s.holds(b, h, j, ti, fi),
    ensures
        0 <= s.spread(b, h, j, ti, fi) < s.count(),
        s.forth(s.spread(b, h, j, ti, fi)) == s.grouped(b, h, j, ti, fi),
{
    let (heads, per, t, f) = (s.heads as int, s.per_head as int, s.t as int, s.f as int);
    lemma_heads_products(s);
    let c = h * per + j;
    lemma_pairing(h, j, heads, per);
    let after = ti * f + fi;
    lemma_pairing(ti, fi, t, f);
    let rest = c * (t * f) + after;
    lemma_pairing(c, after, heads * per, t * f);
    let per_batch = (heads * per) * (t * f);
    lemma_pairing(b, rest, s.batches as int, per_batch);
    lemma_spread(s, b, h, j, ti, fi);
}

/// The kernel finds a grouped place's element again.
proof fn lemma_back(s: HeadsShape, b: int, h: int, j: int, ti: int, fi: int)
    requires
        s.holds(b, h, j, ti, fi),
    ensures
        0 <= s.grouped(b, h, j, ti, fi) < s.count(),
        s.back(s.grouped(b, h, j, ti, fi)) == s.spread(b, h, j, ti, fi),
{
    let (heads, per, t, f) = (s.heads as int, s.per_head as int, s.t as int, s.f as int);
    lemma_heads_products(s);
    let after = ti * per + j;
    lemma_pairing(ti, j, t, per);
    let rest = fi * (t * per) + after;
    lemma_pairing(fi, after, f, t * per);
    let head = b * heads + h;
    lemma_pairing(b, h, s.batches as int, heads);
    let per_batch = f * (t * per);
    lemma_pairing(head, rest, s.batches * heads, per_batch);
    lemma_grouped(s, b, h, j, ti, fi);
}

/// The permutation takes `x[b, h * per_head + j, ti, fi]` to
/// `y[b * heads + h, fi, ti, j]`, and its reverse takes it back.
pub proof fn law_heads_are_exchanged(s: HeadsShape, b: int, h: int, j: int, ti: int, fi: int)
    requires
        s.holds(b, h, j, ti, fi),
    ensures
        0 <= s.spread(b, h, j, ti, fi) < s.count(),
        0 <= s.grouped(b, h, j, ti, fi) < s.count(),
        s.forth(s.spread(b, h, j, ti, fi)) == s.grouped(b, h, j, ti, fi),
        s.back(s.grouped(b, h, j, ti, fi)) == s.spread(b, h, j, ti, fi),
{
    lemma_forth(s, b, h, j, ti, fi);
    lemma_back(s, b, h, j, ti, fi);
}

/// The permutation and its reverse undo each other, place by place.
pub proof fn law_heads_permutations_are_inverse(s: HeadsShape, i: int)
    requires
        0 <= i < s.count(),
    ensures
        0 <= s.forth(i) < s.count(),
        s.back(s.forth(i)) == i,
        0 <= s.back(i) < s.count(),
        s.forth(s.back(i)) == i,
{
    let (heads, per, t, f) = (s.heads as int, s.per_head as int, s.t as int, s.f as int);
    lemma_heads_products(s);
    assert(heads * per >= 0 && t * f >= 0 && t * per >= 0 && s.batches * heads >= 0 && f * (t * per)
        >= 0 && (heads * per) * (t * f) >= 0) by (nonlinear_arith)
        requires
            heads >= 0,
            per >= 0,
            t >= 0,
            f >= 0,
            s.batches >= 0,
    ;
    {
        let per_batch = (heads * per) * (t * f);
        lemma_unpairing(i, s.batches as int, per_batch);
        let rest = i % per_batch;
        lemma_unpairing(rest, heads * per, t * f);
        let c = rest / (t * f);
        let after = rest % (t * f);
        lemma_unpairing(c, heads, per);
        lemma_unpairing(after, t, f);
        let (b, h, j, ti, fi) = (i / per_batch, c / per, c % per, after / f, after % f);
        law_heads_are_exchanged(s, b, h, j, ti, fi);
        lemma_spread(s, b, h, j, ti, fi);
        assert(s.spread(b, h, j, ti, fi) == i);
        assert(s.forth(i) == s.grouped(b, h, j, ti, fi));
    }
    {
        let per_batch = f * (t * per);
        lemma_unpairing(i, s.batches * heads, per_batch);
        let head = i / per_batch;
        let rest = i % per_batch;
        lemma_unpairing(rest, f, t * per);
        let fi = rest / (t * per);
        let after = rest % (t * per);
        lemma_unpairing(after, t, per);
        lemma_unpairing(head, s.batches as int, heads);
        let (b, h, j, ti) = (head / heads, head % heads, after % per, after / per);
        law_heads_are_exchanged(s, b, h, j, ti, fi);
        lemma_grouped(s, b, h, j, ti, fi);
        assert(s.grouped(b, h, j, ti, fi) == i);
        assert(s.back(i) == s.spread(b, h, j, ti, fi));
    }
}

/// Permuting the heads and permuting them back leaves every number where it was, in
/// either order: nothing is lost and nothing is repeated.
pub proof fn law_permuting_heads_back_restores(
    s: HeadsShape,
    x: Seq<u32>,
    y: Seq<u32>,
    z: Seq<u32>,
)
    requires
        x.len() == s.count(),
        z.len() == s.count(),
    ensures
        (forall|i: int| 0 <= i < s.count() ==> y[#[trigger] s.forth(i)] == x[i]) && (forall|i: int|
            0 <= i < s.count() ==> z[#[trigger] s.back(i)] == y[i]) ==> z == x,
        (forall|i: int| 0 <= i < s.count() ==> y[#[trigger] s.back(i)] == x[i]) && (forall|i: int|
            0 <= i < s.count() ==> z[#[trigger] s.forth(i)] == y[i]) ==> z == x,
{
    assert forall|i: int| 0 <= i < s.count() implies {
        &&& 0 <= #[trigger] s.forth(i) < s.count()
        &&& s.back(s.forth(i)) == i
    } by {
        law_heads_permutations_are_inverse(s, i);
    }
    assert forall|i: int| 0 <= i < s.count() implies {
        &&& 0 <= #[trigger] s.back(i) < s.count()
        &&& s.forth(s.back(i)) == i
    } by {
        law_heads_permutations_are_inverse(s, i);
    }
    if (forall|i: int| 0 <= i < s.count() ==> y[#[trigger] s.forth(i)] == x[i]) && (forall|i: int|
        0 <= i < s.count() ==> z[#[trigger] s.back(i)] == y[i]) {
        assert forall|i: int| 0 <= i < s.count() implies z[i] == x[i] by {
            assert(y[s.forth(i)] == x[i]);
            assert(z[s.back(s.forth(i))] == y[s.forth(i)]);
        }
        assert(z =~= x);
    }
    if (forall|i: int| 0 <= i < s.count() ==> y[#[trigger] s.back(i)] == x[i]) && (forall|i: int|
        0 <= i < s.count() ==> z[#[trigger] s.forth(i)] == y[i]) {
        assert forall|i: int| 0 <= i < s.count() implies z[i] == x[i] by {
            assert(y[s.back(i)] == x[i]);
            assert(z[s.forth(s.back(i))] == y[s.back(i)]);
        }
        assert(z =~= x);
    }
}

} // verus!
