//! Elementwise and layout operations.

use vstd::prelude::*;

use crate::error::{Error, ErrorView, Fault};
use crate::gpu::arith;
use crate::gpu::kernels;
use crate::gpu::kernels::Kernels;
use crate::gpu::pipelines::Kernel;
use crate::gpu::recorder;
use crate::gpu::recorder::{BindingView, Plan, Recorder, Table};
use crate::gpu::shaders;
use crate::gpu::shapes::{Activation, GemmJob};
use crate::gpu::tensor::{DevTensor, TensorView};

verus! {

/// A kernel from `x` to `out`, over the first `count` elements of each.
pub open spec fn map_table(x: TensorView, out: TensorView, count: int) -> Seq<BindingView> {
    kernels::no_bindings().push(recorder::first(x, count as nat)).push(
        recorder::first(out, count as nat),
    ).push(recorder::params(count as u32, 0, 0, 0))
}

impl Kernels {
    // ---------------------------------------------------------------- products

    pub open spec fn linear_into_plan(
        self,
        s: Plan,
        x: TensorView,
        w: TensorView,
        out: TensorView,
        m: usize,
        n: usize,
        k: usize,
    ) -> Plan {
        self.gemm_into_plan(s, x, w, out, GemmJob::simple_spec(m, n, k))
    }

    /// `out[m, n] = x[m, k] @ w[k, n]`, both operands padded with zeros to whole
    /// tiles.
    pub fn linear_into(
        &self,
        rec: &mut Recorder,
        x: &DevTensor,
        w: &DevTensor,
        out: &DevTensor,
        m: usize,
        n: usize,
        k: usize,
    ) -> (r: Result<(), Error>)
        requires
            x.wf(),
            w.wf(),
            out.wf(),
            GemmJob::simple_fits(m, n, k),
            kernels::product_fits(GemmJob::simple_spec(m, n, k)),
        ensures
            recorder::settled(final(rec)@, r) == self.linear_into_plan(
                old(rec)@,
                x@,
                w@,
                out@,
                m,
                n,
                k,
            ),
    {
        self.gemm_into(rec, x, w, out, GemmJob::simple(m, n, k))
    }

    pub open spec fn linear_plan(
        self,
        s: Plan,
        x: TensorView,
        w: TensorView,
        m: usize,
        n: usize,
        k: usize,
    ) -> Plan {
        self.linear_into_plan(
            s.tensor(seq![m, n], "linear.out"@),
            x,
            w,
            s.fresh(seq![m, n]),
            m,
            n,
            k,
        )
    }

    /// [`Kernels::linear_into`] a new tensor.
    pub fn linear(
        &self,
        rec: &mut Recorder,
        x: &DevTensor,
        w: &DevTensor,
        m: usize,
        n: usize,
        k: usize,
    ) -> (r: Result<DevTensor, Error>)
        requires
            x.wf(),
            w.wf(),
            recorder::askable(seq![m, n]),
            GemmJob::simple_fits(m, n, k),
            kernels::product_fits(GemmJob::simple_spec(m, n, k)),
        ensures
            recorder::settled(final(rec)@, r) == self.linear_plan(old(rec)@, x@, w@, m, n, k),
            r matches Ok(t) ==> t@ == old(rec)@.fresh(seq![m, n]) && t.wf(),
    {
        proof {
            rec.lemma_running();
        }
        let shape: Vec<usize> = vec![m, n];
        assert(shape@ =~= seq![m, n]);
        let out = match rec.tensor(shape, "linear.out") {
            Ok(out) => out,
            Err(e) => {
                return Err(e);
            },
        };
        match self.linear_into(rec, x, w, &out, m, n, k) {
            Ok(()) => Ok(out),
            Err(e) => Err(e),
        }
    }

    // ------------------------------------------------------------- activations

    pub open spec fn gelu_into_plan(self, s: Plan, x: TensorView, out: TensorView) -> Plan {
        s.launch(
            "gelu"@,
            Kernel::Gelu,
            map_table(x, out, x.len() as int),
            kernels::over(x.len() as int),
        )
    }

    /// `out = gelu(x)`.
    pub fn gelu_into(&self, rec: &mut Recorder, x: &DevTensor, out: &DevTensor)
        requires
            x.wf(),
        ensures
            final(rec)@ == self.gelu_into_plan(old(rec)@, x@, out@),
    {
        let count: usize = x.len();
        let table = Table::new().first(x, count).first(out, count).params(count as u32, 0, 0, 0);
        rec.dispatch("gelu", Kernel::Gelu, table, kernels::over_of(count));
    }

    pub open spec fn gelu_plan(self, s: Plan, x: TensorView) -> Plan {
        self.gelu_into_plan(s.tensor(x.shape, "gelu.out"@), x, s.fresh(x.shape))
    }

    /// `gelu(x)` in a new tensor.
    pub fn gelu(&self, rec: &mut Recorder, x: &DevTensor) -> (r: Result<DevTensor, Error>)
        requires
            x.wf(),
            recorder::askable(x.shape@),
        ensures
            recorder::settled(final(rec)@, r) == self.gelu_plan(old(rec)@, x@),
            r matches Ok(t) ==> t@ == old(rec)@.fresh(x.shape@) && t.wf(),
    {
        proof {
            rec.lemma_running();
        }
        let shape = x.shape.clone();
        assert(shape@ =~= x.shape@);
        let out = match rec.tensor(shape, "gelu.out") {
            Ok(out) => out,
            Err(e) => {
                return Err(e);
            },
        };
        self.gelu_into(rec, x, &out);
        Ok(out)
    }

    pub open spec fn gelu_in_place_plan(self, s: Plan, x: TensorView) -> Plan {
        s.launch(
            "gelu_in_place"@,
            Kernel::GeluInPlace,
            kernels::no_bindings().push(recorder::first(x, x.len())).push(
                recorder::params(x.len() as u32, 0, 0, 0),
            ),
            kernels::over(x.len() as int),
        )
    }

    /// `x = gelu(x)`. A buffer cannot be bound for reading and for writing at once,
    /// so this has a kernel of its own.
    pub fn gelu_in_place(&self, rec: &mut Recorder, x: &DevTensor)
        requires
            x.wf(),
        ensures
            final(rec)@ == self.gelu_in_place_plan(old(rec)@, x@),
    {
        let count: usize = x.len();
        let table = Table::new().first(x, count).params(count as u32, 0, 0, 0);
        rec.dispatch("gelu_in_place", Kernel::GeluInPlace, table, kernels::over_of(count));
    }

    pub open spec fn tanh_into_plan(self, s: Plan, x: TensorView, out: TensorView) -> Plan {
        s.launch(
            "tanh"@,
            Kernel::Tanh,
            map_table(x, out, x.len() as int),
            kernels::over(x.len() as int),
        )
    }

    /// `out = tanh(x)`.
    pub fn tanh_into(&self, rec: &mut Recorder, x: &DevTensor, out: &DevTensor)
        requires
            x.wf(),
        ensures
            final(rec)@ == self.tanh_into_plan(old(rec)@, x@, out@),
    {
        let count: usize = x.len();
        let table = Table::new().first(x, count).first(out, count).params(count as u32, 0, 0, 0);
        rec.dispatch("tanh", Kernel::Tanh, table, kernels::over_of(count));
    }

    pub open spec fn tanh_plan(self, s: Plan, x: TensorView) -> Plan {
        self.tanh_into_plan(s.tensor(x.shape, "tanh.out"@), x, s.fresh(x.shape))
    }

    /// `tanh(x)` in a new tensor.
    pub fn tanh(&self, rec: &mut Recorder, x: &DevTensor) -> (r: Result<DevTensor, Error>)
        requires
            x.wf(),
            recorder::askable(x.shape@),
        ensures
            recorder::settled(final(rec)@, r) == self.tanh_plan(old(rec)@, x@),
            r matches Ok(t) ==> t@ == old(rec)@.fresh(x.shape@) && t.wf(),
    {
        proof {
            rec.lemma_running();
        }
        let shape = x.shape.clone();
        assert(shape@ =~= x.shape@);
        let out = match rec.tensor(shape, "tanh.out") {
            Ok(out) => out,
            Err(e) => {
                return Err(e);
            },
        };
        self.tanh_into(rec, x, &out);
        Ok(out)
    }

    pub open spec fn tanh_bias_in_place_plan(
        self,
        s: Plan,
        x: TensorView,
        bias: TensorView,
        cols: usize,
        frames: usize,
    ) -> Plan {
        s.launch(
            "tanh_bias"@,
            Kernel::TanhBiasInPlace,
            kernels::no_bindings().push(recorder::first(x, x.len())).push(
                recorder::whole(bias),
            ).push(recorder::params(x.len() as u32, cols as u32, frames as u32, 0)),
            kernels::over(x.len() as int),
        )
    }

    /// `x = tanh(x + bias[row / frames][col])`.
    pub fn tanh_bias_in_place(
        &self,
        rec: &mut Recorder,
        x: &DevTensor,
        bias: &DevTensor,
        cols: usize,
        frames: usize,
    )
        requires
            x.wf(),
            bias.wf(),
        ensures
            final(rec)@ == self.tanh_bias_in_place_plan(old(rec)@, x@, bias@, cols, frames),
    {
        let count: usize = x.len();
        let table = Table::new().first(x, count).whole(bias).params(
            count as u32,
            cols as u32,
            frames as u32,
            0,
        );
        rec.dispatch("tanh_bias", Kernel::TanhBiasInPlace, table, kernels::over_of(count));
    }

    // ------------------------------------------------------------------- gates

    pub open spec fn glu_into_plan(
        self,
        s: Plan,
        x: TensorView,
        out: TensorView,
        rows: usize,
        half: usize,
    ) -> Plan {
        s.launch(
            "glu"@,
            Kernel::Glu,
            kernels::no_bindings().push(recorder::whole(x)).push(
                recorder::first(out, (rows * half) as nat),
            ).push(recorder::params(rows as u32, half as u32, 0, 0)),
            kernels::over(rows * half),
        )
    }

    /// `out = first_half * sigmoid(second_half)` along each row.
    pub fn glu_into(
        &self,
        rec: &mut Recorder,
        x: &DevTensor,
        out: &DevTensor,
        rows: usize,
        half: usize,
    )
        requires
            x.wf(),
            4 * (rows * half) <= usize::MAX,
        ensures
            final(rec)@ == self.glu_into_plan(old(rec)@, x@, out@, rows, half),
    {
        proof {
            arith::lemma_mul_bounds(rows as int, half as int);
        }
        let count: usize = rows * half;
        let table = Table::new().whole(x).first(out, count).params(rows as u32, half as u32, 0, 0);
        rec.dispatch("glu", Kernel::Glu, table, kernels::over_of(count));
    }

    pub open spec fn glu_plan(self, s: Plan, x: TensorView, rows: usize, half: usize) -> Plan {
        self.glu_into_plan(
            s.tensor(seq![rows, half], "glu.out"@),
            x,
            s.fresh(seq![rows, half]),
            rows,
            half,
        )
    }

    /// [`Kernels::glu_into`] a new tensor.
    pub fn glu(&self, rec: &mut Recorder, x: &DevTensor, rows: usize, half: usize) -> (r: Result<
        DevTensor,
        Error,
    >)
        requires
            x.wf(),
            recorder::askable(seq![rows, half]),
        ensures
            recorder::settled(final(rec)@, r) == self.glu_plan(old(rec)@, x@, rows, half),
            r matches Ok(t) ==> t@ == old(rec)@.fresh(seq![rows, half]) && t.wf(),
    {
        proof {
            rec.lemma_running();
            crate::gpu::tensor::lemma_axes_2(seq![rows, half]);
        }
        let shape: Vec<usize> = vec![rows, half];
        assert(shape@ =~= seq![rows, half]);
        let out = match rec.tensor(shape, "glu.out") {
            Ok(out) => out,
            Err(e) => {
                return Err(e);
            },
        };
        self.glu_into(rec, x, &out, rows, half);
        Ok(out)
    }

    /// Operands of a gated pair with its affine.
    pub open spec fn glu_affine_table(
        x: TensorView,
        scale: TensorView,
        shift: TensorView,
        out: TensorView,
        rows: usize,
        half: usize,
        channels: usize,
        plane: usize,
    ) -> Seq<BindingView> {
        kernels::no_bindings().push(recorder::whole(x)).push(
            recorder::first(out, (rows * half) as nat),
        ).push(recorder::whole(scale)).push(recorder::whole(shift)).push(
            recorder::params(rows as u32, half as u32, channels as u32, plane as u32),
        )
    }

    pub open spec fn glu_channel_affine_into_plan(
        self,
        s: Plan,
        x: TensorView,
        scale: TensorView,
        shift: TensorView,
        out: TensorView,
        rows: usize,
        half: usize,
        channels: usize,
        plane: usize,
    ) -> Plan {
        s.launch(
            "glu_channel_affine"@,
            Kernel::GluChannelAffine,
            Self::glu_affine_table(x, scale, shift, out, rows, half, channels, plane),
            kernels::over(rows * half),
        )
    }

    /// `out = glu(x) * scale + shift`, scale and shift per channel.
    pub fn glu_channel_affine_into(
        &self,
        rec: &mut Recorder,
        x: &DevTensor,
        scale: &DevTensor,
        shift: &DevTensor,
        out: &DevTensor,
        rows: usize,
        half: usize,
        channels: usize,
        plane: usize,
    )
        requires
            x.wf(),
            scale.wf(),
            shift.wf(),
            4 * (rows * half) <= usize::MAX,
        ensures
            final(rec)@ == self.glu_channel_affine_into_plan(
                old(rec)@,
                x@,
                scale@,
                shift@,
                out@,
                rows,
                half,
                channels,
                plane,
            ),
    {
        proof {
            arith::lemma_mul_bounds(rows as int, half as int);
        }
        let count: usize = rows * half;
        let table = Table::new().whole(x).first(out, count).whole(scale).whole(shift).params(
            rows as u32,
            half as u32,
            channels as u32,
            plane as u32,
        );
        rec.dispatch("glu_channel_affine", Kernel::GluChannelAffine, table, kernels::over_of(count));
    }

    pub open spec fn glu_channel_affine_add_into_plan(
        self,
        s: Plan,
        base: TensorView,
        x: TensorView,
        scale: TensorView,
        shift: TensorView,
        out: TensorView,
        rows: usize,
        half: usize,
        channels: usize,
        plane: usize,
    ) -> Plan {
        s.launch(
            "glu_channel_affine_add"@,
            Kernel::GluChannelAffineAdd,
            Self::glu_affine_table(x, scale, shift, out, rows, half, channels, plane).push(
                recorder::whole(base),
            ),
            kernels::over(rows * half),
        )
    }

    /// `out = base + (glu(x) * scale + shift)`.
    pub fn glu_channel_affine_add_into(
        &self,
        rec: &mut Recorder,
        base: &DevTensor,
        x: &DevTensor,
        scale: &DevTensor,
        shift: &DevTensor,
        out: &DevTensor,
        rows: usize,
        half: usize,
        channels: usize,
        plane: usize,
    )
        requires
            base.wf(),
            x.wf(),
            scale.wf(),
            shift.wf(),
            4 * (rows * half) <= usize::MAX,
        ensures
            final(rec)@ == self.glu_channel_affine_add_into_plan(
                old(rec)@,
                base@,
                x@,
                scale@,
                shift@,
                out@,
                rows,
                half,
                channels,
                plane,
            ),
    {
        proof {
            arith::lemma_mul_bounds(rows as int, half as int);
        }
        let count: usize = rows * half;
        let table = Table::new().whole(x).first(out, count).whole(scale).whole(shift).params(
            rows as u32,
            half as u32,
            channels as u32,
            plane as u32,
        ).whole(base);
        rec.dispatch(
            "glu_channel_affine_add",
            Kernel::GluChannelAffineAdd,
            table,
            kernels::over_of(count),
        );
    }

    pub open spec fn sigmoid_gate_into_plan(
        self,
        s: Plan,
        x: TensorView,
        gate: TensorView,
        out: TensorView,
        heads: usize,
        dim_head: usize,
    ) -> Plan {
        s.launch(
            "sigmoid_gate"@,
            Kernel::SigmoidGate,
            kernels::no_bindings().push(recorder::first(x, x.len())).push(
                recorder::whole(gate),
            ).push(recorder::first(out, x.len())).push(
                recorder::params(x.len() as u32, heads as u32, dim_head as u32, 0),
            ),
            kernels::over(x.len() as int),
        )
    }

    /// `out = x * sigmoid(gate)`, one gate per row and head.
    pub fn sigmoid_gate_into(
        &self,
        rec: &mut Recorder,
        x: &DevTensor,
        gate: &DevTensor,
        out: &DevTensor,
        heads: usize,
        dim_head: usize,
    )
        requires
            x.wf(),
            gate.wf(),
        ensures
            final(rec)@ == self.sigmoid_gate_into_plan(
                old(rec)@,
                x@,
                gate@,
                out@,
                heads,
                dim_head,
            ),
    {
        let count: usize = x.len();
        let table = Table::new().first(x, count).whole(gate).first(out, count).params(
            count as u32,
            heads as u32,
            dim_head as u32,
            0,
        );
        rec.dispatch("sigmoid_gate", Kernel::SigmoidGate, table, kernels::over_of(count));
    }

    pub open spec fn sigmoid_gate_plan(
        self,
        s: Plan,
        x: TensorView,
        gate: TensorView,
        heads: usize,
        dim_head: usize,
    ) -> Plan {
        self.sigmoid_gate_into_plan(
            s.tensor(x.shape, "gate.out"@),
            x,
            gate,
            s.fresh(x.shape),
            heads,
            dim_head,
        )
    }

    /// [`Kernels::sigmoid_gate_into`] a new tensor.
    pub fn sigmoid_gate(
        &self,
        rec: &mut Recorder,
        x: &DevTensor,
        gate: &DevTensor,
        heads: usize,
        dim_head: usize,
    ) -> (r: Result<DevTensor, Error>)
        requires
            x.wf(),
            gate.wf(),
            recorder::askable(x.shape@),
        ensures
            recorder::settled(final(rec)@, r) == self.sigmoid_gate_plan(
                old(rec)@,
                x@,
                gate@,
                heads,
                dim_head,
            ),
            r matches Ok(t) ==> t@ == old(rec)@.fresh(x.shape@) && t.wf(),
    {
        proof {
            rec.lemma_running();
        }
        let shape = x.shape.clone();
        assert(shape@ =~= x.shape@);
        let out = match rec.tensor(shape, "gate.out") {
            Ok(out) => out,
            Err(e) => {
                return Err(e);
            },
        };
        self.sigmoid_gate_into(rec, x, gate, &out, heads, dim_head);
        Ok(out)
    }

    pub open spec fn rope_heads_plan(
        self,
        s: Plan,
        qkv: TensorView,
        freqs: TensorView,
        bands: usize,
        frames: usize,
        heads: usize,
        dim_head: usize,
        head_begin: usize,
        head_count: usize,
    ) -> Plan {
        let rows = bands * frames;
        s.launch(
            "rope"@,
            Kernel::Rope,
            kernels::no_bindings().push(recorder::whole(qkv)).push(recorder::whole(freqs)).push(
                recorder::params(
                    frames as u32,
                    (3 * heads * dim_head) as u32,
                    dim_head as u32,
                    head_begin as u32,
                ),
            ).push(recorder::params(rows as u32, head_count as u32, 0, 0)),
            (arith::ceil(rows * (dim_head / 2), shaders::ROW_THREADS as int) as u32, 1, 1),
        )
    }

    /// Rotates the heads `head_begin ..` of a fused `(bands, frames, 3 * heads *
    /// dim_head)` tensor in place, one thread per pair of features.
    pub fn rope_heads(
        &self,
        rec: &mut Recorder,
        qkv: &DevTensor,
        freqs: &DevTensor,
        bands: usize,
        frames: usize,
        heads: usize,
        dim_head: usize,
        head_begin: usize,
        head_count: usize,
    )
        requires
            qkv.wf(),
            freqs.wf(),
            3 * heads <= usize::MAX,
            3 * heads * dim_head <= usize::MAX,
            bands * frames <= usize::MAX,
            bands * frames * (dim_head / 2) <= usize::MAX,
        ensures
            final(rec)@ == self.rope_heads_plan(
                old(rec)@,
                qkv@,
                freqs@,
                bands,
                frames,
                heads,
                dim_head,
                head_begin,
                head_count,
            ),
    {
        let row_stride: usize = 3 * heads * dim_head;
        let total_rows: usize = bands * frames;
        let pairs: usize = total_rows * (dim_head / 2);
        let table = Table::new().whole(qkv).whole(freqs).params(
            frames as u32,
            row_stride as u32,
            dim_head as u32,
            head_begin as u32,
        ).params(total_rows as u32, head_count as u32, 0, 0);
        let groups: usize = arith::ceil_div(pairs, shaders::ROW_THREADS);
        rec.dispatch("rope", Kernel::Rope, table, (groups as u32, 1, 1));
    }

    // -------------------------------------------------------------- arithmetic

    pub open spec fn copy_plan(self, s: Plan, x: TensorView, out: TensorView, count: usize) -> Plan {
        s.launch(
            "copy"@,
            Kernel::Copy,
            map_table(x, out, count as int),
            kernels::over(count as int),
        )
    }

    /// `out = x` over `count` elements.
    pub fn copy(&self, rec: &mut Recorder, x: &DevTensor, out: &DevTensor, count: usize)
        requires
            4 * count <= usize::MAX,
        ensures
            final(rec)@ == self.copy_plan(old(rec)@, x@, out@, count),
    {
        let table = Table::new().first(x, count).first(out, count).params(count as u32, 0, 0, 0);
        rec.dispatch("copy", Kernel::Copy, table, kernels::over_of(count));
    }

    pub open spec fn add_in_place_plan(self, s: Plan, out: TensorView, source: TensorView) -> Plan {
        let count = out.len();
        let len = source.len();
        let repeat = if len == count {
            0
        } else {
            len as u32
        };
        let table = kernels::no_bindings().push(recorder::first(out, count)).push(
            recorder::first(source, len),
        ).push(recorder::params(count as u32, repeat, 0, 0));
        let checked = s.require(
            len == count || count % len == 0,
            Error::Shape(Fault::AddLength { source: len as usize, count: count as usize }),
        );
        if count % 4 == 0 {
            checked.launch(
                "add_in_place_vec4"@,
                Kernel::AddInPlaceVec4,
                table,
                kernels::over(count as int / 4),
            )
        } else {
            checked.launch(
                "add_in_place"@,
                Kernel::AddInPlace,
                table,
                kernels::over(count as int),
            )
        }
    }

    /// `out += source`; a shorter source repeats, and must divide the target.
    pub fn add_in_place(&self, rec: &mut Recorder, out: &DevTensor, source: &DevTensor) -> (r:
        Result<(), Error>)
        requires
            out.wf(),
            source.wf(),
            source@.len() > 0 || out@.len() == 0,
        ensures
            recorder::settled(final(rec)@, r) == self.add_in_place_plan(old(rec)@, out@, source@),
    {
        proof {
            rec.lemma_running();
        }
        let count: usize = out.len();
        let len: usize = source.len();
        if len != count && count % len != 0 {
            return Err(Error::Shape(Fault::AddLength { source: len, count }));
        }
        let repeat: u32 = if len == count {
            0
        } else {
            len as u32
        };
        let table = Table::new().first(out, count).first(source, len).params(
            count as u32,
            repeat,
            0,
            0,
        );
        if count % 4 == 0 {
            rec.dispatch(
                "add_in_place_vec4",
                Kernel::AddInPlaceVec4,
                table,
                kernels::over_of(count / 4),
            );
        } else {
            rec.dispatch("add_in_place", Kernel::AddInPlace, table, kernels::over_of(count));
        }
        Ok(())
    }

    pub open spec fn mul_in_place_plan(
        self,
        s: Plan,
        out: TensorView,
        source: TensorView,
        count: usize,
    ) -> Plan {
        s.require(
            out.len() >= count && source.len() >= count,
            Error::Shape(
                Fault::MulLength {
                    count,
                    out: out.len() as usize,
                    source: source.len() as usize,
                },
            ),
        ).require(count <= u32::MAX, Error::Shape(Fault::MulCount { count })).launch(
            "mul_in_place"@,
            Kernel::MulInPlace,
            map_table(out, source, count as int),
            kernels::over(count as int),
        )
    }

    /// `out *= source` over `count` elements of each.
    pub fn mul_in_place(
        &self,
        rec: &mut Recorder,
        out: &DevTensor,
        source: &DevTensor,
        count: usize,
    ) -> (r: Result<(), Error>)
        requires
            out.wf(),
            source.wf(),
        ensures
            recorder::settled(final(rec)@, r) == self.mul_in_place_plan(
                old(rec)@,
                out@,
                source@,
                count,
            ),
    {
        proof {
            rec.lemma_running();
        }
        let have_out: usize = out.len();
        let have_source: usize = source.len();
        if have_out < count || have_source < count {
            return Err(
                Error::Shape(Fault::MulLength { count, out: have_out, source: have_source }),
            );
        }
        if count as u64 > u32::MAX as u64 {
            return Err(Error::Shape(Fault::MulCount { count }));
        }
        let table = Table::new().first(out, count).first(source, count).params(
            count as u32,
            0,
            0,
            0,
        );
        rec.dispatch("mul_in_place", Kernel::MulInPlace, table, kernels::over_of(count));
        Ok(())
    }

    pub open spec fn fill_zero_into_plan(self, s: Plan, x: TensorView, count: usize) -> Plan {
        s.require(count <= u32::MAX, Error::Shape(Fault::FillCount { count })).require(
            x.len() >= count,
            Error::Shape(Fault::FillLength { count, len: x.len() as usize }),
        ).launch(
            "fill_zero"@,
            Kernel::FillZero,
            kernels::no_bindings().push(recorder::whole(x)).push(
                recorder::params(count as u32, 0, 0, 0),
            ),
            kernels::over(count as int),
        )
    }

    /// Zeroes the first `count` elements.
    pub fn fill_zero_into(&self, rec: &mut Recorder, x: &DevTensor, count: usize) -> (r: Result<
        (),
        Error,
    >)
        requires
            x.wf(),
        ensures
            recorder::settled(final(rec)@, r) == self.fill_zero_into_plan(old(rec)@, x@, count),
    {
        proof {
            rec.lemma_running();
        }
        if count as u64 > u32::MAX as u64 {
            return Err(Error::Shape(Fault::FillCount { count }));
        }
        let len: usize = x.len();
        if len < count {
            return Err(Error::Shape(Fault::FillLength { count, len }));
        }
        let table = Table::new().whole(x).params(count as u32, 0, 0, 0);
        rec.dispatch("fill_zero", Kernel::FillZero, table, kernels::over_of(count));
        Ok(())
    }

    pub open spec fn batch_affine_in_place_plan(
        self,
        s: Plan,
        x: TensorView,
        scale: TensorView,
        shift: TensorView,
        plane: usize,
    ) -> Plan {
        let count = x.len();
        let batch = count / plane as nat;
        s.require(
            plane != 0 && count % plane as nat == 0,
            Error::Shape(Fault::BatchAffinePlane { count: count as usize, plane }),
        ).require(
            scale.len() >= batch && shift.len() >= batch,
            Error::Shape(Fault::BatchAffineValues { batch: batch as usize }),
        ).launch(
            "batch_affine_in_place"@,
            Kernel::BatchAffineInPlace,
            kernels::no_bindings().push(recorder::first(x, count)).push(
                recorder::whole(scale),
            ).push(recorder::whole(shift)).push(
                recorder::params(count as u32, plane as u32, 0, 0),
            ),
            kernels::over(count as int),
        )
    }

    /// `x = x * scale + shift`, one scale and shift per `plane` elements.
    pub fn batch_affine_in_place(
        &self,
        rec: &mut Recorder,
        x: &DevTensor,
        scale: &DevTensor,
        shift: &DevTensor,
        plane: usize,
    ) -> (r: Result<(), Error>)
        requires
            x.wf(),
            scale.wf(),
            shift.wf(),
        ensures
            recorder::settled(final(rec)@, r) == self.batch_affine_in_place_plan(
                old(rec)@,
                x@,
                scale@,
                shift@,
                plane,
            ),
    {
        proof {
            rec.lemma_running();
        }
        let count: usize = x.len();
        if plane == 0 || count % plane != 0 {
            return Err(Error::Shape(Fault::BatchAffinePlane { count, plane }));
        }
        let batch: usize = count / plane;
        if scale.len() < batch || shift.len() < batch {
            return Err(Error::Shape(Fault::BatchAffineValues { batch }));
        }
        let table = Table::new().first(x, count).whole(scale).whole(shift).params(
            count as u32,
            plane as u32,
            0,
            0,
        );
        rec.dispatch(
            "batch_affine_in_place",
            Kernel::BatchAffineInPlace,
            table,
            kernels::over_of(count),
        );
        Ok(())
    }

    // ------------------------------------------------------------ per channel

    /// The checks an affine of `channels` channels starts with.
    pub open spec fn affine_checked(
        s: Plan,
        scale: TensorView,
        shift: TensorView,
        channels: usize,
        plane: usize,
    ) -> Plan {
        s.require(
            scale.len() >= channels && shift.len() >= channels,
            Error::Shape(
                Fault::AffineChannels {
                    channels,
                    scales: scale.len() as usize,
                    shifts: shift.len() as usize,
                },
            ),
        ).require(plane != 0, Error::Shape(Fault::AffinePlane))
    }

    pub open spec fn channel_affine_act_in_place_plan(
        self,
        s: Plan,
        x: TensorView,
        scale: TensorView,
        shift: TensorView,
        batch: usize,
        channels: usize,
        plane: usize,
        activation: Activation,
    ) -> Plan {
        let total = batch * channels * plane;
        Self::affine_checked(s, scale, shift, channels, plane).require(
            x.len() >= total,
            Error::Shape(Fault::AffineLength { total: total as usize, len: x.len() as usize }),
        ).launch(
            "channel_affine_act_in_place"@,
            Kernel::ChannelAffineActInPlace,
            kernels::no_bindings().push(recorder::whole(x)).push(recorder::whole(scale)).push(
                recorder::whole(shift),
            ).push(
                recorder::params(
                    channels as u32,
                    plane as u32,
                    activation.code_spec(),
                    total as u32,
                ),
            ),
            kernels::over(total),
        )
    }

    /// `x = act(x * scale[c] + shift[c])` over `(batch, channels, plane)`.
    pub fn channel_affine_act_in_place(
        &self,
        rec: &mut Recorder,
        x: &DevTensor,
        scale: &DevTensor,
        shift: &DevTensor,
        batch: usize,
        channels: usize,
        plane: usize,
        activation: Activation,
    ) -> (r: Result<(), Error>)
        requires
            x.wf(),
            scale.wf(),
            shift.wf(),
            batch * channels <= usize::MAX,
            batch * channels * plane <= usize::MAX,
        ensures
            recorder::settled(final(rec)@, r) == self.channel_affine_act_in_place_plan(
                old(rec)@,
                x@,
                scale@,
                shift@,
                batch,
                channels,
                plane,
                activation,
            ),
    {
        proof {
            rec.lemma_running();
        }
        let scales: usize = scale.len();
        let shifts: usize = shift.len();
        if scales < channels || shifts < channels {
            return Err(Error::Shape(Fault::AffineChannels { channels, scales, shifts }));
        }
        if plane == 0 {
            return Err(Error::Shape(Fault::AffinePlane));
        }
        let total: usize = batch * channels * plane;
        let len: usize = x.len();
        if len < total {
            return Err(Error::Shape(Fault::AffineLength { total, len }));
        }
        let table = Table::new().whole(x).whole(scale).whole(shift).params(
            channels as u32,
            plane as u32,
            activation.code(),
            total as u32,
        );
        rec.dispatch(
            "channel_affine_act_in_place",
            Kernel::ChannelAffineActInPlace,
            table,
            kernels::over_of(total),
        );
        Ok(())
    }

    pub open spec fn affine_operand(operand: &'static str, total: int, len: nat) -> ErrorView {
        Error::Shape(Fault::AffineOperand { total: total as usize, operand, len: len as usize })
    }

    pub open spec fn channel_affine_act_add_into_plan(
        self,
        s: Plan,
        base: TensorView,
        x: TensorView,
        scale: TensorView,
        shift: TensorView,
        out: TensorView,
        batch: usize,
        channels: usize,
        plane: usize,
        activation: Activation,
    ) -> Plan {
        let total = batch * channels * plane;
        Self::affine_checked(s, scale, shift, channels, plane).require(
            x.len() >= total,
            Self::affine_operand("x", total, x.len()),
        ).require(base.len() >= total, Self::affine_operand("base", total, base.len())).require(
            out.len() >= total,
            Self::affine_operand("out", total, out.len()),
        ).launch(
            "channel_affine_act_add"@,
            Kernel::ChannelAffineActAdd,
            kernels::no_bindings().push(recorder::whole(x)).push(recorder::whole(scale)).push(
                recorder::whole(shift),
            ).push(
                recorder::params(
                    channels as u32,
                    plane as u32,
                    activation.code_spec(),
                    total as u32,
                ),
            ).push(recorder::whole(base)).push(recorder::whole(out)),
            kernels::over(total),
        )
    }

    /// `out = base + act(x * scale[c] + shift[c])`.
    pub fn channel_affine_act_add_into(
        &self,
        rec: &mut Recorder,
        base: &DevTensor,
        x: &DevTensor,
        scale: &DevTensor,
        shift: &DevTensor,
        out: &DevTensor,
        batch: usize,
        channels: usize,
        plane: usize,
        activation: Activation,
    ) -> (r: Result<(), Error>)
        requires
            base.wf(),
            x.wf(),
            scale.wf(),
            shift.wf(),
            out.wf(),
            batch * channels <= usize::MAX,
            batch * channels * plane <= usize::MAX,
        ensures
            recorder::settled(final(rec)@, r) == self.channel_affine_act_add_into_plan(
                old(rec)@,
                base@,
                x@,
                scale@,
                shift@,
                out@,
                batch,
                channels,
                plane,
                activation,
            ),
    {
        proof {
            rec.lemma_running();
        }
        let scales: usize = scale.len();
        let shifts: usize = shift.len();
        if scales < channels || shifts < channels {
            return Err(Error::Shape(Fault::AffineChannels { channels, scales, shifts }));
        }
        if plane == 0 {
            return Err(Error::Shape(Fault::AffinePlane));
        }
        let total: usize = batch * channels * plane;
        let x_len: usize = x.len();
        if x_len < total {
            return Err(Error::Shape(Fault::AffineOperand { total, operand: "x", len: x_len }));
        }
        let base_len: usize = base.len();
        if base_len < total {
            return Err(
                Error::Shape(Fault::AffineOperand { total, operand: "base", len: base_len }),
            );
        }
        let out_len: usize = out.len();
        if out_len < total {
            return Err(Error::Shape(Fault::AffineOperand { total, operand: "out", len: out_len }));
        }
        let table = Table::new().whole(x).whole(scale).whole(shift).params(
            channels as u32,
            plane as u32,
            activation.code(),
            total as u32,
        ).whole(base).whole(out);
        rec.dispatch(
            "channel_affine_act_add",
            Kernel::ChannelAffineActAdd,
            table,
            kernels::over_of(total),
        );
        Ok(())
    }

    pub open spec fn add_row_bias_in_place_plan(
        self,
        s: Plan,
        x: TensorView,
        bias: TensorView,
        rows: usize,
        cols: usize,
        bias_rows: usize,
    ) -> Plan {
        s.require(bias_rows != 0, Error::Shape(Fault::RowBiasPeriod)).require(
            bias.len() >= bias_rows,
            Error::Shape(Fault::RowBiasValues { need: bias_rows, have: bias.len() as usize }),
        ).require(
            x.len() >= rows * cols,
            Error::Shape(
                Fault::RowBiasLength { need: (rows * cols) as usize, len: x.len() as usize },
            ),
        ).launch(
            "add_row_bias_in_place"@,
            Kernel::AddRowBiasInPlace,
            kernels::no_bindings().push(recorder::whole(x)).push(recorder::whole(bias)).push(
                recorder::params(rows as u32, cols as u32, bias_rows as u32, 0),
            ),
            kernels::over(rows * cols),
        )
    }

    /// `x[row, :] += bias[row % bias_rows]`.
    pub fn add_row_bias_in_place(
        &self,
        rec: &mut Recorder,
        x: &DevTensor,
        bias: &DevTensor,
        rows: usize,
        cols: usize,
        bias_rows: usize,
    ) -> (r: Result<(), Error>)
        requires
            x.wf(),
            bias.wf(),
            rows * cols <= usize::MAX,
        ensures
            recorder::settled(final(rec)@, r) == self.add_row_bias_in_place_plan(
                old(rec)@,
                x@,
                bias@,
                rows,
                cols,
                bias_rows,
            ),
    {
        proof {
            rec.lemma_running();
        }
        if bias_rows == 0 {
            return Err(Error::Shape(Fault::RowBiasPeriod));
        }
        let have: usize = bias.len();
        if have < bias_rows {
            return Err(Error::Shape(Fault::RowBiasValues { need: bias_rows, have }));
        }
        let len: usize = x.len();
        if len < rows * cols {
            return Err(Error::Shape(Fault::RowBiasLength { need: rows * cols, len }));
        }
        let table = Table::new().whole(x).whole(bias).params(
            rows as u32,
            cols as u32,
            bias_rows as u32,
            0,
        );
        rec.dispatch(
            "add_row_bias_in_place",
            Kernel::AddRowBiasInPlace,
            table,
            kernels::over_of(rows * cols),
        );
        Ok(())
    }
}

} // verus!
