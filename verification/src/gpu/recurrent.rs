//! The recurrence.

use vstd::prelude::*;

use crate::error::{Error, ErrorView, Fault};
use crate::gpu::arith;
use crate::gpu::kernels;
use crate::gpu::kernels::Kernels;
use crate::gpu::pipelines::Kernel;
use crate::gpu::recorder;
use crate::gpu::recorder::{Plan, Recorder, Table};
use crate::gpu::shaders;
use crate::gpu::shapes::LstmJob;
use crate::gpu::tensor::{DevTensor, TensorView};

verus! {

impl LstmJob {
    pub open spec fn empty(self) -> bool {
        self.hidden == 0 || self.time == 0 || self.rows == 0
    }

    /// One past the last projected gate read.
    pub open spec fn projected_need(self) -> int {
        (self.rows - 1) * self.time * self.proj_pitch + (self.time - 1) * self.proj_pitch + 4
            * self.hidden
    }

    /// One past the last output written.
    pub open spec fn out_need(self) -> int {
        (self.rows - 1) * self.time * self.out_pitch + (self.time - 1) * self.out_pitch
            + self.out_offset + self.hidden
    }

    /// Whether those can be counted, where they are looked at.
    pub open spec fn fits(self) -> bool {
        !self.empty() && self.hidden <= shaders::LSTM_MAX_HIDDEN ==> {
            &&& (self.rows - 1) * self.time <= usize::MAX
            &&& self.projected_need() <= usize::MAX
            &&& self.out_need() <= usize::MAX
        }
    }

    /// Whether the register form covers this width.
    pub open spec fn in_registers(self) -> bool {
        self.hidden >= 4 && self.hidden % 2 == 0 && self.hidden <= shaders::LSTM_REG_MAX_HIDDEN
    }
}

/// Every gate a step reads and every output it writes lies below what the job needs.
pub proof fn law_recurrence_needs_cover(job: LstmJob, row: int, step: int, gate: int, unit: int)
    requires
        0 <= row < job.rows,
        0 <= step < job.time,
        0 <= gate < 4 * job.hidden,
        0 <= unit < job.hidden,
    ensures
        0 <= row * job.time * job.proj_pitch + step * job.proj_pitch + gate < job.projected_need(),
        0 <= row * job.time * job.out_pitch + step * job.out_pitch + job.out_offset + unit
            < job.out_need(),
{
    arith::lemma_mul_le(row, job.rows - 1, job.time as int);
    arith::lemma_mul_bounds(row, job.time as int);
    arith::lemma_mul_le(row * job.time, (job.rows - 1) * job.time, job.proj_pitch as int);
    arith::lemma_mul_bounds(row * job.time, job.proj_pitch as int);
    arith::lemma_mul_le(step, job.time - 1, job.proj_pitch as int);
    arith::lemma_mul_bounds(step, job.proj_pitch as int);
    arith::lemma_mul_le(row * job.time, (job.rows - 1) * job.time, job.out_pitch as int);
    arith::lemma_mul_bounds(row * job.time, job.out_pitch as int);
    arith::lemma_mul_le(step, job.time - 1, job.out_pitch as int);
    arith::lemma_mul_bounds(step, job.out_pitch as int);
}

pub open spec fn lstm_packing(name: &'static str, value: usize) -> ErrorView {
    Error::Shape(Fault::LstmPacking { name, value })
}

impl Kernels {
    /// The checks both forms share.
    pub open spec fn lstm_checked_plan(
        s: Plan,
        job: LstmJob,
        projected: TensorView,
        w_hh: TensorView,
        b_hh: TensorView,
        out: TensorView,
    ) -> Plan {
        let gates = 4 * job.hidden;
        s.require(!job.empty(), Error::Shape(Fault::LstmZero)).require(
            job.hidden <= shaders::LSTM_MAX_HIDDEN,
            Error::Gpu(Fault::LstmWidth { hidden: job.hidden }),
        ).require(
            projected.len() >= job.projected_need(),
            Error::Shape(
                Fault::LstmProjected {
                    need: job.projected_need() as usize,
                    len: projected.len() as usize,
                },
            ),
        ).require(
            w_hh.len() >= gates * job.hidden && b_hh.len() >= gates,
            Error::Shape(
                Fault::LstmWeights {
                    gates: gates as usize,
                    hidden: job.hidden,
                    weights: w_hh.len() as usize,
                    biases: b_hh.len() as usize,
                },
            ),
        ).require(
            out.len() >= job.out_need(),
            Error::Shape(
                Fault::LstmTarget { need: job.out_need() as usize, len: out.len() as usize },
            ),
        ).require(job.hidden <= u16::MAX, lstm_packing("hidden", job.hidden)).require(
            job.time <= u16::MAX,
            lstm_packing("time", job.time),
        ).require(job.out_pitch <= u16::MAX, lstm_packing("out_pitch", job.out_pitch)).require(
            job.proj_pitch <= u16::MAX,
            lstm_packing("proj_pitch", job.proj_pitch),
        )
    }

    fn lstm_checked(
        &self,
        rec: &Recorder,
        job: LstmJob,
        projected: &DevTensor,
        w_hh: &DevTensor,
        b_hh: &DevTensor,
        out: &DevTensor,
    ) -> (r: Result<(), Error>)
        requires
            projected.wf(),
            w_hh.wf(),
            b_hh.wf(),
            out.wf(),
            job.fits(),
        ensures
            recorder::settled(rec@, r) == Self::lstm_checked_plan(
                rec@,
                job,
                projected@,
                w_hh@,
                b_hh@,
                out@,
            ),
    {
        proof {
            rec.lemma_running();
        }
        if job.hidden == 0 || job.time == 0 || job.rows == 0 {
            return Err(Error::Shape(Fault::LstmZero));
        }
        if job.hidden > shaders::LSTM_MAX_HIDDEN {
            return Err(Error::Gpu(Fault::LstmWidth { hidden: job.hidden }));
        }
        proof {
            arith::lemma_mul_bounds(job.rows - 1, job.time as int);
            arith::lemma_mul_bounds((job.rows - 1) * job.time, job.proj_pitch as int);
            arith::lemma_mul_bounds(job.time - 1, job.proj_pitch as int);
            arith::lemma_mul_bounds((job.rows - 1) * job.time, job.out_pitch as int);
            arith::lemma_mul_bounds(job.time - 1, job.out_pitch as int);
            arith::lemma_mul_le(4 * job.hidden, 512, job.hidden as int);
        }
        let gates: usize = 4 * job.hidden;
        let read: usize = (job.rows - 1) * job.time * job.proj_pitch + (job.time - 1)
            * job.proj_pitch + gates;
        let projected_len: usize = projected.len();
        if projected_len < read {
            return Err(Error::Shape(Fault::LstmProjected { need: read, len: projected_len }));
        }
        let weights: usize = w_hh.len();
        let biases: usize = b_hh.len();
        if weights < gates * job.hidden || biases < gates {
            return Err(
                Error::Shape(Fault::LstmWeights { gates, hidden: job.hidden, weights, biases }),
            );
        }
        let written: usize = (job.rows - 1) * job.time * job.out_pitch + (job.time - 1)
            * job.out_pitch + job.out_offset + job.hidden;
        let out_len: usize = out.len();
        if out_len < written {
            return Err(Error::Shape(Fault::LstmTarget { need: written, len: out_len }));
        }
        if job.time > 65535 {
            return Err(Error::Shape(Fault::LstmPacking { name: "time", value: job.time }));
        }
        if job.out_pitch > 65535 {
            return Err(
                Error::Shape(Fault::LstmPacking { name: "out_pitch", value: job.out_pitch }),
            );
        }
        if job.proj_pitch > 65535 {
            return Err(
                Error::Shape(Fault::LstmPacking { name: "proj_pitch", value: job.proj_pitch }),
            );
        }
        Ok(())
    }

    pub open spec fn lstm_recur_into_plan(
        self,
        s: Plan,
        projected: TensorView,
        w_hh: TensorView,
        b_hh: TensorView,
        out: TensorView,
        job: LstmJob,
    ) -> Plan {
        let regs = job.in_registers() && self.settings.lstm_regs;
        let rows_per_group = if regs {
            shaders::LSTM_REG_ROWS
        } else {
            shaders::LSTM_ROWS
        };
        let grid = kernels::row_workgroups(arith::ceil(job.rows as int, rows_per_group as int));
        Self::lstm_checked_plan(s, job, projected, w_hh, b_hh, out).launch(
            if regs {
                "lstm_recur_regs"@
            } else {
                "lstm_recur"@
            },
            if regs {
                Kernel::LstmRecurRegs { hidden: job.hidden }
            } else {
                Kernel::LstmRecur
            },
            kernels::no_bindings().push(recorder::whole(projected)).push(
                recorder::whole(w_hh),
            ).push(recorder::whole(b_hh)).push(recorder::whole(out)).push(
                recorder::params(
                    job.hidden as u32,
                    job.time as u32,
                    if job.reverse {
                        1
                    } else {
                        0
                    },
                    job.out_pitch as u32,
                ),
            ).push(
                recorder::params(
                    job.out_offset as u32,
                    job.rows as u32,
                    grid.0,
                    job.proj_pitch as u32,
                ),
            ),
            grid,
        )
    }

    /// One direction of a recurrence over the whole time axis, in one launch.
    /// `projected` holds the input half of every step's gates. A width that fits
    /// keeps its weights in registers, the rest in shared memory.
    pub fn lstm_recur_into(
        &self,
        rec: &mut Recorder,
        projected: &DevTensor,
        w_hh: &DevTensor,
        b_hh: &DevTensor,
        out: &DevTensor,
        job: LstmJob,
    ) -> (r: Result<(), Error>)
        requires
            projected.wf(),
            w_hh.wf(),
            b_hh.wf(),
            out.wf(),
            job.fits(),
        ensures
            recorder::settled(final(rec)@, r) == self.lstm_recur_into_plan(
                old(rec)@,
                projected@,
                w_hh@,
                b_hh@,
                out@,
                job,
            ),
    {
        proof {
            rec.lemma_running();
        }
        match self.lstm_checked(rec, job, projected, w_hh, b_hh, out) {
            Ok(()) => {},
            Err(e) => {
                return Err(e);
            },
        }
        let regs = job.hidden >= 4 && job.hidden % 2 == 0 && job.hidden
            <= shaders::LSTM_REG_MAX_HIDDEN && self.settings.lstm_regs;
        let rows_per_group: usize = if regs {
            shaders::LSTM_REG_ROWS
        } else {
            shaders::LSTM_ROWS
        };
        let grid = kernels::row_workgroups_of(arith::ceil_div(job.rows, rows_per_group));
        let direction: u32 = if job.reverse {
            1
        } else {
            0
        };
        let table = Table::new().whole(projected).whole(w_hh).whole(b_hh).whole(out).params(
            job.hidden as u32,
            job.time as u32,
            direction,
            job.out_pitch as u32,
        ).params(job.out_offset as u32, job.rows as u32, grid.0, job.proj_pitch as u32);
        if regs {
            rec.dispatch(
                "lstm_recur_regs",
                Kernel::LstmRecurRegs { hidden: job.hidden },
                table,
                grid,
            );
        } else {
            rec.dispatch("lstm_recur", Kernel::LstmRecur, table, grid);
        }
        Ok(())
    }
}

} // verus!
