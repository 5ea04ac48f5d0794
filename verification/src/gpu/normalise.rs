//! Normalisations.

use vstd::prelude::*;

use crate::error::{Error, Fault};
use crate::gpu::arith;
use crate::gpu::kernels;
use crate::gpu::kernels::Kernels;
use crate::gpu::pipelines::Kernel;
use crate::gpu::recorder;
use crate::gpu::recorder::{BindingView, Plan, Recorder, Table};
use crate::gpu::shaders;
use crate::gpu::shapes::GroupNormShape;
use crate::gpu::tensor;
use crate::gpu::tensor::{DevTensor, TensorView};

verus! {

impl Kernels {
    // -------------------------------------------------------------- row norms

    pub open spec fn rms_norm_pitched_plan(
        self,
        s: Plan,
        x: TensorView,
        gamma: TensorView,
        out: TensorView,
        rows: usize,
        dim: usize,
        pitch_in: usize,
        pitch_out: usize,
    ) -> Plan {
        let warp = self.shuffle_reduction && dim <= shaders::RMS_WARP_COLS;
        s.launch(
            "rms_norm"@,
            if warp {
                Kernel::RmsNormWarp
            } else {
                Kernel::RmsNorm
            },
            kernels::no_bindings().push(recorder::whole(x)).push(recorder::whole(gamma)).push(
                recorder::whole(out),
            ).push(
                recorder::params(rows as u32, dim as u32, pitch_in as u32, pitch_out as u32),
            ),
            kernels::row_workgroups(
                arith::ceil(
                    rows as int,
                    if warp {
                        shaders::RMS_WARP_ROWS_PER_WG as int
                    } else {
                        1
                    },
                ),
            ),
        )
    }

    /// Normalises `rows` rows of `dim` features with explicit pitches; the output's
    /// padding is cleared. Narrow rows take the warp kernel, where there is one.
    pub fn rms_norm_pitched(
        &self,
        rec: &mut Recorder,
        x: &DevTensor,
        gamma: &DevTensor,
        out: &DevTensor,
        rows: usize,
        dim: usize,
        pitch_in: usize,
        pitch_out: usize,
    )
        requires
            x.wf(),
            gamma.wf(),
            out.wf(),
        ensures
            final(rec)@ == self.rms_norm_pitched_plan(
                old(rec)@,
                x@,
                gamma@,
                out@,
                rows,
                dim,
                pitch_in,
                pitch_out,
            ),
    {
        let warp = self.shuffle_reduction && dim <= shaders::RMS_WARP_COLS;
        let kernel = if warp {
            Kernel::RmsNormWarp
        } else {
            Kernel::RmsNorm
        };
        let per_group: usize = if warp {
            shaders::RMS_WARP_ROWS_PER_WG
        } else {
            1
        };
        let table = Table::new().whole(x).whole(gamma).whole(out).params(
            rows as u32,
            dim as u32,
            pitch_in as u32,
            pitch_out as u32,
        );
        rec.dispatch(
            "rms_norm",
            kernel,
            table,
            kernels::row_workgroups_of(arith::ceil_div(rows, per_group)),
        );
    }

    pub open spec fn rms_norm_into_plan(
        self,
        s: Plan,
        x: TensorView,
        gamma: TensorView,
        out: TensorView,
        rows: usize,
        dim: usize,
    ) -> Plan {
        self.rms_norm_pitched_plan(s, x, gamma, out, rows, dim, dim, dim)
    }

    /// [`Kernels::rms_norm_pitched`] on tight rows.
    pub fn rms_norm_into(
        &self,
        rec: &mut Recorder,
        x: &DevTensor,
        gamma: &DevTensor,
        out: &DevTensor,
        rows: usize,
        dim: usize,
    )
        requires
            x.wf(),
            gamma.wf(),
            out.wf(),
        ensures
            final(rec)@ == self.rms_norm_into_plan(old(rec)@, x@, gamma@, out@, rows, dim),
    {
        self.rms_norm_pitched(rec, x, gamma, out, rows, dim, dim, dim)
    }

    pub open spec fn rms_norm_plan(
        self,
        s: Plan,
        x: TensorView,
        gamma: TensorView,
        rows: usize,
        dim: usize,
    ) -> Plan {
        self.rms_norm_into_plan(
            s.tensor(seq![rows, dim], "rms_norm.out"@),
            x,
            gamma,
            s.fresh(seq![rows, dim]),
            rows,
            dim,
        )
    }

    /// [`Kernels::rms_norm_into`] a new tensor.
    pub fn rms_norm(
        &self,
        rec: &mut Recorder,
        x: &DevTensor,
        gamma: &DevTensor,
        rows: usize,
        dim: usize,
    ) -> (r: Result<DevTensor, Error>)
        requires
            x.wf(),
            gamma.wf(),
            recorder::askable(seq![rows, dim]),
        ensures
            recorder::settled(final(rec)@, r) == self.rms_norm_plan(
                old(rec)@,
                x@,
                gamma@,
                rows,
                dim,
            ),
            r matches Ok(t) ==> t@ == old(rec)@.fresh(seq![rows, dim]) && t.wf(),
    {
        proof {
            rec.lemma_running();
        }
        let shape: Vec<usize> = vec![rows, dim];
        assert(shape@ =~= seq![rows, dim]);
        let out = match rec.tensor(shape, "rms_norm.out") {
            Ok(out) => out,
            Err(e) => {
                return Err(e);
            },
        };
        self.rms_norm_into(rec, x, gamma, &out, rows, dim);
        Ok(out)
    }

    // ------------------------------------------------------------ group norms

    /// Segments a group's slice is cut into.
    pub open spec fn group_segments(shape: GroupNormShape) -> int {
        let segments = arith::ceil(
            shape.per_group * shape.len,
            kernels::GROUP_NORM_SEGMENT_ELEMENTS as int,
        );
        if segments < 1 {
            1
        } else {
            segments
        }
    }

    /// The geometry every form of the normalisation takes.
    pub open spec fn group_params(shape: GroupNormShape) -> (BindingView, BindingView) {
        (
            recorder::params(
                shape.groups as u32,
                shape.per_group as u32,
                shape.len as u32,
                shape.row_stride as u32,
            ),
            recorder::params(
                shape.rows as u32,
                shape.len_stride as u32,
                shape.channel_stride as u32,
                shape.eps,
            ),
        )
    }

    /// Operands of the pass that writes the output.
    pub open spec fn group_apply_table(
        x: TensorView,
        gamma: TensorView,
        beta: TensorView,
        out: TensorView,
        shape: GroupNormShape,
    ) -> Seq<BindingView> {
        kernels::no_bindings().push(recorder::whole(x)).push(recorder::whole(gamma)).push(
            recorder::whole(beta),
        ).push(recorder::whole(out)).push(Self::group_params(shape).0).push(
            Self::group_params(shape).1,
        )
    }

    fn group_apply_table_of(
        x: &DevTensor,
        gamma: &DevTensor,
        beta: &DevTensor,
        out: &DevTensor,
        shape: GroupNormShape,
    ) -> (r: Table)
        requires
            x.wf(),
            gamma.wf(),
            beta.wf(),
            out.wf(),
        ensures
            r@ == Self::group_apply_table(x@, gamma@, beta@, out@, shape),
    {
        Table::new().whole(x).whole(gamma).whole(beta).whole(out).params(
            shape.groups as u32,
            shape.per_group as u32,
            shape.len as u32,
            shape.row_stride as u32,
        ).params(
            shape.rows as u32,
            shape.len_stride as u32,
            shape.channel_stride as u32,
            shape.eps,
        )
    }

    pub open spec fn group_grid_checked(s: Plan, workgroups: int) -> Plan {
        s.require(
            arith::ceil(workgroups, shaders::ROW_GRID_X as int) <= shaders::ROW_GRID_X,
            Error::Shape(Fault::GroupNormGrid { workgroups: workgroups as usize }),
        )
    }

    /// The checks in front of every form.
    pub open spec fn group_norm_checked(
        s: Plan,
        x: TensorView,
        gamma: TensorView,
        beta: TensorView,
        out: TensorView,
        shape: GroupNormShape,
    ) -> Plan {
        Self::group_grid_checked(
            s.require(!shape.empty(), Error::Shape(Fault::GroupNormZero)).require(
                gamma.len() >= shape.channels_spec() && beta.len() >= shape.channels_spec(),
                Error::Shape(
                    Fault::GroupNormAffine {
                        channels: shape.channels_spec() as usize,
                        gammas: gamma.len() as usize,
                        betas: beta.len() as usize,
                    },
                ),
            ).require(
                x.len() >= shape.needed_spec() && out.len() >= shape.needed_spec(),
                Error::Shape(
                    Fault::GroupNormLength {
                        needed: shape.needed_spec() as usize,
                        x: x.len() as usize,
                        out: out.len() as usize,
                    },
                ),
            ),
            shape.rows * shape.groups,
        )
    }

    /// The split form: partial moments per segment, then either a combine and an
    /// apply, or an apply that sums the partials itself.
    pub open spec fn group_norm_split_plan(
        self,
        s: Plan,
        x: TensorView,
        gamma: TensorView,
        beta: TensorView,
        out: TensorView,
        shape: GroupNormShape,
    ) -> Plan {
        let segments = Self::group_segments(shape);
        let pairs = shape.rows * shape.groups;
        let cut = recorder::params(
            segments as u32,
            arith::ceil(shape.per_group * shape.len, segments) as u32,
            0,
            0,
        );
        let partials = s.fresh(seq![(2 * pairs * segments) as usize]);
        let (gd, ge) = Self::group_params(shape);
        let reduced = Self::group_grid_checked(
            s.allocate((2 * pairs * segments * 4) as nat, "group_norm.partials"@),
            pairs * segments,
        ).launch(
            "group_norm_partial"@,
            Kernel::GroupNormPartial,
            kernels::no_bindings().push(recorder::whole(x)).push(gd).push(ge).push(cut).push(
                recorder::whole(partials),
            ),
            kernels::row_workgroups(pairs * segments),
        );
        let apply = Self::group_apply_table(x, gamma, beta, out, shape).push(cut);
        if shaders::combine_pays(
            pairs as nat,
            segments as nat,
            self.settings.combine_stats,
            self.settings.combine_work as nat,
        ) {
            let stats = reduced.fresh(seq![(2 * pairs) as usize]);
            reduced.allocate((2 * pairs * 4) as nat, "group_norm.stats"@).launch(
                "group_norm_combine"@,
                Kernel::GroupNormCombine,
                kernels::no_bindings().push(recorder::whole(partials)).push(
                    recorder::whole(stats),
                ).push(gd).push(ge).push(cut),
                kernels::over(pairs),
            ).launch(
                "group_norm_apply"@,
                Kernel::GroupNormApply,
                apply.push(recorder::whole(stats)),
                kernels::row_workgroups(pairs * segments),
            )
        } else {
            reduced.launch(
                "group_norm_apply"@,
                Kernel::GroupNormApplyFromPartials,
                apply.push(recorder::whole(partials)),
                kernels::row_workgroups(pairs * segments),
            )
        }
    }

    pub open spec fn group_norm_into_plan(
        self,
        s: Plan,
        x: TensorView,
        gamma: TensorView,
        beta: TensorView,
        out: TensorView,
        shape: GroupNormShape,
    ) -> Plan {
        let checked = Self::group_norm_checked(s, x, gamma, beta, out, shape);
        if Self::group_segments(shape) > 1 {
            self.group_norm_split_plan(checked, x, gamma, beta, out, shape)
        } else {
            checked.launch(
                "group_norm"@,
                Kernel::GroupNorm,
                Self::group_apply_table(x, gamma, beta, out, shape),
                kernels::row_workgroups(shape.rows * shape.groups),
            )
        }
    }

    /// Whether the scratch of the split form can be asked for.
    pub open spec fn group_scratch_fits(shape: GroupNormShape) -> bool {
        recorder::roundable(
            (2 * (shape.rows * shape.groups) * Self::group_segments(shape) * 4) as nat,
        )
    }

    /// Group normalisation, statistics per `(row, group)`. A slice larger than one
    /// workgroup should walk is cut into segments.
    pub fn group_norm_into(
        &self,
        rec: &mut Recorder,
        x: &DevTensor,
        gamma: &DevTensor,
        beta: &DevTensor,
        out: &DevTensor,
        shape: GroupNormShape,
    ) -> (r: Result<(), Error>)
        requires
            x.wf(),
            gamma.wf(),
            beta.wf(),
            out.wf(),
            shape.empty() || shape.fits() && Self::group_scratch_fits(shape),
        ensures
            recorder::settled(final(rec)@, r) == self.group_norm_into_plan(
                old(rec)@,
                x@,
                gamma@,
                beta@,
                out@,
                shape,
            ),
    {
        proof {
            rec.lemma_running();
        }
        if shape.rows == 0 || shape.groups == 0 || shape.per_group == 0 || shape.len == 0 {
            return Err(Error::Shape(Fault::GroupNormZero));
        }
        let channels: usize = shape.channels();
        let gammas: usize = gamma.len();
        let betas: usize = beta.len();
        if gammas < channels || betas < channels {
            return Err(Error::Shape(Fault::GroupNormAffine { channels, gammas, betas }));
        }
        let needed: usize = shape.needed();
        let x_len: usize = x.len();
        let out_len: usize = out.len();
        if x_len < needed || out_len < needed {
            return Err(Error::Shape(Fault::GroupNormLength { needed, x: x_len, out: out_len }));
        }
        let pairs: usize = shape.rows * shape.groups;
        if arith::ceil_div(pairs, shaders::ROW_GRID_X) > shaders::ROW_GRID_X {
            return Err(Error::Shape(Fault::GroupNormGrid { workgroups: pairs }));
        }
        let group_size: usize = shape.per_group * shape.len;
        let cut: usize = arith::ceil_div(group_size, kernels::GROUP_NORM_SEGMENT_ELEMENTS);
        let segments: usize = if cut < 1 {
            1
        } else {
            cut
        };
        if segments > 1 {
            return self.group_norm_split(rec, x, gamma, beta, out, shape, pairs, segments);
        }
        rec.dispatch(
            "group_norm",
            Kernel::GroupNorm,
            Self::group_apply_table_of(x, gamma, beta, out, shape),
            kernels::row_workgroups_of(pairs),
        );
        Ok(())
    }

    fn group_norm_split(
        &self,
        rec: &mut Recorder,
        x: &DevTensor,
        gamma: &DevTensor,
        beta: &DevTensor,
        out: &DevTensor,
        shape: GroupNormShape,
        pairs: usize,
        segments: usize,
    ) -> (r: Result<(), Error>)
        requires
            x.wf(),
            gamma.wf(),
            beta.wf(),
            out.wf(),
            shape.fits(),
            Self::group_scratch_fits(shape),
            pairs == shape.rows * shape.groups,
            segments == Self::group_segments(shape),
            segments > 1,
        ensures
            recorder::settled(final(rec)@, r) == self.group_norm_split_plan(
                old(rec)@,
                x@,
                gamma@,
                beta@,
                out@,
                shape,
            ),
    {
        proof {
            rec.lemma_running();
            arith::lemma_mul_bounds(pairs as int, segments as int);
            assert(2 * (pairs * segments) == 2 * pairs * segments) by (nonlinear_arith);
        }
        let group_size: usize = shape.per_group * shape.len;
        let segment_len: usize = arith::ceil_div(group_size, segments);
        let values: usize = 2 * pairs * segments;
        let partials = match rec.allocate((values * 4) as u64, "group_norm.partials") {
            Ok(t) => t,
            Err(e) => {
                return Err(e);
            },
        };
        let workgroups: usize = pairs * segments;
        if arith::ceil_div(workgroups, shaders::ROW_GRID_X) > shaders::ROW_GRID_X {
            return Err(Error::Shape(Fault::GroupNormGrid { workgroups }));
        }
        let grid = kernels::row_workgroups_of(workgroups);
        let reduce = Table::new().whole(x).params(
            shape.groups as u32,
            shape.per_group as u32,
            shape.len as u32,
            shape.row_stride as u32,
        ).params(
            shape.rows as u32,
            shape.len_stride as u32,
            shape.channel_stride as u32,
            shape.eps,
        ).params(segments as u32, segment_len as u32, 0, 0).whole(&partials);
        rec.dispatch("group_norm_partial", Kernel::GroupNormPartial, reduce, grid);
        let apply = Self::group_apply_table_of(x, gamma, beta, out, shape).params(
            segments as u32,
            segment_len as u32,
            0,
            0,
        );
        if shaders::combine_pays_for(
            pairs,
            segments,
            self.settings.combine_stats,
            self.settings.combine_work,
        ) {
            let stats = match rec.allocate((2 * pairs * 4) as u64, "group_norm.stats") {
                Ok(t) => t,
                Err(e) => {
                    return Err(e);
                },
            };
            let combine = Table::new().whole(&partials).whole(&stats).params(
                shape.groups as u32,
                shape.per_group as u32,
                shape.len as u32,
                shape.row_stride as u32,
            ).params(
                shape.rows as u32,
                shape.len_stride as u32,
                shape.channel_stride as u32,
                shape.eps,
            ).params(segments as u32, segment_len as u32, 0, 0);
            rec.dispatch(
                "group_norm_combine",
                Kernel::GroupNormCombine,
                combine,
                kernels::over_of(pairs),
            );
            rec.dispatch("group_norm_apply", Kernel::GroupNormApply, apply.whole(&stats), grid);
        } else {
            rec.dispatch(
                "group_norm_apply",
                Kernel::GroupNormApplyFromPartials,
                apply.whole(&partials),
                grid,
            );
        }
        Ok(())
    }

    // ---------------------------------------------------------- batch moments

    /// Segments a plane's moments are cut into.
    pub open spec fn moment_segments(self, plane: int) -> int {
        if self.settings.moments_segment == 0 {
            1
        } else {
            let segments = arith::ceil(plane, self.settings.moments_segment as int);
            if segments < 1 {
                1
            } else {
                segments
            }
        }
    }

    pub open spec fn batch_moments_into_plan(
        self,
        s: Plan,
        x: TensorView,
        mean: TensorView,
        std: TensorView,
        plane: usize,
    ) -> Plan {
        let count = x.len();
        let batch = count as int / plane as int;
        let segments = self.moment_segments(plane as int);
        let checked = s.require(
            plane != 0 && count % plane as nat == 0,
            Error::Shape(Fault::MomentsPlane { count: count as usize, plane }),
        );
        if batch == 0 {
            checked
        } else if segments > 1 {
            let partials = checked.fresh(seq![(2 * batch * segments) as usize]);
            checked.allocate(
                (2 * batch * segments * 4) as nat,
                "batch_moments.partials"@,
            ).launch(
                "batch_moments_partial"@,
                Kernel::BatchMomentsPartial,
                kernels::no_bindings().push(recorder::first(x, count)).push(
                    recorder::whole(partials),
                ).push(
                    recorder::params(
                        plane as u32,
                        segments as u32,
                        arith::ceil(plane as int, segments) as u32,
                        batch as u32,
                    ),
                ),
                kernels::row_workgroups(batch * segments),
            ).launch(
                "batch_moments_combine"@,
                Kernel::BatchMomentsCombine,
                kernels::no_bindings().push(recorder::whole(partials)).push(
                    recorder::whole(mean),
                ).push(recorder::whole(std)).push(
                    recorder::params(plane as u32, batch as u32, segments as u32, 0),
                ),
                kernels::over(batch),
            )
        } else {
            checked.launch(
                "batch_moments"@,
                Kernel::BatchMoments,
                kernels::no_bindings().push(recorder::first(x, count)).push(
                    recorder::whole(mean),
                ).push(recorder::whole(std)).push(
                    recorder::params(plane as u32, batch as u32, 0, 0),
                ),
                (batch as u32, 1, 1),
            )
        }
    }

    /// Mean and unbiased deviation of each `plane` elements. A large plane is cut
    /// into segments.
    pub fn batch_moments_into(
        &self,
        rec: &mut Recorder,
        x: &DevTensor,
        mean: &DevTensor,
        std: &DevTensor,
        plane: usize,
    ) -> (r: Result<(), Error>)
        requires
            x.wf(),
            mean.wf(),
            std.wf(),
            plane > 0 ==> recorder::roundable(
                (2 * (x@.len() as int / plane as int) * self.moment_segments(plane as int)
                    * 4) as nat,
            ),
        ensures
            recorder::settled(final(rec)@, r) == self.batch_moments_into_plan(
                old(rec)@,
                x@,
                mean@,
                std@,
                plane,
            ),
    {
        proof {
            rec.lemma_running();
        }
        let count: usize = x.len();
        if plane == 0 || count % plane != 0 {
            return Err(Error::Shape(Fault::MomentsPlane { count, plane }));
        }
        let batch: usize = count / plane;
        if batch == 0 {
            return Ok(());
        }
        let cut: usize = if self.settings.moments_segment == 0 {
            1
        } else {
            arith::ceil_div(plane, self.settings.moments_segment)
        };
        let segments: usize = if cut < 1 {
            1
        } else {
            cut
        };
        if segments > 1 {
            proof {
                arith::lemma_mul_bounds(batch as int, segments as int);
                assert(2 * (batch * segments) == 2 * batch * segments) by (nonlinear_arith);
            }
            let segment_len: usize = arith::ceil_div(plane, segments);
            let values: usize = 2 * batch * segments;
            let partials = match rec.allocate((values * 4) as u64, "batch_moments.partials") {
                Ok(t) => t,
                Err(e) => {
                    return Err(e);
                },
            };
            let reduce = Table::new().first(x, count).whole(&partials).params(
                plane as u32,
                segments as u32,
                segment_len as u32,
                batch as u32,
            );
            rec.dispatch(
                "batch_moments_partial",
                Kernel::BatchMomentsPartial,
                reduce,
                kernels::row_workgroups_of(batch * segments),
            );
            let combine = Table::new().whole(&partials).whole(mean).whole(std).params(
                plane as u32,
                batch as u32,
                segments as u32,
                0,
            );
            rec.dispatch(
                "batch_moments_combine",
                Kernel::BatchMomentsCombine,
                combine,
                kernels::over_of(batch),
            );
            return Ok(());
        }
        let table = Table::new().first(x, count).whole(mean).whole(std).params(
            plane as u32,
            batch as u32,
            0,
            0,
        );
        rec.dispatch("batch_moments", Kernel::BatchMoments, table, (batch as u32, 1, 1));
        Ok(())
    }

    pub open spec fn batch_normalize_in_place_plan(
        self,
        s: Plan,
        x: TensorView,
        mean: TensorView,
        std: TensorView,
        plane: usize,
    ) -> Plan {
        let count = x.len();
        s.require(
            plane != 0 && count % plane as nat == 0,
            Error::Shape(Fault::NormalizePlane { count: count as usize, plane }),
        ).launch(
            "batch_normalize_in_place"@,
            Kernel::BatchNormalizeInPlace,
            kernels::no_bindings().push(recorder::first(x, count)).push(
                recorder::whole(mean),
            ).push(recorder::whole(std)).push(
                recorder::params(count as u32, plane as u32, 0, 0),
            ),
            kernels::over(count as int),
        )
    }

    /// `x = (x - mean) / (1e-5 + std)` per `plane` elements.
    pub fn batch_normalize_in_place(
        &self,
        rec: &mut Recorder,
        x: &DevTensor,
        mean: &DevTensor,
        std: &DevTensor,
        plane: usize,
    ) -> (r: Result<(), Error>)
        requires
            x.wf(),
            mean.wf(),
            std.wf(),
        ensures
            recorder::settled(final(rec)@, r) == self.batch_normalize_in_place_plan(
                old(rec)@,
                x@,
                mean@,
                std@,
                plane,
            ),
    {
        proof {
            rec.lemma_running();
        }
        let count: usize = x.len();
        if plane == 0 || count % plane != 0 {
            return Err(Error::Shape(Fault::NormalizePlane { count, plane }));
        }
        let table = Table::new().first(x, count).whole(mean).whole(std).params(
            count as u32,
            plane as u32,
            0,
            0,
        );
        rec.dispatch(
            "batch_normalize_in_place",
            Kernel::BatchNormalizeInPlace,
            table,
            kernels::over_of(count),
        );
        Ok(())
    }
}

} // verus!
