//! The transforms between waveform and spectrogram.

use vstd::prelude::*;

use crate::error::{Detail, Error, Fault};
use crate::gpu::arith;
use crate::gpu::kernels;
use crate::gpu::kernels::Kernels;
use crate::gpu::pipelines::Kernel;
use crate::gpu::recorder;
use crate::gpu::recorder::{Plan, Recorder, Table};
use crate::gpu::tensor::{DevTensor, TensorView};
use crate::text;

verus! {

/// Points of the transforms the kernels are compiled for.
pub const NFFT: usize = 4096;

/// Samples between the inverse transform's frames.
pub const ISPEC_HOP: usize = 1024;

/// Samples the inverse transform trims in front.
pub const ISPEC_PAD: usize = 1536;

impl Kernels {
    pub open spec fn stft_cac_into_plan(
        self,
        s: Plan,
        padded: TensorView,
        spectrum_window: TensorView,
        out: TensorView,
        batch: usize,
        channels: usize,
        padded_len: usize,
        le: usize,
        bins: usize,
        hop: usize,
        nfft: usize,
    ) -> Plan {
        s.require(nfft == NFFT, Error::Shape(Fault::StftSize { nfft })).require(
            padded.shape == seq![batch, channels, padded_len],
            Error::ShapeOf(
                Detail::StftInput {
                    found: text::listed(padded.shape),
                    batch,
                    channels,
                    len: padded_len,
                },
            ),
        ).require(
            out.shape == seq![batch, (channels * 2) as usize, bins, le],
            Error::ShapeOf(
                Detail::StftOutput {
                    found: text::listed(out.shape),
                    batch,
                    channels: (channels * 2) as usize,
                    bins,
                    frames: le,
                },
            ),
        ).launch(
            "stft_rfft4096"@,
            Kernel::StftRfft4096,
            kernels::no_bindings().push(recorder::whole(padded)).push(
                recorder::first(spectrum_window, NFFT as nat),
            ).push(recorder::whole(out)).push(
                recorder::params(le as u32, bins as u32, channels as u32, hop as u32),
            ).push(recorder::params(padded_len as u32, 2048, batch as u32, 0)),
            (arith::at_least_one(le as int) as u32, arith::at_least_one(batch * channels) as u32, 1),
        )
    }

    /// The spectrogram of a reflect-padded mix `(batch, channels, padded_len)`, real
    /// and imaginary parts as channels: `(batch, 2 * channels, bins, le)`.
    pub fn stft_cac_into(
        &self,
        rec: &mut Recorder,
        padded: &DevTensor,
        spectrum_window: &DevTensor,
        out: &DevTensor,
        batch: usize,
        channels: usize,
        padded_len: usize,
        le: usize,
        bins: usize,
        hop: usize,
        nfft: usize,
    ) -> (r: Result<(), Error>)
        requires
            padded.wf(),
            spectrum_window.wf(),
            out.wf(),
            channels * 2 <= usize::MAX,
            batch * channels <= usize::MAX,
        ensures
            recorder::settled(final(rec)@, r) == self.stft_cac_into_plan(
                old(rec)@,
                padded@,
                spectrum_window@,
                out@,
                batch,
                channels,
                padded_len,
                le,
                bins,
                hop,
                nfft,
            ),
    {
        proof {
            rec.lemma_running();
        }
        if nfft != NFFT {
            return Err(Error::Shape(Fault::StftSize { nfft }));
        }
        if !padded.is_3d(batch, channels, padded_len) {
            let found = text::list_text(&padded.shape);
            return Err(
                Error::ShapeOf(Detail::StftInput { found, batch, channels, len: padded_len }),
            );
        }
        if !out.is_4d(batch, channels * 2, bins, le) {
            let found = text::list_text(&out.shape);
            return Err(
                Error::ShapeOf(
                    Detail::StftOutput { found, batch, channels: channels * 2, bins, frames: le },
                ),
            );
        }
        let table = Table::new().whole(padded).first(spectrum_window, nfft).whole(out).params(
            le as u32,
            bins as u32,
            channels as u32,
            hop as u32,
        ).params(padded_len as u32, (nfft / 2) as u32, batch as u32, 0);
        rec.dispatch(
            "stft_rfft4096",
            Kernel::StftRfft4096,
            table,
            (arith::at_least_one_of(le) as u32, arith::at_least_one_of(batch * channels) as u32, 1),
        );
        Ok(())
    }

    /// Whether the sizes of an inverse transform can be counted, where they are
    /// looked at.
    pub open spec fn ispec_fits(
        batch: usize,
        sources: usize,
        frames: usize,
        length: usize,
    ) -> bool {
        let rows = batch * (sources * 2);
        &&& sources * 4 <= usize::MAX
        &&& rows <= usize::MAX
        &&& rows * length <= usize::MAX
        &&& recorder::askable(seq![rows as usize, frames, NFFT])
    }

    pub open spec fn ispec_cac_into_plan(
        self,
        s: Plan,
        spec: TensorView,
        spectrum_window: TensorView,
        out: TensorView,
        batch: usize,
        sources: usize,
        frames: usize,
        bins: usize,
        length: usize,
    ) -> Plan {
        let packed = (sources * 4) as usize;
        let packed_out = sources * 2;
        let rows = batch * packed_out;
        let samples = rows * length;
        let checked = s.require(
            spectrum_window.len() >= NFFT,
            Error::Shape(Fault::IspecWindow),
        ).require(bins == NFFT / 2, Error::Shape(Fault::IspecBins { bins })).require(
            spec.shape == seq![batch, packed, bins, frames],
            Error::ShapeOf(
                Detail::IspecShape {
                    found: text::listed(spec.shape),
                    batch,
                    channels: packed,
                    bins,
                    frames,
                },
            ),
        ).require(
            out.len() >= samples,
            Error::Shape(
                Fault::IspecTarget { have: out.len() as usize, need: samples as usize },
            ),
        );
        let shape = seq![rows as usize, frames, NFFT];
        let framed = checked.fresh(shape);
        checked.tensor(shape, "istft.frames"@).launch(
            "istft_irfft4096"@,
            Kernel::IstftIrfft4096,
            kernels::no_bindings().push(recorder::whole(spec)).push(
                recorder::first(spectrum_window, NFFT as nat),
            ).push(recorder::whole(framed)).push(
                recorder::params(frames as u32, bins as u32, packed as u32, batch as u32),
            ),
            (arith::at_least_one(frames as int) as u32, arith::at_least_one(rows) as u32, 1),
        ).launch(
            "istft_ola"@,
            Kernel::IstftOla,
            kernels::no_bindings().push(recorder::whole(framed)).push(
                recorder::first(spectrum_window, NFFT as nat),
            ).push(recorder::whole(out)).push(
                recorder::params(frames as u32, ISPEC_HOP as u32, NFFT as u32, ISPEC_PAD as u32),
            ).push(recorder::params(length as u32, packed_out as u32, batch as u32, 0)),
            kernels::over(samples),
        )
    }

    /// The waveform of a spectrogram `(batch, 4 * sources, bins, frames)`: the
    /// inverse transform of every frame, then overlap-add, trimmed to `length`.
    pub fn ispec_cac_into(
        &self,
        rec: &mut Recorder,
        spec: &DevTensor,
        spectrum_window: &DevTensor,
        out: &DevTensor,
        batch: usize,
        sources: usize,
        frames: usize,
        bins: usize,
        length: usize,
    ) -> (r: Result<(), Error>)
        requires
            spec.wf(),
            spectrum_window.wf(),
            out.wf(),
            Self::ispec_fits(batch, sources, frames, length),
        ensures
            recorder::settled(final(rec)@, r) == self.ispec_cac_into_plan(
                old(rec)@,
                spec@,
                spectrum_window@,
                out@,
                batch,
                sources,
                frames,
                bins,
                length,
            ),
    {
        proof {
            rec.lemma_running();
        }
        if spectrum_window.len() < NFFT {
            return Err(Error::Shape(Fault::IspecWindow));
        }
        if bins != NFFT / 2 {
            return Err(Error::Shape(Fault::IspecBins { bins }));
        }
        let packed: usize = sources * 4;
        let packed_out: usize = sources * 2;
        if !spec.is_4d(batch, packed, bins, frames) {
            let found = text::list_text(&spec.shape);
            return Err(
                Error::ShapeOf(Detail::IspecShape { found, batch, channels: packed, bins, frames }),
            );
        }
        let rows: usize = batch * packed_out;
        let samples: usize = rows * length;
        let have: usize = out.len();
        if have < samples {
            return Err(Error::Shape(Fault::IspecTarget { have, need: samples }));
        }
        let shape: Vec<usize> = vec![rows, frames, NFFT];
        assert(shape@ =~= seq![rows, frames, NFFT]);
        let framed = match rec.tensor(shape, "istft.frames") {
            Ok(t) => t,
            Err(e) => {
                return Err(e);
            },
        };
        let inverse = Table::new().whole(spec).first(spectrum_window, NFFT).whole(&framed).params(
            frames as u32,
            bins as u32,
            packed as u32,
            batch as u32,
        );
        rec.dispatch(
            "istft_irfft4096",
            Kernel::IstftIrfft4096,
            inverse,
            (arith::at_least_one_of(frames) as u32, arith::at_least_one_of(rows) as u32, 1),
        );
        let overlap = Table::new().whole(&framed).first(spectrum_window, NFFT).whole(out).params(
            frames as u32,
            ISPEC_HOP as u32,
            NFFT as u32,
            ISPEC_PAD as u32,
        ).params(length as u32, packed_out as u32, batch as u32, 0);
        rec.dispatch("istft_ola", Kernel::IstftOla, overlap, kernels::over_of(samples));
        Ok(())
    }
}

} // verus!
