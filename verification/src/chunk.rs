//! Record chunker: the two-level strided partition of a flat sample
//! buffer into per-record spans.
//!
//! A slice's buffer lays its samples out baseline-major, then
//! fine-channel, then polarisation product, then real/imaginary
//! component.  One record covers one (baseline, fine channel) pair:
//! `polarisation_products * 2` consecutive samples.  The chunker yields
//! the spans of all records in strict baseline-major, then
//! fine-channel-major order; together they cover the buffer exactly once,
//! with no remainder.

use vstd::arithmetic::div_mod::lemma_fundamental_div_mod;
use vstd::arithmetic::div_mod::lemma_fundamental_div_mod_converse;
use vstd::prelude::*;

use crate::baseline::baseline_count_at_most;
use crate::baseline::num_baselines;

verus! {

/// The place of one visibility record inside a slice's buffer: which
/// baseline and fine channel it belongs to, and where its samples start.
#[derive(Debug, Clone, Copy, PartialEq, Eq)]
pub struct RecordSpan {
    /// Linear baseline index of the record.
    pub baseline_index: usize,
    /// Fine channel index of the record within its baseline.
    pub fine_chan_index: usize,
    /// Offset of the record's first sample in the buffer.
    pub start: usize,
}

/// A fatal mismatch between a buffer's length and the declared shape of
/// the observation.
#[derive(Debug, Clone, Copy, PartialEq, Eq)]
pub enum ShapeError {
    /// The buffer length is not an exact multiple of one baseline's span
    /// (`fine_channels_per_coarse * polarisation_products * 2`).
    Misaligned,
    /// The buffer holds more baselines than the antenna count allows.
    ExcessBaselines,
}

/// Partition a buffer of `buffer_len` samples into record spans, in
/// baseline-major then fine-channel-major order.
///
/// Fails with `Misaligned` when the length is not an exact multiple of
/// one baseline's span, and with `ExcessBaselines` when it implies more
/// baselines than `num_antennas` antennas can form.  On success the spans
/// tile the buffer exactly: span `k` covers the samples
/// `[k * fine_stride, (k + 1) * fine_stride)`.
pub fn chunk_spans(
    buffer_len: usize,
    fine_chans_per_coarse: usize,
    pols: usize,
    num_antennas: usize,
) -> (r: Result<Vec<RecordSpan>, ShapeError>)
    requires
        1 <= fine_chans_per_coarse,
        1 <= pols,
        fine_chans_per_coarse * pols * 2 <= usize::MAX,
    ensures
        ({
            let fs = pols as int * 2;
            let bs = fine_chans_per_coarse as int * fs;
            match r {
                Ok(spans) => {
                    &&& buffer_len as int % bs == 0
                    &&& buffer_len as int / bs <= num_baselines(num_antennas as int)
                    &&& spans@.len() * fs == buffer_len as int
                    &&& spans@.len() == buffer_len as int / fs
                    &&& forall|k: int|
                        0 <= k < spans@.len() ==> {
                            &&& (#[trigger] spans@[k]).baseline_index as int == k / (
                            fine_chans_per_coarse as int)
                            &&& spans@[k].fine_chan_index as int == k % (
                            fine_chans_per_coarse as int)
                            &&& spans@[k].start as int == k * fs
                            &&& (spans@[k].baseline_index as int) < buffer_len as int / bs
                            &&& spans@[k].start as int + fs <= buffer_len as int
                        }
                },
                Err(e) => {
                    &&& (e == ShapeError::Misaligned <==> buffer_len as int % bs != 0)
                    &&& (e == ShapeError::ExcessBaselines <==> (buffer_len as int % bs == 0
                        && buffer_len as int / bs > num_baselines(num_antennas as int)))
                },
            }
        }),
{
    proof {
        assert(pols as int * 2 <= fine_chans_per_coarse as int * pols as int * 2)
            by (nonlinear_arith)
            requires
                1 <= fine_chans_per_coarse,
                1 <= pols,
        ;
    }
    let fine_stride = pols * 2;
    proof {
        assert(fine_chans_per_coarse as int * (pols as int * 2) == fine_chans_per_coarse as int
            * pols as int * 2)
            by (nonlinear_arith)
        ;
    }
    let baseline_stride = fine_chans_per_coarse * fine_stride;
    if buffer_len % baseline_stride != 0 {
        return Err(ShapeError::Misaligned);
    }
    let nb = buffer_len / baseline_stride;
    if !baseline_count_at_most(nb, num_antennas) {
        return Err(ShapeError::ExcessBaselines);
    }
    proof {
        lemma_fundamental_div_mod(buffer_len as int, baseline_stride as int);
        assert(buffer_len as int == nb as int * (fine_chans_per_coarse as int * (pols as int
            * 2))) by (nonlinear_arith)
            requires
                buffer_len as int == baseline_stride as int * (nb as int) + 0,
                baseline_stride as int == fine_chans_per_coarse as int * (pols as int * 2),
        ;
        assert(nb as int * fine_chans_per_coarse as int <= buffer_len as int)
            by (nonlinear_arith)
            requires
                buffer_len as int == nb as int * (fine_chans_per_coarse as int * (pols as int
                    * 2)),
                1 <= pols,
                0 <= nb as int,
                1 <= fine_chans_per_coarse,
        ;
    }
    let n_records = nb * fine_chans_per_coarse;
    let ghost fs = pols as int * 2;
    let ghost fc = fine_chans_per_coarse as int;
    proof {
        assert(n_records as int * fs == buffer_len as int) by (nonlinear_arith)
            requires
                n_records as int == nb as int * fc,
                buffer_len as int == nb as int * (fc * fs),
        ;
    }
    let mut spans: Vec<RecordSpan> = Vec::new();
    let mut start: usize = 0;
    let mut b: usize = 0;
    while b < nb
        invariant
            1 <= fine_chans_per_coarse,
            1 <= pols,
            fs == pols as int * 2,
            fc == fine_chans_per_coarse as int,
            fine_stride as int == fs,
            n_records as int == nb as int * fc,
            n_records as int * fs == buffer_len as int,
            b <= nb,
            spans@.len() == b as int * fc,
            spans@.len() <= n_records,
            start as int == spans@.len() * fs,
            forall|k: int|
                0 <= k < spans@.len() ==> {
                    &&& (#[trigger] spans@[k]).baseline_index as int == k / fc
                    &&& spans@[k].fine_chan_index as int == k % fc
                    &&& spans@[k].start as int == k * fs
                    &&& (spans@[k].baseline_index as int) < nb as int
                    &&& spans@[k].start as int + fs <= buffer_len as int
                },
        decreases nb - b,
    {
        let mut f: usize = 0;
        while f < fine_chans_per_coarse
            invariant
                1 <= fine_chans_per_coarse,
                1 <= pols,
                fs == pols as int * 2,
                fc == fine_chans_per_coarse as int,
                fine_stride as int == fs,
                n_records as int == nb as int * fc,
                n_records as int * fs == buffer_len as int,
                b < nb,
                f <= fine_chans_per_coarse,
                spans@.len() == b as int * fc + f as int,
                spans@.len() <= n_records,
                start as int == spans@.len() * fs,
                forall|k: int|
                    0 <= k < spans@.len() ==> {
                        &&& (#[trigger] spans@[k]).baseline_index as int == k / fc
                        &&& spans@[k].fine_chan_index as int == k % fc
                        &&& spans@[k].start as int == k * fs
                        &&& (spans@[k].baseline_index as int) < nb as int
                        &&& spans@[k].start as int + fs <= buffer_len as int
                    },
            decreases fine_chans_per_coarse - f,
        {
            proof {
                let k = spans@.len() as int;
                lemma_fundamental_div_mod_converse(k, fc, b as int, f as int);
                assert(k + 1 <= nb as int * fc) by (nonlinear_arith)
                    requires
                        k == b as int * fc + f as int,
                        (b as int) < (nb as int),
                        (f as int) < fc,
                        1 <= fc,
                ;
                assert((k + 1) * fs <= nb as int * fc * fs) by (nonlinear_arith)
                    requires
                        k + 1 <= nb as int * fc,
                        0 <= fs,
                ;
                assert(nb as int * fc * fs == buffer_len as int) by (nonlinear_arith)
                    requires
                        n_records as int == nb as int * fc,
                        n_records as int * fs == buffer_len as int,
                ;
                assert((k + 1) * fs == k * fs + fs) by (nonlinear_arith);
            }
            spans.push(RecordSpan { baseline_index: b, fine_chan_index: f, start });
            start = start + fine_stride;
            f = f + 1;
        }
        proof {
            assert(b as int * fc + fc == (b as int + 1) * fc) by (nonlinear_arith);
        }
        b = b + 1;
    }
    proof {
        lemma_fundamental_div_mod_converse(buffer_len as int, fs, n_records as int, 0);
    }
    Ok(spans)
}

} // verus!
