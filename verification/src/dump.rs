//! Dump driver: turns one slice's sample buffer into finished output
//! lines, in order, and accumulates the run's statistics.
//!
//! One output line is produced per (coarse channel, timestep, baseline,
//! fine channel) tuple: six identifying columns, then one encoded value
//! column per polarisation component, comma-separated and
//! newline-terminated.  The driver handles one (timestep, coarse channel)
//! slice per call; the surrounding program fetches each slice's buffer,
//! writes the produced lines out, and iterates slices in schedule order.

use vstd::prelude::*;
use vstd::string::StringExecFns;

use crate::baseline::decode_baseline;
use crate::baseline::decoded_pair;
use crate::baseline::num_baselines;
use crate::chunk::chunk_spans;
use crate::chunk::ShapeError;
use crate::encode::dec_text;
use crate::encode::encode_sample;
use crate::encode::encoded_sample;
use crate::encode::usize_to_decimal;
use crate::encode::Sample;
use crate::model::ObsContext;
use vstd::arithmetic::div_mod::lemma_fundamental_div_mod_converse;

verus! {

/// Running statistics of one dump invocation: how many component values
/// have been emitted.  (The floating-point sum of the raw values is
/// accumulated by the surrounding program, which owns the raw floats.)
#[derive(Debug, Clone, Copy, PartialEq, Eq)]
pub struct DumpStats {
    /// Number of component values emitted so far.
    pub value_count: u64,
}

impl DumpStats {
    /// Fresh statistics: nothing emitted yet.
    pub fn new() -> (r: DumpStats)
        ensures
            r.value_count == 0,
    {
        DumpStats { value_count: 0 }
    }
}

/// The fixed header line naming the 14 output columns.
pub open spec fn header_text() -> Seq<char> {
    "coarse_chan,timestep,baseline,ant1_name,ant2_name,fine_chan,xx_re,xx_im,xy_re,xy_im,yx_re,yx_im,yy_re,yy_im\n"@
}

/// The header line of the dump, newline-terminated.
pub fn header_line() -> (r: String)
    ensures
        r@ == header_text(),
{
    "coarse_chan,timestep,baseline,ant1_name,ant2_name,fine_chan,xx_re,xx_im,xy_re,xy_im,yx_re,yx_im,yy_re,yy_im\n".to_owned()
}

/// The six identifying columns of one record line, comma-separated:
/// coarse channel, timestep, baseline, the two antenna names, fine
/// channel.
pub open spec fn record_prefix(
    coarse: int,
    ts: int,
    b: int,
    name1: Seq<char>,
    name2: Seq<char>,
    fine: int,
) -> Seq<char> {
    dec_text(coarse as nat) + seq![','] + dec_text(ts as nat) + seq![','] + dec_text(b as nat)
        + seq![','] + name1 + seq![','] + name2 + seq![','] + dec_text(fine as nat)
}

/// The value columns of one record: each sample's encoded text, each
/// preceded by a comma.
pub open spec fn values_text(vals: Seq<Sample>, radix: u8, absolute: bool) -> Seq<char>
    decreases vals.len(),
{
    if vals.len() == 0 {
        Seq::empty()
    } else {
        values_text(vals.drop_last(), radix, absolute) + seq![','] + encoded_sample(
            vals.last(),
            radix,
            absolute,
        )
    }
}

/// One full record line: the identifying columns, the value columns, and
/// a terminating newline.
pub open spec fn record_line(
    coarse: int,
    ts: int,
    b: int,
    name1: Seq<char>,
    name2: Seq<char>,
    fine: int,
    vals: Seq<Sample>,
    radix: u8,
    absolute: bool,
) -> Seq<char> {
    record_prefix(coarse, ts, b, name1, name2, fine) + values_text(vals, radix, absolute)
        + seq!['\n']
}

/// Record line `k` of one slice: its baseline is `k / fine_channels`,
/// its fine channel `k % fine_channels`, its antenna names those of the
/// decoded pair, and its values the `k`-th stride of the buffer.
pub open spec fn slice_record_line(
    ctx: ObsContext,
    coarse_index: int,
    timestep_index: int,
    buffer: Seq<Sample>,
    radix: u8,
    absolute: bool,
    k: int,
) -> Seq<char> {
    let fc = ctx.num_fine_channels_per_coarse as int;
    let fs = ctx.num_visibility_pols as int * 2;
    let p = decoded_pair(k / fc, ctx.num_antennas as int);
    record_line(
        coarse_index,
        timestep_index,
        k / fc,
        ctx.antenna_names@[p.0]@,
        ctx.antenna_names@[p.1]@,
        k % fc,
        buffer.subrange(k * fs, k * fs + fs),
        radix,
        absolute,
    )
}

/// No character of `s` is a newline.
pub open spec fn newline_free(s: Seq<char>) -> bool {
    forall|i: int| 0 <= i < s.len() ==> s[i] != '\n'
}

proof fn lemma_newline_free_concat(a: Seq<char>, b: Seq<char>)
    requires
        newline_free(a),
        newline_free(b),
    ensures
        newline_free(a + b),
{
    assert forall|i: int| 0 <= i < (a + b).len() implies (a + b)[i] != '\n' by {
        if i < a.len() {
            assert((a + b)[i] == a[i]);
        } else {
            assert((a + b)[i] == b[i - a.len()]);
        }
    }
}

proof fn lemma_digits_text_newline_free(v: nat, base: nat)
    requires
        2 <= base,
    ensures
        newline_free(crate::encode::digits_text(v, base)),
    decreases v,
{
    if v != 0 {
        assert(v / base < v) by (nonlinear_arith)
            requires
                v > 0 && base >= 2,
        ;
        lemma_digits_text_newline_free(v / base, base);
        let rest = crate::encode::digits_text(v / base, base);
        let d = crate::encode::digit_char((v % base) as int);
        assert(d != '\n');
        assert(crate::encode::digits_text(v, base) =~= rest + seq![d]);
        lemma_newline_free_concat(rest, seq![d]);
    }
}

proof fn lemma_radix_text_newline_free(v: nat, base: nat)
    requires
        2 <= base,
    ensures
        newline_free(crate::encode::radix_text(v, base)),
{
    if v == 0 {
    } else {
        lemma_digits_text_newline_free(v, base);
    }
}

proof fn lemma_values_text_newline_free(vals: Seq<Sample>, radix: u8, absolute: bool)
    requires
        radix == 0 || 2 <= radix <= 36,
        radix == 0 ==> forall|i: int|
            0 <= i < vals.len() ==> newline_free(
                if absolute {
                    (#[trigger] vals[i]).abs_decimal_text@
                } else {
                    vals[i].decimal_text@
                },
            ),
    ensures
        newline_free(values_text(vals, radix, absolute)),
    decreases vals.len(),
{
    if vals.len() > 0 {
        lemma_values_text_newline_free(vals.drop_last(), radix, absolute);
        if radix != 0 {
            lemma_radix_text_newline_free(
                if absolute {
                    vals.last().abs_truncated as nat
                } else {
                    vals.last().truncated as nat
                },
                radix as nat,
            );
        }
        lemma_newline_free_concat(values_text(vals.drop_last(), radix, absolute), seq![',']);
        lemma_newline_free_concat(
            values_text(vals.drop_last(), radix, absolute) + seq![','],
            encoded_sample(vals.last(), radix, absolute),
        );
    }
}

/// Integrity of one output line: every record line ends with its only
/// newline, so a writer that emits lines whole never leaves a partial or
/// corrupt record behind, whatever line it stops after.  Holds whenever
/// the antenna names — and, under the decimal policy, the samples'
/// decimal texts — contain no newline themselves.
pub proof fn lemma_record_line_single_newline(
    coarse: int,
    ts: int,
    b: int,
    name1: Seq<char>,
    name2: Seq<char>,
    fine: int,
    vals: Seq<Sample>,
    radix: u8,
    absolute: bool,
)
    requires
        radix == 0 || 2 <= radix <= 36,
        newline_free(name1),
        newline_free(name2),
        radix == 0 ==> forall|i: int|
            0 <= i < vals.len() ==> newline_free(
                if absolute {
                    (#[trigger] vals[i]).abs_decimal_text@
                } else {
                    vals[i].decimal_text@
                },
            ),
    ensures
        ({
            let line = record_line(coarse, ts, b, name1, name2, fine, vals, radix, absolute);
            &&& line.len() > 0
            &&& line.last() == '\n'
            &&& forall|i: int| 0 <= i < line.len() - 1 ==> line[i] != '\n'
        }),
{
    lemma_radix_text_newline_free(coarse as nat, 10);
    lemma_radix_text_newline_free(ts as nat, 10);
    lemma_radix_text_newline_free(b as nat, 10);
    lemma_radix_text_newline_free(fine as nat, 10);
    let c = seq![','];
    let p1 = dec_text(coarse as nat) + c;
    lemma_newline_free_concat(dec_text(coarse as nat), c);
    let p2 = p1 + dec_text(ts as nat);
    lemma_newline_free_concat(p1, dec_text(ts as nat));
    let p3 = p2 + c;
    lemma_newline_free_concat(p2, c);
    let p4 = p3 + dec_text(b as nat);
    lemma_newline_free_concat(p3, dec_text(b as nat));
    let p5 = p4 + c;
    lemma_newline_free_concat(p4, c);
    let p6 = p5 + name1;
    lemma_newline_free_concat(p5, name1);
    let p7 = p6 + c;
    lemma_newline_free_concat(p6, c);
    let p8 = p7 + name2;
    lemma_newline_free_concat(p7, name2);
    let p9 = p8 + c;
    lemma_newline_free_concat(p8, c);
    let p10 = p9 + dec_text(fine as nat);
    lemma_newline_free_concat(p9, dec_text(fine as nat));
    assert(p10 =~= record_prefix(coarse, ts, b, name1, name2, fine));
    lemma_values_text_newline_free(vals, radix, absolute);
    lemma_newline_free_concat(p10, values_text(vals, radix, absolute));
    let body = record_prefix(coarse, ts, b, name1, name2, fine) + values_text(
        vals,
        radix,
        absolute,
    );
    assert(newline_free(body));
    let line = record_line(coarse, ts, b, name1, name2, fine, vals, radix, absolute);
    assert(line =~= body + seq!['\n']);
    assert(line.last() == '\n');
    assert forall|i: int| 0 <= i < line.len() - 1 implies line[i] != '\n' by {
        assert(line[i] == body[i]);
    }
}

/// Build one output line from the record's identifying values and its
/// `count` samples starting at `start` in the buffer.
pub fn build_record_line(
    coarse_index: usize,
    timestep_index: usize,
    baseline_index: usize,
    name1: &str,
    name2: &str,
    fine_chan_index: usize,
    buffer: &Vec<Sample>,
    start: usize,
    count: usize,
    radix: u8,
    absolute: bool,
) -> (r: String)
    requires
        start + count <= buffer@.len(),
        radix == 0 || 2 <= radix <= 36,
    ensures
        r@ == record_line(
            coarse_index as int,
            timestep_index as int,
            baseline_index as int,
            name1@,
            name2@,
            fine_chan_index as int,
            buffer@.subrange(start as int, start as int + count as int),
            radix,
            absolute,
        ),
{
    let ghost vals = buffer@.subrange(start as int, start as int + count as int);
    let ghost prefix = record_prefix(
        coarse_index as int,
        timestep_index as int,
        baseline_index as int,
        name1@,
        name2@,
        fine_chan_index as int,
    );
    let mut line = usize_to_decimal(coarse_index);
    line.append(",");
    let ts_text = usize_to_decimal(timestep_index);
    line.append(ts_text.as_str());
    line.append(",");
    let b_text = usize_to_decimal(baseline_index);
    line.append(b_text.as_str());
    line.append(",");
    line.append(name1);
    line.append(",");
    line.append(name2);
    line.append(",");
    let fine_text = usize_to_decimal(fine_chan_index);
    line.append(fine_text.as_str());
    proof {
        reveal_strlit(",");
        assert(","@ =~= seq![',']);
        assert(line@ =~= prefix);
        assert(vals.subrange(0, 0) =~= Seq::<Sample>::empty());
        assert(line@ =~= prefix + values_text(vals.subrange(0, 0), radix, absolute));
    }
    let buffer_len = buffer.len();
    let mut j: usize = 0;
    while j < count
        invariant
            j <= count,
            buffer@.len() == buffer_len,
            start + count <= buffer@.len(),
            radix == 0 || 2 <= radix <= 36,
            vals == buffer@.subrange(start as int, start as int + count as int),
            line@ == prefix + values_text(vals.subrange(0, j as int), radix, absolute),
        decreases count - j,
    {
        line.append(",");
        let encoded = encode_sample(&buffer[start + j], radix, absolute);
        line.append(encoded.as_str());
        proof {
            reveal_strlit(",");
            assert(","@ =~= seq![',']);
            let upto = vals.subrange(0, j as int + 1);
            assert(upto.drop_last() =~= vals.subrange(0, j as int));
            assert(upto.last() == buffer@[start as int + j]);
            assert(line@ =~= prefix + values_text(upto, radix, absolute));
        }
        j = j + 1;
    }
    line.append("\n");
    proof {
        reveal_strlit("\n");
        assert("\n"@ =~= seq!['\n']);
        assert(vals.subrange(0, count as int) =~= vals);
        assert(line@ =~= record_line(
            coarse_index as int,
            timestep_index as int,
            baseline_index as int,
            name1@,
            name2@,
            fine_chan_index as int,
            vals,
            radix,
            absolute,
        ));
    }
    line
}

/// Produce all output lines of one (timestep, coarse channel) slice, in
/// record order, and add the slice's component count to the running
/// statistics.
///
/// Fails, leaving the statistics untouched and producing no lines, when
/// the buffer's length does not fit the context's declared shape.
pub fn dump_slice(
    ctx: &ObsContext,
    coarse_index: usize,
    timestep_index: usize,
    buffer: &Vec<Sample>,
    radix: u8,
    absolute: bool,
    stats: &mut DumpStats,
) -> (r: Result<Vec<String>, ShapeError>)
    requires
        ctx.wf(),
        radix == 0 || 2 <= radix <= 36,
        old(stats).value_count + buffer@.len() <= u64::MAX,
    ensures
        ({
            let fs = ctx.num_visibility_pols as int * 2;
            let bs = ctx.num_fine_channels_per_coarse as int * fs;
            match r {
                Ok(lines) => {
                    &&& buffer@.len() as int % bs == 0
                    &&& buffer@.len() as int / bs <= num_baselines(ctx.num_antennas as int)
                    &&& lines@.len() * fs == buffer@.len() as int
                    &&& forall|k: int|
                        0 <= k < lines@.len() ==> (#[trigger] lines@[k])@ == slice_record_line(
                            *ctx,
                            coarse_index as int,
                            timestep_index as int,
                            buffer@,
                            radix,
                            absolute,
                            k,
                        )
                    &&& final(stats).value_count == old(stats).value_count + buffer@.len()
                },
                Err(e) => {
                    &&& (e == ShapeError::Misaligned <==> buffer@.len() as int % bs != 0)
                    &&& (e == ShapeError::ExcessBaselines <==> (buffer@.len() as int % bs == 0
                        && buffer@.len() as int / bs > num_baselines(ctx.num_antennas as int)))
                    &&& *final(stats) == *old(stats)
                },
            }
        }),
{
    let n = ctx.num_antennas;
    let fine_chans = ctx.num_fine_channels_per_coarse;
    let pols = ctx.num_visibility_pols;
    let spans = match chunk_spans(buffer.len(), fine_chans, pols, n) {
        Ok(s) => s,
        Err(e) => {
            return Err(e);
        },
    };
    proof {
        assert(pols as int * 2 <= fine_chans as int * pols as int * 2) by (nonlinear_arith)
            requires
                1 <= fine_chans,
                1 <= pols,
        ;
    }
    let fine_stride = pols * 2;
    let ghost fs = pols as int * 2;
    let ghost fc = fine_chans as int;
    let ghost bs = fc * fs;
    let mut lines: Vec<String> = Vec::new();
    let mut idx: usize = 0;
    while idx < spans.len()
        invariant
            ctx.wf(),
            n == ctx.num_antennas,
            fine_chans == ctx.num_fine_channels_per_coarse,
            pols == ctx.num_visibility_pols,
            radix == 0 || 2 <= radix <= 36,
            fs == pols as int * 2,
            fc == fine_chans as int,
            bs == fc * fs,
            fine_stride as int == fs,
            buffer@.len() as int % bs == 0,
            buffer@.len() as int / bs <= num_baselines(n as int),
            spans@.len() * fs == buffer@.len() as int,
            forall|k: int|
                0 <= k < spans@.len() ==> {
                    &&& (#[trigger] spans@[k]).baseline_index as int == k / fc
                    &&& spans@[k].fine_chan_index as int == k % fc
                    &&& spans@[k].start as int == k * fs
                    &&& (spans@[k].baseline_index as int) < buffer@.len() as int / bs
                    &&& spans@[k].start as int + fs <= buffer@.len() as int
                },
            idx <= spans@.len(),
            lines@.len() == idx,
            forall|k: int|
                0 <= k < idx ==> (#[trigger] lines@[k])@ == slice_record_line(
                    *ctx,
                    coarse_index as int,
                    timestep_index as int,
                    buffer@,
                    radix,
                    absolute,
                    k,
                ),
        decreases spans@.len() - idx,
    {
        let span = spans[idx];
        let pair = decode_baseline(span.baseline_index, n);
        let line = build_record_line(
            coarse_index,
            timestep_index,
            span.baseline_index,
            ctx.antenna_names[pair.0].as_str(),
            ctx.antenna_names[pair.1].as_str(),
            span.fine_chan_index,
            buffer,
            span.start,
            fine_stride,
            radix,
            absolute,
        );
        proof {
            assert(line@ == slice_record_line(
                *ctx,
                coarse_index as int,
                timestep_index as int,
                buffer@,
                radix,
                absolute,
                idx as int,
            ));
        }
        lines.push(line);
        idx = idx + 1;
    }
    stats.value_count = stats.value_count + (buffer.len() as u64);
    Ok(lines)
}

/// The slice visiting order of a full dump: every (coarse channel,
/// timestep) pair, coarse-channel-major, each axis in its natural order.
pub fn dump_schedule(num_coarse_channels: usize, num_timesteps: usize) -> (r: Vec<
    (usize, usize),
>)
    requires
        num_coarse_channels * num_timesteps <= usize::MAX,
    ensures
        r@.len() == num_coarse_channels as int * num_timesteps as int,
        forall|k: int|
            0 <= k < r@.len() ==> {
                &&& (#[trigger] r@[k]).0 as int == k / (num_timesteps as int)
                &&& r@[k].1 as int == k % (num_timesteps as int)
            },
{
    let mut schedule: Vec<(usize, usize)> = Vec::new();
    let mut ci: usize = 0;
    while ci < num_coarse_channels
        invariant
            ci <= num_coarse_channels,
            schedule@.len() == ci as int * num_timesteps as int,
            schedule@.len() <= num_coarse_channels as int * num_timesteps as int,
            num_coarse_channels * num_timesteps <= usize::MAX,
            forall|k: int|
                0 <= k < schedule@.len() ==> {
                    &&& (#[trigger] schedule@[k]).0 as int == k / (num_timesteps as int)
                    &&& schedule@[k].1 as int == k % (num_timesteps as int)
                },
        decreases num_coarse_channels - ci,
    {
        let mut ti: usize = 0;
        while ti < num_timesteps
            invariant
                ci < num_coarse_channels,
                ti <= num_timesteps,
                schedule@.len() == ci as int * num_timesteps as int + ti as int,
                schedule@.len() <= num_coarse_channels as int * num_timesteps as int,
                num_coarse_channels * num_timesteps <= usize::MAX,
                forall|k: int|
                    0 <= k < schedule@.len() ==> {
                        &&& (#[trigger] schedule@[k]).0 as int == k / (num_timesteps as int)
                        &&& schedule@[k].1 as int == k % (num_timesteps as int)
                    },
            decreases num_timesteps - ti,
        {
            proof {
                let k = schedule@.len() as int;
                lemma_fundamental_div_mod_converse(
                    k,
                    num_timesteps as int,
                    ci as int,
                    ti as int,
                );
                assert(k + 1 <= num_coarse_channels as int * num_timesteps as int)
                    by (nonlinear_arith)
                    requires
                        k == ci as int * num_timesteps as int + ti as int,
                        (ci as int) < (num_coarse_channels as int),
                        (ti as int) < (num_timesteps as int),
                ;
            }
            schedule.push((ci, ti));
            ti = ti + 1;
        }
        proof {
            assert(ci as int * num_timesteps as int + num_timesteps as int == (ci as int + 1)
                * num_timesteps as int) by (nonlinear_arith);
        }
        ci = ci + 1;
    }
    schedule
}

} // verus!
