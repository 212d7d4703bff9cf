//! Baseline index codec: the bijection between linear baseline indices and
//! ordered antenna pairs.
//!
//! Antenna pairs (autocorrelations included) are enumerated in
//! upper-triangular order: for `a1 = 0 .. n`, `a2` ranges over `a1 .. n`.
//! The codec maps a zero-based linear index into that enumeration back to
//! its antenna pair, and an antenna pair forward to its index.

use vstd::prelude::*;

verus! {

/// Total number of baselines (ordered antenna pairs `(a1, a2)` with
/// `a1 <= a2`, autocorrelations included) for `n` antennas.  The rows of
/// the upper-triangular enumeration have lengths `n`, `n - 1`, ..., `1`,
/// so the total is `n * (n + 1) / 2`.
pub open spec fn num_baselines(n: int) -> int
    decreases n,
{
    if n <= 0 {
        0
    } else {
        n + num_baselines(n - 1)
    }
}

/// Linear index of the first pair of row `a1` (the pair `(a1, a1)`) in the
/// enumeration over `n` antennas: the total length of the rows before it.
pub open spec fn row_start(a1: int, n: int) -> int
    decreases a1,
{
    if a1 <= 0 {
        0
    } else {
        row_start(a1 - 1, n) + (n - (a1 - 1))
    }
}

/// Linear index of the pair `(a1, a2)` in the upper-triangular enumeration
/// over `n` antennas: row `a1` begins at `row_start(a1, n)` and holds the
/// pairs `(a1, a1) .. (a1, n - 1)` in order of `a2`.
pub open spec fn pair_index(a1: int, a2: int, n: int) -> int {
    row_start(a1, n) + (a2 - a1)
}

/// The antenna pair at linear index `i` of the enumeration over `n`
/// antennas: row 0 holds the first `n` pairs, and the remaining rows are
/// the enumeration over `n - 1` antennas with both antenna numbers
/// shifted up by one.
pub open spec fn decoded_pair(i: int, n: int) -> (int, int)
    decreases n,
{
    if n <= 0 {
        (0, 0)
    } else if i < n {
        (0, i)
    } else {
        let p = decoded_pair(i - n, n - 1);
        (p.0 + 1, p.1 + 1)
    }
}

pub proof fn lemma_num_baselines_nonneg(n: int)
    ensures
        num_baselines(n) >= 0,
    decreases n,
{
    if n > 0 {
        lemma_num_baselines_nonneg(n - 1);
    }
}

/// The rows before row `k` and the rows from row `k` on together make up
/// the whole enumeration.
pub proof fn lemma_row_start_total(k: int, n: int)
    requires
        0 <= k <= n,
    ensures
        row_start(k, n) + num_baselines(n - k) == num_baselines(n),
    decreases k,
{
    if k > 0 {
        lemma_row_start_total(k - 1, n);
    }
}

proof fn lemma_row_start_shift(k: int, n: int)
    requires
        0 <= k,
    ensures
        row_start(k + 1, n) == n + row_start(k, n - 1),
    decreases k,
{
    if k > 0 {
        lemma_row_start_shift(k - 1, n);
        assert(row_start(k + 1, n) == row_start(k, n) + (n - k));
        assert(row_start(k, n - 1) == row_start(k - 1, n - 1) + (n - k));
    } else {
        assert(row_start(1, n) == row_start(0, n) + n);
        assert(row_start(0, n) == 0);
        assert(row_start(0, n - 1) == 0);
    }
}

/// Round-trip law of the codec: for every antenna count `n >= 1` and every
/// linear baseline index `i` in `[0, num_baselines(n))`, decoding `i` gives
/// an ordered in-range antenna pair, and re-encoding that pair with
/// `pair_index` returns `i`.
pub proof fn lemma_decode_encode_round_trip(i: int, n: int)
    ensures
        1 <= n && 0 <= i < num_baselines(n) ==> ({
            let p = decoded_pair(i, n);
            0 <= p.0 <= p.1 < n && pair_index(p.0, p.1, n) == i
        }),
    decreases n,
{
    if 1 <= n && 0 <= i < num_baselines(n) {
        if i < n {
            assert(decoded_pair(i, n) == (0int, i));
        } else {
            assert(num_baselines(n) == n + num_baselines(n - 1));
            lemma_decode_encode_round_trip(i - n, n - 1);
            let p = decoded_pair(i - n, n - 1);
            lemma_row_start_shift(p.0, n);
            assert(decoded_pair(i, n) == (p.0 + 1, p.1 + 1));
        }
    }
}

/// Decode a linear baseline index into its ordered antenna pair.
///
/// Walks `a1` upward from row 0, peeling one row of the enumeration off
/// the index at each step, until the remainder falls inside the current
/// row; the remainder is then the offset of `a2` from `a1`.
pub fn decode_baseline(baseline_index: usize, num_antennas: usize) -> (r: (usize, usize))
    requires
        1 <= num_antennas,
        (baseline_index as int) < num_baselines(num_antennas as int),
    ensures
        r.0 <= r.1 < num_antennas,
        (r.0 as int, r.1 as int) == decoded_pair(baseline_index as int, num_antennas as int),
        pair_index(r.0 as int, r.1 as int, num_antennas as int) == baseline_index as int,
{
    let n = num_antennas;
    let mut a1: usize = 0;
    let mut rem: usize = baseline_index;
    while rem >= n - a1
        invariant
            1 <= n == num_antennas,
            a1 < n,
            row_start(a1 as int, n as int) + rem == baseline_index as int,
            (rem as int) < num_baselines((n - a1) as int),
            decoded_pair(baseline_index as int, n as int).0 == decoded_pair(
                rem as int,
                (n - a1) as int,
            ).0 + a1,
            decoded_pair(baseline_index as int, n as int).1 == decoded_pair(
                rem as int,
                (n - a1) as int,
            ).1 + a1,
        decreases n - a1,
    {
        proof {
            let m = (n - a1) as int;
            assert(num_baselines(m) == m + num_baselines(m - 1));
            assert(decoded_pair(rem as int, m) == (
                decoded_pair(rem as int - m, m - 1).0 + 1,
                decoded_pair(rem as int - m, m - 1).1 + 1,
            ));
        }
        rem = rem - (n - a1);
        a1 = a1 + 1;
        proof {
            if a1 == n {
                assert(num_baselines(0) == 0);
                assert(false);
            }
        }
    }
    proof {
        let m = (n - a1) as int;
        assert(decoded_pair(rem as int, m) == (0int, rem as int));
    }
    (a1, a1 + rem)
}

/// Decide whether `count` baselines fit the enumeration over
/// `num_antennas` antennas, without computing the (possibly huge) total:
/// rows are peeled off `count` until it falls inside one or the rows run
/// out.
pub fn baseline_count_at_most(count: usize, num_antennas: usize) -> (r: bool)
    ensures
        r == (count as int <= num_baselines(num_antennas as int)),
{
    let n = num_antennas;
    let mut remaining = count;
    let mut k: usize = 0;
    while k < n && remaining > n - k
        invariant
            k <= n,
            row_start(k as int, n as int) + remaining == count as int,
        decreases n - k,
    {
        remaining = remaining - (n - k);
        k = k + 1;
    }
    proof {
        lemma_row_start_total(k as int, n as int);
        if k < n {
            let m = (n - k) as int;
            assert(num_baselines(m) == m + num_baselines(m - 1));
            lemma_num_baselines_nonneg(m - 1);
        }
    }
    k < n || remaining == 0
}

/// Encode an ordered antenna pair as its linear baseline index: the
/// inverse of `decode_baseline`.
///
/// The bound `num_baselines(num_antennas) <= usize::MAX` keeps the row
/// summation within machine range.
pub fn encode_baseline(ant1: usize, ant2: usize, num_antennas: usize) -> (r: usize)
    requires
        ant1 <= ant2 < num_antennas,
        num_baselines(num_antennas as int) <= usize::MAX,
    ensures
        r as int == pair_index(ant1 as int, ant2 as int, num_antennas as int),
{
    let n = num_antennas;
    let mut idx: usize = 0;
    let mut k: usize = 0;
    while k < ant1
        invariant
            k <= ant1 <= ant2 < n == num_antennas,
            idx as int == row_start(k as int, n as int),
            num_baselines(n as int) <= usize::MAX,
        decreases ant1 - k,
    {
        proof {
            lemma_row_start_total(k as int + 1, n as int);
            lemma_num_baselines_nonneg((n - k - 1) as int);
        }
        idx = idx + (n - k);
        k = k + 1;
    }
    proof {
        lemma_row_start_total(k as int + 1, n as int);
        lemma_num_baselines_nonneg((n - k - 1) as int);
    }
    idx + (ant2 - ant1)
}

} // verus!
