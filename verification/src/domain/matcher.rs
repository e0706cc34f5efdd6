//! Matcher logic for audio fingerprints.
use vstd::prelude::*;

use crate::domain::traits::{FingerprintMatcher, MAX_REFERENCE_LEN};

verus! {

/// Chromaprint's internal hop size in samples at 11025 Hz.
///
/// Chromaprint uses a 4096-sample FFT frame with overlap of `FRAME_SIZE - FRAME_SIZE / 3`,
/// yielding a hop (advance) of `FRAME_SIZE / 3 = 4096 / 3 = 1365` samples (integer division).
/// One fingerprint tick is therefore `1365 / 11025` seconds.
pub const CHROMAPRINT_HOP_SAMPLES: usize = 1365;

/// The number of set bits of `x`.
pub open spec fn popcount(x: u32) -> nat
    decreases x,
{
    if x == 0 {
        0
    } else {
        (x % 2) as nat + popcount(x / 2)
    }
}

/// `2` to the power `k`.
pub open spec fn pow2(k: nat) -> nat
    decreases k,
{
    if k == 0 {
        1
    } else {
        2 * pow2((k - 1) as nat)
    }
}

/// The Hamming error of the first `n` values of `reference` against the target values
/// starting at `k`: the number of differing bits, summed over the aligned pairs.
pub open spec fn partial_error(reference: Seq<u32>, target: Seq<u32>, k: int, n: nat) -> nat
    decreases n,
{
    if n == 0 {
        0
    } else {
        partial_error(reference, target, k, (n - 1) as nat) + popcount(
            target[k + n - 1] ^ reference[n - 1],
        )
    }
}

/// The Hamming error of `reference` against the window of `target` that starts at `k`.
pub open spec fn window_error(reference: Seq<u32>, target: Seq<u32>, k: int) -> nat {
    partial_error(reference, target, k, reference.len())
}

/// Lengths for which a match is searched for: both non-empty, the reference no longer
/// than the target.
pub open spec fn lengths_valid(reference: Seq<u32>, target: Seq<u32>) -> bool {
    reference.len() > 0 && target.len() > 0 && reference.len() <= target.len()
}

/// The start of the last window: windows start at `0..=last_window(reference, target)`.
pub open spec fn last_window(reference: Seq<u32>, target: Seq<u32>) -> int {
    target.len() - reference.len()
}

/// `k` is the first window of least error.
pub open spec fn is_best_window(reference: Seq<u32>, target: Seq<u32>, k: int) -> bool {
    &&& 0 <= k <= last_window(reference, target)
    &&& forall|j: int|
        0 <= j <= last_window(reference, target) ==> #[trigger] window_error(reference, target, j)
            >= window_error(reference, target, k)
    &&& forall|j: int|
        0 <= j < k ==> #[trigger] window_error(reference, target, j) > window_error(
            reference,
            target,
            k,
        )
}

/// What the sliding-window search returns: nothing for invalid lengths; otherwise the first
/// window of least error when that error is within `threshold`, and nothing when every window's
/// error exceeds it.
pub open spec fn match_spec(
    reference: Seq<u32>,
    target: Seq<u32>,
    threshold: u32,
    r: Option<usize>,
) -> bool {
    if !lengths_valid(reference, target) {
        r is None
    } else {
        match r {
            Some(k) => is_best_window(reference, target, k as int) && window_error(
                reference,
                target,
                k as int,
            ) <= threshold,
            None => forall|j: int|
                0 <= j <= last_window(reference, target) ==> #[trigger] window_error(
                    reference,
                    target,
                    j,
                ) > threshold,
        }
    }
}

proof fn lemma_popcount_bound(x: u32, k: nat)
    requires
        x < pow2(k),
    ensures
        popcount(x) <= k,
    decreases k,
{
    if x != 0 {
        assert(k > 0);
        lemma_popcount_bound(x / 2, (k - 1) as nat);
    }
}

proof fn lemma_popcount_le_32(x: u32)
    ensures
        popcount(x) <= 32,
{
    reveal_with_fuel(pow2, 33);
    assert(pow2(32) == 0x1_0000_0000);
    lemma_popcount_bound(x, 32);
}

proof fn lemma_partial_error_bound(reference: Seq<u32>, target: Seq<u32>, k: int, n: nat)
    ensures
        partial_error(reference, target, k, n) <= 32 * n,
    decreases n,
{
    if n > 0 {
        lemma_partial_error_bound(reference, target, k, (n - 1) as nat);
        lemma_popcount_le_32(target[k + n - 1] ^ reference[n - 1]);
    }
}

proof fn lemma_partial_error_zero(reference: Seq<u32>, target: Seq<u32>, k: int, n: nat)
    requires
        n <= reference.len(),
        forall|i: int| 0 <= i < n ==> target[k + i] == reference[i],
    ensures
        partial_error(reference, target, k, n) == 0,
    decreases n,
{
    if n > 0 {
        lemma_partial_error_zero(reference, target, k, (n - 1) as nat);
        let x = target[k + n - 1];
        assert(x ^ x == 0u32) by (bit_vector);
    }
}

/// The number of set bits of `x` (`u32::count_ones`).
pub fn count_ones(x: u32) -> (c: u32)
    ensures
        c == popcount(x),
{
    let mut v = x;
    let mut c: u32 = 0;
    proof { lemma_popcount_le_32(x); }
    while v != 0
        invariant
            c + popcount(v) == popcount(x),
            popcount(x) <= 32,
        decreases v,
    {
        c = c + v % 2;
        v = v / 2;
    }
    c
}

/// Implements a sliding window discrete cross-correlation algorithm.
#[derive(Debug, Default)]
pub struct SlidingWindowMatcher;

impl SlidingWindowMatcher {
    /// Creates a new SlidingWindowMatcher.
    pub fn new() -> (r: Self)
        ensures
            r == SlidingWindowMatcher,
    {
        SlidingWindowMatcher
    }

    /// The Hamming error of `reference` against the window of `target` starting at `k`.
    fn window_error_at(reference: &[u32], target: &[u32], k: usize) -> (e: u32)
        requires
            reference@.len() <= MAX_REFERENCE_LEN,
            k + reference@.len() <= target@.len(),
        ensures
            e == window_error(reference@, target@, k as int),
            e <= 32 * reference@.len(),
    {
        let m = reference.len();
        let mut e: u32 = 0;
        let mut i: usize = 0;
        while i < m
            invariant
                m == reference@.len(),
                m <= MAX_REFERENCE_LEN,
                k + m <= target.len(),
                i <= m,
                e == partial_error(reference@, target@, k as int, i as nat),
            decreases m - i,
        {
            proof {
                lemma_partial_error_bound(reference@, target@, k as int, (i + 1) as nat);
            }
            e = e + count_ones(target[k + i] ^ reference[i]);
            i = i + 1;
        }
        proof {
            lemma_partial_error_bound(reference@, target@, k as int, m as nat);
        }
        e
    }
}

impl FingerprintMatcher for SlidingWindowMatcher {
    /// The outcome of the search is the one its specification gives.
    open spec fn finds(&self, reference: Seq<u32>, target: Seq<u32>, threshold: u32, r: Option<
        usize,
    >) -> bool {
        match_spec(reference, target, threshold, r)
    }

    fn find_match(&self, reference: &[u32], target: &[u32], threshold: u32) -> (r: Option<usize>)
        ensures
            match_spec(reference@, target@, threshold, r),
    {
        if reference.len() == 0 || target.len() == 0 || reference.len() > target.len() {
            return None;
        }
        let m = reference.len();
        let last = target.len() - m;
        let mut min_error: u32 = u32::MAX;
        let mut best: usize = 0;
        let mut k: usize = 0;
        while k <= last
            invariant
                m == reference@.len(),
                m <= MAX_REFERENCE_LEN,
                lengths_valid(reference@, target@),
                last == last_window(reference@, target@),
                last + m == target.len(),
                m >= 1,
                k <= last + 1,
                k > 0 ==> best < k,
                k > 0 ==> min_error == window_error(reference@, target@, best as int),
                forall|j: int|
                    0 <= j < k ==> #[trigger] window_error(reference@, target@, j) >= min_error,
                forall|j: int|
                    0 <= j < best ==> #[trigger] window_error(reference@, target@, j) > min_error,
                k == 0 ==> best == 0 && min_error == u32::MAX,
            decreases last + 1 - k,
        {
            let error = Self::window_error_at(reference, target, k);
            if error < min_error {
                min_error = error;
                best = k;
            }
            k = k + 1;
        }
        if min_error <= threshold {
            Some(best)
        } else {
            None
        }
    }
}

/// At most one result meets the search's specification: the search is deterministic.
pub proof fn law_match_unique(
    reference: Seq<u32>,
    target: Seq<u32>,
    threshold: u32,
    a: Option<usize>,
    b: Option<usize>,
)
    requires
        match_spec(reference, target, threshold, a),
        match_spec(reference, target, threshold, b),
    ensures
        a == b,
{
    if lengths_valid(reference, target) {
        match (a, b) {
            (Some(x), Some(y)) => {
                let ex = window_error(reference, target, x as int);
                let ey = window_error(reference, target, y as int);
                if x < y {
                    assert(ex > ey);
                    assert(ey >= ex);
                } else if y < x {
                    assert(ey > ex);
                    assert(ex >= ey);
                }
            },
            (Some(x), None) => {
                assert(window_error(reference, target, x as int) > threshold);
            },
            (None, Some(y)) => {
                assert(window_error(reference, target, y as int) > threshold);
            },
            (None, None) => {},
        }
    }
}

/// A reference that occurs verbatim in the target (as when a file is scanned against a
/// reference cut from itself) is always found, whatever the threshold: the match is a window
/// of zero error, at or before the occurrence.
pub proof fn law_exact_occurrence_found(
    reference: Seq<u32>,
    target: Seq<u32>,
    threshold: u32,
    k0: int,
    r: Option<usize>,
)
    requires
        reference.len() > 0,
        0 <= k0,
        k0 + reference.len() <= target.len(),
        target.subrange(k0, k0 + reference.len()) == reference,
        match_spec(reference, target, threshold, r),
    ensures
        (r matches Some(j) && j <= k0 && window_error(reference, target, j as int) == 0),
{
    assert forall|i: int| 0 <= i < reference.len() implies target[k0 + i] == reference[i] by {
        assert(target.subrange(k0, k0 + reference.len())[i] == target[k0 + i]);
    }
    lemma_partial_error_zero(reference, target, k0, reference.len());
    assert(window_error(reference, target, k0) == 0);
    match r {
        Some(j) => {
            if j > k0 {
                assert(window_error(reference, target, k0) > window_error(
                    reference,
                    target,
                    j as int,
                ));
            }
            assert(window_error(reference, target, k0) >= window_error(
                reference,
                target,
                j as int,
            ));
        },
        None => {
            assert(window_error(reference, target, k0) > threshold);
        },
    }
}

/// Raising the threshold keeps a match: the match found under a threshold is the match
/// found under any larger one.
pub proof fn law_threshold_monotone(
    reference: Seq<u32>,
    target: Seq<u32>,
    low: u32,
    high: u32,
    a: Option<usize>,
    b: Option<usize>,
)
    requires
        low <= high,
        match_spec(reference, target, low, a),
        match_spec(reference, target, high, b),
        a is Some,
    ensures
        b == a,
{
    assert(match_spec(reference, target, high, a));
    law_match_unique(reference, target, high, a, b);
}

} // verus!
