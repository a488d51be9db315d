//! Grid arithmetic: the power-of-two rule and the FFT bin layout.
use vstd::prelude::*;
use vstd::arithmetic::power2::pow2;
use vstd::arithmetic::power2::lemma_pow2_unfold;
use vstd::arithmetic::power2::lemma_pow2_strictly_increases;
use vstd::arithmetic::power2::lemma2_to64;

verus! {

/// `n` is a power of two: `n == 2^k` for some `k`.
pub open spec fn is_power_of_two(n: nat) -> bool {
    exists|k: nat| pow2(k) == n
}

/// Whether `n` is a power of two (`1, 2, 4, ...`; `0` is not).
pub fn is_pow2(n: usize) -> (b: bool)
    ensures
        b == is_power_of_two(n as nat),
{
    let mut p: usize = 1;
    let ghost mut k: nat = 0;
    proof {
        lemma2_to64();
    }
    while p < n
        invariant
            p == pow2(k),
            p >= 1,
            k == 0 || pow2((k - 1) as nat) < n,
        decreases usize::MAX - p,
    {
        if p > usize::MAX / 2 {
            proof {
                assert forall|j: nat| pow2(j) != n by {
                    if j > k {
                        lemma_pow2_unfold((k + 1) as nat);
                        if j > k + 1 {
                            lemma_pow2_strictly_increases((k + 1) as nat, j);
                        }
                    } else if j < k {
                        lemma_pow2_strictly_increases(j, k);
                    }
                }
            }
            return false;
        }
        proof {
            lemma_pow2_unfold((k + 1) as nat);
        }
        p = p * 2;
        proof {
            k = k + 1;
        }
    }
    proof {
        if p != n {
            assert forall|j: nat| pow2(j) != n by {
                if j > k {
                    lemma_pow2_strictly_increases(k, j);
                } else if j < k {
                    if j < (k - 1) as nat {
                        lemma_pow2_strictly_increases(j, (k - 1) as nat);
                    }
                }
            }
        }
    }
    p == n
}

/// Signed frequency bin of position `i` of an `n`-point FFT, in FFT order:
/// `0, 1, ..., ceil(n/2) - 1` followed by `-floor(n/2), ..., -1`.
pub open spec fn fft_bin(i: int, n: int) -> int {
    if i < (n + 1) / 2 {
        i
    } else {
        i - n
    }
}

/// Signed frequency bins of an `n`-point FFT, in FFT order. Multiplied by
/// `1 / (n · d)` they give the sample frequencies for sample spacing `d`.
pub fn fft_bins(n: usize) -> (bins: Vec<i64>)
    requires
        n <= i64::MAX,
    ensures
        bins@.len() == n,
        forall|i: int| 0 <= i < n ==> #[trigger] bins@[i] == fft_bin(i, n as int),
{
    let half: usize = n / 2 + n % 2;
    let mut bins: Vec<i64> = Vec::new();
    let mut i: usize = 0;
    while i < n
        invariant
            i <= n,
            n <= i64::MAX,
            half == (n + 1) / 2,
            bins@.len() == i,
            forall|j: int| 0 <= j < i ==> #[trigger] bins@[j] == fft_bin(j, n as int),
        decreases n - i,
    {
        let k: i64 = if i < half {
            i as i64
        } else {
            i as i64 - n as i64
        };
        bins.push(k);
        i = i + 1;
    }
    bins
}

/// Every bin is the representative of its position modulo `n` that lies in
/// `[-floor(n/2), ceil(n/2))`.
pub proof fn lemma_fft_bin_is_centered_residue(i: int, n: int)
    requires
        0 <= i < n,
    ensures
        -(n / 2) <= fft_bin(i, n) < (n + 1) / 2,
        (fft_bin(i, n) - i) % n == 0,
{
    if i >= (n + 1) / 2 {
        assert((fft_bin(i, n) - i) == -n);
        vstd::arithmetic::div_mod::lemma_mod_self_0(n);
        vstd::arithmetic::div_mod::lemma_mod_multiples_vanish(-1, 0, n);
        assert(-1 * n + 0 == -n);
    } else {
        vstd::arithmetic::div_mod::lemma_small_mod(0, n as nat);
    }
}

} // verus!
