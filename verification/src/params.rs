use vstd::prelude::*;

use crate::error::FilterError;
use crate::filter::MembershipFilter;

verus! {

/// `ln 2` in unsigned 32.32 fixed point, rounded to nearest.
pub const LN2_Q32: u64 = 2_977_044_472;

/// One unit in unsigned 32.32 fixed point.
pub const ONE_Q32: u64 = 0x1_0000_0000;

/// The numerator `num` doubled until `den < 2 * num`: the denominator of
/// the mantissa of `den / num`.
pub open spec fn spec_scaled(num: int, den: int) -> int
    recommends
        1 <= num <= den,
    decreases den - num when 1 <= num <= den
{
    if den < 2 * num {
        num
    } else {
        spec_scaled(2 * num, den)
    }
}

/// How many doublings `spec_scaled` performs: the integer part of
/// `log2(den / num)`.
pub open spec fn spec_shift(num: int, den: int) -> nat
    recommends
        1 <= num <= den,
    decreases den - num when 1 <= num <= den
{
    if den < 2 * num {
        0
    } else {
        1 + spec_shift(2 * num, den)
    }
}

/// The mantissa of `den / num` in 32.32 fixed point, a value in `[1, 2)`.
pub open spec fn spec_mantissa(num: int, den: int) -> int
    recommends
        1 <= num <= den,
{
    (den * ONE_Q32) / spec_scaled(num, den)
}

/// `steps` rounds of the square-and-compare recurrence that extracts the
/// fractional bits of `log2` of a 32.32 fixed-point mantissa in `[1, 2)`:
/// squaring doubles the logarithm, and a result at or above 2 yields a
/// one bit and is halved. `acc` accumulates the bits, most significant
/// first.
pub open spec fn spec_frac_acc(a: int, steps: nat, acc: int) -> int
    decreases steps,
{
    if steps == 0 {
        acc
    } else {
        let sq = (a * a) / (ONE_Q32 as int);
        if sq >= 2 * ONE_Q32 {
            spec_frac_acc(sq / 2, (steps - 1) as nat, 2 * acc + 1)
        } else {
            spec_frac_acc(sq, (steps - 1) as nat, 2 * acc)
        }
    }
}

/// `log2(den / num)` in 32.32 fixed point, computed from the shift count
/// and 32 fractional bits of the mantissa.
pub open spec fn spec_log2_q32(num: int, den: int) -> int
    recommends
        1 <= num < den,
{
    spec_shift(num, den) * ONE_Q32 + spec_frac_acc(spec_mantissa(num, den), 32, 0)
}

/// The optimal bit count `m = ceil(n * ln(1/p) / (ln 2)^2)`, evaluated in
/// fixed point as `ceil(n * log2(1/p) / ln 2)` with `l = log2(1/p)` in
/// 32.32 fixed point.
pub open spec fn spec_bit_count(n: int, l: int) -> int {
    (n * l + (LN2_Q32 - 1)) / (LN2_Q32 as int)
}

/// The optimal hash count `k = round((m / n) * ln 2)`, clamped to at
/// least one.
pub open spec fn spec_hash_count(m: int, n: int) -> int
    recommends
        n >= 1,
{
    let k = (2 * m * LN2_Q32 + n * ONE_Q32) / (2 * n * ONE_Q32);
    if k < 1 {
        1
    } else {
        k
    }
}

/// Whether an expected element count and a false-positive rate
/// `p_num / p_den` are acceptable at all: the count positive and the
/// rate strictly between zero and one.
pub open spec fn spec_params_valid(n: int, p_num: int, p_den: int) -> bool {
    &&& n >= 1
    &&& p_num >= 1
    &&& p_num < p_den
}

/// The bit count a build computes for these parameters.
pub open spec fn spec_target_bits(n: int, p_num: int, p_den: int) -> int {
    spec_bit_count(n, spec_log2_q32(p_num, p_den))
}

/// The hash count a build computes for these parameters.
pub open spec fn spec_target_hashes(n: int, p_num: int, p_den: int) -> int {
    spec_hash_count(spec_target_bits(n, p_num, p_den), n)
}

/// Whether a build of these parameters succeeds: they are valid, and the
/// computed bit count is at least one (a rate too close to one yields
/// zero) and fits in memory.
pub open spec fn spec_buildable(n: int, p_num: int, p_den: int) -> bool {
    &&& spec_params_valid(n, p_num, p_den)
    &&& 1 <= spec_target_bits(n, p_num, p_den) <= usize::MAX - 7
}

/// Computes `log2(den / num)` in 32.32 fixed point by binary-logarithm
/// bit extraction: double `num` until the ratio is in `[1, 2)`, then
/// square the fixed-point mantissa 32 times, emitting one fractional bit
/// per squaring.
#[verifier::loop_isolation(false)]
fn log2_q32(num: u64, den: u64) -> (r: u64)
    requires
        1 <= num < den,
    ensures
        r == spec_log2_q32(num as int, den as int),
        r < 64 * ONE_Q32,
{
    let den_w: u128 = den as u128;
    let mut scaled: u128 = num as u128;
    let mut e: u64 = 0;
    proof {
        vstd::arithmetic::power2::lemma2_to64();
    }
    while 2 * scaled <= den_w
        invariant
            1 <= scaled <= den_w,
            e <= 63,
            spec_scaled(num as int, den as int) == spec_scaled(scaled as int, den as int),
            spec_shift(num as int, den as int) == e + spec_shift(scaled as int, den as int),
            scaled as int >= vstd::arithmetic::power2::pow2(e as nat),
        decreases den_w - scaled,
    {
        proof {
            vstd::arithmetic::power2::lemma_pow2_unfold((e + 1) as nat);
            assert(e + 1 <= 63) by {
                if e == 63 {
                    vstd::arithmetic::power2::lemma2_to64();
                    vstd::arithmetic::power2::lemma2_to64_rest();
                    assert(2 * scaled as int >= 2 * vstd::arithmetic::power2::pow2(63));
                }
            }
        }
        scaled = 2 * scaled;
        e = e + 1;
    }
    proof {
        assert(scaled == spec_scaled(num as int, den as int));
        assert(e == spec_shift(num as int, den as int));
    }
    proof {
        assert((den_w as int) * (ONE_Q32 as int) < 0x1_0000_0000_0000_0000_0000_0000int);
    }
    let mut a: u128 = (den_w * (ONE_Q32 as u128)) / scaled;
    proof {
        let q = ONE_Q32 as int;
        assert(a >= ONE_Q32) by {
            assert((scaled as int * q) / (scaled as int) == q) by {
                vstd::arithmetic::div_mod::lemma_div_multiples_vanish(q, scaled as int);
            }
            vstd::arithmetic::div_mod::lemma_div_is_ordered(
                scaled as int * q,
                den_w as int * q,
                scaled as int,
            );
        }
        assert(a < 2 * ONE_Q32) by {
            assert(den_w as int * q < (scaled as int) * (2 * q));
            vstd::arithmetic::div_mod::lemma_multiply_divide_lt(
                den_w as int * q,
                scaled as int,
                2 * q,
            );
        }
    }
    let ghost a0 = a as int;
    let mut frac: u64 = 0;
    let mut i: u64 = 0;
    while i < 32
        invariant
            i <= 32,
            ONE_Q32 <= a < 2 * ONE_Q32,
            frac < vstd::arithmetic::power2::pow2(i as nat),
            spec_frac_acc(a0, 32, 0) == spec_frac_acc(a as int, (32 - i) as nat, frac as int),
        decreases 32 - i,
    {
        proof {
            vstd::arithmetic::power2::lemma2_to64();
            vstd::arithmetic::power2::lemma_pow2_unfold((i + 1) as nat);
            if i + 1 < 32 {
                vstd::arithmetic::power2::lemma_pow2_strictly_increases((i + 1) as nat, 32);
            }
            assert(a * a < 4 * (ONE_Q32 as int) * (ONE_Q32 as int)) by (nonlinear_arith)
                requires
                    0 <= a < 2 * ONE_Q32,
            ;
            assert(a * a >= (ONE_Q32 as int) * (ONE_Q32 as int)) by (nonlinear_arith)
                requires
                    a >= ONE_Q32,
            ;
        }
        let sq: u128 = (a * a) / (ONE_Q32 as u128);
        proof {
            let q = ONE_Q32 as int;
            assert(sq >= ONE_Q32) by {
                assert((q * q) / q == q) by {
                    vstd::arithmetic::div_mod::lemma_div_multiples_vanish(q, q);
                }
                vstd::arithmetic::div_mod::lemma_div_is_ordered(q * q, a as int * a as int, q);
            }
            assert(sq < 4 * ONE_Q32) by {
                vstd::arithmetic::div_mod::lemma_multiply_divide_lt(
                    a as int * a as int,
                    q,
                    4 * q,
                );
            }
        }
        if sq >= 2 * (ONE_Q32 as u128) {
            frac = 2 * frac + 1;
            a = sq / 2;
        } else {
            frac = 2 * frac;
            a = sq;
        }
        i = i + 1;
    }
    proof {
        vstd::arithmetic::power2::lemma2_to64();
        assert(frac < ONE_Q32);
        assert(spec_frac_acc(a0, 32, 0) == frac);
    }
    e * ONE_Q32 + frac
}

/// Computes the optimal bit array size and hash function count from an
/// expected element count and a target false-positive rate, and decides
/// between restoring a snapshot and building from scratch.
pub struct FilterBuilder;

impl FilterBuilder {
    /// Computes `(m, k)` for `n` expected elements and a false-positive
    /// rate of `p_num / p_den`, or reports why the parameters are
    /// unusable.
    pub(crate) fn compute_params(n: usize, p_num: u64, p_den: u64) -> (r: Result<
        (usize, usize),
        FilterError,
    >)
        ensures
            !spec_buildable(n as int, p_num as int, p_den as int) ==> r == Err::<
                (usize, usize),
                FilterError,
            >(FilterError::ConfigError),
            spec_buildable(n as int, p_num as int, p_den as int) ==> (r matches Ok(p)
                && p.0 == spec_target_bits(n as int, p_num as int, p_den as int)
                && p.1 == spec_target_hashes(n as int, p_num as int, p_den as int)
                && 1 <= p.1 <= p.0),
    {
        if n == 0 || p_num == 0 || p_num >= p_den {
            return Err(FilterError::ConfigError);
        }
        let l: u64 = log2_q32(p_num, p_den);
        let n128: u128 = n as u128;
        let l128: u128 = l as u128;
        let ln2: u128 = LN2_Q32 as u128;
        let q: u128 = ONE_Q32 as u128;
        proof {
            assert(n128 * l128 <= 0xffff_ffff_ffff_ffff * (64 * 0x1_0000_0000)) by (
            nonlinear_arith)
                requires
                    n128 <= 0xffff_ffff_ffff_ffff,
                    l128 < 64 * 0x1_0000_0000,
            ;
        }
        let m128: u128 = (n128 * l128 + (ln2 - 1)) / ln2;
        if m128 == 0 {
            return Err(FilterError::ConfigError);
        }
        if m128 > (usize::MAX - 7) as u128 {
            return Err(FilterError::ConfigError);
        }
        let m: usize = m128 as usize;
        proof {
            assert(2 * m128 * ln2 + n128 * q <= u128::MAX) by (nonlinear_arith)
                requires
                    m128 <= 0xffff_ffff_ffff_ffff,
                    ln2 < 0x1_0000_0000,
                    q == 0x1_0000_0000,
                    n128 <= 0xffff_ffff_ffff_ffff,
            ;
        }
        let k_num: u128 = 2 * m128 * ln2 + n128 * q;
        let k_den: u128 = 2 * n128 * q;
        let k128: u128 = k_num / k_den;
        proof {
            assert((k_num as int) < (k_den as int) * (m128 + 1)) by (nonlinear_arith)
                requires
                    k_num == 2 * m128 * ln2 + n128 * q,
                    k_den == 2 * n128 * q,
                    ln2 < q,
                    n128 >= 1,
                    m128 >= 1,
                    q >= 1,
            ;
            vstd::arithmetic::div_mod::lemma_multiply_divide_lt(
                k_num as int,
                k_den as int,
                m128 as int + 1,
            );
            assert(k128 <= m128);
        }
        let k: usize = if k128 == 0 {
            1
        } else {
            k128 as usize
        };
        Ok((m, k))
    }

    /// Builds an empty filter for `expected_elements` elements and a
    /// target false-positive rate of `p_num / p_den`, computing
    /// `m = ceil(-(n * ln(p)) / (ln 2)^2)` and `k = round((m / n) * ln 2)`
    /// clamped to `k >= 1`. This formula determines on-disk
    /// compatibility: a snapshot only fits a configuration whose
    /// computed parameters match. Invalid parameters (a zero count, a
    /// rate outside `(0, 1)` or so close to one that no bit is needed,
    /// or a size beyond memory) fail with `ConfigError`.
    pub fn build(expected_elements: usize, p_num: u64, p_den: u64) -> (r: Result<
        MembershipFilter,
        FilterError,
    >)
        ensures
            !spec_buildable(expected_elements as int, p_num as int, p_den as int) ==> r == Err::<
                MembershipFilter,
                FilterError,
            >(FilterError::ConfigError),
            spec_buildable(expected_elements as int, p_num as int, p_den as int) ==> (r matches Ok(
                f,
            ) && f.wf() && f.spec_size() == spec_target_bits(
                expected_elements as int,
                p_num as int,
                p_den as int,
            ) && f.spec_num_hashes() == spec_target_hashes(
                expected_elements as int,
                p_num as int,
                p_den as int,
            ) && f.spec_expected_elements() == expected_elements && f.spec_insert_count() == 0
                && (forall|i: int| 0 <= i < f.spec_size() ==> !f.spec_bits()[i])),
    {
        match Self::compute_params(expected_elements, p_num, p_den) {
            Ok((m, k)) => Ok(MembershipFilter::with_params(m, k, expected_elements)),
            Err(e) => Err(e),
        }
    }
}

} // verus!
