use vstd::prelude::*;

verus! {

use vstd::arithmetic::div_mod::{
    lemma_div_is_ordered, lemma_div_multiples_vanish, lemma_fundamental_div_mod,
    lemma_fundamental_div_mod_converse_div, lemma_mod_division_less_than_divisor,
    lemma_mod_multiples_basic,
};
use vstd::arithmetic::mul::{lemma_mul_inequality, lemma_mul_is_commutative};

/// Linear interpolation between the neighboring samples `a` and `b` at the
/// fractional position `num / den`, with the quotient rounded toward `a`.
pub open spec fn lerp(a: int, b: int, num: int, den: int) -> int
    recommends
        den >= 1,
        0 <= num < den,
{
    if b >= a {
        a + (b - a) * num / den
    } else {
        a - (a - b) * num / den
    }
}

/// Length of the signal that resampling a signal of length `len` from rate
/// `rate_in` to rate `rate_out` produces.
pub open spec fn resampled_len(len: int, rate_in: int, rate_out: int) -> int
    recommends
        rate_in >= 1,
        rate_out >= 1,
{
    len * rate_out / rate_in
}

/// Index of the source sample on which output position `j` is based.
pub open spec fn source_index(j: int, rate_in: int, rate_out: int) -> int
    recommends
        rate_in >= 1,
        rate_out >= 1,
{
    j * rate_in / rate_out
}

/// Numerator of the fractional offset (over `rate_out`) of output position
/// `j` past its source sample.
pub open spec fn source_frac(j: int, rate_in: int, rate_out: int) -> int
    recommends
        rate_in >= 1,
        rate_out >= 1,
{
    j * rate_in % rate_out
}

/// Value of the resampled signal at output position `j`: the linear
/// interpolation between the source sample under `j` and its right neighbor,
/// the final sample interpolating toward itself.
pub open spec fn resampled_at(s: Seq<i16>, rate_in: int, rate_out: int, j: int) -> int
    recommends
        rate_in >= 1,
        rate_out >= 1,
        0 <= j < resampled_len(s.len() as int, rate_in, rate_out),
{
    let i = source_index(j, rate_in, rate_out);
    let a = s[i] as int;
    let b = if i + 1 < s.len() {
        s[i + 1] as int
    } else {
        a
    };
    lerp(a, b, source_frac(j, rate_in, rate_out), rate_out)
}

/// The interpolated value never leaves the closed interval spanned by its
/// two neighbors.
pub proof fn lemma_lerp_bounds(a: int, b: int, num: int, den: int)
    by (nonlinear_arith)
    requires
        den >= 1,
        0 <= num < den,
    ensures
        b >= a ==> a <= lerp(a, b, num, den) <= b,
        b < a ==> b <= lerp(a, b, num, den) <= a,
{
}

/// Every output position of a resampled signal rests on a source sample that
/// exists, with a fractional offset below one sample step.
proof fn lemma_source_index_in_range(len: int, rate_in: int, rate_out: int, j: int)
    requires
        rate_in >= 1,
        rate_out >= 1,
        len >= 0,
        0 <= j < resampled_len(len, rate_in, rate_out),
    ensures
        j * rate_in + rate_in <= len * rate_out,
        0 <= source_index(j, rate_in, rate_out) < len,
        0 <= source_frac(j, rate_in, rate_out) < rate_out,
{
    let n = resampled_len(len, rate_in, rate_out);
    lemma_fundamental_div_mod(len * rate_out, rate_in);
    lemma_mod_division_less_than_divisor(len * rate_out, rate_in);
    assert(rate_in * n <= len * rate_out);
    lemma_mul_inequality(j + 1, n, rate_in);
    lemma_mul_is_commutative(n, rate_in);
    assert((j + 1) * rate_in == j * rate_in + rate_in) by (nonlinear_arith);
    assert(j * rate_in + rate_in <= len * rate_out);
    lemma_mod_division_less_than_divisor(j * rate_in, rate_out);
    assert(j * rate_in >= 0) by (nonlinear_arith)
        requires
            j >= 0,
            rate_in >= 1,
    ;
    vstd::arithmetic::div_mod::lemma_div_pos_is_pos(j * rate_in, rate_out);
    // The source index stays strictly below `len`.
    assert(len >= 1) by {
        if len == 0 {
            assert(j * rate_in + rate_in <= 0);
        }
    }
    assert(j * rate_in <= len * rate_out - rate_in <= len * rate_out - 1);
    lemma_div_is_ordered(j * rate_in, len * rate_out - 1, rate_out);
    assert(len * rate_out - 1 == (len - 1) * rate_out + (rate_out - 1)) by (nonlinear_arith);
    lemma_fundamental_div_mod_converse_div(len * rate_out - 1, rate_out, len - 1, rate_out - 1);
    assert((len * rate_out - 1) / rate_out == len - 1);
}

/// Resampling a signal to its own rate reproduces it exactly, sample for
/// sample: the identity conversion introduces no interpolation error.
pub proof fn lemma_identity_resample(s: Seq<i16>, rate: int)
    requires
        rate >= 1,
    ensures
        resampled_len(s.len() as int, rate, rate) == s.len(),
        forall|j: int|
            0 <= j < s.len() ==> resampled_at(s, rate, rate, j) == s[j] as int,
{
    lemma_div_multiples_vanish(s.len() as int, rate);
    lemma_mul_is_commutative(s.len() as int, rate);
    assert forall|j: int| 0 <= j < s.len() implies resampled_at(s, rate, rate, j) == s[j] as int by {
        lemma_div_multiples_vanish(j, rate);
        lemma_mul_is_commutative(j, rate);
        lemma_mod_multiples_basic(j, rate);
        assert(source_index(j, rate, rate) == j);
        assert(source_frac(j, rate, rate) == 0);
        let a = s[j] as int;
        let b = if j + 1 < s.len() {
            s[j + 1] as int
        } else {
            a
        };
        assert(lerp(a, b, 0, rate) == a);
    }
}

/// Linear interpolation between two samples, computed exactly as `lerp`
/// states it.
fn lerp_exec(a: i16, b: i16, num: u32, den: u32) -> (r: i16)
    requires
        den >= 1,
        num < den,
    ensures
        r as int == lerp(a as int, b as int, num as int, den as int),
{
    proof {
        lemma_lerp_bounds(a as int, b as int, num as int, den as int);
    }
    if b >= a {
        let delta: u64 = (b as i64 - a as i64) as u64;
        proof {
            lemma_scaled_delta_fits(delta as int, num as int);
        }
        let q: u64 = delta * (num as u64) / (den as u64);
        proof {
            lemma_step_below_delta(delta as int, num as int, den as int);
        }
        (a as i64 + q as i64) as i16
    } else {
        let delta: u64 = (a as i64 - b as i64) as u64;
        proof {
            lemma_scaled_delta_fits(delta as int, num as int);
        }
        let q: u64 = delta * (num as u64) / (den as u64);
        proof {
            lemma_step_below_delta(delta as int, num as int, den as int);
        }
        (a as i64 - q as i64) as i16
    }
}

/// The product of a sample distance and a fractional numerator stays far
/// below the unsigned machine-word bound.
proof fn lemma_scaled_delta_fits(delta: int, num: int)
    by (nonlinear_arith)
    requires
        0 <= delta <= 0x10000,
        0 <= num < 0x100000000,
    ensures
        delta * num <= u64::MAX,
{
}

/// A fractional step of less than one never exceeds the distance between the
/// two neighbors.
proof fn lemma_step_below_delta(delta: int, num: int, den: int)
    requires
        delta >= 0,
        den >= 1,
        0 <= num < den,
    ensures
        0 <= delta * num / den <= delta,
        delta * num <= delta * den,
{
    lemma_mul_inequality(num, den, delta);
    lemma_mul_is_commutative(num, delta);
    lemma_mul_is_commutative(den, delta);
    lemma_div_is_ordered(delta * num, delta * den, den);
    lemma_mul_is_commutative(delta, den);
    lemma_div_multiples_vanish(delta, den);
    assert(delta * num >= 0) by (nonlinear_arith)
        requires
            delta >= 0,
            num >= 0,
    ;
    vstd::arithmetic::div_mod::lemma_div_pos_is_pos(delta * num, den);
}

/// Resamples a finite mono signal from `rate_in` to `rate_out` by linear
/// interpolation. The conversion between equal rates is an identity copy; an
/// empty input yields an empty output.
pub fn resample(input: &Vec<i16>, rate_in: u32, rate_out: u32) -> (out: Vec<i16>)
    requires
        rate_in >= 1,
        rate_out >= 1,
        input@.len() * rate_out as int <= usize::MAX as int,
    ensures
        out@.len() == resampled_len(input@.len() as int, rate_in as int, rate_out as int),
        forall|j: int|
            0 <= j < out@.len()
                ==> out@[j] as int == resampled_at(input@, rate_in as int, rate_out as int, j),
{
    let len: usize = input.len();
    if rate_in == rate_out {
        proof {
            lemma_identity_resample(input@, rate_in as int);
        }
        let mut out: Vec<i16> = Vec::new();
        let mut j: usize = 0;
        while j < len
            invariant
                j <= len,
                len == input@.len(),
                out@.len() == j,
                forall|k: int| 0 <= k < j ==> out@[k] == input@[k],
            decreases len - j,
        {
            out.push(input[j]);
            j = j + 1;
        }
        out
    } else {
        let n_out: usize = len * (rate_out as usize) / (rate_in as usize);
        proof {
            assert(n_out as int == resampled_len(len as int, rate_in as int, rate_out as int));
        }
        let mut out: Vec<i16> = Vec::new();
        let mut j: usize = 0;
        while j < n_out
            invariant
                j <= n_out,
                rate_in >= 1,
                rate_out >= 1,
                len == input@.len(),
                len * rate_out as int <= usize::MAX as int,
                n_out as int == resampled_len(len as int, rate_in as int, rate_out as int),
                out@.len() == j,
                forall|k: int|
                    0 <= k < j
                        ==> out@[k] as int == resampled_at(
                            input@, rate_in as int, rate_out as int, k),
            decreases n_out - j,
        {
            proof {
                lemma_source_index_in_range(len as int, rate_in as int, rate_out as int, j as int);
            }
            let pos: usize = j * (rate_in as usize);
            let idx: usize = pos / (rate_out as usize);
            let frac: u32 = (pos % (rate_out as usize)) as u32;
            let a: i16 = input[idx];
            let b: i16 = if idx + 1 < len {
                input[idx + 1]
            } else {
                a
            };
            let v: i16 = lerp_exec(a, b, frac, rate_out);
            out.push(v);
            j = j + 1;
        }
        out
    }
}

} // verus!
