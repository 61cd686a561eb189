use vstd::prelude::*;

use crate::number::{
    div_round_half_even, div_round_half_even_exec, hundredths, int_as_f64, int_as_f64_exec,
    lemma_rounding_error, lemma_two_pow_mono, push_hundredths, two_pow,
};
use crate::text::{decimal, push_char, push_decimal};

verus! {

/// The least `k >= from` (at most 64) with `a * 2^k / b >= 2^52`: how far the quotient
/// `a / b` must be scaled to fill a double's 53-bit significand.
pub open spec fn scale_from(a: nat, b: nat, from: nat) -> nat
    decreases 64 - from,
{
    if from >= 64 || (a * two_pow(from)) / b >= 0x10_0000_0000_0000 {
        from
    } else {
        scale_from(a, b, from + 1)
    }
}

/// The exponent `k` with which the double nearest to `a / b` is `m / 2^k`.
pub open spec fn quotient_scale(a: nat, b: nat) -> nat {
    scale_from(a, b, 0)
}

/// The significand `m` of the double nearest to `a / b` (ties to even), scaled by
/// `2^quotient_scale(a, b)`: the value of `a as f64 / b as f64` for `1 <= a / b < 2^53`.
pub open spec fn quotient_significand(a: nat, b: nat) -> nat {
    div_round_half_even(a * two_pow(quotient_scale(a, b)), b)
}

/// Hundredths in `{:.2}` of the double nearest to `a / b`.
pub open spec fn quotient_hundredths(a: nat, b: nat) -> nat {
    div_round_half_even(quotient_significand(a, b) * 100, two_pow(quotient_scale(a, b)))
}

/// The text shown for a packet count: the number itself below 1000, thousands with two
/// decimals and `k` below a million, millions with two decimals and `m` above.
pub open spec fn count_text(count: nat) -> Seq<char> {
    if count < 1000 {
        decimal(count)
    } else if count < 1_000_000 {
        hundredths(quotient_hundredths(count, 1000)).push('k')
    } else {
        hundredths(quotient_hundredths(int_as_f64(count), 1_000_000)).push('m')
    }
}

proof fn lemma_two_pow_step(k: nat)
    ensures
        two_pow(k + 1) == 2 * two_pow(k),
        two_pow(k) >= 1,
    decreases k,
{
    if k > 0 {
        lemma_two_pow_step((k - 1) as nat);
    }
}

proof fn lemma_two_pow_52()
    ensures
        two_pow(52) == 0x10_0000_0000_0000,
{
    reveal_with_fuel(two_pow, 53);
}

/// Hundredths of the double nearest to `a / b`.
fn quotient_hundredths_exec(a: u128, b: u128) -> (n: u64)
    requires
        b > 0,
        a >= b,
        a <= 0x1_0000_0000_0000_0000,
        a / b < 0x1_0000_0000_0000,
    ensures
        n == quotient_hundredths(a as nat, b as nat),
{
    let mut k: u32 = 0;
    let mut p: u128 = 1;
    proof {
        lemma_two_pow_52();
        assert(a as int * 1 <= 0x1_0000_0000_0000_0000 * 0x10_0000_0000_0000);
    }
    while (a * p) / b < 0x10_0000_0000_0000
        invariant
            b > 0,
            a >= b,
            a <= 0x1_0000_0000_0000_0000,
            k <= 52,
            p == two_pow(k as nat),
            two_pow(52) == 0x10_0000_0000_0000,
            p <= 0x10_0000_0000_0000,
            a as int * p as int <= 0x1_0000_0000_0000_0000 * 0x10_0000_0000_0000,
            scale_from(a as nat, b as nat, 0) == scale_from(a as nat, b as nat, k as nat),
        decreases 52 - k,
    {
        proof {
            lemma_two_pow_step(k as nat);
            if k == 52 {
                assert((a as int * p as int) / (b as int) >= p as int) by (nonlinear_arith)
                    requires a >= b, b > 0, p >= 1;
            }
            assert(a * p <= 0x1_0000_0000_0000_0000 * 0x10_0000_0000_0000) by (nonlinear_arith)
                requires a <= 0x1_0000_0000_0000_0000, p <= 0x10_0000_0000_0000;
        }
        k = k + 1;
        p = p * 2;
        proof {
            lemma_two_pow_mono(k as nat, 52);
            assert(a as int * p as int <= 0x1_0000_0000_0000_0000 * 0x10_0000_0000_0000)
                by (nonlinear_arith)
                requires a <= 0x1_0000_0000_0000_0000, p <= 0x10_0000_0000_0000;
        }
    }
    proof {
        lemma_two_pow_step(k as nat);
        assert(a * p <= 0x1_0000_0000_0000_0000 * 0x10_0000_0000_0000) by (nonlinear_arith)
            requires a <= 0x1_0000_0000_0000_0000, p <= 0x10_0000_0000_0000;
    }
    assert(quotient_scale(a as nat, b as nat) == k);
    let m = div_round_half_even_exec(a * p, b);
    proof {
        // The scaled quotient stays below 2^53 + 1: either no scaling was needed
        // (the quotient is below 2^48) or the previous scale left it below 2^52.
        if k == 0 {
            assert(a * p == a);
        } else {
            let pp = two_pow((k - 1) as nat);
            lemma_two_pow_step((k - 1) as nat);
            assert(k - 1 < k);
            assert(scale_from(a as nat, b as nat, (k - 1) as nat) == k) by {
                assert(scale_from(a as nat, b as nat, 0) == k);
                lemma_scale_stops(a as nat, b as nat, (k - 1) as nat, k as nat);
            }
            assert((a as int * pp as int) / (b as int) < 0x10_0000_0000_0000) by {
                if (a as int * pp as int) / (b as int) >= 0x10_0000_0000_0000 {
                    assert(scale_from(a as nat, b as nat, (k - 1) as nat) == (k - 1) as nat);
                }
            }
            assert((a as int * p as int) / (b as int) <= 2 * ((a as int * pp as int) / (b as int)) + 1)
                by (nonlinear_arith)
                requires p == 2 * pp, b > 0;
        }
    }
    assert(m <= 0x20_0000_0000_0000);
    let n = div_round_half_even_exec(m * 100, p);
    assert((m as int * 100) / (p as int) <= m as int * 100) by (nonlinear_arith)
        requires p >= 1, m >= 0;
    assert(n <= m * 100 + 1);
    n as u64
}

/// `scale_from` stepping: from any start at or below the result, the result is the same.
proof fn lemma_scale_stops(a: nat, b: nat, j: nat, k: nat)
    requires
        j < k,
        k <= 52,
        scale_from(a, b, 0) == k,
    ensures
        scale_from(a, b, j) == k,
{
    lemma_scale_prefix(a, b, 0, j, k);
}

proof fn lemma_scale_prefix(a: nat, b: nat, i: nat, j: nat, k: nat)
    requires
        i <= j < k,
        k <= 52,
        scale_from(a, b, i) == k,
    ensures
        scale_from(a, b, j) == k,
    decreases j - i,
{
    if i < j {
        assert(scale_from(a, b, i) == scale_from(a, b, i + 1)) by {
            if (a * two_pow(i)) / b >= 0x10_0000_0000_0000 {
                assert(scale_from(a, b, i) == i);
            }
        }
        lemma_scale_prefix(a, b, i + 1, j, k);
    }
}

/// Converts the total packet count to the text shown for it: the number below 1000,
/// `"<x.xx>k"` below a million, `"<x.xx>m"` from there on, the two decimals rounded as
/// `{:.2}` rounds `count as f64 / 1000.0` (or `/ 1000000.0`).
pub fn convert_packet_count_to_str(count: usize) -> (r: String)
    ensures
        r@ == count_text(count as nat),
{
    let mut s = String::new();
    if count < 1000 {
        push_decimal(&mut s, count as u64);
    } else if count >= 1000 && count < 1_000_000 {
        let n = quotient_hundredths_exec(count as u128, 1000);
        push_hundredths(&mut s, n);
        push_char(&mut s, 'k');
    } else {
        let f = int_as_f64_exec(count as u64);
        let n = quotient_hundredths_exec(f, 1_000_000);
        push_hundredths(&mut s, n);
        push_char(&mut s, 'm');
    }
    s
}

/// Counts below 1000 are written exactly; from 1000 the text ends in `k`, from a
/// million in `m`.
pub proof fn lemma_count_text_units(count: nat)
    ensures
        count < 1000 ==> count_text(count) == decimal(count),
        1000 <= count < 1_000_000 ==> count_text(count).last() == 'k',
        count >= 1_000_000 ==> count_text(count).last() == 'm',
{
}

proof fn lemma_scale_reached(a: nat, b: nat, from: nat)
    requires
        b > 0,
        a >= b,
        from <= 52,
    ensures
        scale_from(a, b, from) <= 52,
        (a * two_pow(scale_from(a, b, from))) / b >= 0x10_0000_0000_0000,
    decreases 64 - from,
{
    if (a * two_pow(from)) / b >= 0x10_0000_0000_0000 {
    } else if from == 52 {
        lemma_two_pow_52();
        assert((a * two_pow(52)) / b >= two_pow(52)) by (nonlinear_arith)
            requires a >= b, b > 0, two_pow(52) >= 1;
    } else {
        lemma_scale_reached(a, b, from + 1);
    }
}

/// Between a thousand and a million, the `k` figure is within half a hundredth of
/// `count / 1000`: the hundredths `n` shown satisfy `|n / 100 - count / 1000| <= 1 / 200`.
pub proof fn lemma_count_kilo_within_half_hundredth(count: nat)
    requires
        1000 <= count < 1_000_000,
    ensures
        2 * quotient_hundredths(count, 1000) * 1000 <= 200 * count + 1000,
        200 * count <= 2 * quotient_hundredths(count, 1000) * 1000 + 1000,
{
    let k = quotient_scale(count, 1000);
    let p = two_pow(k);
    lemma_scale_reached(count, 1000, 0);
    lemma_two_pow_mono(0, k);
    assert(p > 100_000) by (nonlinear_arith)
        requires (count * p) / 1000 >= 0x10_0000_0000_0000, count < 1_000_000;
    let m = quotient_significand(count, 1000);
    let n = quotient_hundredths(count, 1000);
    lemma_rounding_error(count * p, 1000);
    lemma_rounding_error(m * 100, p);
    let c = count;
    assert(2 * n * p * 1000 <= 200 * c * p + 100_000 + 1000 * p) by (nonlinear_arith)
        requires
            2 * (c * p) <= 2 * m * 1000 + 1000,
            2 * m * 1000 <= 2 * (c * p) + 1000,
            2 * (m * 100) <= 2 * n * p + p,
            2 * n * p <= 2 * (m * 100) + p;
    assert(200 * c * p <= 2 * n * p * 1000 + 100_000 + 1000 * p) by (nonlinear_arith)
        requires
            2 * (c * p) <= 2 * m * 1000 + 1000,
            2 * m * 1000 <= 2 * (c * p) + 1000,
            2 * (m * 100) <= 2 * n * p + p,
            2 * n * p <= 2 * (m * 100) + p;
    assert(2 * n * 1000 <= 200 * c + 1000) by (nonlinear_arith)
        requires 2 * n * p * 1000 <= 200 * c * p + 100_000 + 1000 * p, p > 100_000;
    assert(200 * c <= 2 * n * 1000 + 1000) by (nonlinear_arith)
        requires 200 * c * p <= 2 * n * p * 1000 + 100_000 + 1000 * p, p > 100_000;
}

} // verus!
