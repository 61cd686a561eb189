use vstd::prelude::*;

use crate::text::{decimal, digit_char, push_char, push_decimal};

verus! {

/// `2^e`.
pub open spec fn two_pow(e: nat) -> nat
    decreases e,
{
    if e == 0 {
        1
    } else {
        2 * two_pow((e - 1) as nat)
    }
}

/// `a / b` rounded to the nearest integer, a tie going to the even neighbour.
pub open spec fn div_round_half_even(a: nat, b: nat) -> nat {
    let q = a / b;
    let r = a % b;
    if 2 * r > b || (2 * r == b && q % 2 == 1) {
        q + 1
    } else {
        q
    }
}

/// How many low bits of `n` a double cannot hold: the least `s` with `n / 2^s < 2^53`.
pub open spec fn f64_shift(n: nat) -> nat
    decreases n,
{
    if n < 0x20_0000_0000_0000 {
        0
    } else {
        1 + f64_shift(n / 2)
    }
}

/// The value of `n as f64`: `n` rounded to 53 significant bits, ties to even.
pub open spec fn int_as_f64(n: nat) -> nat {
    let p = two_pow(f64_shift(n));
    p * div_round_half_even(n, p)
}

/// A count of hundredths written as `<units>.<two digits>`, the way `{:.2}` writes it.
pub open spec fn hundredths(n: nat) -> Seq<char> {
    decimal(n / 100) + seq!['.', digit_char((n / 10) % 10), digit_char(n % 10)]
}

pub proof fn lemma_two_pow_mono(a: nat, b: nat)
    requires
        a <= b,
    ensures
        1 <= two_pow(a) <= two_pow(b),
    decreases b,
{
    if b > a {
        lemma_two_pow_mono(a, (b - 1) as nat);
    } else if a > 0 {
        lemma_two_pow_mono(0, (a - 1) as nat);
    }
}

/// Rounding to the nearest integer is off by at most half: `|q * b - a| <= b / 2`.
pub proof fn lemma_rounding_error(a: nat, b: nat)
    requires
        b > 0,
    ensures
        2 * a <= 2 * div_round_half_even(a, b) * b + b,
        2 * div_round_half_even(a, b) * b <= 2 * a + b,
{
    let q = a / b;
    let r = a % b;
    let qb = q * b;
    assert(a == qb + r && r < b) by (nonlinear_arith)
        requires b > 0, q == a / b, r == a % b, qb == q * b;
    assert(2 * (q + 1) * b == 2 * qb + 2 * b) by (nonlinear_arith)
        requires qb == q * b;
    assert(2 * q * b == 2 * qb) by (nonlinear_arith)
        requires qb == q * b;
}

/// Integers below `2^53` are doubles already: casting them loses nothing.
pub proof fn lemma_int_as_f64_exact(n: nat)
    requires
        n < 0x20_0000_0000_0000,
    ensures
        int_as_f64(n) == n,
{
    assert(f64_shift(n) == 0);
    assert(two_pow(0) == 1);
    assert(n / 1 == n && n % 1 == 0);
}

/// Computes `div_round_half_even(a, b)`.
pub fn div_round_half_even_exec(a: u128, b: u128) -> (q: u128)
    requires
        b > 0,
        a / b < u128::MAX,
    ensures
        q == div_round_half_even(a as nat, b as nat),
{
    let q = a / b;
    let r = a % b;
    if r > b - r || (r == b - r && q % 2 == 1) {
        q + 1
    } else {
        q
    }
}

/// Computes `int_as_f64(n)`, the value of `n as f64`.
pub fn int_as_f64_exec(n: u64) -> (f: u128)
    ensures
        f == int_as_f64(n as nat),
        f <= 0x1_0000_0000_0000_0000,
        n < 0x20_0000_0000_0000 ==> f == n,
        n >= 0x20_0000_0000_0000 ==> f >= 0x10_0000_0000_0000,
{
    let mut m: u64 = n;
    let mut p: u128 = 1;
    let ghost mut s: nat = 0;
    while m >= 0x20_0000_0000_0000
        invariant
            p == two_pow(s),
            m == n as nat / p as nat,
            f64_shift(n as nat) == s + f64_shift(m as nat),
            m as nat * p as nat <= n as nat,
            p >= 1,
            s <= 11,
            n >= 0x20_0000_0000_0000 ==> m >= 0x10_0000_0000_0000,
            n < 0x20_0000_0000_0000 ==> p == 1,
        decreases m,
    {
        proof {
            vstd::arithmetic::div_mod::lemma_div_denominator(n as int, p as int, 2);
            assert((m as nat / 2) * (2 * p as nat) <= m as nat * p as nat) by (nonlinear_arith);
            assert(m as nat * p as nat >= 0x20_0000_0000_0000 * p as nat) by (nonlinear_arith)
                requires m >= 0x20_0000_0000_0000;
            assert(p < 0x800);
            reveal_with_fuel(two_pow, 12);
            if s >= 11 {
                lemma_two_pow_mono(11, s);
            }
        }
        m = m / 2;
        p = p * 2;
        proof {
            s = s + 1;
        }
    }
    proof {
        reveal_with_fuel(two_pow, 12);
        lemma_two_pow_mono(s, 11);
    }
    assert(f64_shift(m as nat) == 0);
    let q = div_round_half_even_exec(n as u128, p);
    assert(q <= 0x20_0000_0000_0000) by {
        assert((n as nat) / (p as nat) == m);
    }
    assert(p * q <= 0x1_0000_0000_0000_0000) by (nonlinear_arith)
        requires p <= 0x800, q <= 0x20_0000_0000_0000;
    assert(q >= m);
    if n < 0x20_0000_0000_0000 {
        assert(p == 1);
        assert(n as nat / 1 == n && n as nat % 1 == 0);
        assert(q == n);
    }
    assert(p * q >= q) by (nonlinear_arith)
        requires p >= 1;
    p * q
}

/// Appends `hundredths(n)`.
pub fn push_hundredths(s: &mut String, n: u64)
    ensures
        final(s)@ == old(s)@ + hundredths(n as nat),
{
    push_decimal(s, n / 100);
    push_char(s, '.');
    let tens = ((n / 10) % 10) as u8;
    let ones = (n % 10) as u8;
    push_char(s, (48 + tens) as char);
    push_char(s, (48 + ones) as char);
}

} // verus!
