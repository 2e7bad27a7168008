//! Fractions of natural numbers, compared without rounding.
use vstd::prelude::*;
use crate::text::{decimal, digit, u64_text};

verus! {

/// A fraction. Its denominator is not zero where it is used.
#[derive(Debug, Clone, Copy, PartialEq, Eq, Structural)]
pub struct Ratio {
    pub num: u128,
    pub den: u128,
}

/// Whether one fraction is less than another.
pub open spec fn less(a: Ratio, b: Ratio) -> bool {
    a.num * b.den < b.num * a.den
}

proof fn lemma_whole_parts_decide(a: nat, b: nat, c: nat, d: nat)
    by (nonlinear_arith)
    requires
        b > 0,
        d > 0,
        a / b < c / d,
    ensures
        a * d < c * b,
{
    let p = a / b;
    let q = c / d;
    assert(a < (p + 1) * b);
    assert(q * d <= c);
    assert(a * d < (p + 1) * b * d);
    assert((p + 1) * (b * d) <= q * (b * d));
    assert(q * d * b <= c * b);
}

proof fn lemma_remainders_decide(a: nat, b: nat, c: nat, d: nat)
    requires
        b > 0,
        d > 0,
        a / b == c / d,
    ensures
        (a * d < c * b) <==> ((a % b) * d < (c % d) * b),
{
    let q = a / b;
    let x = a % b;
    let y = c % d;
    vstd::arithmetic::div_mod::lemma_fundamental_div_mod(a as int, b as int);
    vstd::arithmetic::div_mod::lemma_fundamental_div_mod(c as int, d as int);
    assert(a * d == b * q * d + x * d) by (nonlinear_arith)
        requires
            a == b * q + x,
    ;
    assert(c * b == d * q * b + y * b) by (nonlinear_arith)
        requires
            c == d * q + y,
    ;
    assert(b * q * d == d * q * b) by (nonlinear_arith);
}

/// What is at most as large as something smaller is smaller.
pub proof fn lemma_less_from_at_most(a: Ratio, b: Ratio, c: Ratio)
    requires
        a.den > 0,
        b.den > 0,
        c.den > 0,
        !less(b, a),
        less(b, c),
    ensures
        less(a, c),
{
    let (an, ad, bn, bd, cn, cd) = (
        a.num as int,
        a.den as int,
        b.num as int,
        b.den as int,
        c.num as int,
        c.den as int,
    );
    assert(an * cd < cn * ad) by (nonlinear_arith)
        requires
            ad > 0,
            bd > 0,
            cd > 0,
            an * bd <= bn * ad,
            bn * cd < cn * bd,
    {
        assert(an * bd * cd <= bn * ad * cd);
        assert(bn * cd * ad < cn * bd * ad);
        assert(bn * ad * cd == bn * cd * ad);
        assert(an * bd * cd == (an * cd) * bd);
        assert(cn * bd * ad == (cn * ad) * bd);
    }
}

/// Compares two fractions.
pub fn is_less(a: Ratio, b: Ratio) -> (r: bool)
    requires
        a.den > 0,
        b.den > 0,
    ensures
        r == less(a, b),
    decreases a.den + b.den,
{
    let p: u128 = a.num / a.den;
    let q: u128 = b.num / b.den;
    if p < q {
        proof {
            lemma_whole_parts_decide(a.num as nat, a.den as nat, b.num as nat, b.den as nat);
        }
        return true;
    }
    if p > q {
        proof {
            lemma_whole_parts_decide(b.num as nat, b.den as nat, a.num as nat, a.den as nat);
        }
        return false;
    }
    proof {
        lemma_remainders_decide(a.num as nat, a.den as nat, b.num as nat, b.den as nat);
    }
    let x: u128 = a.num % a.den;
    let y: u128 = b.num % b.den;
    if y == 0 {
        assert(x * b.den >= 0) by (nonlinear_arith)
            requires
                x >= 0,
                b.den >= 0,
        ;
        assert(y * a.den == 0) by (nonlinear_arith)
            requires
                y == 0,
        ;
        return false;
    }
    if x == 0 {
        assert(x * b.den == 0) by (nonlinear_arith)
            requires
                x == 0,
        ;
        assert(y * a.den > 0) by (nonlinear_arith)
            requires
                y > 0,
                a.den > 0,
        ;
        return true;
    }
    // x / a.den < y / b.den where the inverses are the other way round.
    let r: bool = is_less(Ratio { num: b.den, den: y }, Ratio { num: a.den, den: x });
    assert(x * b.den == b.den * x) by (nonlinear_arith);
    assert(y * a.den == a.den * y) by (nonlinear_arith);
    r
}

/// The fraction in hundredths, to the nearest, and up where two are as near.
pub open spec fn hundredths(r: Ratio) -> nat {
    ((200 * r.num + r.den) / (2 * r.den as int)) as nat
}

/// A number of hundredths with two decimals.
pub open spec fn two_decimals(n: nat) -> Seq<char> {
    decimal(n / 100) + "."@ + seq![digit(n / 10 % 10), digit(n % 10)]
}

/// A fraction of at most one, with two decimals.
pub fn share_text(r: Ratio) -> (s: String)
    requires
        0 < r.den <= u128::MAX / 400,
        r.num <= r.den,
    ensures
        s@ == two_decimals(hundredths(r)),
{
    let wide: u128 = (200 * r.num + r.den) / (2 * r.den);
    assert(wide <= 100) by (nonlinear_arith)
        requires
            r.den > 0,
            r.num <= r.den,
            wide == (200 * r.num + r.den) / (2 * r.den as int),
    ;
    let n: u64 = wide as u64;
    let mut s = u64_text(n / 100);
    s.append(".");
    let tens: u8 = 48u8 + ((n / 10) % 10) as u8;
    let ones: u8 = 48u8 + (n % 10) as u8;
    s.push(tens as char);
    s.push(ones as char);
    assert(s@ =~= two_decimals(hundredths(r)));
    s
}

/// Fractions are compared by what they come to over a common denominator.
pub proof fn law_how_fractions_compare(a: Ratio, b: Ratio)
    ensures
        less(a, b) <==> (a.num * b.den) < (b.num * a.den),
        less(a, b) ==> !less(b, a),
{
}

/// Rounding to hundredths gives the nearest number of them, and the greater of two that
/// are as near.
pub proof fn law_hundredths_are_nearest(r: Ratio)
    requires
        r.den > 0,
    ensures
        ({
            let h = hundredths(r) as int;
            let (n, d) = (r.num as int, r.den as int);
            &&& 2 * d * h <= 200 * n + d
            &&& 200 * n + d < 2 * d * (h + 1)
        }),
{
    let h = hundredths(r) as int;
    let (n, d) = (r.num as int, r.den as int);
    vstd::arithmetic::div_mod::lemma_fundamental_div_mod(200 * n + d, 2 * d);
    assert(0 <= (200 * n + d) / (2 * d)) by (nonlinear_arith)
        requires
            n >= 0,
            d > 0,
    ;
    assert(2 * d * (h + 1) == 2 * d * h + 2 * d) by (nonlinear_arith);
}

/// Two decimals are the whole part, a point, the tenths and the hundredths.
pub proof fn law_how_hundredths_are_written(whole: nat, tenths: nat, rest: nat)
    requires
        tenths < 10,
        rest < 10,
    ensures
        two_decimals(100 * whole + 10 * tenths + rest) == decimal(whole) + "."@ + seq![
            digit(tenths),
            digit(rest),
        ],
{
    let n = 100 * whole + 10 * tenths + rest;
    assert(n / 100 == whole);
    assert(n / 10 == 10 * whole + tenths);
    assert(n / 10 % 10 == tenths);
    assert(n % 10 == rest);
}

} // verus!
