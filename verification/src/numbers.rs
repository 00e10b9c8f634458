//! Division that rounds toward zero, and numbers written with two decimals.

use vstd::prelude::*;

use crate::text;

verus! {

/// `a` divided by `b`, rounded toward zero.
pub open spec fn quotient(a: int, b: int) -> int
    recommends
        b > 0,
{
    if a >= 0 {
        a / b
    } else {
        -((-a) / b)
    }
}

/// What `a` divided by `b` leaves, with the sign of `a`.
pub open spec fn remainder(a: int, b: int) -> int
    recommends
        b > 0,
{
    if a >= 0 {
        a % b
    } else {
        -((-a) % b)
    }
}

/// Divides `a` by `b`, rounding toward zero.
pub fn divide_wide(a: i128, b: i64) -> (r: i64)
    requires
        b > 0,
        a > i128::MIN,
        i64::MIN <= quotient(a as int, b as int) <= i64::MAX,
    ensures
        r == quotient(a as int, b as int),
{
    let by: i128 = b as i128;
    if a >= 0 {
        (a / by) as i64
    } else {
        let n: i128 = -a;
        let q: i128 = n / by;
        assert(0 <= q <= n) by (nonlinear_arith)
            requires
                q == n / by,
                n >= 0,
                by > 0,
        ;
        (-q) as i64
    }
}

/// Divides `a` by `b`, rounding toward zero.
pub fn divide(a: i64, b: i64) -> (r: i64)
    requires
        b > 0,
    ensures
        r == quotient(a as int, b as int),
{
    proof {
        lemma_quotient_bound(a as int, b as int);
    }
    divide_wide(a as i128, b)
}

/// What `a` divided by `b` leaves, with the sign of `a`.
pub fn left_over(a: i64, b: i64) -> (r: i64)
    requires
        b > 0,
    ensures
        r == remainder(a as int, b as int),
{
    let by: i128 = b as i128;
    if a >= 0 {
        a % b
    } else {
        let n: i128 = -(a as i128);
        let m: i128 = n % by;
        assert(0 <= m < by) by (nonlinear_arith)
            requires
                m == n % by,
                n >= 0,
                by > 0,
        ;
        (-m) as i64
    }
}

/// A quotient is no larger than what is divided.
pub proof fn lemma_quotient_bound(a: int, b: int)
    requires
        b > 0,
    ensures
        0 <= a ==> 0 <= quotient(a, b) <= a,
        a < 0 ==> a <= quotient(a, b) <= 0,
{
    if a >= 0 {
        assert(0 <= a / b <= a) by (nonlinear_arith)
            requires
                a >= 0,
                b > 0,
        ;
    } else {
        let n = -a;
        assert(0 <= n / b <= n) by (nonlinear_arith)
            requires
                n >= 0,
                b > 0,
        ;
    }
}

/// The two-digit text of a number below a hundred.
pub open spec fn two_digits(n: int) -> Seq<char> {
    seq![text::digit((n / 10) as nat), text::digit((n % 10) as nat)]
}

/// A number of hundredths, written with two decimals.
pub open spec fn fixed2(hundredths: int) -> Seq<char> {
    if hundredths < 0 {
        seq!['-'] + fixed2_abs(-hundredths)
    } else {
        fixed2_abs(hundredths)
    }
}

/// A number of hundredths that is not negative, written with two decimals.
pub open spec fn fixed2_abs(hundredths: int) -> Seq<char> {
    text::dec_nat((hundredths / 100) as nat) + "."@ + two_digits(hundredths % 100)
}

/// The size of a number, without its sign.
pub open spec fn magnitude(n: int) -> int {
    if n < 0 {
        -n
    } else {
        n
    }
}

fn size_of(n: i64) -> (r: u64)
    ensures
        r == magnitude(n as int),
{
    if n == i64::MIN {
        9223372036854775808
    } else if n < 0 {
        (-n) as u64
    } else {
        n as u64
    }
}

/// Writes a number of hundredths with two decimals, without its sign.
pub fn fixed2_size(hundredths: i64) -> (r: String)
    ensures
        r@ == fixed2_abs(magnitude(hundredths as int)),
{
    let n: u64 = size_of(hundredths);
    let mut r = text::nat_text(n / 100);
    r.append(".");
    let part: u8 = (n % 100) as u8;
    r.push((48 + part / 10) as char);
    r.push((48 + part % 10) as char);
    assert(r@ =~= fixed2_abs(n as int));
    r
}

/// Writes a number of hundredths with two decimals.
pub fn fixed2_text(hundredths: i64) -> (r: String)
    ensures
        r@ == fixed2(hundredths as int),
{
    let size = fixed2_size(hundredths);
    if hundredths < 0 {
        let mut r = String::new();
        r.push('-');
        r.append(size.as_str());
        assert(r@ =~= fixed2(hundredths as int));
        r
    } else {
        size
    }
}

/// Division takes the divisor out as often as it goes, toward zero: what is left is smaller than the
/// divisor and on the side of the dividend.
pub proof fn law_division(a: int, b: int)
    requires
        b > 0,
    ensures
        quotient(a, b) * b + remainder(a, b) == a,
        a >= 0 ==> 0 <= remainder(a, b) < b && quotient(a, b) >= 0,
        a <= 0 ==> -b < remainder(a, b) <= 0 && quotient(a, b) <= 0,
        quotient(-a, b) == -quotient(a, b),
{
    vstd::arithmetic::div_mod::lemma_fundamental_div_mod(a, b);
    vstd::arithmetic::div_mod::lemma_fundamental_div_mod(-a, b);
    vstd::arithmetic::mul::lemma_mul_is_commutative(b, a / b);
    vstd::arithmetic::mul::lemma_mul_is_commutative(b, (-a) / b);
    vstd::arithmetic::mul::lemma_mul_unary_negation((-a) / b, b);
    vstd::arithmetic::div_mod::lemma_mod_bound(a, b);
    vstd::arithmetic::div_mod::lemma_mod_bound(-a, b);
    if a >= 0 {
        vstd::arithmetic::div_mod::lemma_div_pos_is_pos(a, b);
    }
    if a <= 0 {
        vstd::arithmetic::div_mod::lemma_div_pos_is_pos(-a, b);
    }
    if a == 0 {
        vstd::arithmetic::div_mod::lemma_div_of0(b);
    }
}

/// A number of hundredths is written as its whole part, a point and its two digits of hundredths,
/// behind a dash where it is below zero.
pub proof fn law_two_decimals(whole: int, tens: int, ones: int)
    requires
        whole >= 0,
        0 <= tens <= 9,
        0 <= ones <= 9,
    ensures
        fixed2(100 * whole + 10 * tens + ones) == text::dec(whole) + "."@ + seq![
            text::digit(tens as nat),
            text::digit(ones as nat),
        ],
        100 * whole + 10 * tens + ones > 0 ==> fixed2(-(100 * whole + 10 * tens + ones)) == seq!['-']
            + fixed2(100 * whole + 10 * tens + ones),
{
    let h = 100 * whole + 10 * tens + ones;
    assert(h / 100 == whole);
    assert(h % 100 == 10 * tens + ones);
}

} // verus!
