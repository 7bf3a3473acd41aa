//! Amounts and counts as they are shown.
//!
//! A figure is a quotient of two whole numbers, taken as the nearest number that
//! a 64-bit binary fraction can hold and written with a fixed number of decimal
//! places. Halves go to the even neighbour, in both steps.

use vstd::arithmetic::div_mod::{lemma_fundamental_div_mod, lemma_fundamental_div_mod_converse};
use vstd::prelude::*;

use crate::text::{cat2, cat3, decimal, decimal_string};

verus! {

/// How many steps a binary fraction has between a power of two and the next: no
/// number below this one is rounded.
pub const MANTISSA_LIMIT: u64 = 0x20_0000_0000_0000;

/// The whole number nearest to `n / d`; halfway, the even one.
pub open spec fn half_even(n: nat, d: nat) -> nat {
    let q = n / d;
    let r = n % d;
    if 2 * r < d {
        q
    } else if 2 * r > d {
        q + 1
    } else {
        q + q % 2
    }
}

/// The whole number nearest to `n` that is a multiple of `unit` with fewer steps
/// than a binary fraction has; `unit` doubles until there is one.
pub open spec fn rounded_from(n: nat, unit: nat) -> nat
    decreases n - unit,
{
    if unit == 0 || n < MANTISSA_LIMIT * unit {
        half_even(n, unit) * unit
    } else {
        rounded_from(n, 2 * unit)
    }
}

/// The whole number nearest to `n` that a binary fraction can hold.
pub open spec fn rounded(n: nat) -> nat {
    rounded_from(n, 1)
}

/// `x` and `power`, doubled together until `x` reaches `limit`.
pub open spec fn scaled(x: nat, power: nat, limit: nat) -> (nat, nat)
    decreases (if x < limit { limit - x } else { 0 }),
{
    if x == 0 || x >= limit {
        (x, power)
    } else {
        scaled(2 * x, 2 * power, limit)
    }
}

/// The quotient `n / d` with its decimal point moved by as many places as `unit`
/// has zeros, as a whole number: the nearest binary fraction first, then the
/// nearest whole number.
pub open spec fn fixed(n: nat, d: nat, unit: nat) -> nat {
    let (x, power) = scaled(rounded(n), 1, d * (MANTISSA_LIMIT / 2) as nat);
    half_even(half_even(x, d) * unit, power)
}

fn to_half_even(n: u128, d: u128) -> (r: u128)
    requires
        d > 0,
        n < 0x8000_0000_0000_0000_0000_0000_0000_0000,
        d < 0x4000_0000_0000_0000_0000_0000_0000_0000,
    ensures
        r == half_even(n as nat, d as nat),
        r <= n / d + 1,
{
    let q: u128 = n / d;
    let r: u128 = n % d;
    proof {
        assert(q <= n) by (nonlinear_arith)
            requires
                q == n / d,
                d > 0,
                n >= 0,
        ;
    }
    if 2 * r < d {
        q
    } else if 2 * r > d {
        q + 1
    } else {
        q + q % 2
    }
}

proof fn lemma_rounded_bound(n: nat, unit: nat)
    requires
        0 < unit <= n || unit == 1,
        n <= u64::MAX,
    ensures
        rounded_from(n, unit) <= 2 * n,
        n < MANTISSA_LIMIT && unit == 1 ==> rounded_from(n, unit) == n,
        n > 0 ==> rounded_from(n, unit) > 0,
    decreases n - unit,
{
    if n < MANTISSA_LIMIT * unit {
        let q = n / unit;
        lemma_fundamental_div_mod(n as int, unit as int);
        if unit == 1 {
            assert(n / 1 == n);
            assert(n % 1 == 0);
            assert(half_even(n, 1) == n);
        } else {
            assert(q >= 1) by (nonlinear_arith)
                requires
                    unit <= n,
                    unit > 0,
                    q == n / unit,
            ;
            let h = half_even(n, unit);
            assert(q <= h <= q + 1);
            assert(h * unit <= 2 * n) by (nonlinear_arith)
                requires
                    h <= q + 1,
                    q >= 1,
                    unit * q <= n,
                    unit > 0,
            ;
            assert(h * unit > 0) by (nonlinear_arith)
                requires
                    h >= 1,
                    unit > 0,
            ;
        }
    } else {
        assert(2 * unit <= n) by (nonlinear_arith)
            requires
                n >= MANTISSA_LIMIT * unit,
        ;
        lemma_rounded_bound(n, 2 * unit);
    }
}

fn round_whole(n: u64) -> (r: u128)
    ensures
        r == rounded(n as nat),
        r <= 2 * n,
        n < MANTISSA_LIMIT ==> r == n,
        n > 0 ==> r > 0,
{
    let mut unit: u128 = 1;
    proof {
        lemma_rounded_bound(n as nat, 1);
    }
    while n as u128 >= MANTISSA_LIMIT as u128 * unit
        invariant
            0 < unit,
            unit <= n || unit == 1,
            unit <= u64::MAX,
            rounded(n as nat) == rounded_from(n as nat, unit as nat),
        decreases n - unit,
    {
        proof {
            assert(2 * unit <= n) by (nonlinear_arith)
                requires
                    n >= MANTISSA_LIMIT * unit,
                    unit > 0,
            ;
        }
        unit = 2 * unit;
    }
    let h: u128 = to_half_even(n as u128, unit);
    proof {
        lemma_rounded_bound(n as nat, unit as nat);
        assert(h * unit == rounded_from(n as nat, unit as nat));
    }
    h * unit
}

/// The largest divisor of a figure.
pub const MAX_DIVISOR: u64 = 1_000_000;

fn to_fixed(n: u64, d: u64, unit: u64) -> (r: u64)
    requires
        0 < d <= MAX_DIVISOR,
        0 < unit,
        100 * unit <= d,
    ensures
        r == fixed(n as nat, d as nat, unit as nat),
{
    let limit: u128 = d as u128 * (MANTISSA_LIMIT / 2) as u128;
    let whole: u128 = round_whole(n);
    proof {
        assert(limit <= 1_000_000 * 0x10_0000_0000_0000) by (nonlinear_arith)
            requires
                limit == d * 0x10_0000_0000_0000,
                d <= 1_000_000,
        ;
    }
    if whole == 0 {
        proof {
            lemma_half_even_zero(d as nat);
            lemma_half_even_zero(1);
        }
        return 0;
    }
    let mut x: u128 = whole;
    let mut power: u128 = 1;
    while x < limit
        invariant
            0 < x,
            0 < power <= x,
            x == whole * power,
            x <= 0x1_0000_0000_0000_0000_0000,
            limit <= 1_000_000 * 0x10_0000_0000_0000,
            scaled(whole as nat, 1, limit as nat) == scaled(x as nat, power as nat, limit as nat),
        decreases (if x < limit { limit - x } else { 0 }),
    {
        proof {
            assert(whole * (2 * power) == 2 * (whole * power)) by (nonlinear_arith);
        }
        x = 2 * x;
        power = 2 * power;
    }
    let m: u128 = to_half_even(x, d as u128);
    proof {
        assert(x / d as u128 <= x) by (nonlinear_arith)
            requires
                d >= 1,
                x >= 0,
        ;
        assert(m * unit <= 0x1_0000_0000_0000_0000_0001 * 10_000) by (nonlinear_arith)
            requires
                unit <= 10_000,
                m <= 0x1_0000_0000_0000_0000_0001,
        ;
    }
    let r: u128 = to_half_even(m * unit as u128, power);
    proof {
        lemma_fixed_bound(d as int, unit as int, whole as int, x as int, power as int, m as int);
        assert(r == fixed(n as nat, d as nat, unit as nat));
    }
    r as u64
}

proof fn lemma_half_even_zero(d: nat)
    requires
        d > 0,
    ensures
        half_even(0, d) == 0,
{
    lemma_fundamental_div_mod_converse(0, d as int, 0, 0);
}

proof fn lemma_fixed_bound(d: int, unit: int, whole: int, x: int, power: int, m: int)
    requires
        0 < unit,
        100 * unit <= d,
        0 < whole <= 2 * u64::MAX,
        0 < power,
        x == whole * power,
        0 <= m <= x / d + 1,
    ensures
        (m * unit) / power <= whole / 100 + unit + 1,
{
    let q = x / d;
    lemma_fundamental_div_mod(x, d);
    assert(q >= 0) by (nonlinear_arith)
        requires
            q == x / d,
            x == whole * power,
            whole > 0,
            power > 0,
            d > 0,
    ;
    assert(100 * (q * unit) <= x) by (nonlinear_arith)
        requires
            q >= 0,
            100 * unit <= d,
            d * q <= x,
    ;
    assert(m * unit <= q * unit + unit) by (nonlinear_arith)
        requires
            m <= q + 1,
            unit > 0,
    ;
    let y = m * unit;
    let z = y / power;
    assert(y >= 0) by (nonlinear_arith)
        requires
            y == m * unit,
            m >= 0,
            unit > 0,
    ;
    lemma_fundamental_div_mod(y, power);
    assert(100 * z <= whole + 100 * unit) by (nonlinear_arith)
        requires
            power * z <= y,
            100 * y <= whole * power + 100 * unit,
            power > 0,
            unit > 0,
    ;
}

/// How `n` is written with at least `places` digits, zeros in front.
pub open spec fn padded(n: nat, places: nat) -> Seq<char>
    decreases places,
{
    if places == 0 {
        Seq::empty()
    } else {
        padded(n / 10, (places - 1) as nat).push(crate::text::digit((n % 10) as int))
    }
}

fn padded_string(n: u64, places: usize) -> (r: String)
    ensures
        r@ == padded(n as nat, places as nat),
    decreases places,
{
    if places == 0 {
        return String::new();
    }
    let mut out = padded_string(n / 10, places - 1);
    let last: u8 = (n % 10) as u8;
    out.push((48 + last) as char);
    out
}

/// `value` with a decimal point in front of its last digits, as many as `unit` has
/// zeros.
pub open spec fn with_point(value: nat, unit: nat, places: nat) -> Seq<char> {
    decimal(value / unit) + "."@ + padded(value % unit, places)
}

fn with_point_string(value: u64, unit: u64, places: usize) -> (r: String)
    requires
        unit > 0,
    ensures
        r@ == with_point(value as nat, unit as nat, places as nat),
{
    cat3(
        decimal_string(value / unit).as_str(),
        ".",
        padded_string(value % unit, places).as_str(),
    )
}

/// A cost in dollars with four decimal places, from millionths of a dollar.
pub open spec fn cost_text(cost_microusd: u64) -> Seq<char> {
    "$"@ + with_point(fixed(cost_microusd as nat, 1_000_000, 10_000), 10_000, 4)
}

/// A cost in dollars with four decimal places, from millionths of a dollar.
pub fn cost_string(cost_microusd: u64) -> (r: String)
    ensures
        r@ == cost_text(cost_microusd),
{
    let value: u64 = to_fixed(cost_microusd, 1_000_000, 10_000);
    cat2("$", with_point_string(value, 10_000, 4).as_str())
}

/// A count of tokens: whole up to a thousand, then in thousands and in millions
/// with one decimal place.
pub open spec fn tokens_text(tokens: u64) -> Seq<char> {
    if tokens < 1_000 {
        decimal(tokens as nat)
    } else if tokens < 1_000_000 {
        with_point(fixed(tokens as nat, 1_000, 10), 10, 1) + "k"@
    } else {
        with_point(fixed(tokens as nat, 1_000_000, 10), 10, 1) + "M"@
    }
}

/// A count of tokens, shortened so that it does not grow as a session does.
pub fn tokens_string(tokens: u64) -> (r: String)
    ensures
        r@ == tokens_text(tokens),
{
    if tokens < 1_000 {
        decimal_string(tokens)
    } else if tokens < 1_000_000 {
        let value: u64 = to_fixed(tokens, 1_000, 10);
        cat2(with_point_string(value, 10, 1).as_str(), "k")
    } else {
        let value: u64 = to_fixed(tokens, 1_000_000, 10);
        cat2(with_point_string(value, 10, 1).as_str(), "M")
    }
}

proof fn lemma_scaled(x: nat, power: nat, limit: nat)
    requires
        0 < x,
        0 < power,
    ensures
        scaled(x, power, limit).0 >= limit,
        scaled(x, power, limit).0 * power == x * scaled(x, power, limit).1,
        scaled(x, power, limit).1 > 0,
    decreases (if x < limit { limit - x } else { 0 }),
{
    if x < limit {
        lemma_scaled(2 * x, 2 * power, limit);
        let (y, p) = scaled(2 * x, 2 * power, limit);
        assert(y * power == x * p) by (nonlinear_arith)
            requires
                y * (2 * power) == (2 * x) * p,
        ;
    }
}

proof fn lemma_half_even_near(n: nat, d: nat)
    requires
        d > 0,
    ensures
        2 * (half_even(n, d) * d - n) <= d,
        2 * (n - half_even(n, d) * d) <= d,
{
    let q = n / d;
    let r = n % d;
    lemma_fundamental_div_mod(n as int, d as int);
    assert(d * q == q * d) by (nonlinear_arith);
    let h = half_even(n, d);
    if h == q {
        assert(n - h * d == r);
    } else {
        assert(h == q + 1);
        assert(h * d == q * d + d) by (nonlinear_arith)
            requires
                h == q + 1,
        ;
    }
}

/// A figure that has no more decimal places than are written is written exactly,
/// as long as it is below the number that a binary fraction starts to round at.
pub proof fn lemma_exact_figures(n: nat, d: nat, unit: nat, value: nat)
    requires
        0 < n < MANTISSA_LIMIT,
        0 < d,
        0 < unit,
        2 * unit < d,
        n * unit == value * d,
    ensures
        fixed(n, d, unit) == value,
{
    let half = (MANTISSA_LIMIT / 2) as nat;
    let limit = d * half;
    assert(rounded(n) == n) by {
        assert(n / 1 == n);
        assert(n % 1 == 0);
    }
    lemma_scaled(n, 1, limit);
    let (x, power) = scaled(n, 1, limit);
    assert(x == n * power);
    let m = half_even(x, d);
    lemma_half_even_near(x, d);
    // The binary fraction is off by no more than half a step of it, and a step of
    // it is less than a step of the last decimal place.
    assert(power > unit) by (nonlinear_arith)
        requires
            n * power >= d * half,
            n < 2 * half,
            2 * unit < d,
            half > 0,
            power >= 0,
    ;
    let y = m * unit;
    assert(x * unit == value * d * power) by (nonlinear_arith)
        requires
            x == n * power,
            n * unit == value * d,
    ;
    assert(2 * (y - value * power) < power && 2 * (value * power - y) < power) by (nonlinear_arith)
        requires
            y == m * unit,
            x * unit == value * d * power,
            2 * (m * d - x) <= d,
            2 * (x - m * d) <= d,
            power > unit,
            d > 0,
            unit > 0,
    ;
    if y >= value * power {
        let r = y - value * power;
        assert(y == power * value + r) by (nonlinear_arith)
            requires
                r == y - value * power,
        ;
        lemma_fundamental_div_mod_converse(y as int, power as int, value as int, r);
    } else {
        let r = y - (value - 1) * power;
        assert(value >= 1) by (nonlinear_arith)
            requires
                y < value * power,
                y >= 0,
                power > 0,
        ;
        assert(y == power * (value - 1) + r && 0 <= r < power && 2 * r > power)
            by (nonlinear_arith)
            requires
                r == y - (value - 1) * power,
                y < value * power,
                2 * (value * power - y) < power,
                power > 0,
        ;
        lemma_fundamental_div_mod_converse(y as int, power as int, value - 1, r);
    }
}

} // verus!
