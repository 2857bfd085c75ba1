//! Numbers as text: quotients rounded as double-precision arithmetic rounds
//! them, computed in integers.
use vstd::prelude::*;
use vstd::string::*;

use crate::text::{decimal, decimal_text, digit};

verus! {

/// `a / b`, rounded to the nearest integer; a half goes to the even one.
pub open spec fn rounded(a: int, b: int) -> int {
    let q = a / b;
    let r = a % b;
    if 2 * r < b {
        q
    } else if 2 * r > b {
        q + 1
    } else if q % 2 == 0 {
        q
    } else {
        q + 1
    }
}

/// The double nearest to `n`. A double has 53 significant bits. Here `unit` is a
/// power of two that does not exceed the distance of the doubles around `n`.
pub open spec fn nearest_double_from(n: int, unit: int) -> int
    decreases n - unit,
{
    if unit <= 0 || n < 0x20_0000_0000_0000 * unit {
        rounded(n, unit) * unit
    } else {
        nearest_double_from(n, 2 * unit)
    }
}

/// The double nearest to the integer `n`.
pub open spec fn nearest_double(n: int) -> int {
    nearest_double_from(n, 1)
}

/// The double nearest to `a / (d * unit)`, as a pair of significand and power
/// of two by which to divide it.
pub open spec fn double_quotient_from(a: int, d: int, unit: int) -> (int, int)
    decreases 0x20_0000_0000_0000 * d - a,
{
    if a <= 0 || a >= 0x10_0000_0000_0000 * d {
        (rounded(a, d), unit)
    } else {
        double_quotient_from(2 * a, d, 2 * unit)
    }
}

/// `a / d` in tenths, as a double shows it with one digit after the point: the
/// nearest double to the quotient, rounded to tenths.
pub open spec fn tenths_of(a: int, d: int) -> int {
    let (m, unit) = double_quotient_from(a, d, 1);
    rounded(10 * m, unit)
}

/// A number of tenths with one digit after the point.
pub open spec fn one_decimal(tenths: int) -> Seq<char> {
    decimal((tenths / 10) as nat) + "."@ + seq![digit((tenths % 10) as nat)]
}

/// `a / b`, rounded to the nearest integer; a half goes to the even one.
fn round_quotient(a: u128, b: u128) -> (r: u128)
    requires
        0 < b < 0x1_0000_0000_0000_0000_0000,
        a < 0x1_0000_0000_0000_0000_0000,
    ensures
        r == rounded(a as int, b as int),
        r <= a + 1,
{
    let q = a / b;
    let r = a % b;
    assert(q <= a) by (nonlinear_arith)
        requires
            q == a / b,
            0 < b,
    ;
    if 2 * r < b {
        q
    } else if 2 * r > b {
        q + 1
    } else if q % 2 == 0 {
        q
    } else {
        q + 1
    }
}

proof fn lemma_rounded_close(a: int, b: int)
    requires
        0 < b,
        0 <= a,
    ensures
        -b <= 2 * (rounded(a, b) * b - a) <= b,
        0 <= rounded(a, b),
{
    let q = a / b;
    let r = a % b;
    vstd::arithmetic::div_mod::lemma_fundamental_div_mod(a, b);
    vstd::arithmetic::div_mod::lemma_div_pos_is_pos(a, b);
    assert(q * b == b * q) by (nonlinear_arith);
    assert((q + 1) * b == b * q + b) by (nonlinear_arith);
}

/// The double nearest to `n`.
pub fn to_double(n: u64) -> (r: u128)
    ensures
        r == nearest_double(n as int),
        r <= 0x1_0000_0000_0000_0000 + 0x1000,
        n < 0x20_0000_0000_0000 ==> r == n,
        n >= 1 ==> r >= 1,
{
    let wide = n as u128;
    let mut unit: u128 = 1;
    while wide >= 0x20_0000_0000_0000 * unit
        invariant
            wide == n,
            1 <= unit <= 0x1000,
            unit == 1 || 2 * unit <= wide,
            n < 0x20_0000_0000_0000 ==> unit == 1,
            nearest_double(n as int) == nearest_double_from(n as int, unit as int),
        decreases 0x2000 - unit,
    {
        assert(unit < 0x1000);
        unit = 2 * unit;
    }
    let m = round_quotient(wide, unit);
    proof {
        lemma_rounded_close(wide as int, unit as int);
        assert(m * unit <= wide + unit);
        assert(2 * (m * unit) >= 2 * wide - unit);
    }
    m * unit
}

/// The quotient `a / d` in tenths, as a double shows it.
pub fn tenths(a: u128, d: u128) -> (r: u128)
    requires
        0 < d <= 0x10_0000,
        0 < a < 0x10_0000_0000_0000 * d,
    ensures
        r == tenths_of(a as int, d as int),
        r < 0x1_0000_0000_0000_0000,
{
    let mut scaled: u128 = a;
    let mut unit: u128 = 1;
    let goal: u128 = 0x10_0000_0000_0000 * d;
    while scaled < goal
        invariant
            goal == 0x10_0000_0000_0000 * d,
            0 < d <= 0x10_0000,
            0 < a <= scaled,
            scaled < 2 * goal,
            1 <= unit <= scaled,
            double_quotient_from(a as int, d as int, 1) == double_quotient_from(
                scaled as int,
                d as int,
                unit as int,
            ),
        decreases 2 * goal - scaled,
    {
        scaled = 2 * scaled;
        unit = 2 * unit;
    }
    let m = round_quotient(scaled, d);
    proof {
        lemma_rounded_close(scaled as int, d as int);
        assert(m * d <= scaled + d);
        assert(m <= 2 * 0x10_0000_0000_0000 + 1) by (nonlinear_arith)
            requires
                2 * (m * d) <= 2 * scaled + d,
                scaled < 2 * (0x10_0000_0000_0000 * d),
                0 < d,
        ;
    }
    round_quotient(10 * m, unit)
}

/// A number of tenths with one digit after the point.
pub fn one_decimal_text(tenths: u64) -> (r: String)
    ensures
        r@ == one_decimal(tenths as int),
{
    let whole = decimal_text(tenths / 10);
    let last = decimal_text(tenths % 10);
    whole.concat(".").concat(last.as_str())
}

proof fn lemma_double_quotient(a0: int, a: int, d: int, unit: int)
    requires
        0 < a0,
        0 < d,
        0 < unit,
        a == a0 * unit,
        a < 0x20_0000_0000_0000 * d,
    ensures
        ({
            let (m, u) = double_quotient_from(a, d, unit);
            &&& -d <= 2 * (m * d - a0 * u) <= d
            &&& a0 * u >= 0x10_0000_0000_0000 * d
            &&& u > 0
            &&& m >= 0
        }),
    decreases 0x20_0000_0000_0000 * d - a,
{
    assert(a > 0) by (nonlinear_arith)
        requires
            a == a0 * unit,
            0 < a0,
            0 < unit,
    ;
    if a >= 0x10_0000_0000_0000 * d {
        lemma_rounded_close(a, d);
    } else {
        assert(2 * a == a0 * (2 * unit)) by (nonlinear_arith)
            requires
                a == a0 * unit,
        ;
        lemma_double_quotient(a0, 2 * a, d, 2 * unit);
    }
}

/// The tenths shown of a number in thousands or millions are as near to it as
/// tenths can be, while the quotient is under 2^33.
pub proof fn law_tenths_nearest(a: int, d: int)
    requires
        0 < a < 0x2_0000_0000 * d,
        d == 1_000 || d == 1_000_000,
    ensures
        -d <= 2 * (tenths_of(a, d) * d - 10 * a) <= d,
{
    lemma_double_quotient(a, a, d, 1);
    let (m, u) = double_quotient_from(a, d, 1);
    assert(u > 0x8_0000) by (nonlinear_arith)
        requires
            a * u >= 0x10_0000_0000_0000 * d,
            0 < a < 0x2_0000_0000 * d,
            0 < u,
            d > 0,
    ;
    lemma_rounded_close(10 * m, u);
    let t = tenths_of(a, d);
    let x = t * u - 10 * m;
    let y = m * d - a * u;
    assert(-u <= 2 * x <= u && -d <= 2 * y <= d);
    assert(x * d + 10 * y == (t * d - 10 * a) * u) by (nonlinear_arith)
        requires
            x == t * u - 10 * m,
            y == m * d - a * u,
    ;
    let z = t * d - 10 * a;
    assert(-(u * d) <= 2 * (x * d) <= u * d) by (nonlinear_arith)
        requires
            -u <= 2 * x <= u,
            d > 0,
    ;
    assert(-(u * d) - 10 * d <= 2 * (z * u) <= u * d + 10 * d);
    let k = d / 10;
    assert(z == 10 * (t * k - a)) by (nonlinear_arith)
        requires
            z == t * d - 10 * a,
            d == 10 * k,
    ;
    let w = t * k - a;
    assert(2 * (z * u) == 20 * (w * u)) by (nonlinear_arith)
        requires
            z == 10 * w,
    ;
    assert(u * d == 10 * (k * u)) by (nonlinear_arith)
        requires
            d == 10 * k,
    ;
    if 2 * w >= k + 2 {
        assert(2 * (w * u) >= k * u + 2 * u) by (nonlinear_arith)
            requires
                2 * w >= k + 2,
                u > 0,
        ;
    }
    if 2 * w <= -k - 2 {
        assert(2 * (w * u) <= -(k * u) - 2 * u) by (nonlinear_arith)
            requires
                2 * w <= -k - 2,
                u > 0,
        ;
    }
}

} // verus!
