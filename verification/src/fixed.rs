//! Fixed-point numbers.
//!
//! Every length, coordinate, speed and duration of the game is an `i64` count
//! of thousandths: `1500` is one and a half world units, or one and a half
//! seconds. Results that would leave the range of `i64` stick at its ends, so
//! no operation here can overflow or fail.

use vstd::prelude::*;

verus! {

/// Thousandths in one whole.
pub const UNIT: i64 = 1000;

/// Side of one tile of the editor grid: 32 world units.
pub const GRID: i64 = 32 * UNIT;

/// `v` brought into the range of `i64`.
pub open spec fn clamp(v: int) -> int {
    if v < i64::MIN as int {
        i64::MIN as int
    } else if v > i64::MAX as int {
        i64::MAX as int
    } else {
        v
    }
}

/// Distance of `v` from zero.
pub open spec fn magnitude(v: int) -> int {
    if v < 0 {
        -v
    } else {
        v
    }
}

/// `n / d` rounded toward zero. A zero divisor sends a positive `n` to the top
/// of the range, a negative one to the bottom, and zero to zero.
pub open spec fn quotient(n: int, d: int) -> int {
    if d == 0 {
        if n > 0 {
            i64::MAX as int
        } else if n < 0 {
            i64::MIN as int
        } else {
            0
        }
    } else if (n < 0) == (d < 0) {
        magnitude(n) / magnitude(d)
    } else {
        -(magnitude(n) / magnitude(d))
    }
}

/// Sum of two fixed-point numbers.
pub open spec fn fx_add_spec(a: i64, b: i64) -> i64 {
    clamp(a + b) as i64
}

/// Difference of two fixed-point numbers.
pub open spec fn fx_sub_spec(a: i64, b: i64) -> i64 {
    clamp(a - b) as i64
}

/// Negation of a fixed-point number.
pub open spec fn fx_neg_spec(a: i64) -> i64 {
    clamp(-a) as i64
}

/// Product of two fixed-point numbers: `a * b / UNIT`, rounded toward zero.
pub open spec fn fx_mul_spec(a: i64, b: i64) -> i64 {
    clamp(quotient(a * b, UNIT as int)) as i64
}

/// Ratio of two fixed-point numbers: `a * UNIT / b`, rounded toward zero.
pub open spec fn fx_div_spec(a: i64, b: i64) -> i64 {
    clamp(quotient(a * UNIT, b as int)) as i64
}

/// The largest multiple of `GRID` that is not above `v`.
pub open spec fn snap_floor_spec(v: i64) -> i64 {
    clamp((v as int / GRID as int) * GRID) as i64
}

/// The multiple of `GRID` nearest to `v`; a `v` halfway between two of them
/// goes to the one farther from zero.
pub open spec fn snap_round_spec(v: i64) -> i64 {
    clamp(quotient(2 * v + if v < 0 { -(GRID as int) } else { GRID as int }, 2 * GRID) * GRID) as i64
}

fn narrow(v: i128) -> (r: i64)
    ensures
        r == clamp(v as int),
{
    if v < i64::MIN as i128 {
        i64::MIN
    } else if v > i64::MAX as i128 {
        i64::MAX
    } else {
        v as i64
    }
}

fn divide(n: i128, d: i128) -> (q: i128)
    requires
        -i128::MAX <= n,
        -i128::MAX <= d,
    ensures
        q == quotient(n as int, d as int),
{
    if d == 0 {
        if n > 0 {
            i64::MAX as i128
        } else if n < 0 {
            i64::MIN as i128
        } else {
            0
        }
    } else {
        let nm: i128 = if n < 0 { -n } else { n };
        let dm: i128 = if d < 0 { -d } else { d };
        let qm: i128 = nm / dm;
        assert(0 <= qm <= nm) by (nonlinear_arith)
            requires
                qm == nm / dm,
                nm >= 0,
                dm > 0,
        ;
        if (n < 0) == (d < 0) {
            qm
        } else {
            -qm
        }
    }
}

proof fn lemma_product_bounds(a: int, b: int, la: int, lb: int)
    requires
        -la <= a <= la,
        -lb <= b <= lb,
    ensures
        -(la * lb) <= a * b <= la * lb,
{
    assert(-(la * lb) <= a * b <= la * lb) by (nonlinear_arith)
        requires
            -la <= a <= la,
            -lb <= b <= lb,
    ;
}

/// Adds two fixed-point numbers.
pub fn fx_add(a: i64, b: i64) -> (r: i64)
    ensures
        r == fx_add_spec(a, b),
{
    narrow(a as i128 + b as i128)
}

/// Subtracts `b` from `a`.
pub fn fx_sub(a: i64, b: i64) -> (r: i64)
    ensures
        r == fx_sub_spec(a, b),
{
    narrow(a as i128 - b as i128)
}

/// Negates a fixed-point number.
pub fn fx_neg(a: i64) -> (r: i64)
    ensures
        r == fx_neg_spec(a),
{
    narrow(-(a as i128))
}

/// Multiplies two fixed-point numbers.
pub fn fx_mul(a: i64, b: i64) -> (r: i64)
    ensures
        r == fx_mul_spec(a, b),
{
    proof {
        lemma_product_bounds(a as int, b as int, 0x8000_0000_0000_0000, 0x8000_0000_0000_0000);
    }
    let p: i128 = a as i128 * b as i128;
    narrow(divide(p, UNIT as i128))
}

/// Divides `a` by `b`. Division by zero does not fail: see [`quotient`].
pub fn fx_div(a: i64, b: i64) -> (r: i64)
    ensures
        r == fx_div_spec(a, b),
{
    let p: i128 = a as i128 * 1000;
    narrow(divide(p, b as i128))
}

/// Snaps a coordinate down to the lower edge of its grid tile.
pub fn snap_floor(v: i64) -> (r: i64)
    ensures
        r == snap_floor_spec(v),
{
    let g: i128 = GRID as i128;
    let n: i128 = v as i128;
    let q: i128 = if n >= 0 {
        n / g
    } else {
        // For a negative `n` the tile index is -ceil(-n / g).
        let m: i128 = -n;
        let up: i128 = (m + (g - 1)) / g;
        assert(-up == n / g) by {
            lemma_floor_of_negative(n as int, g as int);
        }
        -up
    };
    assert(-0x8000_0000_0000_0000 <= q <= 0x8000_0000_0000_0000) by (nonlinear_arith)
        requires
            q == (n as int) / (g as int),
            g == 32000,
            -0x8000_0000_0000_0000 <= n <= 0x8000_0000_0000_0000,
    ;
    narrow(q * g)
}

proof fn lemma_floor_of_negative(n: int, g: int)
    requires
        n < 0,
        g > 0,
    ensures
        -((-n + (g - 1)) / g) == n / g,
{
    let q = n / g;
    let r = n % g;
    assert(n == g * q + r && 0 <= r < g) by (nonlinear_arith)
        requires
            q == n / g,
            r == n % g,
            g > 0,
    ;
    let m = -n + (g - 1);
    assert(g * (-q) == -(g * q)) by (nonlinear_arith);
    assert(m / g == -q) by (nonlinear_arith)
        requires
            m == g * (-q) + (g - 1 - r),
            0 <= g - 1 - r < g,
            g > 0,
    ;
}

/// Snaps a coordinate to the nearest grid line.
pub fn snap_round(v: i64) -> (r: i64)
    ensures
        r == snap_round_spec(v),
{
    let g: i128 = GRID as i128;
    let bias: i128 = if v < 0 { -g } else { g };
    let q: i128 = divide(2 * (v as i128) + bias, 2 * g);
    assert(-0x4_0000_0000_0000_0000 <= q <= 0x4_0000_0000_0000_0000) by {
        lemma_quotient_bounds(2 * (v as int) + bias as int, 2 * (g as int));
    }
    narrow(q * g)
}

proof fn lemma_quotient_bounds(n: int, d: int)
    requires
        d > 0,
    ensures
        -magnitude(n) <= quotient(n, d) <= magnitude(n),
{
    let m = magnitude(n);
    assert(0 <= m / d <= m) by (nonlinear_arith)
        requires
            m >= 0,
            d > 0,
    ;
}

} // verus!
