//! Exact fixed-point quantities.
//!
//! Every amount, price and size is an integer number of units, one unit being
//! `10^-12`. Sums and differences are exact; quotients are rounded half away
//! from zero.

use vstd::prelude::*;

verus! {

/// Number of fractional decimal digits that a quantity carries.
pub const FRACTION_DIGITS: usize = 12;

/// Units in the quantity one.
pub const ONE: i128 = 1_000_000_000_000;

/// Units in one step of the display grid, `10^-8`.
pub const DISPLAY_STEP: i128 = 10_000;

/// A decimal quantity with twelve fractional digits.
#[derive(Clone, Copy, Debug, PartialEq, Eq, Structural)]
pub struct Decimal {
    pub units: i128,
}

impl View for Decimal {
    type V = int;

    open spec fn view(&self) -> int {
        self.units as int
    }
}

/// An integer whose negation is an `i128` too.
pub open spec fn fits(x: int) -> bool {
    -(i128::MAX as int) <= x <= i128::MAX as int
}

/// The absolute value.
pub open spec fn magnitude(x: int) -> int {
    if x < 0 {
        -x
    } else {
        x
    }
}

/// `a / b` rounded to the nearest integer, a tie going up. Meant for `a >= 0`, `b > 0`.
pub open spec fn nearest_quotient(a: int, b: int) -> int {
    a / b + if 2 * (a % b) >= b {
        1int
    } else {
        0int
    }
}

/// `n / d` rounded to the nearest integer, a tie going away from zero. Meant for `d != 0`.
pub open spec fn div_round_spec(n: int, d: int) -> int {
    let m = nearest_quotient(magnitude(n), magnitude(d));
    if (n < 0) != (d < 0) {
        -m
    } else {
        m
    }
}

/// A quantity brought to the display grid: the nearest multiple of `10^-8`, a
/// tie going away from zero.
pub open spec fn display_rounded(units: int) -> int {
    div_round_spec(units, DISPLAY_STEP as int) * (DISPLAY_STEP as int)
}

/// The sum, where it is in range.
pub fn add_fit(a: i128, b: i128) -> (r: Option<i128>)
    ensures
        r == (if fits(a + b) {
            Some((a + b) as i128)
        } else {
            None
        }),
{
    match a.checked_add(b) {
        Some(s) => if s == i128::MIN {
            None
        } else {
            Some(s)
        },
        None => None,
    }
}

/// The difference, where it is in range.
pub fn sub_fit(a: i128, b: i128) -> (r: Option<i128>)
    ensures
        r == (if fits(a - b) {
            Some((a - b) as i128)
        } else {
            None
        }),
{
    match a.checked_sub(b) {
        Some(s) => if s == i128::MIN {
            None
        } else {
            Some(s)
        },
        None => None,
    }
}

/// The product, where it is in range.
pub fn mul_fit(a: i128, b: i128) -> (r: Option<i128>)
    ensures
        r == (if fits(a * b) {
            Some((a * b) as i128)
        } else {
            None
        }),
{
    match a.checked_mul(b) {
        Some(s) => if s == i128::MIN {
            None
        } else {
            Some(s)
        },
        None => None,
    }
}

/// The rounded quotient never exceeds the dividend in magnitude.
pub proof fn lemma_nearest_quotient_bounds(a: int, b: int)
    requires
        a >= 0,
        b > 0,
    ensures
        0 <= a / b <= nearest_quotient(a, b) <= a,
        0 <= a % b < b,
        a == b * (a / b) + a % b,
{
    let q = a / b;
    let r = a % b;
    vstd::arithmetic::div_mod::lemma_fundamental_div_mod(a, b);
    vstd::arithmetic::div_mod::lemma_mod_bound(a, b);
    vstd::arithmetic::div_mod::lemma_div_pos_is_pos(a, b);
    if 2 * r >= b {
        assert(r >= 1);
        assert(b >= 2);
        assert(b * q >= 2 * q) by (nonlinear_arith)
            requires
                b >= 2,
                q >= 0,
        ;
    } else {
        assert(b * q >= q) by (nonlinear_arith)
            requires
                b >= 1,
                q >= 0,
        ;
    }
}

/// Division rounded half away from zero.
pub fn div_round(n: i128, d: i128) -> (r: i128)
    requires
        d != 0,
        fits(n as int),
        fits(d as int),
    ensures
        r == div_round_spec(n as int, d as int),
        fits(r as int),
{
    let a: i128 = if n < 0 {
        -n
    } else {
        n
    };
    let b: i128 = if d < 0 {
        -d
    } else {
        d
    };
    proof {
        lemma_nearest_quotient_bounds(a as int, b as int);
    }
    let q: i128 = a / b;
    let rem: i128 = a % b;
    let m: i128 = if rem >= b - rem {
        q + 1
    } else {
        q
    };
    if (n < 0) != (d < 0) {
        -m
    } else {
        m
    }
}

/// Brings a quantity to the display grid of eight fractional digits.
/// `None` where the rounded quantity is out of range.
pub fn round_to_display(x: Decimal) -> (r: Option<Decimal>)
    ensures
        r == (if fits(x@) && fits(display_rounded(x@)) {
            Some(Decimal { units: display_rounded(x@) as i128 })
        } else {
            None
        }),
{
    if x.units == i128::MIN {
        return None;
    }
    let q: i128 = div_round(x.units, DISPLAY_STEP);
    match mul_fit(q, DISPLAY_STEP) {
        Some(u) => Some(Decimal { units: u }),
        None => None,
    }
}

/// Rounding to the display grid gives a multiple of the grid step that lies
/// within half a step of the quantity; a quantity half-way between two grid
/// points goes to the one farther from zero.
pub proof fn lemma_display_rounded_nearest(x: int)
    ensures
        display_rounded(x) % (DISPLAY_STEP as int) == 0,
        2 * magnitude(display_rounded(x) - x) <= DISPLAY_STEP,
        2 * magnitude(display_rounded(x) - x) == DISPLAY_STEP ==> magnitude(display_rounded(x))
            > magnitude(x),
        x % (DISPLAY_STEP as int) == 0 ==> display_rounded(x) == x,
        (x < 0) == (display_rounded(x) < 0) || display_rounded(x) == 0,
{
    let a = magnitude(x);
    lemma_nearest_quotient_bounds(a, DISPLAY_STEP as int);
}

} // verus!
