//! Fixed-precision money.
//!
//! An amount is an `i64` counting ten-thousandths of the currency unit, so
//! every representable value lies exactly on the four-fractional-digit grid.
//! A decimal given as `mantissa * 10^-scale` enters that grid through
//! [`truncate_to_four_dp`], which discards digits beyond the fourth
//! fractional place, truncating toward zero.

use vstd::prelude::*;

verus! {

/// `10^n`.
pub open spec fn pow10(n: nat) -> int
    decreases n,
{
    if n == 0 {
        1
    } else {
        10 * pow10((n - 1) as nat)
    }
}

/// Integer division truncating toward zero (a positive divisor is intended;
/// `/` on `int` rounds toward negative infinity, so negative dividends are
/// negated around the division).
pub open spec fn div_toward_zero(m: int, d: int) -> int {
    if m >= 0 {
        m / d
    } else {
        -((-m) / d)
    }
}

/// The decimal `mantissa * 10^-scale`, truncated toward zero to four
/// fractional digits and expressed in ten-thousandths: scales at or below
/// four only stretch the mantissa onto the grid, larger scales drop the
/// excess digits.
pub open spec fn ten_thousandths(mantissa: int, scale: nat) -> int {
    if scale <= 4 {
        mantissa * pow10((4 - scale) as nat)
    } else {
        div_toward_zero(mantissa, pow10((scale - 4) as nat))
    }
}

/// Whether a mathematical integer is representable as an `i64`.
pub open spec fn fits_i64(x: int) -> bool {
    i64::MIN <= x <= i64::MAX
}

proof fn lemma_pow10_pos(n: nat)
    ensures
        pow10(n) >= 1,
    decreases n,
{
    if n > 0 {
        lemma_pow10_pos((n - 1) as nat);
    }
}

proof fn lemma_pow10_mono(a: nat, b: nat)
    requires
        a <= b,
    ensures
        pow10(a) <= pow10(b),
    decreases b,
{
    if a < b {
        lemma_pow10_mono(a, (b - 1) as nat);
        lemma_pow10_pos((b - 1) as nat);
    }
}

/// `10^n` as an `i64`, for the exponents whose power fits.
fn pow10_i64(n: u32) -> (r: i64)
    requires
        n <= 18,
    ensures
        r == pow10(n as nat),
{
    let mut r: i64 = 1;
    let mut i: u32 = 0;
    while i < n
        invariant
            i <= n,
            n <= 18,
            r == pow10(i as nat),
        decreases n - i,
    {
        proof {
            lemma_pow10_mono((i + 1) as nat, 18);
            reveal_with_fuel(pow10, 20);
            assert(pow10(18) == 1000000000000000000);
            lemma_pow10_pos(i as nat);
        }
        r = r * 10;
        i = i + 1;
    }
    r
}

/// Truncation of `mantissa * 10^-scale` toward zero onto the
/// four-fractional-digit grid, as a count of ten-thousandths. `None` exactly
/// when the truncated value does not fit an `i64` (possible only while
/// stretching a coarse mantissa onto the grid).
pub fn truncate_to_four_dp(mantissa: i64, scale: u32) -> (r: Option<i64>)
    ensures
        r is Some <==> fits_i64(ten_thousandths(mantissa as int, scale as nat)),
        r matches Some(v) ==> v == ten_thousandths(mantissa as int, scale as nat),
{
    if scale <= 4 {
        let factor = pow10_i64(4 - scale);
        mantissa.checked_mul(factor)
    } else {
        let e = scale - 4;
        if e >= 19 {
            proof {
                lemma_pow10_mono(19, e as nat);
                reveal_with_fuel(pow10, 21);
                assert(pow10(19) == 10000000000000000000);
                if mantissa >= 0 {
                    vstd::arithmetic::div_mod::lemma_basic_div(
                        mantissa as int,
                        pow10((scale - 4) as nat),
                    );
                } else {
                    vstd::arithmetic::div_mod::lemma_basic_div(
                        -(mantissa as int),
                        pow10((scale - 4) as nat),
                    );
                }
            }
            Some(0)
        } else {
            let d = pow10_i64(e);
            proof {
                lemma_pow10_pos(e as nat);
                if mantissa >= 0 {
                    vstd::arithmetic::div_mod::lemma_div_pos_is_pos(mantissa as int, d as int);
                    vstd::arithmetic::div_mod::lemma_div_nonincreasing(mantissa as int, d as int);
                } else {
                    vstd::arithmetic::div_mod::lemma_div_pos_is_pos(-(mantissa as int), d as int);
                    vstd::arithmetic::div_mod::lemma_div_nonincreasing(
                        -(mantissa as int),
                        d as int,
                    );
                }
            }
            let q = mantissa.checked_div(d);
            assert(q is Some);
            Some(q.unwrap())
        }
    }
}

/// Truncation is idempotent: a value already on the four-digit grid (a count
/// of ten-thousandths, i.e. a decimal of scale four) is left untouched by a
/// further truncation to four fractional digits.
pub proof fn lemma_truncation_idempotent(mantissa: int, scale: nat)
    ensures
        ten_thousandths(ten_thousandths(mantissa, scale), 4) == ten_thousandths(mantissa, scale),
{
}

} // verus!
