//! Exact decimal money: a mantissa and a count of decimal places, with the
//! arithmetic of `rust_decimal`.
use vstd::prelude::*;

use rust_decimal::Decimal;

verus! {

/// Largest mantissa magnitude of a decimal: `2^96 - 1`.
pub const DECIMAL_MANTISSA_MAX: i128 = 79228162514264337593543950335;

/// The number `mantissa / 10^scale`.
#[derive(Clone, Copy, Debug)]
pub struct DecimalNumber {
    pub mantissa: i128,
    pub scale: u32,
}

/// `10^n` (1 for `n <= 0`).
pub open spec fn pow10(n: int) -> int
    decreases n,
{
    if n <= 0 {
        1
    } else {
        10 * pow10(n - 1)
    }
}

/// `|x|`.
pub open spec fn abs(x: int) -> int {
    if x < 0 {
        -x
    } else {
        x
    }
}

impl DecimalNumber {
    /// Representable: at most 28 decimal places and a 96-bit mantissa.
    pub open spec fn is_valid(self) -> bool {
        &&& self.scale <= 28
        &&& -DECIMAL_MANTISSA_MAX <= self.mantissa <= DECIMAL_MANTISSA_MAX
    }

    /// The mantissa of the same number written with `s` decimal places
    /// (`s` at least the scale).
    pub open spec fn at_scale(self, s: int) -> int {
        self.mantissa * pow10(s - self.scale)
    }

    /// Zero with no decimal places.
    pub open spec fn spec_zero() -> DecimalNumber {
        DecimalNumber { mantissa: 0, scale: 0 }
    }

    /// Zero with no decimal places.
    pub fn zero() -> (r: DecimalNumber)
        ensures
            r == DecimalNumber::spec_zero(),
    {
        DecimalNumber { mantissa: 0, scale: 0 }
    }

    /// The number with the opposite sign and the same scale.
    pub open spec fn spec_neg(self) -> DecimalNumber {
        DecimalNumber { mantissa: (-self.mantissa) as i128, scale: self.scale }
    }

    /// The number with the opposite sign and the same scale.
    pub fn neg(self) -> (r: DecimalNumber)
        requires
            self.is_valid(),
        ensures
            r == self.spec_neg(),
            r.is_valid(),
    {
        DecimalNumber { mantissa: -self.mantissa, scale: self.scale }
    }

    /// Whether the number is below zero.
    pub fn is_negative(self) -> (r: bool)
        ensures
            r == (self.mantissa < 0),
    {
        self.mantissa < 0
    }

    /// Whether the number is at most zero.
    pub fn is_not_positive(self) -> (r: bool)
        ensures
            r == (self.mantissa <= 0),
    {
        self.mantissa <= 0
    }
}

/// The larger of two scales.
pub open spec fn max_scale(a: DecimalNumber, b: DecimalNumber) -> int {
    if a.scale >= b.scale {
        a.scale as int
    } else {
        b.scale as int
    }
}

/// The sum of two decimals: a zero operand gives the other operand as it
/// is; otherwise the sum written with the larger scale.
pub open spec fn spec_decimal_add(a: DecimalNumber, b: DecimalNumber) -> DecimalNumber {
    if a.mantissa == 0 {
        b
    } else if b.mantissa == 0 {
        a
    } else {
        let s = max_scale(a, b);
        DecimalNumber { mantissa: (a.at_scale(s) + b.at_scale(s)) as i128, scale: s as u32 }
    }
}

/// The operands of an addition that stays exact: both written with the
/// larger scale, their magnitudes together fit a 96-bit mantissa.
pub open spec fn add_fits(a: DecimalNumber, b: DecimalNumber) -> bool {
    &&& a.is_valid()
    &&& b.is_valid()
    &&& abs(a.at_scale(max_scale(a, b))) + abs(b.at_scale(max_scale(a, b))) <= DECIMAL_MANTISSA_MAX
}

/// `Decimal + Decimal` of `rust_decimal`: where the operands aligned to the
/// larger scale add up within 96 bits, the sum is exact, carries the larger
/// scale, and a zero operand returns the other operand unchanged. Larger
/// sums, which the crate rounds or refuses, are outside this contract.
#[verifier::external_body]
pub(crate) fn decimal_add(a: DecimalNumber, b: DecimalNumber) -> (r: DecimalNumber)
    requires
        add_fits(a, b),
    ensures
        r == spec_decimal_add(a, b),
{
    let sum = Decimal::from_i128_with_scale(a.mantissa, a.scale) + Decimal::from_i128_with_scale(
        b.mantissa,
        b.scale,
    );
    DecimalNumber { mantissa: sum.mantissa(), scale: sum.scale() }
}

/// The product of two decimals: zero (with no decimal places) when either
/// operand is zero, otherwise the product of the mantissas with the scales
/// added.
pub open spec fn spec_decimal_mul(a: DecimalNumber, b: DecimalNumber) -> DecimalNumber {
    if a.mantissa == 0 || b.mantissa == 0 {
        DecimalNumber::spec_zero()
    } else {
        DecimalNumber { mantissa: (a.mantissa * b.mantissa) as i128, scale: (a.scale + b.scale) as u32 }
    }
}

/// The operands of a multiplication that stays exact.
pub open spec fn mul_fits(a: DecimalNumber, b: DecimalNumber) -> bool {
    &&& a.is_valid()
    &&& b.is_valid()
    &&& a.scale + b.scale <= 28
    &&& abs(a.mantissa * b.mantissa) <= DECIMAL_MANTISSA_MAX
}

/// `Decimal * Decimal` of `rust_decimal`: where the product of the
/// mantissas fits 96 bits and the scales add up to at most 28, the product
/// is exact; a zero operand gives zero with no decimal places. Larger
/// products, which the crate rounds or refuses, are outside this contract.
#[verifier::external_body]
pub(crate) fn decimal_mul(a: DecimalNumber, b: DecimalNumber) -> (r: DecimalNumber)
    requires
        mul_fits(a, b),
    ensures
        r == spec_decimal_mul(a, b),
{
    let product = Decimal::from_i128_with_scale(a.mantissa, a.scale) * Decimal::from_i128_with_scale(
        b.mantissa,
        b.scale,
    );
    DecimalNumber { mantissa: product.mantissa(), scale: product.scale() }
}

/// `d` rounded to `dp` decimal places, halves to the even neighbour: a
/// number with at most `dp` places is returned as it is, zero becomes zero
/// with `dp` places.
pub open spec fn spec_round_dp(d: DecimalNumber, dp: u32) -> DecimalNumber {
    if d.scale <= dp {
        d
    } else if d.mantissa == 0 {
        DecimalNumber { mantissa: 0, scale: dp }
    } else {
        let k = pow10(d.scale - dp);
        let magnitude = abs(d.mantissa as int);
        let q = magnitude / k;
        let rem = magnitude % k;
        let rounded = if rem * 2 > k || (rem * 2 == k && q % 2 == 1) {
            q + 1
        } else {
            q
        };
        DecimalNumber {
            mantissa: (if d.mantissa < 0 {
                -rounded
            } else {
                rounded
            }) as i128,
            scale: dp,
        }
    }
}

/// `Decimal::round_dp` of `rust_decimal`: rounds to `dp` decimal places
/// with banker's rounding (a half goes to the even neighbour).
#[verifier::external_body]
pub(crate) fn decimal_round_dp(d: DecimalNumber, dp: u32) -> (r: DecimalNumber)
    requires
        d.is_valid(),
    ensures
        r == spec_round_dp(d, dp),
{
    let rounded = Decimal::from_i128_with_scale(d.mantissa, d.scale).round_dp(dp);
    DecimalNumber { mantissa: rounded.mantissa(), scale: rounded.scale() }
}

pub(crate) proof fn lemma_pow10_grows(j: int, k: int)
    requires
        0 <= j <= k,
    ensures
        1 <= pow10(j) <= pow10(k),
    decreases k,
{
    if k > j {
        lemma_pow10_grows(j, k - 1);
    } else if k > 0 {
        lemma_pow10_grows(0, k - 1);
    }
}

/// `m * 10^k`, or `None` where it exceeds the largest mantissa.
fn lift_magnitude(m: u128, k: u32) -> (r: Option<u128>)
    requires
        m <= DECIMAL_MANTISSA_MAX,
    ensures
        match r {
            Some(v) => v == m * pow10(k as int) && v <= DECIMAL_MANTISSA_MAX,
            None => m * pow10(k as int) > DECIMAL_MANTISSA_MAX,
        },
{
    let mut v: u128 = m;
    let mut i: u32 = 0;
    proof {
        assert(m * pow10(0) == m) by {
            assert(pow10(0) == 1);
        }
    }
    while i < k
        invariant
            i <= k,
            m <= DECIMAL_MANTISSA_MAX,
            v == m * pow10(i as int),
            v <= DECIMAL_MANTISSA_MAX,
        decreases k - i,
    {
        let next = v * 10;
        assert(next == m * pow10(i + 1)) by (nonlinear_arith)
            requires
                next == v * 10,
                v == m * pow10(i as int),
                pow10(i + 1) == 10 * pow10(i as int),
        ;
        if next > DECIMAL_MANTISSA_MAX as u128 {
            proof {
                lemma_pow10_grows(i + 1, k as int);
                assert(m * pow10(i + 1) <= m * pow10(k as int)) by (nonlinear_arith)
                    requires
                        pow10(i + 1) <= pow10(k as int),
                ;
            }
            return None;
        }
        v = next;
        i = i + 1;
    }
    Some(v)
}

fn magnitude(m: i128) -> (r: u128)
    requires
        -DECIMAL_MANTISSA_MAX <= m <= DECIMAL_MANTISSA_MAX,
    ensures
        r == abs(m as int),
{
    if m < 0 {
        (-m) as u128
    } else {
        m as u128
    }
}

proof fn lemma_abs_scaled(m: int, p: int)
    requires
        p >= 1,
    ensures
        abs(m * p) == abs(m) * p,
{
    if m < 0 {
        assert(m * p < 0 && -(m * p) == (-m) * p) by (nonlinear_arith)
            requires
                m < 0,
                p >= 1,
        ;
    } else {
        assert(m * p >= 0) by (nonlinear_arith)
            requires
                m >= 0,
                p >= 1,
        ;
    }
}

/// Whether the addition of two representable decimals stays exact.
pub(crate) fn add_fits_exec(a: DecimalNumber, b: DecimalNumber) -> (r: bool)
    requires
        a.is_valid(),
        b.is_valid(),
    ensures
        r == add_fits(a, b),
{
    let s = if a.scale >= b.scale {
        a.scale
    } else {
        b.scale
    };
    proof {
        lemma_pow10_grows(0, s - a.scale);
        lemma_pow10_grows(0, s - b.scale);
        lemma_abs_scaled(a.mantissa as int, pow10(s - a.scale));
        lemma_abs_scaled(b.mantissa as int, pow10(s - b.scale));
    }
    let la = lift_magnitude(magnitude(a.mantissa), s - a.scale);
    let lb = lift_magnitude(magnitude(b.mantissa), s - b.scale);
    match (la, lb) {
        (Some(x), Some(y)) => x + y <= DECIMAL_MANTISSA_MAX as u128,
        _ => false,
    }
}

/// Whether the multiplication of two decimals stays exact.
pub(crate) fn mul_fits_exec(a: DecimalNumber, b: DecimalNumber) -> (r: bool)
    ensures
        r == mul_fits(a, b),
{
    if !(a.scale <= 28 && -DECIMAL_MANTISSA_MAX <= a.mantissa && a.mantissa <= DECIMAL_MANTISSA_MAX) {
        return false;
    }
    if !(b.scale <= 28 && -DECIMAL_MANTISSA_MAX <= b.mantissa && b.mantissa <= DECIMAL_MANTISSA_MAX) {
        return false;
    }
    if a.scale + b.scale > 28 {
        return false;
    }
    let am = magnitude(a.mantissa);
    let bm = magnitude(b.mantissa);
    proof {
        assert(abs(a.mantissa * b.mantissa) == am * bm) by (nonlinear_arith)
            requires
                am == abs(a.mantissa as int),
                bm == abs(b.mantissa as int),
        ;
    }
    if am == 0 {
        assert(am * bm == 0) by (nonlinear_arith)
            requires
                am == 0,
        ;
        return true;
    }
    let max: u128 = DECIMAL_MANTISSA_MAX as u128;
    let q = max / am;
    proof {
        vstd::arithmetic::div_mod::lemma_fundamental_div_mod(max as int, am as int);
        vstd::arithmetic::div_mod::lemma_mod_bound(max as int, am as int);
        if bm <= q {
            assert(am * bm <= am * q) by (nonlinear_arith)
                requires
                    bm <= q,
                    am > 0,
            ;
        } else {
            assert(am * bm >= am * (q + 1)) by (nonlinear_arith)
                requires
                    bm >= q + 1,
                    am > 0,
            ;
        }
        assert(am * (q + 1) == am * q + am) by (nonlinear_arith);
    }
    bm <= q
}

} // verus!
