//! Fixed-point decimal amounts, with arithmetic carried out by `rust_decimal`.

use rust_decimal::Decimal;
use vstd::prelude::*;

verus! {

/// Largest mantissa magnitude that a decimal can hold: 2^96 - 1.
pub const MAX_MANTISSA: i128 = 79228162514264337593543950335;

/// Largest number of digits after the decimal point.
pub const MAX_SCALE: u32 = 28;

/// A decimal amount worth `mantissa / 10^scale`.
#[derive(Clone, Copy, Debug, PartialEq, Eq, Structural)]
pub struct Money {
    pub mantissa: i128,
    pub scale: u32,
}

pub open spec fn pow10(n: nat) -> int
    decreases n,
{
    if n == 0 {
        1
    } else {
        10 * pow10((n - 1) as nat)
    }
}

/// Whether `m` is small enough to be the mantissa of a decimal.
pub open spec fn fits_mantissa(m: int) -> bool {
    -(MAX_MANTISSA as int) <= m <= MAX_MANTISSA as int
}

pub open spec fn abs(x: int) -> int {
    if x < 0 {
        -x
    } else {
        x
    }
}

impl Money {
    pub open spec fn wf(self) -> bool {
        self.scale <= MAX_SCALE && fits_mantissa(self.mantissa as int)
    }

    /// The mantissa of this amount once written with `s` digits after the point (`s >= scale`).
    pub open spec fn at_scale(self, s: nat) -> int {
        self.mantissa * pow10((s - self.scale) as nat)
    }

    /// The amount counted in units of 10^-28: two well-formed amounts are worth the same
    /// exactly when their units are equal.
    pub open spec fn units(self) -> int {
        self.at_scale(MAX_SCALE as nat)
    }

    /// Zero, written without digits after the point.
    pub fn zero() -> (r: Money)
        ensures
            r == (Money { mantissa: 0, scale: 0 }),
            r.wf(),
            r.units() == 0,
    {
        Money { mantissa: 0, scale: 0 }
    }

    /// The amount `mantissa / 10^scale`, when a decimal can hold it.
    pub fn new(mantissa: i128, scale: u32) -> (r: Option<Money>)
        ensures
            r == (if scale <= MAX_SCALE && fits_mantissa(mantissa as int) {
                Some(Money { mantissa, scale })
            } else {
                None
            }),
    {
        if scale <= MAX_SCALE && -MAX_MANTISSA <= mantissa && mantissa <= MAX_MANTISSA {
            Some(Money { mantissa, scale })
        } else {
            None
        }
    }
}

/// The sum of two non-zero amounts, both written at the larger of their scales.
pub open spec fn aligned_sum(a: Money, b: Money) -> Money {
    let s = if a.scale >= b.scale { a.scale } else { b.scale };
    Money { mantissa: (a.at_scale(s as nat) + b.at_scale(s as nat)) as i128, scale: s }
}

/// Whether both amounts, once aligned to the larger scale, and their sum fit in a mantissa.
pub open spec fn add_fits(a: Money, b: Money) -> bool {
    let s = if a.scale >= b.scale { a.scale } else { b.scale };
    &&& fits_mantissa(a.at_scale(s as nat))
    &&& fits_mantissa(b.at_scale(s as nat))
    &&& fits_mantissa(a.at_scale(s as nat) + b.at_scale(s as nat))
}

/// Relies on rust_decimal's `Decimal::checked_mul`, the quantity taken in by
/// `Decimal::from(i32)` (scale 0): a zero operand gives plain zero; two non-zero operands whose
/// product fits in 96 bits give that product at the amount's scale. Every decimal that comes
/// back has a 96-bit mantissa and a scale of at most 28.
#[verifier::external_body]
fn decimal_times(amount: Money, quantity: i32) -> (r: Option<Money>)
    requires
        amount.wf(),
    ensures
        r matches Some(m) ==> m.wf(),
        amount.mantissa == 0 || quantity == 0 ==> r == Some(Money { mantissa: 0, scale: 0 }),
        amount.mantissa != 0 && quantity != 0 && fits_mantissa(amount.mantissa * quantity)
            ==> r == Some(Money { mantissa: (amount.mantissa * quantity) as i128, scale: amount.scale }),
{
    let d = Decimal::from_i128_with_scale(amount.mantissa, amount.scale);
    match d.checked_mul(Decimal::from(quantity)) {
        Some(p) => Some(Money { mantissa: p.mantissa(), scale: p.scale() }),
        None => None,
    }
}

/// Relies on rust_decimal's `Decimal::checked_add`: a zero operand gives the other operand back
/// unchanged; two non-zero operands are aligned to the larger scale and, where both aligned
/// mantissas and their sum fit in 96 bits, added exactly at that scale. Every decimal that
/// comes back has a 96-bit mantissa and a scale of at most 28.
#[verifier::external_body]
fn decimal_add(a: Money, b: Money) -> (r: Option<Money>)
    requires
        a.wf(),
        b.wf(),
    ensures
        r matches Some(m) ==> m.wf(),
        a.mantissa == 0 ==> r == Some(b),
        a.mantissa != 0 && b.mantissa == 0 ==> r == Some(a),
        a.mantissa != 0 && b.mantissa != 0 && add_fits(a, b) ==> r == Some(aligned_sum(a, b)),
{
    let x = Decimal::from_i128_with_scale(a.mantissa, a.scale);
    let y = Decimal::from_i128_with_scale(b.mantissa, b.scale);
    match x.checked_add(y) {
        Some(s) => Some(Money { mantissa: s.mantissa(), scale: s.scale() }),
        None => None,
    }
}

pub proof fn lemma_pow10_positive(n: nat)
    ensures
        pow10(n) >= 1,
    decreases n,
{
    if n > 0 {
        lemma_pow10_positive((n - 1) as nat);
    }
}

pub proof fn lemma_pow10_add(a: nat, b: nat)
    ensures
        pow10(a + b) == pow10(a) * pow10(b),
    decreases a,
{
    if a > 0 {
        lemma_pow10_add((a - 1) as nat, b);
        assert(pow10(a + b) == 10 * pow10((a - 1 + b) as nat));
        assert(10 * (pow10((a - 1) as nat) * pow10(b)) == (10 * pow10((a - 1) as nat)) * pow10(b))
            by (nonlinear_arith);
    }
}

/// Writing an amount with more digits after the point multiplies its mantissa accordingly.
pub proof fn lemma_at_scale_step(a: Money, s: nat, t: nat)
    requires
        a.scale <= s <= t,
    ensures
        a.at_scale(t) == a.at_scale(s) * pow10((t - s) as nat),
        abs(a.at_scale(s)) <= abs(a.at_scale(t)),
{
    lemma_pow10_add((s - a.scale) as nat, (t - s) as nat);
    assert((s - a.scale) as nat + (t - s) as nat == (t - a.scale) as nat);
    let m = a.mantissa as int;
    let p = pow10((s - a.scale) as nat);
    let q = pow10((t - s) as nat);
    lemma_pow10_positive((t - s) as nat);
    assert(m * (p * q) == (m * p) * q) by (nonlinear_arith);
    assert(abs(m * p) <= abs((m * p) * q)) by (nonlinear_arith)
        requires
            q >= 1,
    ;
}

/// `m * 10^k`, when that still fits in a mantissa.
fn scale_up(m: i128, k: u32) -> (r: Option<i128>)
    requires
        fits_mantissa(m as int),
    ensures
        r == (if fits_mantissa(m * pow10(k as nat)) {
            Some((m * pow10(k as nat)) as i128)
        } else {
            None
        }),
{
    let mut x: i128 = m;
    let mut i: u32 = 0;
    while i < k
        invariant
            i <= k,
            x == m * pow10(i as nat),
            fits_mantissa(x as int),
        decreases k - i,
    {
        if x > MAX_MANTISSA / 10 || x < -(MAX_MANTISSA / 10) {
            proof {
                let z = Money { mantissa: m, scale: 0 };
                lemma_at_scale_step(z, (i + 1) as nat, k as nat);
                assert(pow10((i + 1) as nat) == 10 * pow10(i as nat));
                assert(m * (10 * pow10(i as nat)) == 10 * (m * pow10(i as nat))) by (nonlinear_arith);
            }
            return None;
        }
        proof {
            assert(pow10((i + 1) as nat) == 10 * pow10(i as nat));
            assert(m * (10 * pow10(i as nat)) == 10 * (m * pow10(i as nat))) by (nonlinear_arith);
        }
        x = x * 10;
        i = i + 1;
    }
    Some(x)
}

impl Money {
    /// This amount times a whole quantity, exactly; `None` where the product does not fit.
    pub fn times(self, quantity: i32) -> (r: Option<Money>)
        requires
            self.wf(),
        ensures
            r is Some <==> fits_mantissa(self.mantissa * quantity),
            r matches Some(m) ==> m.wf() && m.units() == self.units() * quantity && m.scale
                <= self.scale,
    {
        proof {
            assert(abs(self.mantissa * quantity) <= MAX_MANTISSA * 0x8000_0000) by (nonlinear_arith)
                requires
                    fits_mantissa(self.mantissa as int),
                    -0x8000_0000 <= quantity <= 0x7fff_ffff,
            ;
        }
        let p: i128 = self.mantissa * (quantity as i128);
        if p > MAX_MANTISSA || p < -MAX_MANTISSA {
            return None;
        }
        let r = decimal_times(self, quantity);
        proof {
            let e = pow10((MAX_SCALE - self.scale) as nat);
            let m = self.mantissa as int;
            let q = quantity as int;
            assert(m * q * e == m * e * q) by (nonlinear_arith);
            if m == 0 || q == 0 {
                assert(m * e * q == 0) by (nonlinear_arith)
                    requires
                        m == 0 || q == 0,
                ;
                assert(0 * pow10(MAX_SCALE as nat) == 0);
            }
        }
        r
    }

    /// The sum of two amounts, exactly; `None` where two non-zero amounts, aligned to the
    /// larger scale, or their sum do not fit.
    pub fn plus(self, other: Money) -> (r: Option<Money>)
        requires
            self.wf(),
            other.wf(),
        ensures
            r is Some <==> self.mantissa == 0 || other.mantissa == 0 || add_fits(self, other),
            r matches Some(m) ==> m.wf() && m.units() == self.units() + other.units() && (m.scale
                <= self.scale || m.scale <= other.scale),
    {
        if self.mantissa != 0 && other.mantissa != 0 {
            let s = if self.scale >= other.scale { self.scale } else { other.scale };
            let x = scale_up(self.mantissa, s - self.scale);
            let y = scale_up(other.mantissa, s - other.scale);
            match (x, y) {
                (Some(x), Some(y)) => {
                    if x + y > MAX_MANTISSA || x + y < -MAX_MANTISSA {
                        return None;
                    }
                },
                _ => {
                    return None;
                },
            }
            proof {
                let t = MAX_SCALE as nat;
                lemma_at_scale_step(self, s as nat, t);
                lemma_at_scale_step(other, s as nat, t);
                let sum = aligned_sum(self, other);
                lemma_at_scale_step(sum, s as nat, t);
                let e = pow10((t - s) as nat);
                assert((self.at_scale(s as nat) + other.at_scale(s as nat)) * e == self.at_scale(
                    s as nat,
                ) * e + other.at_scale(s as nat) * e) by (nonlinear_arith);
            }
        }
        decimal_add(self, other)
    }
}

} // verus!
