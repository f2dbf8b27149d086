//! The numeric value type of the language: an exact rational with a signed
//! 64-bit numerator and an unsigned 64-bit denominator.

use vstd::prelude::*;

use crate::text::{dec_digits, dec_digits_padded, push_char, push_u64_decimal, push_u64_padded};

verus! {

/// A rational number `num / den`. Every constructor of the library keeps
/// `den >= 1`; two values are equal when their cross products agree, so
/// `1/2 == 2/4`.
#[derive(Clone, Copy, Debug)]
pub struct Number {
    pub num: i64,
    pub den: u64,
}

/// The mathematical statement that two numerator/denominator pairs denote the
/// same rational: `a.num / a.den == b.num / b.den`, phrased without division.
pub open spec fn same_rational(a: Number, b: Number) -> bool {
    a.num as int * b.den as int == b.num as int * a.den as int
}

/// `a < b` as rationals, phrased by cross multiplication (denominators are
/// never negative, so the comparison does not flip).
pub open spec fn rational_lt(a: Number, b: Number) -> bool {
    (a.num as int * b.den as int) < (b.num as int * a.den as int)
}

/// Whether an exact numerator/denominator pair fits the representation.
pub open spec fn fits_number(n: int, d: int) -> bool {
    i64::MIN <= n <= i64::MAX && 1 <= d <= u64::MAX
}

/// Numerator of the exact sum `a + b` over the common denominator.
pub open spec fn sum_num(a: Number, b: Number) -> int {
    a.num as int * b.den as int + b.num as int * a.den as int
}

/// Numerator of the exact difference `a - b` over the common denominator.
pub open spec fn diff_num(a: Number, b: Number) -> int {
    a.num as int * b.den as int - b.num as int * a.den as int
}

/// Denominator of the exact sum, difference or product of `a` and `b`.
pub open spec fn common_den(a: Number, b: Number) -> int {
    a.den as int * b.den as int
}

/// Numerator of the exact product `a * b`.
pub open spec fn prod_num(a: Number, b: Number) -> int {
    a.num as int * b.num as int
}

/// Numerator of the exact quotient `a / b`, with the sign moved out of the
/// denominator.
pub open spec fn quot_num(a: Number, b: Number) -> int {
    if b.num >= 0 {
        a.num as int * b.den as int
    } else {
        -(a.num as int * b.den as int)
    }
}

/// Denominator of the exact quotient `a / b` (positive whenever `b` is not
/// zero).
pub open spec fn quot_den(a: Number, b: Number) -> int {
    if b.num >= 0 {
        a.den as int * b.num as int
    } else {
        a.den as int * -(b.num as int)
    }
}

/// The product of any 64-bit signed value with any 64-bit unsigned value
/// stays within `2^63 * (2^64 - 1)` in magnitude, well inside 128 bits.
proof fn lemma_cross_product_fits(n: i64, d: u64)
    ensures
        -0x7fffffffffffffff8000000000000000 <= n as int * d as int
            <= 0x7fffffffffffffff8000000000000000,
{
    assert(-0x7fffffffffffffff8000000000000000 <= n as int * d as int
        <= 0x7fffffffffffffff8000000000000000) by (nonlinear_arith)
        requires
            -0x8000_0000_0000_0000 <= n as int <= 0x7fff_ffff_ffff_ffff,
            0 <= d as int <= 0xffff_ffff_ffff_ffff,
    {
    }
}

/// The product of two 64-bit denominators fits 128 unsigned bits.
proof fn lemma_den_product_fits(a: u64, b: u64)
    ensures
        0 <= a as int * b as int <= u128::MAX,
{
    assert(0 <= a as int * b as int <= u128::MAX) by (nonlinear_arith)
        requires
            0 <= a as int <= 0xffff_ffff_ffff_ffff,
            0 <= b as int <= 0xffff_ffff_ffff_ffff,
    {
    }
}

/// The product of two 64-bit signed numerators fits 128 signed bits.
proof fn lemma_num_product_fits(a: i64, b: i64)
    ensures
        i128::MIN <= a as int * b as int <= i128::MAX,
{
    assert(i128::MIN <= a as int * b as int <= i128::MAX) by (nonlinear_arith)
        requires
            -0x8000_0000_0000_0000 <= a as int <= 0x7fff_ffff_ffff_ffff,
            -0x8000_0000_0000_0000 <= b as int <= 0x7fff_ffff_ffff_ffff,
    {
    }
}

impl Number {
    /// Builds the rational `num / den`.
    pub fn new(num: i64, den: u64) -> (r: Number)
        requires
            den >= 1,
        ensures
            r.num == num,
            r.den == den,
    {
        Number { num, den }
    }

    /// Builds the whole number `num / 1`.
    pub fn from_int(num: i64) -> (r: Number)
        ensures
            r.num == num,
            r.den == 1,
    {
        Number { num, den: 1 }
    }

    /// Whether this value is zero.
    pub fn is_zero(&self) -> (r: bool)
        ensures
            r == (self.num == 0),
    {
        self.num == 0
    }

    /// Exact sum, or `None` when the exact result does not fit the
    /// representation.
    pub fn checked_add(&self, other: &Number) -> (r: Option<Number>)
        ensures
            r is Some <==> fits_number(sum_num(*self, *other), common_den(*self, *other)),
            r matches Some(v) ==> v.num as int == sum_num(*self, *other) && v.den as int
                == common_den(*self, *other),
    {
        proof {
            lemma_cross_product_fits(self.num, other.den);
            lemma_cross_product_fits(other.num, self.den);
            lemma_den_product_fits(self.den, other.den);
        }
        let left: i128 = self.num as i128 * other.den as i128;
        let right: i128 = other.num as i128 * self.den as i128;
        let n: i128 = match left.checked_add(right) {
            Some(n) => n,
            None => {
                return None;
            },
        };
        let d: u128 = self.den as u128 * other.den as u128;
        Self::pack(n, d)
    }

    /// Exact difference, or `None` when the exact result does not fit the
    /// representation.
    pub fn checked_sub(&self, other: &Number) -> (r: Option<Number>)
        ensures
            r is Some <==> fits_number(diff_num(*self, *other), common_den(*self, *other)),
            r matches Some(v) ==> v.num as int == diff_num(*self, *other) && v.den as int
                == common_den(*self, *other),
    {
        proof {
            lemma_cross_product_fits(self.num, other.den);
            lemma_cross_product_fits(other.num, self.den);
            lemma_den_product_fits(self.den, other.den);
        }
        let left: i128 = self.num as i128 * other.den as i128;
        let right: i128 = other.num as i128 * self.den as i128;
        let n: i128 = match left.checked_sub(right) {
            Some(n) => n,
            None => {
                return None;
            },
        };
        let d: u128 = self.den as u128 * other.den as u128;
        Self::pack(n, d)
    }

    /// Exact product, or `None` when the exact result does not fit the
    /// representation.
    pub fn checked_mul(&self, other: &Number) -> (r: Option<Number>)
        ensures
            r is Some <==> fits_number(prod_num(*self, *other), common_den(*self, *other)),
            r matches Some(v) ==> v.num as int == prod_num(*self, *other) && v.den as int
                == common_den(*self, *other),
    {
        proof {
            lemma_num_product_fits(self.num, other.num);
            lemma_den_product_fits(self.den, other.den);
        }
        let n: i128 = self.num as i128 * other.num as i128;
        let d: u128 = self.den as u128 * other.den as u128;
        Self::pack(n, d)
    }

    /// Exact quotient, or `None` when the exact result does not fit the
    /// representation. The divisor must not be zero; the caller reports
    /// division by zero before coming here.
    pub fn checked_div(&self, other: &Number) -> (r: Option<Number>)
        requires
            other.num != 0,
        ensures
            r is Some <==> fits_number(quot_num(*self, *other), quot_den(*self, *other)),
            r matches Some(v) ==> v.num as int == quot_num(*self, *other) && v.den as int
                == quot_den(*self, *other),
    {
        proof {
            lemma_cross_product_fits(self.num, other.den);
        }
        let cross: i128 = self.num as i128 * other.den as i128;
        if other.num > 0 {
            proof {
                assert(0 <= self.den as int * other.num as int <= u128::MAX) by (nonlinear_arith)
                    requires
                        0 <= self.den as int <= 0xffff_ffff_ffff_ffff,
                        0 <= other.num as int <= 0x7fff_ffff_ffff_ffff,
                {
                }
            }
            let d: u128 = self.den as u128 * other.num as u128;
            Self::pack(cross, d)
        } else {
            let flipped: u128 = (-(other.num as i128)) as u128;
            proof {
                lemma_den_product_fits(self.den, (-(other.num as int)) as u64);
            }
            let d: u128 = self.den as u128 * flipped;
            Self::pack(-cross, d)
        }
    }

    /// Exact negation, or `None` for the one numerator whose negation does
    /// not fit.
    pub fn checked_neg(&self) -> (r: Option<Number>)
        ensures
            r is Some <==> self.num != i64::MIN,
            r matches Some(v) ==> v.num as int == -(self.num as int) && v.den == self.den,
    {
        if self.num == i64::MIN {
            None
        } else {
            Some(Number { num: -self.num, den: self.den })
        }
    }

    /// `self < other` as rationals.
    pub fn lt(&self, other: &Number) -> (r: bool)
        ensures
            r == rational_lt(*self, *other),
    {
        proof {
            lemma_cross_product_fits(self.num, other.den);
            lemma_cross_product_fits(other.num, self.den);
        }
        let left: i128 = self.num as i128 * other.den as i128;
        let right: i128 = other.num as i128 * self.den as i128;
        left < right
    }

    /// `self <= other` as rationals.
    pub fn le(&self, other: &Number) -> (r: bool)
        ensures
            r == !rational_lt(*other, *self),
    {
        !other.lt(self)
    }

    /// Packs an exact 128-bit numerator/denominator pair back into the
    /// representation, or reports that it does not fit.
    fn pack(n: i128, d: u128) -> (r: Option<Number>)
        ensures
            r is Some <==> fits_number(n as int, d as int),
            r matches Some(v) ==> v.num as int == n as int && v.den as int == d as int,
    {
        if n < i64::MIN as i128 || n > i64::MAX as i128 || d < 1 || d > u64::MAX as u128 {
            None
        } else {
            Some(Number { num: n as i64, den: d as u64 })
        }
    }
}

/// Ten raised to the power `k`.
pub open spec fn pow10(k: nat) -> nat
    decreases k,
{
    if k == 0 {
        1
    } else {
        10 * pow10((k - 1) as nat)
    }
}

/// The exponent `k` with `d == 10^k`, or `None` when `d` is not a power of
/// ten.
pub open spec fn pow10_exp(d: int) -> Option<nat>
    decreases d,
{
    if d <= 0 {
        None
    } else if d == 1 {
        Some(0 as nat)
    } else if d % 10 == 0 {
        match pow10_exp(d / 10) {
            Some(k) => Some(k + 1),
            None => None,
        }
    } else {
        None
    }
}

/// A fractional part of `fp` over `10^k` digits, with trailing zeroes
/// stripped and the rest zero-padded to its width.
pub open spec fn frac_digits(fp: nat, k: nat) -> Seq<char>
    decreases k,
{
    if k > 0 && fp % 10 == 0 {
        frac_digits(fp / 10, (k - 1) as nat)
    } else {
        dec_digits_padded(fp, k)
    }
}

/// The text of the non-negative rational `n / d`: a plain numeral for a
/// whole number, integer and fraction parts around a point when `d` is a
/// power of ten, and a `numerator/denominator` form otherwise.
pub open spec fn unsigned_number_text(n: nat, d: int) -> Seq<char> {
    match pow10_exp(d) {
        Some(k) => if n as int % d == 0 {
            dec_digits((n as int / d) as nat)
        } else {
            dec_digits((n as int / d) as nat) + seq!['.'] + frac_digits((n as int % d) as nat, k)
        },
        None => dec_digits(n) + seq!['/'] + dec_digits(d as nat),
    }
}

/// The text of the rational `num / den`; negative values carry a leading
/// minus sign.
pub open spec fn number_text(num: int, den: int) -> Seq<char> {
    if num < 0 {
        seq!['-'] + unsigned_number_text((-num) as nat, den)
    } else {
        unsigned_number_text(num as nat, den)
    }
}

/// When `d` is recognised as the power `10^k`, it really equals `pow10(k)`,
/// which is at least `k + 1`.
proof fn lemma_pow10_exp(d: int)
    ensures
        pow10_exp(d) matches Some(k) ==> d == pow10(k) && pow10(k) >= k + 1,
    decreases d,
{
    if d > 1 && d % 10 == 0 {
        lemma_pow10_exp(d / 10);
    }
}

/// Recognises a power of ten, returning its exponent.
fn pow10_exp_of(d: u64) -> (r: Option<u64>)
    ensures
        r matches Some(k) ==> pow10_exp(d as int) == Some(k as nat),
        r is None ==> pow10_exp(d as int) is None,
    decreases d,
{
    if d == 0 {
        None
    } else if d == 1 {
        Some(0)
    } else if d % 10 == 0 {
        match pow10_exp_of(d / 10) {
            Some(k) => {
                proof {
                    lemma_pow10_exp(d as int / 10);
                }
                Some(k + 1)
            },
            None => None,
        }
    } else {
        None
    }
}

/// Appends a fractional part as `frac_digits` describes.
fn push_frac(s: &mut String, fp: u64, k: u64)
    ensures
        final(s)@ == old(s)@ + frac_digits(fp as nat, k as nat),
    decreases k,
{
    if k > 0 && fp % 10 == 0 {
        push_frac(s, fp / 10, k - 1);
    } else {
        push_u64_padded(s, fp, k);
    }
}

impl Number {
    /// Renders the value as text: `123`, `420.69`, `-0.5`, or `1/3` for a
    /// denominator that is not a power of ten.
    pub fn text(&self) -> (r: String)
        ensures
            r@ == number_text(self.num as int, self.den as int),
    {
        let mut s = String::new();
        let mag: u64 = if self.num < 0 {
            push_char(&mut s, '-');
            (-(self.num as i128)) as u64
        } else {
            self.num as u64
        };
        match pow10_exp_of(self.den) {
            Some(k) => {
                proof {
                    lemma_pow10_exp(self.den as int);
                }
                let ip: u64 = mag / self.den;
                let fp: u64 = mag % self.den;
                push_u64_decimal(&mut s, ip);
                if fp != 0 {
                    push_char(&mut s, '.');
                    push_frac(&mut s, fp, k);
                }
            },
            None => {
                push_u64_decimal(&mut s, mag);
                push_char(&mut s, '/');
                push_u64_decimal(&mut s, self.den);
            },
        }
        proof {
            assert(s@ =~= number_text(self.num as int, self.den as int));
        }
        s
    }
}

impl PartialEq for Number {
    /// Rational equality by cross multiplication; the products of a 64-bit
    /// numerator and denominator always fit a 128-bit intermediate.
    fn eq(&self, other: &Number) -> (r: bool)
        ensures
            r == same_rational(*self, *other),
    {
        proof {
            lemma_cross_product_fits(self.num, other.den);
            lemma_cross_product_fits(other.num, self.den);
        }
        let left: i128 = self.num as i128 * other.den as i128;
        let right: i128 = other.num as i128 * self.den as i128;
        left == right
    }
}

impl vstd::std_specs::cmp::PartialEqSpecImpl for Number {
    open spec fn obeys_eq_spec() -> bool {
        true
    }

    open spec fn eq_spec(&self, other: &Number) -> bool {
        same_rational(*self, *other)
    }
}

} // verus!
