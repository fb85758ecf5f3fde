//! JSON numbers as exact decimals.
//!
//! A number is `coefficient * 10^exponent`, held in lowest form: the
//! coefficient carries no trailing zero, and zero is written `0 * 10^0`.
//! Two numbers are therefore equal exactly when their forms agree.

use vstd::prelude::*;

verus! {

/// The mathematical reading of a number: `coefficient * 10^exponent`.
pub struct Decimal {
    pub coefficient: int,
    pub exponent: int,
}

/// Ten to the power `n`.
pub open spec fn pow10(n: nat) -> nat
    decreases n,
{
    if n == 0 {
        1
    } else {
        10 * pow10((n - 1) as nat)
    }
}

/// The absolute value of `c`.
pub open spec fn magnitude_of(c: int) -> int {
    if c < 0 {
        -c
    } else {
        c
    }
}

/// The decimal zero.
pub open spec fn decimal_zero() -> Decimal {
    Decimal { coefficient: 0, exponent: 0 }
}

/// The lowest form of `coefficient * 10^exponent`: trailing zeros of the
/// coefficient move into the exponent.
pub open spec fn reduced(coefficient: int, exponent: int) -> Decimal
    decreases magnitude_of(coefficient),
{
    if coefficient == 0 {
        decimal_zero()
    } else if coefficient % 10 == 0 {
        reduced(coefficient / 10, exponent + 1)
    } else {
        Decimal { coefficient, exponent }
    }
}

/// Whether a decimal is in lowest form.
pub open spec fn is_lowest(d: Decimal) -> bool {
    if d.coefficient == 0 {
        d.exponent == 0
    } else {
        d.coefficient % 10 != 0
    }
}

/// Whether a decimal in lowest form fits the machine representation.
pub open spec fn fits(d: Decimal) -> bool {
    &&& magnitude_of(d.coefficient) <= u128::MAX
    &&& i64::MIN <= d.exponent <= i64::MAX
}

/// The product of two decimals, or zero where the product does not fit.
pub open spec fn product_of(a: Decimal, b: Decimal) -> Decimal {
    let c = a.coefficient * b.coefficient;
    let r = reduced(c, a.exponent + b.exponent);
    if magnitude_of(c) <= u128::MAX && fits(r) {
        r
    } else {
        decimal_zero()
    }
}

/// The sum of two decimals, or zero where the sum does not fit.
///
/// Both operands are first brought to the smaller of the two exponents.
pub open spec fn sum_of(a: Decimal, b: Decimal) -> Decimal {
    if a.coefficient == 0 {
        b
    } else if b.coefficient == 0 {
        a
    } else {
        let e = if a.exponent <= b.exponent {
            a.exponent
        } else {
            b.exponent
        };
        let ca = a.coefficient * pow10((a.exponent - e) as nat);
        let cb = b.coefficient * pow10((b.exponent - e) as nat);
        let r = reduced(ca + cb, e);
        if magnitude_of(ca) <= u128::MAX && magnitude_of(cb) <= u128::MAX && magnitude_of(ca + cb)
            <= u128::MAX && fits(r) {
            r
        } else {
            decimal_zero()
        }
    }
}

/// The value of a decimal as an unsigned 64-bit integer, where it is one.
pub open spec fn as_u64_of(d: Decimal) -> Option<u64> {
    if d.coefficient >= 0 && d.exponent >= 0 && d.coefficient * pow10(d.exponent as nat)
        <= u64::MAX {
        Some((d.coefficient * pow10(d.exponent as nat)) as u64)
    } else {
        None
    }
}

proof fn lemma_pow10_positive(n: nat)
    ensures
        pow10(n) >= 1,
    decreases n,
{
    if n > 0 {
        lemma_pow10_positive((n - 1) as nat);
    }
}

proof fn lemma_pow10_monotonic(m: nat, n: nat)
    requires
        m <= n,
    ensures
        pow10(m) <= pow10(n),
    decreases n,
{
    if m < n {
        lemma_pow10_monotonic(m, (n - 1) as nat);
        lemma_pow10_positive((n - 1) as nat);
    }
}

/// A power of ten that fits 128 bits has an exponent of at most 38.
proof fn lemma_pow10_fits(n: nat)
    requires
        pow10(n) <= u128::MAX,
    ensures
        n <= 38,
{
    if n >= 39 {
        lemma_pow10_monotonic(39, n);
        reveal_with_fuel(pow10, 40);
        assert(pow10(39) > u128::MAX);
    }
}

/// Reducing commutes with negation.
proof fn lemma_reduced_negation(c: int, e: int)
    ensures
        reduced(-c, e).coefficient == -reduced(c, e).coefficient,
        reduced(-c, e).exponent == reduced(c, e).exponent,
    decreases magnitude_of(c),
{
    if c != 0 && c % 10 == 0 {
        assert((-c) % 10 == 0);
        assert((-c) / 10 == -(c / 10));
        lemma_reduced_negation(c / 10, e + 1);
    } else if c != 0 {
        assert((-c) % 10 != 0);
    }
}

/// A reduced decimal is in lowest form.
proof fn lemma_reduced_is_lowest(c: int, e: int)
    ensures
        is_lowest(reduced(c, e)),
        c != 0 ==> reduced(c, e).coefficient != 0,
        magnitude_of(reduced(c, e).coefficient) <= magnitude_of(c),
        (c >= 0) == (reduced(c, e).coefficient >= 0) || c == 0,
    decreases magnitude_of(c),
{
    if c != 0 && c % 10 == 0 {
        lemma_reduced_is_lowest(c / 10, e + 1);
    }
}

/// A JSON number.
#[derive(Clone, Copy, Debug, PartialEq, Eq)]
pub struct Number {
    negative: bool,
    magnitude: u128,
    exponent: i64,
}

impl View for Number {
    type V = Decimal;

    /// The value of the number, read in lowest form.
    closed spec fn view(&self) -> Decimal {
        let r = reduced(signed(self.negative, self.magnitude), self.exponent as int);
        if fits(r) {
            r
        } else {
            decimal_zero()
        }
    }
}

/// A number that is held in lowest form reads as it is held.
proof fn lemma_held(n: Number)
    requires
        n.lowest_form(),
    ensures
        n@ == (Decimal { coefficient: signed(n.negative, n.magnitude), exponent: n.exponent as int }),
{
    let c = signed(n.negative, n.magnitude);
    if n.magnitude != 0 {
        assert(c % 10 != 0);
    }
}

/// Every number reads as a decimal in lowest form that fits the machine
/// representation.
pub proof fn every_number_is_in_lowest_form(n: Number)
    ensures
        is_lowest(n@),
        fits(n@),
{
    lemma_reduced_is_lowest(signed(n.negative, n.magnitude), n.exponent as int);
}

impl Number {
    /// Whether the number is held in lowest form.
    #[verifier::type_invariant]
    pub closed spec fn lowest_form(&self) -> bool {
        &&& self.magnitude == 0 ==> !self.negative && self.exponent == 0
        &&& self.magnitude != 0 ==> self.magnitude % 10 != 0
    }

    /// The lowest form of `±magnitude * 10^exponent`, where it fits.
    fn lowest(negative: bool, magnitude: u128, exponent: i128) -> (r: Option<Number>)
        requires
            -0x2_0000_0000_0000_0000 <= exponent <= 0x2_0000_0000_0000_0000,
        ensures
            r == Some(r->0) <==> fits(reduced(signed(negative, magnitude), exponent as int)),
            r is Some ==> r->0@ == reduced(signed(negative, magnitude), exponent as int),
            magnitude != 0 ==> exponent <= reduced(
                signed(negative, magnitude),
                exponent as int,
            ).exponent <= exponent + 38,
    {
        let mut m: u128 = magnitude;
        let mut e: i128 = exponent;
        let ghost mut k: nat = 0;
        proof {
            assert(pow10(0) == 1);
        }
        while m != 0 && m % 10 == 0
            invariant
                reduced(m as int, e as int) == reduced(magnitude as int, exponent as int),
                m * pow10(k) == magnitude,
                e == exponent + k,
                k <= 38,
                -0x2_0000_0000_0000_0000 <= exponent <= 0x2_0000_0000_0000_0000,
            decreases m,
        {
            proof {
                let q = (m / 10) as int;
                let p = pow10(k) as int;
                assert(pow10(k + 1) == 10 * p);
                assert(q * (10 * p) == (q * 10) * p) by (nonlinear_arith);
                assert(q * pow10(k + 1) == magnitude);
                assert(q >= 1);
                lemma_pow10_positive(k + 1);
                assert(pow10(k + 1) <= q * pow10(k + 1)) by (nonlinear_arith)
                    requires
                        q >= 1,
                        pow10(k + 1) >= 1,
                ;
                lemma_pow10_fits(k + 1);
                k = k + 1;
            }
            m = m / 10;
            e = e + 1;
        }
        proof {
            lemma_reduced_negation(magnitude as int, exponent as int);
            if m == 0 {
                assert(magnitude == 0) by (nonlinear_arith)
                    requires
                        m == 0,
                        m * pow10(k) == magnitude,
                ;
            } else {
                lemma_pow10_positive(k);
                assert(magnitude != 0) by (nonlinear_arith)
                    requires
                        m != 0,
                        pow10(k) >= 1,
                        m * pow10(k) == magnitude,
                ;
            }
        }
        if m == 0 {
            let n = Number { negative: false, magnitude: 0, exponent: 0 };
            proof {
                lemma_held(n);
            }
            Some(n)
        } else if -0x8000_0000_0000_0000 <= e && e <= 0x7fff_ffff_ffff_ffff {
            let n = Number { negative, magnitude: m, exponent: e as i64 };
            proof {
                lemma_held(n);
            }
            Some(n)
        } else {
            None
        }
    }

    /// The number zero.
    pub fn zero() -> (r: Number)
        ensures
            r@ == decimal_zero(),
    {
        let n = Number { negative: false, magnitude: 0, exponent: 0 };
        proof {
            lemma_held(n);
        }
        n
    }

    /// The number `±magnitude * 10^exponent`, or nothing where its lowest
    /// form has an exponent outside the 64-bit range.
    pub fn from_parts(negative: bool, magnitude: u128, exponent: i64) -> (r: Option<Number>)
        ensures
            r is Some <==> fits(reduced(signed(negative, magnitude), exponent as int)),
            r is Some ==> r->0@ == reduced(signed(negative, magnitude), exponent as int),
    {
        Number::lowest(negative, magnitude, exponent as i128)
    }

    /// The number `v`.
    pub fn from_u64(v: u64) -> (r: Number)
        ensures
            r@ == reduced(v as int, 0),
    {
        proof {
            lemma_reduced_is_lowest(v as int, 0);
        }
        match Number::lowest(false, v as u128, 0) {
            Some(n) => n,
            None => Number::zero(),
        }
    }

    /// The number `v`.
    pub fn from_usize(v: usize) -> (r: Number)
        ensures
            r@ == reduced(v as int, 0),
    {
        proof {
            lemma_reduced_is_lowest(v as int, 0);
        }
        match Number::lowest(false, v as u128, 0) {
            Some(n) => n,
            None => Number::zero(),
        }
    }

    /// The number `v`.
    pub fn from_i64(v: i64) -> (r: Number)
        ensures
            r@ == reduced(v as int, 0),
    {
        let negative = v < 0;
        let magnitude: u128 = if negative {
            (-(v as i128)) as u128
        } else {
            v as u128
        };
        proof {
            lemma_reduced_is_lowest(v as int, 0);
        }
        match Number::lowest(negative, magnitude, 0) {
            Some(n) => n,
            None => Number::zero(),
        }
    }

    /// Whether the number is below zero.
    pub fn is_negative(&self) -> (r: bool)
        ensures
            r == (self@.coefficient < 0),
    {
        proof {
            use_type_invariant(self);
            lemma_held(*self);
        }
        self.negative
    }

    /// The absolute value of the coefficient.
    pub fn magnitude(&self) -> (r: u128)
        ensures
            r == magnitude_of(self@.coefficient),
    {
        proof {
            use_type_invariant(self);
            lemma_held(*self);
        }
        self.magnitude
    }

    /// The exponent of ten.
    pub fn exponent(&self) -> (r: i64)
        ensures
            r == self@.exponent,
    {
        proof {
            use_type_invariant(self);
            lemma_held(*self);
        }
        self.exponent
    }

    /// Whether two numbers have the same value.
    pub fn equals(&self, other: &Number) -> (r: bool)
        ensures
            r == (self@ == other@),
    {
        proof {
            use_type_invariant(self);
            lemma_held(*self);
            use_type_invariant(other);
            lemma_held(*other);
        }
        self.negative == other.negative && self.magnitude == other.magnitude && self.exponent
            == other.exponent
    }

    /// The value as an unsigned 64-bit integer, where it is one.
    pub fn as_u64(&self) -> (r: Option<u64>)
        ensures
            r == as_u64_of(self@),
    {
        proof {
            use_type_invariant(self);
            lemma_held(*self);
        }
        if self.negative || self.exponent < 0 || self.magnitude > 0xffff_ffff_ffff_ffff {
            proof {
                if !self.negative && self.exponent >= 0 {
                    lemma_pow10_positive(self.exponent as nat);
                    assert(self.magnitude * pow10(self.exponent as nat) >= self.magnitude)
                        by (nonlinear_arith)
                        requires
                            pow10(self.exponent as nat) >= 1,
                    ;
                }
            }
            return None;
        }
        let mut acc: u64 = self.magnitude as u64;
        let mut i: i64 = 0;
        proof {
            assert(pow10(0) == 1);
            assert(self.magnitude * pow10(0) == self.magnitude);
        }
        while i < self.exponent
            invariant
                0 <= i <= self.exponent,
                acc == self.magnitude * pow10(i as nat),
                !self.negative,
                self@ == (Decimal {
                    coefficient: self.magnitude as int,
                    exponent: self.exponent as int,
                }),
            decreases self.exponent - i,
        {
            match acc.checked_mul(10) {
                Some(next) => {
                    acc = next;
                },
                None => {
                    proof {
                        let m = self.magnitude as int;
                        let p = pow10(i as nat) as int;
                        let full = pow10(self.exponent as nat) as int;
                        lemma_pow10_monotonic((i + 1) as nat, self.exponent as nat);
                        assert(pow10((i + 1) as nat) == 10 * p);
                        assert(m * (10 * p) == (m * p) * 10) by (nonlinear_arith);
                        assert(m * full >= m * (10 * p)) by (nonlinear_arith)
                            requires
                                m >= 0,
                                full >= 10 * p,
                        ;
                    }
                    return None;
                },
            }
            proof {
                let m = self.magnitude as int;
                let p = pow10(i as nat) as int;
                assert(pow10((i + 1) as nat) == 10 * p);
                assert(m * (10 * p) == (m * p) * 10) by (nonlinear_arith);
            }
            i = i + 1;
        }
        Some(acc)
    }

    /// The product of two numbers, or zero where the product does not fit.
    pub fn product(&self, other: &Number) -> (r: Number)
        ensures
            r@ == product_of(self@, other@),
    {
        proof {
            use_type_invariant(self);
            lemma_held(*self);
            use_type_invariant(other);
            lemma_held(*other);
            lemma_signed_product(self.negative, self.magnitude, other.negative, other.magnitude);
        }
        match self.magnitude.checked_mul(other.magnitude) {
            None => Number::zero(),
            Some(m) => {
                let e: i128 = self.exponent as i128 + other.exponent as i128;
                match Number::lowest(self.negative != other.negative, m, e) {
                    Some(n) => n,
                    None => Number::zero(),
                }
            },
        }
    }

    /// The sum of two numbers, or zero where the sum does not fit.
    pub fn sum(&self, other: &Number) -> (r: Number)
        ensures
            r@ == sum_of(self@, other@),
    {
        proof {
            use_type_invariant(self);
            lemma_held(*self);
            use_type_invariant(other);
            lemma_held(*other);
        }
        if self.magnitude == 0 {
            return *other;
        }
        if other.magnitude == 0 {
            return *self;
        }
        if self.exponent <= other.exponent {
            Number::sum_aligned(self, other)
        } else {
            let r = Number::sum_aligned(other, self);
            proof {
                lemma_pow10_positive(0);
            }
            r
        }
    }

    /// The sum of two numbers other than zero, the first with the smaller
    /// exponent.
    fn sum_aligned(low: &Number, high: &Number) -> (r: Number)
        requires
            low.magnitude != 0,
            high.magnitude != 0,
            low.exponent <= high.exponent,
        ensures
            r@ == sum_of(low@, high@),
            r@ == sum_of(high@, low@),
    {
        proof {
            use_type_invariant(low);
            lemma_held(*low);
            use_type_invariant(high);
            lemma_held(*high);
        }
        let diff: u128 = (high.exponent as i128 - low.exponent as i128) as u128;
        let mut acc: u128 = high.magnitude;
        let mut i: u128 = 0;
        proof {
            assert(pow10(0) == 1);
        }
        while i < diff
            invariant
                0 <= i <= diff,
                acc == high.magnitude * pow10(i as nat),
                diff == high.exponent - low.exponent,
                high.magnitude != 0,
                low.magnitude != 0,
                low@ == (Decimal {
                    coefficient: signed(low.negative, low.magnitude),
                    exponent: low.exponent as int,
                }),
                high@ == (Decimal {
                    coefficient: signed(high.negative, high.magnitude),
                    exponent: high.exponent as int,
                }),
            decreases diff - i,
        {
            match acc.checked_mul(10) {
                Some(next) => {
                    acc = next;
                },
                None => {
                    proof {
                        let m = high.magnitude as int;
                        let p = pow10(i as nat) as int;
                        let full = pow10(diff as nat) as int;
                        lemma_pow10_monotonic((i + 1) as nat, diff as nat);
                        assert(pow10((i + 1) as nat) == 10 * p);
                        assert(m * (10 * p) == (m * p) * 10) by (nonlinear_arith);
                        assert(m * full >= m * (10 * p)) by (nonlinear_arith)
                            requires
                                m >= 0,
                                full >= 10 * p,
                        ;
                        lemma_signed_scaled(high.negative, high.magnitude, full);
                        assert(low@.coefficient != 0 && high@.coefficient != 0);
                        assert(magnitude_of(high@.coefficient * full) > u128::MAX);
                    }
                    return Number::zero();
                },
            }
            proof {
                let m = high.magnitude as int;
                let p = pow10(i as nat) as int;
                assert(pow10((i + 1) as nat) == 10 * p);
                assert(m * (10 * p) == (m * p) * 10) by (nonlinear_arith);
            }
            i = i + 1;
        }
        proof {
            let full = pow10(diff as nat) as int;
            lemma_signed_scaled(high.negative, high.magnitude, full);
            assert(pow10(0) == 1);
            assert(low@.coefficient != 0 && high@.coefficient != 0);
            let one = pow10(0) as int;
            let lc = low@.coefficient;
            assert(lc * one == lc) by (nonlinear_arith)
                requires
                    one == 1,
            ;
            assert(lc == signed(low.negative, low.magnitude));
            assert(high@.coefficient * full == signed(high.negative, acc));
            assert(magnitude_of(high@.coefficient * full) == acc);
        }
        let e: i128 = low.exponent as i128;
        let combined: Option<Number> = if low.negative == high.negative {
            match low.magnitude.checked_add(acc) {
                Some(total) => Number::lowest(low.negative, total, e),
                None => None,
            }
        } else if low.magnitude >= acc {
            Number::lowest(low.negative, low.magnitude - acc, e)
        } else {
            Number::lowest(high.negative, acc - low.magnitude, e)
        };
        match combined {
            Some(n) => n,
            None => Number::zero(),
        }
    }
}

/// The integer `±magnitude`.
pub open spec fn signed(negative: bool, magnitude: u128) -> int {
    if negative {
        -(magnitude as int)
    } else {
        magnitude as int
    }
}

proof fn lemma_signed_product(na: bool, ma: u128, nb: bool, mb: u128)
    ensures
        signed(na, ma) * signed(nb, mb) == if na != nb {
            -(ma * mb)
        } else {
            ma * mb
        },
        magnitude_of(signed(na, ma) * signed(nb, mb)) == ma * mb,
{
    let a = ma as int;
    let b = mb as int;
    assert((-a) * b == -(a * b)) by (nonlinear_arith);
    assert(a * (-b) == -(a * b)) by (nonlinear_arith);
    assert((-a) * (-b) == a * b) by (nonlinear_arith);
    assert(a * b >= 0) by (nonlinear_arith)
        requires
            a >= 0,
            b >= 0,
    ;
}

proof fn lemma_signed_scaled(negative: bool, magnitude: u128, factor: int)
    requires
        factor >= 0,
    ensures
        signed(negative, magnitude) * factor == if negative {
            -(magnitude * factor)
        } else {
            magnitude * factor
        },
        magnitude_of(signed(negative, magnitude) * factor) == magnitude * factor,
{
    let a = magnitude as int;
    assert((-a) * factor == -(a * factor)) by (nonlinear_arith);
    assert(a * factor >= 0) by (nonlinear_arith)
        requires
            a >= 0,
            factor >= 0,
    ;
}

} // verus!
