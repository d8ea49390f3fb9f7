//! The decimal tier of the numeric tower: binary floating-point numbers
//! `significand * 2^exponent` held at one fixed working precision.

use vstd::prelude::*;
use vstd::arithmetic::power2::pow2;
use vstd::arithmetic::power2::lemma_pow2_unfold;
use vstd::arithmetic::power2::lemma_pow2_pos;
use vstd::arithmetic::power2::lemma_pow2_strictly_increases;
use vstd::arithmetic::power2::lemma2_to64;
use vstd::arithmetic::power2::lemma2_to64_rest;
use vstd::arithmetic::power2::lemma_pow2_adds;
use crate::decimal;
use crate::decimal::dyadic;
use crate::decimal::bit_length;
use crate::decimal::log_ceiling;
use crate::decimal::span;
use crate::decimal::integer_power_supported;
use crate::decimal::power_supported;
use crate::decimal::POWER_LIMIT;
use crate::decimal::decimal_sum;
use crate::decimal::decimal_difference;
use crate::decimal::decimal_product;
use crate::decimal::decimal_quotient;
use crate::decimal::decimal_integer_power;
use crate::decimal::decimal_power;
use crate::decimal::decimal_text;

verus! {

/// The working precision of every decimal operation, in bits. It is high
/// enough that the sum, the difference and the product of any two
/// fixed-width integers are exact.
pub const REAL_PRECISION: usize = 126;

/// Exponents of magnitude above this bound are outside the supported range.
pub const EXPONENT_LIMIT: i64 = 0x100_0000;

/// Integers up to this bound in magnitude, `2^126`, are never rounded.
pub const EXACT_LIMIT: i128 = 0x4000_0000_0000_0000_0000_0000_0000_0000;

/// The model of a [`Real`]: the number `significand * 2^exponent`.
pub ghost struct Dyadic {
    pub significand: int,
    pub exponent: int,
}

impl Dyadic {
    /// The number zero.
    pub open spec fn zero() -> Dyadic {
        Dyadic { significand: 0, exponent: 0 }
    }

    /// The number one.
    pub open spec fn one() -> Dyadic {
        Dyadic { significand: 1, exponent: 0 }
    }

    /// Every number has one normal form: an odd significand, or zero with
    /// exponent zero.
    pub open spec fn normalized(self) -> bool {
        if self.significand == 0 {
            self.exponent == 0
        } else {
            self.significand % 2 != 0
        }
    }

    /// The normal form of the same number.
    pub open spec fn normal(self) -> Dyadic
        decreases
                (if self.significand < 0 {
                    -self.significand
                } else {
                    self.significand
                }),
    {
        if self.significand == 0 {
            Dyadic::zero()
        } else if self.significand % 2 == 0 {
            (Dyadic { significand: self.significand / 2, exponent: self.exponent + 1 }).normal()
        } else {
            self
        }
    }

    /// What a [`Real`] can hold: a normal form whose significand is below
    /// `2^127` in magnitude, the working precision and one guard bit, and
    /// whose exponent is within the exponent bound.
    pub open spec fn in_range(self) -> bool {
        &&& self.normalized()
        &&& i128::MIN < self.significand <= i128::MAX
        &&& -EXPONENT_LIMIT <= self.exponent <= EXPONENT_LIMIT
    }

    /// The number is the integer `n`.
    pub open spec fn is_integer(self, n: int) -> bool {
        self.exponent >= 0 && self.significand * pow2(self.exponent as nat) == n
    }

    /// The integer that a number with a non-negative exponent stands for.
    pub open spec fn integer(self) -> int
        recommends
            self.exponent >= 0,
    {
        self.significand * pow2(self.exponent as nat)
    }

    /// The normal form of the integer `n`.
    pub open spec fn of_int(n: int) -> Dyadic {
        (Dyadic { significand: n, exponent: 0 }).normal()
    }

    /// The number itself where a [`Real`] can hold it, nothing otherwise.
    pub open spec fn kept(self) -> Option<Dyadic> {
        if self.in_range() {
            Some(self)
        } else {
            None
        }
    }

    /// The number with the opposite sign.
    pub open spec fn negation(self) -> Dyadic {
        Dyadic { significand: -self.significand, exponent: self.exponent }
    }

    /// Only zero has a normal form with significand zero.
    pub proof fn lemma_of_int_zero(n: int)
        ensures
            Dyadic::of_int(n).significand == 0 <==> n == 0,
    {
        (Dyadic { significand: n, exponent: 0 }).lemma_normal_integer();
    }

    /// Normalizing keeps an integer's value and never lowers the exponent.
    pub proof fn lemma_normal_integer(self)
        requires
            self.exponent >= 0,
        ensures
            self.normal().normalized(),
            self.normal().exponent >= 0,
            self.normal().integer() == self.integer(),
            self.significand >= 0 ==> 0 <= self.normal().significand <= self.significand,
            self.significand <= 0 ==> self.significand <= self.normal().significand <= 0,
            self.significand != 0 ==> self.normal().significand != 0,
        decreases
                (if self.significand < 0 {
                    -self.significand
                } else {
                    self.significand
                }),
    {
        if self.significand != 0 && self.significand % 2 == 0 {
            let half = Dyadic { significand: self.significand / 2, exponent: self.exponent + 1 };
            half.lemma_normal_integer();
            lemma_pow2_unfold((self.exponent + 1) as nat);
            assert(half.significand * pow2(half.exponent as nat) == self.significand * pow2(
                self.exponent as nat,
            )) by (nonlinear_arith)
                requires
                    half.significand * 2 == self.significand,
                    pow2(half.exponent as nat) == 2 * pow2(self.exponent as nat),
            ;
        }
    }

    /// A normal form that stands for an integer below `2^bits` in magnitude
    /// has fewer than `bits` in its exponent.
    pub proof fn lemma_integer_bounds(self, bits: nat)
        requires
            self.normalized(),
            self.exponent >= 0,
            -pow2(bits) < self.integer() < pow2(bits),
        ensures
            -pow2(bits) < self.significand < pow2(bits),
            self.significand != 0 ==> self.exponent < bits,
    {
        let p = pow2(self.exponent as nat);
        lemma_pow2_pos(self.exponent as nat);
        let s = self.significand;
        if s != 0 {
            assert(s > 0 ==> s <= s * p) by (nonlinear_arith)
                requires
                    p >= 1,
            ;
            assert(s < 0 ==> s * p <= s) by (nonlinear_arith)
                requires
                    p >= 1,
            ;
            assert(s > 0 ==> p <= s * p) by (nonlinear_arith)
                requires
                    p >= 1,
            ;
            assert(s < 0 ==> s * p <= -p) by (nonlinear_arith)
                requires
                    p >= 1,
            ;
            if self.exponent > bits {
                lemma_pow2_strictly_increases(bits, self.exponent as nat);
            }
        }
    }
}

/// The normal form of an integer of at most `2^126` in magnitude is within
/// range, and stands for that integer.
pub proof fn lemma_of_int_in_range(n: int)
    requires
        -EXACT_LIMIT <= n <= EXACT_LIMIT,
    ensures
        Dyadic::of_int(n).in_range(),
        Dyadic::of_int(n).is_integer(n),
{
    let start = Dyadic { significand: n, exponent: 0 };
    start.lemma_normal_integer();
    lemma2_to64();
    lemma2_to64_rest();
    lemma_pow2_adds(64, 63);
    lemma_pow2_adds(64, 62);
    assert(start.integer() == n);
    start.normal().lemma_integer_bounds(127);
}

/// The model of an optional value.
pub open spec fn optional_view(r: Option<Real>) -> Option<Dyadic> {
    match r {
        Some(x) => Some(x@),
        None => None,
    }
}

/// A decimal value of the numeric tower.
///
/// The value is `significand * 2^exponent`, always in normal form and
/// within the supported range.
#[derive(Debug, PartialEq, Eq)]
pub struct Real {
    significand: i128,
    exponent: i64,
}

impl View for Real {
    type V = Dyadic;

    closed spec fn view(&self) -> Dyadic {
        Dyadic { significand: self.significand as int, exponent: self.exponent as int }
    }
}

impl Clone for Real {
    fn clone(&self) -> (copy: Real)
        ensures
            copy@ == self@,
    {
        proof {
            use_type_invariant(self);
        }
        Real { significand: self.significand, exponent: self.exponent }
    }
}

/// The magnitude of a signed significand.
fn magnitude(significand: i128) -> (m: u128)
    ensures
        significand >= 0 ==> m == significand,
        significand < 0 ==> m == -significand,
{
    if significand >= 0 {
        significand as u128
    } else if significand == i128::MIN {
        0x8000_0000_0000_0000_0000_0000_0000_0000u128
    } else {
        (-significand) as u128
    }
}

impl Real {
    #[verifier::type_invariant]
    spec fn valid(&self) -> bool {
        self@.in_range()
    }

    /// The significand of the normal form.
    pub fn significand(&self) -> (s: i128)
        ensures
            s == self@.significand,
            self@.in_range(),
    {
        proof {
            use_type_invariant(self);
        }
        self.significand
    }

    /// The binary exponent of the normal form.
    pub fn exponent(&self) -> (e: i64)
        ensures
            e == self@.exponent,
            self@.in_range(),
    {
        proof {
            use_type_invariant(self);
        }
        self.exponent
    }

    /// Whether the value is zero.
    pub fn is_zero(&self) -> (zero: bool)
        ensures
            zero == (self@.significand == 0),
            zero == (self@ == Dyadic::zero()),
    {
        proof {
            use_type_invariant(self);
        }
        self.significand == 0
    }

    /// The value `significand * 2^exponent` brought to normal form, if the
    /// normal form is within the supported range.
    pub fn from_parts(significand: i128, exponent: i64) -> (made: Option<Real>)
        ensures
            match made {
                Some(r) => r@ == (Dyadic {
                    significand: significand as int,
                    exponent: exponent as int,
                }).normal(),
                None => !(Dyadic {
                    significand: significand as int,
                    exponent: exponent as int,
                }).normal().in_range(),
            },
    {
        let ghost start = Dyadic { significand: significand as int, exponent: exponent as int };
        if significand == 0 {
            return Some(Real { significand: 0, exponent: 0 });
        }
        let negative = significand < 0;
        let mut m: u128 = magnitude(significand);
        let mut e: i128 = exponent as i128;
        proof {
            lemma2_to64();
            assert(pow2((e - exponent) as nat) == 1);
        }
        while m % 2 == 0
            invariant
                m > 0,
                exponent <= e <= exponent + 128,
                m * pow2((e - exponent) as nat) == (if negative {
                    -significand
                } else {
                    significand as int
                }),
                (Dyadic {
                    significand: if negative {
                        -(m as int)
                    } else {
                        m as int
                    },
                    exponent: e as int,
                }).normal() == start.normal(),
            decreases m,
        {
            proof {
                lemma_pow2_unfold((e + 1 - exponent) as nat);
                assert((m / 2) * pow2((e + 1 - exponent) as nat) == m * pow2(
                    (e - exponent) as nat,
                )) by (nonlinear_arith)
                    requires
                        (m / 2) * 2 == m,
                        pow2((e + 1 - exponent) as nat) == 2 * pow2((e - exponent) as nat),
                ;
                if e + 1 > exponent + 128 {
                    lemma2_to64_rest();
                    lemma_pow2_adds(64, 64);
                    lemma_pow2_strictly_increases(128, (e + 1 - exponent) as nat);
                    assert((m / 2) * pow2((e + 1 - exponent) as nat) >= pow2(
                        (e + 1 - exponent) as nat,
                    )) by (nonlinear_arith)
                        requires
                            m / 2 >= 1,
                    ;
                }
            }
            m = m / 2;
            e = e + 1;
        }
        proof {
            lemma_pow2_pos((e - exponent) as nat);
        }
        if m <= i128::MAX as u128 && -(EXPONENT_LIMIT as i128) <= e && e <= EXPONENT_LIMIT as i128 {
            let s: i128 = if negative {
                -(m as i128)
            } else {
                m as i128
            };
            Some(Real { significand: s, exponent: e as i64 })
        } else {
            None
        }
    }

    /// The integer `n` as a decimal value: the promotion is lossless.
    pub fn from_int(n: i64) -> (made: Real)
        ensures
            made@ == Dyadic::of_int(n as int),
            made@.is_integer(n as int),
    {
        proof {
            let start = Dyadic { significand: n as int, exponent: 0 };
            start.lemma_normal_integer();
            lemma2_to64();
            start.normal().lemma_integer_bounds(64);
            lemma2_to64_rest();
        }
        Real::from_parts(n as i128, 0).unwrap()
    }

    /// The value with the opposite sign. Negation is exact.
    pub fn negated(&self) -> (made: Real)
        ensures
            made@ == self@.negation(),
    {
        proof {
            use_type_invariant(self);
        }
        Real { significand: -self.significand, exponent: self.exponent }
    }
}

/// The number of bits of a magnitude.
fn bits(m: u128) -> (n: u32)
    ensures
        n == bit_length(m as nat),
        n <= 128,
{
    let mut rest = m;
    let mut n: u32 = 0;
    proof {
        lemma2_to64();
    }
    while rest != 0
        invariant
            n + bit_length(rest as nat) == bit_length(m as nat),
            n <= 128,
            (rest as nat) * pow2(n as nat) <= m,
        decreases rest,
    {
        proof {
            lemma_pow2_unfold((n + 1) as nat);
            assert((rest / 2) * pow2((n + 1) as nat) <= rest * pow2(n as nat)) by (nonlinear_arith)
                requires
                    (rest / 2) * 2 <= rest,
                    pow2((n + 1) as nat) == 2 * pow2(n as nat),
            ;
            if n >= 128 {
                lemma2_to64_rest();
                lemma_pow2_adds(64, 64);
                assert(rest * pow2(n as nat) >= pow2(128)) by (nonlinear_arith)
                    requires
                        rest >= 1,
                        pow2(n as nat) == pow2(128),
                ;
            }
        }
        rest = rest / 2;
        n = n + 1;
    }
    n
}

/// The binary logarithm of a magnitude, rounded up.
fn log_bits(m: u128) -> (n: u32)
    ensures
        n == log_ceiling(m as nat),
        n <= 128,
{
    if m == 0 {
        0
    } else {
        bits(m - 1)
    }
}

/// A bound on the magnitude of the binary logarithm of a number.
fn width(parts: (i128, i64)) -> (w: i128)
    requires
        dyadic(parts).in_range(),
    ensures
        w == span(dyadic(parts)),
        0 <= w <= 0x200_0000,
{
    magnitude(parts.1 as i128) as i128 + log_bits(magnitude(parts.0)) as i128
}

impl Real {
    /// The parts of the normal form.
    fn parts(&self) -> (p: (i128, i64))
        ensures
            dyadic(p) == self@,
            self@.in_range(),
    {
        proof {
            use_type_invariant(self);
        }
        (self.significand, self.exponent)
    }

    /// The value with exactly these parts, if they are a normal form within
    /// the supported range: this is how the parts that an operation of the
    /// arithmetic returned are taken.
    pub fn from_normal_parts(significand: i128, exponent: i64) -> (made: Option<Real>)
        ensures
            optional_view(made) == dyadic((significand, exponent)).kept(),
    {
        let normalized = if significand == 0 {
            exponent == 0
        } else {
            magnitude(significand) % 2 != 0
        };
        if normalized && significand > i128::MIN && -EXPONENT_LIMIT <= exponent && exponent
            <= EXPONENT_LIMIT {
            Some(Real { significand, exponent })
        } else {
            None
        }
    }

    /// The value that an operation of the arithmetic returned, if it
    /// returned parts that are within the supported range.
    fn taken(parts: Option<(i128, i64)>) -> (made: Option<Real>)
        ensures
            optional_view(made) == (match parts {
                Some(p) => dyadic(p).kept(),
                None => None,
            }),
    {
        match parts {
            Some((significand, exponent)) => Real::from_normal_parts(significand, exponent),
            None => None,
        }
    }

    /// The sum, rounded toward zero at the working precision; nothing where
    /// it leaves the supported range.
    ///
    /// The sum of two integers is exact when it is at most `2^126` in
    /// magnitude.
    pub fn plus(&self, other: &Real) -> (made: Option<Real>)
        ensures
            optional_view(made) == decimal_sum(self@, other@).kept(),
            self@.exponent >= 0 && other@.exponent >= 0 && -EXACT_LIMIT <= self@.integer()
                + other@.integer() <= EXACT_LIMIT ==> made is Some && made->0@ == Dyadic::of_int(
                self@.integer() + other@.integer(),
            ),
    {
        let r = decimal::sum(self.parts(), other.parts());
        proof {
            if self@.exponent >= 0 && other@.exponent >= 0 && -EXACT_LIMIT <= self@.integer()
                + other@.integer() <= EXACT_LIMIT {
                lemma_of_int_in_range(self@.integer() + other@.integer());
            }
        }
        Real::taken(r)
    }

    /// The difference, rounded toward zero at the working precision;
    /// nothing where it leaves the supported range.
    ///
    /// The difference of two integers is exact when it is at most `2^126`
    /// in magnitude.
    pub fn minus(&self, other: &Real) -> (made: Option<Real>)
        ensures
            optional_view(made) == decimal_difference(self@, other@).kept(),
            self@.exponent >= 0 && other@.exponent >= 0 && -EXACT_LIMIT <= self@.integer()
                - other@.integer() <= EXACT_LIMIT ==> made is Some && made->0@ == Dyadic::of_int(
                self@.integer() - other@.integer(),
            ),
    {
        let r = decimal::difference(self.parts(), other.parts());
        proof {
            if self@.exponent >= 0 && other@.exponent >= 0 && -EXACT_LIMIT <= self@.integer()
                - other@.integer() <= EXACT_LIMIT {
                lemma_of_int_in_range(self@.integer() - other@.integer());
            }
        }
        Real::taken(r)
    }

    /// The product, rounded toward zero at the working precision; nothing
    /// where it leaves the supported range.
    ///
    /// The product of two integers is exact when it is at most `2^126` in
    /// magnitude.
    pub fn times(&self, other: &Real) -> (made: Option<Real>)
        ensures
            optional_view(made) == decimal_product(self@, other@).kept(),
            self@.exponent >= 0 && other@.exponent >= 0 && -EXACT_LIMIT <= self@.integer()
                * other@.integer() <= EXACT_LIMIT ==> made is Some && made->0@ == Dyadic::of_int(
                self@.integer() * other@.integer(),
            ),
    {
        let r = decimal::product(self.parts(), other.parts());
        proof {
            if self@.exponent >= 0 && other@.exponent >= 0 && -EXACT_LIMIT <= self@.integer()
                * other@.integer() <= EXACT_LIMIT {
                lemma_of_int_in_range(self@.integer() * other@.integer());
            }
        }
        Real::taken(r)
    }

    /// The quotient by a non-zero divisor, rounded toward zero at the
    /// working precision; nothing where it leaves the supported range.
    pub fn divided_by(&self, other: &Real) -> (made: Option<Real>)
        requires
            other@.significand != 0,
        ensures
            optional_view(made) == decimal_quotient(self@, other@).kept(),
    {
        let r = decimal::quotient(self.parts(), other.parts());
        Real::taken(r)
    }

    /// The power by an integer exponent; nothing where the operands are
    /// not supported or the power leaves the supported range.
    pub fn raised_to_int(&self, n: i64) -> (made: Option<Real>)
        ensures
            optional_view(made) == (if integer_power_supported(self@, n as int) {
                decimal_integer_power(self@, n as int).kept()
            } else {
                None
            }),
    {
        let base = self.parts();
        let reach: i128 = width(base);
        let times: i128 = magnitude(n as i128) as i128;
        assert(times * reach <= 0x8000_0000_0000_0000 * 0x200_0000) by (nonlinear_arith)
            requires
                0 <= times <= 0x8000_0000_0000_0000,
                0 <= reach <= 0x200_0000,
        ;
        if (n >= 0 || base.0 != 0) && times * reach <= POWER_LIMIT {
            Real::taken(decimal::integer_power(base, n))
        } else {
            None
        }
    }

    /// The power by a decimal exponent; nothing where the operands are not
    /// supported or the power leaves the supported range.
    pub fn raised_to(&self, exponent: &Real) -> (made: Option<Real>)
        ensures
            optional_view(made) == (if power_supported(self@, exponent@) {
                decimal_power(self@, exponent@).kept()
            } else {
                None
            }),
    {
        let base = self.parts();
        let e = exponent.parts();
        let trivial = e.0 == 0 || (e.0 == 1 && e.1 == 0) || base.0 == 0;
        let mut supported = trivial;
        if !trivial && base.0 > 0 {
            let reach: i128 = e.1 as i128 + bits(magnitude(e.0)) as i128;
            if reach <= 0 {
                supported = true;
            } else if reach <= 25 {
                let width: i128 = width(base);
                let mut scaled: i128 = width;
                let mut i: i128 = 0;
                proof {
                    lemma2_to64();
                    assert(pow2(i as nat) == 1);
                }
                while i < reach
                    invariant
                        0 <= i <= reach <= 25,
                        0 <= width <= 0x200_0000,
                        scaled == width * pow2(i as nat),
                        scaled <= width * 0x200_0000,
                    decreases reach - i,
                {
                    proof {
                        lemma_pow2_unfold((i + 1) as nat);
                        lemma2_to64();
                        if i + 1 < 25 {
                            lemma_pow2_strictly_increases((i + 1) as nat, 25);
                        }
                        assert(width * pow2((i + 1) as nat) == 2 * (width * pow2(i as nat)))
                            by (nonlinear_arith)
                            requires
                                pow2((i + 1) as nat) == 2 * pow2(i as nat),
                        ;
                        assert(width * pow2((i + 1) as nat) <= width * 0x200_0000)
                            by (nonlinear_arith)
                            requires
                                pow2((i + 1) as nat) <= 0x200_0000,
                                width >= 0,
                        ;
                        assert(width * 0x200_0000 <= 0x200_0000 * 0x200_0000) by (nonlinear_arith)
                            requires
                                0 <= width <= 0x200_0000,
                        ;
                    }
                    scaled = scaled * 2;
                    i = i + 1;
                }
                supported = scaled <= POWER_LIMIT;
            }
        }
        if supported {
            Real::taken(decimal::power(base, e))
        } else {
            None
        }
    }

    /// The decimal expansion of the value.
    pub fn to_string(&self) -> (out: String)
        ensures
            out@ == decimal_text(self@),
    {
        decimal::text(self.parts())
    }
}

} // verus!
