//! Exact rational numbers on `i64` numerator and denominator.
//!
//! The language's fractional numbers are carried as rationals instead of
//! machine floating point, so arithmetic, comparison and the
//! division-by-zero check are exact and fully specified. An operation whose
//! exact result no longer fits the `i64` components reports that by
//! returning `None`; it never rounds.

use vstd::prelude::*;

verus! {

/// The mathematical value of a rational: the fraction `n / d`, with `d > 0`.
pub struct Rat {
    pub n: int,
    pub d: int,
}

/// The rational holding the integer `n`.
pub open spec fn rat_int(n: int) -> Rat {
    Rat { n: n, d: 1 }
}

/// Ten to the `k`th power.
pub open spec fn pow10(k: nat) -> int
    decreases k,
{
    if k == 0 {
        1
    } else {
        10 * pow10((k - 1) as nat)
    }
}

/// Whether both components of the fraction fit the executable representation.
pub open spec fn rat_fits(r: Rat) -> bool {
    &&& i64::MIN <= r.n <= i64::MAX
    &&& 1 <= r.d <= i64::MAX
}

/// Equality of fractions, by cross-multiplication.
pub open spec fn rat_eq(a: Rat, b: Rat) -> bool {
    a.n * b.d == b.n * a.d
}

/// Strict order of fractions with positive denominators.
pub open spec fn rat_lt(a: Rat, b: Rat) -> bool {
    a.n * b.d < b.n * a.d
}

/// The exact sum `a + b`, not reduced.
pub open spec fn rat_add(a: Rat, b: Rat) -> Rat {
    Rat { n: a.n * b.d + b.n * a.d, d: a.d * b.d }
}

/// The exact difference `a - b`, not reduced.
pub open spec fn rat_sub(a: Rat, b: Rat) -> Rat {
    Rat { n: a.n * b.d - b.n * a.d, d: a.d * b.d }
}

/// The exact product `a * b`, not reduced.
pub open spec fn rat_mul(a: Rat, b: Rat) -> Rat {
    Rat { n: a.n * b.n, d: a.d * b.d }
}

/// The exact quotient `a / b` for `b` nonzero, with the denominator kept
/// positive.
pub open spec fn rat_div(a: Rat, b: Rat) -> Rat {
    if b.n >= 0 {
        Rat { n: a.n * b.d, d: a.d * b.n }
    } else {
        Rat { n: -(a.n * b.d), d: a.d * (-b.n) }
    }
}

/// Integer division truncated towards zero, for `q != 0`.
pub open spec fn trunc_div(p: int, q: int) -> int {
    let ap = if p < 0 {
        -p
    } else {
        p
    };
    let aq = if q < 0 {
        -q
    } else {
        q
    };
    if (p < 0) != (q < 0) {
        -(ap / aq)
    } else {
        ap / aq
    }
}

/// The exact remainder `a - trunc(a / b) * b` for `b` nonzero, the remainder
/// convention of machine arithmetic: its sign follows the dividend.
pub open spec fn rat_mod(a: Rat, b: Rat) -> Rat {
    let t = trunc_div(a.n * b.d, a.d * b.n);
    Rat { n: a.n * b.d - t * (b.n * a.d), d: a.d * b.d }
}

/// The absolute value of the product of `x` and `y` is bounded by the
/// product of bounds on their absolute values.
pub proof fn lemma_abs_mul_bound(x: int, y: int, bx: int, by: int)
    requires
        -bx <= x <= bx,
        -by <= y <= by,
        0 <= bx,
        0 <= by,
    ensures
        -(bx * by) <= x * y <= bx * by,
{
    assert(-(bx * by) <= x * y <= bx * by) by (nonlinear_arith)
        requires
            -bx <= x <= bx,
            -by <= y <= by,
            0 <= bx,
            0 <= by,
    ;
}

/// The product of two positive integers is positive.
pub proof fn lemma_pos_mul_pos(x: int, y: int)
    requires
        1 <= x,
        1 <= y,
    ensures
        1 <= x * y,
{
    assert(1 <= x * y) by (nonlinear_arith)
        requires
            1 <= x,
            1 <= y,
    ;
}

/// Multiplying by a positive integer keeps the sign of the other factor.
pub proof fn lemma_pos_mul_sign(x: int, y: int)
    requires
        1 <= x,
    ensures
        y > 0 ==> x * y >= 1,
        y < 0 ==> x * y <= -1,
        y == 0 ==> x * y == 0,
{
    assert((y > 0 ==> x * y >= 1) && (y < 0 ==> x * y <= -1) && (y == 0 ==> x * y == 0))
        by (nonlinear_arith)
        requires
            1 <= x,
    ;
}

/// An exact rational number with `i64` components; the denominator is
/// always at least one.
#[derive(Debug, Clone, Copy)]
pub struct Rational {
    num: i64,
    den: i64,
}

impl View for Rational {
    type V = Rat;

    closed spec fn view(&self) -> Rat {
        Rat { n: self.num as int, d: self.den as int }
    }
}

impl Rational {
    #[verifier::type_invariant]
    spec fn inv(self) -> bool {
        self.den >= 1
    }

    /// The rational holding the integer `n`.
    pub fn from_integer(n: i64) -> (r: Rational)
        ensures
            r@ == rat_int(n as int),
    {
        Rational { num: n, den: 1 }
    }

    /// The rational `mantissa / 10^scale`, as read from a decimal numeral;
    /// `None` when the denominator would not fit.
    pub fn from_decimal(mantissa: i64, scale: u32) -> (r: Option<Rational>)
        ensures
            r is Some <==> pow10(scale as nat) <= i64::MAX,
            r matches Some(q) ==> q@ == (Rat { n: mantissa as int, d: pow10(scale as nat) }),
    {
        let mut den: i64 = 1;
        let mut k: u32 = 0;
        while k < scale
            invariant
                0 <= k <= scale,
                den == pow10(k as nat),
                1 <= den,
            decreases scale - k,
        {
            proof {
                lemma_pow10_increases((k + 1) as nat, scale as nat);
                assert(pow10((k + 1) as nat) == 10 * pow10(k as nat));
            }
            if den > 922337203685477580i64 {
                return None;
            }
            den = den * 10;
            k = k + 1;
        }
        Some(Rational { num: mantissa, den: den })
    }

    /// The numerator.
    pub fn num(&self) -> (r: i64)
        ensures
            r as int == self@.n,
    {
        self.num
    }

    /// The denominator, at least one.
    pub fn den(&self) -> (r: i64)
        ensures
            r as int == self@.d,
            r >= 1,
    {
        proof {
            use_type_invariant(self);
        }
        self.den
    }

    /// Whether the fraction is zero.
    pub fn is_zero(&self) -> (r: bool)
        ensures
            r == (self@.n == 0),
    {
        self.num == 0
    }

    /// Builds a rational from wide intermediate components, when they fit.
    fn from_parts(n: i128, d: i128) -> (r: Option<Rational>)
        requires
            1 <= d,
        ensures
            r is Some <==> rat_fits(Rat { n: n as int, d: d as int }),
            r matches Some(q) ==> q@ == (Rat { n: n as int, d: d as int }),
    {
        if n < (i64::MIN as i128) || n > (i64::MAX as i128) || d > (i64::MAX as i128) {
            None
        } else {
            Some(Rational { num: n as i64, den: d as i64 })
        }
    }

    /// The exact sum, or `None` when it does not fit.
    pub fn add(&self, other: &Rational) -> (r: Option<Rational>)
        ensures
            r is Some <==> rat_fits(rat_add(self@, other@)),
            r matches Some(q) ==> q@ == rat_add(self@, other@),
    {
        proof {
            use_type_invariant(self);
            use_type_invariant(other);
            lemma_abs_mul_bound(self@.n, other@.d, 0x8000000000000000, 0x7fffffffffffffff);
            lemma_abs_mul_bound(other@.n, self@.d, 0x8000000000000000, 0x7fffffffffffffff);
            lemma_abs_mul_bound(self@.d, other@.d, 0x7fffffffffffffff, 0x7fffffffffffffff);
            lemma_pos_mul_pos(self@.d, other@.d);
        }
        let n: i128 = (self.num as i128) * (other.den as i128) + (other.num as i128) * (self.den
            as i128);
        let d: i128 = (self.den as i128) * (other.den as i128);
        Self::from_parts(n, d)
    }

    /// The exact difference, or `None` when it does not fit.
    pub fn sub(&self, other: &Rational) -> (r: Option<Rational>)
        ensures
            r is Some <==> rat_fits(rat_sub(self@, other@)),
            r matches Some(q) ==> q@ == rat_sub(self@, other@),
    {
        proof {
            use_type_invariant(self);
            use_type_invariant(other);
            lemma_abs_mul_bound(self@.n, other@.d, 0x8000000000000000, 0x7fffffffffffffff);
            lemma_abs_mul_bound(other@.n, self@.d, 0x8000000000000000, 0x7fffffffffffffff);
            lemma_abs_mul_bound(self@.d, other@.d, 0x7fffffffffffffff, 0x7fffffffffffffff);
            lemma_pos_mul_pos(self@.d, other@.d);
        }
        let n: i128 = (self.num as i128) * (other.den as i128) - (other.num as i128) * (self.den
            as i128);
        let d: i128 = (self.den as i128) * (other.den as i128);
        Self::from_parts(n, d)
    }

    /// The exact product, or `None` when it does not fit.
    pub fn mul(&self, other: &Rational) -> (r: Option<Rational>)
        ensures
            r is Some <==> rat_fits(rat_mul(self@, other@)),
            r matches Some(q) ==> q@ == rat_mul(self@, other@),
    {
        proof {
            use_type_invariant(self);
            use_type_invariant(other);
            lemma_abs_mul_bound(self@.n, other@.n, 0x8000000000000000, 0x8000000000000000);
            lemma_abs_mul_bound(self@.d, other@.d, 0x7fffffffffffffff, 0x7fffffffffffffff);
            lemma_pos_mul_pos(self@.d, other@.d);
        }
        let n: i128 = (self.num as i128) * (other.num as i128);
        let d: i128 = (self.den as i128) * (other.den as i128);
        Self::from_parts(n, d)
    }

    /// The exact quotient, or `None` when it does not fit. The divisor must
    /// not be zero; the caller tests that first.
    pub fn div(&self, other: &Rational) -> (r: Option<Rational>)
        requires
            other@.n != 0,
        ensures
            r is Some <==> rat_fits(rat_div(self@, other@)),
            r matches Some(q) ==> q@ == rat_div(self@, other@),
    {
        proof {
            use_type_invariant(self);
            use_type_invariant(other);
            lemma_abs_mul_bound(self@.n, other@.d, 0x8000000000000000, 0x7fffffffffffffff);
            lemma_abs_mul_bound(self@.d, other@.n, 0x7fffffffffffffff, 0x8000000000000000);
        }
        let n: i128 = (self.num as i128) * (other.den as i128);
        let d: i128 = (self.den as i128) * (other.num as i128);
        proof {
            lemma_pos_mul_sign(self@.d, other@.n);
            assert(self@.d * (-other@.n) == -(self@.d * other@.n)) by (nonlinear_arith);
            assert(-(self@.n * other@.d) == -(self@.n * other@.d));
        }
        if d < 0 {
            Self::from_parts(-n, -d)
        } else {
            Self::from_parts(n, d)
        }
    }

    /// The exact truncated remainder, or `None` when it does not fit. The
    /// divisor must not be zero; the caller tests that first.
    pub fn rem_trunc(&self, other: &Rational) -> (r: Option<Rational>)
        requires
            other@.n != 0,
        ensures
            r is Some <==> rat_fits(rat_mod(self@, other@)),
            r matches Some(q) ==> q@ == rat_mod(self@, other@),
    {
        proof {
            use_type_invariant(self);
            use_type_invariant(other);
            lemma_abs_mul_bound(self@.n, other@.d, 0x8000000000000000, 0x7fffffffffffffff);
            lemma_abs_mul_bound(self@.d, other@.n, 0x7fffffffffffffff, 0x8000000000000000);
            lemma_abs_mul_bound(other@.n, self@.d, 0x8000000000000000, 0x7fffffffffffffff);
            lemma_pos_mul_pos(self@.d, other@.d);
            lemma_abs_mul_bound(self@.d, other@.d, 0x7fffffffffffffff, 0x7fffffffffffffff);
        }
        let p: i128 = (self.num as i128) * (other.den as i128);
        let q: i128 = (self.den as i128) * (other.num as i128);
        proof {
            lemma_pos_mul_sign(self@.d, other@.n);
        }
        let t: i128 = Self::div_trunc_i128(p, q);
        let x: i128 = (other.num as i128) * (self.den as i128);
        let d: i128 = (self.den as i128) * (other.den as i128);
        let ghost m = rat_mod(self@, other@);
        proof {
            assert(m.n == p as int - (t as int) * (x as int));
            assert(m.d == d as int);
        }
        match t.checked_mul(x) {
            None => {
                proof {
                    assert(!rat_fits(m));
                }
                None
            },
            Some(tb) => {
                match p.checked_sub(tb) {
                    None => {
                        proof {
                            assert(!rat_fits(m));
                        }
                        None
                    },
                    Some(n) => Self::from_parts(n, d),
                }
            },
        }
    }

    /// Truncating division of wide integers, avoiding the overflow corner.
    fn div_trunc_i128(p: i128, q: i128) -> (t: i128)
        requires
            q != 0,
            -0x40000000000000000000000000000000 <= p <= 0x40000000000000000000000000000000,
            -0x40000000000000000000000000000000 <= q <= 0x40000000000000000000000000000000,
        ensures
            t as int == trunc_div(p as int, q as int),
            -0x40000000000000000000000000000000 <= t <= 0x40000000000000000000000000000000,
    {
        let ap: i128 = if p < 0 {
            -p
        } else {
            p
        };
        let aq: i128 = if q < 0 {
            -q
        } else {
            q
        };
        let m: i128 = ((ap as u128) / (aq as u128)) as i128;
        proof {
            assert(0 <= (ap as int) / (aq as int) <= ap as int) by (nonlinear_arith)
                requires
                    ap as int >= 0,
                    aq as int >= 1,
            ;
        }
        if (p < 0) != (q < 0) {
            -m
        } else {
            m
        }
    }

    /// Whether the two fractions hold the same number.
    pub fn eq_rat(&self, other: &Rational) -> (r: bool)
        ensures
            r == rat_eq(self@, other@),
    {
        proof {
            use_type_invariant(self);
            use_type_invariant(other);
            lemma_abs_mul_bound(self@.n, other@.d, 0x8000000000000000, 0x7fffffffffffffff);
            lemma_abs_mul_bound(other@.n, self@.d, 0x8000000000000000, 0x7fffffffffffffff);
        }
        (self.num as i128) * (other.den as i128) == (other.num as i128) * (self.den as i128)
    }

    /// Whether this fraction is strictly below the other.
    pub fn lt(&self, other: &Rational) -> (r: bool)
        ensures
            r == rat_lt(self@, other@),
    {
        proof {
            use_type_invariant(self);
            use_type_invariant(other);
            lemma_abs_mul_bound(self@.n, other@.d, 0x8000000000000000, 0x7fffffffffffffff);
            lemma_abs_mul_bound(other@.n, self@.d, 0x8000000000000000, 0x7fffffffffffffff);
        }
        (self.num as i128) * (other.den as i128) < (other.num as i128) * (self.den as i128)
    }
}

/// Powers of ten grow with the exponent.
pub proof fn lemma_pow10_increases(j: nat, k: nat)
    requires
        j <= k,
    ensures
        pow10(j) <= pow10(k),
        1 <= pow10(j),
    decreases k,
{
    if j == k {
        lemma_pow10_pos(j);
    } else {
        lemma_pow10_increases(j, (k - 1) as nat);
        lemma_pow10_pos((k - 1) as nat);
    }
}

/// Ten to the nineteenth power and beyond does not fit an `i64`.
pub proof fn lemma_pow10_gt_i64(k: nat)
    requires
        k >= 19,
    ensures
        pow10(k) > i64::MAX,
{
    reveal_with_fuel(pow10, 20);
    assert(pow10(19) == 10000000000000000000);
    lemma_pow10_increases(19, k);
}

/// Ten to the eighteenth power and below fits an `i64`.
pub proof fn lemma_pow10_le_i64(k: nat)
    requires
        k <= 18,
    ensures
        pow10(k) <= i64::MAX,
{
    reveal_with_fuel(pow10, 19);
    assert(pow10(18) == 1000000000000000000);
    lemma_pow10_increases(k, 18);
}

/// Powers of ten are positive.
pub proof fn lemma_pow10_pos(k: nat)
    ensures
        1 <= pow10(k),
    decreases k,
{
    if k > 0 {
        lemma_pow10_pos((k - 1) as nat);
    }
}

} // verus!
