//! Saturating signed fixed-point arithmetic with 32 fractional bits.
use vstd::prelude::*;

verus! {

/// Raw representation of the number one.
pub const ONE_RAW: i64 = 0x1_0000_0000;

/// Clamps an integer into the range of raw scalar representations.
pub open spec fn sat(v: int) -> int {
    if v > i64::MAX {
        i64::MAX as int
    } else if v < i64::MIN {
        i64::MIN as int
    } else {
        v
    }
}

/// Quotient of `n` by a non-zero `d`, rounded toward zero.
pub open spec fn trunc_div(n: int, d: int) -> int {
    if n >= 0 {
        n / d
    } else {
        -((-n) / d)
    }
}

/// Whether `r` is the largest integer whose square does not exceed `n`.
pub open spec fn is_floor_sqrt(n: int, r: int) -> bool {
    0 <= r && r * r <= n && n < (r + 1) * (r + 1)
}

/// A real number `raw / 2^32`, held as the integer `raw`.
///
/// Arithmetic rounds toward zero and saturates at the ends of the
/// representable range; the largest value stands for "infinitely far".
#[derive(Clone, Copy, Debug, PartialEq, Eq, Structural)]
pub struct Scalar {
    pub raw: i64,
}

impl Scalar {
    /// The scalar whose raw representation is the clamped integer `v`.
    pub open spec fn of(v: int) -> Scalar {
        Scalar { raw: sat(v) as i64 }
    }

    pub open spec fn add_spec(self, rhs: Scalar) -> Scalar {
        Scalar::of(self.raw + rhs.raw)
    }

    pub open spec fn sub_spec(self, rhs: Scalar) -> Scalar {
        Scalar::of(self.raw - rhs.raw)
    }

    pub open spec fn neg_spec(self) -> Scalar {
        Scalar::of(-self.raw)
    }

    pub open spec fn mul_spec(self, rhs: Scalar) -> Scalar {
        Scalar::of(trunc_div(self.raw * rhs.raw, ONE_RAW as int))
    }

    /// Division never fails: a zero divisor gives the saturated value of the
    /// dividend's sign, and zero for a zero dividend.
    pub open spec fn div_spec(self, rhs: Scalar) -> Scalar {
        if rhs.raw == 0 {
            if self.raw > 0 {
                Scalar { raw: i64::MAX }
            } else if self.raw < 0 {
                Scalar { raw: i64::MIN }
            } else {
                Scalar { raw: 0 }
            }
        } else {
            Scalar::of(trunc_div(self.raw * ONE_RAW, rhs.raw as int))
        }
    }

    /// Remainder of the division rounded toward zero, with the sign of the
    /// dividend; zero for a zero divisor.
    pub open spec fn rem_spec(self, rhs: Scalar) -> Scalar {
        if rhs.raw == 0 {
            Scalar { raw: 0 }
        } else {
            Scalar { raw: (self.raw - trunc_div(self.raw as int, rhs.raw as int) * rhs.raw) as i64 }
        }
    }

    pub open spec fn abs_spec(self) -> Scalar {
        if self.raw < 0 {
            self.neg_spec()
        } else {
            self
        }
    }

    pub open spec fn min_spec(self, rhs: Scalar) -> Scalar {
        if rhs.raw < self.raw {
            rhs
        } else {
            self
        }
    }

    pub open spec fn max_spec(self, rhs: Scalar) -> Scalar {
        if rhs.raw > self.raw {
            rhs
        } else {
            self
        }
    }

    /// `self` limited to `[lo, hi]`; meaningful for `lo <= hi`.
    pub open spec fn clamp_spec(self, lo: Scalar, hi: Scalar) -> Scalar {
        if self.raw < lo.raw {
            lo
        } else if self.raw > hi.raw {
            hi
        } else {
            self
        }
    }

    /// Largest whole number not above `self`.
    pub open spec fn floor_spec(self) -> Scalar {
        Scalar { raw: ((self.raw as int / ONE_RAW as int) * ONE_RAW) as i64 }
    }

    /// Whole part of a scalar as an index: rounds toward zero, negative
    /// values give zero.
    pub open spec fn index_spec(self) -> int {
        if self.raw < 0 {
            0
        } else {
            self.raw as int / ONE_RAW as int
        }
    }

    pub open spec fn from_index_spec(i: int) -> Scalar {
        Scalar::of(i * ONE_RAW)
    }

    pub open spec fn from_int_spec(i: int) -> Scalar {
        Scalar { raw: (i * ONE_RAW) as i64 }
    }

    /// Zero.
    #[verifier::when_used_as_spec(zero_spec)]
    pub fn zero() -> (r: Scalar)
        ensures
            r.raw == 0,
    {
        Scalar { raw: 0 }
    }

    pub open spec fn zero_spec() -> Scalar {
        Scalar { raw: 0 }
    }

    /// One.
    #[verifier::when_used_as_spec(one_spec)]
    pub fn one() -> (r: Scalar)
        ensures
            r.raw == ONE_RAW,
    {
        Scalar { raw: ONE_RAW }
    }

    pub open spec fn one_spec() -> Scalar {
        Scalar { raw: ONE_RAW }
    }

    /// The largest scalar, which stands for an infinite distance.
    #[verifier::when_used_as_spec(infinity_spec)]
    pub fn infinity() -> (r: Scalar)
        ensures
            r.raw == i64::MAX,
    {
        Scalar { raw: i64::MAX }
    }

    pub open spec fn infinity_spec() -> Scalar {
        Scalar { raw: i64::MAX }
    }

    /// The scalar with the given raw representation.
    pub fn from_raw(raw: i64) -> (r: Scalar)
        ensures
            r.raw == raw,
    {
        Scalar { raw }
    }

    /// The raw representation, `self * 2^32`.
    pub fn raw(self) -> (r: i64)
        ensures
            r == self.raw,
    {
        self.raw
    }

    /// The whole number `i`, exactly.
    #[verifier::when_used_as_spec(from_int_spec_i32)]
    pub fn from_int(i: i32) -> (r: Scalar)
        ensures
            r.raw == i as int * ONE_RAW,
            r == Scalar::from_int_spec(i as int),
    {
        Scalar { raw: (i as i64) * 0x1_0000_0000i64 }
    }

    pub open spec fn from_int_spec_i32(i: i32) -> Scalar {
        Scalar::from_int_spec(i as int)
    }

    /// The scalar with the raw representation `v`, clamped into range.
    pub fn saturate(v: i128) -> (r: Scalar)
        ensures
            r == Scalar::of(v as int),
    {
        if v > i64::MAX as i128 {
            Scalar { raw: i64::MAX }
        } else if v < i64::MIN as i128 {
            Scalar { raw: i64::MIN }
        } else {
            Scalar { raw: v as i64 }
        }
    }

    /// Saturating sum.
    #[verifier::when_used_as_spec(add_spec)]
    pub fn add(self, rhs: Scalar) -> (r: Scalar)
        ensures
            r == self.add_spec(rhs),
    {
        Scalar::saturate(self.raw as i128 + rhs.raw as i128)
    }

    /// Saturating difference.
    #[verifier::when_used_as_spec(sub_spec)]
    pub fn sub(self, rhs: Scalar) -> (r: Scalar)
        ensures
            r == self.sub_spec(rhs),
    {
        Scalar::saturate(self.raw as i128 - rhs.raw as i128)
    }

    /// Saturating negation.
    #[verifier::when_used_as_spec(neg_spec)]
    pub fn neg(self) -> (r: Scalar)
        ensures
            r == self.neg_spec(),
    {
        Scalar::saturate(-(self.raw as i128))
    }

    /// Saturating product, rounded toward zero.
    #[verifier::when_used_as_spec(mul_spec)]
    pub fn mul(self, rhs: Scalar) -> (r: Scalar)
        ensures
            r == self.mul_spec(rhs),
    {
        let a: i128 = self.raw as i128;
        let b: i128 = rhs.raw as i128;
        proof {
            lemma_product_bound(a as int, b as int);
        }
        let p: i128 = a * b;
        let q: i128 = p / 0x1_0000_0000i128;
        Scalar::saturate(q)
    }

    /// Saturating quotient, rounded toward zero; total on a zero divisor.
    #[verifier::when_used_as_spec(div_spec)]
    pub fn div(self, rhs: Scalar) -> (r: Scalar)
        ensures
            r == self.div_spec(rhs),
    {
        if rhs.raw == 0 {
            if self.raw > 0 {
                Scalar { raw: i64::MAX }
            } else if self.raw < 0 {
                Scalar { raw: i64::MIN }
            } else {
                Scalar { raw: 0 }
            }
        } else {
            let n: i128 = (self.raw as i128) * 0x1_0000_0000i128;
            assert(n == self.raw * ONE_RAW);
            proof {
                lemma_trunc_div_bound(n as int, rhs.raw as int);
            }
            let q: i128 = n / (rhs.raw as i128);
            Scalar::saturate(q)
        }
    }

    /// Remainder of the division rounded toward zero; zero for a zero
    /// divisor.
    #[verifier::when_used_as_spec(rem_spec)]
    pub fn rem(self, rhs: Scalar) -> (r: Scalar)
        ensures
            r == self.rem_spec(rhs),
    {
        if rhs.raw == 0 {
            return Scalar { raw: 0 };
        }
        let n: i128 = self.raw as i128;
        let d: i128 = rhs.raw as i128;
        proof {
            lemma_trunc_rem(n as int, d as int);
        }
        Scalar { raw: (n % d) as i64 }
    }

    /// Magnitude, saturating for the most negative value.
    #[verifier::when_used_as_spec(abs_spec)]
    pub fn abs(self) -> (r: Scalar)
        ensures
            r == self.abs_spec(),
    {
        if self.raw < 0 {
            self.neg()
        } else {
            self
        }
    }

    /// The smaller of two scalars.
    #[verifier::when_used_as_spec(min_spec)]
    pub fn min(self, rhs: Scalar) -> (r: Scalar)
        ensures
            r == self.min_spec(rhs),
    {
        if rhs.raw < self.raw {
            rhs
        } else {
            self
        }
    }

    /// The larger of two scalars.
    #[verifier::when_used_as_spec(max_spec)]
    pub fn max(self, rhs: Scalar) -> (r: Scalar)
        ensures
            r == self.max_spec(rhs),
    {
        if rhs.raw > self.raw {
            rhs
        } else {
            self
        }
    }

    /// `self` limited to the interval `[lo, hi]`.
    #[verifier::when_used_as_spec(clamp_spec)]
    pub fn clamp(self, lo: Scalar, hi: Scalar) -> (r: Scalar)
        ensures
            r == self.clamp_spec(lo, hi),
    {
        if self.raw < lo.raw {
            lo
        } else if self.raw > hi.raw {
            hi
        } else {
            self
        }
    }

    /// Largest whole number not above `self`.
    #[verifier::when_used_as_spec(floor_spec)]
    pub fn floor(self) -> (r: Scalar)
        ensures
            r == self.floor_spec(),
            r.raw <= self.raw < r.raw + ONE_RAW,
    {
        if self.raw >= 0 {
            Scalar { raw: self.raw - self.raw % ONE_RAW }
        } else {
            let m: i128 = (-(self.raw as i128)) % 0x1_0000_0000i128;
            if m == 0 {
                self
            } else {
                Scalar { raw: (self.raw as i128 + m - 0x1_0000_0000i128) as i64 }
            }
        }
    }

    /// Whole part as an index: rounds toward zero, negative values give zero.
    #[verifier::when_used_as_spec(index_spec_usize)]
    pub fn to_index(self) -> (r: usize)
        ensures
            r == self.index_spec(),
    {
        if self.raw < 0 {
            0
        } else {
            (self.raw / ONE_RAW) as usize
        }
    }

    pub open spec fn index_spec_usize(self) -> usize {
        self.index_spec() as usize
    }

    /// The whole number `i`, saturating where it is out of range.
    pub fn from_index(i: usize) -> (r: Scalar)
        ensures
            r == Scalar::from_index_spec(i as int),
    {
        let v: i128 = (i as i128) * 0x1_0000_0000i128;
        assert(v == i * ONE_RAW);
        Scalar::saturate(v)
    }

    /// Length of the vector with the four given components: the square root
    /// of the sum of their squares, rounded down to the nearest
    /// representable value and saturated.  The squares are added exactly,
    /// so no small component is lost.
    #[verifier::when_used_as_spec(norm_spec)]
    pub fn norm(a: Scalar, b: Scalar, c: Scalar, d: Scalar) -> (r: Scalar)
        ensures
            r == Scalar::norm_spec(a, b, c, d),
            is_floor_sqrt(sum_of_squares(a, b, c, d), r.raw as int) || r.raw == i64::MAX,
    {
        let ghost total = sum_of_squares(a, b, c, d);
        proof {
            lemma_square_bounds(a.raw as int);
            lemma_square_bounds(b.raw as int);
            lemma_square_bounds(c.raw as int);
            lemma_square_bounds(d.raw as int);
        }
        if a.raw == i64::MIN || b.raw == i64::MIN || c.raw == i64::MIN || d.raw == i64::MIN {
            proof {
                lemma_floor_sqrt_exists(total);
                let s = choose_floor_sqrt(total);
                assert(s >= 0x8000_0000_0000_0000) by (nonlinear_arith)
                    requires
                        0 <= s,
                        total < (s + 1) * (s + 1),
                        total >= 0x4000_0000_0000_0000_0000_0000_0000_0000,
                ;
            }
            return Scalar { raw: i64::MAX };
        }
        let ua: u128 = magnitude(a.raw);
        let ub: u128 = magnitude(b.raw);
        let uc: u128 = magnitude(c.raw);
        let ud: u128 = magnitude(d.raw);
        proof {
            lemma_square_of_magnitude(a.raw as int, ua as int);
            lemma_square_of_magnitude(b.raw as int, ub as int);
            lemma_square_of_magnitude(c.raw as int, uc as int);
            lemma_square_of_magnitude(d.raw as int, ud as int);
        }
        let n: u128 = ua * ua + ub * ub + uc * uc + ud * ud;
        let root = floor_sqrt(n);
        proof {
            lemma_floor_sqrt_unique(n as int, root as int, choose_floor_sqrt(n as int));
        }
        if root > 0x7fff_ffff_ffff_ffffu128 {
            Scalar { raw: i64::MAX }
        } else {
            Scalar { raw: root as i64 }
        }
    }

    /// The length that [`Scalar::norm`] computes.
    pub open spec fn norm_spec(a: Scalar, b: Scalar, c: Scalar, d: Scalar) -> Scalar {
        Scalar::of(choose_floor_sqrt(sum_of_squares(a, b, c, d)))
    }
}

/// Sum of the squares of four raw representations.
pub open spec fn sum_of_squares(a: Scalar, b: Scalar, c: Scalar, d: Scalar) -> int {
    a.raw * a.raw + b.raw * b.raw + c.raw * c.raw + d.raw * d.raw
}

fn magnitude(v: i64) -> (r: u128)
    requires
        v != i64::MIN,
    ensures
        r == if v < 0 { -v } else { v as int },
        r <= i64::MAX,
{
    if v < 0 {
        (-v) as u128
    } else {
        v as u128
    }
}

/// The largest integer whose square does not exceed `n`, by bisection.
fn floor_sqrt(n: u128) -> (r: u128)
    ensures
        is_floor_sqrt(n as int, r as int),
        r < 0x1_0000_0000_0000_0000u128,
{
    let mut lo: u128 = 0;
    let mut hi: u128 = 0x1_0000_0000_0000_0000u128;
    assert(lo * lo <= n < hi * hi) by (nonlinear_arith)
        requires
            lo == 0,
            hi == 0x1_0000_0000_0000_0000u128,
            n <= 0xffff_ffff_ffff_ffff_ffff_ffff_ffff_ffffu128,
    ;
    while hi - lo > 1
        invariant
            lo < hi <= 0x1_0000_0000_0000_0000u128,
            lo * lo <= n < hi * hi,
        decreases hi - lo,
    {
        let mid: u128 = lo + (hi - lo) / 2;
        assert(mid * mid <= 0xffff_ffff_ffff_ffff_ffff_ffff_ffff_ffffu128) by (nonlinear_arith)
            requires
                mid < 0x1_0000_0000_0000_0000u128,
        ;
        if mid * mid <= n {
            lo = mid;
        } else {
            hi = mid;
        }
    }
    lo
}

/// The square of a 64-bit value is at most `2^126`, and reaches it only
/// for the most negative value.
pub proof fn lemma_square_bounds(v: int)
    requires
        i64::MIN <= v <= i64::MAX,
    ensures
        0 <= v * v <= 0x4000_0000_0000_0000_0000_0000_0000_0000,
        v == i64::MIN ==> v * v == 0x4000_0000_0000_0000_0000_0000_0000_0000,
        v != i64::MIN ==> v * v <= 0x3fff_ffff_ffff_ffff_0000_0000_0000_0001,
{
    assert(0 <= v * v <= 0x4000_0000_0000_0000_0000_0000_0000_0000) by (nonlinear_arith)
        requires
            -0x8000_0000_0000_0000 <= v <= 0x8000_0000_0000_0000,
    ;
    if v != i64::MIN {
        assert(v * v <= 0x7fff_ffff_ffff_ffff * 0x7fff_ffff_ffff_ffff) by (nonlinear_arith)
            requires
                -0x7fff_ffff_ffff_ffff <= v <= 0x7fff_ffff_ffff_ffff,
        ;
    }
}

/// A value and its magnitude have the same square.
pub proof fn lemma_square_of_magnitude(v: int, m: int)
    requires
        m == if v < 0 { -v } else { v },
    ensures
        m * m == v * v,
{
    assert(m * m == v * v) by (nonlinear_arith)
        requires
            m == v || m == -v,
    ;
}

/// Every natural number has a rounded-down square root.
pub proof fn lemma_floor_sqrt_exists(n: int)
    requires
        0 <= n,
    ensures
        is_floor_sqrt(n, choose_floor_sqrt(n)),
    decreases n,
{
    if n == 0 {
        assert(is_floor_sqrt(0, 0));
    } else {
        lemma_floor_sqrt_exists(n - 1);
        let r = choose_floor_sqrt(n - 1);
        if n < (r + 1) * (r + 1) {
            assert(is_floor_sqrt(n, r));
        } else {
            assert(is_floor_sqrt(n, r + 1)) by (nonlinear_arith)
                requires
                    0 <= r,
                    r * r <= n - 1,
                    n - 1 < (r + 1) * (r + 1),
                    n >= (r + 1) * (r + 1),
            ;
        }
    }
}

/// The rounded-down square root of `n`, as a value.
pub open spec fn choose_floor_sqrt(n: int) -> int {
    choose|r: int| is_floor_sqrt(n, r)
}

/// A number has at most one rounded-down square root, so whichever one is
/// found is the chosen one.
pub proof fn lemma_floor_sqrt_unique(n: int, r: int, s: int)
    requires
        is_floor_sqrt(n, r),
        s == choose_floor_sqrt(n),
    ensures
        r == s,
{
    assert(is_floor_sqrt(n, s));
    assert(r == s) by (nonlinear_arith)
        requires
            0 <= r,
            r * r <= n,
            n < (r + 1) * (r + 1),
            0 <= s,
            s * s <= n,
            n < (s + 1) * (s + 1),
    ;
}

/// A quotient rounded toward zero is no larger in magnitude than the dividend.
pub proof fn lemma_trunc_div_bound(n: int, d: int)
    requires
        d != 0,
    ensures
        n >= 0 ==> -n <= n / d <= n,
        n < 0 ==> n <= (-n) / d <= -n,
        n >= 0 ==> -n <= trunc_div(n, d) <= n,
        n < 0 ==> n <= trunc_div(n, d) <= -n,
{
    let m = if n >= 0 { n } else { -n };
    assert(-m <= m / d <= m) by (nonlinear_arith)
        requires
            m >= 0,
            d != 0,
    ;
}

/// The remainder that goes with a quotient rounded toward zero is smaller in
/// magnitude than the dividend and is what the machine's `%` computes.
pub proof fn lemma_trunc_rem(n: int, d: int)
    requires
        d != 0,
    ensures
        n >= 0 ==> n - trunc_div(n, d) * d == n % d && 0 <= n % d <= n,
        n < 0 ==> n - trunc_div(n, d) * d == -((-n) % d) && n <= -((-n) % d) <= 0,
{
    let m = if n >= 0 { n } else { -n };
    vstd::arithmetic::div_mod::lemma_fundamental_div_mod(m, d);
    assert(0 <= m % d <= m) by (nonlinear_arith)
        requires
            m >= 0,
            d != 0,
    ;
    assert(d * (m / d) == (m / d) * d) by (nonlinear_arith);
    assert((-(m / d)) * d == -((m / d) * d)) by (nonlinear_arith);
}

/// The product of two 64-bit values fits in 128 bits with room to spare.
pub proof fn lemma_product_bound(a: int, b: int)
    requires
        i64::MIN <= a <= i64::MAX,
        i64::MIN <= b <= i64::MAX,
    ensures
        -0x4000_0000_0000_0000_0000_0000_0000_0000 <= a * b
            <= 0x4000_0000_0000_0000_0000_0000_0000_0000,
{
    assert(-0x4000_0000_0000_0000_0000_0000_0000_0000 <= a * b
        <= 0x4000_0000_0000_0000_0000_0000_0000_0000) by (nonlinear_arith)
        requires
            -0x8000_0000_0000_0000 <= a <= 0x8000_0000_0000_0000,
            -0x8000_0000_0000_0000 <= b <= 0x8000_0000_0000_0000,
    ;
}


/// Largest raw magnitude of a coordinate for which the products and sums
/// of the area computations stay exact: `2^45`, which is 8192 units.
pub const COORDINATE_LIMIT_RAW: i64 = 0x2000_0000_0000;

/// Whether a scalar is small enough for the area computations to stay
/// clear of saturation.
pub open spec fn within_limit(v: Scalar) -> bool {
    -COORDINATE_LIMIT_RAW <= v.raw <= COORDINATE_LIMIT_RAW
}

/// Rounding toward zero commutes with negation.
pub proof fn lemma_trunc_div_neg(n: int, d: int)
    requires
        d > 0,
    ensures
        trunc_div(-n, d) == -trunc_div(n, d),
{
    if n == 0 {
        assert(0int / d == 0) by (nonlinear_arith)
            requires
                d > 0,
        ;
    }
}

/// A quotient rounded toward zero, multiplied back, misses the dividend by
/// less than the divisor.
pub proof fn lemma_trunc_div_error(n: int, d: int)
    requires
        d > 0,
    ensures
        n - d < trunc_div(n, d) * d < n + d,
{
    let m = if n >= 0 { n } else { -n };
    vstd::arithmetic::div_mod::lemma_fundamental_div_mod(m, d);
    assert(0 <= m % d < d) by (nonlinear_arith)
        requires
            d > 0,
    ;
    assert(d * (m / d) == (m / d) * d) by (nonlinear_arith);
    assert((-(m / d)) * d == -((m / d) * d)) by (nonlinear_arith);
}

/// The product of two scalars whose raw magnitudes stay below `2^47` is the
/// exact product rounded toward zero, and is odd and symmetric in its
/// factors.
pub proof fn lemma_mul_small(a: Scalar, b: Scalar)
    requires
        -0x8000_0000_0000 <= a.raw <= 0x8000_0000_0000,
        -0x8000_0000_0000 <= b.raw <= 0x8000_0000_0000,
    ensures
        a.mul(b).raw == trunc_div(a.raw * b.raw, ONE_RAW as int),
        -0x4000_0000_0000_0000 <= a.mul(b).raw <= 0x4000_0000_0000_0000,
        a.mul(b) == b.mul(a),
        a.mul(b.neg()) == a.mul(b).neg(),
        a.neg().mul(b) == a.mul(b).neg(),
        (-0x4000_0000_0000 <= a.raw <= 0x4000_0000_0000 && -0x4000_0000_0000 <= b.raw
            <= 0x4000_0000_0000) ==> -0x1000_0000_0000_0000 <= a.mul(b).raw
            <= 0x1000_0000_0000_0000,
{
    let p = a.raw * b.raw;
    if -0x4000_0000_0000 <= a.raw <= 0x4000_0000_0000 && -0x4000_0000_0000 <= b.raw
        <= 0x4000_0000_0000 {
        assert(-0x1000_0000_0000_0000_0000_0000 <= p <= 0x1000_0000_0000_0000_0000_0000)
            by (nonlinear_arith)
            requires
                p == a.raw * b.raw,
                -0x4000_0000_0000 <= a.raw <= 0x4000_0000_0000,
                -0x4000_0000_0000 <= b.raw <= 0x4000_0000_0000,
        ;
    }
    assert(-0x4000_0000_0000_0000_0000_0000 <= p <= 0x4000_0000_0000_0000_0000_0000)
        by (nonlinear_arith)
        requires
            p == a.raw * b.raw,
            -0x8000_0000_0000 <= a.raw <= 0x8000_0000_0000,
            -0x8000_0000_0000 <= b.raw <= 0x8000_0000_0000,
    ;
    assert(b.raw * a.raw == p) by (nonlinear_arith)
        requires
            p == a.raw * b.raw,
    ;
    assert(a.raw * (-b.raw) == -p) by (nonlinear_arith)
        requires
            p == a.raw * b.raw,
    ;
    assert((-a.raw) * b.raw == -p) by (nonlinear_arith)
        requires
            p == a.raw * b.raw,
    ;
    lemma_trunc_div_neg(p, ONE_RAW as int);
    assert(-0x4000_0000_0000_0000 <= trunc_div(p, ONE_RAW as int) <= 0x4000_0000_0000_0000);
    assert(-0x4000_0000_0000_0000 <= trunc_div(-p, ONE_RAW as int) <= 0x4000_0000_0000_0000);
}

/// A scalar times zero is zero.
pub proof fn lemma_mul_zero(a: Scalar)
    ensures
        Scalar::zero().mul(a) == Scalar::zero(),
        a.mul(Scalar::zero()) == Scalar::zero(),
{
    assert(0int * a.raw == 0) by (nonlinear_arith);
    assert(a.raw * 0int == 0) by (nonlinear_arith);
}

/// A scalar times one is itself.
pub proof fn lemma_mul_one(a: Scalar)
    ensures
        Scalar::one().mul(a) == a,
        a.mul(Scalar::one()) == a,
{
    assert(ONE_RAW * a.raw == a.raw * 0x1_0000_0000) by (nonlinear_arith)
        requires
            ONE_RAW == 0x1_0000_0000,
    ;
    assert(a.raw * ONE_RAW == a.raw * 0x1_0000_0000) by (nonlinear_arith)
        requires
            ONE_RAW == 0x1_0000_0000,
    ;
}

/// A positive scalar divided by itself is one; zero divided by a non-zero
/// scalar is zero.
pub proof fn lemma_div_self(a: Scalar)
    requires
        a.raw != 0,
    ensures
        a.div(a) == Scalar::one(),
        Scalar::zero().div(a) == Scalar::zero(),
{
    let n = a.raw * ONE_RAW;
    let m = if a.raw > 0 { n } else { -n };
    assert(m / (a.raw as int) == if a.raw > 0 { ONE_RAW as int } else { -(ONE_RAW as int) })
        by (nonlinear_arith)
        requires
            a.raw != 0,
            ONE_RAW == 0x1_0000_0000,
            m == if a.raw > 0 { a.raw * ONE_RAW } else { -(a.raw * ONE_RAW) },
    ;
    assert(0int * ONE_RAW == 0) by (nonlinear_arith);
    assert(0int / (a.raw as int) == 0) by (nonlinear_arith)
        requires
            a.raw != 0,
    ;
}

/// The product of a scalar of magnitude at most one with a scalar whose
/// raw magnitude is at most `2^61` is exact up to rounding toward zero, no
/// larger than the second factor, and odd in each factor.
pub proof fn lemma_mul_unit(a: Scalar, b: Scalar)
    requires
        -ONE_RAW <= a.raw <= ONE_RAW,
        -0x2000_0000_0000_0000 <= b.raw <= 0x2000_0000_0000_0000,
    ensures
        a.mul(b).raw == trunc_div(a.raw * b.raw, ONE_RAW as int),
        b.mul(a) == a.mul(b),
        b.raw >= 0 ==> -b.raw <= a.mul(b).raw <= b.raw,
        b.raw < 0 ==> b.raw <= a.mul(b).raw <= -b.raw,
        a.mul(b.neg()) == a.mul(b).neg(),
        a.neg().mul(b) == a.mul(b).neg(),
{
    let p = a.raw * b.raw;
    let m = if b.raw >= 0 { b.raw as int } else { -b.raw };
    assert(-(m * ONE_RAW) <= p <= m * ONE_RAW) by (nonlinear_arith)
        requires
            p == a.raw * b.raw,
            -ONE_RAW <= a.raw <= ONE_RAW,
            m == if b.raw >= 0 { b.raw as int } else { -b.raw },
    ;
    assert(b.raw * a.raw == p) by (nonlinear_arith)
        requires
            p == a.raw * b.raw,
    ;
    assert(a.raw * (-b.raw) == -p) by (nonlinear_arith)
        requires
            p == a.raw * b.raw,
    ;
    assert((-a.raw) * b.raw == -p) by (nonlinear_arith)
        requires
            p == a.raw * b.raw,
    ;
    lemma_trunc_div_neg(p, ONE_RAW as int);
    assert(m * ONE_RAW == m * 0x1_0000_0000);
    assert(-m <= trunc_div(p, ONE_RAW as int) <= m);
    assert(-m <= trunc_div(-p, ONE_RAW as int) <= m);
}

/// The reciprocal of a scalar, times the scalar, is one up to rounding: it
/// is at most one and falls short of it by no more than the magnitude of
/// the scalar, counted in units of the last place, and two more.  This
/// holds of scalars between `2^-16` and `2^15` in magnitude, for which the
/// reciprocal does not saturate.
pub proof fn lemma_reciprocal_times_self(s: Scalar)
    requires
        0x1_0000 <= s.raw <= 0x8000_0000_0000 || -0x8000_0000_0000 <= s.raw <= -0x1_0000,
    ensures
        ({
            let back = Scalar::one().div(s).mul(s);
            let magnitude = if s.raw < 0 { -s.raw } else { s.raw as int };
            ONE_RAW - magnitude / (ONE_RAW as int) - 2 <= back.raw <= ONE_RAW
        }),
{
    let a = if s.raw < 0 { -s.raw } else { s.raw as int };
    let n = 0x1_0000_0000_0000_0000int;
    assert(ONE_RAW * ONE_RAW == n);
    let q = n / a;
    vstd::arithmetic::div_mod::lemma_fundamental_div_mod(n, a);
    assert(0 <= n % a < a) by (nonlinear_arith)
        requires
            a > 0,
    ;
    assert(0 < q <= 0x1_0000_0000_0000) by (nonlinear_arith)
        requires
            q == n / a,
            n == 0x1_0000_0000_0000_0000int,
            0x1_0000 <= a <= 0x8000_0000_0000,
    ;
    assert(a * q == q * a) by (nonlinear_arith);
    let product = q * a;
    assert(n - a < product <= n);
    if s.raw > 0 {
        assert(trunc_div(n, s.raw as int) == q);
        assert(Scalar::one().div(s).raw == q);
        assert(Scalar::one().div(s).raw * s.raw == product);
    } else {
        assert(n / (s.raw as int) == -q) by (nonlinear_arith)
            requires
                q == n / a,
                a == -s.raw,
                a > 0,
                n >= 0,
        ;
        assert(Scalar::one().div(s).raw == -q);
        assert((-q) * s.raw == product) by (nonlinear_arith)
            requires
                product == q * a,
                a == -s.raw,
        ;
    }
    assert(ONE_RAW - a / (ONE_RAW as int) - 2 <= product / (ONE_RAW as int) <= ONE_RAW);
}

/// A scalar times a factor that falls short of one by at most `shortfall`
/// units of the last place moves toward zero, by no more than its own
/// magnitude times the shortfall, and one unit for the rounding.
pub proof fn lemma_mul_near_one(p: Scalar, factor: Scalar, shortfall: int)
    requires
        0 <= shortfall <= ONE_RAW,
        ONE_RAW - shortfall <= factor.raw <= ONE_RAW,
    ensures
        p.raw >= 0 ==> 0 <= p.mul(factor).raw <= p.raw && (p.raw - p.mul(factor).raw) * ONE_RAW
            <= p.raw * shortfall + ONE_RAW,
        p.raw < 0 ==> p.raw <= p.mul(factor).raw <= 0 && (p.mul(factor).raw - p.raw) * ONE_RAW
            <= (-p.raw) * shortfall + ONE_RAW,
{
    let a = if p.raw < 0 { -p.raw } else { p.raw as int };
    let f = factor.raw as int;
    let one = ONE_RAW as int;
    let product = a * f;
    assert(a * (one - shortfall) <= product <= a * one) by (nonlinear_arith)
        requires
            product == a * f,
            a >= 0,
            0 <= one - shortfall <= f <= one,
    ;
    assert(a * (one - shortfall) == a * one - a * shortfall) by (nonlinear_arith);
    let q = product / one;
    vstd::arithmetic::div_mod::lemma_fundamental_div_mod(product, one);
    assert(one * q == q * one) by (nonlinear_arith);
    assert(0 <= q <= a);
    assert((a - q) * one == a * one - q * one) by (nonlinear_arith);
    assert((a - q) * one <= a * shortfall + one);
    if p.raw >= 0 {
        assert(p.raw * factor.raw == product);
    } else {
        assert(p.raw * factor.raw == -product) by (nonlinear_arith)
            requires
                product == a * f,
                a == -p.raw,
                f == factor.raw,
        ;
    }
}

} // verus!
