//! Saturating fixed-point scalars.
//!
//! A `Fixed` stands for the real number `raw / 2^16`. Every operation is
//! exact on the raw integers up to truncation toward zero, and saturates to
//! `[-RAW_MAX, RAW_MAX]` instead of overflowing.
use vstd::prelude::*;

verus! {

/// Raw value of the number one.
pub const ONE_RAW: i64 = 65536;

/// Largest raw magnitude a computed value can reach.
pub const RAW_MAX: i64 = 0x7fff_ffff_ffff_ffff;

#[derive(Clone, Copy, Debug, PartialEq, Eq, Structural)]
pub struct Fixed {
    pub raw: i64,
}

pub open spec fn abs_int(a: int) -> int {
    if a < 0 { -a } else { a }
}

/// Integer division truncating toward zero, as the hardware does it.
pub open spec fn tdiv(a: int, d: int) -> int {
    if (a < 0) == (d < 0) {
        abs_int(a) / abs_int(d)
    } else {
        -(abs_int(a) / abs_int(d))
    }
}

pub open spec fn clamp_raw(x: int) -> int {
    if x > RAW_MAX {
        RAW_MAX as int
    } else if x < -RAW_MAX {
        -RAW_MAX
    } else {
        x
    }
}

/// The fixed-point number with raw value `clamp_raw(x)`.
pub open spec fn fx(x: int) -> Fixed {
    Fixed { raw: clamp_raw(x) as i64 }
}

pub open spec fn fx_add(a: Fixed, b: Fixed) -> Fixed {
    fx(a.raw + b.raw)
}

pub open spec fn fx_sub(a: Fixed, b: Fixed) -> Fixed {
    fx(a.raw - b.raw)
}

pub open spec fn fx_neg(a: Fixed) -> Fixed {
    fx(-a.raw)
}

pub open spec fn fx_mul(a: Fixed, b: Fixed) -> Fixed {
    fx(tdiv(a.raw * b.raw, ONE_RAW as int))
}

/// Division; a zero divisor gives zero.
pub open spec fn fx_div(a: Fixed, b: Fixed) -> Fixed {
    if b.raw == 0 {
        fx(0)
    } else {
        fx(tdiv(a.raw * ONE_RAW, b.raw as int))
    }
}

/// Floor of the square root of a natural number.
pub open spec fn isqrt(x: nat) -> nat
    decreases x,
{
    if x == 0 {
        0
    } else {
        let r = isqrt((x - 1) as nat);
        if (r + 1) * (r + 1) <= x {
            r + 1
        } else {
            r
        }
    }
}

/// Square root, rounded down; a negative argument gives zero.
pub open spec fn fx_sqrt(a: Fixed) -> Fixed {
    if a.raw <= 0 {
        fx(0)
    } else {
        fx(isqrt((a.raw * ONE_RAW) as nat) as int)
    }
}

pub open spec fn fx_one() -> Fixed {
    fx(ONE_RAW as int)
}

pub open spec fn fx_min(a: Fixed, b: Fixed) -> Fixed {
    if b.raw < a.raw {
        b
    } else {
        a
    }
}

pub open spec fn fx_abs(a: Fixed) -> Fixed {
    if a.raw < 0 {
        fx_neg(a)
    } else {
        a
    }
}

pub open spec fn fx_from_int(n: int) -> Fixed {
    fx(n * ONE_RAW)
}

impl Fixed {
    /// The value is one that an operation can produce: its negation is exact.
    pub open spec fn wf(self) -> bool {
        -RAW_MAX <= self.raw
    }

    pub fn zero() -> (r: Fixed)
        ensures
            r == fx(0),
    {
        Fixed { raw: 0 }
    }

    pub fn one() -> (r: Fixed)
        ensures
            r == fx_one(),
    {
        Fixed { raw: ONE_RAW }
    }

    /// The largest representable value, which stands for an unbounded distance.
    pub fn max_value() -> (r: Fixed)
        ensures
            r == fx(RAW_MAX as int),
    {
        Fixed { raw: RAW_MAX }
    }

    pub fn from_int(n: i64) -> (r: Fixed)
        ensures
            r == fx_from_int(n as int),
    {
        proof {
            lemma_mul_magnitude(n as int, ONE_RAW as int);
        }
        Fixed { raw: clamp_i128((n as i128) * (ONE_RAW as i128)) }
    }

    /// The quotient `num / den` of two integers.
    pub fn ratio(num: i64, den: i64) -> (r: Fixed)
        ensures
            r == fx_div(fx_from_int(num as int), fx_from_int(den as int)),
    {
        Fixed::from_int(num).div(Fixed::from_int(den))
    }

    pub fn add(self, o: Fixed) -> (r: Fixed)
        ensures
            r == fx_add(self, o),
    {
        Fixed { raw: clamp_i128(self.raw as i128 + o.raw as i128) }
    }

    /// The sum of three values, saturated once.
    pub fn sum3(a: Fixed, b: Fixed, c: Fixed) -> (r: Fixed)
        ensures
            r == fx(a.raw + b.raw + c.raw),
    {
        Fixed { raw: clamp_i128(a.raw as i128 + b.raw as i128 + c.raw as i128) }
    }

    pub fn sub(self, o: Fixed) -> (r: Fixed)
        ensures
            r == fx_sub(self, o),
    {
        Fixed { raw: clamp_i128(self.raw as i128 - o.raw as i128) }
    }

    pub fn neg(self) -> (r: Fixed)
        ensures
            r == fx_neg(self),
    {
        Fixed { raw: clamp_i128(-(self.raw as i128)) }
    }

    pub fn mul(self, o: Fixed) -> (r: Fixed)
        ensures
            r == fx_mul(self, o),
    {
        proof {
            lemma_mul_magnitude(self.raw as int, o.raw as int);
        }
        let p: i128 = (self.raw as i128) * (o.raw as i128);
        Fixed { raw: clamp_i128(tdiv_i128(p, ONE_RAW as i128)) }
    }

    pub fn div(self, o: Fixed) -> (r: Fixed)
        ensures
            r == fx_div(self, o),
    {
        if o.raw == 0 {
            Fixed { raw: 0 }
        } else {
            proof {
                lemma_mul_magnitude(self.raw as int, ONE_RAW as int);
            }
            let p: i128 = (self.raw as i128) * (ONE_RAW as i128);
            Fixed { raw: clamp_i128(tdiv_i128(p, o.raw as i128)) }
        }
    }

    pub fn sqrt(self) -> (r: Fixed)
        ensures
            r == fx_sqrt(self),
            r.raw >= 0,
    {
        if self.raw <= 0 {
            Fixed { raw: 0 }
        } else {
            proof {
                lemma_mul_magnitude(self.raw as int, ONE_RAW as int);
            }
            let x: u128 = (self.raw as u128) * (ONE_RAW as u128);
            let s: u128 = isqrt_u128(x);
            proof {
                lemma_isqrt_small(x as nat);
            }
            Fixed { raw: s as i64 }
        }
    }

    pub fn lt(self, o: Fixed) -> (r: bool)
        ensures
            r == (self.raw < o.raw),
    {
        self.raw < o.raw
    }

    pub fn min(self, o: Fixed) -> (r: Fixed)
        ensures
            r == fx_min(self, o),
    {
        if o.raw < self.raw {
            o
        } else {
            self
        }
    }

    pub fn abs(self) -> (r: Fixed)
        ensures
            r == fx_abs(self),
    {
        if self.raw < 0 {
            self.neg()
        } else {
            self
        }
    }
}

/// Multiplication is odd in its second argument.
pub proof fn lemma_mul_neg(a: Fixed, b: Fixed)
    requires
        b.wf(),
    ensures
        fx_mul(a, fx_neg(b)).raw == -fx_mul(a, b).raw,
{
    assert(a.raw * (-b.raw) == -(a.raw * b.raw)) by (nonlinear_arith);
    assert(abs_int(-(a.raw * b.raw)) == abs_int(a.raw * b.raw));
}

proof fn lemma_mul_magnitude(a: int, b: int)
    requires
        i64::MIN <= a <= i64::MAX,
        i64::MIN <= b <= i64::MAX,
    ensures
        -0x4000_0000_0000_0000_0000_0000_0000_0000 <= a * b <= 0x4000_0000_0000_0000_0000_0000_0000_0000,
{
    assert(-0x8000_0000_0000_0000int <= a <= 0x8000_0000_0000_0000int);
    assert(-0x8000_0000_0000_0000int <= b <= 0x8000_0000_0000_0000int);
    assert(abs_int(a) <= 0x8000_0000_0000_0000int);
    assert(abs_int(b) <= 0x8000_0000_0000_0000int);
    assert(abs_int(a) * abs_int(b) <= 0x8000_0000_0000_0000int * 0x8000_0000_0000_0000int)
        by (nonlinear_arith)
        requires
            0 <= abs_int(a) <= 0x8000_0000_0000_0000int,
            0 <= abs_int(b) <= 0x8000_0000_0000_0000int,
    ;
    assert(abs_int(a * b) == abs_int(a) * abs_int(b)) by (nonlinear_arith);
}

fn clamp_i128(x: i128) -> (r: i64)
    ensures
        r == clamp_raw(x as int),
{
    if x > RAW_MAX as i128 {
        RAW_MAX
    } else if x < -(RAW_MAX as i128) {
        -RAW_MAX
    } else {
        x as i64
    }
}

fn tdiv_i128(a: i128, d: i128) -> (q: i128)
    requires
        d != 0,
        a > i128::MIN,
        d > i128::MIN,
    ensures
        q == tdiv(a as int, d as int),
{
    let ua: u128 = if a < 0 { (-a) as u128 } else { a as u128 };
    let ud: u128 = if d < 0 { (-d) as u128 } else { d as u128 };
    let uq: u128 = ua / ud;
    proof {
        vstd::arithmetic::div_mod::lemma_div_is_ordered_by_denominator(ua as int, 1, ud as int);
    }
    if (a < 0) == (d < 0) {
        uq as i128
    } else {
        -(uq as i128)
    }
}

proof fn lemma_isqrt(x: nat)
    ensures
        isqrt(x) * isqrt(x) <= x < (isqrt(x) + 1) * (isqrt(x) + 1),
    decreases x,
{
    if x == 0 {
        assert(isqrt(x) == 0);
        let s = isqrt(x);
        assert((s + 1) * (s + 1) == 1) by (nonlinear_arith)
            requires
                s == 0,
        ;
    } else {
        lemma_isqrt((x - 1) as nat);
        let r = isqrt((x - 1) as nat);
        if (r + 1) * (r + 1) <= x {
            assert(isqrt(x) == r + 1);
            assert(x <= (r + 1) * (r + 1));
            assert(x < (r + 2) * (r + 2)) by (nonlinear_arith)
                requires
                    x - 1 < (r + 1) * (r + 1),
                    r >= 0,
            ;
            assert(x < (isqrt(x) + 1) * (isqrt(x) + 1));
        } else {
            assert(isqrt(x) == r);
            assert(r * r <= x);
            assert(x < (r + 1) * (r + 1));
            assert(x < (isqrt(x) + 1) * (isqrt(x) + 1));
        }
    }
}

proof fn lemma_isqrt_unique(x: nat, r: nat)
    requires
        r * r <= x < (r + 1) * (r + 1),
    ensures
        isqrt(x) == r,
{
    lemma_isqrt(x);
    let s = isqrt(x);
    if s < r {
        assert((s + 1) * (s + 1) <= r * r) by (nonlinear_arith)
            requires
                s + 1 <= r,
                s >= 0,
        ;
    } else if s > r {
        assert((r + 1) * (r + 1) <= s * s) by (nonlinear_arith)
            requires
                r + 1 <= s,
                r >= 0,
        ;
    }
}

/// The square root of a value of at most one is at most one.
pub proof fn lemma_sqrt_at_most_one(a: Fixed)
    requires
        a.raw <= ONE_RAW,
    ensures
        0 <= fx_sqrt(a).raw <= ONE_RAW,
{
    if a.raw > 0 {
        let x = (a.raw * ONE_RAW) as nat;
        assert(x <= ONE_RAW * ONE_RAW) by (nonlinear_arith)
            requires
                x == a.raw * ONE_RAW,
                a.raw <= ONE_RAW,
        ;
        lemma_isqrt(x);
        let r = isqrt(x);
        if r > ONE_RAW {
            assert(r * r > ONE_RAW * ONE_RAW) by (nonlinear_arith)
                requires
                    r > ONE_RAW,
            ;
        }
    }
}

/// Truncating division by a positive number keeps order.
pub proof fn lemma_tdiv_monotone(p: int, q: int, d: int)
    requires
        p <= q,
        d > 0,
    ensures
        tdiv(p, d) <= tdiv(q, d),
{
    if 0 <= p {
        vstd::arithmetic::div_mod::lemma_div_is_ordered(p, q, d);
    } else if q < 0 {
        vstd::arithmetic::div_mod::lemma_div_is_ordered(-q, -p, d);
    } else {
        vstd::arithmetic::div_mod::lemma_div_pos_is_pos(q, d);
        vstd::arithmetic::div_mod::lemma_div_pos_is_pos(-p, d);
    }
}

/// Division by a value that is not negative keeps order.
pub proof fn lemma_div_monotone(x: Fixed, y: Fixed, a: Fixed)
    requires
        x.raw <= y.raw,
        a.raw >= 0,
    ensures
        fx_div(x, a).raw <= fx_div(y, a).raw,
{
    if a.raw > 0 {
        assert(x.raw * ONE_RAW <= y.raw * ONE_RAW) by (nonlinear_arith)
            requires
                x.raw <= y.raw,
        ;
        lemma_tdiv_monotone(x.raw * ONE_RAW, y.raw * ONE_RAW, a.raw as int);
    }
}

/// A square is never negative.
pub proof fn lemma_square_nonneg(x: Fixed)
    ensures
        fx_mul(x, x).raw >= 0,
{
    assert(x.raw * x.raw >= 0) by (nonlinear_arith);
}

/// Products of whole numbers are exact.
pub proof fn lemma_mul_whole(m: int, n: int)
    requires
        -0x1_0000 <= m <= 0x1_0000,
        -0x1_0000 <= n <= 0x1_0000,
    ensures
        fx_mul(fx(m * ONE_RAW), fx(n * ONE_RAW)) == fx(m * n * ONE_RAW),
{
    assert(-0x1_0000 * ONE_RAW <= m * ONE_RAW <= 0x1_0000 * ONE_RAW) by (nonlinear_arith)
        requires
            -0x1_0000 <= m <= 0x1_0000,
    ;
    assert(-0x1_0000 * ONE_RAW <= n * ONE_RAW <= 0x1_0000 * ONE_RAW) by (nonlinear_arith)
        requires
            -0x1_0000 <= n <= 0x1_0000,
    ;
    assert((m * ONE_RAW) * (n * ONE_RAW) == (m * n * ONE_RAW) * ONE_RAW) by (nonlinear_arith);
    assert(abs_int((m * n * ONE_RAW) * ONE_RAW) == abs_int(m * n * ONE_RAW) * ONE_RAW) by (nonlinear_arith);
    assert(abs_int(m * n * ONE_RAW) * ONE_RAW / (ONE_RAW as int) == abs_int(m * n * ONE_RAW)) by (nonlinear_arith);
    assert((m * n * ONE_RAW < 0) == ((m * ONE_RAW < 0) != (n * ONE_RAW < 0)) || m * n == 0) by (nonlinear_arith);
    assert(-0x1_0000 * 0x1_0000 <= m * n <= 0x1_0000 * 0x1_0000) by (nonlinear_arith)
        requires
            -0x1_0000 <= m <= 0x1_0000,
            -0x1_0000 <= n <= 0x1_0000,
    ;
}

/// Dividing by one changes nothing.
pub proof fn lemma_div_one(x: int)
    requires
        -RAW_MAX <= x <= RAW_MAX,
    ensures
        fx_div(fx(x), fx(ONE_RAW as int)) == fx(x),
{
    assert(abs_int(x * ONE_RAW) == abs_int(x) * ONE_RAW) by (nonlinear_arith);
    assert(abs_int(x) * ONE_RAW / (ONE_RAW as int) == abs_int(x)) by (nonlinear_arith);
}

/// A whole number divided by itself, or by its negation, gives one or minus one.
pub proof fn lemma_div_whole_by_itself(k: int)
    requires
        0 < k <= 0x1_0000,
    ensures
        fx_div(fx(-k * ONE_RAW), fx(k * ONE_RAW)) == fx(-ONE_RAW),
{
    assert(0 < k * ONE_RAW <= 0x1_0000 * ONE_RAW) by (nonlinear_arith)
        requires
            0 < k <= 0x1_0000,
    ;
    assert(abs_int(-k * ONE_RAW * ONE_RAW) == (k * ONE_RAW) * ONE_RAW) by (nonlinear_arith)
        requires
            k > 0,
    ;
    assert((k * ONE_RAW) * ONE_RAW / (k * ONE_RAW) == ONE_RAW) by (nonlinear_arith)
        requires
            k > 0,
    ;
}

/// The square root of a whole square is exact.
pub proof fn lemma_sqrt_whole_square(k: int)
    requires
        0 <= k <= 0x1_0000,
    ensures
        fx_sqrt(fx(k * k * ONE_RAW)) == fx(k * ONE_RAW),
{
    assert(k * k <= 0x1_0000 * 0x1_0000) by (nonlinear_arith)
        requires
            0 <= k <= 0x1_0000,
    ;
    if k > 0 {
        assert(k * k > 0) by (nonlinear_arith)
            requires
                k > 0,
        ;
        let root = k * ONE_RAW;
        let x = k * k * ONE_RAW * ONE_RAW;
        assert(root * root == x) by (nonlinear_arith)
            requires
                root == k * ONE_RAW,
                x == k * k * ONE_RAW * ONE_RAW,
        ;
        assert(x < (root + 1) * (root + 1)) by (nonlinear_arith)
            requires
                root * root == x,
                root > 0,
        ;
        lemma_isqrt_unique(x as nat, root as nat);
    }
}

proof fn lemma_isqrt_small(x: nat)
    requires
        x < 0x1_0000_0000_0000_0000_0000,
    ensures
        isqrt(x) < 0x100_0000_0000,
{
    lemma_isqrt(x);
    let s = isqrt(x);
    if s >= 0x100_0000_0000 {
        assert(s * s >= 0x100_0000_0000 * 0x100_0000_0000) by (nonlinear_arith)
            requires
                s >= 0x100_0000_0000,
        ;
        assert(0x100_0000_0000 * 0x100_0000_0000 == 0x1_0000_0000_0000_0000_0000int);
    }
}

/// Floor square root by bisection.
fn isqrt_u128(x: u128) -> (r: u128)
    requires
        x <= 0x1_0000_0000_0000_0000_0000,
    ensures
        r == isqrt(x as nat),
{
    let mut lo: u128 = 0;
    let mut hi: u128 = 0x100_0000_0001;
    assert(x < hi * hi) by (nonlinear_arith)
        requires
            x <= 0x1_0000_0000_0000_0000_0000,
            hi == 0x100_0000_0001,
    ;
    while hi - lo > 1
        invariant
            lo < hi <= 0x100_0000_0001,
            lo * lo <= x,
            x < hi * hi,
        decreases hi - lo,
    {
        let mid: u128 = lo + (hi - lo) / 2;
        assert(mid * mid <= 0x100_0000_0001 * 0x100_0000_0001) by (nonlinear_arith)
            requires
                mid < 0x100_0000_0001,
        ;
        if mid * mid <= x {
            lo = mid;
        } else {
            hi = mid;
        }
    }
    proof {
        lemma_isqrt_unique(x as nat, lo as nat);
    }
    lo
}

} // verus!
