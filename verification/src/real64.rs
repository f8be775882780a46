//! Double-precision numbers, held by their IEEE 754 bit patterns.
//!
//! Durations, view counts and similarity scores reach the daemon as 64-bit
//! binary floating-point numbers. The core only compares them, forms the
//! quotient of two counts and scales a similarity to whole points, and does all
//! of that in integer arithmetic on the bit patterns: among numbers that are
//! not negative, the order of the patterns is the order of the values, and
//! neighbouring patterns are neighbouring values.

use vstd::arithmetic::power2::{
    lemma2_to64, lemma2_to64_rest, lemma_pow2_adds, lemma_pow2_pos, lemma_pow2_strictly_increases,
    lemma_pow2_unfold, pow2,
};
use vstd::prelude::*;

verus! {

/// A 64-bit binary floating-point number, by its bit pattern.
#[derive(Clone, Copy, Debug, PartialEq, Eq, Structural)]
pub struct Real64 {
    pub bits: u64,
}

/// The pattern of the sign alone; also `-0.0`.
pub const SIGN_BIT: u64 = 0x8000_0000_0000_0000;

/// The pattern of positive infinity. Greater magnitudes are not numbers.
pub const INFINITY_BITS: u64 = 0x7FF0_0000_0000_0000;

/// The pattern of `1.0`.
pub const ONE_BITS: u64 = 0x3FF0_0000_0000_0000;

/// Two to the power of the number of fraction bits.
pub const UNIT: u64 = 0x10_0000_0000_0000;

impl Real64 {
    /// The pattern without its sign.
    pub open spec fn magnitude(self) -> int {
        if self.bits >= SIGN_BIT {
            self.bits - SIGN_BIT
        } else {
            self.bits as int
        }
    }

    /// Neither a finite number nor an infinity.
    pub open spec fn is_nan(self) -> bool {
        self.magnitude() > INFINITY_BITS
    }

    /// An integer that orders the numbers; both zeros have the key `0`.
    pub open spec fn key(self) -> int {
        if self.bits >= SIGN_BIT {
            -self.magnitude()
        } else {
            self.magnitude()
        }
    }

    /// `self < other`, false where either is not a number.
    pub open spec fn spec_lt(self, other: Real64) -> bool {
        !self.is_nan() && !other.is_nan() && self.key() < other.key()
    }

    /// `self <= other`, false where either is not a number.
    pub open spec fn spec_le(self, other: Real64) -> bool {
        !self.is_nan() && !other.is_nan() && self.key() <= other.key()
    }

    /// `f64::max`: the greater of the two, or the one that is a number.
    pub open spec fn spec_max(self, other: Real64) -> Real64 {
        if self.is_nan() || self.spec_lt(other) {
            other
        } else {
            self
        }
    }

    /// An integer that orders the numbers.
    pub fn ordered(self) -> (r: i64)
        ensures
            r as int == self.key(),
    {
        if self.bits >= SIGN_BIT {
            let m: i128 = (self.bits - SIGN_BIT) as i128;
            (-m) as i64
        } else {
            self.bits as i64
        }
    }

    fn not_a_number(self) -> (r: bool)
        ensures
            r == self.is_nan(),
    {
        if self.bits >= SIGN_BIT {
            self.bits - SIGN_BIT > INFINITY_BITS
        } else {
            self.bits > INFINITY_BITS
        }
    }

    /// `self < other`.
    pub fn less(self, other: Real64) -> (r: bool)
        ensures
            r == self.spec_lt(other),
    {
        !self.not_a_number() && !other.not_a_number() && self.ordered() < other.ordered()
    }

    /// `self <= other`.
    pub fn at_most(self, other: Real64) -> (r: bool)
        ensures
            r == self.spec_le(other),
    {
        !self.not_a_number() && !other.not_a_number() && self.ordered() <= other.ordered()
    }

    /// `f64::max`.
    pub fn greater_of(self, other: Real64) -> (r: Real64)
        ensures
            r == self.spec_max(other),
    {
        if self.not_a_number() || self.less(other) {
            other
        } else {
            self
        }
    }
}

/// The value of the finite number with the pattern `b`, in units of the
/// smallest positive number, `2^-1074`.
pub open spec fn scaled(b: nat) -> nat {
    let exponent = b / (UNIT as nat);
    let fraction = b % (UNIT as nat);
    if exponent == 0 {
        fraction
    } else {
        (UNIT as nat + fraction) * pow2((exponent - 1) as nat)
    }
}

/// `num / den` rounds to the number with the pattern `b`: it lies between the
/// two halfway points around it, and where it is a halfway point, `b` is even.
pub open spec fn rounds_to(num: nat, den: nat, b: nat) -> bool {
    let twice = 2 * (num * pow2(1074));
    let above = (scaled(b) + scaled(b + 1)) * den;
    let below = (scaled((b - 1) as nat) + scaled(b)) * den;
    &&& b < INFINITY_BITS
    &&& twice <= above
    &&& twice == above ==> b % 2 == 0
    &&& b > 0 ==> below <= twice
    &&& b > 0 && below == twice ==> b % 2 == 0
}

/// The pattern of the number nearest to `num / den`, ties going to the even
/// pattern.
pub open spec fn nearest(num: nat, den: nat) -> nat {
    choose|b: nat| rounds_to(num, den, b)
}

proof fn lemma_pow2_values()
    ensures
        pow2(0) == 1,
        pow2(1) == 2,
        pow2(52) == UNIT,
        pow2(53) == 2 * UNIT,
        pow2(64) == 0x1_0000_0000_0000_0000,
{
    lemma2_to64();
    lemma2_to64_rest();
}

/// Neighbouring patterns stand for different values, in the same order.
pub proof fn lemma_scaled_step(b: nat)
    ensures
        scaled(b) < scaled(b + 1),
{
    let u = UNIT as nat;
    let e = b / u;
    let f = b % u;
    assert(b == e * u + f) by (nonlinear_arith)
        requires
            u == 0x10_0000_0000_0000,
            e == b / u,
            f == b % u,
    ;
    if f + 1 < u {
        assert((b + 1) / u == e && (b + 1) % u == f + 1) by (nonlinear_arith)
            requires
                u == 0x10_0000_0000_0000,
                b == e * u + f,
                f + 1 < u,
        ;
        if e > 0 {
            let p = pow2((e - 1) as nat);
            lemma_pow2_pos((e - 1) as nat);
            assert((u + f) * p < (u + f + 1) * p) by (nonlinear_arith)
                requires
                    p > 0,
            ;
        }
    } else {
        assert((b + 1) / u == e + 1 && (b + 1) % u == 0) by (nonlinear_arith)
            requires
                u == 0x10_0000_0000_0000,
                b == e * u + f,
                f + 1 == u,
        ;
        lemma_pow2_values();
        if e > 0 {
            let p = pow2((e - 1) as nat);
            lemma_pow2_pos((e - 1) as nat);
            lemma_pow2_unfold(e);
            assert((u + f) * p < u * (2 * p)) by (nonlinear_arith)
                requires
                    p > 0,
                    f + 1 == u,
            ;
        } else {
            assert(u * 1 == u);
        }
    }
}

/// The order of the patterns is the order of the values.
pub proof fn lemma_scaled_monotone(a: nat, b: nat)
    requires
        a < b,
    ensures
        scaled(a) < scaled(b),
    decreases b,
{
    lemma_scaled_step((b - 1) as nat);
    if a < b - 1 {
        lemma_scaled_monotone(a, (b - 1) as nat);
    }
}

/// A quotient rounds to one number only.
pub proof fn lemma_rounds_to_unique(num: nat, den: nat, a: nat, b: nat)
    requires
        den > 0,
        rounds_to(num, den, a),
        rounds_to(num, den, b),
    ensures
        a == b,
{
    lemma_rounds_to_not_below(num, den, a, b);
    lemma_rounds_to_not_below(num, den, b, a);
}

proof fn lemma_rounds_to_not_below(num: nat, den: nat, a: nat, b: nat)
    requires
        den > 0,
        rounds_to(num, den, a),
        rounds_to(num, den, b),
    ensures
        a >= b,
{
    if a < b {
        let below = scaled((b - 1) as nat) + scaled(b);
        let above = scaled(a) + scaled(a + 1);
        if a + 1 < b {
            lemma_scaled_monotone(a, (b - 1) as nat);
            lemma_scaled_monotone(a + 1, b);
            assert(above * den < below * den) by (nonlinear_arith)
                requires
                    above < below,
                    den > 0,
            ;
        } else {
            assert(above == below);
            assert(a % 2 == 0 && b % 2 == 0);
        }
    }
}

proof fn lemma_nearest(num: nat, den: nat, b: nat)
    requires
        den > 0,
        rounds_to(num, den, b),
    ensures
        nearest(num, den) == b,
{
    let c = nearest(num, den);
    assert(rounds_to(num, den, c));
    lemma_rounds_to_unique(num, den, b, c);
}

/// Rounding does not pass a number that the quotient does not pass.
pub proof fn lemma_rounds_at_most(num: nat, den: nat, b: nat, c: nat)
    requires
        den > 0,
        rounds_to(num, den, b),
        num * pow2(1074) <= scaled(c) * den,
    ensures
        b <= c,
{
    if b > c {
        let below = scaled((b - 1) as nat) + scaled(b);
        lemma_scaled_monotone(c, b);
        if c < b - 1 {
            lemma_scaled_monotone(c, (b - 1) as nat);
        }
        assert(below * den > 2 * (scaled(c) * den)) by (nonlinear_arith)
            requires
                below > 2 * scaled(c),
                den > 0,
        ;
    }
}

/// A quotient below a finite number rounds to some number.
pub proof fn lemma_rounds_exists(num: nat, den: nat, hi: nat)
    requires
        den > 0,
        hi < INFINITY_BITS,
        num * pow2(1074) < scaled(hi) * den,
    ensures
        rounds_to(num, den, nearest(num, den)),
        nearest(num, den) <= hi,
    decreases hi,
{
    let n = num * pow2(1074);
    if hi == 0 {
        assert(scaled(0) == 0);
        assert(0 * den == 0) by (nonlinear_arith);
    } else {
        let b = (hi - 1) as nat;
        if n < scaled(b) * den {
            lemma_rounds_exists(num, den, b);
        } else {
            lemma_rounds_between(num, den, b);
            let r = nearest(num, den);
            if rounds_to(num, den, b) {
                lemma_nearest(num, den, b);
            } else {
                lemma_nearest(num, den, hi);
            }
        }
    }
}

proof fn lemma_rounds_between(num: nat, den: nat, b: nat)
    requires
        den > 0,
        b + 1 < INFINITY_BITS,
        scaled(b) * den <= num * pow2(1074) < scaled(b + 1) * den,
    ensures
        rounds_to(num, den, b) || rounds_to(num, den, b + 1),
        2 * (num * pow2(1074)) < (scaled(b) + scaled(b + 1)) * den ==> rounds_to(num, den, b),
        2 * (num * pow2(1074)) > (scaled(b) + scaled(b + 1)) * den ==> rounds_to(num, den, b + 1),
        2 * (num * pow2(1074)) == (scaled(b) + scaled(b + 1)) * den && b % 2 == 0 ==> rounds_to(
            num,
            den,
            b,
        ),
        2 * (num * pow2(1074)) == (scaled(b) + scaled(b + 1)) * den && b % 2 == 1 ==> rounds_to(
            num,
            den,
            b + 1,
        ),
{
    let n = num * pow2(1074);
    let v0 = scaled(b);
    let v1 = scaled(b + 1);
    let v2 = scaled(b + 2);
    let before = scaled((b - 1) as nat);
    lemma_scaled_step(b);
    lemma_scaled_step(b + 1);
    assert(b + 1 + 1 == b + 2);
    assert((b + 1 - 1) as nat == b);
    assert(2 * n < (v1 + v2) * den) by (nonlinear_arith)
        requires
            n < v1 * den,
            v1 < v2,
            den > 0,
    ;
    if b > 0 {
        lemma_scaled_step((b - 1) as nat);
        assert(2 * n > (before + v0) * den) by (nonlinear_arith)
            requires
                n >= v0 * den,
                before < v0,
                den > 0,
        ;
    }
}

proof fn lemma_common_factor(num: nat, den: nat, k: nat, b: nat)
    requires
        den > 0,
        k > 0,
        rounds_to(num, den, b),
    ensures
        rounds_to(num * k, den * k, b),
        nearest(num * k, den * k) == b,
{
    let p = pow2(1074);
    let above = scaled(b) + scaled(b + 1);
    let below = scaled((b - 1) as nat) + scaled(b);
    let t = 2 * (num * p);
    assert(2 * ((num * k) * p) == t * k) by (nonlinear_arith)
        requires
            t == 2 * (num * p),
    ;
    assert(above * (den * k) == (above * den) * k) by (nonlinear_arith);
    assert(below * (den * k) == (below * den) * k) by (nonlinear_arith);
    let a = above * den;
    let w = below * den;
    assert((t <= a <==> t * k <= a * k) && (t == a <==> t * k == a * k)) by (nonlinear_arith)
        requires
            k > 0,
    ;
    assert((w <= t <==> w * k <= t * k) && (w == t <==> w * k == t * k)) by (nonlinear_arith)
        requires
            k > 0,
    ;
    assert(den * k > 0) by (nonlinear_arith)
        requires
            den > 0,
            k > 0,
    ;
    lemma_nearest(num * k, den * k, b);
}

/// What a pattern with the exponent field `s + 875` and the significand `q`
/// stands for, together with its successor.
proof fn lemma_scaled_normal(s: nat, q: nat)
    requires
        UNIT <= q < 2 * UNIT,
    ensures
        scaled(((s + 875) * UNIT + (q - UNIT)) as nat) == q * pow2(s + 874),
        scaled(((s + 875) * UNIT + (q - UNIT) + 1) as nat) == (q + 1) * pow2(s + 874),
{
    let u = UNIT as nat;
    let e = s + 875;
    let f = (q - UNIT) as nat;
    let b = e * u + f;
    assert(b / u == e && b % u == f) by (nonlinear_arith)
        requires
            u == 0x10_0000_0000_0000,
            b == e * u + f,
            f < u,
    ;
    if f + 1 < u {
        assert((b + 1) / u == e && (b + 1) % u == f + 1) by (nonlinear_arith)
            requires
                u == 0x10_0000_0000_0000,
                b == e * u + f,
                f + 1 < u,
        ;
    } else {
        assert((b + 1) / u == e + 1 && (b + 1) % u == 0) by (nonlinear_arith)
            requires
                u == 0x10_0000_0000_0000,
                b == e * u + f,
                f + 1 == u,
        ;
        lemma_pow2_unfold(e);
        let p = pow2(s + 874);
        assert(u * (2 * p) == (q + 1) * p) by (nonlinear_arith)
            requires
                q + 1 == 2 * u,
        ;
    }
}

proof fn lemma_round_step(num: nat, den: nat, n: nat, d: nat, s: nat, q: nat, r: nat)
    requires
        den > 0,
        d > 0,
        num * d * pow2(200) == n * den * pow2(s),
        n == q * d + r,
        r < d,
        UNIT <= q < 2 * UNIT,
        s <= 400,
    ensures
        ({
            let b = ((s + 875) * UNIT + (q - UNIT)) as nat;
            let up = 2 * r > d || (2 * r == d && q % 2 == 1);
            rounds_to(num, den, if up { b + 1 } else { b })
        }),
{
    let u = UNIT as nat;
    let b = ((s + 875) * u + (q - u)) as nat;
    lemma_scaled_normal(s, q);
    lemma_pow2_adds(200, 874);
    lemma_pow2_adds(s, 874);
    lemma_pow2_pos(s + 874);
    let big = pow2(874);
    let p = pow2(s + 874);
    let k = den * p;
    let t = num * pow2(1074);
    assert(t * d == n * k) by (nonlinear_arith)
        requires
            t == num * (pow2(200) * big),
            p == pow2(s) * big,
            k == den * p,
            num * d * pow2(200) == n * den * pow2(s),
    ;
    assert(k > 0) by (nonlinear_arith)
        requires
            k == den * p,
            den > 0,
            p > 0,
    ;
    let v0 = scaled(b);
    let v1 = scaled(b + 1);
    assert(v0 * den == q * k) by (nonlinear_arith)
        requires
            v0 == q * p,
            k == den * p,
    ;
    assert(v1 * den == (q + 1) * k) by (nonlinear_arith)
        requires
            v1 == (q + 1) * p,
            k == den * p,
    ;
    assert((v0 + v1) * den == (2 * q + 1) * k) by (nonlinear_arith)
        requires
            v0 * den == q * k,
            v1 * den == (q + 1) * k,
    ;
    assert(q * k <= t < (q + 1) * k) by (nonlinear_arith)
        requires
            t * d == n * k,
            n == q * d + r,
            r < d,
            d > 0,
            k > 0,
    ;
    assert(2 * r < d ==> 2 * t < (2 * q + 1) * k) by (nonlinear_arith)
        requires
            t * d == n * k,
            n == q * d + r,
            d > 0,
            k > 0,
    ;
    assert(2 * r > d ==> 2 * t > (2 * q + 1) * k) by (nonlinear_arith)
        requires
            t * d == n * k,
            n == q * d + r,
            d > 0,
            k > 0,
    ;
    assert(2 * r == d ==> 2 * t == (2 * q + 1) * k) by (nonlinear_arith)
        requires
            t * d == n * k,
            n == q * d + r,
            d > 0,
            k > 0,
    ;
    assert(b % 2 == q % 2) by (nonlinear_arith)
        requires
            b == (s + 875) * u + (q - u),
            u == 0x10_0000_0000_0000,
    ;
    assert(b + 1 < INFINITY_BITS) by (nonlinear_arith)
        requires
            b == (s + 875) * u + (q - u),
            u == 0x10_0000_0000_0000,
            q < 2 * u,
            s <= 400,
    ;
    lemma_rounds_between(num, den, b);
}

proof fn lemma_double_left(num: nat, den: nat, n: nat, d: nat, s: nat)
    requires
        s > 0,
        num * d * pow2(200) == n * den * pow2(s),
    ensures
        num * d * pow2(200) == (2 * n) * den * pow2((s - 1) as nat),
{
    lemma_pow2_unfold(s);
    let h = pow2((s - 1) as nat);
    assert(n * den * (2 * h) == (2 * n) * den * h) by (nonlinear_arith);
}

proof fn lemma_double_right(num: nat, den: nat, n: nat, d: nat, s: nat)
    requires
        num * d * pow2(200) == n * den * pow2(s),
    ensures
        num * (2 * d) * pow2(200) == n * den * pow2(s + 1),
{
    lemma_pow2_unfold(s + 1);
    let h = pow2(s);
    let g = pow2(200);
    assert(num * (2 * d) * g == n * den * (2 * h)) by (nonlinear_arith)
        requires
            num * d * g == n * den * h,
    ;
}

/// The double nearest to `num / den`.
pub fn divide(num: u64, den: u128) -> (r: Real64)
    requires
        0 < den <= 0x2_0000_0000_0000_0000,
    ensures
        rounds_to(num as nat, den as nat, r.bits as nat),
        r.bits as nat == nearest(num as nat, den as nat),
{
    if num == 0 {
        proof {
            lemma_pow2_values();
            assert(scaled(0) == 0 && scaled(1) == 1);
            assert(0 * pow2(1074) == 0) by (nonlinear_arith);
            lemma_nearest(0, den as nat, 0);
        }
        return Real64 { bits: 0 };
    }
    let unit: u128 = UNIT as u128;
    let mut n: u128 = num as u128;
    let mut d: u128 = den;
    let mut s: u64 = 200;
    proof {
        lemma_pow2_values();
        lemma_pow2_adds(64, 53);
    }
    assert(num as nat * d as nat * pow2(200) == n as nat * den as nat * pow2(200))
        by (nonlinear_arith)
        requires
            n == num,
            d == den,
    ;
    while n < d * unit
        invariant
            unit == UNIT,
            0 < d <= 0x2_0000_0000_0000_0000,
            n < 2 * (d * unit) || n <= u64::MAX,
            83 <= s <= 200,
            n >= pow2((200 - s) as nat),
            pow2(117) == 0x20_0000_0000_0000 * 0x1_0000_0000_0000_0000,
            num as nat * d as nat * pow2(200) == n as nat * den as nat * pow2(s as nat),
        decreases s,
    {
        proof {
            if s == 83 {
                assert(d * unit <= 0x20_0000_0000_0000 * 0x1_0000_0000_0000_0000);
            }
            lemma_double_left(num as nat, den as nat, n as nat, d as nat, s as nat);
            lemma_pow2_unfold((201 - s) as nat);
        }
        n = n * 2;
        s = s - 1;
    }
    let ghost s0 = s as int;
    proof {
        assert(pow2(0) == 1);
    }
    while n >= 2 * (d * unit)
        invariant
            unit == UNIT,
            0 < d <= 0x4_0000_0000_0000_0000,
            d * unit <= n < 0x40_0000_0000_0000 * 0x1_0000_0000_0000_0000,
            s0 <= s <= s0 + 66,
            s0 <= 200,
            d >= pow2((s - s0) as nat),
            pow2(64) == 0x1_0000_0000_0000_0000,
            num as nat * d as nat * pow2(200) == n as nat * den as nat * pow2(s as nat),
        decreases s0 + 66 - s,
    {
        proof {
            if s >= s0 + 66 {
                lemma_pow2_strictly_increases(65, (s - s0) as nat);
                lemma_pow2_unfold(65);
            }
            lemma_double_right(num as nat, den as nat, n as nat, d as nat, s as nat);
            lemma_pow2_unfold((s + 1 - s0) as nat);
        }
        d = d * 2;
        s = s + 1;
    }
    let q: u128 = n / d;
    let rest: u128 = n % d;
    proof {
        assert(n == q * d + rest && rest < d && unit <= q < 2 * unit) by (nonlinear_arith)
            requires
                d > 0,
                q == n / d,
                rest == n % d,
                d * unit <= n < 2 * (d * unit),
        ;
        lemma_round_step(num as nat, den as nat, n as nat, d as nat, s as nat, q as nat, rest as nat);
    }
    let base: u64 = (s + 875) * UNIT + (q as u64 - UNIT);
    let up: bool = 2 * rest > d || (2 * rest == d && q % 2 == 1);
    let bits: u64 = if up {
        base + 1
    } else {
        base
    };
    proof {
        lemma_nearest(num as nat, den as nat, bits as nat);
    }
    Real64 { bits }
}

/// The whole part of the product of the number with the pattern `b` and `k`,
/// the product itself rounded to a double first.
pub open spec fn floor_product(b: nat, k: nat) -> nat {
    scaled(nearest(scaled(b) * k, pow2(1074))) / pow2(1074)
}

proof fn lemma_scaled_power(e: nat)
    requires
        e > 0,
    ensures
        scaled(e * (UNIT as nat)) == pow2(e + 51),
{
    let u = UNIT as nat;
    let b = e * u;
    assert(b / u == e && b % u == 0) by (nonlinear_arith)
        requires
            u == 0x10_0000_0000_0000,
            b == e * u,
    ;
    lemma_pow2_values();
    lemma_pow2_adds(52, (e - 1) as nat);
}

/// A quotient that is at most one rounds to a number that is at most one.
pub proof fn lemma_nearest_at_most_one(num: nat, den: nat)
    requires
        den > 0,
        num <= den,
        rounds_to(num, den, nearest(num, den)),
    ensures
        nearest(num, den) <= ONE_BITS,
{
    lemma_scaled_power(1023);
    assert(num * pow2(1074) <= pow2(1074) * den) by (nonlinear_arith)
        requires
            num <= den,
    ;
    lemma_rounds_at_most(num, den, nearest(num, den), ONE_BITS as nat);
}

/// Equal counts have the quotient one.
pub proof fn lemma_nearest_one(n: nat)
    requires
        n > 0,
    ensures
        nearest(n, n) == ONE_BITS,
{
    let one = ONE_BITS as nat;
    lemma_scaled_power(1023);
    lemma_scaled_step(one);
    lemma_scaled_step((one - 1) as nat);
    let t = n * pow2(1074);
    let v0 = scaled((one - 1) as nat);
    let v2 = scaled(one + 1);
    let v1 = scaled(one);
    assert(2 * t < (v1 + v2) * n && (v0 + v1) * n < 2 * t) by (nonlinear_arith)
        requires
            t == n * v1,
            v0 < v1 < v2,
            n > 0,
    ;
    lemma_nearest(n, n, one);
}

/// A quotient that is at most one rounds to one exactly where it misses one by
/// no more than half of the last place: one part in two to the power of 54.
pub proof fn lemma_nearest_is_one(num: nat, den: nat)
    requires
        den > 0,
        num <= den,
    ensures
        nearest(num, den) == ONE_BITS <==> 4 * (UNIT as nat) * (den - num) <= den,
{
    let one = ONE_BITS as nat;
    let u = UNIT as nat;
    let p = pow2(1021);
    lemma_pow2_pos(1021);
    lemma_pow2_values();
    lemma_pow2_adds(1021, 53);
    lemma_scaled_power(1023);
    lemma_scaled_step(one);
    let v1 = scaled(one);
    let v0 = scaled((one - 1) as nat);
    let v2 = scaled(one + 1);
    assert((one - 1) as nat / u == 1022 && (one - 1) as nat % u == u - 1);
    assert(v1 == pow2(1074) && v1 == p * (2 * u));
    assert(v0 == (2 * u - 1) * p);
    let t = num * v1;
    assert(t < v2 * den) by (nonlinear_arith)
        requires
            t == num * v1,
            num <= den,
            v1 < v2,
            den > 0,
    ;
    lemma_rounds_exists(num, den, one + 1);
    assert((v0 + v1) * den <= 2 * t <==> 4 * u * (den - num) <= den) by (nonlinear_arith)
        requires
            v0 == (2 * u - 1) * p,
            v1 == p * (2 * u),
            t == num * v1,
            p > 0,
    {
        assert((v0 + v1) * den == p * ((4 * u - 1) * den));
        assert(2 * t == p * (4 * u * num));
        assert(p * ((4 * u - 1) * den) <= p * (4 * u * num) <==> (4 * u - 1) * den <= 4 * u * num);
        assert((4 * u - 1) * den <= 4 * u * num <==> 4 * u * (den - num) <= den);
    }
    if 4 * u * (den - num) <= den {
        assert(2 * t <= (v1 + v2) * den && 2 * t != (v1 + v2) * den) by (nonlinear_arith)
            requires
                t == num * v1,
                num <= den,
                v1 < v2,
                den > 0,
        ;
        lemma_nearest(num, den, one);
    }
}

/// A quotient that is at most one rounds to a number, which is at most one.
pub proof fn lemma_nearest_fits(num: nat, den: nat)
    requires
        den > 0,
        num <= den,
    ensures
        rounds_to(num, den, nearest(num, den)),
        nearest(num, den) <= ONE_BITS,
{
    let one = ONE_BITS as nat;
    lemma_scaled_power(1023);
    lemma_scaled_step(one);
    let v1 = scaled(one);
    let v2 = scaled(one + 1);
    assert(num * v1 < v2 * den) by (nonlinear_arith)
        requires
            num <= den,
            v1 < v2,
            den > 0,
    ;
    lemma_rounds_exists(num, den, one + 1);
    lemma_nearest_at_most_one(num, den);
}

/// A product with a number that is at most one is at most `k`.
pub proof fn lemma_floor_product_bound(b: nat, k: nat)
    requires
        b <= ONE_BITS,
        k <= 128,
    ensures
        rounds_to(scaled(b) * k, pow2(1074), nearest(scaled(b) * k, pow2(1074))),
        nearest(scaled(b) * k, pow2(1074)) <= 1030 * UNIT,
{
    let p = pow2(1074);
    lemma_pow2_pos(1074);
    lemma_scaled_power(1023);
    lemma_scaled_power(1030);
    lemma_scaled_power(1031);
    lemma_pow2_adds(1074, 7);
    lemma_pow2_adds(1074, 8);
    lemma2_to64();
    if b < ONE_BITS {
        lemma_scaled_monotone(b, ONE_BITS as nat);
    }
    let v = scaled(b);
    let n = v * k;
    assert(n * p <= (p * 128) * p && (p * 128) * p < (p * 256) * p) by (nonlinear_arith)
        requires
            n == v * k,
            v <= p,
            k <= 128,
            p > 0,
    ;
    lemma_rounds_exists(n, p, (1031 * UNIT) as nat);
    lemma_rounds_at_most(n, p, nearest(n, p), (1030 * UNIT) as nat);
}

/// Two to the power of `e`.
fn power_of_two(e: u64) -> (r: u64)
    requires
        e <= 62,
    ensures
        r as nat == pow2(e as nat),
{
    proof {
        lemma_pow2_values();
    }
    let mut r: u64 = 1;
    for i in 0..e
        invariant
            e <= 62,
            r as nat == pow2(i as nat),
    {
        proof {
            lemma_pow2_unfold((i + 1) as nat);
            lemma_pow2_strictly_increases((i + 1) as nat, 64);
            lemma_pow2_values();
        }
        r = r * 2;
    }
    r
}

proof fn lemma_halves(m: nat, e: nat, sh: nat)
    requires
        e > 0,
        e + sh == 1075,
    ensures
        (m * pow2((e - 1) as nat)) / pow2(1074) == m / pow2(sh),
{
    lemma_pow2_adds((e - 1) as nat, sh);
    lemma_pow2_pos((e - 1) as nat);
    lemma_pow2_pos(sh);
    let a = pow2((e - 1) as nat);
    let c = pow2(sh);
    vstd::arithmetic::div_mod::lemma_div_denominator((m * a) as int, a as int, c as int);
    vstd::arithmetic::div_mod::lemma_div_by_multiple(m as int, a as int);
}

/// The whole part of `x * k`, the product rounded to a double first.
pub fn floor_times(x: Real64, k: u64) -> (r: u64)
    requires
        x.bits <= ONE_BITS,
        k <= 128,
    ensures
        r as nat == floor_product(x.bits as nat, k as nat),
        r <= 128,
{
    let ghost b = x.bits as nat;
    let ghost top = pow2(1074);
    let ghost whole = scaled(b) * k as nat;
    proof {
        lemma_floor_product_bound(b, k as nat);
        lemma_pow2_pos(1074);
    }
    let e: u64 = x.bits / UNIT;
    if e < 1013 {
        proof {
            lemma_scaled_power(1013);
            lemma_scaled_power(1022);
            lemma_pow2_adds(1064, 7);
            lemma_pow2_strictly_increases(1071, 1073);
            lemma_pow2_strictly_increases(1073, 1074);
            lemma2_to64();
            lemma_scaled_monotone(b, (1013 * UNIT) as nat);
            let v = scaled(b);
            let c = (1022 * UNIT) as nat;
            assert(whole <= pow2(1064) * 128) by (nonlinear_arith)
                requires
                    whole == v * k as nat,
                    v < pow2(1064),
                    k <= 128,
            ;
            assert(whole * top <= scaled(c) * top) by (nonlinear_arith)
                requires
                    whole <= scaled(c),
            ;
            let p = nearest(whole, top);
            lemma_rounds_at_most(whole, top, p, c);
            if p < c {
                lemma_scaled_monotone(p, c);
            }
            vstd::arithmetic::div_mod::lemma_basic_div(scaled(p) as int, top as int);
        }
        return 0;
    }
    let m: u64 = UNIT + x.bits % UNIT;
    let sh: u64 = 1075 - e;
    let den: u64 = power_of_two(sh);
    proof {
        lemma_pow2_pos(sh as nat);
        assert(m * k <= 0x20_0000_0000_0000 * 128) by (nonlinear_arith)
            requires
                m <= 0x20_0000_0000_0000,
                k <= 128,
        ;
    }
    let num: u64 = m * k;
    let p: Real64 = divide(num, den as u128);
    proof {
        let a = pow2((e - 1) as nat);
        lemma_pow2_pos((e - 1) as nat);
        lemma_pow2_adds(sh as nat, (e - 1) as nat);
        lemma_common_factor(num as nat, den as nat, a, p.bits as nat);
        assert(num as nat * a == whole) by (nonlinear_arith)
            requires
                whole == (m as nat * a) * k as nat,
                num == m * k,
        ;
        assert(p.bits as nat == nearest(whole, top));
    }
    let pe: u64 = p.bits / UNIT;
    if pe < 1023 {
        proof {
            lemma_scaled_power(1023);
            lemma_scaled_monotone(p.bits as nat, (1023 * UNIT) as nat);
            vstd::arithmetic::div_mod::lemma_basic_div(scaled(p.bits as nat) as int, top as int);
        }
        return 0;
    }
    let pm: u64 = UNIT + p.bits % UNIT;
    let psh: u64 = 1075 - pe;
    let scale: u64 = power_of_two(psh);
    proof {
        lemma_halves(pm as nat, pe as nat, psh as nat);
        lemma_pow2_pos(psh as nat);
        lemma2_to64_rest();
        if pe < 1029 {
            lemma_pow2_strictly_increases(46, psh as nat);
        }
        assert(pe == 1030 ==> pm == UNIT);
        assert(pm / scale <= 128) by (nonlinear_arith)
            requires
                scale >= 0x2000_0000_0000,
                pm < 2 * 0x10_0000_0000_0000,
                scale >= 2 * 0x2000_0000_0000 || pm <= 0x10_0000_0000_0000,
        ;
    }
    pm / scale
}

/// The whole number nearest to the finite number with the pattern `b`, halves
/// going up.
pub open spec fn nearest_whole(b: nat) -> nat {
    (2 * scaled(b) + pow2(1074)) / pow2(1075)
}

impl Real64 {
    /// The number as whole units: what is negative or no number counts as
    /// zero, and what is too great as the greatest `i64`.
    pub open spec fn rounded(self) -> int {
        if self.is_nan() || self.bits >= SIGN_BIT {
            0
        } else if self.bits == INFINITY_BITS {
            i64::MAX as int
        } else if nearest_whole(self.bits as nat) > i64::MAX {
            i64::MAX as int
        } else {
            nearest_whole(self.bits as nat) as int
        }
    }
}

proof fn lemma_nearest_whole_small(b: nat)
    requires
        b < 1022 * UNIT,
    ensures
        nearest_whole(b) == 0,
{
    lemma_scaled_power(1022);
    lemma_scaled_monotone(b, (1022 * UNIT) as nat);
    lemma_pow2_unfold(1074);
    lemma_pow2_unfold(1075);
    vstd::arithmetic::div_mod::lemma_basic_div(
        (2 * scaled(b) + pow2(1074)) as int,
        pow2(1075) as int,
    );
}

proof fn lemma_nearest_whole_middle(b: nat, e: nat, m: nat, sh: nat)
    requires
        e == b / (UNIT as nat),
        m == UNIT + b % (UNIT as nat),
        1022 <= e <= 1074,
        sh == 1075 - e,
    ensures
        nearest_whole(b) == (m + pow2((sh - 1) as nat)) / pow2(sh),
{
    let a = pow2(e);
    let h = pow2((sh - 1) as nat);
    lemma_pow2_pos(e);
    lemma_pow2_pos(sh);
    lemma_pow2_unfold(e);
    lemma_pow2_adds(e, (sh - 1) as nat);
    lemma_pow2_adds(e, sh);
    let half = pow2((e - 1) as nat);
    assert(2 * scaled(b) + pow2(1074) == a * (m + h)) by (nonlinear_arith)
        requires
            scaled(b) == m * half,
            a == 2 * half,
            pow2(1074) == a * h,
    ;
    vstd::arithmetic::div_mod::lemma_div_multiples_vanish_quotient(
        a as int,
        (m + h) as int,
        pow2(sh) as int,
    );
}

proof fn lemma_nearest_whole_large(b: nat, e: nat, m: nat)
    requires
        e == b / (UNIT as nat),
        m == UNIT + b % (UNIT as nat),
        e >= 1075,
    ensures
        nearest_whole(b) == m * pow2((e - 1075) as nat),
{
    let p = pow2(1075);
    let h = pow2(1074);
    let k = pow2((e - 1075) as nat);
    lemma_pow2_pos(1074);
    lemma_pow2_unfold(1075);
    lemma_pow2_adds(1074, (e - 1075) as nat);
    assert(2 * scaled(b) + h == (m * k) * p + h) by (nonlinear_arith)
        requires
            scaled(b) == m * (h * k),
            p == 2 * h,
    ;
    vstd::arithmetic::div_mod::lemma_fundamental_div_mod_converse(
        (2 * scaled(b) + h) as int,
        p as int,
        (m * k) as int,
        h as int,
    );
}

/// The number as whole units, rounded to the nearest.
pub fn round_whole(x: Real64) -> (r: i64)
    ensures
        r as int == x.rounded(),
        r >= 0,
{
    if x.not_a_number() || x.bits >= SIGN_BIT {
        return 0;
    }
    if x.bits == INFINITY_BITS {
        return i64::MAX;
    }
    let ghost b = x.bits as nat;
    let e: u64 = x.bits / UNIT;
    if e < 1022 {
        proof {
            lemma_nearest_whole_small(b);
        }
        return 0;
    }
    let m: u64 = UNIT + x.bits % UNIT;
    if e < 1075 {
        let sh: u64 = 1075 - e;
        let half: u64 = power_of_two(sh - 1);
        let whole: u64 = power_of_two(sh);
        proof {
            lemma_nearest_whole_middle(b, e as nat, m as nat, sh as nat);
            lemma_pow2_pos(sh as nat);
            lemma_pow2_values();
            if sh < 53 {
                lemma_pow2_strictly_increases(sh as nat, 53);
            }
            lemma_pow2_unfold(sh as nat);
            vstd::arithmetic::div_mod::lemma_div_is_ordered_by_denominator(
                (m + half) as int,
                1,
                whole as int,
            );
        }
        ((m + half) / whole) as i64
    } else {
        proof {
            lemma_nearest_whole_large(b, e as nat, m as nat);
        }
        if e >= 1086 {
            proof {
                lemma2_to64();
                if e > 1086 {
                    lemma_pow2_strictly_increases(11, (e - 1075) as nat);
                }
                let k = pow2((e - 1075) as nat);
                assert(m * k >= 0x10_0000_0000_0000 * 2048) by (nonlinear_arith)
                    requires
                        m >= 0x10_0000_0000_0000,
                        k >= 2048,
                ;
            }
            return i64::MAX;
        }
        let k: u64 = power_of_two(e - 1075);
        proof {
            lemma2_to64();
            if e < 1085 {
                lemma_pow2_strictly_increases((e - 1075) as nat, 10);
            }
            assert(m * k <= 0x1F_FFFF_FFFF_FFFF * 1024) by (nonlinear_arith)
                requires
                    m <= 0x1F_FFFF_FFFF_FFFF,
                    k <= 1024,
            ;
        }
        (m * k) as i64
    }
}

/// Scaling a number that is at most one does not exceed the scale, where that
/// is a number itself, with the pattern `c`.
pub proof fn lemma_floor_product_at_most(b: nat, k: nat, c: nat)
    requires
        b <= ONE_BITS,
        k <= 128,
        scaled(c) == k * pow2(1074),
    ensures
        floor_product(b, k) <= k,
{
    let p = pow2(1074);
    lemma_pow2_pos(1074);
    lemma_floor_product_bound(b, k);
    lemma_scaled_power(1023);
    if b < ONE_BITS {
        lemma_scaled_monotone(b, ONE_BITS as nat);
    }
    let v = scaled(b);
    assert((v * k) * p <= scaled(c) * p) by (nonlinear_arith)
        requires
            v <= p,
            scaled(c) == k * p,
            k >= 0,
            p > 0,
    ;
    let n = nearest(v * k, p);
    lemma_rounds_at_most(v * k, p, n, c);
    if n < c {
        lemma_scaled_monotone(n, c);
    }
    vstd::arithmetic::div_mod::lemma_div_is_ordered(scaled(n) as int, (k * p) as int, p as int);
    vstd::arithmetic::div_mod::lemma_div_by_multiple(k as int, p as int);
}

/// The patterns of `100.0` and of `30.0`.
pub proof fn lemma_scales()
    ensures
        scaled(0x4059_0000_0000_0000) == 100 * pow2(1074),
        scaled(0x403E_0000_0000_0000) == 30 * pow2(1074),
{
    lemma2_to64();
    lemma2_to64_rest();
    lemma_pow2_adds(48, 1028);
    lemma_pow2_adds(2, 1074);
    let a = pow2(1028);
    assert(0x19_0000_0000_0000 * a == 100 * pow2(1074)) by (nonlinear_arith)
        requires
            pow2(1076) == 0x1_0000_0000_0000 * a,
            pow2(1076) == 4 * pow2(1074),
    ;
    lemma_pow2_adds(49, 1026);
    lemma_pow2_adds(1, 1074);
    let d = pow2(1026);
    assert(0x1E_0000_0000_0000 * d == 30 * pow2(1074)) by (nonlinear_arith)
        requires
            pow2(1075) == 0x2_0000_0000_0000 * d,
            pow2(1075) == 2 * pow2(1074),
    ;
}

/// Nothing of anything is zero.
pub proof fn lemma_nearest_zero(den: nat)
    requires
        den > 0,
    ensures
        nearest(0, den) == 0,
{
    assert(scaled(0) == 0 && scaled(1) == 1);
    assert(0 * pow2(1074) == 0) by (nonlinear_arith);
    lemma_nearest(0, den, 0);
}

/// Rounding keeps the order of quotients.
pub proof fn lemma_nearest_ordered(num1: nat, den1: nat, num2: nat, den2: nat)
    requires
        den1 > 0,
        den2 > 0,
        num1 * den2 <= num2 * den1,
        rounds_to(num1, den1, nearest(num1, den1)),
        rounds_to(num2, den2, nearest(num2, den2)),
    ensures
        nearest(num1, den1) <= nearest(num2, den2),
{
    let a = nearest(num2, den2);
    let b = nearest(num1, den1);
    if a < b {
        let p = pow2(1074);
        let below = scaled((b - 1) as nat) + scaled(b);
        let above = scaled(a) + scaled(a + 1);
        let t1 = 2 * (num1 * p);
        let t2 = 2 * (num2 * p);
        assert(t1 * den2 <= t2 * den1) by (nonlinear_arith)
            requires
                t1 == 2 * (num1 * p),
                t2 == 2 * (num2 * p),
                num1 * den2 <= num2 * den1,
                p >= 0,
        {
            assert(t1 * den2 == 2 * p * (num1 * den2));
            assert(t2 * den1 == 2 * p * (num2 * den1));
        }
        assert(below * den1 * den2 <= above * den2 * den1) by (nonlinear_arith)
            requires
                below * den1 <= t1,
                t2 <= above * den2,
                t1 * den2 <= t2 * den1,
                den1 > 0,
                den2 > 0,
        ;
        if a + 1 < b {
            lemma_scaled_monotone(a, (b - 1) as nat);
            lemma_scaled_monotone(a + 1, b);
            assert(above * den2 * den1 < below * den1 * den2) by (nonlinear_arith)
                requires
                    above < below,
                    den1 > 0,
                    den2 > 0,
            ;
        } else {
            assert(above == below);
            assert(below * den1 == t1 && above * den2 == t2) by (nonlinear_arith)
                requires
                    above == below,
                    below * den1 <= t1,
                    t2 <= above * den2,
                    t1 * den2 <= t2 * den1,
                    den1 > 0,
                    den2 > 0,
            {
                assert(below * den1 * den2 <= t1 * den2);
                assert(t2 * den1 <= above * den2 * den1);
                assert(above * den2 * den1 == below * den1 * den2);
            }
            assert(a % 2 == 0 && b % 2 == 0);
        }
    }
}

/// Scaling keeps the order of numbers that are at most one.
pub proof fn lemma_floor_product_ordered(a: nat, b: nat, k: nat)
    requires
        a <= b <= ONE_BITS,
        k <= 128,
    ensures
        floor_product(a, k) <= floor_product(b, k),
{
    let p = pow2(1074);
    lemma_pow2_pos(1074);
    lemma_floor_product_bound(a, k);
    lemma_floor_product_bound(b, k);
    if a < b {
        lemma_scaled_monotone(a, b);
    }
    let x = scaled(a) * k;
    let y = scaled(b) * k;
    assert(x * p <= y * p) by (nonlinear_arith)
        requires
            x == scaled(a) * k,
            y == scaled(b) * k,
            scaled(a) <= scaled(b),
            p > 0,
    ;
    lemma_nearest_ordered(x, p, y, p);
    let m = nearest(x, p);
    let n = nearest(y, p);
    if m < n {
        lemma_scaled_monotone(m, n);
    }
    vstd::arithmetic::div_mod::lemma_div_is_ordered(scaled(m) as int, scaled(n) as int, p as int);
}

/// One scales to the scale, where that is a number itself, with the pattern `c`;
/// zero scales to zero.
pub proof fn lemma_floor_product_ends(k: nat, c: nat)
    requires
        0 < k,
        0 < c < INFINITY_BITS,
        scaled(c) == k * pow2(1074),
    ensures
        floor_product(ONE_BITS as nat, k) == k,
        floor_product(0, k) == 0,
{
    let p = pow2(1074);
    lemma_pow2_pos(1074);
    lemma_scaled_power(1023);
    lemma_scaled_step(c);
    lemma_scaled_step((c - 1) as nat);
    let v0 = scaled((c - 1) as nat);
    let v1 = scaled(c);
    let v2 = scaled(c + 1);
    assert(scaled(ONE_BITS as nat) * k == v1) by (nonlinear_arith)
        requires
            scaled(ONE_BITS as nat) == p,
            v1 == k * p,
    ;
    let t = v1 * p;
    assert(2 * t < (v1 + v2) * p && (v0 + v1) * p < 2 * t) by (nonlinear_arith)
        requires
            t == v1 * p,
            v0 < v1 < v2,
            p > 0,
    ;
    lemma_nearest(v1, p, c);
    vstd::arithmetic::div_mod::lemma_div_by_multiple(k as int, p as int);
    assert(scaled(0) == 0 && scaled(1) == 1);
    assert(0 * k == 0 && 0 * p == 0) by (nonlinear_arith);
    lemma_nearest(0, p, 0);
    vstd::arithmetic::div_mod::lemma_div_basics_1(p as int);
}

/// A number is rounded to the whole number that it misses by no more than a
/// half; what is negative or no number is zero.
pub proof fn lemma_rounded(x: Real64)
    ensures
        x.bits >= 0x8000_0000_0000_0000 || x.bits > 0x7FF0_0000_0000_0000 ==> x.rounded() == 0,
        0 <= x.rounded() <= 0x7FFF_FFFF_FFFF_FFFF,
        x.bits < 0x7FF0_0000_0000_0000 && x.rounded() < 0x7FFF_FFFF_FFFF_FFFF ==> 2 * x.rounded()
            * pow2(1074) <= 2 * scaled(x.bits as nat) + pow2(1074) && 2 * scaled(x.bits as nat) < (2
            * x.rounded() + 1) * pow2(1074),
{
    if x.bits < 0x7FF0_0000_0000_0000 {
        let p = pow2(1074);
        lemma_pow2_pos(1074);
        lemma_pow2_unfold(1075);
        let v = 2 * scaled(x.bits as nat) + p;
        let n = v / pow2(1075);
        assert(n * (2 * p) <= v && v < (n + 1) * (2 * p)) by (nonlinear_arith)
            requires
                p > 0,
                n == v / (2 * p),
        ;
        assert(n * (2 * p) == 2 * n * p && (n + 1) * (2 * p) == (2 * n + 1) * p + p)
            by (nonlinear_arith);
    }
}

/// Neighbouring numbers are no further apart than their exponent allows.
proof fn lemma_scaled_gap(b: nat)
    ensures
        scaled(b + 1) <= scaled(b) + pow2(b / (UNIT as nat)),
{
    let u = UNIT as nat;
    let e = b / u;
    let f = b % u;
    lemma_pow2_values();
    assert(b == e * u + f) by (nonlinear_arith)
        requires
            u == 0x10_0000_0000_0000,
            e == b / u,
            f == b % u,
    ;
    if f + 1 < u {
        assert((b + 1) / u == e && (b + 1) % u == f + 1) by (nonlinear_arith)
            requires
                u == 0x10_0000_0000_0000,
                b == e * u + f,
                f + 1 < u,
        ;
    } else {
        assert((b + 1) / u == e + 1 && (b + 1) % u == 0) by (nonlinear_arith)
            requires
                u == 0x10_0000_0000_0000,
                b == e * u + f,
                f + 1 == u,
        ;
    }
    if e > 0 {
        let p = pow2((e - 1) as nat);
        lemma_pow2_pos((e - 1) as nat);
        lemma_pow2_unfold(e);
        assert((u + f + 1) * p == (u + f) * p + p) by (nonlinear_arith);
        assert(u * (2 * p) == (u + u) * p) by (nonlinear_arith);
    } else {
        assert(u * 1 == u);
    }
}

/// A rounded quotient misses the quotient by no more than half of the gap
/// between the numbers around it.
proof fn lemma_rounds_near(num: nat, den: nat, b: nat, e: nat)
    requires
        rounds_to(num, den, b),
        b / (UNIT as nat) <= e,
    ensures
        2 * (scaled(b) * den) <= 2 * (num * pow2(1074)) + pow2(e) * den,
        2 * (num * pow2(1074)) <= 2 * (scaled(b) * den) + pow2(e) * den,
{
    let u = UNIT as nat;
    let g = pow2(e);
    let v = scaled(b);
    let v2 = scaled(b + 1);
    lemma_scaled_gap(b);
    if b / u < e {
        lemma_pow2_strictly_increases(b / u, e);
    }
    assert((v + v2) * den <= 2 * (v * den) + g * den) by (nonlinear_arith)
        requires
            v2 <= v + g,
    ;
    if b > 0 {
        let c = (b - 1) as nat;
        let v0 = scaled(c);
        lemma_scaled_gap(c);
        vstd::arithmetic::div_mod::lemma_div_is_ordered(c as int, b as int, u as int);
        if c / u < e {
            lemma_pow2_strictly_increases(c / u, e);
        }
        assert(2 * (v * den) <= (v0 + v) * den + g * den) by (nonlinear_arith)
            requires
                v <= v0 + g,
        ;
    } else {
        assert(v == 0);
        assert(0 * den == 0 && g * den >= 0) by (nonlinear_arith);
    }
}

/// Scaling a number that is at most one gives the whole part of the product, up
/// to one part in two to the power of 45.
pub proof fn lemma_floor_product_near(b: nat, k: nat)
    requires
        b <= ONE_BITS,
        k <= 128,
    ensures
        floor_product(b, k) * pow2(1074) <= scaled(b) * k + pow2(1029),
        scaled(b) * k <= (floor_product(b, k) + 1) * pow2(1074) + pow2(1029),
{
    let p = pow2(1074);
    let n = scaled(b) * k;
    let c = nearest(n, p);
    let f = floor_product(b, k);
    let v = scaled(c);
    lemma_pow2_pos(1074);
    lemma_floor_product_bound(b, k);
    vstd::arithmetic::div_mod::lemma_div_is_ordered(c as int, 1030 * UNIT as int, UNIT as int);
    lemma_rounds_near(n, p, c, 1030);
    lemma_pow2_unfold(1030);
    let g = pow2(1029);
    assert(v <= n + g && n <= v + g) by (nonlinear_arith)
        requires
            2 * (v * p) <= 2 * (n * p) + (2 * g) * p,
            2 * (n * p) <= 2 * (v * p) + (2 * g) * p,
            p > 0,
    {
        assert((v - n - g) * p <= 0);
        assert((n - v - g) * p <= 0);
    }
    vstd::arithmetic::div_mod::lemma_fundamental_div_mod(v as int, p as int);
    assert(f * p <= v < (f + 1) * p) by (nonlinear_arith)
        requires
            v == p * f + v % p,
            0 <= v % p < p,
    ;
}

/// A share of a count in whole parts of `k`: the whole part of `k * num / den`,
/// or, where that is exact, perhaps the whole number below it.
pub proof fn lemma_share_in_parts(num: nat, den: nat, k: nat)
    requires
        0 < den < 0x1000_0000_0000,
        num <= den,
        k <= 128,
    ensures
        floor_product(nearest(num, den), k) * den <= k * num,
        k * num <= (floor_product(nearest(num, den), k) + 1) * den,
{
    let p = pow2(1074);
    let b = nearest(num, den);
    let v = scaled(b);
    let f = floor_product(b, k);
    let g = pow2(1023);
    lemma_nearest_fits(num, den);
    vstd::arithmetic::div_mod::lemma_div_is_ordered(b as int, ONE_BITS as int, UNIT as int);
    lemma_rounds_near(num, den, b, 1023);
    lemma_floor_product_near(b, k);
    lemma_pow2_pos(1023);
    lemma_pow2_adds(6, 1023);
    lemma_pow2_adds(51, 1023);
    lemma2_to64();
    lemma2_to64_rest();
    let s = 0x8_0000_0000_0000nat;
    assert(p == s * g && pow2(1029) == 64 * g);
    lemma_share_bounds(num, den, k, v, f, g);
}

/// The step from the bounds on a rounded share and a rounded product to whole
/// numbers.
proof fn lemma_share_bounds(num: nat, den: nat, k: nat, v: nat, f: nat, g: nat)
    requires
        0 < den < 0x1000_0000_0000,
        k <= 128,
        g > 0,
        2 * (v * den) <= 2 * (num * (0x8_0000_0000_0000nat * g)) + g * den,
        2 * (num * (0x8_0000_0000_0000nat * g)) <= 2 * (v * den) + g * den,
        f * (0x8_0000_0000_0000nat * g) <= v * k + 64 * g,
        v * k <= (f + 1) * (0x8_0000_0000_0000nat * g) + 64 * g,
    ensures
        f * den <= k * num,
        k * num <= (f + 1) * den,
{
    let s = 0x8_0000_0000_0000int;
    let a = (v * k) * den;
    let n = (num * k) * (s * g);
    assert(2 * a <= 2 * n + (g * den) * k && 2 * n <= 2 * a + (g * den) * k) by (nonlinear_arith)
        requires
            2 * (v * den) <= 2 * (num * (s * g)) + g * den,
            2 * (num * (s * g)) <= 2 * (v * den) + g * den,
            a == (v * k) * den,
            n == (num * k) * (s * g),
            k >= 0,
    {
        assert(a == (v * den) * k);
        assert(n == (num * (s * g)) * k);
        assert((2 * (v * den)) * k <= (2 * (num * (s * g)) + g * den) * k);
        assert((2 * (num * (s * g))) * k <= (2 * (v * den) + g * den) * k);
    }
    assert((g * den) * k <= 128 * (g * den)) by (nonlinear_arith)
        requires
            0 <= k <= 128,
            g > 0,
            den > 0,
    ;
    let x = (f * den) * (s * g);
    let y = ((f + 1) * den) * (s * g);
    assert(x <= a + 64 * (g * den) && a <= y + 64 * (g * den)) by (nonlinear_arith)
        requires
            f * (s * g) <= v * k + 64 * g,
            v * k <= (f + 1) * (s * g) + 64 * g,
            a == (v * k) * den,
            x == (f * den) * (s * g),
            y == ((f + 1) * den) * (s * g),
            den > 0,
    {
        assert((f * (s * g)) * den <= (v * k + 64 * g) * den);
        assert((v * k) * den <= ((f + 1) * (s * g) + 64 * g) * den);
        assert(x == (f * (s * g)) * den);
        assert(y == ((f + 1) * (s * g)) * den);
    }
    assert(x <= n + 128 * (g * den) && n <= y + 128 * (g * den));
    assert(128 * (g * den) < s * g) by (nonlinear_arith)
        requires
            den < 0x1000_0000_0000,
            s == 0x8_0000_0000_0000,
            g > 0,
    {
        assert(g * den < g * 0x1000_0000_0000);
    }
    let q = s * g;
    assert(f * den <= num * k && num * k <= (f + 1) * den) by (nonlinear_arith)
        requires
            (f * den) * q < (num * k) * q + q,
            (num * k) * q < ((f + 1) * den) * q + q,
            q > 0,
    {
        assert((f * den - num * k - 1) * q < 0);
        assert((num * k - (f + 1) * den - 1) * q < 0);
    }
    assert(num * k == k * num) by (nonlinear_arith);
}

} // verus!
