//! Numbers as bit patterns of IEEE-754 doubles.
//!
//! A [`Value`] is read through its three fields: the sign bit, the eleven
//! exponent bits and the fifty-two fraction bits. Everything the calculator
//! has to decide about a number is stated over these fields.

use vstd::arithmetic::power2::*;
use vstd::bits::*;
use vstd::prelude::*;

verus! {

/// Two to the power 52: the first pattern with a non-zero exponent field.
pub const FRACTION_LIMIT: u64 = 0x10_0000_0000_0000;

/// Two to the power 63: the first pattern with the sign bit set.
pub const SIGN_LIMIT: u64 = 0x8000_0000_0000_0000;

/// The exponent field of infinities and NaNs.
pub const EXPONENT_SPECIAL: u64 = 2047;

/// The exponent field at which the last fraction bit counts one.
pub const EXPONENT_UNIT: u64 = 1075;

/// The exponent field of the numbers from one up to two.
pub const EXPONENT_ONE: u64 = 1023;

/// A double-precision number, held as its sixty-four bits.
///
/// Two values are equal when their bits are: a NaN equals itself, and `0.0`
/// differs from `-0.0`. [`Value::is_zero`] and [`Value::is_positive`] compare
/// as numbers.
#[derive(Clone, Copy, Debug, PartialEq, Eq, Structural)]
pub struct Value {
    pub bits: u64,
}

impl Value {
    /// The sign bit is set.
    pub open spec fn negative(self) -> bool {
        self.bits >= SIGN_LIMIT
    }

    /// The exponent field.
    pub open spec fn exponent(self) -> nat {
        ((self.bits % SIGN_LIMIT) / FRACTION_LIMIT) as nat
    }

    /// The fraction field.
    pub open spec fn fraction(self) -> nat {
        (self.bits % FRACTION_LIMIT) as nat
    }

    /// Not a number.
    pub open spec fn nan(self) -> bool {
        self.exponent() == EXPONENT_SPECIAL && self.fraction() != 0
    }

    /// Neither an infinity nor a NaN.
    pub open spec fn finite(self) -> bool {
        self.exponent() < EXPONENT_SPECIAL
    }

    /// Positive infinity.
    pub open spec fn infinity(self) -> bool {
        !self.negative() && self.exponent() == EXPONENT_SPECIAL && self.fraction() == 0
    }

    /// Plus or minus zero.
    pub open spec fn zero(self) -> bool {
        self.exponent() == 0 && self.fraction() == 0
    }

    /// Greater than zero: positive infinity counts, NaN does not.
    pub open spec fn positive(self) -> bool {
        !self.negative() && !self.nan() && !self.zero()
    }

    /// The fraction with its hidden leading bit, which all but the subnormal
    /// numbers have.
    pub open spec fn significand(self) -> nat {
        if self.exponent() == 0 {
            self.fraction()
        } else {
            self.fraction() + FRACTION_LIMIT as nat
        }
    }

    /// The magnitude rounded down to a whole number. The magnitude is
    /// `significand * 2^(exponent - 1075)`; an infinity is read by the same
    /// formula and so is larger than every finite number.
    pub open spec fn whole_part(self) -> nat {
        let e = self.exponent();
        if e >= EXPONENT_UNIT {
            self.significand() * pow2((e - EXPONENT_UNIT) as nat)
        } else if e == 0 {
            0
        } else {
            self.significand() / pow2((EXPONENT_UNIT - e) as nat)
        }
    }

    /// The number is finite and has no fractional part.
    pub open spec fn whole(self) -> bool {
        let e = self.exponent();
        if e >= EXPONENT_UNIT {
            e < EXPONENT_SPECIAL
        } else if e == 0 {
            self.fraction() == 0
        } else {
            self.significand() % pow2((EXPONENT_UNIT - e) as nat) == 0
        }
    }

    /// The number rounded toward zero; zero for a NaN.
    pub open spec fn truncated(self) -> int {
        if self.nan() {
            0
        } else if self.negative() {
            -(self.whole_part() as int)
        } else {
            self.whole_part() as int
        }
    }

    /// `truncated` brought into the range from `low` to `high`.
    pub open spec fn clamped(self, low: int, high: int) -> int {
        let t = self.truncated();
        if t < low {
            low
        } else if t > high {
            high
        } else {
            t
        }
    }

    /// The value with the given bit pattern.
    pub fn from_bits(bits: u64) -> (v: Value)
        ensures
            v.bits == bits,
    {
        Value { bits }
    }

    /// The bit pattern.
    pub fn to_bits(self) -> (bits: u64)
        ensures
            bits == self.bits,
    {
        self.bits
    }

    fn exponent_field(self) -> (e: u64)
        ensures
            e == self.exponent(),
            e <= EXPONENT_SPECIAL,
    {
        (self.bits % SIGN_LIMIT) / FRACTION_LIMIT
    }

    fn fraction_field(self) -> (f: u64)
        ensures
            f == self.fraction(),
            f < FRACTION_LIMIT,
    {
        self.bits % FRACTION_LIMIT
    }

    fn significand_field(self) -> (m: u64)
        ensures
            m == self.significand(),
            m < 2 * FRACTION_LIMIT,
            self.exponent() != 0 ==> m >= FRACTION_LIMIT,
    {
        if self.exponent_field() == 0 {
            self.fraction_field()
        } else {
            self.fraction_field() + FRACTION_LIMIT
        }
    }

    /// Whether the sign bit is set, as for `-0.0` and for some NaNs.
    pub fn is_sign_negative(self) -> (r: bool)
        ensures
            r == self.negative(),
    {
        self.bits >= SIGN_LIMIT
    }

    pub fn is_nan(self) -> (r: bool)
        ensures
            r == self.nan(),
    {
        self.exponent_field() == EXPONENT_SPECIAL && self.fraction_field() != 0
    }

    /// Whether the number equals zero: true of `0.0` and of `-0.0`.
    pub fn is_zero(self) -> (r: bool)
        ensures
            r == self.zero(),
    {
        self.exponent_field() == 0 && self.fraction_field() == 0
    }

    /// Whether the number is greater than zero.
    pub fn is_positive(self) -> (r: bool)
        ensures
            r == self.positive(),
    {
        !self.is_sign_negative() && !self.is_nan() && !self.is_zero()
    }

    /// Whether the number is positive infinity.
    pub fn is_infinity(self) -> (r: bool)
        ensures
            r == self.infinity(),
    {
        !self.is_sign_negative() && self.exponent_field() == EXPONENT_SPECIAL
            && self.fraction_field() == 0
    }

    /// The same number with the sign bit cleared.
    pub fn abs(self) -> (r: Value)
        ensures
            !r.negative(),
            r.exponent() == self.exponent(),
            r.fraction() == self.fraction(),
            r.bits == self.bits % SIGN_LIMIT,
    {
        Value { bits: self.bits % SIGN_LIMIT }
    }
}

/// The bits of `1.0`.
pub const ONE_BITS: u64 = 0x3FF0_0000_0000_0000;

/// The bits of the quiet NaN that arithmetic yields by default.
pub const NAN_BITS: u64 = 0x7FF8_0000_0000_0000;

/// The bits of the double nearest to the circle constant.
pub const PI_BITS: u64 = 0x4009_21FB_5444_2D18;

/// The bits of the double nearest to Euler's number.
pub const E_BITS: u64 = 0x4005_BF0A_8B14_5769;

proof fn lemma_pow2_ordered(a: nat, b: nat)
    requires
        a <= b,
    ensures
        pow2(a) <= pow2(b),
{
    if a < b {
        lemma_pow2_strictly_increases(a, b);
    }
}

impl Value {
    /// The whole part of the magnitude, or the largest `u64` where that is
    /// smaller.
    pub fn magnitude(self) -> (r: u64)
        ensures
            r == if self.whole_part() > u64::MAX {
                u64::MAX as nat
            } else {
                self.whole_part()
            },
    {
        let e: u64 = self.exponent_field();
        let m: u64 = self.significand_field();
        proof {
            lemma2_to64();
            lemma2_to64_rest();
        }
        if e >= EXPONENT_UNIT + 12 {
            proof {
                let k = (e - EXPONENT_UNIT) as nat;
                lemma_pow2_ordered(12, k);
                assert(m * pow2(k) >= 0x1_0000_0000_0000_0000) by (nonlinear_arith)
                    requires
                        m >= 0x10_0000_0000_0000,
                        pow2(k) >= 4096,
                ;
            }
            u64::MAX
        } else if e >= EXPONENT_UNIT {
            let k: u64 = e - EXPONENT_UNIT;
            proof {
                lemma_pow2_ordered(k as nat, 11);
                lemma_pow2_pos(k as nat);
                assert(m * pow2(k as nat) <= u64::MAX) by (nonlinear_arith)
                    requires
                        m < 0x20_0000_0000_0000,
                        0 < pow2(k as nat) <= 2048,
                ;
                lemma_u64_shl_is_mul(m, k);
            }
            m << k
        } else if e < EXPONENT_ONE {
            proof {
                if e != 0 {
                    let k = (EXPONENT_UNIT - e) as nat;
                    lemma_pow2_ordered(53, k);
                    vstd::arithmetic::div_mod::lemma_basic_div(m as int, pow2(k) as int);
                }
            }
            0
        } else {
            let k: u64 = EXPONENT_UNIT - e;
            proof {
                lemma_u64_shr_is_div(m, k);
            }
            m >> k
        }
    }

    /// Whether the number is finite and has no fractional part. This is true
    /// of both zeros.
    pub fn is_whole(self) -> (r: bool)
        ensures
            r == self.whole(),
    {
        let e: u64 = self.exponent_field();
        let m: u64 = self.significand_field();
        proof {
            lemma2_to64();
            lemma2_to64_rest();
        }
        if e >= EXPONENT_UNIT {
            e < EXPONENT_SPECIAL
        } else if e == 0 {
            m == 0
        } else if e < EXPONENT_ONE {
            proof {
                let k = (EXPONENT_UNIT - e) as nat;
                lemma_pow2_ordered(53, k);
                vstd::arithmetic::div_mod::lemma_small_mod(m as nat, pow2(k));
            }
            false
        } else {
            let k: u64 = EXPONENT_UNIT - e;
            proof {
                lemma_pow2_ordered(k as nat, 52);
                lemma_pow2_pos(k as nat);
                lemma_u64_shl_is_mul(1, k);
            }
            let unit: u64 = 1u64 << k;
            m % unit == 0
        }
    }

    /// The number as an `i64`: rounded toward zero, the nearest bound where it
    /// lies outside the type's range, and zero for a NaN.
    pub fn to_i64(self) -> (r: i64)
        ensures
            r == self.clamped(i64::MIN as int, i64::MAX as int),
    {
        if self.is_nan() {
            return 0;
        }
        let m: u64 = self.magnitude();
        if self.is_sign_negative() {
            if m >= SIGN_LIMIT {
                i64::MIN
            } else {
                0 - (m as i64)
            }
        } else {
            if m >= SIGN_LIMIT {
                i64::MAX
            } else {
                m as i64
            }
        }
    }

    /// The number as an `i32`: rounded toward zero, the nearest bound where it
    /// lies outside the type's range, and zero for a NaN.
    pub fn to_i32(self) -> (r: i32)
        ensures
            r == self.clamped(i32::MIN as int, i32::MAX as int),
    {
        if self.is_nan() {
            return 0;
        }
        let m: u64 = self.magnitude();
        if self.is_sign_negative() {
            if m >= 0x8000_0000 {
                i32::MIN
            } else {
                0 - (m as i32)
            }
        } else {
            if m >= 0x8000_0000 {
                i32::MAX
            } else {
                m as i32
            }
        }
    }

    /// The number as a `usize`: rounded toward zero, zero for a negative number
    /// and for a NaN, and the largest `usize` for a number beyond it.
    pub fn to_usize(self) -> (r: usize)
        ensures
            r == self.clamped(0, usize::MAX as int),
    {
        if self.is_nan() || self.is_sign_negative() {
            return 0;
        }
        let m: u64 = self.magnitude();
        if m > usize::MAX as u64 {
            usize::MAX
        } else {
            m as usize
        }
    }

    /// The number one.
    pub fn one() -> (v: Value)
        ensures
            v.bits == ONE_BITS,
    {
        Value { bits: ONE_BITS }
    }

    /// The default quiet NaN.
    pub fn not_a_number() -> (v: Value)
        ensures
            v.bits == NAN_BITS,
    {
        Value { bits: NAN_BITS }
    }

    /// The circle constant.
    pub fn pi() -> (v: Value)
        ensures
            v.bits == PI_BITS,
    {
        Value { bits: PI_BITS }
    }

    /// Euler's number.
    pub fn e() -> (v: Value)
        ensures
            v.bits == E_BITS,
    {
        Value { bits: E_BITS }
    }
}

/// How many binary digits `n` has: none for zero.
pub open spec fn bit_width(n: nat) -> nat
    decreases n,
{
    if n == 0 {
        0
    } else {
        1 + bit_width(n / 2)
    }
}

/// A number with `w` binary digits lies from `2^(w-1)` up to `2^w`.
pub proof fn lemma_bit_width_bounds(n: nat)
    ensures
        n < pow2(bit_width(n)),
        n > 0 ==> pow2((bit_width(n) - 1) as nat) <= n,
    decreases n,
{
    lemma2_to64();
    if n > 0 {
        lemma_bit_width_bounds(n / 2);
        lemma_pow2_unfold(bit_width(n));
        if n / 2 > 0 {
            lemma_pow2_unfold(bit_width(n / 2));
        }
    }
}

proof fn lemma_bit_width_u64(n: u64)
    ensures
        bit_width(n as nat) <= 64,
{
    lemma2_to64();
    lemma2_to64_rest();
    lemma_bit_width_bounds(n as nat);
    if bit_width(n as nat) > 64 {
        lemma_pow2_ordered(64, (bit_width(n as nat) - 1) as nat);
    }
}

fn width_of(n: u64) -> (w: u64)
    ensures
        w == bit_width(n as nat),
        w <= 64,
{
    proof {
        lemma_bit_width_u64(n);
    }
    let mut t: u64 = n;
    let mut w: u64 = 0;
    while t > 0
        invariant
            bit_width(n as nat) == w + bit_width(t as nat),
            bit_width(n as nat) <= 64,
        decreases t,
    {
        t = t / 2;
        w = w + 1;
    }
    w
}

impl Value {
    /// The double nearest to the whole number `n`, which is below `2^64`.
    /// Of two doubles equally near, it is the one with the even significand.
    pub open spec fn nearest(n: nat) -> Value {
        let w = bit_width(n);
        if n == 0 {
            Value { bits: 0 }
        } else if w <= 53 {
            Value {
                bits: ((1022 + w) * FRACTION_LIMIT + (n * pow2((53 - w) as nat) - FRACTION_LIMIT)) as u64,
            }
        } else {
            let cut = pow2((w - 53) as nat);
            let kept = n / cut;
            let rest = n % cut;
            let up = 2 * rest > cut || (2 * rest == cut && kept % 2 == 1);
            let m = if up {
                kept + 1
            } else {
                kept
            };
            Value { bits: ((1022 + w) * FRACTION_LIMIT + (m - FRACTION_LIMIT)) as u64 }
        }
    }

    /// The double nearest to `n`.
    pub fn from_whole(n: u64) -> (v: Value)
        ensures
            v == Value::nearest(n as nat),
    {
        if n == 0 {
            return Value { bits: 0 };
        }
        let w: u64 = width_of(n);
        proof {
            lemma2_to64();
            lemma2_to64_rest();
            lemma_bit_width_bounds(n as nat);
        }
        if w <= 53 {
            let k: u64 = 53 - w;
            proof {
                lemma_pow2_adds(w as nat, k as nat);
                lemma_pow2_adds((w - 1) as nat, k as nat);
                lemma_pow2_pos(k as nat);
                assert(n * pow2(k as nat) < pow2(53)) by (nonlinear_arith)
                    requires
                        n < pow2(w as nat),
                        pow2(w as nat) * pow2(k as nat) == pow2(53),
                        pow2(k as nat) > 0,
                ;
                assert(n * pow2(k as nat) >= pow2(52)) by (nonlinear_arith)
                    requires
                        n >= pow2((w - 1) as nat),
                        pow2((w - 1) as nat) * pow2(k as nat) == pow2(52),
                        pow2(k as nat) > 0,
                ;
                lemma_u64_shl_is_mul(n, k);
            }
            let m: u64 = n << k;
            Value { bits: (1022 + w) * FRACTION_LIMIT + (m - FRACTION_LIMIT) }
        } else {
            let k: u64 = w - 53;
            proof {
                lemma_pow2_ordered(k as nat, 11);
                lemma_pow2_pos(k as nat);
                lemma_u64_shl_is_mul(1, k);
                lemma_pow2_adds(53, k as nat);
                lemma_pow2_adds(52, k as nat);
            }
            let cut: u64 = 1u64 << k;
            let kept: u64 = n / cut;
            let rest: u64 = n % cut;
            proof {
                assert(kept < pow2(53)) by (nonlinear_arith)
                    requires
                        n < pow2(53) * cut,
                        kept == n / cut,
                        cut > 0,
                ;
                assert(kept >= pow2(52)) by (nonlinear_arith)
                    requires
                        n >= pow2(52) * cut,
                        kept == n / cut,
                        cut > 0,
                ;
            }
            let up: bool = 2 * rest > cut || (2 * rest == cut && kept % 2 == 1);
            let m: u64 = if up {
                kept + 1
            } else {
                kept
            };
            Value { bits: (1022 + w) * FRACTION_LIMIT + (m - FRACTION_LIMIT) }
        }
    }

    /// A whole number below `2^53` is a double: the nearest double is the
    /// number itself.
    pub proof fn lemma_nearest_exact(n: nat)
        requires
            n < 0x20_0000_0000_0000,
        ensures
            Value::nearest(n).whole(),
            !Value::nearest(n).negative(),
            Value::nearest(n).truncated() == n,
    {
        lemma2_to64();
        lemma2_to64_rest();
        lemma_bit_width_bounds(n);
        let w = bit_width(n);
        if n > 0 {
            if w > 53 {
                lemma_pow2_ordered(53, (w - 1) as nat);
            }
            let k = (53 - w) as nat;
            let p = pow2(k);
            lemma_pow2_adds(w, k);
            lemma_pow2_adds((w - 1) as nat, k);
            lemma_pow2_pos(k);
            assert(n * p < pow2(53)) by (nonlinear_arith)
                requires
                    n < pow2(w),
                    pow2(w) * p == pow2(53),
                    p > 0,
            ;
            assert(n * p >= pow2(52)) by (nonlinear_arith)
                requires
                    n >= pow2((w - 1) as nat),
                    pow2((w - 1) as nat) * p == pow2(52),
                    p > 0,
            ;
            let v = Value::nearest(n);
            let sig = n * p;
            let f = (sig - FRACTION_LIMIT) as nat;
            assert(v.bits == (1022 + w) * FRACTION_LIMIT + f);
            assert(v.exponent() == 1022 + w);
            assert(v.fraction() == f);
            assert(v.significand() == sig);
            assert(!v.nan());
            if w == 53 {
                assert(p == 1);
                assert(sig == n) by (nonlinear_arith)
                    requires
                        sig == n * p,
                        p == 1,
                ;
                assert(v.whole_part() == sig * pow2(0));
                assert(v.whole_part() == n) by (nonlinear_arith)
                    requires
                        v.whole_part() == sig * pow2(0),
                        pow2(0) == 1,
                        sig == n,
                ;
            } else {
                assert((EXPONENT_UNIT - v.exponent()) as nat == k);
                assert(v.whole_part() == sig / p);
                assert(v.whole() == (sig % p == 0));
                vstd::arithmetic::div_mod::lemma_div_by_multiple(n as int, p as int);
                vstd::arithmetic::div_mod::lemma_mod_multiples_basic(n as int, p as int);
                assert(sig as int == (n as int) * (p as int));
                assert(sig / p == n);
                assert(sig % p == 0);
            }
        }
    }

    /// Beyond `2^53` the doubles lie `cut` apart, where `cut` is two to the
    /// power of the number's digits over fifty-three. The nearest double is a
    /// multiple of `cut` no further from the number than half of `cut`, and
    /// where it is exactly that far, it is an even multiple.
    pub proof fn lemma_nearest_is_near(n: nat)
        requires
            0x20_0000_0000_0000 <= n < 0x1_0000_0000_0000_0000,
        ensures
            Value::nearest(n).whole(),
            !Value::nearest(n).negative(),
            ({
                let cut = pow2((bit_width(n) - 53) as nat);
                let near = Value::nearest(n).whole_part();
                &&& near % cut == 0
                &&& 2 * (near - n) <= cut
                &&& 2 * (n - near) <= cut
                &&& (2 * (near - n) == cut || 2 * (n - near) == cut) ==> (near / cut) % 2 == 0
            }),
    {
        lemma2_to64();
        lemma2_to64_rest();
        lemma_bit_width_bounds(n);
        let w = bit_width(n);
        if w <= 53 {
            lemma_pow2_ordered(w, 53);
        }
        if w > 64 {
            lemma_pow2_ordered(64, (w - 1) as nat);
        }
        let d = (w - 53) as nat;
        let cut = pow2(d);
        lemma_pow2_pos(d);
        lemma_pow2_adds(53, d);
        lemma_pow2_adds(52, d);
        let kept = n / cut;
        let rest = n % cut;
        vstd::arithmetic::div_mod::lemma_fundamental_div_mod(n as int, cut as int);
        assert(n == cut * kept + rest);
        assert(kept < pow2(53)) by (nonlinear_arith)
            requires
                n < pow2(53) * cut,
                kept == n / cut,
                cut > 0,
        ;
        assert(kept >= pow2(52)) by (nonlinear_arith)
            requires
                n >= pow2(52) * cut,
                kept == n / cut,
                cut > 0,
        ;
        let up = 2 * rest > cut || (2 * rest == cut && kept % 2 == 1);
        let m: nat = if up {
            kept + 1
        } else {
            kept
        };
        let v = Value::nearest(n);
        assert(v.bits == (1022 + w) * FRACTION_LIMIT + (m - FRACTION_LIMIT));
        let near = v.whole_part();
        if m < 0x20_0000_0000_0000 {
            assert(v.exponent() == 1022 + w);
            assert(v.fraction() == m - FRACTION_LIMIT);
            assert(v.significand() == m);
            assert(near == m * cut);
        } else {
            assert(v.bits == (1023 + w) * FRACTION_LIMIT);
            assert(v.exponent() == 1023 + w);
            assert(v.fraction() == 0);
            assert(v.significand() == FRACTION_LIMIT as nat);
            lemma_pow2_unfold(d + 1);
            assert(near == FRACTION_LIMIT * pow2(d + 1));
            assert(near == m * cut) by (nonlinear_arith)
                requires
                    near == FRACTION_LIMIT * pow2(d + 1),
                    pow2(d + 1) == 2 * cut,
                    m == 2 * FRACTION_LIMIT,
            ;
        }
        vstd::arithmetic::div_mod::lemma_mod_multiples_basic(m as int, cut as int);
        vstd::arithmetic::div_mod::lemma_div_by_multiple(m as int, cut as int);
        assert(near % cut == 0);
        assert(near / cut == m);
        if up {
            assert(near - n == cut - rest) by (nonlinear_arith)
                requires
                    near == (kept + 1) * cut,
                    n == cut * kept + rest,
            ;
        } else {
            assert(n - near == rest) by (nonlinear_arith)
                requires
                    near == kept * cut,
                    n == cut * kept + rest,
            ;
        }
    }
}

} // verus!
