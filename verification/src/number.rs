//! Single and double precision numbers, held as their IEEE 754 bit patterns.
//!
//! A [`Real`] is compared, subtracted and added by integer arithmetic on its
//! sign, exponent and fraction. Its exact value is an integer multiple of two to
//! the power −149, and [`Real::exact`] is that multiple, so every statement here
//! is a statement about integers.

use vstd::arithmetic::div_mod::lemma_fundamental_div_mod;
use vstd::arithmetic::div_mod::lemma_fundamental_div_mod_converse;
use vstd::arithmetic::power2::lemma2_to64;
use vstd::arithmetic::power2::lemma2_to64_rest;
use vstd::arithmetic::power2::lemma_pow2_adds;
use vstd::arithmetic::power2::lemma_pow2_pos;
use vstd::arithmetic::power2::lemma_pow2_strictly_increases;
use vstd::arithmetic::power2::lemma_pow2_unfold;
use vstd::prelude::*;

verus! {

/// The bit that carries the sign.
pub const SIGN: u32 = 0x8000_0000;

/// The bit pattern of a result that is not a number.
pub const NOT_A_NUMBER: u32 = 0x7FC0_0000;

/// The magnitude of an infinity; anything above it is not a number.
pub const INFINITE: u32 = 0x7F80_0000;

/// One more than the largest fraction: the weight of the implicit leading bit.
pub const LEADING: u32 = 0x80_0000;

/// A single precision number.
#[derive(Debug, Clone, Copy)]
pub struct Real {
    /// The IEEE 754 bit pattern.
    pub bits: u32,
}

/// A double precision number.
#[derive(Debug, Clone, Copy)]
pub struct Double {
    /// The IEEE 754 bit pattern.
    pub bits: u64,
}

// ---------------------------------------------------------------------------
// What a bit pattern stands for
// ---------------------------------------------------------------------------

/// How many binary digits `n` has.
pub open spec fn bit_length(n: nat) -> nat
    decreases n,
{
    if n == 0 {
        0
    } else {
        1 + bit_length(n / 2)
    }
}

/// The exact value of a finite magnitude, in units of two to the power −149.
pub open spec fn exact_magnitude(magnitude: nat) -> nat {
    if magnitude < LEADING {
        magnitude
    } else {
        (LEADING as nat + magnitude % (LEADING as nat)) * vstd::arithmetic::power2::pow2(
            (magnitude / (LEADING as nat) - 1) as nat,
        )
    }
}

/// `quotient`, rounded to the nearest given that `remainder` out of `unit` is
/// left over; a tie goes to the even neighbour.
pub open spec fn nearest_even(quotient: nat, remainder: nat, unit: nat) -> nat {
    if 2 * remainder > unit || (2 * remainder == unit && quotient % 2 == 1) {
        quotient + 1
    } else {
        quotient
    }
}

/// The magnitude nearest to `n` units of two to the power −149. Twenty-four
/// binary digits are kept; what is too large to be finite is infinite.
pub open spec fn rounded_magnitude(n: nat) -> nat {
    if n < 2 * LEADING {
        n
    } else {
        let dropped = (bit_length(n) - 24) as nat;
        let unit = vstd::arithmetic::power2::pow2(dropped);
        let kept = nearest_even(n / unit, n % unit, unit);
        let magnitude = dropped * (LEADING as nat) + kept;
        if magnitude < INFINITE {
            magnitude
        } else {
            INFINITE as nat
        }
    }
}

/// The number nearest to `value` units of two to the power −149. A zero is
/// positive.
pub open spec fn rounded(value: int) -> Real {
    if value < 0 {
        Real { bits: (SIGN + rounded_magnitude((-value) as nat)) as u32 }
    } else {
        Real { bits: rounded_magnitude(value as nat) as u32 }
    }
}

impl Real {
    /// The bit pattern without its sign.
    pub open spec fn magnitude(self) -> nat {
        (self.bits % SIGN) as nat
    }

    pub open spec fn is_negative(self) -> bool {
        self.bits >= SIGN
    }

    pub open spec fn is_nan(self) -> bool {
        self.magnitude() > INFINITE
    }

    pub open spec fn is_infinite(self) -> bool {
        self.magnitude() == INFINITE
    }

    pub open spec fn is_finite(self) -> bool {
        self.magnitude() < INFINITE
    }

    /// The exact value of a finite number, in units of two to the power −149.
    pub open spec fn exact(self) -> int {
        if self.is_negative() {
            -(exact_magnitude(self.magnitude()) as int)
        } else {
            exact_magnitude(self.magnitude()) as int
        }
    }

    /// A key that orders all numbers, infinities included, as their values are
    /// ordered. The two zeros share one key.
    pub open spec fn order_key(self) -> int {
        if self.is_negative() {
            -(self.magnitude() as int)
        } else {
            self.magnitude() as int
        }
    }

    /// Whether `self` is a smaller number than `other`.
    pub open spec fn below(self, other: Real) -> bool {
        !self.is_nan() && !other.is_nan() && self.order_key() < other.order_key()
    }

    /// Whether `self` and `other` are the same number.
    pub open spec fn same_number(self, other: Real) -> bool {
        !self.is_nan() && !other.is_nan() && self.order_key() == other.order_key()
    }

    /// Whether `self` is a number that is not negative.
    pub open spec fn is_distance(self) -> bool {
        !self.is_nan() && self.order_key() >= 0
    }

    /// The same number with the other sign.
    pub open spec fn opposite(self) -> Real {
        Real { bits: if self.bits >= SIGN { (self.bits - SIGN) as u32 } else { (self.bits + SIGN) as u32 } }
    }

    /// What `self - other` gives: not a number where either is not or where two
    /// like infinities meet, infinite where either is, and otherwise the number
    /// nearest to the exact difference. A difference of zero is negative only where
    /// the positive zero is taken from the negative one.
    pub open spec fn difference(self, other: Real) -> Real {
        if self.is_nan() || other.is_nan() || (self.is_infinite() && self == other) {
            Real { bits: NOT_A_NUMBER }
        } else if self.is_infinite() {
            self
        } else if other.is_infinite() {
            other.opposite()
        } else if self.bits == SIGN && other.bits == 0 {
            self
        } else {
            rounded(self.exact() - other.exact())
        }
    }

    /// What `self + other` gives.
    pub open spec fn sum(self, other: Real) -> Real {
        self.difference(other.opposite())
    }
}

// ---------------------------------------------------------------------------
// Rounding
// ---------------------------------------------------------------------------

/// `n` has exactly `length` binary digits when it lies between the powers of two
/// on either side.
pub proof fn lemma_bit_length(n: nat, length: nat)
    requires
        length > 0,
        vstd::arithmetic::power2::pow2((length - 1) as nat) <= n,
        n < vstd::arithmetic::power2::pow2(length),
    ensures
        bit_length(n) == length,
    decreases length,
{
    lemma2_to64();
    if length == 1 {
        assert(n == 1);
        reveal_with_fuel(bit_length, 2);
    } else {
        lemma_pow2_unfold(length);
        lemma_pow2_unfold((length - 1) as nat);
        lemma_pow2_pos((length - 1) as nat);
        lemma_bit_length(n / 2, (length - 1) as nat);
    }
}

/// Rounding in terms of a quotient of twenty-four digits.
proof fn lemma_rounded_parts(n: nat, dropped: nat, quotient: nat, remainder: nat)
    requires
        LEADING <= quotient < 2 * LEADING,
        n == quotient * vstd::arithmetic::power2::pow2(dropped) + remainder,
        remainder < vstd::arithmetic::power2::pow2(dropped),
    ensures
        dropped > 0 ==> rounded_magnitude(n) == ({
            let magnitude = dropped * (LEADING as nat) + nearest_even(
                quotient,
                remainder,
                vstd::arithmetic::power2::pow2(dropped),
            );
            if magnitude < INFINITE {
                magnitude
            } else {
                INFINITE as nat
            }
        }),
        dropped == 0 ==> rounded_magnitude(n) == quotient,
{
    let unit = vstd::arithmetic::power2::pow2(dropped);
    lemma2_to64();
    lemma_pow2_pos(dropped);
    if dropped == 0 {
        assert(quotient * 1 == quotient);
    } else {
        lemma_pow2_adds(23, dropped);
        lemma_pow2_adds(24, dropped);
        assert(vstd::arithmetic::power2::pow2(23) == LEADING);
        assert(n >= LEADING * unit && n < 2 * LEADING * unit) by (nonlinear_arith)
            requires
                LEADING <= quotient,
                quotient + 1 <= 2 * LEADING,
                n == quotient * unit + remainder,
                remainder < unit,
        ;
        lemma_bit_length(n, dropped + 24);
        lemma_pow2_strictly_increases(0, dropped);
        assert(n >= 2 * LEADING) by (nonlinear_arith)
            requires
                n >= LEADING * unit,
                unit >= 2,
        ;
        lemma_fundamental_div_mod_converse(
            n as int,
            unit as int,
            quotient as int,
            remainder as int,
        );
    }
}

/// A number of at least two to the power `power` has more digits than that.
proof fn lemma_bit_length_at_least(n: nat, power: nat)
    requires
        vstd::arithmetic::power2::pow2(power) <= n,
    ensures
        bit_length(n) > power,
    decreases power,
{
    lemma2_to64();
    if power > 0 {
        lemma_pow2_unfold(power);
        lemma_pow2_pos(power);
        lemma_bit_length_at_least(n / 2, (power - 1) as nat);
    }
}

/// Only zero rounds to zero, and no magnitude rounds past infinity.
pub proof fn lemma_rounded_magnitude_bounds(n: nat)
    ensures
        rounded_magnitude(n) == 0 <==> n == 0,
        rounded_magnitude(n) <= INFINITE,
{
    if n >= 2 * LEADING {
        lemma2_to64();
        lemma_bit_length_at_least(n, 24);
        let dropped = (bit_length(n) - 24) as nat;
        let unit = vstd::arithmetic::power2::pow2(dropped);
        assert(dropped * (LEADING as nat) >= LEADING) by (nonlinear_arith)
            requires
                dropped >= 1,
        ;
        lemma_pow2_pos(dropped);
        let kept = nearest_even(n / unit, n % unit, unit);
        assert(kept >= 0);
        assert(dropped * (LEADING as nat) + kept > 0);
    }
}

/// Rounding leaves every finite magnitude as it is.
pub proof fn law_rounding_keeps_representable(magnitude: nat)
    requires
        magnitude < INFINITE,
    ensures
        rounded_magnitude(exact_magnitude(magnitude)) == magnitude,
{
    if magnitude >= LEADING {
        let quotient = LEADING as nat + magnitude % (LEADING as nat);
        let dropped = (magnitude / (LEADING as nat) - 1) as nat;
        lemma_pow2_pos(dropped);
        lemma_rounded_parts(exact_magnitude(magnitude), dropped, quotient, 0);
        assert(magnitude == (magnitude / (LEADING as nat)) * (LEADING as nat) + magnitude % (
        LEADING as nat));
    }
}

/// A positive number lies between the powers of two on either side.
proof fn lemma_digits(n: nat)
    requires
        n > 0,
    ensures
        bit_length(n) > 0,
        vstd::arithmetic::power2::pow2((bit_length(n) - 1) as nat) <= n,
        n < vstd::arithmetic::power2::pow2(bit_length(n)),
    decreases n,
{
    lemma2_to64();
    if n == 1 {
        reveal_with_fuel(bit_length, 2);
    } else {
        lemma_digits(n / 2);
        lemma_pow2_unfold(bit_length(n));
        lemma_pow2_unfold((bit_length(n) - 1) as nat);
    }
}

/// What is kept of a number that is rounded has twenty-four digits before rounding.
proof fn lemma_kept_digits(n: nat)
    requires
        n >= 2 * LEADING,
    ensures
        bit_length(n) > 24,
        vstd::arithmetic::power2::pow2((bit_length(n) - 24) as nat) > 0,
        LEADING <= n / vstd::arithmetic::power2::pow2((bit_length(n) - 24) as nat) < 2 * LEADING,
{
    lemma2_to64();
    lemma_bit_length_at_least(n, 24);
    lemma_digits(n);
    let dropped = (bit_length(n) - 24) as nat;
    let unit = vstd::arithmetic::power2::pow2(dropped);
    lemma_pow2_pos(dropped);
    lemma_pow2_adds(23, dropped);
    lemma_pow2_adds(24, dropped);
    lemma_fundamental_div_mod(n as int, unit as int);
    let quotient = n / unit;
    let remainder = n % unit;
    assert(LEADING <= quotient < 2 * LEADING) by (nonlinear_arith)
        requires
            LEADING * unit <= n,
            n < 2 * LEADING * unit,
            n == unit * quotient + remainder,
            0 <= remainder < unit,
    ;
}

/// A larger number has as many digits or more.
proof fn lemma_bit_length_grows(m: nat, n: nat)
    requires
        m <= n,
    ensures
        bit_length(m) <= bit_length(n),
    decreases n,
{
    if m > 0 {
        lemma_bit_length_grows(m / 2, n / 2);
    }
}

/// Rounding keeps the order of magnitudes.
pub proof fn law_rounding_keeps_order(m: nat, n: nat)
    requires
        m <= n,
    ensures
        rounded_magnitude(m) <= rounded_magnitude(n),
{
    if n >= 2 * LEADING {
        lemma_kept_digits(n);
        let dropped = (bit_length(n) - 24) as nat;
        let unit = vstd::arithmetic::power2::pow2(dropped);
        let kept = nearest_even(n / unit, n % unit, unit);
        assert(dropped * (LEADING as nat) >= LEADING) by (nonlinear_arith)
            requires
                dropped >= 1,
        ;
        if m >= 2 * LEADING {
            lemma_kept_digits(m);
            lemma_bit_length_grows(m, n);
            let less = (bit_length(m) - 24) as nat;
            let smaller = vstd::arithmetic::power2::pow2(less);
            let other = nearest_even(m / smaller, m % smaller, smaller);
            if less == dropped {
                lemma_fundamental_div_mod(n as int, unit as int);
                lemma_fundamental_div_mod(m as int, unit as int);
                let (p, q) = (m / unit, n / unit);
                let (r, s) = (m % unit, n % unit);
                assert(p < q || (p == q && r <= s)) by (nonlinear_arith)
                    requires
                        m <= n,
                        m == unit * p + r,
                        n == unit * q + s,
                        0 <= r < unit,
                        0 <= s < unit,
                ;
                assert(other <= kept);
            } else {
                assert(less * (LEADING as nat) + LEADING <= dropped * (LEADING as nat))
                    by (nonlinear_arith)
                    requires
                        less + 1 <= dropped,
                ;
                assert(other <= 2 * LEADING);
                assert(kept >= LEADING);
            }
        }
    }
}

/// Rounding keeps the order of numbers, whatever their signs.
proof fn lemma_rounded_order(a: int, b: int)
    requires
        a <= b,
    ensures
        rounded(a).order_key() <= rounded(b).order_key(),
        !rounded(a).is_nan(),
{
    lemma_rounded_key(a);
    lemma_rounded_key(b);
    if a >= 0 {
        law_rounding_keeps_order(a as nat, b as nat);
    } else if b < 0 {
        law_rounding_keeps_order((-b) as nat, (-a) as nat);
    }
}

/// The key of a rounded number is its rounded magnitude under its sign.
proof fn lemma_rounded_key(a: int)
    ensures
        rounded(a).order_key() == if a < 0 {
            -(rounded_magnitude((-a) as nat) as int)
        } else {
            rounded_magnitude(a as nat) as int
        },
        !rounded(a).is_nan(),
{
    if a < 0 {
        lemma_rounded_magnitude_bounds((-a) as nat);
    } else {
        lemma_rounded_magnitude_bounds(a as nat);
    }
}

/// A finite number is the one nearest to its exact value.
proof fn lemma_rounded_exact(a: Real)
    requires
        a.is_finite(),
    ensures
        rounded(a.exact()).order_key() == a.order_key(),
{
    lemma_rounded_key(a.exact());
    law_rounding_keeps_representable(a.magnitude());
    lemma_exact_sign(a.magnitude());
}

/// Only zero has the exact value zero.
proof fn lemma_exact_sign(magnitude: nat)
    ensures
        exact_magnitude(magnitude) == 0 <==> magnitude == 0,
{
    if magnitude >= LEADING {
        let power = (magnitude / (LEADING as nat) - 1) as nat;
        lemma_pow2_pos(power);
        assert((LEADING as nat + magnitude % (LEADING as nat))
            * vstd::arithmetic::power2::pow2(power) > 0) by (nonlinear_arith)
            requires
                vstd::arithmetic::power2::pow2(power) > 0,
                LEADING > 0,
        ;
    }
}

/// Taking away a number that is not negative never gives more, and putting it on never
/// gives less: what was above stays above, and what was below stays below.
pub proof fn law_distance_only_moves_one_way(a: Real, distance: Real, b: Real)
    requires
        distance.is_distance(),
    ensures
        a.below(b) ==> a.difference(distance).below(b),
        b.below(a) ==> b.below(a.sum(distance)),
{
    if a.is_finite() && distance.is_finite() {
        lemma_exact_sign(distance.magnitude());
        lemma_exact_sign(distance.opposite().magnitude());
        lemma_rounded_exact(a);
        lemma_rounded_order(a.exact() - distance.exact(), a.exact());
        lemma_rounded_order(a.exact(), a.exact() - distance.opposite().exact());
        lemma_rounded_key(a.exact() - distance.opposite().exact());
    }
}

/// A difference is on the side of every number that the exact difference is on, or on
/// it: what is exactly that far apart, or farther, never measures as less.
pub proof fn law_differences_keep_their_side(a: Real, b: Real, c: Real)
    requires
        a.is_finite(),
        b.is_finite(),
        c.is_finite(),
    ensures
        !a.difference(b).is_nan(),
        a.exact() - b.exact() >= c.exact() ==> !a.difference(b).below(c),
        a.exact() - b.exact() <= c.exact() ==> !c.below(a.difference(b)),
        a.exact() - b.exact() == c.exact() ==> a.difference(b).same_number(c),
{
    lemma_rounded_exact(c);
    lemma_rounded_key(a.exact() - b.exact());
    lemma_exact_sign(a.magnitude());
    lemma_exact_sign(b.magnitude());
    lemma_exact_sign(c.magnitude());
    if a.exact() - b.exact() >= c.exact() {
        lemma_rounded_order(c.exact(), a.exact() - b.exact());
    }
    if a.exact() - b.exact() <= c.exact() {
        lemma_rounded_order(a.exact() - b.exact(), c.exact());
    }
    if a.bits == SIGN && b.bits == 0 {
        lemma_rounded_key(0);
        assert(a.magnitude() == 0 && b.magnitude() == 0);
    }
}

/// A sum is on the side of every number that the exact sum is on, or on it.
pub proof fn law_sums_keep_their_side(a: Real, b: Real, c: Real)
    requires
        a.is_finite(),
        b.is_finite(),
        c.is_finite(),
    ensures
        !a.sum(b).is_nan(),
        a.exact() + b.exact() >= c.exact() ==> !a.sum(b).below(c),
        a.exact() + b.exact() <= c.exact() ==> !c.below(a.sum(b)),
        a.exact() + b.exact() == c.exact() ==> a.sum(b).same_number(c),
{
    assert(b.opposite().magnitude() == b.magnitude());
    assert(b.opposite().exact() == -b.exact());
    law_differences_keep_their_side(a, b.opposite(), c);
}

/// The size of a number is the number or its opposite, whichever is not negative.
pub proof fn law_sizes_have_no_sign(a: Real)
    requires
        !a.is_nan(),
    ensures
        !a.size().is_nan(),
        a.order_key() >= 0 ==> a.size().order_key() == a.order_key(),
        a.order_key() <= 0 ==> a.size().order_key() == -a.order_key(),
        a.is_finite() ==> a.size().is_finite() && a.size().exact() == if a.exact() < 0 {
            -a.exact()
        } else {
            a.exact()
        },
{
    lemma_exact_sign(a.magnitude());
}

/// Two numbers that are exactly so far apart, or farther, measure as that far apart or
/// farther, whichever is the larger.
pub proof fn law_distances_are_measured_either_way(a: Real, b: Real, c: Real)
    requires
        a.is_finite(),
        b.is_finite(),
        c.is_finite(),
        a.exact() - b.exact() >= c.exact() || b.exact() - a.exact() >= c.exact(),
    ensures
        !a.difference(b).size().is_nan(),
        !a.difference(b).size().below(c),
{
    let difference = a.difference(b);
    law_differences_keep_their_side(a, b, c);
    law_sizes_have_no_sign(difference);
    if b.exact() - a.exact() >= c.exact() {
        lemma_opposite(c);
        law_differences_keep_their_side(a, b, c.opposite());
    }
}

proof fn lemma_opposite(c: Real)
    requires
        c.is_finite(),
    ensures
        c.opposite().is_finite(),
        c.opposite().exact() == -c.exact(),
        c.opposite().order_key() == -c.order_key(),
{
}

/// The significand and the power of two of a finite magnitude.
fn parts(magnitude: u32) -> (result: (u64, u64))
    requires
        magnitude < INFINITE,
    ensures
        result.0 < 2 * LEADING,
        result.1 <= 253,
        exact_magnitude(magnitude as nat) == result.0 * vstd::arithmetic::power2::pow2(
            result.1 as nat,
        ),
        result.1 > 0 ==> result.0 >= LEADING && magnitude == result.1 * LEADING + result.0,
        result.1 == 0 ==> magnitude == result.0,
{
    proof {
        lemma2_to64();
    }
    if magnitude < LEADING {
        assert(magnitude as nat * 1 == magnitude as nat);
        (magnitude as u64, 0)
    } else {
        let exponent: u64 = (magnitude / LEADING) as u64 - 1;
        ((LEADING + magnitude % LEADING) as u64, exponent)
    }
}

/// Two to the power `exponent`.
fn power_of_two(exponent: u64) -> (power: u64)
    requires
        exponent <= 60,
    ensures
        power == vstd::arithmetic::power2::pow2(exponent as nat),
{
    let mut power: u64 = 1;
    let mut i: u64 = 0;
    proof {
        lemma2_to64();
    }
    while i < exponent
        invariant
            i <= exponent <= 60,
            power == vstd::arithmetic::power2::pow2(i as nat),
        decreases exponent - i,
    {
        proof {
            lemma2_to64_rest();
            lemma_pow2_unfold((i + 1) as nat);
            if i < 60 {
                lemma_pow2_strictly_increases(i as nat, 60);
            }
        }
        power = power * 2;
        i = i + 1;
    }
    power
}

/// How many binary digits `n` has.
fn count_digits(n: u64) -> (length: u64)
    requires
        0 < n,
        n < 0x1000_0000_0000_0000,
    ensures
        0 < length <= 60,
        length == bit_length(n as nat),
        vstd::arithmetic::power2::pow2((length - 1) as nat) <= n,
        n < vstd::arithmetic::power2::pow2(length as nat),
{
    let mut length: u64 = 1;
    let mut power: u64 = 2;
    proof {
        lemma2_to64();
        lemma2_to64_rest();
    }
    while power <= n
        invariant
            0 < n < 0x1000_0000_0000_0000,
            0 < length <= 60,
            power == vstd::arithmetic::power2::pow2(length as nat),
            vstd::arithmetic::power2::pow2((length - 1) as nat) <= n,
            vstd::arithmetic::power2::pow2(60) == 0x1000_0000_0000_0000,
        decreases 61 - length,
    {
        proof {
            lemma_pow2_unfold((length + 1) as nat);
            if length >= 60 {
                assert(false);
            }
        }
        power = power * 2;
        length = length + 1;
    }
    proof {
        lemma_bit_length(n as nat, length as nat);
    }
    length
}

/// The magnitude nearest to `significand` times two to the power `exponent`.
fn round_magnitude(significand: u64, exponent: u64) -> (magnitude: u32)
    requires
        significand < 0x40_0000_0000_0000,
        exponent <= 253,
    ensures
        magnitude == rounded_magnitude(
            significand as nat * vstd::arithmetic::power2::pow2(exponent as nat),
        ),
        magnitude <= INFINITE,
{
    let ghost n = significand as nat * vstd::arithmetic::power2::pow2(exponent as nat);
    proof {
        lemma2_to64();
        lemma2_to64_rest();
        lemma_pow2_pos(exponent as nat);
    }
    if significand == 0 {
        assert(n == 0) by (nonlinear_arith)
            requires
                n == significand as nat * vstd::arithmetic::power2::pow2(exponent as nat),
                significand == 0,
        ;
        return 0;
    }
    let length: u64 = count_digits(significand);
    if length + exponent <= 24 {
        let scale: u64 = power_of_two(exponent);
        proof {
            lemma_pow2_adds(length as nat, exponent as nat);
            if length + exponent < 24 {
                lemma_pow2_strictly_increases((length + exponent) as nat, 24);
            }
            let high = vstd::arithmetic::power2::pow2(length as nat);
            assert(n < high * scale) by (nonlinear_arith)
                requires
                    n == significand as nat * scale,
                    significand < high,
                    scale > 0,
            ;
        }
        assert(significand * scale < 0x100_0000);
        (significand * scale) as u32
    } else if length <= 24 {
        let lift: u64 = 24 - length;
        let scale: u64 = power_of_two(lift);
        let dropped: u64 = exponent - lift;
        let ghost unit = vstd::arithmetic::power2::pow2(dropped as nat);
        proof {
            let low = vstd::arithmetic::power2::pow2((length - 1) as nat);
            let high = vstd::arithmetic::power2::pow2(length as nat);
            lemma_pow2_adds((length - 1) as nat, lift as nat);
            lemma_pow2_adds(length as nat, lift as nat);
            lemma_pow2_adds(lift as nat, dropped as nat);
            assert(LEADING <= significand * scale < 2 * LEADING) by (nonlinear_arith)
                requires
                    low <= significand,
                    significand < high,
                    low * scale == LEADING,
                    high * scale == 2 * LEADING,
                    scale > 0,
            ;
            assert(n == (significand * scale) * unit) by (nonlinear_arith)
                requires
                    n == significand as nat * (scale * unit),
            ;
            lemma_pow2_pos(dropped as nat);
            lemma_rounded_parts(n, dropped as nat, (significand * scale) as nat, 0);
        }
        let kept: u64 = significand * scale;
        let magnitude: u64 = dropped * LEADING as u64 + kept;
        if magnitude < INFINITE as u64 {
            magnitude as u32
        } else {
            INFINITE
        }
    } else {
        let spare: u64 = length - 24;
        let unit: u64 = power_of_two(spare);
        let quotient: u64 = significand / unit;
        let remainder: u64 = significand % unit;
        let ghost scale = vstd::arithmetic::power2::pow2(exponent as nat);
        let dropped: u64 = spare + exponent;
        proof {
            lemma_pow2_pos(spare as nat);
            lemma_pow2_adds(23, spare as nat);
            lemma_pow2_adds(24, spare as nat);
            lemma_pow2_adds(spare as nat, exponent as nat);
            lemma_fundamental_div_mod(significand as int, unit as int);
            assert(LEADING <= quotient < 2 * LEADING) by (nonlinear_arith)
                requires
                    significand == unit * quotient + remainder,
                    0 <= remainder < unit,
                    LEADING * unit <= significand,
                    significand < 2 * LEADING * unit,
            ;
            assert(n == quotient * (unit * scale) + remainder * scale) by (nonlinear_arith)
                requires
                    n == significand as nat * scale,
                    significand == unit * quotient + remainder,
            ;
            assert(remainder * scale < unit * scale) by (nonlinear_arith)
                requires
                    remainder < unit,
                    scale > 0,
            ;
            lemma_rounded_parts(
                n,
                dropped as nat,
                quotient as nat,
                (remainder * scale) as nat,
            );
            assert(2 * (remainder * scale) > unit * scale <==> 2 * remainder > unit)
                by (nonlinear_arith)
                requires
                    scale > 0,
            ;
            assert(2 * (remainder * scale) == unit * scale <==> 2 * remainder == unit)
                by (nonlinear_arith)
                requires
                    scale > 0,
            ;
        }
        let kept: u64 = if 2 * remainder > unit || (2 * remainder == unit && quotient % 2 == 1) {
            quotient + 1
        } else {
            quotient
        };
        let magnitude: u64 = dropped * LEADING as u64 + kept;
        if magnitude < INFINITE as u64 {
            magnitude as u32
        } else {
            INFINITE
        }
    }
}

/// A magnitude that is at least twenty-seven powers of two above another stays
/// what it is when the other is added to it or taken from it.
proof fn lemma_far_smaller(high: nat, high_power: nat, low: nat, low_power: nat)
    requires
        LEADING <= high < 2 * LEADING,
        low < 2 * LEADING,
        high_power >= low_power + 27,
        high_power * LEADING + high < INFINITE,
    ensures
        ({
            let large = high * vstd::arithmetic::power2::pow2(high_power);
            let small = low * vstd::arithmetic::power2::pow2(low_power);
            &&& small < large
            &&& rounded_magnitude(large + small) == high_power * LEADING + high
            &&& rounded_magnitude((large - small) as nat) == high_power * LEADING + high
        }),
{
    let unit = vstd::arithmetic::power2::pow2(high_power);
    let half = vstd::arithmetic::power2::pow2((high_power - 1) as nat);
    let quarter = vstd::arithmetic::power2::pow2((high_power - 2) as nat);
    let least = vstd::arithmetic::power2::pow2(low_power);
    let large = high * unit;
    let small = low * least;
    lemma2_to64();
    lemma_pow2_pos(low_power);
    lemma_pow2_unfold(high_power);
    lemma_pow2_unfold((high_power - 1) as nat);
    lemma_pow2_adds(24, low_power);
    lemma_pow2_strictly_increases(24 + low_power, (high_power - 2) as nat);
    assert(small < quarter) by (nonlinear_arith)
        requires
            small == low * least,
            low < 2 * LEADING,
            2 * LEADING * least < quarter,
            least > 0,
    ;
    assert(unit <= large) by (nonlinear_arith)
        requires
            large == high * unit,
            high >= 1,
            unit > 0,
    ;
    lemma_rounded_parts(large + small, high_power, high, small);
    if small == 0 {
    } else if high > LEADING {
        assert(large - small == (high - 1) * unit + (unit - small)) by (nonlinear_arith)
            requires
                large == high * unit,
        ;
        lemma_rounded_parts(
            (large - small) as nat,
            high_power,
            (high - 1) as nat,
            (unit - small) as nat,
        );
    } else {
        assert(large - small == (2 * LEADING - 1) * half + (half - small)) by (nonlinear_arith)
            requires
                large == high * unit,
                high == LEADING,
                unit == 2 * half,
        ;
        lemma_rounded_parts(
            (large - small) as nat,
            (high_power - 1) as nat,
            (2 * LEADING - 1) as nat,
            (half - small) as nat,
        );
        assert((high_power - 1) * LEADING + 2 * LEADING == high_power * LEADING + LEADING)
            by (nonlinear_arith);
    }
}

/// The finite magnitude nearest to the sum or the difference of two, whose power
/// of two is at least that of the second.
fn combine(
    high: u64,
    high_power: u64,
    low: u64,
    low_power: u64,
    subtract: bool,
) -> (result: (u32, bool))
    requires
        high < 2 * LEADING,
        low < 2 * LEADING,
        low_power <= high_power <= 253,
        high_power > 0 ==> high >= LEADING,
    ensures
        result.0 <= INFINITE,
        ({
            let large = high * vstd::arithmetic::power2::pow2(high_power as nat);
            let small = low * vstd::arithmetic::power2::pow2(low_power as nat);
            if subtract {
                &&& result.1 == (large < small)
                &&& result.0 == rounded_magnitude(
                    (if large < small { small - large } else { large - small }) as nat,
                )
            } else {
                &&& !result.1
                &&& result.0 == rounded_magnitude((large + small) as nat)
            }
        }),
{
    let gap: u64 = high_power - low_power;
    let ghost least = vstd::arithmetic::power2::pow2(low_power as nat);
    let ghost large = high * vstd::arithmetic::power2::pow2(high_power as nat);
    let ghost small = low * least;
    if gap >= 27 {
        proof {
            assert(high_power * LEADING + high < INFINITE);
            lemma_far_smaller(high as nat, high_power as nat, low as nat, low_power as nat);
        }
        return ((high_power * LEADING as u64 + high) as u32, false);
    }
    let scale: u64 = power_of_two(gap);
    proof {
        lemma2_to64();
        if gap < 27 {
            lemma_pow2_strictly_increases(gap as nat, 27);
        }
        lemma_pow2_adds(gap as nat, low_power as nat);
        lemma_pow2_pos(low_power as nat);
        assert(high * scale < 0x8_0000_0000_0000) by (nonlinear_arith)
            requires
                high < 2 * LEADING,
                scale <= 0x800_0000,
        ;
        assert(large == (high * scale) * least) by (nonlinear_arith)
            requires
                large == high * (scale * least),
        ;
    }
    let lifted: u64 = high * scale;
    if subtract {
        if lifted < low {
            proof {
                assert(large < small) by (nonlinear_arith)
                    requires
                        large == lifted * least,
                        small == low * least,
                        lifted < low,
                        least > 0,
                ;
                assert(small - large == (low - lifted) * least) by (nonlinear_arith)
                    requires
                        large == lifted * least,
                        small == low * least,
                ;
            }
            (round_magnitude(low - lifted, low_power), true)
        } else {
            proof {
                assert(large >= small) by (nonlinear_arith)
                    requires
                        large == lifted * least,
                        small == low * least,
                        lifted >= low,
                        least > 0,
                ;
                assert(large - small == (lifted - low) * least) by (nonlinear_arith)
                    requires
                        large == lifted * least,
                        small == low * least,
                ;
            }
            (round_magnitude(lifted - low, low_power), false)
        }
    } else {
        proof {
            assert(large + small == (lifted + low) * least) by (nonlinear_arith)
                requires
                    large == lifted * least,
                    small == low * least,
            ;
        }
        (round_magnitude(lifted + low, low_power), false)
    }
}

impl Real {
    /// The number with the given bit pattern.
    pub fn from_bits(bits: u32) -> (value: Real)
        ensures
            value.bits == bits,
    {
        Real { bits }
    }

    /// The bit pattern of this number.
    pub fn to_bits(self) -> (bits: u32)
        ensures
            bits == self.bits,
    {
        self.bits
    }

    /// Zero.
    pub fn zero() -> (value: Real)
        ensures
            value.bits == 0,
    {
        Real { bits: 0 }
    }

    /// Whether `self` is a smaller number than `other`.
    pub fn is_below(self, other: Real) -> (below: bool)
        ensures
            below == self.below(other),
    {
        let mine: u32 = self.bits % SIGN;
        let theirs: u32 = other.bits % SIGN;
        if mine > INFINITE || theirs > INFINITE {
            false
        } else if self.bits >= SIGN {
            if other.bits >= SIGN {
                mine > theirs
            } else {
                mine > 0 || theirs > 0
            }
        } else if other.bits >= SIGN {
            false
        } else {
            mine < theirs
        }
    }

    /// Whether `self` and `other` are the same number.
    pub fn equals(self, other: Real) -> (same: bool)
        ensures
            same == self.same_number(other),
    {
        let mine: u32 = self.bits % SIGN;
        let theirs: u32 = other.bits % SIGN;
        if mine > INFINITE || theirs > INFINITE {
            false
        } else if mine == 0 && theirs == 0 {
            true
        } else {
            self.bits == other.bits
        }
    }

    /// Whether `self` is at least `other`.
    pub fn is_at_least(self, other: Real) -> (at_least: bool)
        ensures
            at_least == (other.below(self) || self.same_number(other)),
    {
        other.is_below(self) || self.equals(other)
    }

    /// This number without its sign.
    pub fn absolute(self) -> (value: Real)
        ensures
            value.bits == self.magnitude(),
    {
        Real { bits: self.bits % SIGN }
    }

    /// This number with the other sign.
    pub fn negated(self) -> (value: Real)
        ensures
            value == self.opposite(),
    {
        if self.bits >= SIGN {
            Real { bits: self.bits - SIGN }
        } else {
            Real { bits: self.bits + SIGN }
        }
    }

    /// What is left of `self` when `other` is taken from it.
    pub fn minus(self, other: Real) -> (difference: Real)
        ensures
            difference == self.difference(other),
    {
        let mine: u32 = self.bits % SIGN;
        let theirs: u32 = other.bits % SIGN;
        if mine > INFINITE || theirs > INFINITE {
            return Real { bits: NOT_A_NUMBER };
        }
        if mine == INFINITE {
            if self.bits == other.bits {
                return Real { bits: NOT_A_NUMBER };
            }
            return self;
        }
        if theirs == INFINITE {
            return other.negated();
        }
        if self.bits == SIGN && other.bits == 0 {
            return self;
        }
        let (first, first_power) = parts(mine);
        let (second, second_power) = parts(theirs);
        let subtract = (self.bits >= SIGN) == (other.bits >= SIGN);
        let swap = first_power < second_power;
        let (magnitude, below) = if swap {
            combine(second, second_power, first, first_power, subtract)
        } else {
            combine(first, first_power, second, second_power, subtract)
        };
        // The difference of the magnitudes came out below zero when the smaller
        // was taken to be the larger; swapping them turns the sign once more.
        let flipped = if subtract { below != swap } else { false };
        let negative = (self.bits >= SIGN) != flipped;
        proof {
            let a = exact_magnitude(mine as nat) as int;
            let b = exact_magnitude(theirs as nat) as int;
            let value = self.exact() - other.exact();
            let size = if value < 0 {
                -value
            } else {
                value
            };
            lemma_rounded_magnitude_bounds(size as nat);
            assert(self.magnitude() == mine && other.magnitude() == theirs);
            if subtract {
                assert(size == if a < b {
                    b - a
                } else {
                    a - b
                });
            } else {
                assert(size == a + b);
            }
            assert(magnitude == rounded_magnitude(size as nat));
        }
        if negative && magnitude > 0 {
            Real { bits: SIGN + magnitude }
        } else {
            Real { bits: magnitude }
        }
    }

    /// The sum of `self` and `other`.
    pub fn plus(self, other: Real) -> (sum: Real)
        ensures
            sum == self.sum(other),
    {
        self.minus(other.negated())
    }
}

impl vstd::std_specs::cmp::PartialEqSpecImpl for Real {
    open spec fn obeys_eq_spec() -> bool {
        true
    }

    open spec fn eq_spec(&self, other: &Real) -> bool {
        self.same_number(*other)
    }
}

impl PartialEq for Real {
    fn eq(&self, other: &Real) -> (same: bool) {
        (*self).equals(*other)
    }
}

/// The bit of a double that carries the sign.
pub const DOUBLE_SIGN: u64 = 0x8000_0000_0000_0000;

/// The magnitude of an infinite double; anything above it is not a number.
pub const DOUBLE_INFINITE: u64 = 0x7FF0_0000_0000_0000;

impl Double {
    /// The bit pattern without its sign.
    pub open spec fn magnitude(self) -> nat {
        (self.bits % DOUBLE_SIGN) as nat
    }

    pub open spec fn is_nan(self) -> bool {
        self.magnitude() > DOUBLE_INFINITE
    }

    /// Whether `self` and `other` are the same number. The two zeros are.
    pub open spec fn same_number(self, other: Double) -> bool {
        &&& !self.is_nan()
        &&& !other.is_nan()
        &&& self.bits == other.bits || (self.magnitude() == 0 && other.magnitude() == 0)
    }

    /// The number with the given bit pattern.
    pub fn from_bits(bits: u64) -> (value: Double)
        ensures
            value.bits == bits,
    {
        Double { bits }
    }

    /// The bit pattern of this number.
    pub fn to_bits(self) -> (bits: u64)
        ensures
            bits == self.bits,
    {
        self.bits
    }

    /// Whether `self` and `other` are the same number.
    pub fn equals(self, other: Double) -> (same: bool)
        ensures
            same == self.same_number(other),
    {
        let mine: u64 = self.bits % DOUBLE_SIGN;
        let theirs: u64 = other.bits % DOUBLE_SIGN;
        if mine > DOUBLE_INFINITE || theirs > DOUBLE_INFINITE {
            false
        } else if mine == 0 && theirs == 0 {
            true
        } else {
            self.bits == other.bits
        }
    }
}

impl vstd::std_specs::cmp::PartialEqSpecImpl for Double {
    open spec fn obeys_eq_spec() -> bool {
        true
    }

    open spec fn eq_spec(&self, other: &Double) -> bool {
        self.same_number(*other)
    }
}

impl PartialEq for Double {
    fn eq(&self, other: &Double) -> (same: bool) {
        (*self).equals(*other)
    }
}

// ---------------------------------------------------------------------------
// Nearness
// ---------------------------------------------------------------------------

/// The distance from one to the next larger number.
pub const EPSILON: u32 = 0x3400_0000;

impl Real {
    /// This number without its sign.
    pub open spec fn size(self) -> Real {
        Real { bits: self.magnitude() as u32 }
    }

    /// Whether the difference of two numbers is below the distance from one to the
    /// next larger number.
    pub open spec fn near(self, other: Real) -> bool {
        self.difference(other).size().below(Real { bits: EPSILON })
    }

    /// Whether two numbers are near each other.
    pub fn is_near(self, other: Real) -> (near: bool)
        ensures
            near == self.near(other),
    {
        self.minus(other).absolute().is_below(Real { bits: EPSILON })
    }
}

/// One more than the largest fraction of a double: the weight of its implicit
/// leading bit.
pub const DOUBLE_LEADING: u64 = 0x10_0000_0000_0000;

/// The exact value of a finite magnitude of a double, in units of two to the power
/// -1074.
pub open spec fn double_exact_magnitude(magnitude: nat) -> nat {
    if magnitude < DOUBLE_LEADING {
        magnitude
    } else {
        (DOUBLE_LEADING as nat + magnitude % (DOUBLE_LEADING as nat))
            * vstd::arithmetic::power2::pow2((magnitude / (DOUBLE_LEADING as nat) - 1) as nat)
    }
}

/// The least distance that rounds to two to the power -52, which is the distance
/// from one to the next larger double, in units of two to the power -1074.
pub open spec fn double_far() -> nat {
    0x3F_FFFF_FFFF_FFFFnat * vstd::arithmetic::power2::pow2(968)
}

impl Double {
    pub open spec fn is_negative(self) -> bool {
        self.bits >= DOUBLE_SIGN
    }

    pub open spec fn is_finite(self) -> bool {
        self.magnitude() < DOUBLE_INFINITE
    }

    /// The exact value of a finite number, in units of two to the power -1074.
    pub open spec fn exact(self) -> int {
        if self.is_negative() {
            -(double_exact_magnitude(self.magnitude()) as int)
        } else {
            double_exact_magnitude(self.magnitude()) as int
        }
    }

    /// Whether two numbers are finite and their difference rounds to less than the
    /// distance from one to the next larger number.
    pub open spec fn near(self, other: Double) -> bool {
        let distance = self.exact() - other.exact();
        self.is_finite() && other.is_finite() && -double_far() < distance < double_far()
    }

    /// Whether two numbers are near each other.
    pub fn is_near(self, other: Double) -> (near: bool)
        ensures
            near == self.near(other),
    {
        let mine: u64 = self.bits % DOUBLE_SIGN;
        let theirs: u64 = other.bits % DOUBLE_SIGN;
        if mine >= DOUBLE_INFINITE || theirs >= DOUBLE_INFINITE {
            return false;
        }
        let (first, first_power) = double_parts(mine);
        let (second, second_power) = double_parts(theirs);
        let subtract = (self.bits >= DOUBLE_SIGN) == (other.bits >= DOUBLE_SIGN);
        if first_power < second_power {
            within(second, second_power, first, first_power, subtract)
        } else {
            within(first, first_power, second, second_power, subtract)
        }
    }
}

/// The significand and the power of two of a finite magnitude of a double.
fn double_parts(magnitude: u64) -> (result: (u64, u64))
    requires
        magnitude < DOUBLE_INFINITE,
    ensures
        result.0 < 2 * DOUBLE_LEADING,
        result.1 <= 2045,
        double_exact_magnitude(magnitude as nat) == result.0 * vstd::arithmetic::power2::pow2(
            result.1 as nat,
        ),
        result.1 > 0 ==> result.0 >= DOUBLE_LEADING,
{
    proof {
        lemma2_to64();
    }
    if magnitude < DOUBLE_LEADING {
        assert(magnitude as nat * 1 == magnitude as nat);
        (magnitude, 0)
    } else {
        let exponent: u64 = magnitude / DOUBLE_LEADING - 1;
        (DOUBLE_LEADING + magnitude % DOUBLE_LEADING, exponent)
    }
}

/// Two to the power `exponent`.
fn wide_power_of_two(exponent: u64) -> (power: u128)
    requires
        exponent <= 71,
    ensures
        power == vstd::arithmetic::power2::pow2(exponent as nat),
        power <= 0x80_0000_0000_0000_0000,
{
    let mut power: u128 = 1;
    let mut i: u64 = 0;
    proof {
        lemma2_to64();
    }
    while i < exponent
        invariant
            i <= exponent <= 71,
            power == vstd::arithmetic::power2::pow2(i as nat),
            power <= 0x80_0000_0000_0000_0000,
        decreases exponent - i,
    {
        proof {
            lemma_pow2_unfold((i + 1) as nat);
            lemma_pow2_71();
            if i < 70 {
                lemma_pow2_strictly_increases((i + 1) as nat, 71);
            }
        }
        power = power * 2;
        i = i + 1;
    }
    power
}

proof fn lemma_pow2_71()
    ensures
        vstd::arithmetic::power2::pow2(71) == 0x80_0000_0000_0000_0000nat,
        vstd::arithmetic::power2::pow2(54) == 0x40_0000_0000_0000nat,
        vstd::arithmetic::power2::pow2(53) == 0x20_0000_0000_0000nat,
{
    lemma2_to64();
    lemma2_to64_rest();
    lemma_pow2_adds(64, 7);
}

/// Whether `n` times two to the power `power` is below [`double_far`].
fn below_far(n: u128, power: u64) -> (below: bool)
    requires
        n < 0x1000_0000_0000_0000_0000_0000_0000_0000,
        power <= 2045,
    ensures
        below == (n * vstd::arithmetic::power2::pow2(power as nat) < double_far()),
{
    let ghost far: nat = 0x3F_FFFF_FFFF_FFFF;
    proof {
        lemma_pow2_71();
        lemma_pow2_pos(968);
        lemma_pow2_pos(power as nat);
    }
    if n == 0 {
        assert(n * vstd::arithmetic::power2::pow2(power as nat) == 0) by (nonlinear_arith)
            requires
                n == 0,
        ;
        assert(double_far() > 0) by (nonlinear_arith)
            requires
                double_far() == far * vstd::arithmetic::power2::pow2(968),
                far > 0,
                vstd::arithmetic::power2::pow2(968) > 0,
        ;
        return true;
    }
    if power >= 968 {
        let lift: u64 = power - 968;
        let ghost unit = vstd::arithmetic::power2::pow2(968);
        let ghost scale = vstd::arithmetic::power2::pow2(lift as nat);
        proof {
            lemma_pow2_adds(lift as nat, 968);
            lemma_pow2_pos(lift as nat);
            assert(n * (scale * unit) == (n * scale) * unit) by (nonlinear_arith);
            assert((n * scale) * unit < far * unit <==> n * scale < far) by (nonlinear_arith)
                requires
                    unit > 0,
            ;
        }
        if lift >= 54 || n >= 0x40_0000_0000_0000 {
            proof {
                if lift >= 54 {
                    if lift > 54 {
                        lemma_pow2_strictly_increases(54, lift as nat);
                    }
                    assert(n * scale >= far) by (nonlinear_arith)
                        requires
                            n >= 1,
                            scale >= far,
                    ;
                } else {
                    assert(n * scale >= far) by (nonlinear_arith)
                        requires
                            n >= far,
                            scale >= 1,
                    ;
                }
            }
            return false;
        }
        let factor: u128 = wide_power_of_two(lift);
        proof {
            lemma_pow2_strictly_increases(lift as nat, 54);
            assert(n * factor < 0x1000_0000_0000_0000_0000_0000_0000) by (nonlinear_arith)
                requires
                    n < 0x40_0000_0000_0000,
                    factor < 0x40_0000_0000_0000,
            ;
        }
        n * factor < 0x3F_FFFF_FFFF_FFFF
    } else {
        let drop: u64 = 968 - power;
        let ghost unit = vstd::arithmetic::power2::pow2(power as nat);
        let ghost scale = vstd::arithmetic::power2::pow2(drop as nat);
        proof {
            lemma_pow2_adds(drop as nat, power as nat);
            lemma_pow2_pos(drop as nat);
            assert(far * (scale * unit) == (far * scale) * unit) by (nonlinear_arith);
            assert(n * unit < (far * scale) * unit <==> n < far * scale) by (nonlinear_arith)
                requires
                    unit > 0,
            ;
        }
        if drop > 71 {
            proof {
                lemma_pow2_strictly_increases(71, drop as nat);
                assert(n < far * scale) by (nonlinear_arith)
                    requires
                        n < 0x1000_0000_0000_0000_0000_0000_0000_0000,
                        far == 0x3F_FFFF_FFFF_FFFF,
                        scale > 0x80_0000_0000_0000_0000,
                ;
            }
            return true;
        }
        let factor: u128 = wide_power_of_two(drop);
        assert(0x3F_FFFF_FFFF_FFFF * factor < 0x1_0000_0000_0000_0000_0000_0000_0000_0000)
            by (nonlinear_arith)
            requires
                factor <= 0x80_0000_0000_0000_0000,
        ;
        n < 0x3F_FFFF_FFFF_FFFF * factor
    }
}

/// Whether the sum or the difference of two magnitudes, the first of which has at
/// least the power of two of the second, is below [`double_far`].
fn within(high: u64, high_power: u64, low: u64, low_power: u64, subtract: bool) -> (below: bool)
    requires
        high < 2 * DOUBLE_LEADING,
        low < 2 * DOUBLE_LEADING,
        low_power <= high_power <= 2045,
        high_power > 0 ==> high >= DOUBLE_LEADING,
    ensures
        ({
            let large = high * vstd::arithmetic::power2::pow2(high_power as nat);
            let small = low * vstd::arithmetic::power2::pow2(low_power as nat);
            below == if subtract {
                -double_far() < large - small < double_far()
            } else {
                large + small < double_far()
            }
        }),
{
    let gap: u64 = high_power - low_power;
    let ghost least = vstd::arithmetic::power2::pow2(low_power as nat);
    let ghost large = high * vstd::arithmetic::power2::pow2(high_power as nat);
    let ghost small = low * least;
    if gap > 70 {
        proof {
            lemma_far_apart(high as nat, high_power as nat, low as nat, low_power as nat);
        }
        return high_power <= 969;
    }
    let scale: u128 = wide_power_of_two(gap);
    proof {
        lemma_pow2_71();
        lemma_pow2_unfold(71);
        if gap < 70 {
            lemma_pow2_strictly_increases(gap as nat, 70);
        }
        lemma_pow2_adds(gap as nat, low_power as nat);
        lemma_pow2_pos(low_power as nat);
        assert(high * scale < 0x800_0000_0000_0000_0000_0000_0000_0000) by (nonlinear_arith)
            requires
                high < 0x20_0000_0000_0000,
                scale <= 0x40_0000_0000_0000_0000,
        ;
        assert(large == (high * scale) * least) by (nonlinear_arith)
            requires
                large == high * (scale * least),
        ;
    }
    let lifted: u128 = high as u128 * scale;
    let other: u128 = low as u128;
    if subtract {
        if lifted < other {
            proof {
                assert(small - large == (other - lifted) * least && (other - lifted) * least >= 0)
                    by (nonlinear_arith)
                    requires
                        large == lifted * least,
                        small == other * least,
                        lifted < other,
                        least > 0,
                ;
            }
            below_far(other - lifted, low_power)
        } else {
            proof {
                assert(large - small == (lifted - other) * least && (lifted - other) * least >= 0)
                    by (nonlinear_arith)
                    requires
                        large == lifted * least,
                        small == other * least,
                        lifted >= other,
                        least > 0,
                ;
            }
            below_far(lifted - other, low_power)
        }
    } else {
        proof {
            assert(large + small == (lifted + other) * least) by (nonlinear_arith)
                requires
                    large == lifted * least,
                    small == other * least,
            ;
        }
        below_far(lifted + other, low_power)
    }
}

/// Beside a magnitude more than seventy powers of two above it, another decides
/// nothing.
proof fn lemma_far_apart(high: nat, high_power: nat, low: nat, low_power: nat)
    requires
        DOUBLE_LEADING <= high < 2 * DOUBLE_LEADING,
        low < 2 * DOUBLE_LEADING,
        high_power > low_power + 70,
    ensures
        ({
            let large = high * vstd::arithmetic::power2::pow2(high_power);
            let small = low * vstd::arithmetic::power2::pow2(low_power);
            &&& (high_power <= 969) == (large + small < double_far())
            &&& (high_power <= 969) == (large - small < double_far())
            &&& small < large
        }),
{
    let unit = vstd::arithmetic::power2::pow2(high_power);
    let least = vstd::arithmetic::power2::pow2(low_power);
    let large = high * unit;
    let small = low * least;
    let base = vstd::arithmetic::power2::pow2(968);
    lemma_pow2_71();
    lemma_pow2_pos(low_power);
    lemma_pow2_pos(968);
    // The small one is below an eighth of one unit of the large one.
    lemma_pow2_adds(53, low_power);
    lemma_pow2_unfold(high_power);
    lemma_pow2_unfold((high_power - 1) as nat);
    lemma_pow2_unfold((high_power - 2) as nat);
    let eighth = vstd::arithmetic::power2::pow2((high_power - 3) as nat);
    lemma_pow2_strictly_increases(53 + low_power, (high_power - 3) as nat);
    assert(small < eighth) by (nonlinear_arith)
        requires
            small == low * least,
            low < 0x20_0000_0000_0000,
            0x20_0000_0000_0000 * least < eighth,
            least > 0,
    ;
    assert(unit == 8 * eighth);
    if high_power <= 969 {
        lemma_pow2_unfold(969);
        if high_power < 969 {
            lemma_pow2_strictly_increases(high_power, 969);
        }
        assert(large + small < 0x3F_FFFF_FFFF_FFFF * base) by (nonlinear_arith)
            requires
                large == high * unit,
                high <= 0x1F_FFFF_FFFF_FFFF,
                small < eighth,
                unit == 8 * eighth,
                unit <= 2 * base,
        ;
        assert(small < large) by (nonlinear_arith)
            requires
                large == high * unit,
                high >= 1,
                small < eighth,
                unit == 8 * eighth,
        ;
    } else {
        lemma_pow2_unfold(970);
        lemma_pow2_unfold(969);
        if high_power > 970 {
            lemma_pow2_strictly_increases(970, high_power);
        }
        assert(large - small >= 0x3F_FFFF_FFFF_FFFF * base) by (nonlinear_arith)
            requires
                large == high * unit,
                high >= 0x10_0000_0000_0000,
                small < eighth,
                unit == 8 * eighth,
                unit >= 4 * base,
        ;
        assert(small < large) by (nonlinear_arith)
            requires
                large == high * unit,
                high >= 1,
                small < eighth,
                unit == 8 * eighth,
        ;
    }
}

/// One step up in magnitude is one step up in value.
proof fn lemma_exact_step(m: nat)
    requires
        m < INFINITE,
    ensures
        exact_magnitude(m) < exact_magnitude(m + 1),
{
    let next = m + 1;
    let power = (m / (LEADING as nat)) as int;
    let next_power = (next / (LEADING as nat)) as int;
    assert(next_power == power || (next_power == power + 1 && next % (LEADING as nat) == 0 && m % (
    LEADING as nat) == LEADING - 1)) by (nonlinear_arith)
        requires
            power == m as int / LEADING as int,
            next_power == (m + 1) as int / LEADING as int,
            next == m + 1,
            LEADING == 8388608,
    ;
    if power >= 1 {
        let unit = vstd::arithmetic::power2::pow2((power - 1) as nat);
        lemma_pow2_pos((power - 1) as nat);
        let low = (m % (LEADING as nat)) as int;
        assert(exact_magnitude(m) == (LEADING + low) * unit);
        if next_power == power {
            assert(next % (LEADING as nat) == low + 1);
            assert(exact_magnitude(next) == (LEADING + low + 1) * unit);
            assert((LEADING + low) * unit < (LEADING + low + 1) * unit) by (nonlinear_arith)
                requires
                    unit > 0,
            ;
        } else {
            lemma_pow2_unfold(power as nat);
            assert(exact_magnitude(next) == LEADING * (2 * unit)) by {
                assert((next_power - 1) as nat == power as nat);
                assert(next % (LEADING as nat) == 0);
            }
            assert((LEADING + low) * unit < LEADING * (2 * unit)) by (nonlinear_arith)
                requires
                    unit > 0,
                    low == LEADING - 1,
            ;
        }
    } else if next_power == 1 {
        lemma2_to64();
        assert(next == LEADING);
        assert(exact_magnitude(next) == LEADING * 1);
    }
}

/// A greater magnitude is a greater value.
proof fn lemma_exact_is_monotonic(m: nat, n: nat)
    requires
        m < n <= INFINITE,
    ensures
        exact_magnitude(m) < exact_magnitude(n),
    decreases n - m,
{
    lemma_exact_step(m);
    if m + 1 < n {
        lemma_exact_is_monotonic(m + 1, n);
    }
}

/// Of two numbers with no sign the one with the larger bit pattern is the larger number, of
/// two with a sign the smaller, and every number with a sign is below every one without.
/// What lies beyond infinity is no number, and compares with nothing.
pub proof fn law_numbers_rise_with_their_bits(a: Real, b: Real)
    ensures
        0x7F80_0000 < a.bits < 0x8000_0000 || a.bits > 0xFF80_0000 ==> a.is_nan() && !a.below(b)
            && !b.below(a) && !a.same_number(a),
        a.bits <= 0x7F80_0000 && b.bits <= 0x7F80_0000 ==> (a.below(b) <==> a.bits < b.bits),
        0x8000_0000 <= a.bits <= 0xFF80_0000 && 0x8000_0000 <= b.bits <= 0xFF80_0000 ==> (a.below(b)
            <==> a.bits > b.bits),
        0x8000_0000 < a.bits <= 0xFF80_0000 && b.bits <= 0x7F80_0000 ==> a.below(b) && !b.below(a),
        a.bits == 0x8000_0000 && b.bits == 0 ==> a.same_number(b),
        a.is_finite() <==> a.bits < 0x7F80_0000 || 0x8000_0000 <= a.bits < 0xFF80_0000,
{
}

/// Finite numbers compare as their exact values do.
pub proof fn law_comparison_is_numeric(a: Real, b: Real)
    requires
        a.is_finite(),
        b.is_finite(),
    ensures
        a.below(b) <==> a.exact() < b.exact(),
        a.same_number(b) <==> a.exact() == b.exact(),
{
    let m = a.magnitude();
    let n = b.magnitude();
    if m < n {
        lemma_exact_is_monotonic(m, n);
    }
    if n < m {
        lemma_exact_is_monotonic(n, m);
    }
    if m > 0 {
        lemma_exact_is_monotonic(0, m);
    }
    if n > 0 {
        lemma_exact_is_monotonic(0, n);
    }
}

} // verus!
