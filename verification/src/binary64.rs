//! Double-precision numbers, held by their bit pattern.
//!
//! Volumes, gains and positions reach the player as doubles. The decisions taken
//! on them are comparisons, and a comparison of two doubles can be read off their
//! bit patterns, so the core carries the patterns and never computes with the
//! numbers themselves.

use vstd::arithmetic::power2::{lemma_pow2_adds, lemma_pow2_pos, lemma_pow2_strictly_increases, pow2};
use vstd::prelude::*;

verus! {

/// The pattern of negative zero: the sign bit alone.
pub const SIGN: u64 = 0x8000_0000_0000_0000;

/// The pattern of positive infinity. A larger magnitude is not a number.
pub const INFINITY: u64 = 0x7ff0_0000_0000_0000;

/// The pattern of two to the power of 64, the first number of seconds that a
/// duration cannot hold.
pub const SECONDS_LIMIT: u64 = 0x43f0_0000_0000_0000;

/// Two to the power of 52: the patterns of one binade.
pub const BINADE: u64 = 0x0010_0000_0000_0000;

/// A double in the IEEE 754 binary64 format. `==` compares patterns;
/// [`Binary64::equals`] compares numbers.
#[derive(Clone, Copy, Debug, PartialEq, Eq, Structural)]
pub struct Binary64 {
    pub bits: u64,
}

impl Binary64 {
    /// The pattern without its sign bit.
    pub open spec fn magnitude(self) -> int {
        if self.bits < SIGN {
            self.bits as int
        } else {
            self.bits - SIGN
        }
    }

    pub open spec fn is_nan_spec(self) -> bool {
        self.magnitude() > INFINITY
    }

    pub open spec fn is_finite(self) -> bool {
        self.magnitude() < INFINITY
    }

    /// The place of the number in the order of all numbers. Both zeros have
    /// rank 0; see [`lemma_rank_orders_numbers`].
    pub open spec fn rank(self) -> int {
        if self.bits < SIGN {
            self.magnitude()
        } else {
            -self.magnitude()
        }
    }

    /// The value of a finite number, in units of the smallest positive one.
    pub open spec fn units(self) -> int {
        if self.bits < SIGN {
            magnitude_units(self.magnitude())
        } else {
            -magnitude_units(self.magnitude())
        }
    }

    /// `self < other`: false as soon as one of them is not a number.
    pub open spec fn lt_spec(self, other: Self) -> bool {
        !self.is_nan_spec() && !other.is_nan_spec() && self.rank() < other.rank()
    }

    /// `self == other` of the numbers: the two zeros are equal, and what is not a
    /// number equals nothing.
    pub open spec fn equals_spec(self, other: Self) -> bool {
        !self.is_nan_spec() && !other.is_nan_spec() && self.rank() == other.rank()
    }

    /// The number nearest to `self` between the bounds; what is not a number stays
    /// what it is.
    pub open spec fn clamp_spec(self, low: Self, high: Self) -> Self {
        if self.lt_spec(low) {
            low
        } else if high.lt_spec(self) {
            high
        } else {
            self
        }
    }

    /// `self.abs() < bound`, for a bound that is not negative.
    pub open spec fn within_spec(self, bound: Self) -> bool {
        !self.is_nan_spec() && self.magnitude() < bound.magnitude()
    }

    /// The double nearest to the difference of two finite ones, as subtraction rounds it;
    /// for differences within the range of the finite doubles. Of two that are equally
    /// near, it does not say which.
    pub open spec fn is_difference_spec(self, a: Self, b: Self) -> bool {
        let exact = a.units() - b.units();
        &&& self.is_finite()
        &&& forall|other: Self|
            other.is_finite() ==> distance(self.units(), exact) <= distance(
                #[trigger] other.units(),
                exact,
            )
    }

    /// A number of seconds that a duration can hold: not negative, and below two to
    /// the power of 64.
    pub open spec fn is_duration_spec(self) -> bool {
        !self.is_nan_spec() && 0 <= self.rank() < SECONDS_LIMIT
    }

    /// The double with this pattern.
    pub fn from_bits(bits: u64) -> (r: Self)
        ensures
            r.bits == bits,
    {
        Binary64 { bits }
    }

    pub fn is_nan(&self) -> (r: bool)
        ensures
            r == self.is_nan_spec(),
            r <==> INFINITY < self.bits < SIGN || SIGN + INFINITY < self.bits,
    {
        let magnitude: u64 = if self.bits < SIGN { self.bits } else { self.bits - SIGN };
        magnitude > INFINITY
    }

    /// Whether `self` is the smaller number.
    pub fn less_than(&self, other: &Self) -> (r: bool)
        ensures
            r == self.lt_spec(*other),
            r ==> !other.lt_spec(*self) && !self.equals_spec(*other),
            !self.is_nan_spec() && !other.is_nan_spec() ==> r || self.equals_spec(*other)
                || other.lt_spec(*self),
    {
        if self.is_nan() || other.is_nan() {
            false
        } else if self.bits < SIGN {
            other.bits < SIGN && self.bits < other.bits
        } else if other.bits < SIGN {
            self.bits > SIGN || other.bits > 0
        } else {
            self.bits > other.bits
        }
    }

    /// Whether `self` and `other` are the same number.
    pub fn equals(&self, other: &Self) -> (r: bool)
        ensures
            r == self.equals_spec(*other),
            r <==> !self.is_nan_spec() && (self.bits == other.bits || (self.magnitude() == 0
                && other.magnitude() == 0)),
    {
        if self.is_nan() || other.is_nan() {
            false
        } else {
            self.bits == other.bits || (self.bits == 0 && other.bits == SIGN) || (self.bits == SIGN
                && other.bits == 0)
        }
    }

    /// Limits the number to the range from `low` to `high`.
    pub fn clamp(&self, low: Self, high: Self) -> (r: Self)
        requires
            !low.is_nan_spec(),
            !high.is_nan_spec(),
            low.rank() <= high.rank(),
        ensures
            r == self.clamp_spec(low, high),
            low.rank() <= self.rank() <= high.rank() ==> r == *self,
            !self.is_nan_spec() && self.rank() < low.rank() ==> r == low,
            !self.is_nan_spec() && self.rank() > high.rank() ==> r == high,
            self.is_nan_spec() ==> r == *self,
            !self.is_nan_spec() ==> !r.is_nan_spec() && low.rank() <= r.rank() <= high.rank(),
    {
        if self.less_than(&low) {
            low
        } else if high.less_than(self) {
            high
        } else {
            *self
        }
    }

    /// Whether the number is nearer to zero than `bound`.
    pub fn within(&self, bound: Self) -> (r: bool)
        requires
            bound.bits <= INFINITY,
        ensures
            r == self.within_spec(bound),
            r <==> self.bits < bound.bits || SIGN <= self.bits < SIGN + bound.bits,
    {
        let magnitude: u64 = if self.bits < SIGN { self.bits } else { self.bits - SIGN };
        magnitude < bound.bits
    }

    /// Whether the number of seconds can be turned into a duration.
    pub fn is_duration(&self) -> (r: bool)
        ensures
            r == self.is_duration_spec(),
            r <==> self.bits < SECONDS_LIMIT || self.bits == SIGN,
    {
        self.bits < SECONDS_LIMIT || self.bits == SIGN
    }

    /// Whether the number is above zero.
    pub fn is_positive(&self) -> (r: bool)
        ensures
            r == (!self.is_nan_spec() && self.rank() > 0),
            r <==> 0 < self.bits <= INFINITY,
    {
        0 < self.bits && self.bits <= INFINITY
    }
}

/// How far two values are apart.
pub open spec fn distance(x: int, y: int) -> int {
    if x < y {
        y - x
    } else {
        x - y
    }
}

/// The value of a magnitude in units of the smallest positive number: the first
/// binade counts one by one, each further one in steps twice as large.
pub open spec fn magnitude_units(magnitude: int) -> int {
    if magnitude < BINADE {
        magnitude
    } else {
        (BINADE + magnitude % (BINADE as int)) * pow2((magnitude / (BINADE as int) - 1) as nat)
    }
}

/// A larger magnitude is a larger number.
proof fn lemma_units_increase(a: int, b: int)
    requires
        0 <= a < b,
    ensures
        magnitude_units(a) < magnitude_units(b),
{
    let m = BINADE as int;
    let (qa, ra) = (a / m, a % m);
    let (qb, rb) = (b / m, b % m);
    assert(a == m * qa + ra && b == m * qb + rb && 0 <= ra < m && 0 <= rb < m);
    assert(qa <= qb);
    if b >= m {
        let pb = pow2((qb - 1) as nat) as int;
        lemma_pow2_pos((qb - 1) as nat);
        if a < m {
            assert((m + rb) * pb >= m + rb) by (nonlinear_arith)
                requires
                    pb >= 1,
                    m + rb >= 0,
            ;
        } else {
            let pa = pow2((qa - 1) as nat) as int;
            lemma_pow2_pos((qa - 1) as nat);
            if qa == qb {
                assert((m + ra) * pa < (m + rb) * pa) by (nonlinear_arith)
                    requires
                        ra < rb,
                        pa >= 1,
                ;
            } else {
                assert(pb >= 2 * pa) by {
                    lemma_pow2_adds(1, (qa - 1) as nat);
                    vstd::arithmetic::power2::lemma2_to64();
                    if qa + 1 < qb {
                        lemma_pow2_strictly_increases(qa as nat, (qb - 1) as nat);
                    }
                }
                assert((m + ra) * pa < 2 * m * pa) by (nonlinear_arith)
                    requires
                        ra < m,
                        pa >= 1,
                ;
                assert(2 * m * pa <= m * pb) by (nonlinear_arith)
                    requires
                        pb >= 2 * pa,
                        m >= 0,
                ;
                assert(m * pb <= (m + rb) * pb) by (nonlinear_arith)
                    requires
                        rb >= 0,
                        pb >= 1,
                ;
            }
        }
    }
}

/// The rank orders numbers by their value: of two finite numbers the one with the
/// smaller rank is the smaller one, and equal ranks are equal values.
pub proof fn lemma_rank_orders_numbers(a: Binary64, b: Binary64)
    requires
        a.is_finite(),
        b.is_finite(),
    ensures
        a.rank() < b.rank() <==> a.units() < b.units(),
        a.rank() == b.rank() <==> a.units() == b.units(),
{
    let (x, y) = (a.magnitude(), b.magnitude());
    if x < y {
        lemma_units_increase(x, y);
    }
    if y < x {
        lemma_units_increase(y, x);
    }
    if 0 < x {
        lemma_units_increase(0, x);
    }
    if 0 < y {
        lemma_units_increase(0, y);
    }
}

/// A finite number is within a bound exactly when it lies nearer to zero by its value.
pub proof fn lemma_within_is_nearer(x: Binary64, bound: Binary64)
    requires
        x.is_finite(),
        bound.is_finite(),
        bound.rank() >= 0,
    ensures
        x.within_spec(bound) <==> distance(x.units(), 0) < bound.units(),
{
    let zero = Binary64 { bits: 0 };
    lemma_rank_orders_numbers(zero, x);
    lemma_rank_orders_numbers(x, bound);
    lemma_rank_orders_numbers(Binary64 { bits: x.magnitude() as u64 }, bound);
    lemma_rank_orders_numbers(zero, bound);
}

/// The difference of two finite numbers is zero where they are equal. Its value is at least
/// that of a bound, either way, where the exact difference is, and no more where the exact
/// difference is no more.
pub proof fn lemma_difference_keeps_bounds(d: Binary64, a: Binary64, b: Binary64, bound: Binary64)
    requires
        d.is_difference_spec(a, b),
        bound.bits < INFINITY,
    ensures
        a.units() == b.units() ==> d.rank() == 0,
        distance(a.units(), b.units()) >= bound.units() ==> distance(d.units(), 0)
            >= bound.units(),
        distance(a.units(), b.units()) <= bound.units() ==> distance(d.units(), 0)
            <= bound.units(),
{
    let exact = a.units() - b.units();
    let zero = Binary64 { bits: 0 };
    let opposite = Binary64 { bits: (bound.bits + SIGN) as u64 };
    assert(opposite.units() == -bound.units());
    assert(zero.units() == 0);
    lemma_rank_orders_numbers(d, zero);
    lemma_rank_orders_numbers(zero, bound);
    assert(distance(d.units(), exact) <= distance(zero.units(), exact));
    assert(distance(d.units(), exact) <= distance(bound.units(), exact));
    assert(distance(d.units(), exact) <= distance(opposite.units(), exact));
}

/// The bits of a double, read by the layout of the format: it is not a number exactly when
/// all bits of its exponent are set and some bit of its fraction is; it is negative by its
/// highest bit alone.
pub proof fn lemma_layout(x: Binary64)
    ensures
        x.is_nan_spec() <==> x.bits & 0x7ff0_0000_0000_0000 == 0x7ff0_0000_0000_0000 && x.bits
            & 0x000f_ffff_ffff_ffff != 0,
        x.is_finite() <==> x.bits & 0x7ff0_0000_0000_0000 != 0x7ff0_0000_0000_0000,
        x.magnitude() == x.bits & 0x7fff_ffff_ffff_ffff,
        x.rank() == if x.bits & 0x8000_0000_0000_0000 == 0 {
            x.magnitude()
        } else {
            -x.magnitude()
        },
{
    let bits = x.bits;
    assert(bits < 0x8000_0000_0000_0000 ==> bits & 0x7fff_ffff_ffff_ffff == bits && bits
        & 0x8000_0000_0000_0000 == 0) by (bit_vector);
    assert(bits >= 0x8000_0000_0000_0000 ==> bits & 0x7fff_ffff_ffff_ffff == bits
        - 0x8000_0000_0000_0000 && bits & 0x8000_0000_0000_0000 != 0) by (bit_vector);
    assert((bits & 0x7ff0_0000_0000_0000 == 0x7ff0_0000_0000_0000) == (bits & 0x7fff_ffff_ffff_ffff
        >= 0x7ff0_0000_0000_0000)) by (bit_vector);
    assert((bits & 0x7ff0_0000_0000_0000 == 0x7ff0_0000_0000_0000 && bits & 0x000f_ffff_ffff_ffff
        != 0) == (bits & 0x7fff_ffff_ffff_ffff > 0x7ff0_0000_0000_0000)) by (bit_vector);
}

/// The values of the patterns: zero is zero, the next pattern is the next number, one step
/// further, and the steps double from binade to binade; the sign turns the value round.
pub proof fn lemma_values_go_in_steps(x: Binary64, next: Binary64)
    requires
        x.bits < INFINITY,
        next.bits == x.bits + 1,
    ensures
        (Binary64 { bits: 0 }).units() == 0,
        x.bits < BINADE ==> next.units() - x.units() == 1,
        x.bits >= BINADE ==> next.units() - x.units() == pow2(
            (x.bits as int / BINADE as int - 1) as nat,
        ),
        (Binary64 { bits: (x.bits + SIGN) as u64 }).units() == -x.units(),
{
    let m = BINADE as int;
    let (a, b) = (x.bits as int, x.bits + 1);
    let (q, r) = (a / m, a % m);
    assert(a == m * q + r && 0 <= r < m);
    if a < m {
        if b == m {
            assert(b / m == 1 && b % m == 0);
            vstd::arithmetic::power2::lemma2_to64();
        }
    } else {
        let p = pow2((q - 1) as nat) as int;
        if r + 1 < m {
            assert(b / m == q && b % m == r + 1) by (nonlinear_arith)
                requires
                    b == m * q + (r + 1),
                    0 <= r + 1 < m,
            ;
            assert((m + (r + 1)) * p - (m + r) * p == p) by (nonlinear_arith);
        } else {
            assert(b == m * (q + 1));
            assert(b / m == q + 1 && b % m == 0) by (nonlinear_arith)
                requires
                    b == m * (q + 1),
                    m > 0,
            ;
            lemma_pow2_adds(1, (q - 1) as nat);
            vstd::arithmetic::power2::lemma2_to64();
            assert(pow2(q as nat) == 2 * p);
            assert(m * (2 * p) - (m + r) * p == p) by (nonlinear_arith)
                requires
                    r + 1 == m,
            ;
        }
    }
}

/// Numbers are compared by their values; what is not a number compares with nothing; and the
/// infinities lie beyond all finite numbers.
pub proof fn lemma_comparison_is_by_value(a: Binary64, b: Binary64)
    ensures
        a.is_finite() && b.is_finite() ==> (a.lt_spec(b) <==> a.units() < b.units()),
        a.is_finite() && b.is_finite() ==> (a.equals_spec(b) <==> a.units() == b.units()),
        a.is_nan_spec() || b.is_nan_spec() ==> !a.lt_spec(b) && !a.equals_spec(b),
        a.is_finite() ==> a.lt_spec(Binary64 { bits: INFINITY }) && (Binary64 {
            bits: (SIGN + INFINITY) as u64,
        }).lt_spec(a),
{
    if a.is_finite() && b.is_finite() {
        lemma_rank_orders_numbers(a, b);
    }
}

/// Limiting a number gives the nearest one between the bounds, and the number itself where
/// it lies between them; what is not a number stays as it is.
pub proof fn lemma_clamp_is_nearest(x: Binary64, low: Binary64, high: Binary64, other: Binary64)
    requires
        !low.is_nan_spec(),
        !high.is_nan_spec(),
        low.rank() <= other.rank() <= high.rank(),
    ensures
        x.is_nan_spec() ==> x.clamp_spec(low, high) == x,
        !x.is_nan_spec() ==> {
            let r = x.clamp_spec(low, high).rank();
            &&& low.rank() <= r <= high.rank()
            &&& distance(r, x.rank()) <= distance(other.rank(), x.rank())
        },
        !x.is_nan_spec() && low.rank() <= x.rank() <= high.rank() ==> x.clamp_spec(low, high) == x,
{
}

/// A duration holds the numbers of seconds from zero up to, but not with, two to the power of
/// 64.
pub proof fn lemma_durations_by_value(x: Binary64)
    ensures
        x.is_duration_spec() <==> x.is_finite() && 0 <= x.units() < pow2(64) * pow2(1074),
{
    let limit = Binary64 { bits: SECONDS_LIMIT };
    let zero = Binary64 { bits: 0 };
    lemma_units_of_power(64);
    if x.is_finite() {
        lemma_rank_orders_numbers(x, limit);
        lemma_rank_orders_numbers(zero, x);
    }
}

/// The value of a pattern without a fraction: a power of two, in units of which two to the
/// power of 1074 make one.
pub proof fn lemma_units_of_power(exponent: nat)
    requires
        exponent <= 1023,
    ensures
        (Binary64 { bits: ((1023 + exponent) * BINADE) as u64 }).units() == pow2(exponent) * pow2(
            1074,
        ),
{
    let m = BINADE as int;
    let bits = (1023 + exponent) * m;
    assert(m <= bits < INFINITY);
    assert(bits / m == 1023 + exponent && bits % m == 0) by (nonlinear_arith)
        requires
            bits == (1023 + exponent) * m,
            m > 0,
    ;
    vstd::arithmetic::power2::lemma2_to64();
    vstd::arithmetic::power2::lemma2_to64_rest();
    assert(pow2(52) == m);
    lemma_pow2_adds(52, 1022 + exponent);
    lemma_pow2_adds(exponent, 1074);
}

/// The value of a pattern by its exponent and its fraction: the fraction, behind a leading
/// one, in steps of which two to the power of `k` make one.
pub proof fn lemma_units_by_exponent(x: Binary64, exponent: int, fraction: int, k: nat)
    requires
        1 <= exponent < 2047,
        0 <= fraction < BINADE,
        x.bits == exponent * BINADE + fraction,
        exponent - 1 + k == 1074,
    ensures
        x.units() == (BINADE + fraction) * pow2((exponent - 1) as nat),
        pow2(1074) == pow2((exponent - 1) as nat) * pow2(k),
{
    let m = BINADE as int;
    let bits = x.bits as int;
    assert(bits / m == exponent && bits % m == fraction) by (nonlinear_arith)
        requires
            bits == exponent * m + fraction,
            0 <= fraction < m,
    ;
    lemma_pow2_adds((exponent - 1) as nat, k);
}

} // verus!
