//! Fixed-point numbers: an exact, saturating implementation of `Scalar`.
//!
//! A `Fixed` holds a signed count of 1/65536ths. Every operation rounds toward
//! zero and saturates at the ends of the range, which then act as the two
//! infinities. All values are numbers, and the order is that of the counts.

use vstd::prelude::*;
use crate::scalar::Scalar;

verus! {

/// The count that stands for one.
pub const ONE_RAW: i64 = 65536;

#[derive(Clone, Copy, Debug, PartialEq, Eq, Structural)]
pub struct Fixed {
    pub raw: i64,
}

/// The nearest count that fits.
pub open spec fn clamp(x: int) -> i64 {
    if x > i64::MAX {
        i64::MAX
    } else if x < i64::MIN {
        i64::MIN
    } else {
        x as i64
    }
}

pub open spec fn magnitude_spec(x: int) -> int {
    if x < 0 {
        -x
    } else {
        x
    }
}

pub open spec fn with_sign(negative: bool, m: int) -> int {
    if negative {
        -m
    } else {
        m
    }
}

/// Whether `r` is the integer square root of `n`.
pub open spec fn is_sqrt(n: int, r: int) -> bool {
    0 <= r && r * r <= n && n < (r + 1) * (r + 1)
}

/// Whether `r` is the integer cube root of `n`.
pub open spec fn is_cbrt(n: int, r: int) -> bool {
    0 <= r && r * r * r <= n && n < (r + 1) * (r + 1) * (r + 1)
}

pub open spec fn sqrt_floor(n: int) -> int {
    choose|r: int| is_sqrt(n, r)
}

pub open spec fn cbrt_floor(n: int) -> int {
    choose|r: int| is_cbrt(n, r)
}

pub open spec fn quotient_raw(a: int, b: int) -> int {
    if b == 0 {
        if a > 0 {
            i64::MAX as int
        } else if a < 0 {
            i64::MIN as int
        } else {
            0
        }
    } else {
        with_sign((a < 0) != (b < 0), magnitude_spec(a) * 65536 / magnitude_spec(b))
    }
}

proof fn sqrt_unique(n: int, r: int, s: int)
    requires
        is_sqrt(n, r),
        is_sqrt(n, s),
    ensures
        r == s,
{
    if r < s {
        assert((r + 1) * (r + 1) <= s * s) by (nonlinear_arith)
            requires
                0 <= r,
                r + 1 <= s,
        ;
    }
    if s < r {
        assert((s + 1) * (s + 1) <= r * r) by (nonlinear_arith)
            requires
                0 <= s,
                s + 1 <= r,
        ;
    }
}

proof fn cbrt_unique(n: int, r: int, s: int)
    requires
        is_cbrt(n, r),
        is_cbrt(n, s),
    ensures
        r == s,
{
    if r < s {
        assert((r + 1) * (r + 1) * (r + 1) <= s * s * s) by (nonlinear_arith)
            requires
                0 <= r,
                r + 1 <= s,
        ;
    }
    if s < r {
        assert((s + 1) * (s + 1) * (s + 1) <= r * r * r) by (nonlinear_arith)
            requires
                0 <= s,
                s + 1 <= r,
        ;
    }
}

fn magnitude(raw: i64) -> (m: u128)
    ensures
        m == magnitude_spec(raw as int),
        m <= 0x8000_0000_0000_0000,
{
    if raw < 0 {
        (-(raw as i128)) as u128
    } else {
        raw as u128
    }
}

fn signed(negative: bool, m: u128) -> (r: i64)
    ensures
        r == clamp(with_sign(negative, m as int)),
{
    if negative {
        if m >= 0x8000_0000_0000_0000 {
            i64::MIN
        } else {
            -(m as i64)
        }
    } else {
        if m > 0x7fff_ffff_ffff_ffff {
            i64::MAX
        } else {
            m as i64
        }
    }
}

/// The integer square root, by bisection.
fn isqrt(n: u128) -> (r: u128)
    requires
        n < 0x1_0000_0000_0000_0000_0000,
    ensures
        r == sqrt_floor(n as int),
        is_sqrt(n as int, r as int),
        r < 0x100_0000_0000,
{
    let mut lo: u128 = 0;
    let mut hi: u128 = 0x100_0000_0000;
    assert(0x100_0000_0000int * 0x100_0000_0000int == 0x1_0000_0000_0000_0000_0000int)
        by (nonlinear_arith);
    while hi - lo > 1
        invariant
            lo < hi,
            hi <= 0x100_0000_0000,
            lo * lo <= n,
            n < hi * hi,
        decreases hi - lo,
    {
        let mid: u128 = lo + (hi - lo) / 2;
        assert(mid * mid < 0x1_0000_0000_0000_0000_0000int) by (nonlinear_arith)
            requires
                mid < 0x100_0000_0000,
        ;
        if mid * mid <= n {
            lo = mid;
        } else {
            hi = mid;
        }
    }
    proof {
        assert(hi == lo + 1);
        assert(is_sqrt(n as int, lo as int));
        sqrt_unique(n as int, lo as int, sqrt_floor(n as int));
    }
    lo
}

/// The integer cube root, by bisection.
fn icbrt(n: u128) -> (r: u128)
    requires
        n <= 0x8000_0000_0000_0000_0000_0000,
    ensures
        r == cbrt_floor(n as int),
        is_cbrt(n as int, r as int),
        r <= 0x1_0000_0000,
{
    let mut lo: u128 = 0;
    let mut hi: u128 = 0x1_0000_0001;
    assert(0x8000_0000_0000_0000_0000_0000int < 0x1_0000_0001int * 0x1_0000_0001int
        * 0x1_0000_0001int) by (nonlinear_arith);
    while hi - lo > 1
        invariant
            lo < hi,
            hi <= 0x1_0000_0001,
            lo * lo * lo <= n,
            n < hi * hi * hi,
        decreases hi - lo,
    {
        let mid: u128 = lo + (hi - lo) / 2;
        assert(mid * mid <= 0x1_0000_0000_0000_0000int && mid * mid * mid
            <= 0x1_0000_0000_0000_0000_0000_0000int) by (nonlinear_arith)
            requires
                mid <= 0x1_0000_0000,
        ;
        if mid * mid * mid <= n {
            lo = mid;
        } else {
            hi = mid;
        }
    }
    proof {
        assert(hi == lo + 1);
        assert(is_cbrt(n as int, lo as int));
        cbrt_unique(n as int, lo as int, cbrt_floor(n as int));
    }
    lo
}

impl Fixed {
    /// The fixed-point number with the given count of 1/65536ths.
    pub fn from_raw(raw: i64) -> (r: Self)
        ensures
            r.raw == raw,
    {
        Fixed { raw }
    }

    /// The count of `self` times 65536 over the count `d`, rounded toward
    /// zero and held to the range; a division by zero gives the end of the
    /// range on the side of `self`.
    fn over_raw(self, d: i64) -> (r: Self)
        ensures
            r.raw == clamp(quotient_raw(self.raw as int, d as int)),
    {
        if d == 0 {
            if self.raw > 0 {
                Fixed { raw: i64::MAX }
            } else if self.raw < 0 {
                Fixed { raw: i64::MIN }
            } else {
                Fixed { raw: 0 }
            }
        } else {
            let a = magnitude(self.raw);
            let b = magnitude(d);
            assert(a * 65536 <= 0x8000_0000_0000_0000_0000) by (nonlinear_arith)
                requires
                    a <= 0x8000_0000_0000_0000,
            ;
            let q = a * 65536 / b;
            Fixed { raw: signed((self.raw < 0) != (d < 0), q) }
        }
    }

    /// The fixed-point number that stands for a whole number.
    pub fn from_int(n: i32) -> (r: Self)
        ensures
            r.raw == n * 65536,
    {
        Fixed { raw: (n as i64) * 65536 }
    }
}

/// A quarter turn.
pub open spec fn half_pi() -> Fixed {
    Fixed { raw: 102943 }
}

/// A whole turn.
pub open spec fn two_pi() -> Fixed {
    Fixed { raw: 411774 }
}

/// The angle between minus a quarter turn and a quarter turn that has the
/// same sine as `x`.
pub open spec fn fold_angle(x: Fixed) -> Fixed {
    let turn = x.remainder(two_pi());
    let half = Fixed { raw: 205887 };
    let near = if turn.raw > half.raw {
        turn.difference(two_pi())
    } else if turn.raw < -half.raw {
        turn.sum(two_pi())
    } else {
        turn
    };
    if near.raw > half_pi().raw {
        half.difference(near)
    } else if near.raw < -half_pi().raw {
        half.negation().difference(near)
    } else {
        near
    }
}

/// The sine of a folded angle, by the first four terms of its power series.
pub open spec fn sine_of_folded(x: Fixed) -> Fixed {
    let x2 = x.product(x);
    let x3 = x2.product(x);
    let x5 = x3.product(x2);
    let x7 = x5.product(x2);
    x.difference(x3.quotient(Fixed { raw: 393216 })).sum(
        x5.quotient(Fixed { raw: 7864320 }),
    ).difference(x7.quotient(Fixed { raw: 330301440 }))
}

fn fold(x: Fixed) -> (r: Fixed)
    ensures
        r == fold_angle(x),
{
    let two_pi = Fixed { raw: 411774 };
    let half = Fixed { raw: 205887 };
    let quarter = Fixed { raw: 102943 };
    let turn = x.rem(two_pi);
    let near = if turn.raw > half.raw {
        turn.minus(two_pi)
    } else if turn.raw < -half.raw {
        turn.plus(two_pi)
    } else {
        turn
    };
    if near.raw > quarter.raw {
        half.minus(near)
    } else if near.raw < -quarter.raw {
        half.neg().minus(near)
    } else {
        near
    }
}

impl Scalar for Fixed {
    open spec fn zero_spec() -> Self {
        Fixed { raw: 0 }
    }

    open spec fn one_spec() -> Self {
        Fixed { raw: 65536 }
    }

    open spec fn infinity_spec() -> Self {
        Fixed { raw: i64::MAX }
    }

    open spec fn ratio_spec(num: i64, den: i64) -> Self {
        Fixed { raw: clamp(quotient_raw(num as int, den as int)) }
    }

    open spec fn unit_sample_spec(bits: u64) -> Self {
        Fixed { raw: (bits / 0x1_0000_0000_0000) as i64 }
    }

    open spec fn sum(self, rhs: Self) -> Self {
        Fixed { raw: clamp(self.raw + rhs.raw) }
    }

    open spec fn difference(self, rhs: Self) -> Self {
        Fixed { raw: clamp(self.raw - rhs.raw) }
    }

    open spec fn product(self, rhs: Self) -> Self {
        Fixed {
            raw: clamp(
                with_sign(
                    (self.raw < 0) != (rhs.raw < 0),
                    magnitude_spec(self.raw as int) * magnitude_spec(rhs.raw as int) / 65536,
                ),
            ),
        }
    }

    open spec fn quotient(self, rhs: Self) -> Self {
        Fixed { raw: clamp(quotient_raw(self.raw as int, rhs.raw as int)) }
    }

    open spec fn negation(self) -> Self {
        Fixed { raw: clamp(-self.raw) }
    }

    open spec fn absolute(self) -> Self {
        Fixed { raw: clamp(magnitude_spec(self.raw as int)) }
    }

    open spec fn square_root(self) -> Self {
        if self.raw <= 0 {
            Fixed { raw: 0 }
        } else {
            Fixed { raw: sqrt_floor(self.raw * 65536) as i64 }
        }
    }

    open spec fn cube_root(self) -> Self {
        Fixed {
            raw: clamp(
                with_sign(
                    self.raw < 0,
                    cbrt_floor(magnitude_spec(self.raw as int) * 0x1_0000_0000),
                ),
            ),
        }
    }

    open spec fn floor_spec(self) -> Self {
        Fixed { raw: (self.raw - self.raw % 65536) as i64 }
    }

    open spec fn remainder(self, rhs: Self) -> Self {
        if rhs.raw == 0 {
            Fixed { raw: 0 }
        } else {
            Fixed {
                raw: clamp(
                    with_sign(
                        self.raw < 0,
                        magnitude_spec(self.raw as int) % magnitude_spec(rhs.raw as int),
                    ),
                ),
            }
        }
    }

    open spec fn pi_spec() -> Self {
        Fixed { raw: 205887 }
    }

    open spec fn sine(self) -> Self {
        sine_of_folded(fold_angle(self))
    }

    open spec fn cosine(self) -> Self {
        self.sum(half_pi()).sine()
    }

    open spec fn tangent(self) -> Self {
        self.sine().quotient(self.cosine())
    }

    open spec fn byte_spec(self) -> u8 {
        if self.raw <= 0 {
            0
        } else if self.raw >= 255 * 65536 {
            255
        } else {
            (self.raw / 65536) as u8
        }
    }

    open spec fn is_number(self) -> bool {
        true
    }

    open spec fn le(self, rhs: Self) -> bool {
        self.raw <= rhs.raw
    }

    fn zero() -> (r: Self) {
        Fixed { raw: 0 }
    }

    fn one() -> (r: Self) {
        Fixed { raw: 65536 }
    }

    fn infinity() -> (r: Self) {
        Fixed { raw: i64::MAX }
    }

    fn ratio(num: i64, den: i64) -> (r: Self) {
        Fixed { raw: num }.over_raw(den)
    }

    fn unit_sample(bits: u64) -> (r: Self) {
        Fixed { raw: (bits / 0x1_0000_0000_0000) as i64 }
    }

    fn plus(self, rhs: Self) -> (r: Self) {
        let s: i128 = self.raw as i128 + rhs.raw as i128;
        Fixed { raw: signed(s < 0, if s < 0 { (-s) as u128 } else { s as u128 }) }
    }

    fn minus(self, rhs: Self) -> (r: Self) {
        let s: i128 = self.raw as i128 - rhs.raw as i128;
        Fixed { raw: signed(s < 0, if s < 0 { (-s) as u128 } else { s as u128 }) }
    }

    fn times(self, rhs: Self) -> (r: Self) {
        let a = magnitude(self.raw);
        let b = magnitude(rhs.raw);
        assert(a * b <= 0x8000_0000_0000_0000 * 0x8000_0000_0000_0000) by (nonlinear_arith)
            requires
                a <= 0x8000_0000_0000_0000,
                b <= 0x8000_0000_0000_0000,
        ;
        let m = a * b / 65536;
        Fixed { raw: signed((self.raw < 0) != (rhs.raw < 0), m) }
    }

    fn over(self, rhs: Self) -> (r: Self) {
        self.over_raw(rhs.raw)
    }

    fn neg(self) -> (r: Self) {
        Fixed { raw: signed(self.raw >= 0, magnitude(self.raw)) }
    }

    fn abs(self) -> (r: Self) {
        Fixed { raw: signed(false, magnitude(self.raw)) }
    }

    fn sqrt(self) -> (r: Self) {
        if self.raw <= 0 {
            Fixed { raw: 0 }
        } else {
            let n: u128 = (self.raw as u128) * 65536;
            let root = isqrt(n);
            Fixed { raw: root as i64 }
        }
    }

    fn cbrt(self) -> (r: Self) {
        let a = magnitude(self.raw);
        assert(a * 0x1_0000_0000 <= 0x8000_0000_0000_0000_0000_0000) by (nonlinear_arith)
            requires
                a <= 0x8000_0000_0000_0000,
        ;
        let root = icbrt(a * 0x1_0000_0000);
        Fixed { raw: signed(self.raw < 0, root) }
    }

    fn floor(self) -> (r: Self) {
        let shifted: u128 = (self.raw as i128 + 0x8000_0000_0000_0000) as u128;
        let part: u128 = shifted % 65536;
        proof {
            assert((self.raw + 0x8000_0000_0000_0000int) % 65536 == self.raw % 65536) by {
                vstd::arithmetic::div_mod::lemma_mod_add_multiples_vanish(
                    self.raw as int,
                    65536,
                );
                vstd::arithmetic::div_mod::lemma_mod_multiples_vanish(
                    0x8000_0000_0000int,
                    self.raw as int,
                    65536,
                );
            }
        }
        Fixed { raw: (self.raw as i128 - part as i128) as i64 }
    }

    fn pi() -> (r: Self) {
        Fixed { raw: 205887 }
    }

    fn sin(self) -> (r: Self) {
        let x = fold(self);
        let x2 = x.times(x);
        let x3 = x2.times(x);
        let x5 = x3.times(x2);
        let x7 = x5.times(x2);
        x.minus(x3.over(Fixed::from_int(6))).plus(x5.over(Fixed::from_int(120))).minus(
            x7.over(Fixed::from_int(5040)),
        )
    }

    fn cos(self) -> (r: Self) {
        self.plus(Fixed { raw: 102943 }).sin()
    }

    fn tan(self) -> (r: Self) {
        self.sin().over(self.cos())
    }

    fn rem(self, rhs: Self) -> (r: Self) {
        if rhs.raw == 0 {
            Fixed { raw: 0 }
        } else {
            let a = magnitude(self.raw);
            let b = magnitude(rhs.raw);
            Fixed { raw: signed(self.raw < 0, a % b) }
        }
    }

    fn to_byte(self) -> (r: u8) {
        if self.raw <= 0 {
            0
        } else if self.raw >= 255 * 65536 {
            255
        } else {
            ((self.raw as u64) / 65536) as u8
        }
    }

    fn at_most(self, rhs: Self) -> (r: bool) {
        self.raw <= rhs.raw
    }

    proof fn le_numbers(a: Self, b: Self) {
    }

    proof fn le_total(a: Self, b: Self) {
    }

    proof fn le_transitive(a: Self, b: Self, c: Self) {
    }

    proof fn zero_is_number() {
    }

    proof fn ratio_is_number(num: i64, den: i64) {
    }

    proof fn infinity_is_greatest(a: Self) {
    }
}

/// Every whole number from zero up has an integer square root.
pub proof fn sqrt_floor_is_root(n: int)
    requires
        0 <= n,
    ensures
        is_sqrt(n, sqrt_floor(n)),
    decreases n,
{
    if n == 0 {
        assert(is_sqrt(0, 0));
    } else {
        sqrt_floor_is_root(n - 1);
        let r = sqrt_floor(n - 1);
        if n < (r + 1) * (r + 1) {
            assert(is_sqrt(n, r));
        } else {
            assert((r + 2) * (r + 2) > (r + 1) * (r + 1)) by (nonlinear_arith)
                requires
                    0 <= r,
            ;
            assert(is_sqrt(n, r + 1));
        }
    }
}

/// Division keeps the order of what is divided, where the divisor is not
/// below zero.
pub proof fn quotient_keeps_order(x: Fixed, y: Fixed, d: Fixed)
    requires
        x.raw <= y.raw,
        0 <= d.raw,
    ensures
        x.quotient(d).raw <= y.quotient(d).raw,
{
    if d.raw > 0 {
        let m = d.raw as int;
        let a = magnitude_spec(x.raw as int) * 65536;
        let b = magnitude_spec(y.raw as int) * 65536;
        vstd::arithmetic::div_mod::lemma_div_pos_is_pos(a, m);
        vstd::arithmetic::div_mod::lemma_div_pos_is_pos(b, m);
        if 0 <= x.raw {
            vstd::arithmetic::div_mod::lemma_div_is_ordered(a, b, m);
        } else if y.raw < 0 {
            vstd::arithmetic::div_mod::lemma_div_is_ordered(b, a, m);
        }
    }
}

/// Division by a number below zero turns the order of what is divided
/// around.
pub proof fn quotient_turns_order(x: Fixed, y: Fixed, d: Fixed)
    requires
        x.raw <= y.raw,
        d.raw < 0,
    ensures
        y.quotient(d).raw <= x.quotient(d).raw,
{
    let m = magnitude_spec(d.raw as int);
    let a = magnitude_spec(x.raw as int) * 65536;
    let b = magnitude_spec(y.raw as int) * 65536;
    vstd::arithmetic::div_mod::lemma_div_pos_is_pos(a, m);
    vstd::arithmetic::div_mod::lemma_div_pos_is_pos(b, m);
    if 0 <= x.raw {
        vstd::arithmetic::div_mod::lemma_div_is_ordered(a, b, m);
    } else if y.raw < 0 {
        vstd::arithmetic::div_mod::lemma_div_is_ordered(b, a, m);
    }
}

/// The product of a number with itself is not below zero.
pub proof fn square_is_not_negative(x: Fixed)
    ensures
        0 <= x.product(x).raw,
{
    let m = magnitude_spec(x.raw as int);
    assert(0 <= m * m) by (nonlinear_arith)
        requires
            0 <= m,
    ;
    vstd::arithmetic::div_mod::lemma_div_pos_is_pos(m * m, 65536);
}

/// A square root is not below zero.
pub proof fn root_is_not_negative(x: Fixed)
    ensures
        0 <= x.square_root().raw,
{
    if x.raw > 0 {
        let n = x.raw * 65536;
        sqrt_floor_is_root(n);
        let r = sqrt_floor(n);
        // The root of a number this small fits.
        assert(r < 0x100_0000_0000) by (nonlinear_arith)
            requires
                0 <= r,
                r * r <= n,
                n < 0x1_0000_0000_0000_0000_0000,
        ;
    }
}

/// Adding to zero, multiplying by one and dividing one by one change
/// nothing.
pub proof fn units_change_nothing(x: Fixed)
    ensures
        Fixed::zero_spec().sum(x) == x,
        x.product(Fixed::one_spec()) == x,
        Fixed::one_spec().quotient(Fixed::ratio_spec(1, 1)) == Fixed::one_spec(),
        Fixed::zero_spec().product(x) == Fixed::zero_spec(),
{
    let m = magnitude_spec(x.raw as int);
    vstd::arithmetic::div_mod::lemma_div_by_multiple(m, 65536);
    vstd::arithmetic::div_mod::lemma_div_by_multiple(1, 65536);
    vstd::arithmetic::div_mod::lemma_div_by_multiple(65536, 65536);
    assert(0 * m == 0);
    assert(0int / 65536 == 0);
    assert(1 * 65536 / 1 == 65536int);
}

} // verus!
