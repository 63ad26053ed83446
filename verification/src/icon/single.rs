//! Single-precision numbers in whole-number arithmetic: 24 significant binary
//! places, and every result rounded to the nearest number, halves to the even
//! one. Only numbers that are not negative occur.
//!
//! Exponents are not limited here. Where image sides are below 2^32, no number
//! that resampling meets is 2^128 or more, and one below 2^-126 only ever has a
//! half added to it, beside which it does not count: so the limits of the usual
//! format would make no difference.

use vstd::prelude::*;

verus! {

/// The least mantissa of a number that is not zero.
pub const LEAST: u32 = 0x80_0000;

/// The bound below which mantissas stay.
pub const LIMIT: u32 = 0x100_0000;

/// The number `mantissa * 2^exponent`.
#[derive(Debug, Clone, Copy, PartialEq, Eq, Structural)]
pub struct Single {
    pub mantissa: u32,
    pub exponent: i32,
}

/// The number `mantissa * 2^exponent`.
pub struct Dyadic {
    pub mantissa: int,
    pub exponent: int,
}

impl View for Single {
    type V = Dyadic;

    open spec fn view(&self) -> Dyadic {
        Dyadic { mantissa: self.mantissa as int, exponent: self.exponent as int }
    }
}

impl Dyadic {
    /// Whether the number is written in its one form: the mantissa has all of
    /// its places, or the number is zero.
    pub open spec fn normal(self) -> bool {
        self == zero() || LEAST <= self.mantissa < LIMIT
    }
}

/// Zero.
pub open spec fn zero() -> Dyadic {
    Dyadic { mantissa: 0, exponent: 0 }
}

/// Two to the power of `k`.
pub open spec fn two_to(k: nat) -> int
    decreases k,
{
    if k == 0 {
        1
    } else {
        2 * two_to((k - 1) as nat)
    }
}

/// How many places of `n` are too many.
pub open spec fn excess(n: int) -> nat
    decreases n,
{
    if n < LIMIT {
        0
    } else {
        excess(n / 2) + 1
    }
}

/// How many times `unit` goes into `n`, rounded to the nearest, halves to the
/// even one.
pub open spec fn nearest(n: int, unit: int) -> int {
    let q = n / unit;
    let r = n % unit;
    if 2 * r > unit || (2 * r == unit && q % 2 == 1) {
        q + 1
    } else {
        q
    }
}

/// `n * 2^e` with all of the mantissa's places.
pub open spec fn lifted(n: int, e: int) -> Dyadic
    decreases LIMIT - n,
{
    if n <= 0 {
        zero()
    } else if n >= LEAST {
        Dyadic { mantissa: n, exponent: e }
    } else {
        lifted(2 * n, e - 1)
    }
}

/// `n * 2^e`, rounded.
pub open spec fn rounded(n: int, e: int) -> Dyadic {
    let k = excess(n);
    let q = nearest(n, two_to(k));
    if q == LIMIT {
        Dyadic { mantissa: LEAST as int, exponent: e + k + 1 }
    } else {
        lifted(q, e + k)
    }
}

/// The lesser of two exponents.
pub open spec fn lower(x: Dyadic, y: Dyadic) -> int {
    if x.exponent < y.exponent {
        x.exponent
    } else {
        y.exponent
    }
}

/// How many times `2^e` goes into a number, `e` being no greater than its
/// exponent.
pub open spec fn at_exponent(x: Dyadic, e: int) -> int {
    x.mantissa * two_to((x.exponent - e) as nat)
}

/// A whole number.
pub open spec fn single_of(n: int) -> Dyadic {
    rounded(n, 0)
}

/// One.
pub open spec fn one() -> Dyadic {
    Dyadic { mantissa: LEAST as int, exponent: -23 }
}

/// The product of two numbers.
pub open spec fn product(x: Dyadic, y: Dyadic) -> Dyadic {
    rounded(x.mantissa * y.mantissa, x.exponent + y.exponent)
}

/// The sum of two numbers.
pub open spec fn sum(x: Dyadic, y: Dyadic) -> Dyadic {
    let e = lower(x, y);
    rounded(at_exponent(x, e) + at_exponent(y, e), e)
}

/// The difference of two numbers, or zero where it would be negative.
pub open spec fn difference(x: Dyadic, y: Dyadic) -> Dyadic {
    let e = lower(x, y);
    let d = at_exponent(x, e) - at_exponent(y, e);
    if d <= 0 {
        zero()
    } else {
        rounded(d, e)
    }
}

/// The quotient of two numbers, of which the second is not zero. It is rounded
/// from its first places and a last one that only says whether there is more.
pub open spec fn quotient(x: Dyadic, y: Dyadic) -> Dyadic {
    let n = x.mantissa * 0x400_0000;
    let more = if n % y.mantissa == 0 {
        0int
    } else {
        1
    };
    rounded(2 * (n / y.mantissa) + more, x.exponent - y.exponent - 27)
}

/// Whether the first number is not above the second.
pub open spec fn not_above(x: Dyadic, y: Dyadic) -> bool {
    let e = lower(x, y);
    at_exponent(x, e) <= at_exponent(y, e)
}

/// The lesser of two numbers.
pub open spec fn lesser(x: Dyadic, y: Dyadic) -> Dyadic {
    if not_above(x, y) {
        x
    } else {
        y
    }
}

/// The greater of two numbers.
pub open spec fn greater(x: Dyadic, y: Dyadic) -> Dyadic {
    if not_above(x, y) {
        y
    } else {
        x
    }
}

/// The greatest whole number that is not above `x`.
pub open spec fn whole(x: Dyadic) -> int {
    if x.exponent >= 0 {
        x.mantissa * two_to(x.exponent as nat)
    } else {
        x.mantissa / two_to((-x.exponent) as nat)
    }
}

/// The least whole number that is not below `x`.
pub open spec fn whole_up(x: Dyadic) -> int {
    if x.exponent >= 0 {
        x.mantissa * two_to(x.exponent as nat)
    } else {
        let unit = two_to((-x.exponent) as nat);
        (x.mantissa + unit - 1) / unit
    }
}

// ---------------------------------------------------------------------------
// Powers of two and rounding.
// ---------------------------------------------------------------------------

proof fn lemma_two_to_positive(k: nat)
    ensures
        two_to(k) >= 1,
    decreases k,
{
    if k > 0 {
        lemma_two_to_positive((k - 1) as nat);
    }
}

proof fn lemma_two_to_grows(a: nat, b: nat)
    requires
        a <= b,
    ensures
        1 <= two_to(a) <= two_to(b),
    decreases b,
{
    lemma_two_to_positive(a);
    if a < b {
        lemma_two_to_grows(a, (b - 1) as nat);
    }
}

proof fn lemma_two_to_adds(a: nat, b: nat)
    ensures
        two_to(a + b) == two_to(a) * two_to(b),
    decreases b,
{
    if b > 0 {
        lemma_two_to_adds(a, (b - 1) as nat);
        let x = two_to(a);
        let y = two_to((b - 1) as nat);
        assert(two_to(a + b) == 2 * two_to((a + b - 1) as nat));
        assert(2 * (x * y) == x * (2 * y)) by (nonlinear_arith);
    } else {
        assert(two_to(a) * 1 == two_to(a));
    }
}

proof fn lemma_two_to_values()
    ensures
        two_to(1) == 2,
        two_to(24) == 0x100_0000,
        two_to(25) == 0x200_0000,
        two_to(26) == 0x400_0000,
        two_to(50) == 0x4_0000_0000_0000,
{
    reveal_with_fuel(two_to, 27);
    lemma_two_to_adds(25, 25);
}

/// A mantissa that is followed by `d` more places has `d` places too many.
proof fn lemma_excess(m: int, d: nat, r: int)
    requires
        LEAST <= m < LIMIT,
        0 <= r < two_to(d),
    ensures
        excess(m * two_to(d) + r) == d,
    decreases d,
{
    let n = m * two_to(d) + r;
    if d == 0 {
        assert(m * 1 == m);
    } else {
        let half = two_to((d - 1) as nat);
        lemma_two_to_positive((d - 1) as nat);
        assert(m * (2 * half) == 2 * (m * half)) by (nonlinear_arith);
        assert(n / 2 == m * half + r / 2);
        lemma_excess(m, (d - 1) as nat, r / 2);
        assert(m * half >= m) by (nonlinear_arith)
            requires
                m >= 0,
                half >= 1,
        ;
        assert(n >= LIMIT);
    }
}

proof fn lemma_quotient_of(m: int, unit: int, r: int)
    requires
        0 <= r < unit,
    ensures
        (m * unit + r) / unit == m,
        (m * unit + r) % unit == r,
{
    vstd::arithmetic::div_mod::lemma_fundamental_div_mod_converse(m * unit + r, unit, m, r);
}

/// A number comes back when it is written with more places and rounded, and so
/// it does with something added that is too little to count.
proof fn lemma_rounded_back(m: int, d: nat, r: int, e: int)
    requires
        LEAST <= m < LIMIT,
        0 <= r,
        2 * r < two_to(d),
    ensures
        rounded(m * two_to(d) + r, e) == (Dyadic { mantissa: m, exponent: e + d }),
{
    lemma_two_to_positive(d);
    lemma_excess(m, d, r);
    lemma_quotient_of(m, two_to(d), r);
}

/// The same with something taken away.
proof fn lemma_rounded_back_from_below(m: int, d: nat, r: int, e: int)
    requires
        LEAST <= m < LIMIT,
        0 < r,
        d >= 2,
        4 * r < two_to(d),
    ensures
        rounded(m * two_to(d) - r, e) == (Dyadic { mantissa: m, exponent: e + d }),
{
    let unit = two_to(d);
    let half = two_to((d - 1) as nat);
    assert(unit == 2 * half);
    let n = m * unit - r;
    if m > LEAST {
        let rest = unit - r;
        assert((m - 1) * unit + rest == n) by (nonlinear_arith)
            requires
                rest == unit - r,
                n == m * unit - r,
        ;
        lemma_excess(m - 1, d, rest);
        lemma_quotient_of(m - 1, unit, rest);
        assert(nearest(n, unit) == m);
    } else {
        let all = LIMIT - 1;
        let rest = half - r;
        assert(all * half + rest == n) by (nonlinear_arith)
            requires
                all == 2 * m - 1,
                rest == half - r,
                unit == 2 * half,
                n == m * unit - r,
        ;
        lemma_excess(all, (d - 1) as nat, rest);
        lemma_quotient_of(all, half, rest);
        assert(nearest(n, half) == LIMIT);
    }
}

proof fn lemma_excess_bound(n: int, k: nat)
    requires
        n < LIMIT * two_to(k),
    ensures
        excess(n) <= k,
    decreases k,
{
    if n >= LIMIT {
        if k == 0 {
            assert(LIMIT * 1 == LIMIT);
        } else {
            let half = two_to((k - 1) as nat);
            assert(LIMIT * (2 * half) == 2 * (LIMIT * half)) by (nonlinear_arith);
            lemma_excess_bound(n / 2, (k - 1) as nat);
        }
    }
}

proof fn lemma_lifted(n: int, e: int)
    requires
        0 < n < LIMIT,
    ensures
        lifted(n, e).normal(),
        lifted(n, e).mantissa > 0,
        e - 23 <= lifted(n, e).exponent <= e,
{
    reveal_with_fuel(two_to, 24);
    assert(n * 0x80_0000 >= LEAST);
    lemma_lifted_by(n, e, 23);
}

proof fn lemma_lifted_by(n: int, e: int, k: nat)
    requires
        0 < n < LIMIT,
        n * two_to(k) >= LEAST,
    ensures
        lifted(n, e).normal(),
        lifted(n, e).mantissa > 0,
        e - k <= lifted(n, e).exponent <= e,
    decreases k,
{
    if n < LEAST {
        if k == 0 {
            assert(n * 1 == n);
        } else {
            let half = two_to((k - 1) as nat);
            assert(n * (2 * half) == (2 * n) * half) by (nonlinear_arith);
            lemma_lifted_by(2 * n, e - 1, (k - 1) as nat);
        }
    }
}

/// What is rounded is in its one form, at most 23 exponents below and, with `k`
/// places too many, `k + 1` above.
proof fn lemma_rounded(n: int, e: int, k: nat)
    requires
        0 < n < LIMIT * two_to(k),
    ensures
        rounded(n, e).normal(),
        rounded(n, e).mantissa > 0,
        e - 23 <= rounded(n, e).exponent <= e + k + 1,
        n >= LEAST ==> rounded(n, e).exponent >= e + excess(n),
{
    lemma_excess_bound(n, k);
    let unit = two_to(excess(n));
    lemma_excess_fits(n);
    lemma_two_to_positive(excess(n));
    let q = nearest(n, unit);
    assert(0 < q <= LIMIT);
    if q < LIMIT {
        lemma_lifted(q, e + excess(n));
        if excess(n) > 0 {
            assert(q >= LEAST);
        }
    }
}

proof fn lemma_excess_at_least(n: int, d: nat)
    requires
        n >= LEAST * two_to(d),
    ensures
        excess(n) >= d,
        n >= LEAST,
    decreases d,
{
    if d == 0 {
        assert(LEAST * 1 == LEAST);
    } else {
        let half = two_to((d - 1) as nat);
        lemma_two_to_positive((d - 1) as nat);
        assert(LEAST * (2 * half) == 2 * (LEAST * half)) by (nonlinear_arith);
        lemma_excess_at_least(n / 2, (d - 1) as nat);
    }
}

/// Without the places that are too many, a number fits.
proof fn lemma_excess_fits(n: int)
    requires
        n > 0,
    ensures
        0 <= n / two_to(excess(n)) < LIMIT,
        excess(n) > 0 ==> n / two_to(excess(n)) >= LEAST,
        n / two_to(excess(n)) > 0,
    decreases n,
{
    if n >= LIMIT {
        lemma_excess_fits(n / 2);
        let k = excess(n / 2);
        lemma_two_to_positive(k);
        vstd::arithmetic::div_mod::lemma_div_denominator(n, 2, two_to(k));
        if k == 0 {
            assert(n / 2 / 1 == n / 2);
        }
    } else {
        assert(n / 1 == n);
    }
}

// ---------------------------------------------------------------------------
// Arithmetic.
// ---------------------------------------------------------------------------

/// `n * 2^e`, rounded.
fn round(n: u128, e: i32) -> (x: Single)
    requires
        n < 0x1_0000_0000_0000_0000,
        -0x1000_0000 <= e <= 0x1000_0000,
    ensures
        x@ == rounded(n as int, e as int),
{
    if n == 0 {
        assert(nearest(0, 1) == 0);
        return Single { mantissa: 0, exponent: 0 };
    }
    let mut top: u128 = n;
    let mut unit: u128 = 1;
    let mut k: i32 = 0;
    while top >= 0x100_0000
        invariant
            0 < top <= n < 0x1_0000_0000_0000_0000,
            0 <= k,
            unit == two_to(k as nat),
            unit * top <= n,
            k <= unit <= 0x200_0000_0000,
            excess(n as int) == k + excess(top as int),
        decreases top,
    {
        proof {
            let t = top as int;
            let half = t / 2;
            let u = unit as int;
            assert(2 * u * half <= u * t) by (nonlinear_arith)
                requires
                    2 * half <= t,
                    u >= 0,
            ;
            assert(u <= n as int / 0x100_0000) by (nonlinear_arith)
                requires
                    u * t <= n as int,
                    t >= 0x100_0000,
                    u >= 0,
            ;
            lemma_small_power(k as nat);
        }
        top = top / 2;
        unit = unit * 2;
        k = k + 1;
    }
    let q: u128 = n / unit;
    let r: u128 = n % unit;
    proof {
        lemma_excess_fits(n as int);
        lemma_small_power(k as nat);
    }
    let nearest_q: u128 = if 2 * r > unit || (2 * r == unit && q % 2 == 1) {
        q + 1
    } else {
        q
    };
    if nearest_q == 0x100_0000 {
        return Single { mantissa: LEAST, exponent: e + k + 1 };
    }
    lift(nearest_q as u32, e + k)
}

proof fn lemma_small_power(k: nat)
    requires
        two_to(k) <= 0x200_0000_0000,
    ensures
        k <= 41,
{
    if k > 41 {
        lemma_two_to_grows(42, k);
        lemma_two_to_adds(21, 21);
        reveal_with_fuel(two_to, 22);
    }
}

/// `n * 2^e` with all of the mantissa's places.
fn lift(n: u32, e: i32) -> (x: Single)
    requires
        0 < n < LIMIT,
        -0x2000_0000 <= e <= 0x2000_0000,
    ensures
        x@ == lifted(n as int, e as int),
{
    let mut mantissa: u32 = n;
    let mut exponent: i32 = e;
    while mantissa < LEAST
        invariant
            0 < mantissa < LIMIT,
            e - exponent < mantissa,
            e >= -0x2000_0000,
            exponent <= e,
            lifted(n as int, e as int) == lifted(mantissa as int, exponent as int),
        decreases LIMIT - mantissa,
    {
        mantissa = mantissa * 2;
        exponent = exponent - 1;
    }
    Single { mantissa, exponent }
}

/// What a sum comes to where the exponents lie far apart: the greater number.
proof fn lemma_sum_of_distant(x: Dyadic, y: Dyadic)
    requires
        LEAST <= x.mantissa < LIMIT,
        0 <= y.mantissa < LIMIT,
        x.exponent - y.exponent >= 26,
    ensures
        sum(x, y) == x,
        sum(y, x) == x,
{
    let d = (x.exponent - y.exponent) as nat;
    lemma_two_to_values();
    lemma_two_to_grows(26, d);
    assert(two_to(0) == 1 && y.mantissa * 1 == y.mantissa);
    lemma_rounded_back(x.mantissa, d, y.mantissa, y.exponent);
}

/// Adding zero changes nothing.
proof fn lemma_sum_with_zero(x: Dyadic)
    requires
        x.normal(),
    ensures
        sum(x, zero()) == x,
        sum(zero(), x) == x,
{
    let e = lower(x, zero());
    let d = (x.exponent - e) as nat;
    lemma_two_to_positive(d);
    assert(0 * two_to((0 - e) as nat) == 0) by (nonlinear_arith);
    if x == zero() {
        assert(0 * two_to(d) == 0) by (nonlinear_arith);
        assert(nearest(0, 1) == 0);
    } else {
        lemma_rounded_back(x.mantissa, d, 0, e);
    }
}

proof fn lemma_difference_of_distant(x: Dyadic, y: Dyadic)
    requires
        LEAST <= x.mantissa < LIMIT,
        0 < y.mantissa < LIMIT,
        x.exponent - y.exponent >= 27,
    ensures
        difference(x, y) == x,
{
    let d = (x.exponent - y.exponent) as nat;
    lemma_two_to_values();
    assert(two_to(27) == 2 * two_to(26));
    lemma_two_to_grows(27, d);
    assert(two_to(0) == 1 && y.mantissa * 1 == y.mantissa);
    let unit = two_to(d);
    assert(x.mantissa * unit >= unit) by (nonlinear_arith)
        requires
            x.mantissa >= 1,
            unit >= 1,
    ;
    lemma_rounded_back_from_below(x.mantissa, d, y.mantissa, y.exponent);
}

/// Numbers in their one form are ordered by their exponents first.
proof fn lemma_order(x: Dyadic, y: Dyadic)
    requires
        LEAST <= x.mantissa < LIMIT,
        LEAST <= y.mantissa < LIMIT,
    ensures
        not_above(x, y) <==> x.exponent < y.exponent || (x.exponent == y.exponent && x.mantissa
            <= y.mantissa),
        x.exponent < y.exponent ==> at_exponent(x, lower(x, y)) < at_exponent(y, lower(x, y)),
{
    assert(two_to(0) == 1 && x.mantissa * 1 == x.mantissa);
    assert(two_to(0) == 1 && y.mantissa * 1 == y.mantissa);
    if x.exponent < y.exponent {
        let d = (y.exponent - x.exponent) as nat;
        let unit = two_to(d);
        lemma_two_to_grows(1, d);
        lemma_two_to_values();
        assert(y.mantissa * unit > x.mantissa) by (nonlinear_arith)
            requires
                y.mantissa >= 0x80_0000,
                x.mantissa < 0x100_0000,
                unit >= 2,
        ;
    } else if y.exponent < x.exponent {
        let d = (x.exponent - y.exponent) as nat;
        let unit = two_to(d);
        lemma_two_to_grows(1, d);
        lemma_two_to_values();
        assert(x.mantissa * unit > y.mantissa) by (nonlinear_arith)
            requires
                x.mantissa >= 0x80_0000,
                y.mantissa < 0x100_0000,
                unit >= 2,
        ;
    }
}

pub proof fn zero_is_least(x: Dyadic, y: Dyadic)
    requires
        x.normal(),
        y.normal(),
    ensures
        x == zero() ==> not_above(x, y),
        y == zero() && x != zero() ==> !not_above(x, y),
{
    let e = lower(x, y);
    lemma_two_to_positive((x.exponent - e) as nat);
    lemma_two_to_positive((y.exponent - e) as nat);
    let a = two_to((x.exponent - e) as nat);
    let b = two_to((y.exponent - e) as nat);
    assert(0 * a == 0 && 0 * b == 0) by (nonlinear_arith);
    assert(x.mantissa >= 0 && y.mantissa >= 0);
    assert(y.mantissa * b >= 0) by (nonlinear_arith)
        requires
            y.mantissa >= 0,
            b >= 1,
    ;
    if x != zero() {
        assert(x.mantissa * a > 0) by (nonlinear_arith)
            requires
                x.mantissa > 0,
                a >= 1,
        ;
    }
}

/// Whether an exponent is within reach of the arithmetic.
pub open spec fn reachable(x: Single) -> bool {
    x@.normal() && -0x10_0000 <= x.exponent <= 0x10_0000
}

/// Two to the power of `k`.
fn power(k: u32) -> (p: u64)
    requires
        k <= 26,
    ensures
        p == two_to(k as nat),
        1 <= p <= 0x400_0000,
{
    let mut p: u64 = 1;
    let mut i: u32 = 0;
    proof {
        lemma_two_to_values();
    }
    while i < k
        invariant
            i <= k <= 26,
            p == two_to(i as nat),
            two_to(26) == 0x400_0000,
            1 <= p <= 0x400_0000,
        decreases k - i,
    {
        proof {
            lemma_two_to_grows((i + 1) as nat, 26);
        }
        p = p * 2;
        i = i + 1;
    }
    p
}

impl Single {
    /// Zero.
    pub fn zero() -> (x: Self)
        ensures
            x@ == zero(),
    {
        Single { mantissa: 0, exponent: 0 }
    }

    /// A whole number.
    pub fn of(n: u64) -> (x: Self)
        ensures
            x@ == single_of(n as int),
            x@.normal(),
            n > 0 ==> x.mantissa > 0,
            -23 <= x.exponent <= 42,
    {
        proof {
            if n > 0 {
                lemma_two_to_values();
                reveal_with_fuel(two_to, 21);
                lemma_two_to_adds(20, 20);
                lemma_rounded(n as int, 0, 40);
            } else {
                assert(nearest(0, 1) == 0);
            }
        }
        round(n as u128, 0)
    }

    /// The product of two numbers.
    pub fn times(self, other: Self) -> (x: Self)
        requires
            reachable(self),
            reachable(other),
        ensures
            x@ == product(self@, other@),
            x@.normal(),
            x.mantissa == 0 || self.exponent + other.exponent - 23 <= x.exponent <= self.exponent
                + other.exponent + 25,
    {
        proof {
            let a = self.mantissa as int;
            let b = other.mantissa as int;
            assert(0 <= a * b < 0x100_0000 * 0x100_0000) by (nonlinear_arith)
                requires
                    0 <= a < 0x100_0000,
                    0 <= b < 0x100_0000,
            ;
        }
        let n: u128 = self.mantissa as u128 * other.mantissa as u128;
        proof {
            lemma_two_to_values();
            if n > 0 {
                lemma_rounded(n as int, self.exponent + other.exponent, 24);
            } else {
                assert(nearest(0, 1) == 0);
            }
        }
        round(n, self.exponent + other.exponent)
    }

    /// The sum of two numbers.
    pub fn plus(self, other: Self) -> (x: Self)
        requires
            reachable(self),
            reachable(other),
        ensures
            x@ == sum(self@, other@),
            x@.normal(),
            self.mantissa == 0 ==> x == other,
            other.mantissa == 0 ==> x == self,
            self.mantissa > 0 && other.mantissa > 0 ==> {
                let (high, low) = if self.exponent >= other.exponent {
                    (self.exponent, other.exponent)
                } else {
                    (other.exponent, self.exponent)
                };
                x.mantissa > 0 && high <= x.exponent <= if high - low >= 26 {
                    high as int
                } else {
                    high + 2
                }
            },
    {
        if self.mantissa == 0 {
            proof {
                lemma_sum_with_zero(other@);
            }
            return other;
        }
        if other.mantissa == 0 {
            proof {
                lemma_sum_with_zero(self@);
            }
            return self;
        }
        let (high, low) = if self.exponent >= other.exponent {
            (self, other)
        } else {
            (other, self)
        };
        let apart: i32 = high.exponent - low.exponent;
        if apart >= 26 {
            proof {
                lemma_sum_of_distant(high@, low@);
            }
            return high;
        }
        let unit: u64 = power(apart as u32);
        proof {
            lemma_two_to_values();
            let m = high.mantissa as int;
            let u = unit as int;
            lemma_two_to_grows(apart as nat, 25);
            assert(0 < m * u < 0x100_0000 * u && m * u < 0x100_0000 * 0x200_0000)
                by (nonlinear_arith)
                requires
                    0 < m < 0x100_0000,
                    1 <= u <= 0x200_0000,
            ;
            assert(two_to(0) == 1 && low.mantissa * 1 == low.mantissa);
            assert(two_to((apart + 1) as nat) == 2 * u);
            assert(m * u >= LEAST * u) by (nonlinear_arith)
                requires
                    m >= LEAST,
                    u >= 0,
            ;
            lemma_excess_at_least(m * u + low.mantissa, apart as nat);
            lemma_rounded(m * u + low.mantissa, low.exponent as int, (apart + 1) as nat);
        }
        round(high.mantissa as u128 * unit as u128 + low.mantissa as u128, low.exponent)
    }

    /// Whether this number is not above another.
    pub fn is_at_most(self, other: Self) -> (least: bool)
        requires
            self@.normal(),
            other@.normal(),
        ensures
            least == not_above(self@, other@),
    {
        proof {
            zero_is_least(self@, other@);
            if self.mantissa > 0 && other.mantissa > 0 {
                lemma_order(self@, other@);
            }
        }
        if self.mantissa == 0 {
            true
        } else if other.mantissa == 0 {
            false
        } else {
            self.exponent < other.exponent || (self.exponent == other.exponent && self.mantissa
                <= other.mantissa)
        }
    }

    /// The difference to a number, or zero where it would be negative.
    pub fn minus(self, other: Self) -> (x: Self)
        requires
            reachable(self),
            reachable(other),
        ensures
            x@ == difference(self@, other@),
            x@.normal(),
            x.mantissa == 0 || x == self || other.exponent - 23 <= x.exponent <= self.exponent + 2,
    {
        if self.is_at_most(other) {
            return Single::zero();
        }
        proof {
            zero_is_least(self@, other@);
            zero_is_least(other@, self@);
        }
        if other.mantissa == 0 {
            proof {
                let e = lower(self@, other@);
                let d = (self.exponent - e) as nat;
                lemma_two_to_positive(d);
                assert(0 * two_to((0 - e) as nat) == 0) by (nonlinear_arith);
                lemma_rounded_back(self.mantissa as int, d, 0, e);
            }
            return self;
        }
        proof {
            lemma_order(self@, other@);
        }
        let apart: i32 = self.exponent - other.exponent;
        if apart >= 27 {
            proof {
                lemma_difference_of_distant(self@, other@);
            }
            return self;
        }
        let unit: u64 = power(apart as u32);
        proof {
            lemma_two_to_values();
            let m = self.mantissa as int;
            let u = unit as int;
            assert(0 < m * u < 0x100_0000 * u && m * u <= 0x100_0000 * 0x400_0000)
                by (nonlinear_arith)
                requires
                    0 < m < 0x100_0000,
                    1 <= u <= 0x400_0000,
            ;
            assert(two_to(0) == 1 && other.mantissa * 1 == other.mantissa);
            lemma_rounded(m * u - other.mantissa, other.exponent as int, apart as nat);
        }
        round(self.mantissa as u128 * unit as u128 - other.mantissa as u128, other.exponent)
    }

    /// The quotient by a number that is not zero.
    pub fn over(self, other: Self) -> (x: Self)
        requires
            reachable(self),
            reachable(other),
            other.mantissa > 0,
        ensures
            x@ == quotient(self@, other@),
            x@.normal(),
            x.mantissa == 0 || self.exponent - other.exponent - 50 <= x.exponent <= self.exponent
                - other.exponent + 2,
    {
        let n: u128 = self.mantissa as u128 * 0x400_0000;
        let q: u128 = n / other.mantissa as u128;
        let more: u128 = if n % other.mantissa as u128 == 0 {
            0
        } else {
            1
        };
        proof {
            lemma_two_to_values();
            let d = other.mantissa as int;
            let m = self.mantissa as int;
            assert(q <= m * 0x400_0000 / 0x80_0000) by (nonlinear_arith)
                requires
                    q == m * 0x400_0000 / d,
                    d >= 0x80_0000,
                    m >= 0,
            ;
            assert(2 * q + more < 0x100_0000 * 0x20);
            reveal_with_fuel(two_to, 6);
            if 2 * q + more > 0 {
                lemma_rounded(2 * q + more, self.exponent - other.exponent - 27, 5);
            } else {
                assert(nearest(0, 1) == 0);
            }
        }
        round(2 * q + more, self.exponent - other.exponent - 27)
    }
}

/// A whole number held at a limit.
pub open spec fn held_at(n: int, limit: int) -> int {
    if n < limit {
        n
    } else {
        limit
    }
}

fn hold_at(n: u64, limit: u64) -> (held: u64)
    ensures
        held == held_at(n as int, limit as int),
{
    if n < limit {
        n
    } else {
        limit
    }
}

impl Single {
    /// This number where it is whole and its exponent not negative, held at a
    /// limit.
    fn scaled_up(self, limit: u64) -> (n: u64)
        requires
            self@.normal(),
            self.exponent >= 0,
            limit <= 0x1_0000_0000,
        ensures
            n == held_at(self.mantissa * two_to(self.exponent as nat), limit as int),
    {
        proof {
            lemma_two_to_values();
            let m = self.mantissa as int;
            let u = two_to(self.exponent as nat);
            lemma_two_to_positive(self.exponent as nat);
            if self.exponent >= 26 {
                lemma_two_to_grows(26, self.exponent as nat);
                if m > 0 {
                    assert(m * u >= 0x1_0000_0000) by (nonlinear_arith)
                        requires
                            m >= 0x80_0000,
                            u >= 0x400_0000,
                    ;
                } else {
                    assert(m * u == 0) by (nonlinear_arith)
                        requires
                            m == 0,
                    ;
                }
            } else {
                lemma_two_to_grows(self.exponent as nat, 26);
                assert(0 <= m * u <= 0x100_0000 * 0x400_0000) by (nonlinear_arith)
                    requires
                        0 <= m <= 0x100_0000,
                        0 <= u <= 0x400_0000,
                ;
            }
        }
        if self.exponent >= 26 {
            return if self.mantissa == 0 {
                0
            } else {
                limit
            };
        }
        hold_at(self.mantissa as u64 * power(self.exponent as u32), limit)
    }

    /// The greatest whole number that is not above this one, held at a limit.
    pub fn floor(self, limit: u64) -> (n: u64)
        requires
            reachable(self),
            limit <= 0x1_0000_0000,
        ensures
            n == held_at(whole(self@), limit as int),
    {
        if self.exponent >= 0 {
            return self.scaled_up(limit);
        }
        proof {
            lemma_two_to_values();
            lemma_two_to_positive((-self.exponent) as nat);
        }
        if self.exponent < -25 {
            proof {
                lemma_two_to_grows(26, (-self.exponent) as nat);
                lemma_quotient_of(0, two_to((-self.exponent) as nat), self.mantissa as int);
            }
            return 0;
        }
        hold_at(self.mantissa as u64 / power((-self.exponent) as u32), limit)
    }

    /// The least whole number that is not below this one, held at a limit.
    pub fn ceil(self, limit: u64) -> (n: u64)
        requires
            reachable(self),
            limit <= 0x1_0000_0000,
        ensures
            n == held_at(whole_up(self@), limit as int),
    {
        if self.exponent >= 0 {
            return self.scaled_up(limit);
        }
        proof {
            lemma_two_to_values();
            lemma_two_to_positive((-self.exponent) as nat);
        }
        if self.exponent < -25 {
            proof {
                let unit = two_to((-self.exponent) as nat);
                lemma_two_to_grows(26, (-self.exponent) as nat);
                lemma_quotient_of(1, unit, self.mantissa - 1);
                assert(1 * unit + (self.mantissa - 1) == self.mantissa + unit - 1);
            }
            return hold_at(1, limit);
        }
        let unit: u64 = power((-self.exponent) as u32);
        hold_at((self.mantissa as u64 + unit - 1) / unit, limit)
    }

    /// The lesser of two numbers.
    pub fn min(self, other: Self) -> (x: Self)
        requires
            self@.normal(),
            other@.normal(),
        ensures
            x@ == lesser(self@, other@),
            x == self || x == other,
    {
        if self.is_at_most(other) {
            self
        } else {
            other
        }
    }

    /// The greater of two numbers.
    pub fn max(self, other: Self) -> (x: Self)
        requires
            self@.normal(),
            other@.normal(),
        ensures
            x@ == greater(self@, other@),
            x == self || x == other,
            self.mantissa > 0 || other.mantissa > 0 ==> x.mantissa > 0,
    {
        proof {
            zero_is_least(self@, other@);
        }
        if self.is_at_most(other) {
            other
        } else {
            self
        }
    }
}

// ---------------------------------------------------------------------------
// Laws.
// ---------------------------------------------------------------------------

/// What is rounded is in its one form.
proof fn lemma_rounded_normal(n: int, e: int)
    requires
        n >= 0,
    ensures
        rounded(n, e).normal(),
        n > 0 ==> rounded(n, e) != zero(),
{
    if n == 0 {
        assert(nearest(0, 1) == 0);
    } else {
        let k = excess(n);
        let unit = two_to(k);
        lemma_excess_fits(n);
        lemma_two_to_positive(k);
        vstd::arithmetic::div_mod::lemma_fundamental_div_mod(n, unit);
        let q = n / unit;
        assert(n < 0x100_0000 * unit) by (nonlinear_arith)
            requires
                n == unit * q + n % unit,
                n % unit < unit,
                q < 0x100_0000,
                unit > 0,
        ;
        lemma_rounded(n, e, k);
    }
}

/// The results of the arithmetic are in their one form.
pub proof fn results_are_normal(x: Dyadic, y: Dyadic)
    requires
        x.normal(),
        y.normal(),
    ensures
        product(x, y).normal(),
        sum(x, y).normal(),
        difference(x, y).normal(),
        y != zero() ==> quotient(x, y).normal(),
{
    let e = lower(x, y);
    let a = two_to((x.exponent - e) as nat);
    let b = two_to((y.exponent - e) as nat);
    lemma_two_to_positive((x.exponent - e) as nat);
    lemma_two_to_positive((y.exponent - e) as nat);
    assert(x.mantissa * y.mantissa >= 0 && x.mantissa * a >= 0 && y.mantissa * b >= 0)
        by (nonlinear_arith)
        requires
            x.mantissa >= 0,
            y.mantissa >= 0,
            a >= 1,
            b >= 1,
    ;
    lemma_rounded_normal(x.mantissa * y.mantissa, x.exponent + y.exponent);
    lemma_rounded_normal(x.mantissa * a + y.mantissa * b, e);
    if x.mantissa * a - y.mantissa * b > 0 {
        lemma_rounded_normal(x.mantissa * a - y.mantissa * b, e);
    }
    if y != zero() {
        let n = x.mantissa * 0x400_0000;
        assert(n / y.mantissa >= 0) by (nonlinear_arith)
            requires
                n >= 0,
                y.mantissa > 0,
        ;
        let more = if n % y.mantissa == 0 {
            0int
        } else {
            1
        };
        lemma_rounded_normal(2 * (n / y.mantissa) + more, x.exponent - y.exponent - 27);
    }
}

/// A number at a lower exponent.
proof fn lemma_lower_exponent(x: Dyadic, b: int, c: int)
    requires
        c <= b <= x.exponent,
    ensures
        at_exponent(x, c) == at_exponent(x, b) * two_to((b - c) as nat),
{
    let d = (x.exponent - b) as nat;
    let k = (b - c) as nat;
    lemma_two_to_adds(d, k);
    assert(d + k == x.exponent - c);
    let m = x.mantissa;
    let p = two_to(d);
    let q = two_to(k);
    assert(m * (p * q) == m * p * q) by (nonlinear_arith);
}

/// Numbers can be compared at any exponent that is low enough.
proof fn lemma_compared_at(x: Dyadic, y: Dyadic, b: int)
    requires
        b <= lower(x, y),
    ensures
        not_above(x, y) <==> at_exponent(x, b) <= at_exponent(y, b),
{
    let e = lower(x, y);
    let unit = two_to((e - b) as nat);
    lemma_two_to_positive((e - b) as nat);
    lemma_lower_exponent(x, e, b);
    lemma_lower_exponent(y, e, b);
    let p = at_exponent(x, e);
    let q = at_exponent(y, e);
    assert(p <= q <==> p * unit <= q * unit) by (nonlinear_arith)
        requires
            unit >= 1,
    ;
}

proof fn lemma_lifted_at(n: int, e: int, b: int)
    requires
        0 <= n < LIMIT,
        b <= e - 23,
        b <= 0,
    ensures
        b <= lifted(n, e).exponent,
        at_exponent(lifted(n, e), b) == n * two_to((e - b) as nat),
    decreases LIMIT - n,
{
    if n == 0 {
        assert(0 * two_to((0 - b) as nat) == 0) by (nonlinear_arith);
        assert(0 * two_to((e - b) as nat) == 0) by (nonlinear_arith);
    } else {
        lemma_lifted(n, e);
        lemma_lifted_up(n, e, b);
    }
}

proof fn lemma_lifted_up(n: int, e: int, b: int)
    requires
        0 < n < LIMIT,
        b <= lifted(n, e).exponent,
        lifted(n, e).exponent <= e,
    ensures
        at_exponent(lifted(n, e), b) == n * two_to((e - b) as nat),
    decreases LIMIT - n,
{
    if n < LEAST {
        lemma_lifted(2 * n, e - 1);
        assert(lifted(n, e) == lifted(2 * n, e - 1));
        lemma_lifted_up(2 * n, e - 1, b);
        let half = two_to((e - 1 - b) as nat);
        assert(two_to((e - b) as nat) == 2 * half);
        assert(n * (2 * half) == 2 * n * half) by (nonlinear_arith);
    }
}

/// What is rounded, at a low exponent.
proof fn lemma_rounded_at(n: int, e: int, b: int)
    requires
        n >= 0,
        b <= e - 23,
        b <= 0,
    ensures
        b <= rounded(n, e).exponent,
        at_exponent(rounded(n, e), b) == nearest(n, two_to(excess(n))) * two_to(
            (e + excess(n) - b) as nat,
        ),
        0 <= nearest(n, two_to(excess(n))) <= LIMIT,
        excess(n) > 0 ==> nearest(n, two_to(excess(n))) >= LEAST,
{
    let k = excess(n);
    let unit = two_to(k);
    lemma_two_to_positive(k);
    if n == 0 {
        assert(nearest(0, 1) == 0);
    } else {
        lemma_excess_fits(n);
    }
    let q = nearest(n, unit);
    if q == LIMIT {
        let p = two_to((e + k - b) as nat);
        assert(two_to((e + k + 1 - b) as nat) == 2 * p);
        assert(LEAST * (2 * p) == LIMIT * p) by (nonlinear_arith)
            requires
                LIMIT == 2 * LEAST,
        ;
    } else {
        lemma_lifted_at(q, e + k, b);
    }
}

proof fn lemma_nearest_order(n1: int, n2: int, unit: int)
    requires
        n1 <= n2,
        unit > 0,
    ensures
        nearest(n1, unit) <= nearest(n2, unit),
{
    vstd::arithmetic::div_mod::lemma_div_is_ordered(n1, n2, unit);
    vstd::arithmetic::div_mod::lemma_fundamental_div_mod(n1, unit);
    vstd::arithmetic::div_mod::lemma_fundamental_div_mod(n2, unit);
}

proof fn lemma_excess_order(n1: int, n2: int)
    requires
        n1 <= n2,
    ensures
        excess(n1) <= excess(n2),
    decreases n2,
{
    if n1 >= LIMIT {
        lemma_excess_order(n1 / 2, n2 / 2);
    }
}

/// Rounding keeps the order.
proof fn lemma_rounded_order(n1: int, n2: int, e: int)
    requires
        0 <= n1 <= n2,
    ensures
        not_above(rounded(n1, e), rounded(n2, e)),
{
    let b = if e < 23 {
        e - 23
    } else {
        0
    };
    let k1 = excess(n1);
    let k2 = excess(n2);
    lemma_excess_order(n1, n2);
    lemma_rounded_at(n1, e, b);
    lemma_rounded_at(n2, e, b);
    lemma_two_to_positive(k1);
    let q1 = nearest(n1, two_to(k1));
    let q2 = nearest(n2, two_to(k2));
    let p1 = two_to((e + k1 - b) as nat);
    lemma_two_to_positive((e + k1 - b) as nat);
    if k1 == k2 {
        lemma_nearest_order(n1, n2, two_to(k1));
        assert(q1 * p1 <= q2 * p1) by (nonlinear_arith)
            requires
                q1 <= q2,
                p1 >= 1,
        ;
    } else {
        let p2 = two_to((e + k2 - b) as nat);
        lemma_two_to_grows((e + k1 + 1 - b) as nat, (e + k2 - b) as nat);
        assert(two_to((e + k1 + 1 - b) as nat) == 2 * p1);
        assert(q1 * p1 <= q2 * p2) by (nonlinear_arith)
            requires
                0 <= q1 <= LIMIT,
                q2 >= LEAST,
                LIMIT == 2 * LEAST,
                p2 >= 2 * p1,
                p1 >= 1,
        ;
    }
    lemma_compared_at(rounded(n1, e), rounded(n2, e), b);
}

/// A number may be written with more places before it is rounded.
proof fn lemma_rounded_scaled(n: int, j: nat, e: int)
    requires
        n >= 0,
    ensures
        rounded(n * two_to(j), e - j) == rounded(n, e),
    decreases j,
{
    if j == 0 {
        assert(n * 1 == n);
    } else {
        let half = two_to((j - 1) as nat);
        lemma_two_to_positive((j - 1) as nat);
        let m = n * half;
        assert(m >= 0) by (nonlinear_arith)
            requires
                m == n * half,
                n >= 0,
                half >= 1,
        ;
        assert(n * (2 * half) == 2 * m) by (nonlinear_arith)
            requires
                m == n * half,
        ;
        lemma_rounded_scaled(n, (j - 1) as nat, e);
        lemma_rounded_doubled(m, e - (j - 1));
    }
}

proof fn lemma_rounded_doubled(n: int, e: int)
    requires
        n >= 0,
    ensures
        rounded(2 * n, e - 1) == rounded(n, e),
{
    if n == 0 {
        assert(nearest(0, 1) == 0);
    } else if n < LEAST {
        assert(nearest(n, 1) == n && nearest(2 * n, 1) == 2 * n);
    } else {
        let k = excess(n);
        assert(excess(2 * n) == k + 1);
        let unit = two_to(k);
        lemma_two_to_positive(k);
        vstd::arithmetic::div_mod::lemma_fundamental_div_mod(n, unit);
        let q = n / unit;
        let r = n % unit;
        assert(2 * n == q * (2 * unit) + 2 * r) by (nonlinear_arith)
            requires
                n == unit * q + r,
        ;
        lemma_quotient_of(q, 2 * unit, 2 * r);
        assert(nearest(2 * n, 2 * unit) == nearest(n, unit));
    }
}

/// Rounding keeps the order of numbers that are written with different
/// exponents.
proof fn lemma_rounded_order_at(n1: int, e1: int, n2: int, e2: int, b: int)
    requires
        0 <= n1,
        0 <= n2,
        b <= e1,
        b <= e2,
        n1 * two_to((e1 - b) as nat) <= n2 * two_to((e2 - b) as nat),
    ensures
        not_above(rounded(n1, e1), rounded(n2, e2)),
{
    let j1 = (e1 - b) as nat;
    let j2 = (e2 - b) as nat;
    lemma_two_to_positive(j1);
    lemma_rounded_scaled(n1, j1, e1);
    lemma_rounded_scaled(n2, j2, e2);
    let p = two_to(j1);
    assert(n1 * p >= 0) by (nonlinear_arith)
        requires
            n1 >= 0,
            p >= 1,
    ;
    lemma_rounded_order(n1 * two_to(j1), n2 * two_to(j2), b);
}

/// The order is kept by whole numbers.
pub proof fn whole_numbers_keep_their_order(a: int, b: int)
    requires
        0 <= a <= b,
    ensures
        not_above(single_of(a), single_of(b)),
        single_of(a).normal(),
        single_of(b).normal(),
        b > 0 ==> single_of(b) != zero(),
{
    lemma_rounded_order(a, b, 0);
    lemma_rounded_normal(a, 0);
    lemma_rounded_normal(b, 0);
}

/// The order is kept by multiplying with the same number.
pub proof fn products_keep_the_order(x: Dyadic, y: Dyadic, by: Dyadic)
    requires
        x.normal(),
        y.normal(),
        by.normal(),
        not_above(x, y),
    ensures
        not_above(product(x, by), product(y, by)),
{
    let e = lower(x, y);
    let b = e + by.exponent;
    let p = two_to((x.exponent - e) as nat);
    let q = two_to((y.exponent - e) as nat);
    let m = by.mantissa;
    assert(x.exponent + by.exponent - b == x.exponent - e);
    assert(y.exponent + by.exponent - b == y.exponent - e);
    assert(x.mantissa * m >= 0 && y.mantissa * m >= 0 && x.mantissa * m * p <= y.mantissa * m * q)
        by (nonlinear_arith)
        requires
            x.mantissa >= 0,
            y.mantissa >= 0,
            m >= 0,
            x.mantissa * p <= y.mantissa * q,
    ;
    lemma_rounded_order_at(
        x.mantissa * m,
        x.exponent + by.exponent,
        y.mantissa * m,
        y.exponent + by.exponent,
        b,
    );
}

/// The order is kept by adding.
pub proof fn sums_keep_the_order(x1: Dyadic, y1: Dyadic, x2: Dyadic, y2: Dyadic)
    requires
        x1.normal(),
        y1.normal(),
        x2.normal(),
        y2.normal(),
        not_above(x1, x2),
        not_above(y1, y2),
    ensures
        not_above(sum(x1, y1), sum(x2, y2)),
{
    let e1 = lower(x1, y1);
    let e2 = lower(x2, y2);
    let b = if e1 < e2 {
        e1
    } else {
        e2
    };
    lemma_compared_at(x1, x2, b);
    lemma_compared_at(y1, y2, b);
    lemma_lower_exponent(x1, e1, b);
    lemma_lower_exponent(y1, e1, b);
    lemma_lower_exponent(x2, e2, b);
    lemma_lower_exponent(y2, e2, b);
    lemma_at_least_zero(x1, e1);
    lemma_at_least_zero(y1, e1);
    lemma_at_least_zero(x2, e2);
    lemma_at_least_zero(y2, e2);
    let p = two_to((e1 - b) as nat);
    let q = two_to((e2 - b) as nat);
    let a1 = at_exponent(x1, e1);
    let c1 = at_exponent(y1, e1);
    let a2 = at_exponent(x2, e2);
    let c2 = at_exponent(y2, e2);
    assert((a1 + c1) * p == a1 * p + c1 * p) by (nonlinear_arith);
    assert((a2 + c2) * q == a2 * q + c2 * q) by (nonlinear_arith);
    lemma_rounded_order_at(a1 + c1, e1, a2 + c2, e2, b);
}

proof fn lemma_at_least_zero(x: Dyadic, e: int)
    requires
        x.normal(),
    ensures
        at_exponent(x, e) >= 0,
{
    let p = two_to((x.exponent - e) as nat);
    lemma_two_to_positive((x.exponent - e) as nat);
    assert(x.mantissa * p >= 0) by (nonlinear_arith)
        requires
            x.mantissa >= 0,
            p >= 1,
    ;
}

/// The order is kept by dividing by the same number.
pub proof fn quotients_keep_the_order(x: Dyadic, y: Dyadic, by: Dyadic)
    requires
        x.normal(),
        y.normal(),
        by.normal(),
        by != zero(),
        not_above(x, y),
    ensures
        not_above(quotient(x, by), quotient(y, by)),
{
    let w = by.mantissa;
    let a = x.mantissa * 0x400_0000;
    let c = y.mantissa * 0x400_0000;
    let n1 = 2 * (a / w) + if a % w == 0 {
        0int
    } else {
        1
    };
    let n2 = 2 * (c / w) + if c % w == 0 {
        0int
    } else {
        1
    };
    let e1 = x.exponent - by.exponent - 27;
    let e2 = y.exponent - by.exponent - 27;
    vstd::arithmetic::div_mod::lemma_fundamental_div_mod(a, w);
    vstd::arithmetic::div_mod::lemma_fundamental_div_mod(c, w);
    assert(a / w >= 0 && c / w >= 0) by (nonlinear_arith)
        requires
            a >= 0,
            c >= 0,
            w > 0,
    ;
    zero_is_least(x, y);
    if x == zero() {
        assert(0int / w == 0 && 0int % w == 0);
        lemma_rounded_normal(n2, e2);
        assert(nearest(0, 1) == 0);
        assert(quotient(x, by) == zero());
        zero_is_least(quotient(x, by), quotient(y, by));
    } else {
        assert(y != zero());
        lemma_order(x, y);
        if x.exponent == y.exponent {
            vstd::arithmetic::div_mod::lemma_div_is_ordered(a, c, w);
            if a / w == c / w {
                assert(a % w <= c % w);
            }
            assert(n1 <= n2);
            lemma_rounded_order(n1, n2, e1);
        } else {
            let d = (e2 - e1) as nat;
            let unit = two_to(d);
            lemma_two_to_values();
            lemma_two_to_grows(1, d);
            let q = c / w;
            let r = c % w;
            assert(a / w <= 2 * q - 2) by (nonlinear_arith)
                requires
                    a <= 2 * c - 0x400_0000,
                    c == w * q + r,
                    0 <= r < w,
                    0 < w < 0x100_0000,
            ;
            assert(n1 <= 2 * n2);
            assert(n1 * two_to(0) <= n2 * unit) by (nonlinear_arith)
                requires
                    n1 <= 2 * n2,
                    n2 >= 0,
                    unit >= 2,
                    two_to(0) == 1,
            ;
            lemma_rounded_order_at(n1, e1, n2, e2, e1);
        }
    }
}

/// A whole part, from a lower exponent.
proof fn lemma_whole_at(x: Dyadic, b: int)
    requires
        x.normal(),
        b <= x.exponent,
        b <= 0,
    ensures
        whole(x) == at_exponent(x, b) / two_to((-b) as nat),
{
    let unit = two_to((-b) as nat);
    let m = x.mantissa;
    lemma_two_to_positive((-b) as nat);
    if x.exponent >= 0 {
        let p = two_to(x.exponent as nat);
        lemma_two_to_adds(x.exponent as nat, (-b) as nat);
        assert(x.exponent as nat + (-b) as nat == x.exponent - b);
        assert(m * (p * unit) == (m * p) * unit + 0) by (nonlinear_arith);
        lemma_quotient_of(m * p, unit, 0);
    } else {
        let p = two_to((-x.exponent) as nat);
        let q = two_to((x.exponent - b) as nat);
        lemma_two_to_adds((-x.exponent) as nat, (x.exponent - b) as nat);
        assert((-x.exponent) as nat + (x.exponent - b) as nat == -b);
        lemma_two_to_positive((-x.exponent) as nat);
        lemma_two_to_positive((x.exponent - b) as nat);
        assert(p * q == q * p && m * q == q * m) by (nonlinear_arith);
        vstd::arithmetic::div_mod::lemma_div_denominator(q * m, q, p);
        vstd::arithmetic::div_mod::lemma_div_by_multiple(m, q);
    }
}

/// The order is kept by whole parts.
pub proof fn whole_parts_keep_the_order(x: Dyadic, y: Dyadic)
    requires
        x.normal(),
        y.normal(),
        not_above(x, y),
    ensures
        0 <= whole(x) <= whole(y),
{
    let e = lower(x, y);
    let b = if e < 0 {
        e
    } else {
        0
    };
    lemma_compared_at(x, y, b);
    lemma_whole_at(x, b);
    lemma_whole_at(y, b);
    lemma_at_least_zero(x, b);
    let unit = two_to((-b) as nat);
    lemma_two_to_positive((-b) as nat);
    vstd::arithmetic::div_mod::lemma_div_is_ordered(at_exponent(x, b), at_exponent(y, b), unit);
    vstd::arithmetic::div_mod::lemma_div_pos_is_pos(at_exponent(x, b), unit);
}

} // verus!
