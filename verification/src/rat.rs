//! Exact rational scalars.
//!
//! All camera, frustum and culling math in this crate is carried out on
//! rationals `num / den` with `den > 0`, held in `i64` fields and computed
//! through `i128` intermediates. Results are put in lowest terms; an
//! operation reports `None` exactly when the lowest-terms result does not
//! fit the field type.

use vstd::prelude::*;
use vstd::arithmetic::div_mod::{lemma_div_multiples_vanish, lemma_fundamental_div_mod};
use vstd::arithmetic::mul::{lemma_mul_is_distributive_add_other_way, lemma_mul_is_distributive_sub_other_way};
use vstd::math::abs;

verus! {

/// Greatest common divisor, by Euclid's rule.
pub open spec fn gcd(a: nat, b: nat) -> nat
    decreases b,
{
    if b == 0 {
        a
    } else {
        gcd(b, (a % b) as nat)
    }
}

/// `d` divides `n`.
pub open spec fn divides(d: int, n: int) -> bool {
    exists|k: int| n == #[trigger] (d * k)
}

proof fn lemma_gcd_pos(a: nat, b: nat)
    requires
        a > 0 || b > 0,
    ensures
        gcd(a, b) > 0,
    decreases b,
{
    if b > 0 {
        lemma_gcd_pos(b, (a % b) as nat);
    }
}

proof fn lemma_gcd_divides(a: nat, b: nat)
    ensures
        divides(gcd(a, b) as int, a as int),
        divides(gcd(a, b) as int, b as int),
    decreases b,
{
    if b == 0 {
        assert(a as int == (a as int) * 1);
        assert(0int == (a as int) * 0);
    } else {
        lemma_gcd_divides(b, (a % b) as nat);
        let g = gcd(b, (a % b) as nat) as int;
        let k1 = choose|k: int| b as int == #[trigger] (g * k);
        let k2 = choose|k: int| (a % b) as int == #[trigger] (g * k);
        lemma_fundamental_div_mod(a as int, b as int);
        assert(a as int == (b as int) * ((a as int) / (b as int)) + (a as int) % (b as int));
        let q = (a as int) / (b as int);
        assert(a as int == (g * k1) * q + g * k2);
        assert((g * k1) * q + g * k2 == g * (k1 * q + k2)) by (nonlinear_arith);
        assert(a as int == g * (k1 * q + k2));
    }
}

/// `-b <= a <= b` for products of bounded factors; the workhorse for
/// showing that the `i128` intermediates below cannot overflow.
pub proof fn lemma_mul_bound(a: int, b: int, ba: int, bb: int)
    by (nonlinear_arith)
    requires
        -ba <= a <= ba,
        -bb <= b <= bb,
        0 <= ba,
        0 <= bb,
    ensures
        -(ba * bb) <= a * b <= ba * bb,
{
}

/// The largest magnitude a rational component may hold.
pub open spec fn fits_i64(x: int) -> bool {
    -0x7fff_ffff_ffff_ffff <= x <= 0x7fff_ffff_ffff_ffff
}

/// A rational is well formed when its denominator is positive.
pub open spec fn q_wf(a: (int, int)) -> bool {
    a.1 > 0
}

/// Sum of two rationals, as the textbook cross product.
pub open spec fn q_add(a: (int, int), b: (int, int)) -> (int, int) {
    (a.0 * b.1 + b.0 * a.1, a.1 * b.1)
}

/// Difference of two rationals.
pub open spec fn q_sub(a: (int, int), b: (int, int)) -> (int, int) {
    (a.0 * b.1 - b.0 * a.1, a.1 * b.1)
}

/// Product of two rationals.
pub open spec fn q_mul(a: (int, int), b: (int, int)) -> (int, int) {
    (a.0 * b.0, a.1 * b.1)
}

/// Negation of a rational.
pub open spec fn q_neg(a: (int, int)) -> (int, int) {
    (-a.0, a.1)
}

/// Quotient of two rationals, with the sign moved to the numerator so the
/// denominator stays positive.
pub open spec fn q_div(a: (int, int), b: (int, int)) -> (int, int) {
    if b.0 >= 0 {
        (a.0 * b.1, a.1 * b.0)
    } else {
        (-(a.0 * b.1), -(a.1 * b.0))
    }
}

/// Value equality of two well-formed rationals.
pub open spec fn q_eq(a: (int, int), b: (int, int)) -> bool {
    a.0 * b.1 == b.0 * a.1
}

/// `a <= b` on well-formed rationals.
pub open spec fn q_le(a: (int, int), b: (int, int)) -> bool {
    a.0 * b.1 <= b.0 * a.1
}

/// `a < b` on well-formed rationals.
pub open spec fn q_lt(a: (int, int), b: (int, int)) -> bool {
    a.0 * b.1 < b.0 * a.1
}

/// Both components no larger in magnitude than `b`.
pub open spec fn q_bounded(a: (int, int), b: int) -> bool {
    -b <= a.0 <= b && 0 < a.1 <= b
}

/// The greatest common divisor of a rational's components.
pub open spec fn q_gcd(a: (int, int)) -> int {
    gcd(abs(a.0), a.1 as nat) as int
}

/// The rational in lowest terms.
pub open spec fn q_reduced(a: (int, int)) -> (int, int) {
    (a.0 / q_gcd(a), a.1 / q_gcd(a))
}

/// Lowest terms fit the field type.
pub open spec fn q_fits(a: (int, int)) -> bool {
    fits_i64(q_reduced(a).0) && fits_i64(q_reduced(a).1)
}

/// An exact rational scalar with positive denominator.
#[derive(Clone, Copy, Debug, PartialEq, Eq, Structural)]
pub struct Rat {
    num: i64,
    den: i64,
}

impl View for Rat {
    type V = (int, int);

    closed spec fn view(&self) -> (int, int) {
        (self.num as int, self.den as int)
    }
}

/// Putting a well-formed rational in lowest terms keeps its value, keeps
/// its well-formedness, and never grows either component.
pub proof fn lemma_reduced_eq(a: (int, int))
    requires
        q_wf(a),
    ensures
        q_wf(q_reduced(a)),
        q_eq(q_reduced(a), a),
        abs(q_reduced(a).0) <= abs(a.0),
        q_reduced(a).1 <= a.1,
{
    lemma_gcd_pos(abs(a.0), a.1 as nat);
    lemma_gcd_divides(abs(a.0), a.1 as nat);
    let g = q_gcd(a);
    assert(divides(g, a.1));
    let kd = choose|k: int| a.1 == #[trigger] (g * k);
    lemma_div_multiples_vanish(kd, g);
    assert(a.1 / g == kd);
    assert(kd > 0 && kd <= g * kd) by (nonlinear_arith)
        requires g * kd > 0 && g >= 1,
    ;
    let km = choose|k: int| abs(a.0) as int == #[trigger] (g * k);
    assert(km >= 0 && km <= g * km) by (nonlinear_arith)
        requires g * km >= 0 && g >= 1,
    ;
    if a.0 >= 0 {
        lemma_div_multiples_vanish(km, g);
        assert(a.0 / g == km);
        assert(km * (g * kd) == (g * km) * kd) by (nonlinear_arith);
    } else {
        assert(a.0 == g * (-km)) by (nonlinear_arith)
            requires abs(a.0) as int == g * km && a.0 < 0,
        ;
        lemma_div_multiples_vanish(-km, g);
        assert(a.0 / g == -km);
        assert((-km) * (g * kd) == (g * (-km)) * kd) by (nonlinear_arith);
    }
}

/// Value equality is transitive.
pub proof fn lemma_q_eq_trans(a: (int, int), b: (int, int), c: (int, int))
    by (nonlinear_arith)
    requires
        q_wf(a),
        q_wf(b),
        q_wf(c),
        q_eq(a, b),
        q_eq(b, c),
    ensures
        q_eq(a, c),
{
}

/// Equal values have equal sums.
pub proof fn lemma_q_add_congr(a: (int, int), a2: (int, int), b: (int, int), b2: (int, int))
    requires
        q_wf(a),
        q_wf(a2),
        q_wf(b),
        q_wf(b2),
        q_eq(a, a2),
        q_eq(b, b2),
    ensures
        q_eq(q_add(a, b), q_add(a2, b2)),
{
    let x0 = a.0;
    let x1 = a.1;
    let y0 = b.0;
    let y1 = b.1;
    let u0 = a2.0;
    let u1 = a2.1;
    let v0 = b2.0;
    let v1 = b2.1;
    lemma_mul_is_distributive_add_other_way(u1 * v1, x0 * y1, y0 * x1);
    lemma_mul_is_distributive_add_other_way(x1 * y1, u0 * v1, v0 * u1);
    assert((x0 * y1) * (u1 * v1) == (x0 * u1) * (y1 * v1)) by (nonlinear_arith);
    assert((y0 * x1) * (u1 * v1) == (y0 * v1) * (x1 * u1)) by (nonlinear_arith);
    assert((u0 * v1) * (x1 * y1) == (u0 * x1) * (y1 * v1)) by (nonlinear_arith);
    assert((v0 * u1) * (x1 * y1) == (v0 * y1) * (x1 * u1)) by (nonlinear_arith);
    assert((x0 * u1) * (y1 * v1) == (u0 * x1) * (y1 * v1));
    assert((y0 * v1) * (x1 * u1) == (v0 * y1) * (x1 * u1));
}

/// Equal values have equal differences.
pub proof fn lemma_q_sub_congr(a: (int, int), a2: (int, int), b: (int, int), b2: (int, int))
    requires
        q_wf(a),
        q_wf(a2),
        q_wf(b),
        q_wf(b2),
        q_eq(a, a2),
        q_eq(b, b2),
    ensures
        q_eq(q_sub(a, b), q_sub(a2, b2)),
{
    let x0 = a.0;
    let x1 = a.1;
    let y0 = b.0;
    let y1 = b.1;
    let u0 = a2.0;
    let u1 = a2.1;
    let v0 = b2.0;
    let v1 = b2.1;
    lemma_mul_is_distributive_sub_other_way(u1 * v1, x0 * y1, y0 * x1);
    lemma_mul_is_distributive_sub_other_way(x1 * y1, u0 * v1, v0 * u1);
    assert((x0 * y1) * (u1 * v1) == (x0 * u1) * (y1 * v1)) by (nonlinear_arith);
    assert((y0 * x1) * (u1 * v1) == (y0 * v1) * (x1 * u1)) by (nonlinear_arith);
    assert((u0 * v1) * (x1 * y1) == (u0 * x1) * (y1 * v1)) by (nonlinear_arith);
    assert((v0 * u1) * (x1 * y1) == (v0 * y1) * (x1 * u1)) by (nonlinear_arith);
    assert((x0 * u1) * (y1 * v1) == (u0 * x1) * (y1 * v1));
    assert((y0 * v1) * (x1 * u1) == (v0 * y1) * (x1 * u1));
}

/// Equal values have equal products.
pub proof fn lemma_q_mul_congr(a: (int, int), a2: (int, int), b: (int, int), b2: (int, int))
    by (nonlinear_arith)
    requires
        q_wf(a),
        q_wf(a2),
        q_wf(b),
        q_wf(b2),
        q_eq(a, a2),
        q_eq(b, b2),
    ensures
        q_eq(q_mul(a, b), q_mul(a2, b2)),
{
}

/// Equal values have equal negations.
pub proof fn lemma_q_neg_congr(a: (int, int), a2: (int, int))
    by (nonlinear_arith)
    requires
        q_wf(a),
        q_wf(a2),
        q_eq(a, a2),
    ensures
        q_eq(q_neg(a), q_neg(a2)),
{
}

/// Equal values have the same sign of numerator.
pub proof fn lemma_q_eq_sign(a: (int, int), b: (int, int))
    by (nonlinear_arith)
    requires
        q_wf(a),
        q_wf(b),
        q_eq(a, b),
    ensures
        a.0 > 0 <==> b.0 > 0,
        a.0 == 0 <==> b.0 == 0,
        a.0 < 0 <==> b.0 < 0,
{
}

/// The magnitude of a rational: negate a negative numerator.
pub open spec fn q_abs(a: (int, int)) -> (int, int) {
    if a.0 < 0 {
        q_neg(a)
    } else {
        a
    }
}

/// Equal values have equal magnitudes.
pub proof fn lemma_q_abs_congr(a: (int, int), a2: (int, int))
    requires
        q_wf(a),
        q_wf(a2),
        q_eq(a, a2),
    ensures
        q_eq(q_abs(a), q_abs(a2)),
{
    lemma_q_eq_sign(a, a2);
    if a.0 < 0 {
        lemma_q_neg_congr(a, a2);
    }
}

/// One direction of order congruence.
proof fn lemma_q_le_mono(a: (int, int), a2: (int, int), b: (int, int), b2: (int, int))
    requires
        q_wf(a),
        q_wf(a2),
        q_wf(b),
        q_wf(b2),
        q_eq(a, a2),
        q_eq(b, b2),
        q_le(a, b),
    ensures
        q_le(a2, b2),
{
    let p = a.1 * b.1;
    assert(a.1 * b.1 > 0) by (nonlinear_arith)
        requires a.1 > 0 && b.1 > 0,
    ;
    assert((a.0 * b.1) * (a2.1 * b2.1) <= (b.0 * a.1) * (a2.1 * b2.1)) by (nonlinear_arith)
        requires a.0 * b.1 <= b.0 * a.1 && a2.1 > 0 && b2.1 > 0,
    ;
    assert((a.0 * b.1) * (a2.1 * b2.1) == (a.0 * a2.1) * (b.1 * b2.1)) by (nonlinear_arith);
    assert((a.0 * a2.1) * (b.1 * b2.1) == (a2.0 * a.1) * (b.1 * b2.1));
    assert((a2.0 * a.1) * (b.1 * b2.1) == (a2.0 * b2.1) * (a.1 * b.1)) by (nonlinear_arith);
    assert((b.0 * a.1) * (a2.1 * b2.1) == (b.0 * b2.1) * (a.1 * a2.1)) by (nonlinear_arith);
    assert((b.0 * b2.1) * (a.1 * a2.1) == (b2.0 * b.1) * (a.1 * a2.1));
    assert((b2.0 * b.1) * (a.1 * a2.1) == (b2.0 * a2.1) * (a.1 * b.1)) by (nonlinear_arith);
    assert((a2.0 * b2.1) * p <= (b2.0 * a2.1) * p);
    assert(a2.0 * b2.1 <= b2.0 * a2.1) by (nonlinear_arith)
        requires (a2.0 * b2.1) * p <= (b2.0 * a2.1) * p && p > 0,
    ;
}

/// Equal values compare equally.
pub proof fn lemma_q_le_congr(a: (int, int), a2: (int, int), b: (int, int), b2: (int, int))
    requires
        q_wf(a),
        q_wf(a2),
        q_wf(b),
        q_wf(b2),
        q_eq(a, a2),
        q_eq(b, b2),
    ensures
        q_le(a, b) == q_le(a2, b2),
        q_lt(a, b) == q_lt(a2, b2),
{
    if q_le(a, b) {
        lemma_q_le_mono(a, a2, b, b2);
    }
    if q_le(a2, b2) {
        lemma_q_le_mono(a2, a, b2, b);
    }
    if q_le(b, a) {
        lemma_q_le_mono(b, b2, a, a2);
    }
    if q_le(b2, a2) {
        lemma_q_le_mono(b2, b, a2, a);
    }
    assert(q_lt(a, b) == !q_le(b, a));
    assert(q_lt(a2, b2) == !q_le(b2, a2));
}

/// Equal values have equal quotients.
pub proof fn lemma_q_div_congr(a: (int, int), a2: (int, int), b: (int, int), b2: (int, int))
    requires
        q_wf(a),
        q_wf(a2),
        q_wf(b),
        q_wf(b2),
        b.0 != 0,
        b2.0 != 0,
        q_eq(a, a2),
        q_eq(b, b2),
    ensures
        q_eq(q_div(a, b), q_div(a2, b2)),
{
    lemma_q_eq_sign(b, b2);
    if b.0 > 0 {
        assert(q_eq(q_div(a, b), q_div(a2, b2))) by (nonlinear_arith)
            requires
                q_wf(a) && q_wf(a2) && q_wf(b) && q_wf(b2) && b.0 > 0 && b2.0 > 0
                && q_eq(a, a2) && q_eq(b, b2),
        ;
    } else {
        assert(q_eq(q_div(a, b), q_div(a2, b2))) by (nonlinear_arith)
            requires
                q_wf(a) && q_wf(a2) && q_wf(b) && q_wf(b2) && b.0 < 0 && b2.0 < 0
                && q_eq(a, a2) && q_eq(b, b2),
        ;
    }
}

/// Euclid's algorithm.
fn gcd_u128(a: u128, b: u128) -> (g: u128)
    ensures
        g == gcd(a as nat, b as nat),
{
    let mut x: u128 = a;
    let mut y: u128 = b;
    while y != 0
        invariant
            gcd(x as nat, y as nat) == gcd(a as nat, b as nat),
        decreases y,
    {
        let r: u128 = x % y;
        x = y;
        y = r;
    }
    x
}

/// Lowest-terms narrowing of an `i128` rational into a `Rat`; `None`
/// exactly when lowest terms still overflow the field type.
fn reduce128(n: i128, d: i128) -> (r: Option<Rat>)
    requires
        d > 0,
        n > i128::MIN,
    ensures
        (r matches Some(v) ==> v.wf() && v@ == q_reduced((n as int, d as int))),
        r is Some <==> q_fits((n as int, d as int)),
{
    let mag: u128 = (if n < 0 { -n } else { n }) as u128;
    proof {
        assert(mag as int == abs(n as int));
    }
    let g: u128 = gcd_u128(mag, d as u128);
    proof {
        lemma_gcd_pos(mag as nat, d as nat);
        lemma_gcd_divides(mag as nat, d as nat);
    }
    let nr: u128 = mag / g;
    let dr: u128 = (d as u128) / g;
    proof {
        let gi = g as int;
        let km = choose|k: int| mag as int == #[trigger] (gi * k);
        assert(km >= 0) by (nonlinear_arith)
            requires gi * km >= 0 && gi > 0,
        ;
        lemma_div_multiples_vanish(km, gi);
        assert(nr as int == km);
        let kd = choose|k: int| d as int == #[trigger] (gi * k);
        lemma_div_multiples_vanish(kd, gi);
        assert(dr as int == kd);
        assert(kd > 0) by (nonlinear_arith)
            requires gi * kd > 0 && gi > 0,
        ;
        assert(q_gcd((n as int, d as int)) == gi);
        if n >= 0 {
            assert(n as int / gi == km);
        } else {
            assert(n as int == gi * (-km)) by (nonlinear_arith)
                requires mag as int == gi * km && n < 0 && mag as int == abs(n as int),
            ;
            lemma_div_multiples_vanish(-km, gi);
            assert(n as int / gi == -km);
        }
    }
    if nr <= 0x7fff_ffff_ffff_ffff && dr <= 0x7fff_ffff_ffff_ffff {
        let rn: i64 = if n < 0 {
            -(nr as i64)
        } else {
            nr as i64
        };
        Some(Rat { num: rn, den: dr as i64 })
    } else {
        None
    }
}

impl Rat {
    /// Positive denominator; the numerator stays clear of the one value
    /// whose negation would overflow.
    pub closed spec fn wf(self) -> bool {
        self.den > 0 && self.num > i64::MIN
    }

    /// What well-formedness yields about the view.
    pub proof fn lemma_wf_props(self)
        requires
            self.wf(),
        ensures
            q_wf(self@),
            fits_i64(self@.0),
            fits_i64(self@.1),
    {
    }

    /// The numerator.
    pub fn num(self) -> (r: i64)
        ensures
            r as int == self@.0,
    {
        self.num
    }

    /// The denominator.
    pub fn den(self) -> (r: i64)
        ensures
            r as int == self@.1,
    {
        self.den
    }

    /// The rational `num / den`, in lowest terms.
    pub fn new(num: i64, den: i64) -> (r: Rat)
        requires
            den > 0,
            num > i64::MIN,
        ensures
            r.wf(),
            r@ == q_reduced((num as int, den as int)),
            q_eq(r@, (num as int, den as int)),
    {
        proof {
            lemma_reduced_eq((num as int, den as int));
        }
        reduce128(num as i128, den as i128).unwrap()
    }

    /// The whole number `n`.
    pub fn from_int(n: i64) -> (r: Rat)
        requires
            n > i64::MIN,
        ensures
            r.wf(),
            r@ == (n as int, 1int),
    {
        Rat { num: n, den: 1 }
    }

    /// Exact sum; `None` exactly when the lowest-terms sum overflows.
    pub fn add(self, other: Rat) -> (r: Option<Rat>)
        requires
            self.wf(),
            other.wf(),
        ensures
            (r matches Some(v) ==> v.wf() && v@ == q_reduced(q_add(self@, other@))
                && q_eq(v@, q_add(self@, other@))),
            r is Some <==> q_fits(q_add(self@, other@)),
    {
        proof {
            let m: int = 0x7fff_ffff_ffff_ffff;
            lemma_mul_bound(self@.0, other@.1, m, m);
            lemma_mul_bound(other@.0, self@.1, m, m);
            lemma_mul_bound(self@.1, other@.1, m, m);
            assert(q_wf(q_add(self@, other@))) by (nonlinear_arith)
                requires self@.1 > 0 && other@.1 > 0,
            ;
            lemma_reduced_eq(q_add(self@, other@));
        }
        let n: i128 = self.num as i128 * other.den as i128 + other.num as i128 * self.den as i128;
        let d: i128 = self.den as i128 * other.den as i128;
        reduce128(n, d)
    }

    /// Exact difference; `None` exactly when the lowest-terms result
    /// overflows.
    pub fn sub(self, other: Rat) -> (r: Option<Rat>)
        requires
            self.wf(),
            other.wf(),
        ensures
            (r matches Some(v) ==> v.wf() && v@ == q_reduced(q_sub(self@, other@))
                && q_eq(v@, q_sub(self@, other@))),
            r is Some <==> q_fits(q_sub(self@, other@)),
    {
        proof {
            let m: int = 0x7fff_ffff_ffff_ffff;
            lemma_mul_bound(self@.0, other@.1, m, m);
            lemma_mul_bound(other@.0, self@.1, m, m);
            lemma_mul_bound(self@.1, other@.1, m, m);
            assert(q_wf(q_sub(self@, other@))) by (nonlinear_arith)
                requires self@.1 > 0 && other@.1 > 0,
            ;
            lemma_reduced_eq(q_sub(self@, other@));
        }
        let n: i128 = self.num as i128 * other.den as i128 - other.num as i128 * self.den as i128;
        let d: i128 = self.den as i128 * other.den as i128;
        reduce128(n, d)
    }

    /// Exact product; `None` exactly when the lowest-terms result
    /// overflows.
    pub fn mul(self, other: Rat) -> (r: Option<Rat>)
        requires
            self.wf(),
            other.wf(),
        ensures
            (r matches Some(v) ==> v.wf() && v@ == q_reduced(q_mul(self@, other@))
                && q_eq(v@, q_mul(self@, other@))),
            r is Some <==> q_fits(q_mul(self@, other@)),
    {
        proof {
            let m: int = 0x7fff_ffff_ffff_ffff;
            lemma_mul_bound(self@.0, other@.0, m, m);
            lemma_mul_bound(self@.1, other@.1, m, m);
            assert(q_wf(q_mul(self@, other@))) by (nonlinear_arith)
                requires self@.1 > 0 && other@.1 > 0,
            ;
            lemma_reduced_eq(q_mul(self@, other@));
        }
        let n: i128 = self.num as i128 * other.num as i128;
        let d: i128 = self.den as i128 * other.den as i128;
        reduce128(n, d)
    }

    /// Exact quotient; the divisor must be nonzero, and `None` comes
    /// exactly when the lowest-terms result overflows.
    pub fn div(self, other: Rat) -> (r: Option<Rat>)
        requires
            self.wf(),
            other.wf(),
            other@.0 != 0,
        ensures
            (r matches Some(v) ==> v.wf() && v@ == q_reduced(q_div(self@, other@))
                && q_eq(v@, q_div(self@, other@))),
            r is Some <==> q_fits(q_div(self@, other@)),
    {
        proof {
            let m: int = 0x7fff_ffff_ffff_ffff;
            lemma_mul_bound(self@.0, other@.1, m, m);
            lemma_mul_bound(self@.1, other@.0, m, m);
            assert(q_wf(q_div(self@, other@))) by (nonlinear_arith)
                requires self@.1 > 0 && other@.1 > 0 && other@.0 != 0,
            ;
            lemma_reduced_eq(q_div(self@, other@));
        }
        let n0: i128 = self.num as i128 * other.den as i128;
        let d0: i128 = self.den as i128 * other.num as i128;
        if other.num >= 0 {
            reduce128(n0, d0)
        } else {
            reduce128(-n0, -d0)
        }
    }

    /// Exact negation; always representable.
    pub fn neg(self) -> (r: Rat)
        requires
            self.wf(),
        ensures
            r.wf(),
            r@ == q_neg(self@),
    {
        Rat { num: -self.num, den: self.den }
    }

    /// Exact `<=`.
    pub fn le(self, other: Rat) -> (r: bool)
        requires
            self.wf(),
            other.wf(),
        ensures
            r == q_le(self@, other@),
    {
        proof {
            let m: int = 0x7fff_ffff_ffff_ffff;
            lemma_mul_bound(self@.0, other@.1, m, m);
            lemma_mul_bound(other@.0, self@.1, m, m);
        }
        self.num as i128 * other.den as i128 <= other.num as i128 * self.den as i128
    }

    /// Exact `<`.
    pub fn lt(self, other: Rat) -> (r: bool)
        requires
            self.wf(),
            other.wf(),
        ensures
            r == q_lt(self@, other@),
    {
        proof {
            let m: int = 0x7fff_ffff_ffff_ffff;
            lemma_mul_bound(self@.0, other@.1, m, m);
            lemma_mul_bound(other@.0, self@.1, m, m);
        }
        (self.num as i128 * other.den as i128) < (other.num as i128 * self.den as i128)
    }

    /// The larger of two rationals by value.
    pub fn max_r(self, other: Rat) -> (r: Rat)
        requires
            self.wf(),
            other.wf(),
        ensures
            r.wf(),
            r == (if q_le(self@, other@) { other } else { self }),
    {
        if self.le(other) {
            other
        } else {
            self
        }
    }

    /// The magnitude of the value.
    pub fn abs_r(self) -> (r: Rat)
        requires
            self.wf(),
        ensures
            r.wf(),
            r@ == q_abs(self@),
    {
        if self.num < 0 {
            self.neg()
        } else {
            self
        }
    }

    /// Both components at most `b` in magnitude.
    pub fn bounded(self, b: i64) -> (r: bool)
        requires
            b >= 0,
        ensures
            r == q_bounded(self@, b as int),
    {
        -b <= self.num && self.num <= b && 0 < self.den && self.den <= b
    }
}

} // verus!
