//! The secure field of the interaction phase: the degree-4 extension of the
//! base field built as CM31 = M31[i]/(i^2 + 1) and QM31 = CM31[u]/(u^2 - (2 + i)).

use vstd::prelude::*;
use crate::m31::{
    P, is_m31, lemma_m31_add_noop, lemma_m31_mul_noop, lemma_m31_sub_noop, m31, m31_add, m31_mul,
    m31_mul_u32, m31_neg, m31_sub,
};

verus! {

/// An element `re + im * i` of the complex extension.
#[derive(Clone, Copy, Debug, PartialEq, Eq, Structural)]
pub struct CM31(pub u32, pub u32);

/// An element `a + b * u` of the secure field, with `a` and `b` in CM31.
#[derive(Clone, Copy, Debug, PartialEq, Eq, Structural)]
pub struct QM31(pub CM31, pub CM31);

/// Both coordinates are canonical.
pub open spec fn cm31_wf(x: CM31) -> bool {
    is_m31(x.0) && is_m31(x.1)
}

/// All four coordinates are canonical.
pub open spec fn qm31_wf(x: QM31) -> bool {
    cm31_wf(x.0) && cm31_wf(x.1)
}

pub open spec fn cm31_add_spec(x: CM31, y: CM31) -> CM31 {
    CM31(m31(x.0 + y.0), m31(x.1 + y.1))
}

pub open spec fn cm31_sub_spec(x: CM31, y: CM31) -> CM31 {
    CM31(m31(x.0 - y.0), m31(x.1 - y.1))
}

pub open spec fn cm31_neg_spec(x: CM31) -> CM31 {
    CM31(m31(-x.0), m31(-x.1))
}

/// `(a + b i)(c + d i) = (ac - bd) + (ad + bc) i`.
pub open spec fn cm31_mul_spec(x: CM31, y: CM31) -> CM31 {
    CM31(m31(x.0 * y.0 - x.1 * y.1), m31(x.0 * y.1 + x.1 * y.0))
}

/// Product with a base-field element given as any 32-bit integer.
pub open spec fn cm31_scale_spec(x: CM31, v: u32) -> CM31 {
    CM31(m31(x.0 * v), m31(x.1 * v))
}

/// The constant `u^2 = 2 + i`.
pub open spec fn r_spec() -> CM31 {
    CM31(2, 1)
}

pub open spec fn qm31_zero() -> QM31 {
    QM31(CM31(0, 0), CM31(0, 0))
}

pub open spec fn qm31_one() -> QM31 {
    QM31(CM31(1, 0), CM31(0, 0))
}

pub open spec fn qm31_add_spec(x: QM31, y: QM31) -> QM31 {
    QM31(cm31_add_spec(x.0, y.0), cm31_add_spec(x.1, y.1))
}

pub open spec fn qm31_sub_spec(x: QM31, y: QM31) -> QM31 {
    QM31(cm31_sub_spec(x.0, y.0), cm31_sub_spec(x.1, y.1))
}

pub open spec fn qm31_neg_spec(x: QM31) -> QM31 {
    QM31(cm31_neg_spec(x.0), cm31_neg_spec(x.1))
}

/// `(a + b u)(c + d u) = (ac + (2 + i) b d) + (ad + bc) u`.
pub open spec fn qm31_mul_spec(x: QM31, y: QM31) -> QM31 {
    QM31(
        cm31_add_spec(cm31_mul_spec(x.0, y.0), cm31_mul_spec(cm31_mul_spec(r_spec(), x.1), y.1)),
        cm31_add_spec(cm31_mul_spec(x.0, y.1), cm31_mul_spec(x.1, y.0)),
    )
}

/// Product with a base-field element given as any 32-bit integer.
pub open spec fn qm31_scale_spec(x: QM31, v: u32) -> QM31 {
    QM31(cm31_scale_spec(x.0, v), cm31_scale_spec(x.1, v))
}

fn cm31_add(x: CM31, y: CM31) -> (r: CM31)
    requires
        cm31_wf(x),
        cm31_wf(y),
    ensures
        r == cm31_add_spec(x, y),
        cm31_wf(r),
{
    CM31(m31_add(x.0, y.0), m31_add(x.1, y.1))
}

fn cm31_sub(x: CM31, y: CM31) -> (r: CM31)
    requires
        cm31_wf(x),
        cm31_wf(y),
    ensures
        r == cm31_sub_spec(x, y),
        cm31_wf(r),
{
    CM31(m31_sub(x.0, y.0), m31_sub(x.1, y.1))
}

fn cm31_mul(x: CM31, y: CM31) -> (r: CM31)
    requires
        cm31_wf(x),
        cm31_wf(y),
    ensures
        r == cm31_mul_spec(x, y),
        cm31_wf(r),
{
    let re = m31_sub(m31_mul(x.0, y.0), m31_mul(x.1, y.1));
    let im = m31_add(m31_mul(x.0, y.1), m31_mul(x.1, y.0));
    proof {
        lemma_m31_sub_noop(x.0 * y.0, x.1 * y.1);
        lemma_m31_add_noop(x.0 * y.1, x.1 * y.0);
    }
    CM31(re, im)
}

fn cm31_scale(x: CM31, v: u32) -> (r: CM31)
    requires
        cm31_wf(x),
    ensures
        r == cm31_scale_spec(x, v),
        cm31_wf(r),
{
    CM31(m31_mul_u32(x.0, v), m31_mul_u32(x.1, v))
}

impl QM31 {
    /// Zero.
    pub fn zero() -> (r: QM31)
        ensures
            r == qm31_zero(),
    {
        QM31(CM31(0, 0), CM31(0, 0))
    }

    /// One.
    pub fn one() -> (r: QM31)
        ensures
            r == qm31_one(),
    {
        QM31(CM31(1, 0), CM31(0, 0))
    }

    /// The element with the given four coordinates, each reduced.
    pub fn from_u32s(a: u32, b: u32, c: u32, d: u32) -> (r: QM31)
        ensures
            r == QM31(CM31(m31(a as int), m31(b as int)), CM31(m31(c as int), m31(d as int))),
            qm31_wf(r),
    {
        QM31(CM31(a % P, b % P), CM31(c % P, d % P))
    }

    /// Sum.
    pub fn add(&self, y: &QM31) -> (r: QM31)
        requires
            qm31_wf(*self),
            qm31_wf(*y),
        ensures
            r == qm31_add_spec(*self, *y),
            qm31_wf(r),
    {
        QM31(cm31_add(self.0, y.0), cm31_add(self.1, y.1))
    }

    /// Difference.
    pub fn sub(&self, y: &QM31) -> (r: QM31)
        requires
            qm31_wf(*self),
            qm31_wf(*y),
        ensures
            r == qm31_sub_spec(*self, *y),
            qm31_wf(r),
    {
        QM31(cm31_sub(self.0, y.0), cm31_sub(self.1, y.1))
    }

    /// Negation.
    pub fn neg(&self) -> (r: QM31)
        requires
            qm31_wf(*self),
        ensures
            r == qm31_neg_spec(*self),
            qm31_wf(r),
    {
        QM31(CM31(m31_neg(self.0.0), m31_neg(self.0.1)), CM31(m31_neg(self.1.0), m31_neg(self.1.1)))
    }

    /// Product.
    pub fn mul(&self, y: &QM31) -> (r: QM31)
        requires
            qm31_wf(*self),
            qm31_wf(*y),
        ensures
            r == qm31_mul_spec(*self, *y),
            qm31_wf(r),
    {
        let rb = cm31_mul(CM31(2, 1), self.1);
        QM31(
            cm31_add(cm31_mul(self.0, y.0), cm31_mul(rb, y.1)),
            cm31_add(cm31_mul(self.0, y.1), cm31_mul(self.1, y.0)),
        )
    }

    /// Product with a base-field element given as a 32-bit integer.
    pub fn scale(&self, v: u32) -> (r: QM31)
        requires
            qm31_wf(*self),
        ensures
            r == qm31_scale_spec(*self, v),
            qm31_wf(r),
    {
        QM31(cm31_scale(self.0, v), cm31_scale(self.1, v))
    }

}

/// One is a left identity of the product.
pub proof fn lemma_qm31_one_mul(x: QM31)
    requires
        qm31_wf(x),
    ensures
        qm31_mul_spec(qm31_one(), x) == x,
{
    let z = CM31(0, 0);
    assert(m31(0) == 0);
    vstd::arithmetic::div_mod::lemma_small_mod(x.0.0 as nat, P as nat);
    vstd::arithmetic::div_mod::lemma_small_mod(x.0.1 as nat, P as nat);
    vstd::arithmetic::div_mod::lemma_small_mod(x.1.0 as nat, P as nat);
    vstd::arithmetic::div_mod::lemma_small_mod(x.1.1 as nat, P as nat);
    assert(cm31_mul_spec(r_spec(), z) == z);
    assert forall|y: CM31| #[trigger] cm31_mul_spec(z, y) == z by {
        assert(0 * y.0 - 0 * y.1 == 0);
        assert(0 * y.1 + 0 * y.0 == 0);
    }
    assert(cm31_mul_spec(CM31(1, 0), x.0) == x.0);
    assert(cm31_mul_spec(CM31(1, 0), x.1) == x.1);
}

/// The sum is commutative.
pub proof fn lemma_qm31_add_comm(x: QM31, y: QM31)
    ensures
        qm31_add_spec(x, y) == qm31_add_spec(y, x),
{
}

/// Multiplying by a base-field element embedded in the secure field is
/// scaling by it.
pub proof fn lemma_qm31_embedded_mul(v: u32, x: QM31)
    requires
        qm31_wf(x),
    ensures
        qm31_mul_spec(qm31_scale_spec(qm31_one(), v), x) == qm31_scale_spec(x, v),
{
    let e = qm31_scale_spec(qm31_one(), v);
    let z = CM31(0, 0);
    let mv = m31(v as int);
    assert(m31(0) == 0);
    assert(1 * v == v);
    assert(0 * v == 0);
    assert(e == QM31(CM31(mv, 0), z));
    assert(cm31_mul_spec(r_spec(), z) == z);
    assert forall|y: CM31| #[trigger] cm31_mul_spec(z, y) == z by {
        assert(0 * y.0 - 0 * y.1 == 0);
        assert(0 * y.1 + 0 * y.0 == 0);
    }
    assert forall|y: CM31| cm31_wf(y) implies #[trigger] cm31_mul_spec(CM31(mv, 0), y)
        == cm31_scale_spec(y, v) by {
        assert(mv * y.0 - 0 * y.1 == mv * y.0);
        assert(mv * y.1 + 0 * y.0 == mv * y.1);
        lemma_m31_mul_noop(v as int, y.0 as int);
        lemma_m31_mul_noop(v as int, y.1 as int);
        vstd::arithmetic::div_mod::lemma_small_mod(y.0 as nat, P as nat);
        vstd::arithmetic::div_mod::lemma_small_mod(y.1 as nat, P as nat);
        vstd::arithmetic::mul::lemma_mul_is_commutative(v as int, y.0 as int);
        vstd::arithmetic::mul::lemma_mul_is_commutative(v as int, y.1 as int);
        vstd::arithmetic::mul::lemma_mul_is_commutative(mv as int, y.0 as int);
        vstd::arithmetic::mul::lemma_mul_is_commutative(mv as int, y.1 as int);
    }
    let s0 = cm31_scale_spec(x.0, v);
    let s1 = cm31_scale_spec(x.1, v);
    assert(cm31_add_spec(s0, z) == s0);
    assert(cm31_add_spec(s1, z) == s1);
}

/// A pair of integers standing for the complex element with their residues.
pub open spec fn cm31_of(x: (int, int)) -> CM31 {
    CM31(m31(x.0), m31(x.1))
}

/// Product of integer pairs as complex numbers.
pub open spec fn pair_mul(x: (int, int), y: (int, int)) -> (int, int) {
    (x.0 * y.0 - x.1 * y.1, x.0 * y.1 + x.1 * y.0)
}

/// The two pairs agree modulo the field modulus, coordinate by coordinate.
pub open spec fn pair_cong(x: (int, int), y: (int, int)) -> bool {
    x.0 % (P as int) == y.0 % (P as int) && x.1 % (P as int) == y.1 % (P as int)
}

/// The integer pair of a complex element.
pub open spec fn pair_of(x: CM31) -> (int, int) {
    (x.0 as int, x.1 as int)
}

/// Congruent pairs stand for the same element, and an element is the
/// element of its own pair.
proof fn lemma_cm31_of_cong(x: (int, int), y: (int, int))
    requires
        pair_cong(x, y),
    ensures
        cm31_of(x) == cm31_of(y),
{
}

/// A canonical element is congruent to its residue pair and back.
proof fn lemma_pair_of_canonical(c: CM31, x: (int, int))
    requires
        c == cm31_of(x),
    ensures
        pair_cong(pair_of(c), x),
{
    vstd::arithmetic::div_mod::lemma_mod_twice(x.0, P as int);
    vstd::arithmetic::div_mod::lemma_mod_twice(x.1, P as int);
}

/// Products of congruent pairs are congruent.
proof fn lemma_pair_mul_cong(x1: (int, int), x2: (int, int), y1: (int, int), y2: (int, int))
    requires
        pair_cong(x1, x2),
        pair_cong(y1, y2),
    ensures
        pair_cong(pair_mul(x1, y1), pair_mul(x2, y2)),
{
    let p = P as int;
    assert forall|a1: int, a2: int, b1: int, b2: int|
        a1 % p == a2 % p && b1 % p == b2 % p implies #[trigger] ((a1 * b1) % p) == #[trigger] ((a2
        * b2) % p) by {
        vstd::arithmetic::div_mod::lemma_mul_mod_noop(a1, b1, p);
        vstd::arithmetic::div_mod::lemma_mul_mod_noop(a2, b2, p);
    }
    assert((x1.0 * y1.0) % p == (x2.0 * y2.0) % p);
    assert((x1.1 * y1.1) % p == (x2.1 * y2.1) % p);
    assert((x1.0 * y1.1) % p == (x2.0 * y2.1) % p);
    assert((x1.1 * y1.0) % p == (x2.1 * y2.0) % p);
    vstd::arithmetic::div_mod::lemma_sub_mod_noop(x1.0 * y1.0, x1.1 * y1.1, p);
    vstd::arithmetic::div_mod::lemma_sub_mod_noop(x2.0 * y2.0, x2.1 * y2.1, p);
    vstd::arithmetic::div_mod::lemma_add_mod_noop(x1.0 * y1.1, x1.1 * y1.0, p);
    vstd::arithmetic::div_mod::lemma_add_mod_noop(x2.0 * y2.1, x2.1 * y2.0, p);
}

/// Sum of integer pairs.
pub open spec fn pair_add(x: (int, int), y: (int, int)) -> (int, int) {
    (x.0 + y.0, x.1 + y.1)
}

/// Negation of an integer pair.
pub open spec fn pair_neg(x: (int, int)) -> (int, int) {
    (-x.0, -x.1)
}

proof fn lemma_pair_mul_assoc(x: (int, int), y: (int, int), z: (int, int))
    ensures
        pair_mul(x, pair_mul(y, z)) == pair_mul(pair_mul(x, y), z),
{
    let (x0, x1) = x;
    let (y0, y1) = y;
    let (z0, z1) = z;
    broadcast use vstd::arithmetic::mul::group_mul_is_commutative_and_distributive;
    vstd::arithmetic::mul::lemma_mul_is_associative(x0, y0, z0);
    vstd::arithmetic::mul::lemma_mul_is_associative(x0, y1, z1);
    vstd::arithmetic::mul::lemma_mul_is_associative(x1, y0, z1);
    vstd::arithmetic::mul::lemma_mul_is_associative(x1, y1, z0);
    vstd::arithmetic::mul::lemma_mul_is_associative(x0, y0, z1);
    vstd::arithmetic::mul::lemma_mul_is_associative(x0, y1, z0);
    vstd::arithmetic::mul::lemma_mul_is_associative(x1, y0, z0);
    vstd::arithmetic::mul::lemma_mul_is_associative(x1, y1, z1);
    assert(x0 * (y0 * z0 - y1 * z1) == x0 * (y0 * z0) - x0 * (y1 * z1));
    assert(x1 * (y0 * z1 + y1 * z0) == x1 * (y0 * z1) + x1 * (y1 * z0));
    assert((x0 * y0 - x1 * y1) * z0 == (x0 * y0) * z0 - (x1 * y1) * z0);
    assert((x0 * y1 + x1 * y0) * z1 == (x0 * y1) * z1 + (x1 * y0) * z1);
    assert(x0 * (y0 * z1 + y1 * z0) == x0 * (y0 * z1) + x0 * (y1 * z0));
    assert(x1 * (y0 * z0 - y1 * z1) == x1 * (y0 * z0) - x1 * (y1 * z1));
    assert((x0 * y0 - x1 * y1) * z1 == (x0 * y0) * z1 - (x1 * y1) * z1);
    assert((x0 * y1 + x1 * y0) * z0 == (x0 * y1) * z0 + (x1 * y0) * z0);
}

proof fn lemma_pair_mul_comm(x: (int, int), y: (int, int))
    ensures
        pair_mul(x, y) == pair_mul(y, x),
{
    let (x0, x1) = x;
    let (y0, y1) = y;
    assert(x0 * y0 == y0 * x0 && x1 * y1 == y1 * x1) by (nonlinear_arith);
    assert(x0 * y1 == y1 * x0 && x1 * y0 == y0 * x1) by (nonlinear_arith);
}

proof fn lemma_pair_mul_neg(x: (int, int), y: (int, int))
    ensures
        pair_mul(pair_neg(x), y) == pair_neg(pair_mul(x, y)),
{
    let (x0, x1) = x;
    let (y0, y1) = y;
    assert((-x0) * y0 == -(x0 * y0) && (-x1) * y1 == -(x1 * y1)) by (nonlinear_arith);
    assert((-x0) * y1 == -(x0 * y1) && (-x1) * y0 == -(x1 * y0)) by (nonlinear_arith);
}

proof fn lemma_pair_mul_distrib(x: (int, int), y: (int, int), z: (int, int))
    ensures
        pair_mul(pair_add(x, y), z) == pair_add(pair_mul(x, z), pair_mul(y, z)),
{
    let (x0, x1) = x;
    let (y0, y1) = y;
    let (z0, z1) = z;
    assert((x0 + y0) * z0 == x0 * z0 + y0 * z0 && (x1 + y1) * z1 == x1 * z1 + y1 * z1)
        by (nonlinear_arith);
    assert((x0 + y0) * z1 == x0 * z1 + y0 * z1 && (x1 + y1) * z0 == x1 * z0 + y1 * z0)
        by (nonlinear_arith);
}

/// The canonical product of elements congruent to two pairs is congruent to
/// the product of the pairs.
proof fn lemma_cm31_mul_pair(c1: CM31, c2: CM31, x: (int, int), y: (int, int))
    requires
        pair_cong(pair_of(c1), x),
        pair_cong(pair_of(c2), y),
    ensures
        pair_cong(pair_of(cm31_mul_spec(c1, c2)), pair_mul(x, y)),
{
    lemma_pair_mul_cong(pair_of(c1), x, pair_of(c2), y);
    lemma_pair_of_canonical(cm31_mul_spec(c1, c2), pair_mul(pair_of(c1), pair_of(c2)));
}

/// The canonical sum of elements congruent to two pairs is congruent to the
/// sum of the pairs.
proof fn lemma_cm31_add_pair(c1: CM31, c2: CM31, x: (int, int), y: (int, int))
    requires
        pair_cong(pair_of(c1), x),
        pair_cong(pair_of(c2), y),
    ensures
        pair_cong(pair_of(cm31_add_spec(c1, c2)), (x.0 + y.0, x.1 + y.1)),
{
    let p = P as int;
    vstd::arithmetic::div_mod::lemma_add_mod_noop(c1.0 as int, c2.0 as int, p);
    vstd::arithmetic::div_mod::lemma_add_mod_noop(x.0, y.0, p);
    vstd::arithmetic::div_mod::lemma_add_mod_noop(c1.1 as int, c2.1 as int, p);
    vstd::arithmetic::div_mod::lemma_add_mod_noop(x.1, y.1, p);
    lemma_pair_of_canonical(cm31_add_spec(c1, c2), (c1.0 + c2.0, c1.1 + c2.1));
}

/// The canonical difference of elements congruent to two pairs is congruent
/// to the difference of the pairs.
proof fn lemma_cm31_sub_pair(c1: CM31, c2: CM31, x: (int, int), y: (int, int))
    requires
        pair_cong(pair_of(c1), x),
        pair_cong(pair_of(c2), y),
    ensures
        pair_cong(pair_of(cm31_sub_spec(c1, c2)), (x.0 - y.0, x.1 - y.1)),
{
    let p = P as int;
    vstd::arithmetic::div_mod::lemma_sub_mod_noop(c1.0 as int, c2.0 as int, p);
    vstd::arithmetic::div_mod::lemma_sub_mod_noop(x.0, y.0, p);
    vstd::arithmetic::div_mod::lemma_sub_mod_noop(c1.1 as int, c2.1 as int, p);
    vstd::arithmetic::div_mod::lemma_sub_mod_noop(x.1, y.1, p);
    lemma_pair_of_canonical(cm31_sub_spec(c1, c2), (c1.0 - c2.0, c1.1 - c2.1));
}

/// The norm `c^2 + d^2` of `c + d i`.
pub open spec fn cm31_norm_spec(x: CM31) -> u32 {
    m31(x.0 * x.0 + x.1 * x.1)
}

/// The norm `a^2 - (2 + i) b^2` of `a + b u`, an element of CM31.
pub open spec fn qm31_norm_spec(x: QM31) -> CM31 {
    cm31_sub_spec(cm31_mul_spec(x.0, x.0), cm31_mul_spec(r_spec(), cm31_mul_spec(x.1, x.1)))
}

/// The inverse in CM31, `(c - d i) / (c^2 + d^2)`, when the norm is nonzero.
fn cm31_try_inverse(x: CM31) -> (r: Option<CM31>)
    requires
        cm31_wf(x),
    ensures
        r is Some <==> cm31_norm_spec(x) != 0,
        r matches Some(y) ==> cm31_wf(y) && cm31_mul_spec(x, y) == CM31(1, 0),
{
    let norm = m31_add(m31_mul(x.0, x.0), m31_mul(x.1, x.1));
    proof {
        lemma_m31_add_noop(x.0 * x.0, x.1 * x.1);
    }
    if norm == 0 {
        return None;
    }
    let n_inv = crate::m31::m31_inverse(norm);
    let y = CM31(m31_mul(x.0, n_inv), m31_mul(m31_neg(x.1), n_inv));
    proof {
        let p = P as int;
        let a = x.0 as int;
        let b = x.1 as int;
        let ni = n_inv as int;
        let yp = (a * ni, -b * ni);
        // y is congruent to (a ni, -b ni).
        vstd::arithmetic::div_mod::lemma_mul_mod_noop_left(-b, ni, p);
        vstd::arithmetic::div_mod::lemma_mod_twice(a * ni, p);
        vstd::arithmetic::div_mod::lemma_mod_twice(-b * ni, p);
        assert(pair_cong(pair_of(y), yp));
        vstd::arithmetic::div_mod::lemma_small_mod(x.0 as nat, P as nat);
        vstd::arithmetic::div_mod::lemma_small_mod(x.1 as nat, P as nat);
        assert(pair_cong(pair_of(x), (a, b)));
        lemma_cm31_mul_pair(x, y, (a, b), yp);
        let prod = pair_mul((a, b), yp);
        assert(prod == ((a * a + b * b) * ni, 0int)) by (nonlinear_arith)
            requires
                prod == pair_mul((a, b), yp),
                yp == (a * ni, -b * ni),
        ;
        // (a^2 + b^2) ni = norm ni = 1 modulo p.
        vstd::arithmetic::div_mod::lemma_mul_mod_noop_left(a * a + b * b, ni, p);
        vstd::arithmetic::div_mod::lemma_small_mod(1, P as nat);
        vstd::arithmetic::mul::lemma_mul_is_commutative(norm as int, ni);
        assert(((a * a + b * b) * ni) % p == 1);
        vstd::arithmetic::div_mod::lemma_small_mod(0, P as nat);
        assert(pair_cong(pair_of(cm31_mul_spec(x, y)), (1int, 0int)));
        lemma_cm31_of_cong(pair_of(cm31_mul_spec(x, y)), (1int, 0int));
        let c = cm31_mul_spec(x, y);
        vstd::arithmetic::div_mod::lemma_small_mod(c.0 as nat, P as nat);
        vstd::arithmetic::div_mod::lemma_small_mod(c.1 as nat, P as nat);
    }
    Some(y)
}

impl QM31 {
    /// The multiplicative inverse `(a - b u) / (a^2 - (2 + i) b^2)`, when the
    /// norm of `a^2 - (2 + i) b^2` in CM31 is nonzero. Zero has no inverse.
    pub fn try_inverse(&self) -> (r: Option<QM31>)
        requires
            qm31_wf(*self),
        ensures
            r is Some <==> cm31_norm_spec(qm31_norm_spec(*self)) != 0,
            r matches Some(y) ==> qm31_wf(y) && qm31_mul_spec(*self, y) == qm31_one(),
            *self == qm31_zero() ==> r is None,
    {
        let a = self.0;
        let b = self.1;
        let denom = cm31_sub(cm31_mul(a, a), cm31_mul(CM31(2, 1), cm31_mul(b, b)));
        let denom_inv = match cm31_try_inverse(denom) {
            Some(d) => d,
            None => {
                proof {
                    if *self == qm31_zero() {
                        lemma_zero_norm();
                    }
                }
                return None;
            },
        };
        let neg_b = CM31(m31_neg(b.0), m31_neg(b.1));
        let candidate = QM31(cm31_mul(a, denom_inv), cm31_mul(neg_b, denom_inv));
        proof {
            lemma_qm31_inverse(*self, denom_inv, candidate);
            if *self == qm31_zero() {
                lemma_zero_norm();
            }
        }
        Some(candidate)
    }
}

/// Zero has norm zero.
proof fn lemma_zero_norm()
    ensures
        cm31_norm_spec(qm31_norm_spec(qm31_zero())) == 0,
{
    let z = CM31(0, 0);
    assert(m31(0) == 0);
    assert(0int * 0int == 0);
    assert(cm31_mul_spec(z, z) == z);
    assert(2int * 0int - 1int * 0int == 0 && 2int * 0int + 1int * 0int == 0);
    assert(cm31_mul_spec(r_spec(), z) == z);
    assert(cm31_sub_spec(z, z) == z);
    assert(cm31_norm_spec(z) == 0);
}

/// `(a + b u)` times `(a di - b di u)` is one when `di` inverts the norm.
proof fn lemma_qm31_inverse(x: QM31, di: CM31, cand: QM31)
    requires
        qm31_wf(x),
        cm31_wf(di),
        cm31_mul_spec(qm31_norm_spec(x), di) == CM31(1, 0),
        cand == QM31(cm31_mul_spec(x.0, di), cm31_mul_spec(cm31_neg_spec(x.1), di)),
    ensures
        qm31_mul_spec(x, cand) == qm31_one(),
{
    let p = P as int;
    let ap = pair_of(x.0);
    let bp = pair_of(x.1);
    let dp = pair_of(di);
    let rp = (2int, 1int);
    let nbp = (-bp.0, -bp.1);
    assert(pair_cong(pair_of(r_spec()), rp));
    vstd::arithmetic::div_mod::lemma_small_mod(x.1.0 as nat, P as nat);
    vstd::arithmetic::div_mod::lemma_small_mod(x.1.1 as nat, P as nat);
    assert(pair_cong(pair_of(cm31_neg_spec(x.1)), nbp)) by {
        vstd::arithmetic::div_mod::lemma_mod_twice(-bp.0, p);
        vstd::arithmetic::div_mod::lemma_mod_twice(-bp.1, p);
    }
    // The norm, as a polynomial pair.
    let a2 = pair_mul(ap, ap);
    let b2 = pair_mul(bp, bp);
    let rb2 = pair_mul(rp, b2);
    let np = (a2.0 - rb2.0, a2.1 - rb2.1);
    lemma_cm31_mul_pair(x.0, x.0, ap, ap);
    lemma_cm31_mul_pair(x.1, x.1, bp, bp);
    lemma_cm31_mul_pair(r_spec(), cm31_mul_spec(x.1, x.1), rp, b2);
    lemma_cm31_sub_pair(
        cm31_mul_spec(x.0, x.0),
        cm31_mul_spec(r_spec(), cm31_mul_spec(x.1, x.1)),
        a2,
        rb2,
    );
    let n = qm31_norm_spec(x);
    assert(pair_cong(pair_of(n), np));
    lemma_cm31_mul_pair(n, di, np, dp);
    let one_p = pair_mul(np, dp);
    assert(pair_cong(pair_of(CM31(1, 0)), one_p));
    // The candidate, as polynomial pairs.
    let c0 = pair_mul(ap, dp);
    let c1 = pair_mul(nbp, dp);
    lemma_cm31_mul_pair(x.0, di, ap, dp);
    lemma_cm31_mul_pair(cm31_neg_spec(x.1), di, nbp, dp);
    // First coordinate: a c0 + ((2 + i) b) c1 = (a^2 - (2 + i) b^2) di.
    let t1 = pair_mul(ap, c0);
    let rb = pair_mul(rp, bp);
    let t2 = pair_mul(rb, c1);
    lemma_cm31_mul_pair(x.0, cand.0, ap, c0);
    lemma_cm31_mul_pair(r_spec(), x.1, rp, bp);
    lemma_cm31_mul_pair(cm31_mul_spec(r_spec(), x.1), cand.1, rb, c1);
    lemma_cm31_add_pair(
        cm31_mul_spec(x.0, cand.0),
        cm31_mul_spec(cm31_mul_spec(r_spec(), x.1), cand.1),
        t1,
        t2,
    );
    // t1 = (a a) d
    lemma_pair_mul_assoc(ap, ap, dp);
    // t2 = (r b) ((-b) d) = -((r b) (b d)) = -(((r b) b) d) = -((r (b b)) d)
    lemma_pair_mul_neg(bp, dp);
    lemma_pair_mul_assoc(rb, bp, dp);
    lemma_pair_mul_assoc(rp, bp, bp);
    let rbbd = pair_mul(pair_mul(rb, bp), dp);
    assert(pair_mul(rb, pair_neg(pair_mul(bp, dp))) == pair_neg(pair_mul(rb, pair_mul(bp, dp))))
        by {
        lemma_pair_mul_comm(rb, pair_neg(pair_mul(bp, dp)));
        lemma_pair_mul_neg(pair_mul(bp, dp), rb);
        lemma_pair_mul_comm(pair_mul(bp, dp), rb);
    }
    assert(t2 == pair_neg(pair_mul(rb2, dp)));
    lemma_pair_mul_neg(rb2, dp);
    lemma_pair_mul_distrib(a2, pair_neg(rb2), dp);
    assert(pair_add(a2, pair_neg(rb2)) == np);
    assert((t1.0 + t2.0, t1.1 + t2.1) == one_p);
    // Second coordinate: a c1 + b c0 = -(a (b d)) + b (a d) = 0.
    let s1 = pair_mul(ap, c1);
    let s2 = pair_mul(bp, c0);
    lemma_cm31_mul_pair(x.0, cand.1, ap, c1);
    lemma_cm31_mul_pair(x.1, cand.0, bp, c0);
    lemma_cm31_add_pair(cm31_mul_spec(x.0, cand.1), cm31_mul_spec(x.1, cand.0), s1, s2);
    lemma_pair_mul_comm(ap, pair_neg(pair_mul(bp, dp)));
    lemma_pair_mul_neg(pair_mul(bp, dp), ap);
    lemma_pair_mul_comm(pair_mul(bp, dp), ap);
    lemma_pair_mul_assoc(ap, bp, dp);
    lemma_pair_mul_assoc(bp, ap, dp);
    lemma_pair_mul_comm(ap, bp);
    assert((s1.0 + s2.0, s1.1 + s2.1) == (0int, 0int));
    let prod = qm31_mul_spec(x, cand);
    assert(pair_cong(pair_of(prod.0), pair_of(CM31(1, 0))));
    assert(pair_cong(pair_of(prod.1), (0int, 0int)));
    vstd::arithmetic::div_mod::lemma_small_mod(0, P as nat);
    vstd::arithmetic::div_mod::lemma_small_mod(1, P as nat);
    vstd::arithmetic::div_mod::lemma_small_mod(prod.0.0 as nat, P as nat);
    vstd::arithmetic::div_mod::lemma_small_mod(prod.0.1 as nat, P as nat);
    vstd::arithmetic::div_mod::lemma_small_mod(prod.1.0 as nat, P as nat);
    vstd::arithmetic::div_mod::lemma_small_mod(prod.1.1 as nat, P as nat);
}

/// A secure-field element as two integer pairs.
pub type QuadRep = ((int, int), (int, int));

/// The canonical element is congruent to the representation.
pub open spec fn quad_cong(x: QM31, r: QuadRep) -> bool {
    pair_cong(pair_of(x.0), r.0) && pair_cong(pair_of(x.1), r.1)
}

/// The representation of a canonical element by its own coordinates.
pub open spec fn quad_of(x: QM31) -> QuadRep {
    (pair_of(x.0), pair_of(x.1))
}

/// The product of representations.
pub open spec fn quad_mul(x: QuadRep, y: QuadRep) -> QuadRep {
    (
        pair_add(pair_mul(x.0, y.0), pair_mul(pair_mul((2int, 1int), x.1), y.1)),
        pair_add(pair_mul(x.0, y.1), pair_mul(x.1, y.0)),
    )
}

/// The sum of representations.
pub open spec fn quad_add(x: QuadRep, y: QuadRep) -> QuadRep {
    (pair_add(x.0, y.0), pair_add(x.1, y.1))
}

proof fn lemma_quad_mul_cong(x: QM31, y: QM31, xr: QuadRep, yr: QuadRep)
    requires
        quad_cong(x, xr),
        quad_cong(y, yr),
    ensures
        quad_cong(qm31_mul_spec(x, y), quad_mul(xr, yr)),
{
    let rp = (2int, 1int);
    assert(pair_cong(pair_of(r_spec()), rp));
    lemma_cm31_mul_pair(x.0, y.0, xr.0, yr.0);
    lemma_cm31_mul_pair(r_spec(), x.1, rp, xr.1);
    lemma_cm31_mul_pair(cm31_mul_spec(r_spec(), x.1), y.1, pair_mul(rp, xr.1), yr.1);
    lemma_cm31_add_pair(
        cm31_mul_spec(x.0, y.0),
        cm31_mul_spec(cm31_mul_spec(r_spec(), x.1), y.1),
        pair_mul(xr.0, yr.0),
        pair_mul(pair_mul(rp, xr.1), yr.1),
    );
    lemma_cm31_mul_pair(x.0, y.1, xr.0, yr.1);
    lemma_cm31_mul_pair(x.1, y.0, xr.1, yr.0);
    lemma_cm31_add_pair(
        cm31_mul_spec(x.0, y.1),
        cm31_mul_spec(x.1, y.0),
        pair_mul(xr.0, yr.1),
        pair_mul(xr.1, yr.0),
    );
}

proof fn lemma_quad_add_cong(x: QM31, y: QM31, xr: QuadRep, yr: QuadRep)
    requires
        quad_cong(x, xr),
        quad_cong(y, yr),
    ensures
        quad_cong(qm31_add_spec(x, y), quad_add(xr, yr)),
{
    lemma_cm31_add_pair(x.0, y.0, xr.0, yr.0);
    lemma_cm31_add_pair(x.1, y.1, xr.1, yr.1);
}

/// Two canonical elements congruent to one representation are equal.
proof fn lemma_quad_unique(x: QM31, y: QM31, r: QuadRep)
    requires
        qm31_wf(x),
        qm31_wf(y),
        quad_cong(x, r),
        quad_cong(y, r),
    ensures
        x == y,
{
    vstd::arithmetic::div_mod::lemma_small_mod(x.0.0 as nat, P as nat);
    vstd::arithmetic::div_mod::lemma_small_mod(x.0.1 as nat, P as nat);
    vstd::arithmetic::div_mod::lemma_small_mod(x.1.0 as nat, P as nat);
    vstd::arithmetic::div_mod::lemma_small_mod(x.1.1 as nat, P as nat);
    vstd::arithmetic::div_mod::lemma_small_mod(y.0.0 as nat, P as nat);
    vstd::arithmetic::div_mod::lemma_small_mod(y.0.1 as nat, P as nat);
    vstd::arithmetic::div_mod::lemma_small_mod(y.1.0 as nat, P as nat);
    vstd::arithmetic::div_mod::lemma_small_mod(y.1.1 as nat, P as nat);
}

proof fn lemma_pair_mul_distrib_left(x: (int, int), y: (int, int), z: (int, int))
    ensures
        pair_mul(x, pair_add(y, z)) == pair_add(pair_mul(x, y), pair_mul(x, z)),
{
    lemma_pair_mul_comm(x, pair_add(y, z));
    lemma_pair_mul_distrib(y, z, x);
    lemma_pair_mul_comm(y, x);
    lemma_pair_mul_comm(z, x);
}

proof fn lemma_quad_mul_comm(x: QuadRep, y: QuadRep)
    ensures
        quad_mul(x, y) == quad_mul(y, x),
{
    let rp = (2int, 1int);
    lemma_pair_mul_comm(x.0, y.0);
    lemma_pair_mul_comm(x.0, y.1);
    lemma_pair_mul_comm(x.1, y.0);
    lemma_pair_mul_assoc(rp, x.1, y.1);
    lemma_pair_mul_assoc(rp, y.1, x.1);
    lemma_pair_mul_comm(x.1, y.1);
}

proof fn lemma_quad_mul_assoc(x: QuadRep, y: QuadRep, z: QuadRep)
    ensures
        quad_mul(quad_mul(x, y), z) == quad_mul(x, quad_mul(y, z)),
{
    let rp = (2int, 1int);
    let (a, b) = x;
    let (c, d) = y;
    let (e, f) = z;
    let rb = pair_mul(rp, b);
    let rd = pair_mul(rp, d);
    // First coordinate.
    // (ac + (Rb)d) e + (R(ad + bc)) f = a(ce + (Rd)f) + (Rb)(cf + de)
    lemma_pair_mul_distrib(pair_mul(a, c), pair_mul(rb, d), e);
    lemma_pair_mul_distrib_left(rp, pair_mul(a, d), pair_mul(b, c));
    lemma_pair_mul_distrib(pair_mul(rp, pair_mul(a, d)), pair_mul(rp, pair_mul(b, c)), f);
    lemma_pair_mul_distrib_left(a, pair_mul(c, e), pair_mul(rd, f));
    lemma_pair_mul_distrib_left(rb, pair_mul(c, f), pair_mul(d, e));
    lemma_pair_mul_assoc(a, c, e);
    lemma_pair_mul_assoc(rb, d, e);
    // (R(ad)) f = a((Rd) f)
    lemma_pair_mul_assoc(rp, a, d);
    lemma_pair_mul_comm(rp, a);
    lemma_pair_mul_assoc(a, rp, d);
    lemma_pair_mul_assoc(a, rd, f);
    assert(pair_mul(rp, pair_mul(a, d)) == pair_mul(a, rd));
    // (R(bc)) f = (Rb)(cf)
    lemma_pair_mul_assoc(rp, b, c);
    lemma_pair_mul_assoc(rb, c, f);
    // Second coordinate.
    // (ac + (Rb)d) f + (ad + bc) e = a(cf + de) + b(ce + (Rd)f)
    lemma_pair_mul_distrib(pair_mul(a, c), pair_mul(rb, d), f);
    lemma_pair_mul_distrib(pair_mul(a, d), pair_mul(b, c), e);
    lemma_pair_mul_distrib_left(a, pair_mul(c, f), pair_mul(d, e));
    lemma_pair_mul_distrib_left(b, pair_mul(c, e), pair_mul(rd, f));
    lemma_pair_mul_assoc(a, c, f);
    lemma_pair_mul_assoc(a, d, e);
    lemma_pair_mul_assoc(b, c, e);
    // ((Rb)d) f = b((Rd) f)
    lemma_pair_mul_comm(rp, b);
    lemma_pair_mul_assoc(b, rp, d);
    lemma_pair_mul_assoc(rp, b, d);
    lemma_pair_mul_assoc(b, rd, f);
    assert(pair_mul(rb, d) == pair_mul(b, rd));
}

proof fn lemma_quad_mul_distrib(x: QuadRep, y: QuadRep, z: QuadRep)
    ensures
        quad_mul(x, quad_add(y, z)) == quad_add(quad_mul(x, y), quad_mul(x, z)),
{
    let rp = (2int, 1int);
    lemma_pair_mul_distrib_left(x.0, y.0, z.0);
    lemma_pair_mul_distrib_left(pair_mul(rp, x.1), y.1, z.1);
    lemma_pair_mul_distrib_left(x.0, y.1, z.1);
    lemma_pair_mul_distrib_left(x.1, y.0, z.0);
}

/// Every element made by the field operations is canonical.
pub proof fn lemma_qm31_ops_wf(x: QM31, y: QM31)
    ensures
        qm31_wf(qm31_mul_spec(x, y)),
        qm31_wf(qm31_add_spec(x, y)),
{
}

/// The product is commutative.
pub proof fn lemma_qm31_mul_comm(x: QM31, y: QM31)
    requires
        qm31_wf(x),
        qm31_wf(y),
    ensures
        qm31_mul_spec(x, y) == qm31_mul_spec(y, x),
{
    lemma_quad_mul_cong(x, y, quad_of(x), quad_of(y));
    lemma_quad_mul_cong(y, x, quad_of(y), quad_of(x));
    lemma_quad_mul_comm(quad_of(x), quad_of(y));
    lemma_quad_unique(qm31_mul_spec(x, y), qm31_mul_spec(y, x), quad_mul(quad_of(x), quad_of(y)));
}

/// The product is associative.
pub proof fn lemma_qm31_mul_assoc(x: QM31, y: QM31, z: QM31)
    requires
        qm31_wf(x),
        qm31_wf(y),
        qm31_wf(z),
    ensures
        qm31_mul_spec(qm31_mul_spec(x, y), z) == qm31_mul_spec(x, qm31_mul_spec(y, z)),
{
    let (xr, yr, zr) = (quad_of(x), quad_of(y), quad_of(z));
    lemma_quad_mul_cong(x, y, xr, yr);
    lemma_quad_mul_cong(qm31_mul_spec(x, y), z, quad_mul(xr, yr), zr);
    lemma_quad_mul_cong(y, z, yr, zr);
    lemma_quad_mul_cong(x, qm31_mul_spec(y, z), xr, quad_mul(yr, zr));
    lemma_quad_mul_assoc(xr, yr, zr);
    lemma_quad_unique(
        qm31_mul_spec(qm31_mul_spec(x, y), z),
        qm31_mul_spec(x, qm31_mul_spec(y, z)),
        quad_mul(quad_mul(xr, yr), zr),
    );
}

/// The product distributes over the sum.
pub proof fn lemma_qm31_mul_distrib(x: QM31, y: QM31, z: QM31)
    requires
        qm31_wf(x),
        qm31_wf(y),
        qm31_wf(z),
    ensures
        qm31_mul_spec(x, qm31_add_spec(y, z)) == qm31_add_spec(
            qm31_mul_spec(x, y),
            qm31_mul_spec(x, z),
        ),
{
    let (xr, yr, zr) = (quad_of(x), quad_of(y), quad_of(z));
    lemma_quad_add_cong(y, z, yr, zr);
    lemma_quad_mul_cong(x, qm31_add_spec(y, z), xr, quad_add(yr, zr));
    lemma_quad_mul_cong(x, y, xr, yr);
    lemma_quad_mul_cong(x, z, xr, zr);
    lemma_quad_add_cong(
        qm31_mul_spec(x, y),
        qm31_mul_spec(x, z),
        quad_mul(xr, yr),
        quad_mul(xr, zr),
    );
    lemma_quad_mul_distrib(xr, yr, zr);
    lemma_quad_unique(
        qm31_mul_spec(x, qm31_add_spec(y, z)),
        qm31_add_spec(qm31_mul_spec(x, y), qm31_mul_spec(x, z)),
        quad_mul(xr, quad_add(yr, zr)),
    );
}

/// Zero times anything is zero, zero is a left identity of the sum, and
/// scaling by zero gives zero.
pub proof fn lemma_qm31_zero_laws(x: QM31)
    requires
        qm31_wf(x),
    ensures
        qm31_mul_spec(qm31_zero(), x) == qm31_zero(),
        qm31_add_spec(qm31_zero(), x) == x,
        qm31_scale_spec(x, 0) == qm31_zero(),
{
    let z = CM31(0, 0);
    assert(m31(0) == 0);
    assert forall|y: CM31| #[trigger] cm31_mul_spec(z, y) == z by {
        assert(0 * y.0 - 0 * y.1 == 0);
        assert(0 * y.1 + 0 * y.0 == 0);
    }
    assert(2int * 0int - 1int * 0int == 0 && 2int * 0int + 1int * 0int == 0);
    assert(cm31_mul_spec(r_spec(), z) == z);
    assert(cm31_add_spec(z, z) == z);
    vstd::arithmetic::div_mod::lemma_small_mod(x.0.0 as nat, P as nat);
    vstd::arithmetic::div_mod::lemma_small_mod(x.0.1 as nat, P as nat);
    vstd::arithmetic::div_mod::lemma_small_mod(x.1.0 as nat, P as nat);
    vstd::arithmetic::div_mod::lemma_small_mod(x.1.1 as nat, P as nat);
    assert(x.0.0 * 0 == 0 && x.0.1 * 0 == 0 && x.1.0 * 0 == 0 && x.1.1 * 0 == 0);
}

/// `(p q)(r s) = (p r)(q s)`.
pub proof fn lemma_qm31_mul_swap(p: QM31, q: QM31, r: QM31, s: QM31)
    requires
        qm31_wf(p),
        qm31_wf(q),
        qm31_wf(r),
        qm31_wf(s),
    ensures
        qm31_mul_spec(qm31_mul_spec(p, q), qm31_mul_spec(r, s)) == qm31_mul_spec(
            qm31_mul_spec(p, r),
            qm31_mul_spec(q, s),
        ),
{
    // (p q)(r s) = p (q (r s)) = p ((q r) s) = p ((r q) s) = p (r (q s)) = (p r)(q s)
    lemma_qm31_mul_assoc(p, q, qm31_mul_spec(r, s));
    lemma_qm31_mul_assoc(q, r, s);
    lemma_qm31_mul_comm(q, r);
    lemma_qm31_mul_assoc(r, q, s);
    lemma_qm31_mul_assoc(p, r, qm31_mul_spec(q, s));
}

} // verus!
