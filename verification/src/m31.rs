//! Arithmetic in the Mersenne-31 prime field, the base field of the trace.
//! A field element is held as a `u32` in the canonical range `0..P`.

use vstd::prelude::*;

verus! {

/// The field modulus 2^31 - 1.
pub const P: u32 = 2147483647;

/// A canonical field element.
pub open spec fn is_m31(x: u32) -> bool {
    x < P
}

/// The canonical representative of an integer.
pub open spec fn m31(x: int) -> u32 {
    (x % (P as int)) as u32
}

/// Sum of two field elements.
pub fn m31_add(a: u32, b: u32) -> (r: u32)
    requires
        is_m31(a),
        is_m31(b),
    ensures
        r == m31(a + b),
        is_m31(r),
{
    let s = a + b;
    if s >= P {
        s - P
    } else {
        s
    }
}

/// Difference of two field elements.
pub fn m31_sub(a: u32, b: u32) -> (r: u32)
    requires
        is_m31(a),
        is_m31(b),
    ensures
        r == m31(a - b),
        is_m31(r),
{
    if a >= b {
        a - b
    } else {
        a + (P - b)
    }
}

/// Product of two field elements.
pub fn m31_mul(a: u32, b: u32) -> (r: u32)
    requires
        is_m31(a),
        is_m31(b),
    ensures
        r == m31(a * b),
        is_m31(r),
{
    let x: u64 = a as u64;
    let y: u64 = b as u64;
    assert(x * y <= 0xffff_ffff_ffff_ffff) by (nonlinear_arith)
        requires
            x < 0x1_0000_0000,
            y < 0x1_0000_0000,
    ;
    let prod: u64 = x * y;
    (prod % (P as u64)) as u32
}

/// Additive inverse of a field element.
pub fn m31_neg(a: u32) -> (r: u32)
    requires
        is_m31(a),
    ensures
        r == m31(-a),
        is_m31(r),
{
    if a == 0 {
        0
    } else {
        P - a
    }
}

/// Reducing the operands first does not change a reduced sum.
pub proof fn lemma_m31_add_noop(x: int, y: int)
    ensures
        m31(m31(x) + m31(y)) == m31(x + y),
{
    vstd::arithmetic::div_mod::lemma_add_mod_noop(x, y, P as int);
}

/// Reducing the operands first does not change a reduced difference.
pub proof fn lemma_m31_sub_noop(x: int, y: int)
    ensures
        m31(m31(x) - m31(y)) == m31(x - y),
{
    vstd::arithmetic::div_mod::lemma_sub_mod_noop(x, y, P as int);
}

/// Reducing the operands first does not change a reduced product.
pub proof fn lemma_m31_mul_noop(x: int, y: int)
    ensures
        m31(m31(x) * m31(y)) == m31(x * y),
{
    vstd::arithmetic::div_mod::lemma_mul_mod_noop(x, y, P as int);
}

/// The product of a field element and any 32-bit integer, reduced: the
/// integer is taken as the field element it stands for.
pub fn m31_mul_u32(a: u32, v: u32) -> (r: u32)
    requires
        is_m31(a),
    ensures
        r == m31(a * v),
        is_m31(r),
{
    let reduced = v % P;
    let r = m31_mul(a, reduced);
    proof {
        lemma_m31_mul_noop(a as int, v as int);
        vstd::arithmetic::div_mod::lemma_small_mod(a as nat, P as nat);
    }
    r
}

/// The modulus has no factor between 2 and its square root.
#[verifier::rlimit(100)]
proof fn lemma_p_has_no_small_factor()
    ensures
        forall|u: u64, v: u64|
            2 <= u < 46341 && 2 <= v < 0x8000_0000 ==> #[trigger] (u * v) != 2147483647u64,
{
    assert(forall|u: u64, v: u64|
        2 <= u < 46341 && 2 <= v < 0x8000_0000 ==> #[trigger] (u * v) != 2147483647u64)
        by (bit_vector);
}

/// The modulus is prime: it is not the product of two integers that are
/// both at least 2.
pub proof fn lemma_p_is_prime(x: int, y: int)
    requires
        2 <= x,
        2 <= y,
    ensures
        x * y != P,
{
    if x * y == P {
        lemma_p_has_no_small_factor();
        let (s, t) = if x <= y {
            (x, y)
        } else {
            (y, x)
        };
        assert(s * t == P) by (nonlinear_arith)
            requires
                x * y == P,
                (s == x && t == y) || (s == y && t == x),
        ;
        assert(s < 46341 && t < 0x8000_0000) by (nonlinear_arith)
            requires
                2 <= s <= t,
                s * t == 2147483647,
        ;
        assert((s as u64) * (t as u64) != 2147483647u64);
    }
}

/// Two integers with a common divisor above 1: one that the modulus and a
/// field element in `1..P` never have.
pub open spec fn common_divisor(x: int, y: int, d: int) -> bool {
    1 < d && x % d == 0 && y % d == 0
}

/// A nonzero field element and the modulus have no common divisor above 1.
proof fn lemma_coprime_to_p(a: int, d: int)
    requires
        0 < a < P,
    ensures
        !common_divisor(P as int, a, d),
{
    if common_divisor(P as int, a, d) {
        vstd::arithmetic::div_mod::lemma_fundamental_div_mod(a, d);
        vstd::arithmetic::div_mod::lemma_fundamental_div_mod(P as int, d);
        let k = a / d;
        let e = (P as int) / d;
        assert(a == d * k);
        assert(P == d * e);
        assert(k >= 1) by (nonlinear_arith)
            requires
                a == d * k,
                a > 0,
                d > 1,
        ;
        assert(d <= a) by (nonlinear_arith)
            requires
                a == d * k,
                k >= 1,
                d > 1,
        ;
        assert(e >= 2) by (nonlinear_arith)
            requires
                P == d * e,
                d <= a,
                a < P,
                d > 1,
        ;
        lemma_p_is_prime(d, e);
    }
}

/// A common divisor of `r1` and `r0 % r1` divides `r0`.
proof fn lemma_common_divisor_step(r0: int, r1: int, d: int)
    requires
        r1 > 0,
        common_divisor(r1, r0 % r1, d),
    ensures
        common_divisor(r0, r1, d),
{
    vstd::arithmetic::div_mod::lemma_fundamental_div_mod(r0, r1);
    vstd::arithmetic::div_mod::lemma_fundamental_div_mod(r1, d);
    vstd::arithmetic::div_mod::lemma_fundamental_div_mod(r0 % r1, d);
    let q = r0 / r1;
    let k1 = r1 / d;
    let k2 = (r0 % r1) / d;
    assert(r0 == d * (q * k1 + k2)) by (nonlinear_arith)
        requires
            r0 == r1 * q + r0 % r1,
            r1 == d * k1,
            r0 % r1 == d * k2,
    ;
    vstd::arithmetic::mul::lemma_mul_is_commutative(d, q * k1 + k2);
    vstd::arithmetic::div_mod::lemma_mod_multiples_basic(q * k1 + k2, d);
}

/// The multiplicative inverse of a nonzero field element, by the extended
/// Euclidean algorithm on the modulus and the element.
pub fn m31_inverse(a: u32) -> (r: u32)
    requires
        0 < a < P,
    ensures
        is_m31(r),
        m31(a * r) == 1,
{
    let mut r0: u32 = P;
    let mut r1: u32 = a;
    let mut t0: u32 = 0;
    let mut t1: u32 = 1;
    assert forall|d: int| !common_divisor(r0 as int, r1 as int, d) by {
        lemma_coprime_to_p(a as int, d);
    }
    while r1 != 0
        invariant
            0 <= r1 < r0 <= P,
            0 < a < P,
            is_m31(t0),
            is_m31(t1),
            (r0 as int) % (P as int) == (t0 * a) % (P as int),
            (r1 as int) % (P as int) == (t1 * a) % (P as int),
            forall|d: int| !common_divisor(r0 as int, r1 as int, d),
        decreases r1,
    {
        let q = r0 / r1;
        let r2 = r0 % r1;
        let t2 = m31_sub(t0, m31_mul(q % P, t1));
        proof {
            let p = P as int;
            assert forall|d: int| !common_divisor(r1 as int, r2 as int, d) by {
                if common_divisor(r1 as int, r2 as int, d) {
                    lemma_common_divisor_step(r0 as int, r1 as int, d);
                }
            }
            vstd::arithmetic::div_mod::lemma_fundamental_div_mod(r0 as int, r1 as int);
            assert(r2 as int == r0 - r1 * q);
            // r2 = r0 - q r1 = t0 a - q t1 a = (t0 - q t1) a, modulo p.
            let qm = (q as int) % p;
            vstd::arithmetic::div_mod::lemma_sub_mod_noop(r0 as int, r1 * q, p);
            vstd::arithmetic::div_mod::lemma_mul_mod_noop_left(r1 as int, q as int, p);
            vstd::arithmetic::div_mod::lemma_mul_mod_noop_right(r1 as int, q as int, p);
            vstd::arithmetic::div_mod::lemma_mul_mod_noop_left(t1 * a, q as int, p);
            vstd::arithmetic::div_mod::lemma_mul_mod_noop_right(t1 * a, q as int, p);
            assert((r1 * q) % p == ((t1 * a) * qm) % p) by {
                vstd::arithmetic::div_mod::lemma_mul_mod_noop_left(r1 as int, qm, p);
                vstd::arithmetic::div_mod::lemma_mul_mod_noop_left(t1 * a, qm, p);
                vstd::arithmetic::div_mod::lemma_mod_twice(q as int, p);
            }
            let big_t = t0 - qm * t1;
            assert((t0 * a - (t1 * a) * qm) == big_t * a) by (nonlinear_arith)
                requires
                    big_t == t0 - qm * t1,
            ;
            vstd::arithmetic::div_mod::lemma_sub_mod_noop(t0 * a, (t1 * a) * qm, p);
            assert((r2 as int) % p == (big_t * a) % p);
            lemma_m31_sub_noop(t0 as int, qm * t1);
            vstd::arithmetic::div_mod::lemma_small_mod(t0 as nat, P as nat);
            vstd::arithmetic::div_mod::lemma_small_mod(qm as nat, P as nat);
            assert(t2 as int == (big_t % p));
            vstd::arithmetic::div_mod::lemma_mul_mod_noop_left(big_t, a as int, p);
        }
        r0 = r1;
        r1 = r2;
        t0 = t1;
        t1 = t2;
    }
    proof {
        if r0 > 1 {
            vstd::arithmetic::div_mod::lemma_mod_self_0(r0 as int);
            assert(common_divisor(r0 as int, 0, r0 as int));
        }
        vstd::arithmetic::div_mod::lemma_small_mod(1, P as nat);
        vstd::arithmetic::mul::lemma_mul_is_commutative(a as int, t0 as int);
    }
    t0
}

} // verus!
