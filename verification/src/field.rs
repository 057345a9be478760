//! The prime-field model.
//!
//! A field element is an integer residue in `[0, p)` for a modulus `p`; the
//! spec-level operations reduce ordinary integer arithmetic modulo `p`. The
//! only property the constraint laws need of the modulus is that every nonzero
//! residue has a multiplicative inverse (`is_field`), which holds exactly
//! when `p` is prime. Inversion follows the `inv0` convention: the inverse
//! of zero is zero, not a failure.

use vstd::prelude::*;
use vstd::arithmetic::div_mod::{
    lemma_small_mod, lemma_mul_mod_noop_general, lemma_mod_add_multiples_vanish,
};
use vstd::arithmetic::mul::{
    lemma_mul_is_associative, lemma_mul_is_commutative, lemma_mul_upper_bound,
};

verus! {

/// Field addition on residues: `(a + b) mod p`.
pub open spec fn fadd(p: int, a: int, b: int) -> int {
    (a + b) % p
}

/// Field subtraction on residues: `(a - b) mod p`.
pub open spec fn fsub(p: int, a: int, b: int) -> int {
    (a - b) % p
}

/// Field multiplication on residues: `(a * b) mod p`.
pub open spec fn fmul(p: int, a: int, b: int) -> int {
    (a * b) % p
}

/// Field negation on residues: `(-a) mod p`.
pub open spec fn fneg(p: int, a: int) -> int {
    (-a) % p
}

/// `w` is a multiplicative inverse of `v` modulo `p`.
pub open spec fn is_inv(p: int, v: int, w: int) -> bool {
    0 <= w < p && fmul(p, v, w) == 1
}

/// `v` has a multiplicative inverse modulo `p`.
pub open spec fn has_inv(p: int, v: int) -> bool {
    exists|w: int| is_inv(p, v, w)
}

/// Every nonzero residue modulo `p` has a multiplicative inverse. This is
/// the property a prime modulus provides, and all that the constraint laws need
/// of the field.
pub open spec fn is_field(p: int) -> bool {
    1 < p && forall|v: int| 0 < v < p ==> has_inv(p, v)
}

/// The multiplicative inverse of `v` modulo `p`, or `0` when `v` has none;
/// in particular `inv0(p, 0) == 0`.
pub open spec fn inv0(p: int, v: int) -> int {
    if has_inv(p, v) {
        choose|w: int| is_inv(p, v, w)
    } else {
        0
    }
}

/// A residue has at most one inverse: if `w1` and `w2` both invert `v`,
/// then `w1 == w1 * (v * w2) == (w1 * v) * w2 == w2` modulo `p`.
pub proof fn lemma_inv_unique(p: int, v: int, w1: int, w2: int)
    requires
        0 < p,
        is_inv(p, v, w1),
        is_inv(p, v, w2),
    ensures
        w1 == w2,
{
    lemma_small_mod(w1 as nat, p as nat);
    lemma_small_mod(w2 as nat, p as nat);
    lemma_mul_is_commutative(v, w1);
    lemma_mul_is_commutative(v, w2);
    lemma_mul_is_associative(w1, v, w2);
    lemma_mul_mod_noop_general(w1, v * w2, p);
    lemma_mul_mod_noop_general(w1 * v, w2, p);
    assert((w1 * ((v * w2) % p)) % p == w1 % p);
    assert((((w1 * v) % p) * w2) % p == w2 % p);
}

/// When `v` has an inverse, `inv0(p, v)` is that inverse.
pub proof fn lemma_inv0_is_inv(p: int, v: int)
    requires
        0 < p,
        has_inv(p, v),
    ensures
        is_inv(p, v, inv0(p, v)),
{
}

/// `inv0` maps zero to zero: no residue multiplies with zero to one.
pub proof fn lemma_inv0_zero(p: int)
    requires
        1 < p,
    ensures
        inv0(p, 0) == 0,
{
    lemma_small_mod(0nat, p as nat);
    assert forall|w: int| !is_inv(p, 0, w) by {
        assert(0 * w == 0);
    }
}

/// In a field, a product of nonzero residues is nonzero: there are no zero
/// divisors.
pub proof fn lemma_no_zero_divisors(p: int, a: int, b: int)
    requires
        is_field(p),
        0 < a < p,
        0 < b < p,
    ensures
        fmul(p, a, b) != 0,
{
    assert(has_inv(p, a));
    let u = choose|w: int| is_inv(p, a, w);
    assert(is_inv(p, a, u));
    if fmul(p, a, b) == 0 {
        lemma_small_mod(b as nat, p as nat);
        lemma_mul_is_commutative(a, u);
        lemma_mul_mod_noop_general(u * a, b, p);
        lemma_mul_is_associative(u, a, b);
        lemma_mul_mod_noop_general(u, a * b, p);
        assert((((u * a) % p) * b) % p == b % p);
        assert(u * ((a * b) % p) == 0) by (nonlinear_arith)
            requires
                (a * b) % p == 0,
        ;
        assert(0int % p == 0);
        assert(b % p == 0);
        assert(false);
    }
}

/// Field addition on residue representatives.
pub fn fp_add(p: u64, a: u64, b: u64) -> (r: u64)
    requires
        1 < p,
        a < p,
        b < p,
    ensures
        r as int == fadd(p as int, a as int, b as int),
        r < p,
{
    let s: u128 = a as u128 + b as u128;
    let m: u128 = s % (p as u128);
    m as u64
}

/// Field subtraction on residue representatives.
pub fn fp_sub(p: u64, a: u64, b: u64) -> (r: u64)
    requires
        1 < p,
        a < p,
        b < p,
    ensures
        r as int == fsub(p as int, a as int, b as int),
        r < p,
{
    let s: u128 = (a as u128 + p as u128) - b as u128;
    let m: u128 = s % (p as u128);
    proof {
        lemma_mod_add_multiples_vanish(a as int - b as int, p as int);
    }
    m as u64
}

/// Field multiplication on residue representatives.
pub fn fp_mul(p: u64, a: u64, b: u64) -> (r: u64)
    requires
        1 < p,
        a < p,
        b < p,
    ensures
        r as int == fmul(p as int, a as int, b as int),
        r < p,
{
    proof {
        lemma_mul_upper_bound(a as int, 0xffff_ffff_ffff_ffff, b as int, 0xffff_ffff_ffff_ffff);
    }
    let prod: u128 = (a as u128) * (b as u128);
    let m: u128 = prod % (p as u128);
    m as u64
}

/// Field negation on residue representatives.
pub fn fp_neg(p: u64, a: u64) -> (r: u64)
    requires
        1 < p,
        a < p,
    ensures
        r as int == fneg(p as int, a as int),
        r < p,
{
    if a == 0 {
        0
    } else {
        proof {
            lemma_mod_add_multiples_vanish(-(a as int), p as int);
            lemma_small_mod((p - a) as nat, p as nat);
        }
        p - a
    }
}

/// Reduce an arbitrary machine integer into the field.
pub fn fp_from(p: u64, x: u64) -> (r: u64)
    requires
        1 < p,
    ensures
        r as int == (x as int) % (p as int),
        r < p,
{
    x % p
}

/// Multiplicative inverse with the `inv0` convention: the inverse of `v`
/// modulo `p` when one exists, and `0` otherwise (so `fp_inv0(p, 0) == 0`).
pub fn fp_inv0(p: u64, v: u64) -> (r: u64)
    requires
        1 < p,
        v < p,
    ensures
        r as int == inv0(p as int, v as int),
        r < p,
{
    let mut w: u64 = 0;
    while w < p
        invariant
            1 < p,
            v < p,
            w <= p,
            forall|x: int| 0 <= x < w ==> !is_inv(p as int, v as int, x),
        decreases p - w,
    {
        if fp_mul(p, v, w) == 1 {
            proof {
                assert(is_inv(p as int, v as int, w as int));
                let ww = choose|x: int| is_inv(p as int, v as int, x);
                lemma_inv_unique(p as int, v as int, w as int, ww);
            }
            return w;
        }
        w = w + 1;
    }
    proof {
        assert forall|x: int| !is_inv(p as int, v as int, x) by {
            if 0 <= x < p {
                assert(!is_inv(p as int, v as int, x));
            }
        }
    }
    0
}

/// Decide whether the residues modulo `p` form a field, that is, whether
/// every nonzero residue has a multiplicative inverse. This holds exactly
/// when `p` is prime.
pub fn fp_is_field(p: u64) -> (r: bool)
    ensures
        r == is_field(p as int),
{
    if p <= 1 {
        return false;
    }
    let mut v: u64 = 1;
    while v < p
        invariant
            1 < p,
            1 <= v <= p,
            forall|x: int| 0 < x < v ==> has_inv(p as int, x),
        decreases p - v,
    {
        let w = fp_inv0(p, v);
        if fp_mul(p, v, w) != 1 {
            proof {
                if has_inv(p as int, v as int) {
                    lemma_inv0_is_inv(p as int, v as int);
                }
                assert(!has_inv(p as int, v as int));
            }
            return false;
        }
        proof {
            assert(is_inv(p as int, v as int, w as int));
        }
        v = v + 1;
    }
    true
}

} // verus!
