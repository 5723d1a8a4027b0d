//! Montgomery multiplication modulo the BN254 scalar-field order.
//!
//! One pass of coarsely integrated operand scanning takes `a` and `b` to
//! `a * b * 2^-256 (mod r)`. The pass interleaves, limb by limb of `a`, a
//! multiply-accumulate row with a reduction row that clears the lowest word.

use vstd::prelude::*;
use vstd::arithmetic::mul::lemma_mul_is_commutative;
use vstd::arithmetic::div_mod::{lemma_fundamental_div_mod, lemma_mod_multiples_basic};
use crate::limbs::{adc, lemma_weighted_product, ct_gte, ct_select, limbs4_value, mac, pow128, pow192, pow256, pow64,
    sub_with_borrow_256};

verus! {

/// The BN254 scalar-field order `r`, as limbs.
pub const MODULUS: [u64; 4] = [
    0x43e1f593f0000001,
    0x2833e84879b97091,
    0xb85045b68181585d,
    0x30644e72e131a029,
];

/// `2^256 mod r`.
pub const R: [u64; 4] = [
    0xac96341c4ffffffb,
    0x36fc76959f60cd29,
    0x666ea36f7879462e,
    0x0e0a77c19a07df2f,
];

/// `2^512 mod r`, the factor that undoes one Montgomery pass.
pub const R2: [u64; 4] = [
    0x1bb8e645ae216da7,
    0x53fe3ab1e35c59e3,
    0x8c49833d53bb8085,
    0x0216d0b17f4e44a5,
];

/// `-r^-1 mod 2^64`.
pub const P_PRIME: u64 = 0xc2e1f593efffffff;

/// The BN254 scalar-field order `r`.
pub open spec fn modulus() -> nat {
    21888242871839275222246405745257275088548364400416034343698204186575808495617nat
}

/// The inverse of `2^256` modulo `r`.
pub open spec fn r_inverse() -> nat {
    9915499612839321149637521777990102151350674507940716049588462388200839649614nat
}

/// The limb constants stand for the numbers their names promise.
pub proof fn lemma_constants()
    ensures
        limbs4_value(MODULUS) == modulus(),
        limbs4_value(R) == pow256() % modulus(),
        limbs4_value(R2) == (pow256() * pow256()) % modulus(),
        limbs4_value(R2) < modulus(),
        (pow256() * r_inverse()) % modulus() == 1,
        (MODULUS[0] * P_PRIME + 1) % (pow64() as int) == 0,
        2 * modulus() < pow256(),
{
}

/// The number that five little-endian limbs stand for.
pub open spec fn limbs5_value(l: [u64; 5]) -> nat {
    limbs4_value([l[0], l[1], l[2], l[3]]) + (l[4] as nat) * pow256()
}

/// A product is what its first factor makes of each limb of the second.
proof fn lemma_row_product(x: int, b: [u64; 4])
    ensures
        x * limbs4_value(b) == x * (b[0] as int) + (x * (b[1] as int)) * pow64() + (x * (
        b[2] as int)) * pow128() + (x * (b[3] as int)) * pow192(),
{
    lemma_weighted_product(
        x,
        b[0] as int,
        b[1] as int,
        b[2] as int,
        b[3] as int,
        pow64() as int,
        pow128() as int,
        pow192() as int,
    );
}

/// A product of bounded factors is bounded by the product of the bounds.
proof fn lemma_product_bound(x: int, y: int, bx: int, by: int)
    requires
        0 <= x <= bx,
        0 <= y <= by,
    ensures
        0 <= x * y <= bx * by,
{
    assert(0 <= x * y <= bx * by) by (nonlinear_arith)
        requires
            0 <= x <= bx,
            0 <= y <= by,
    ;
}

/// The multiply-accumulate row: `t + x * b`, with the top limb taking the
/// last carry.
fn accumulate_row(t: &[u64; 5], x: u64, b: &[u64; 4]) -> (u: [u64; 5])
    requires
        limbs5_value(*t) < 2 * modulus(),
        limbs4_value(*b) < modulus(),
    ensures
        limbs5_value(u) == limbs5_value(*t) + (x as int) * limbs4_value(*b),
{
    let (u0, c0) = mac(t[0], x, b[0], 0);
    let (u1, c1) = mac(t[1], x, b[1], c0);
    let (u2, c2) = mac(t[2], x, b[2], c1);
    let (u3, c3) = mac(t[3], x, b[3], c2);
    let (u4, c4) = adc(t[4], c3, 0);
    proof {
        lemma_row_product(x as int, *b);
        lemma_product_bound(
            x as int,
            limbs4_value(*b) as int,
            pow64() - 1,
            modulus() - 1,
        );
        let total = limbs5_value(*t) + (x as int) * limbs4_value(*b);
        assert(limbs4_value([u0, u1, u2, u3]) + (u4 as int) * pow256() + (c4 as int) * pow64()
            * pow256() == total);
        assert(total < pow64() * pow256());
        assert(c4 == 0);
    }
    [u0, u1, u2, u3, u4]
}

/// The word that, times `r`, clears the lowest limb `low` of an accumulator.
pub open spec fn reduction_word(low: u64) -> int {
    (low * P_PRIME) % (pow64() as int)
}

/// Adding `reduction_word(low) * r` makes the lowest limb vanish.
proof fn lemma_reduction_word(low: u64)
    ensures
        0 <= reduction_word(low) < pow64(),
        (low + reduction_word(low) * 0x43e1f593f0000001) % (pow64() as int) == 0,
{
    let w: int = 0x1_0000_0000_0000_0000;
    let x: int = low * 0xc2e1f593efffffff;
    let m: int = x % w;
    let q: int = x / w;
    assert(m == reduction_word(low));
    assert(x == q * w + m);
    // r[0] * (-r^-1) + 1 is a multiple of 2^64
    assert(0x43e1f593f0000001 * 0xc2e1f593efffffff + 1 == 3723675147829272286 * w);
    let s: int = low * 3723675147829272286 - q * 0x43e1f593f0000001;
    assert(low + m * 0x43e1f593f0000001 == s * w);
    assert((s * w) % w == 0) by {
        lemma_mod_multiples_basic(s, w);
    }
}

/// The carries of a reduction row add up: dropping the cleared limb divides
/// the sum by `2^64`.
proof fn lemma_reduce_row_sum(u: [u64; 5], m: int, c: [u64; 4], v: [u64; 5])
    requires
        (c[0] as int) * pow64() == u[0] as int + m * 0x43e1f593f0000001,
        v[0] as int + (c[1] as int) * pow64() == u[1] as int + m * 0x2833e84879b97091 + c[0] as int,
        v[1] as int + (c[2] as int) * pow64() == u[2] as int + m * 0xb85045b68181585d + c[1] as int,
        v[2] as int + (c[3] as int) * pow64() == u[3] as int + m * 0x30644e72e131a029 + c[2] as int,
        v[3] as int + (v[4] as int) * pow64() == u[4] as int + c[3] as int,
    ensures
        limbs5_value(v) * pow64() == limbs5_value(u) + m * modulus(),
{
    let w: int = 0x1_0000_0000_0000_0000;
    let lhs0 = (c[0] as int) * w;
    let lhs1 = (v[0] as int + (c[1] as int) * w) * w;
    let lhs2 = (v[1] as int + (c[2] as int) * w) * (w * w);
    let lhs3 = (v[2] as int + (c[3] as int) * w) * (w * w * w);
    let lhs4 = (v[3] as int + (v[4] as int) * w) * (w * w * w * w);
    let rhs0 = u[0] as int + m * 0x43e1f593f0000001;
    let rhs1 = (u[1] as int + m * 0x2833e84879b97091 + c[0] as int) * w;
    let rhs2 = (u[2] as int + m * 0xb85045b68181585d + c[1] as int) * (w * w);
    let rhs3 = (u[3] as int + m * 0x30644e72e131a029 + c[2] as int) * (w * w * w);
    let rhs4 = (u[4] as int + c[3] as int) * (w * w * w * w);
    assert(lhs0 + lhs1 + lhs2 + lhs3 + lhs4 == rhs0 + rhs1 + rhs2 + rhs3 + rhs4);
}

/// The reduction row: adds the multiple of `r` that clears the lowest limb,
/// then drops that limb.
fn reduce_row(u: &[u64; 5]) -> (v: [u64; 5])
    requires
        limbs5_value(*u) < (pow64() + 1) * modulus(),
    ensures
        limbs5_value(v) * pow64() == limbs5_value(*u) + reduction_word(u[0]) * modulus(),
        limbs5_value(v) < 2 * modulus(),
{
    let m: u64 = u[0].wrapping_mul(P_PRIME);
    let (z, c0) = mac(u[0], m, 0x43e1f593f0000001, 0);
    let (v0, c1) = mac(u[1], m, 0x2833e84879b97091, c0);
    let (v1, c2) = mac(u[2], m, 0xb85045b68181585d, c1);
    let (v2, c3) = mac(u[3], m, 0x30644e72e131a029, c2);
    let (v3, v4) = adc(u[4], c3, 0);
    let v: [u64; 5] = [v0, v1, v2, v3, v4];
    proof {
        lemma_reduction_word(u[0]);
        assert(m == reduction_word(u[0]));
        assert(z as int + (c0 as int) * pow64() == u[0] as int + (m as int) * 0x43e1f593f0000001);
        assert(z == 0);
        lemma_reduce_row_sum(*u, m as int, [c0, c1, c2, c3], v);
    }
    v
}

/// One round of the pass: a multiply-accumulate row, then a reduction row.
/// The ghost result is the reduction word that the round used.
fn cios_round(t: &[u64; 5], x: u64, b: &[u64; 4]) -> (r: ([u64; 5], Ghost<int>))
    requires
        limbs5_value(*t) < 2 * modulus(),
        limbs4_value(*b) < modulus(),
    ensures
        limbs5_value(r.0) < 2 * modulus(),
        0 <= r.1@ < pow64(),
        limbs5_value(r.0) * pow64() == limbs5_value(*t) + (x as int) * limbs4_value(*b) + r.1@
            * modulus(),
{
    let u = accumulate_row(t, x, b);
    proof {
        lemma_product_bound(
            x as int,
            limbs4_value(*b) as int,
            pow64() - 1,
            modulus() - 1,
        );
    }
    let v = reduce_row(&u);
    (v, Ghost(reduction_word(u[0])))
}

/// One Montgomery pass. The result is the canonical representative of
/// `a * b * 2^-256 (mod r)`; the ghost result is the multiple of `r` that
/// was added on the way.
pub fn montgomery_pass(a: &[u64; 4], b: &[u64; 4]) -> (r: ([u64; 4], Ghost<int>))
    requires
        limbs4_value(*b) < modulus(),
    ensures
        limbs4_value(r.0) < modulus(),
        limbs4_value(r.0) * pow256() == limbs4_value(*a) * limbs4_value(*b) + r.1@ * modulus(),
{
    let t0: [u64; 5] = [0, 0, 0, 0, 0];
    let (t1, m0) = cios_round(&t0, a[0], b);
    let (t2, m1) = cios_round(&t1, a[1], b);
    let (t3, m2) = cios_round(&t2, a[2], b);
    let (t4, m3) = cios_round(&t3, a[3], b);
    let low: [u64; 4] = [t4[0], t4[1], t4[2], t4[3]];
    let (reduced, _borrow) = sub_with_borrow_256(&low, &MODULUS);
    let at_least_modulus: bool = ct_gte(&low, &MODULUS);
    let overflowed: bool = t4[4] > 0;
    let needs_reduction: bool = at_least_modulus || overflowed;
    let out = ct_select(needs_reduction, &reduced, &low);
    proof {
        lemma_constants();
        let bv = limbs4_value(*b) as int;
        let p = modulus() as int;
        let w = pow64() as int;
        let x0 = (a[0] as int) * bv;
        let x1 = (a[1] as int) * bv;
        let x2 = (a[2] as int) * bv;
        let x3 = (a[3] as int) * bv;
        assert(limbs4_value(*a) * bv == x0 + x1 * pow64() + x2 * pow128() + x3 * pow192()) by {
            lemma_column_product(*a, bv);
        }
        let v1 = limbs5_value(t1) as int;
        let v2 = limbs5_value(t2) as int;
        let v3 = limbs5_value(t3) as int;
        let v4 = limbs5_value(t4) as int;
        assert(v1 * w == x0 + m0@ * p);
        assert(v2 * w == v1 + x1 + m1@ * p);
        assert(v3 * w == v2 + x2 + m2@ * p);
        assert(v4 * w == v3 + x3 + m3@ * p);
        let mult = m0@ + m1@ * pow64() + m2@ * pow128() + m3@ * pow192();
        assert(v4 * pow256() == x0 + x1 * pow64() + x2 * pow128() + x3 * pow192() + mult * p) by {
            assert(v2 * w * w == x0 + m0@ * p + (x1 + m1@ * p) * w);
            assert(v3 * w * w * w == x0 + m0@ * p + (x1 + m1@ * p) * w + (x2 + m2@ * p) * w * w);
            assert(v4 * w * w * w * w == x0 + m0@ * p + (x1 + m1@ * p) * w + (x2 + m2@ * p) * w * w
                + (x3 + m3@ * p) * w * w * w);
        }
        assert(t4[4] == 0);
        assert(v4 == limbs4_value(low));
        if needs_reduction {
            assert(limbs4_value(out) == v4 - p);
        } else {
            assert(limbs4_value(out) == v4);
        }
    }
    (out, Ghost(
        m0@ + m1@ * pow64() + m2@ * pow128() + m3@ * pow192() - (if needs_reduction {
            pow256() as int
        } else {
            0
        }),
    ))
}

/// A product is what the second factor makes of each limb of the first.
proof fn lemma_column_product(a: [u64; 4], y: int)
    ensures
        limbs4_value(a) * y == (a[0] as int) * y + ((a[1] as int) * y) * pow64() + ((a[2] as int)
            * y) * pow128() + ((a[3] as int) * y) * pow192(),
{
    let a0 = a[0] as int;
    let a1 = a[1] as int;
    let a2 = a[2] as int;
    let a3 = a[3] as int;
    let w1 = pow64() as int;
    let w2 = pow128() as int;
    let w3 = pow192() as int;
    lemma_weighted_product(y, a0, a1, a2, a3, w1, w2, w3);
    lemma_mul_is_commutative(y, a0 + a1 * w1 + a2 * w2 + a3 * w3);
    lemma_mul_is_commutative(y, a0);
    lemma_mul_is_commutative(y, a1);
    lemma_mul_is_commutative(y, a2);
    lemma_mul_is_commutative(y, a3);
}

/// What is left of `v` after `steps` rounds of "subtract `r` if the value is
/// at least `r`".
pub open spec fn after_reductions(v: nat, steps: nat) -> nat {
    if v / modulus() <= steps {
        v % modulus()
    } else {
        (v - steps * modulus()) as nat
    }
}

/// Runs `steps` rounds of a masked conditional subtraction of `r`. Both
/// candidates of a round are computed whatever the value.
fn reduce_steps(l: &[u64; 4], steps: usize) -> (r: [u64; 4])
    ensures
        limbs4_value(r) == after_reductions(limbs4_value(*l), steps as nat),
{
    proof {
        lemma_constants();
    }
    let ghost v = limbs4_value(*l) as int;
    let ghost p = modulus() as int;
    let mut cur: [u64; 4] = *l;
    let mut done: usize = 0;
    proof {
        lemma_fundamental_div_mod(v, p);
        lemma_mul_is_commutative(p, v / p);
    }
    while done < steps
        invariant
            done <= steps,
            p == modulus(),
            v == limbs4_value(*l),
            limbs4_value(MODULUS) == modulus(),
            v == (v / p) * p + v % p,
            0 <= v % p < p,
            0 <= v / p,
            limbs4_value(cur) == (if v / p <= done {
                v % p
            } else {
                v - done * p
            }),
        decreases steps - done,
    {
        let (reduced, _borrow) = sub_with_borrow_256(&cur, &MODULUS);
        let needs_reduction: bool = ct_gte(&cur, &MODULUS);
        proof {
            let q = v / p;
            if q <= done {
                assert(!needs_reduction);
            } else {
                // cur == v - done * p == (q - done) * p + v % p with q - done >= 1
                assert((q - done) * p == q * p - done * p) by (nonlinear_arith);
                assert((q - done) * p >= p) by (nonlinear_arith)
                    requires
                        q - done >= 1,
                        p > 0,
                ;
                assert(needs_reduction);
                assert((done + 1) * p == done * p + p) by (nonlinear_arith);
                if q <= done + 1 {
                    assert(q == done + 1);
                }
            }
        }
        cur = ct_select(needs_reduction, &reduced, &cur);
        done = done + 1;
    }
    cur
}

/// The remainder of a 256-bit number modulo `r`, by five rounds of masked
/// conditional subtraction: `2^256` lies below `6 r`.
pub fn reduce_limbs(l: &[u64; 4]) -> (r: [u64; 4])
    ensures
        limbs4_value(r) == limbs4_value(*l) % modulus(),
        limbs4_value(r) < modulus(),
{
    proof {
        let v = limbs4_value(*l) as int;
        let p = modulus() as int;
        lemma_fundamental_div_mod(v, p);
        lemma_mul_is_commutative(p, v / p);
        assert(v / p <= 5) by {
            if v / p >= 6 {
                assert((v / p) * p >= 6 * p) by (nonlinear_arith)
                    requires
                        v / p >= 6,
                        p > 0,
                ;
            }
        }
    }
    reduce_steps(l, 5)
}

} // verus!
