//! Word-level building blocks for 256-bit arithmetic.
//!
//! A 256-bit quantity is held as four 64-bit limbs, least significant first.
//! Everything here is straight-line code: no routine branches on, or indexes
//! memory by, the data it is given.

use vstd::prelude::*;
use vstd::arithmetic::div_mod::{lemma_fundamental_div_mod, lemma_fundamental_div_mod_converse};
use vstd::arithmetic::mul::{lemma_mul_is_associative, lemma_mul_is_commutative,
    lemma_mul_is_distributive_add};

verus! {

/// `2^64`, the weight of limb 1.
pub open spec fn pow64() -> nat {
    0x1_0000_0000_0000_0000nat
}

/// `2^128`, the weight of limb 2.
pub open spec fn pow128() -> nat {
    0x1_0000_0000_0000_0000_0000_0000_0000_0000nat
}

/// `2^192`, the weight of limb 3.
pub open spec fn pow192() -> nat {
    0x1_0000_0000_0000_0000_0000_0000_0000_0000_0000_0000_0000_0000nat
}

/// `2^256`, one more than the largest value four limbs can hold.
pub open spec fn pow256() -> nat {
    0x1_0000_0000_0000_0000_0000_0000_0000_0000_0000_0000_0000_0000_0000_0000_0000_0000nat
}

/// The number that four little-endian limbs stand for.
pub open spec fn limbs4_value(l: [u64; 4]) -> nat {
    (l[0] as nat) + (l[1] as nat) * pow64() + (l[2] as nat) * pow128() + (l[3] as nat) * pow192()
}

/// The number that eight little-endian limbs stand for.
pub open spec fn limbs8_value(l: [u64; 8]) -> nat {
    limbs4_value([l[0], l[1], l[2], l[3]]) + limbs4_value([l[4], l[5], l[6], l[7]]) * pow256()
}

/// The halves of an eight-limb value.
pub proof fn lemma_halves(acc: [u64; 8])
    ensures
        limbs8_value(acc) / pow256() == limbs4_value([acc[4], acc[5], acc[6], acc[7]]),
        limbs8_value(acc) % pow256() == limbs4_value([acc[0], acc[1], acc[2], acc[3]]),
        limbs8_value(acc) < pow256() * pow256(),
{
    let hi = limbs4_value([acc[4], acc[5], acc[6], acc[7]]) as int;
    let lo = limbs4_value([acc[0], acc[1], acc[2], acc[3]]) as int;
    lemma_fundamental_div_mod_converse(limbs8_value(acc) as int, pow256() as int, hi, lo);
    assert(hi * pow256() + lo < pow256() * pow256()) by (nonlinear_arith)
        requires
            0 <= hi < pow256(),
            0 <= lo < pow256(),
    ;
}

/// The number that four limbs stand for, built from the top limb down.
pub open spec fn horner(l: [u64; 4], from: int) -> int {
    if from >= 3 {
        l[3] as int
    } else if from == 2 {
        (l[3] as int) * pow64() + l[2] as int
    } else if from == 1 {
        ((l[3] as int) * pow64() + l[2] as int) * pow64() + l[1] as int
    } else {
        (((l[3] as int) * pow64() + l[2] as int) * pow64() + l[1] as int) * pow64() + l[0] as int
    }
}

/// Building from the top down reaches the same number as summing the weights.
pub proof fn lemma_horner_value(l: [u64; 4])
    ensures
        horner(l, 0) == limbs4_value(l),
{
}

/// Two limb arrays that stand for the same number are the same array.
pub proof fn lemma_limbs4_injective(a: [u64; 4], b: [u64; 4])
    requires
        limbs4_value(a) == limbs4_value(b),
    ensures
        a == b,
{
    lemma_horner_value(a);
    lemma_horner_value(b);
    let d1 = horner(a, 1) - horner(b, 1);
    assert(d1 * pow64() == b[0] as int - a[0] as int);
    assert(d1 == 0);
    let d2 = horner(a, 2) - horner(b, 2);
    assert(d2 * pow64() == b[1] as int - a[1] as int);
    assert(d2 == 0);
    let d3 = horner(a, 3) - horner(b, 3);
    assert(d3 * pow64() == b[2] as int - a[2] as int);
    assert(d3 == 0);
    assert(a@ =~= b@);
}

/// The low and high words of a 128-bit value.
pub fn split_wide(v: u128) -> (r: (u64, u64))
    ensures
        r.0 as int + r.1 as int * pow64() == v as int,
{
    let lo: u64 = (v & 0xffff_ffff_ffff_ffff) as u64;
    let hi: u64 = (v >> 64) as u64;
    assert(lo as int + hi as int * 0x1_0000_0000_0000_0000 == v as int) by (bit_vector)
        requires
            lo == (v & 0xffff_ffff_ffff_ffff) as u64,
            hi == (v >> 64) as u64,
    ;
    (lo, hi)
}

/// Multiply-accumulate: `a + b * c + carry` as a low word and a carry word.
pub fn mac(a: u64, b: u64, c: u64, carry: u64) -> (r: (u64, u64))
    ensures
        r.0 as int + r.1 as int * pow64() == a as int + (b as int) * (c as int) + carry as int,
{
    assert((b as int) * (c as int) <= 0xffff_ffff_ffff_ffff * 0xffff_ffff_ffff_ffff)
        by (nonlinear_arith)
        requires
            0 <= b <= 0xffff_ffff_ffff_ffff,
            0 <= c <= 0xffff_ffff_ffff_ffff,
    ;
    assert(0 <= (b as int) * (c as int)) by (nonlinear_arith)
        requires
            0 <= b,
            0 <= c,
    ;
    let tmp: u128 = (a as u128) + (b as u128) * (c as u128) + (carry as u128);
    split_wide(tmp)
}

/// Add with carry: `a + b + carry` as a sum word and a carry bit.
pub fn adc(a: u64, b: u64, carry: u64) -> (r: (u64, u64))
    ensures
        r.0 as int + r.1 as int * pow64() == a as int + b as int + carry as int,
        r.1 <= 2,
        carry <= 1 ==> r.1 <= 1,
{
    let tmp: u128 = (a as u128) + (b as u128) + (carry as u128);
    split_wide(tmp)
}

/// Subtract with borrow: `a - b - borrow` as a difference word and a borrow bit.
pub fn sbb(a: u64, b: u64, borrow: u64) -> (r: (u64, u64))
    requires
        borrow <= 1,
    ensures
        r.0 as int - r.1 as int * pow64() == a as int - b as int - borrow as int,
        r.1 <= 1,
{
    let tmp: u128 = 0x1_0000_0000_0000_0000u128 + (a as u128) - (b as u128) - (borrow as u128);
    let (lo, hi) = split_wide(tmp);
    (lo, 1 - hi)
}

/// Picks `a` when `choice` holds and `b` otherwise, through a mask rather
/// than a branch.
pub fn ct_select(choice: bool, a: &[u64; 4], b: &[u64; 4]) -> (r: [u64; 4])
    ensures
        r == (if choice { *a } else { *b }),
{
    let mask: u64 = 0u64.wrapping_sub(choice as u64);
    assert(mask == (if choice { 0xffff_ffff_ffff_ffffu64 } else { 0u64 }));
    let r = [
        select_word(mask, a[0], b[0]),
        select_word(mask, a[1], b[1]),
        select_word(mask, a[2], b[2]),
        select_word(mask, a[3], b[3]),
    ];
    assert(r@ =~= (if choice { a@ } else { b@ }));
    r
}

/// One word of a masked selection; `mask` is all ones or all zeros.
fn select_word(mask: u64, x: u64, y: u64) -> (r: u64)
    requires
        mask == 0 || mask == 0xffff_ffff_ffff_ffffu64,
    ensures
        r == (if mask == 0 { y } else { x }),
{
    let r: u64 = (x & mask) | (y & !mask);
    assert(r == (if mask == 0 { y } else { x })) by (bit_vector)
        requires
            mask == 0 || mask == 0xffff_ffff_ffff_ffffu64,
            r == (x & mask) | (y & !mask),
    ;
    r
}

/// One step of the limb-by-limb comparison. `state` is 1, 0 or -1 for
/// greater, equal, less so far; it changes only while it is still 0.
fn gte_step(state: i8, x: u64, y: u64) -> (r: i8)
    requires
        -1 <= state <= 1,
    ensures
        r == (if state != 0 { state as int } else if x > y { 1int } else if x < y { -1int } else { 0int }),
{
    let is_greater: i8 = (x > y) as i8;
    let is_less: i8 = (x < y) as i8;
    let still_equal: i8 = (state == 0) as i8;
    state + still_equal * (is_greater - is_less)
}

/// Whether `a >= b` as 256-bit numbers. Every limb is visited whatever the
/// operands hold.
pub fn ct_gte(a: &[u64; 4], b: &[u64; 4]) -> (r: bool)
    ensures
        r == (limbs4_value(*a) >= limbs4_value(*b)),
{
    let s3: i8 = gte_step(0, a[3], b[3]);
    let s2: i8 = gte_step(s3, a[2], b[2]);
    let s1: i8 = gte_step(s2, a[1], b[1]);
    let s0: i8 = gte_step(s1, a[0], b[0]);
    proof {
        let d3 = horner(*a, 3) - horner(*b, 3);
        let d2 = horner(*a, 2) - horner(*b, 2);
        let d1 = horner(*a, 1) - horner(*b, 1);
        let d0 = horner(*a, 0) - horner(*b, 0);
        assert(sign_of(d3) == s3);
        assert(d2 == d3 * pow64() + (a[2] as int - b[2] as int));
        assert(sign_of(d2) == s2);
        assert(d1 == d2 * pow64() + (a[1] as int - b[1] as int));
        assert(sign_of(d1) == s1);
        assert(d0 == d1 * pow64() + (a[0] as int - b[0] as int));
        assert(sign_of(d0) == s0);
        lemma_horner_value(*a);
        lemma_horner_value(*b);
    }
    s0 >= 0
}

/// 1, 0 or -1 as `d` is positive, zero or negative.
pub open spec fn sign_of(d: int) -> int {
    if d > 0 {
        1
    } else if d < 0 {
        -1
    } else {
        0
    }
}

/// Adds two 256-bit numbers; the second component is the carry out.
pub fn add_with_carry_256(a: &[u64; 4], b: &[u64; 4]) -> (r: ([u64; 4], u64))
    ensures
        limbs4_value(r.0) + (r.1 as nat) * pow256() == limbs4_value(*a) + limbs4_value(*b),
        r.1 <= 1,
{
    let (r0, c0) = adc(a[0], b[0], 0);
    let (r1, c1) = adc(a[1], b[1], c0);
    let (r2, c2) = adc(a[2], b[2], c1);
    let (r3, c3) = adc(a[3], b[3], c2);
    ([r0, r1, r2, r3], c3)
}

/// Subtracts two 256-bit numbers; the second component is the borrow out,
/// 1 exactly when `a < b`, in which case the difference has wrapped by `2^256`.
pub fn sub_with_borrow_256(a: &[u64; 4], b: &[u64; 4]) -> (r: ([u64; 4], u64))
    ensures
        limbs4_value(r.0) as int - (r.1 as int) * pow256() == limbs4_value(*a) - limbs4_value(*b),
        r.1 <= 1,
        r.1 == 1 <==> limbs4_value(*a) < limbs4_value(*b),
{
    let (r0, b0) = sbb(a[0], b[0], 0);
    let (r1, b1) = sbb(a[1], b[1], b0);
    let (r2, b2) = sbb(a[2], b[2], b1);
    let (r3, b3) = sbb(a[3], b[3], b2);
    ([r0, r1, r2, r3], b3)
}

/// Distributes `x` over a weighted sum of four terms.
pub proof fn lemma_weighted_product(
    x: int,
    b0: int,
    b1: int,
    b2: int,
    b3: int,
    w1: int,
    w2: int,
    w3: int,
)
    ensures
        x * (b0 + b1 * w1 + b2 * w2 + b3 * w3) == x * b0 + (x * b1) * w1 + (x * b2) * w2 + (x * b3)
            * w3,
{
    lemma_mul_is_distributive_add(x, b0 + b1 * w1 + b2 * w2, b3 * w3);
    lemma_mul_is_distributive_add(x, b0 + b1 * w1, b2 * w2);
    lemma_mul_is_distributive_add(x, b0, b1 * w1);
    lemma_mul_is_associative(x, b1, w1);
    lemma_mul_is_associative(x, b2, w2);
    lemma_mul_is_associative(x, b3, w3);
}

/// `a * m + addend`, as four limbs and the word that overflows them.
pub fn mul_add_small(a: &[u64; 4], m: u64, addend: u64) -> (r: ([u64; 4], u64))
    ensures
        limbs4_value(r.0) + (r.1 as nat) * pow256() == limbs4_value(*a) * (m as nat) + addend as nat,
{
    let (r0, c0) = mac(addend, a[0], m, 0);
    let (r1, c1) = mac(0, a[1], m, c0);
    let (r2, c2) = mac(0, a[2], m, c1);
    let (r3, c3) = mac(0, a[3], m, c2);
    proof {
        lemma_weighted_product(
            m as int,
            a[0] as int,
            a[1] as int,
            a[2] as int,
            a[3] as int,
            pow64() as int,
            pow128() as int,
            pow192() as int,
        );
        lemma_mul_is_commutative(m as int, limbs4_value(*a) as int);
        lemma_mul_is_commutative(m as int, a[0] as int);
        lemma_mul_is_commutative(m as int, a[1] as int);
        lemma_mul_is_commutative(m as int, a[2] as int);
        lemma_mul_is_commutative(m as int, a[3] as int);
    }
    ([r0, r1, r2, r3], c3)
}

/// One step of long division by a single word: the remainder so far and
/// the next limb down give a quotient limb and a new remainder.
fn div_step(rem: u64, limb: u64, n: u64) -> (r: (u64, u64))
    requires
        rem < n,
    ensures
        rem as int * pow64() + limb as int == (r.0 as int) * (n as int) + r.1 as int,
        r.1 < n,
{
    let cur: u128 = (rem as u128) * 0x1_0000_0000_0000_0000u128 + (limb as u128);
    let q: u128 = cur / (n as u128);
    let next: u128 = cur % (n as u128);
    proof {
        lemma_fundamental_div_mod(cur as int, n as int);
        assert(q < 0x1_0000_0000_0000_0000) by (nonlinear_arith)
            requires
                cur == (n as int) * (q as int) + next,
                cur < (n as int) * 0x1_0000_0000_0000_0000,
                0 <= next,
                n > 0,
        ;
        lemma_mul_is_commutative(n as int, q as int);
    }
    (q as u64, next as u64)
}

/// Quotient and remainder of a 256-bit number by a single non-zero word.
pub fn div_rem_small(a: &[u64; 4], n: u64) -> (r: ([u64; 4], u64))
    requires
        n > 0,
    ensures
        limbs4_value(r.0) == limbs4_value(*a) / (n as nat),
        r.1 == limbs4_value(*a) % (n as nat),
{
    let (q3, r3) = div_step(0, a[3], n);
    let (q2, r2) = div_step(r3, a[2], n);
    let (q1, r1) = div_step(r2, a[1], n);
    let (q0, r0) = div_step(r1, a[0], n);
    let q: [u64; 4] = [q0, q1, q2, q3];
    proof {
        lemma_weighted_product(
            n as int,
            q0 as int,
            q1 as int,
            q2 as int,
            q3 as int,
            pow64() as int,
            pow128() as int,
            pow192() as int,
        );
        lemma_mul_is_commutative(n as int, q0 as int);
        lemma_mul_is_commutative(n as int, q1 as int);
        lemma_mul_is_commutative(n as int, q2 as int);
        lemma_mul_is_commutative(n as int, q3 as int);
        lemma_mul_is_commutative(n as int, limbs4_value(q) as int);
        assert(limbs4_value(*a) == limbs4_value(q) * (n as int) + r0 as int);
        lemma_fundamental_div_mod_converse(
            limbs4_value(*a) as int,
            n as int,
            limbs4_value(q) as int,
            r0 as int,
        );
    }
    (q, r0)
}

/// One row of a schoolbook product: the four-limb window `w` plus `x * b`,
/// as four limbs and the word that overflows them.
pub fn mac_row(w: &[u64; 4], x: u64, b: &[u64; 4]) -> (r: ([u64; 4], u64))
    ensures
        limbs4_value(r.0) + (r.1 as nat) * pow256() == limbs4_value(*w) + (x as nat) * limbs4_value(
            *b,
        ),
{
    let (r0, c0) = mac(w[0], x, b[0], 0);
    let (r1, c1) = mac(w[1], x, b[1], c0);
    let (r2, c2) = mac(w[2], x, b[2], c1);
    let (r3, c3) = mac(w[3], x, b[3], c2);
    proof {
        lemma_weighted_product(
            x as int,
            b[0] as int,
            b[1] as int,
            b[2] as int,
            b[3] as int,
            pow64() as int,
            pow128() as int,
            pow192() as int,
        );
    }
    ([r0, r1, r2, r3], c3)
}

/// The full 512-bit product of two 256-bit numbers.
pub fn mul_wide(a: &[u64; 4], b: &[u64; 4]) -> (r: [u64; 8])
    ensures
        limbs8_value(r) == limbs4_value(*a) * limbs4_value(*b),
{
    let zero: [u64; 4] = [0, 0, 0, 0];
    let (w0, c0) = mac_row(&zero, a[0], b);
    let (w1, c1) = mac_row(&[w0[1], w0[2], w0[3], c0], a[1], b);
    let (w2, c2) = mac_row(&[w1[1], w1[2], w1[3], c1], a[2], b);
    let (w3, c3) = mac_row(&[w2[1], w2[2], w2[3], c2], a[3], b);
    let r: [u64; 8] = [w0[0], w1[0], w2[0], w3[0], w3[1], w3[2], w3[3], c3];
    proof {
        let bv = limbs4_value(*b) as int;
        let x0 = (a[0] as int) * bv;
        let x1 = (a[1] as int) * bv;
        let x2 = (a[2] as int) * bv;
        let x3 = (a[3] as int) * bv;
        lemma_weighted_product(
            bv,
            a[0] as int,
            a[1] as int,
            a[2] as int,
            a[3] as int,
            pow64() as int,
            pow128() as int,
            pow192() as int,
        );
        lemma_mul_is_commutative(bv, limbs4_value(*a) as int);
        lemma_mul_is_commutative(bv, a[0] as int);
        lemma_mul_is_commutative(bv, a[1] as int);
        lemma_mul_is_commutative(bv, a[2] as int);
        lemma_mul_is_commutative(bv, a[3] as int);
        let t0 = limbs4_value(w0) + (c0 as int) * pow256();
        let t1 = limbs4_value(w1) + (c1 as int) * pow256();
        let t2 = limbs4_value(w2) + (c2 as int) * pow256();
        let t3 = limbs4_value(w3) + (c3 as int) * pow256();
        assert(t0 == x0);
        assert(t1 * pow64() == t0 - w0[0] + x1 * pow64());
        assert(t2 * pow64() == t1 - w1[0] + x2 * pow64());
        assert(t3 * pow64() == t2 - w2[0] + x3 * pow64());
        assert(limbs8_value(r) == w0[0] + (w1[0] as int) * pow64() + (w2[0] as int) * pow128()
            + t3 * pow192());
        assert(t3 * pow192() == (t3 * pow64()) * pow128());
        assert((t2 * pow64()) * pow64() == t2 * pow128());
    }
    r
}

} // verus!
