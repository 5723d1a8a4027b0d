//! Reduction of a 512-bit accumulator to a field element.
//!
//! With `k = 2^256 mod r`, the value `hi * 2^256 + lo` is congruent to
//! `hi * k + lo`. Folding the high half down in this way shrinks it by a
//! factor of eighteen at least, so that sixty-four folds always leave a
//! 256-bit value; five rounds of masked subtraction follow and leave the
//! remainder modulo `r`.

use vstd::prelude::*;
use vstd::arithmetic::div_mod::{lemma_fundamental_div_mod, lemma_fundamental_div_mod_converse,
    lemma_mod_multiples_vanish, lemma_small_mod};
use crate::limbs::{add_with_carry_256, lemma_halves, limbs4_value, limbs8_value, mul_wide,
    pow256, split_wide};
use crate::montgomery::{modulus, reduce_limbs, R};
use crate::field::Fr;

verus! {

/// `2^256 mod r`, the factor that folds the high half of an accumulator
/// into the low half.
pub open spec fn fold_factor() -> nat {
    6350874878119819312338956282401532410528162663560392320966563075034087161851nat
}

/// One fold: `hi * k + lo` for `v = hi * 2^256 + lo`.
pub open spec fn folded(v: nat) -> nat {
    (v / pow256()) * fold_factor() + v % pow256()
}

/// Up to `n` folds, ending early once the value fits in 256 bits.
pub open spec fn folded_times(v: nat, n: nat) -> nat
    decreases n,
{
    if n == 0 || v < pow256() {
        v
    } else {
        folded_times(folded(v), (n - 1) as nat)
    }
}

/// A bound on the high half after `n` folds of a 512-bit value.
pub open spec fn high_bound(n: nat) -> nat
    decreases n,
{
    if n == 0 {
        (pow256() - 1) as nat
    } else {
        (high_bound((n - 1) as nat) + 17) / 18
    }
}

/// A fold keeps the value modulo `r`.
pub proof fn lemma_fold_congruent(v: nat)
    ensures
        folded(v) % modulus() == v % modulus(),
{
    let hi = (v / pow256()) as int;
    let lo = (v % pow256()) as int;
    lemma_fundamental_div_mod(v as int, pow256() as int);
    assert(pow256() == fold_factor() + 5 * modulus());
    assert(v == modulus() * (5 * hi) + folded(v)) by (nonlinear_arith)
        requires
            v == pow256() * hi + lo,
            pow256() == fold_factor() + 5 * modulus(),
            folded(v) == hi * fold_factor() + lo,
    ;
    lemma_mod_multiples_vanish(5 * hi, folded(v) as int, modulus() as int);
}

/// Folds keep the value modulo `r`.
pub proof fn lemma_folds_congruent(v: nat, n: nat)
    ensures
        folded_times(v, n) % modulus() == v % modulus(),
    decreases n,
{
    if n != 0 && v >= pow256() {
        lemma_fold_congruent(v);
        lemma_folds_congruent(folded(v), (n - 1) as nat);
    }
}

/// Folding `n + m` times is folding `n` times and then `m` times.
pub proof fn lemma_folds_split(v: nat, n: nat, m: nat)
    ensures
        folded_times(v, n + m) == folded_times(folded_times(v, n), m),
    decreases n,
{
    if n != 0 && v >= pow256() {
        lemma_folds_split(folded(v), (n - 1) as nat, m);
    }
}

/// A value that fits in 256 bits is left alone.
pub proof fn lemma_fold_of_small(v: nat, n: nat)
    requires
        v < pow256(),
    ensures
        folded_times(v, n) == v,
{
}

/// A fold takes the high half `h` of a 512-bit value to `(h + 17) / 18` at
/// most, since eighteen times `k` lies below `2^256`.
pub proof fn lemma_fold_high(v: nat)
    requires
        v < pow256() * pow256(),
    ensures
        folded(v) / pow256() <= (v / pow256() + 17) / 18,
        folded(v) < pow256() * pow256(),
{
    let w = pow256() as int;
    let k = fold_factor() as int;
    let hi = v as int / w;
    let lo = v as int % w;
    lemma_fundamental_div_mod(v as int, w);
    assert(hi < w) by (nonlinear_arith)
        requires
            v == w * hi + lo,
            0 <= lo,
            v < w * w,
            w > 0,
    ;
    assert(18 * k <= w);
    let f = folded(v) as int;
    assert(f == hi * k + lo);
    assert(18 * f < (hi + 18) * w) by (nonlinear_arith)
        requires
            f == hi * k + lo,
            18 * k <= w,
            0 <= lo < w,
            0 <= hi,
    ;
    lemma_fundamental_div_mod(f, w);
    let fh = f / w;
    assert(18 * fh < hi + 18) by (nonlinear_arith)
        requires
            f == w * fh + f % w,
            0 <= f % w,
            18 * f < (hi + 18) * w,
            w > 0,
    ;
    assert(f < w * w) by (nonlinear_arith)
        requires
            f == hi * k + lo,
            18 * k <= w,
            0 <= lo < w,
            0 <= hi < w,
    ;
}

/// After `n` more folds, a 512-bit value whose high half obeys the bound
/// for `m` folds obeys the bound for `m + n` folds.
pub proof fn lemma_folds_high(v: nat, m: nat, n: nat)
    requires
        v < pow256() * pow256(),
        v / pow256() <= high_bound(m),
    ensures
        folded_times(v, n) / pow256() <= high_bound(m + n),
        folded_times(v, n) < pow256() * pow256(),
    decreases n,
{
    if n != 0 && v >= pow256() {
        lemma_fold_high(v);
        assert(high_bound(m + 1) == (high_bound(m) + 17) / 18);
        lemma_folds_high(folded(v), m + 1, (n - 1) as nat);
    } else if n != 0 {
        assert(v / pow256() == 0);
    }
}

/// Sixty-two folds bring the bound down to one.
pub proof fn lemma_high_bound_62()
    ensures
        high_bound(62) <= 1,
{
    reveal_with_fuel(high_bound, 9);
    assert(high_bound(8) == 10507486704580039635848783004637847794535520547550147972458371162136nat);
    assert(high_bound(16) == 953495852559031844203285741830756236866551975907009630709nat);
    assert(high_bound(24) == 86524434092406669985829697203333827685968663116nat);
    assert(high_bound(32) == 7851610130152853097269528489766334686nat);
    assert(high_bound(40) == 712489856565604205049882793nat);
    assert(high_bound(48) == 64654483258071885nat);
    assert(high_bound(56) == 5867034nat);
    assert(high_bound(62) == 1nat);
}

/// Two folds finish a value whose high half is at most one: if the first
/// leaves a high half of one, its low half lies below `k`, and the second
/// leaves less than `2 k`.
pub proof fn lemma_last_folds(w: nat)
    requires
        w / pow256() <= 1,
    ensures
        folded_times(w, 2) < pow256(),
{
    let p = pow256() as int;
    lemma_fundamental_div_mod(w as int, p);
    if w >= pow256() {
        assert(w / pow256() == 1);
        let f = folded(w);
        assert(f == fold_factor() + w % pow256());
        if f >= pow256() {
            lemma_fundamental_div_mod_converse(f as int, p, 1, f - p);
            assert(folded(f) == fold_factor() + (f - p));
            assert(folded_times(f, 1) == folded_times(folded(f), 0));
        }
        assert(folded_times(w, 2) == folded_times(f, 1));
    }
}

/// Sixty-four folds leave a 256-bit value, whatever 512-bit value they
/// start from.
pub proof fn lemma_folds_suffice(v: nat)
    requires
        v < pow256() * pow256(),
    ensures
        folded_times(v, 64) < pow256(),
{
    let p = pow256() as int;
    lemma_fundamental_div_mod(v as int, p);
    assert(v / pow256() <= high_bound(0)) by (nonlinear_arith)
        requires
            v == p * (v as int / p) + v as int % p,
            0 <= v as int % p,
            v < p * p,
            p > 0,
            high_bound(0) == p - 1,
            p == pow256(),
    ;
    lemma_folds_high(v, 0, 62);
    lemma_high_bound_62();
    lemma_last_folds(folded_times(v, 62));
    lemma_folds_split(v, 62, 2);
}

/// Whether the high half of an accumulator is zero.
fn high_is_zero(acc: &[u64; 8]) -> (r: bool)
    ensures
        r == (limbs8_value(*acc) < pow256()),
{
    proof {
        lemma_halves(*acc);
    }
    acc[4] == 0 && acc[5] == 0 && acc[6] == 0 && acc[7] == 0
}

/// One fold of an accumulator: the high half times `k`, plus the low half.
fn fold_once(acc: &[u64; 8]) -> (r: [u64; 8])
    ensures
        limbs8_value(r) == folded(limbs8_value(*acc)),
{
    let lo: [u64; 4] = [acc[0], acc[1], acc[2], acc[3]];
    let hi: [u64; 4] = [acc[4], acc[5], acc[6], acc[7]];
    let product = mul_wide(&hi, &R);
    let product_lo: [u64; 4] = [product[0], product[1], product[2], product[3]];
    let product_hi: [u64; 4] = [product[4], product[5], product[6], product[7]];
    let (sum_lo, carry) = add_with_carry_256(&lo, &product_lo);
    let (sum_hi, overflow) = add_with_carry_256(&product_hi, &[carry, 0, 0, 0]);
    let r: [u64; 8] = [
        sum_lo[0],
        sum_lo[1],
        sum_lo[2],
        sum_lo[3],
        sum_hi[0],
        sum_hi[1],
        sum_hi[2],
        sum_hi[3],
    ];
    proof {
        lemma_halves(*acc);
        lemma_fold_high(limbs8_value(*acc));
        assert(limbs4_value(R) == fold_factor());
        let f = folded(limbs8_value(*acc)) as int;
        assert(limbs8_value(product) == limbs4_value(hi) * fold_factor());
        assert(limbs4_value(sum_lo) + limbs4_value(sum_hi) * pow256() + (overflow as int)
            * pow256() * pow256() == f);
        assert(overflow == 0) by (nonlinear_arith)
            requires
                limbs4_value(sum_lo) + limbs4_value(sum_hi) * pow256() + (overflow as int)
                    * pow256() * pow256() == f,
                f < pow256() * pow256(),
                overflow <= 1,
        ;
    }
    r
}

impl Fr {
    /// Reduces a 512-bit value, eight limbs least significant first, to the
    /// field element it is congruent to: folds, at most sixty-four, until
    /// the high half is zero, then five rounds of masked conditional
    /// subtraction of `r`, as many as a 256-bit value can need.
    pub fn reduce_512_bit(t: &[u64; 8]) -> (r: Self)
        ensures
            r.is_canonical(),
            r@ == limbs8_value(*t) % modulus(),
    {
        let ghost v = limbs8_value(*t);
        let mut acc: [u64; 8] = *t;
        let mut folds: usize = 0;
        while folds < 64 && !high_is_zero(&acc)
            invariant
                folds <= 64,
                v == limbs8_value(*t),
                limbs8_value(acc) == folded_times(v, folds as nat),
            decreases 64 - folds,
        {
            proof {
                lemma_folds_split(v, folds as nat, 1);
                assert(folded_times(limbs8_value(acc), 1) == folded_times(
                    folded(limbs8_value(acc)),
                    0,
                ));
            }
            acc = fold_once(&acc);
            folds = folds + 1;
        }
        let low: [u64; 4] = [acc[0], acc[1], acc[2], acc[3]];
        proof {
            lemma_halves(*t);
            lemma_folds_suffice(v);
            lemma_folds_congruent(v, 64);
            if folds < 64 {
                lemma_folds_split(v, folds as nat, (64 - folds) as nat);
                lemma_fold_of_small(limbs8_value(acc), (64 - folds) as nat);
            }
            lemma_halves(acc);
            lemma_small_mod(limbs8_value(acc), pow256());
            assert(limbs4_value(low) == folded_times(v, 64));
        }
        Fr { limbs: reduce_limbs(&low) }
    }

    /// Reduces a wide accumulator held as eight 128-bit words, of which the
    /// low 64 bits of each count, as `reduce_512_bit` does.
    pub fn reduce_wide(&self, wide: &[u128; 8]) -> (r: Self)
        ensures
            r.is_canonical(),
            r@ == limbs8_value(low_words(*wide)) % modulus(),
    {
        let acc: [u64; 8] = [
            split_wide(wide[0]).0,
            split_wide(wide[1]).0,
            split_wide(wide[2]).0,
            split_wide(wide[3]).0,
            split_wide(wide[4]).0,
            split_wide(wide[5]).0,
            split_wide(wide[6]).0,
            split_wide(wide[7]).0,
        ];
        proof {
            assert(acc@ =~= low_words(*wide)@);
        }
        Fr::reduce_512_bit(&acc)
    }
}

/// The low 64 bits of each of eight 128-bit words.
pub open spec fn low_words(wide: [u128; 8]) -> [u64; 8] {
    [
        (wide[0] % 0x1_0000_0000_0000_0000) as u64,
        (wide[1] % 0x1_0000_0000_0000_0000) as u64,
        (wide[2] % 0x1_0000_0000_0000_0000) as u64,
        (wide[3] % 0x1_0000_0000_0000_0000) as u64,
        (wide[4] % 0x1_0000_0000_0000_0000) as u64,
        (wide[5] % 0x1_0000_0000_0000_0000) as u64,
        (wide[6] % 0x1_0000_0000_0000_0000) as u64,
        (wide[7] % 0x1_0000_0000_0000_0000) as u64,
    ]
}

} // verus!
