//! Byte strings and the numbers they stand for.

use vstd::prelude::*;
use vstd::arithmetic::div_mod::{lemma_fundamental_div_mod, lemma_fundamental_div_mod_converse,
    lemma_mod_multiples_vanish};
use crate::limbs::{limbs4_value, mul_add_small, pow128, pow192, pow256, pow64};

verus! {

/// `256^n`, the number of values that `n` bytes can hold.
pub open spec fn byte_weight(n: nat) -> nat
    decreases n,
{
    if n == 0 {
        1
    } else {
        256 * byte_weight((n - 1) as nat)
    }
}

/// The number that a byte string stands for, most significant byte first.
pub open spec fn be_value(s: Seq<u8>) -> nat
    decreases s.len(),
{
    if s.len() == 0 {
        0
    } else {
        be_value(s.drop_last()) * 256 + s.last() as nat
    }
}

/// The `len`-byte big-endian writing of `v`, which keeps `v mod 256^len`.
pub open spec fn be_bytes(v: nat, len: nat) -> Seq<u8>
    decreases len,
{
    if len == 0 {
        Seq::<u8>::empty()
    } else {
        be_bytes(v / 256, (len - 1) as nat).push((v % 256) as u8)
    }
}

/// The `len`-byte little-endian writing of `v`.
pub open spec fn le_bytes(v: nat, len: nat) -> Seq<u8> {
    be_bytes(v, len).reverse()
}

/// A big-endian writing has the length asked for.
pub proof fn lemma_be_bytes_len(v: nat, len: nat)
    ensures
        be_bytes(v, len).len() == len,
    decreases len,
{
    if len > 0 {
        lemma_be_bytes_len(v / 256, (len - 1) as nat);
    }
}

/// Appending a byte shifts the value up by one byte.
pub proof fn lemma_be_value_push(s: Seq<u8>, b: u8)
    ensures
        be_value(s.push(b)) == be_value(s) * 256 + b as nat,
{
    assert(s.push(b).drop_last() =~= s);
}

/// A byte string stands for a number below `256^len`.
pub proof fn lemma_be_value_bound(s: Seq<u8>)
    ensures
        be_value(s) < byte_weight(s.len()),
    decreases s.len(),
{
    if s.len() > 0 {
        lemma_be_value_bound(s.drop_last());
    }
}

/// The value of two strings joined: the first shifted past the second.
pub proof fn lemma_be_value_concat(a: Seq<u8>, b: Seq<u8>)
    ensures
        be_value(a + b) == be_value(a) * byte_weight(b.len()) + be_value(b),
    decreases b.len(),
{
    if b.len() == 0 {
        assert(a + b =~= a);
        assert(byte_weight(0) == 1);
        assert(be_value(a) * 1 == be_value(a));
    } else {
        let head = b.drop_last();
        assert((a + b).drop_last() =~= a + head);
        assert((a + b).last() == b.last());
        lemma_be_value_concat(a, head);
        let av = be_value(a) as int;
        let w = byte_weight(head.len()) as int;
        assert(byte_weight(b.len()) == 256 * w);
        assert(av * (256 * w) == (av * w) * 256) by (nonlinear_arith);
        assert(be_value(a + b) == (av * w + be_value(head)) * 256 + b.last() as nat);
        assert(be_value(b) == be_value(head) * 256 + b.last() as nat);
        assert(be_value(a) * byte_weight(b.len()) == av * (256 * w));
    }
}

/// Writing the value of a byte string at the string's own length gives the
/// string back.
pub proof fn lemma_be_bytes_of_value(s: Seq<u8>)
    ensures
        be_bytes(be_value(s), s.len()) == s,
    decreases s.len(),
{
    if s.len() > 0 {
        let head = s.drop_last();
        let v = be_value(s);
        lemma_be_bytes_of_value(head);
        lemma_fundamental_div_mod_converse(
            v as int,
            256,
            be_value(head) as int,
            s.last() as int,
        );
        assert(be_bytes(v, s.len()) =~= s);
    } else {
        assert(be_bytes(be_value(s), 0) =~= s);
    }
}

/// Reading back a writing that was long enough for the value gives the value.
pub proof fn lemma_be_value_of_bytes(v: nat, len: nat)
    requires
        v < byte_weight(len),
    ensures
        be_value(be_bytes(v, len)) == v,
    decreases len,
{
    if len > 0 {
        lemma_be_value_of_bytes(v / 256, (len - 1) as nat);
        lemma_be_value_push(be_bytes(v / 256, (len - 1) as nat), (v % 256) as u8);
    }
}

/// The weights of 8, 16, 24 and 32 bytes are the weights of one to four limbs.
pub proof fn lemma_byte_weights()
    ensures
        byte_weight(8) == pow64(),
        byte_weight(16) == pow128(),
        byte_weight(24) == pow192(),
        byte_weight(32) == pow256(),
{
    reveal_with_fuel(byte_weight, 9);
    assert(byte_weight(8) == pow64());
    assert(byte_weight(16) == pow64() * byte_weight(8));
    assert(byte_weight(24) == pow64() * byte_weight(16));
    assert(byte_weight(32) == pow64() * byte_weight(24));
}

/// The eight bytes of a word, most significant first.
pub fn word_to_be_bytes(w: u64) -> (r: [u8; 8])
    ensures
        be_value(r@) == w,
{
    let b0: u8 = (w >> 56) as u8;
    let b1: u8 = ((w >> 48) & 0xff) as u8;
    let b2: u8 = ((w >> 40) & 0xff) as u8;
    let b3: u8 = ((w >> 32) & 0xff) as u8;
    let b4: u8 = ((w >> 24) & 0xff) as u8;
    let b5: u8 = ((w >> 16) & 0xff) as u8;
    let b6: u8 = ((w >> 8) & 0xff) as u8;
    let b7: u8 = (w & 0xff) as u8;
    assert(((((((b0 as u64 * 256 + b1 as u64) * 256 + b2 as u64) * 256 + b3 as u64) * 256
        + b4 as u64) * 256 + b5 as u64) * 256 + b6 as u64) * 256 + b7 as u64 == w) by (bit_vector)
        requires
            b0 == (w >> 56) as u8,
            b1 == ((w >> 48) & 0xff) as u8,
            b2 == ((w >> 40) & 0xff) as u8,
            b3 == ((w >> 32) & 0xff) as u8,
            b4 == ((w >> 24) & 0xff) as u8,
            b5 == ((w >> 16) & 0xff) as u8,
            b6 == ((w >> 8) & 0xff) as u8,
            b7 == (w & 0xff) as u8,
    ;
    let r: [u8; 8] = [b0, b1, b2, b3, b4, b5, b6, b7];
    proof {
        let s0 = Seq::<u8>::empty().push(b0);
        let s1 = s0.push(b1);
        let s2 = s1.push(b2);
        let s3 = s2.push(b3);
        let s4 = s3.push(b4);
        let s5 = s4.push(b5);
        let s6 = s5.push(b6);
        let s7 = s6.push(b7);
        lemma_be_value_push(Seq::<u8>::empty(), b0);
        lemma_be_value_push(s0, b1);
        lemma_be_value_push(s1, b2);
        lemma_be_value_push(s2, b3);
        lemma_be_value_push(s3, b4);
        lemma_be_value_push(s4, b5);
        lemma_be_value_push(s5, b6);
        lemma_be_value_push(s6, b7);
        assert(r@ =~= s7);
    }
    r
}

/// The 32 bytes of four limbs, most significant byte first.
pub fn limbs_to_be_bytes(l: &[u64; 4]) -> (r: [u8; 32])
    ensures
        r@ == be_bytes(limbs4_value(*l), 32),
{
    let a = word_to_be_bytes(l[3]);
    let b = word_to_be_bytes(l[2]);
    let c = word_to_be_bytes(l[1]);
    let d = word_to_be_bytes(l[0]);
    let r: [u8; 32] = [
        a[0], a[1], a[2], a[3], a[4], a[5], a[6], a[7],
        b[0], b[1], b[2], b[3], b[4], b[5], b[6], b[7],
        c[0], c[1], c[2], c[3], c[4], c[5], c[6], c[7],
        d[0], d[1], d[2], d[3], d[4], d[5], d[6], d[7],
    ];
    proof {
        lemma_byte_weights();
        assert(r@ =~= ((a@ + b@) + c@) + d@);
        lemma_be_value_concat(a@, b@);
        lemma_be_value_concat(a@ + b@, c@);
        lemma_be_value_concat((a@ + b@) + c@, d@);
        assert(be_value(r@) == limbs4_value(*l));
        lemma_be_bytes_of_value(r@);
    }
    r
}

/// The 32 bytes of four limbs, least significant byte first.
pub fn limbs_to_le_bytes(l: &[u64; 4]) -> (r: [u8; 32])
    ensures
        r@ == le_bytes(limbs4_value(*l), 32),
{
    let be = limbs_to_be_bytes(l);
    let r: [u8; 32] = [
        be[31], be[30], be[29], be[28], be[27], be[26], be[25], be[24],
        be[23], be[22], be[21], be[20], be[19], be[18], be[17], be[16],
        be[15], be[14], be[13], be[12], be[11], be[10], be[9], be[8],
        be[7], be[6], be[5], be[4], be[3], be[2], be[1], be[0],
    ];
    proof {
        assert(r@ =~= be@.reverse());
    }
    r
}

/// Two 32-byte strings joined.
pub fn concat32(a: &[u8; 32], b: &[u8; 32]) -> (r: [u8; 64])
    ensures
        r@ == a@ + b@,
{
    let mut r: [u8; 64] = [0u8; 64];
    for i in 0..32usize
        invariant
            forall|j: int| 0 <= j < i ==> r[j] == a[j] && r[32 + j] == b[j],
    {
        r[i] = a[i];
        r[32 + i] = b[i];
    }
    proof {
        assert(r@ =~= a@ + b@);
    }
    r
}

/// Two 64-byte strings joined.
pub fn concat64(a: &[u8; 64], b: &[u8; 64]) -> (r: [u8; 128])
    ensures
        r@ == a@ + b@,
{
    let mut r: [u8; 128] = [0u8; 128];
    for i in 0..64usize
        invariant
            forall|j: int| 0 <= j < i ==> r[j] == a[j] && r[64 + j] == b[j],
    {
        r[i] = a[i];
        r[64 + i] = b[i];
    }
    proof {
        assert(r@ =~= a@ + b@);
    }
    r
}

/// Four limbs from a big-endian byte string of any length; bytes beyond the
/// last 32 fall away, as the value wraps modulo `2^256`.
pub fn limbs_from_be_bytes(bytes: &[u8]) -> (r: [u64; 4])
    ensures
        limbs4_value(r) == be_value(bytes@) % pow256(),
{
    let mut acc: [u64; 4] = [0, 0, 0, 0];
    for i in 0..bytes.len()
        invariant
            limbs4_value(acc) == be_value(bytes@.take(i as int)) % pow256(),
    {
        let (next, overflow) = mul_add_small(&acc, 256, bytes[i] as u64);
        proof {
            let before = bytes@.take(i as int);
            let after = bytes@.take(i + 1);
            assert(after.drop_last() =~= before);
            assert(after.last() == bytes[i as int]);
            let v = be_value(before) as int;
            let m = pow256() as int;
            let b = bytes[i as int] as int;
            // v == (v / m) * m + v % m
            lemma_fundamental_div_mod(v, m);
            assert(m * (v / m) * 256 == m * ((v / m) * 256)) by (nonlinear_arith);
            assert(v * 256 + b == m * ((v / m) * 256) + ((v % m) * 256 + b));
            lemma_mod_multiples_vanish((v / m) * 256, (v % m) * 256 + b, m);
            // (v % m) * 256 + b == overflow * m + limbs4_value(next)
            lemma_fundamental_div_mod_converse(
                (v % m) * 256 + b,
                m,
                overflow as int,
                limbs4_value(next) as int,
            );
        }
        acc = next;
    }
    proof {
        assert(bytes@.take(bytes@.len() as int) =~= bytes@);
    }
    acc
}

} // verus!
