//! The laws of the scalar field, over the operations that the field
//! elements compute.

use vstd::prelude::*;
use vstd::arithmetic::div_mod::{lemma_add_mod_noop, lemma_mod_self_0, lemma_mul_mod_noop_general,
    lemma_small_mod};
use vstd::arithmetic::mul::{lemma_mul_is_associative, lemma_mul_is_commutative,
    lemma_mul_is_distributive_add};
use vstd::std_specs::cmp::PartialEqSpec;
use crate::bytes::{be_bytes, be_value, lemma_be_value_of_bytes, lemma_byte_weights};
use crate::decimal::decimal_digits;
use crate::field::{field_add, field_mul, field_pow5, field_sub, lemma_fifth_power,
    lemma_remainder, lemma_written_and_read, parse_field_element, reduce, Fr,
    InvalidFieldElement};
use crate::limbs::{lemma_limbs4_injective, pow256};
use crate::montgomery::modulus;

verus! {

/// Two field elements are equal exactly when they stand for the same
/// number.
pub proof fn lemma_equal_by_value(x: Fr, y: Fr)
    ensures
        x.eq_spec(&y) <==> x@ == y@,
        x == y <==> x@ == y@,
{
    if x@ == y@ {
        lemma_limbs4_injective(x.limbs, y.limbs);
    }
    if x.eq_spec(&y) {
        assert(x.limbs@ =~= y.limbs@);
    }
}

/// A canonical element written in decimal reads back as itself.
pub proof fn lemma_decimal_round_trip_in_field(x: Fr)
    requires
        x.is_canonical(),
    ensures
        parse_field_element(decimal_digits(x@)) == Ok::<nat, InvalidFieldElement>(x@),
{
    lemma_written_and_read(x@);
}

/// A canonical element written as 32 bytes reads back as itself.
pub proof fn lemma_bytes_round_trip_in_field(x: Fr)
    requires
        x.is_canonical(),
    ensures
        (be_value(be_bytes(x@, 32)) % pow256()) % modulus() == x@,
{
    lemma_byte_weights();
    lemma_be_value_of_bytes(x@, 32);
    lemma_small_mod(x@, pow256());
    lemma_small_mod(x@, modulus());
}

/// Sums, differences and products are canonical.
pub proof fn lemma_results_canonical(x: Fr, y: Fr)
    requires
        x.is_canonical(),
        y.is_canonical(),
    ensures
        field_add(x@, y@) < modulus(),
        field_sub(x@, y@) < modulus(),
        field_mul(x@, y@) < modulus(),
{
}

/// Addition is commutative.
pub proof fn lemma_add_commutative(x: Fr, y: Fr)
    requires
        x.is_canonical(),
        y.is_canonical(),
    ensures
        field_add(x@, y@) == field_add(y@, x@),
{
}

/// Addition is associative.
pub proof fn lemma_add_associative(x: Fr, y: Fr, z: Fr)
    requires
        x.is_canonical(),
        y.is_canonical(),
        z.is_canonical(),
    ensures
        field_add(field_add(x@, y@), z@) == field_add(x@, field_add(y@, z@)),
{
    let p = modulus() as int;
    let (a, b, c) = (x@ as int, y@ as int, z@ as int);
    lemma_small_mod(x@, modulus());
    lemma_small_mod(z@, modulus());
    lemma_add_mod_noop(a + b, c, p);
    lemma_add_mod_noop(a, b + c, p);
}

/// Multiplication is commutative.
pub proof fn lemma_mul_commutative(x: Fr, y: Fr)
    requires
        x.is_canonical(),
        y.is_canonical(),
    ensures
        field_mul(x@, y@) == field_mul(y@, x@),
{
    lemma_mul_is_commutative(x@ as int, y@ as int);
}

/// Multiplication is associative.
pub proof fn lemma_mul_associative(x: Fr, y: Fr, z: Fr)
    requires
        x.is_canonical(),
        y.is_canonical(),
        z.is_canonical(),
    ensures
        field_mul(field_mul(x@, y@), z@) == field_mul(x@, field_mul(y@, z@)),
{
    let p = modulus() as int;
    lemma_small_mod(x@, modulus());
    lemma_small_mod(z@, modulus());
    let (a, b, c) = (x@ as int, y@ as int, z@ as int);
    lemma_mul_mod_noop_general(a * b, c, p);
    lemma_mul_mod_noop_general(a, b * c, p);
    lemma_mul_is_associative(a, b, c);
}

/// Multiplication distributes over addition.
pub proof fn lemma_mul_distributes(x: Fr, y: Fr, z: Fr)
    requires
        x.is_canonical(),
        y.is_canonical(),
        z.is_canonical(),
    ensures
        field_mul(x@, field_add(y@, z@)) == field_add(field_mul(x@, y@), field_mul(x@, z@)),
{
    let p = modulus() as int;
    lemma_small_mod(x@, modulus());
    let (a, b, c) = (x@ as int, y@ as int, z@ as int);
    lemma_mul_mod_noop_general(a, b + c, p);
    lemma_add_mod_noop(a * b, a * c, p);
    lemma_mul_is_distributive_add(a, b, c);
}

/// Zero is the identity of addition.
pub proof fn lemma_add_identity(x: Fr)
    requires
        x.is_canonical(),
    ensures
        field_add(x@, 0) == x@,
        field_add(0, x@) == x@,
{
    lemma_small_mod(x@, modulus());
}

/// One is the identity of multiplication.
pub proof fn lemma_mul_identity(x: Fr)
    requires
        x.is_canonical(),
    ensures
        field_mul(x@, 1) == x@,
        field_mul(1, x@) == x@,
{
    lemma_small_mod(x@, modulus());
    assert(x@ * 1 == x@);
    assert(1 * x@ == x@);
}

/// An element and its negation add up to zero: `x + (r - x) = 0`.
pub proof fn lemma_add_inverse(x: Fr)
    requires
        x.is_canonical(),
    ensures
        reduce(x@ + (modulus() - x@)) == 0,
        field_add(x@, field_sub(0, x@)) == 0,
{
    let p = modulus() as int;
    lemma_mod_self_0(p);
    if x@ == 0 {
        lemma_small_mod(0, modulus());
    } else {
        lemma_remainder(0 - x@, p, -1, p - x@);
    }
}

/// Subtraction undoes addition.
pub proof fn lemma_sub_undoes_add(x: Fr, y: Fr)
    requires
        x.is_canonical(),
        y.is_canonical(),
    ensures
        field_sub(field_add(x@, y@), y@) == x@,
{
    let p = modulus() as int;
    let total = x@ as int + y@ as int;
    if total < p {
        lemma_small_mod(total as nat, modulus());
        lemma_small_mod(x@, modulus());
    } else {
        lemma_remainder(total, p, 1, total - p);
        lemma_remainder(total - p - y@, p, -1, x@ as int);
    }
}

/// The S-box is five factors multiplied in the field.
pub proof fn lemma_pow5_is_repeated_mul(x: Fr)
    requires
        x.is_canonical(),
    ensures
        field_pow5(x@) == field_mul(field_mul(field_mul(field_mul(x@, x@), x@), x@), x@),
        field_pow5(x@) == field_mul(field_mul(field_mul(x@, x@), field_mul(x@, x@)), x@),
{
    let p = modulus() as int;
    let v = x@ as int;
    lemma_small_mod(x@, modulus());
    lemma_fifth_power(
        v,
        field_mul(x@, x@) as int,
        field_mul(field_mul(x@, x@), field_mul(x@, x@)) as int,
        field_mul(field_mul(field_mul(x@, x@), field_mul(x@, x@)), x@) as int,
    );
    lemma_mul_mod_noop_general(v * v, v, p);
    lemma_mul_mod_noop_general(v * v * v, v, p);
    lemma_mul_mod_noop_general(v * v * v * v, v, p);
}

} // verus!
