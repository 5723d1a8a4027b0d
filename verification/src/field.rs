//! The BN254 scalar field.
//!
//! A field element is kept in canonical form: four little-endian limbs whose
//! value lies below the field order `r`. Addition, subtraction and
//! multiplication compute both of their candidates and select between them
//! with a mask, never with a branch on the data.

use vstd::prelude::*;
use vstd::arithmetic::div_mod::{lemma_fundamental_div_mod_converse, lemma_mul_mod_noop_general,
    lemma_small_mod};
use vstd::std_specs::cmp::PartialEqSpecImpl;
use crate::bytes::{be_bytes, be_value, limbs_from_be_bytes, limbs_to_be_bytes};
use crate::decimal::{all_decimal, decimal_digits, decimal_value,
    lemma_decimal_round_trip, lemma_parse_decimal_ok,
    limbs_to_decimal, parse_decimal, parse_decimal_limbs, FromDecStrErr};
use crate::limbs::{add_with_carry_256, ct_gte, ct_select, div_rem_small, limbs4_value, pow256,
    sub_with_borrow_256};
use crate::montgomery::{lemma_constants, modulus, montgomery_pass, r_inverse, reduce_limbs,
    MODULUS, R2};

verus! {

/// An element of the BN254 scalar field, as four 64-bit limbs, least
/// significant first.
#[derive(Clone, Copy, Debug, Eq)]
pub struct Fr {
    pub limbs: [u64; 4],
}

impl PartialEq for Fr {
    fn eq(&self, other: &Self) -> (r: bool) {
        self.limbs[0] == other.limbs[0] && self.limbs[1] == other.limbs[1] && self.limbs[2]
            == other.limbs[2] && self.limbs[3] == other.limbs[3]
    }
}

impl PartialEqSpecImpl for Fr {
    open spec fn obeys_eq_spec() -> bool {
        true
    }

    open spec fn eq_spec(&self, other: &Self) -> bool {
        self.limbs[0] == other.limbs[0] && self.limbs[1] == other.limbs[1] && self.limbs[2]
            == other.limbs[2] && self.limbs[3] == other.limbs[3]
    }
}

impl Default for Fr {
    /// Zero.
    fn default() -> (r: Self)
        ensures
            r@ == 0,
            r.is_canonical(),
    {
        Fr { limbs: [0, 0, 0, 0] }
    }
}

/// Why a string is no field element.
#[derive(Clone, Copy, Debug, PartialEq, Eq, Structural)]
pub enum InvalidFieldElement {
    /// A character outside `0`..`9`.
    NotDecimal,
    /// The value is `r` or more.
    OutOfRange,
}

/// What a decimal string is as a field element: the value it stands for, if
/// it is made of digits alone and lies below `r`.
pub open spec fn parse_field_element(s: Seq<char>) -> Result<nat, InvalidFieldElement> {
    match parse_decimal(s) {
        Ok(v) => if v < modulus() {
            Ok(v)
        } else {
            Err(InvalidFieldElement::OutOfRange)
        },
        Err(FromDecStrErr::InvalidCharacter) => Err(InvalidFieldElement::NotDecimal),
        Err(FromDecStrErr::InvalidLength) => Err(InvalidFieldElement::OutOfRange),
    }
}

impl View for Fr {
    type V = nat;

    /// The number that the limbs stand for.
    open spec fn view(&self) -> nat {
        limbs4_value(self.limbs)
    }
}

/// `x mod r` for an integer `x` of either sign, as a natural number.
pub open spec fn reduce(x: int) -> nat {
    (x % (modulus() as int)) as nat
}

/// The sum of two field elements.
pub open spec fn field_add(a: nat, b: nat) -> nat {
    reduce((a + b) as int)
}

/// The difference of two field elements.
pub open spec fn field_sub(a: nat, b: nat) -> nat {
    reduce(a - b)
}

/// The product of two field elements.
pub open spec fn field_mul(a: nat, b: nat) -> nat {
    reduce((a * b) as int)
}

/// The fifth power of a field element, by plain repeated multiplication.
pub open spec fn field_pow5(a: nat) -> nat {
    reduce((a * a * a * a * a) as int)
}

/// A value `x` that lies `q` whole multiples of `d` above a remainder `rem`
/// has that remainder.
pub proof fn lemma_remainder(x: int, d: int, q: int, rem: int)
    requires
        d > 0,
        0 <= rem < d,
        x == q * d + rem,
    ensures
        x % d == rem,
{
    lemma_fundamental_div_mod_converse(x, d, q, rem);
}

impl Fr {
    /// Whether the element is in canonical form: its value lies in `[0, r)`.
    pub open spec fn is_canonical(&self) -> bool {
        self@ < modulus()
    }

    /// The additive identity.
    pub fn zero() -> (r: Self)
        ensures
            r@ == 0,
            r.is_canonical(),
    {
        Fr { limbs: [0, 0, 0, 0] }
    }

    /// The multiplicative identity.
    pub fn one() -> (r: Self)
        ensures
            r@ == 1,
            r.is_canonical(),
    {
        Fr { limbs: [1, 0, 0, 0] }
    }

    /// The field element with value `n`.
    pub fn from_u64(n: u64) -> (r: Self)
        ensures
            r@ == n,
            r.is_canonical(),
    {
        Fr { limbs: [n, 0, 0, 0] }
    }

    /// Reads a decimal string: digits alone, standing for a value below `r`.
    /// Any other string is rejected; the empty string reads as zero.
    pub fn from_str(s: &str) -> (r: Result<Self, InvalidFieldElement>)
        ensures
            r is Ok <==> all_decimal(s@) && decimal_value(s@) < modulus(),
            match r {
                Ok(x) => x.is_canonical() && parse_field_element(s@) == Ok::<
                    nat,
                    InvalidFieldElement,
                >(x@) && x@ == decimal_value(s@),
                Err(e) => parse_field_element(s@) == Err::<nat, InvalidFieldElement>(e),
            },
    {
        proof {
            lemma_parse_decimal_ok(s@);
            lemma_constants();
        }
        match parse_decimal_limbs(s) {
            Ok(limbs) => {
                let x = Fr { limbs };
                if x.gte_modulus() {
                    Err(InvalidFieldElement::OutOfRange)
                } else {
                    Ok(x)
                }
            },
            Err(FromDecStrErr::InvalidCharacter) => Err(InvalidFieldElement::NotDecimal),
            Err(FromDecStrErr::InvalidLength) => Err(InvalidFieldElement::OutOfRange),
        }
    }

    /// The shortest decimal writing of the value.
    pub fn to_string(&self) -> (r: String)
        ensures
            r@ == decimal_digits(self@),
    {
        limbs_to_decimal(&self.limbs)
    }

    /// Reads big-endian bytes as a field element: the value, wrapped into 256
    /// bits, modulo `r`.
    pub fn from_be_bytes(bytes: &[u8]) -> (r: Self)
        ensures
            r.is_canonical(),
            r@ == (be_value(bytes@) % pow256()) % modulus(),
    {
        let raw = limbs_from_be_bytes(bytes);
        Fr { limbs: reduce_limbs(&raw) }
    }

    /// The value as 32 bytes, most significant first.
    pub fn to_be_bytes(&self) -> (r: [u8; 32])
        ensures
            r@ == be_bytes(self@, 32),
    {
        limbs_to_be_bytes(&self.limbs)
    }

    /// The remainder of the value by a non-zero word.
    pub fn mod_small(&self, n: u64) -> (r: u64)
        requires
            n > 0,
        ensures
            r == self@ % (n as nat),
    {
        let (_quotient, rem) = div_rem_small(&self.limbs, n);
        rem
    }

    /// The quotient of the value by a non-zero word.
    pub fn div_small(&self, n: u64) -> (r: Self)
        requires
            n > 0,
        ensures
            r@ == self@ / (n as nat),
    {
        let (quotient, _rem) = div_rem_small(&self.limbs, n);
        Fr { limbs: quotient }
    }

    /// Whether the value is zero.
    pub fn is_zero(&self) -> (r: bool)
        ensures
            r == (self@ == 0),
    {
        self.limbs[0] == 0 && self.limbs[1] == 0 && self.limbs[2] == 0 && self.limbs[3] == 0
    }

    /// Whether the value is at least `r`.
    pub fn gte_modulus(&self) -> (r: bool)
        ensures
            r == (self@ >= modulus()),
    {
        proof {
            lemma_constants();
        }
        ct_gte(&self.limbs, &MODULUS)
    }

    /// Whether the value is at least that of `other`.
    pub fn gte(&self, other: &Self) -> (r: bool)
        ensures
            r == (self@ >= other@),
    {
        ct_gte(&self.limbs, &other.limbs)
    }

    /// The value less `r`, wrapped into 256 bits when it was below `r`.
    pub fn sub_modulus(&self) -> (r: Self)
        ensures
            r@ == (if self@ >= modulus() {
                self@ - modulus()
            } else {
                self@ + pow256() - modulus()
            }),
    {
        proof {
            lemma_constants();
        }
        let (diff, _borrow) = sub_with_borrow_256(&self.limbs, &MODULUS);
        Fr { limbs: diff }
    }

    /// The value plus `r`, wrapped into 256 bits.
    pub fn add_modulus(&self) -> (r: Self)
        ensures
            r@ == (if self@ + modulus() < pow256() {
                self@ + modulus()
            } else {
                (self@ + modulus() - pow256()) as nat
            }),
    {
        proof {
            lemma_constants();
        }
        let (sum, _carry) = add_with_carry_256(&self.limbs, &MODULUS);
        Fr { limbs: sum }
    }

    /// The difference of the two values, wrapped into 256 bits when `other`
    /// is the larger.
    pub fn sub_internal(&self, other: &Self) -> (r: Self)
        ensures
            r@ == (if self@ >= other@ {
                self@ - other@
            } else {
                self@ + pow256() - other@
            }),
    {
        let (diff, _borrow) = sub_with_borrow_256(&self.limbs, &other.limbs);
        Fr { limbs: diff }
    }

    /// Addition modulo `r`.
    pub fn add(&self, other: &Self) -> (r: Self)
        requires
            self.is_canonical(),
            other.is_canonical(),
        ensures
            r.is_canonical(),
            r@ == field_add(self@, other@),
    {
        proof {
            lemma_constants();
        }
        let (sum, carry) = add_with_carry_256(&self.limbs, &other.limbs);
        let r = Fr { limbs: sum };
        let reduced = r.sub_modulus();
        let at_least_modulus: bool = r.gte_modulus();
        let needs_reduction: bool = carry > 0 || at_least_modulus;
        let out = Fr { limbs: ct_select(needs_reduction, &reduced.limbs, &r.limbs) };
        proof {
            let total = self@ + other@;
            assert(carry == 0);
            if needs_reduction {
                lemma_remainder(total as int, modulus() as int, 1, total - modulus());
            } else {
                lemma_small_mod(total as nat, modulus());
            }
        }
        out
    }

    /// Subtraction modulo `r`.
    pub fn sub(&self, other: &Self) -> (r: Self)
        requires
            self.is_canonical(),
            other.is_canonical(),
        ensures
            r.is_canonical(),
            r@ == field_sub(self@, other@),
    {
        proof {
            lemma_constants();
        }
        let direct = self.sub_internal(other);
        let with_modulus = self.add_modulus();
        let wrapped = with_modulus.sub_internal(other);
        let use_direct: bool = self.gte(other);
        let out = Fr { limbs: ct_select(use_direct, &direct.limbs, &wrapped.limbs) };
        proof {
            let diff = self@ - other@;
            if use_direct {
                lemma_small_mod(diff as nat, modulus());
            } else {
                lemma_remainder(diff, modulus() as int, -1, diff + modulus());
            }
        }
        out
    }

    /// Multiplication modulo `r`: one Montgomery pass on the operands, and a
    /// second against `2^512 mod r` that takes the result back to ordinary
    /// form.
    pub fn mul(&self, other: &Self) -> (r: Self)
        requires
            self.is_canonical(),
            other.is_canonical(),
        ensures
            r.is_canonical(),
            r@ == field_mul(self@, other@),
    {
        proof {
            lemma_constants();
        }
        let (first, m1) = montgomery_pass(&self.limbs, &other.limbs);
        let (second, m2) = montgomery_pass(&first, &R2);
        proof {
            lemma_montgomery_round_trip(
                (self@ * other@) as int,
                limbs4_value(first) as int,
                limbs4_value(second) as int,
                m1@,
                m2@,
            );
        }
        Fr { limbs: second }
    }

    /// The fifth power, `((x^2)^2) * x`.
    pub fn pow5(&self) -> (r: Self)
        requires
            self.is_canonical(),
        ensures
            r.is_canonical(),
            r@ == field_pow5(self@),
    {
        let x2 = self.mul(self);
        let x4 = x2.mul(&x2);
        let x5 = x4.mul(self);
        proof {
            lemma_fifth_power(self@ as int, x2@ as int, x4@ as int, x5@ as int);
        }
        x5
    }
}

/// Two Montgomery passes, the second against `2^512 mod r`, give the plain
/// product: if `first * 2^256 = product + m1 * r` and
/// `second * 2^256 = first * (2^512 mod r) + m2 * r`, then `second` is the
/// remainder of `product`.
pub proof fn lemma_montgomery_round_trip(product: int, first: int, second: int, m1: int, m2: int)
    requires
        0 <= second < modulus(),
        first * pow256() == product + m1 * modulus(),
        second * pow256() == first * limbs4_value(R2) + m2 * modulus(),
    ensures
        second == reduce(product),
{
    lemma_constants();
    let p = modulus() as int;
    let big = pow256() as int;
    let r2 = limbs4_value(R2) as int;
    let inv = r_inverse() as int;
    // big * big == r2 + k * p
    let k: int = 612557527273816073910311476275045157067432104571610153771051915293407781491289int;
    assert(big * big == r2 + k * p);
    // big * inv == 1 + j * p
    let j: int = 52454480824480482120356829342366457550537710351690908576382634413609933864959int;
    assert(big * inv == 1 + j * p);
    // second * big == first * big * big - first * k * p + m2 * p
    //              == (product + m1 * p) * big + (m2 - first * k) * p
    assert(first * (big * big) == first * r2 + first * (k * p)) by (nonlinear_arith)
        requires
            big * big == r2 + k * p,
    ;
    assert(first * (big * big) == (first * big) * big) by (nonlinear_arith);
    assert(first * (k * p) == (first * k) * p) by (nonlinear_arith);
    assert((product + m1 * p) * big == product * big + (m1 * big) * p) by (nonlinear_arith);
    let n = m1 * big + m2 - first * k;
    assert((second - product) * big == n * p) by (nonlinear_arith)
        requires
            second * big == first * r2 + m2 * p,
            first * big == product + m1 * p,
            (first * big) * big == first * r2 + (first * k) * p,
            (product + m1 * p) * big == product * big + (m1 * big) * p,
            n == m1 * big + m2 - first * k,
    ;
    let d = second - product;
    // d == d * (big * inv - j * p) == (n * inv - d * j) * p
    assert(d == (d * big) * inv - (d * j) * p) by (nonlinear_arith)
        requires
            big * inv == 1 + j * p,
    ;
    assert((n * p) * inv == (n * inv) * p) by (nonlinear_arith);
    let q = n * inv - d * j;
    assert(d == q * p) by (nonlinear_arith)
        requires
            d == (d * big) * inv - (d * j) * p,
            d * big == n * p,
            (n * p) * inv == (n * inv) * p,
            q == n * inv - d * j,
    ;
    lemma_remainder(product, p, -q, second);
}

/// Squaring twice and multiplying once more, each time modulo `r`, gives the
/// fifth power modulo `r`.
pub proof fn lemma_fifth_power(x: int, x2: int, x4: int, x5: int)
    requires
        x2 == reduce(x * x),
        x4 == reduce(x2 * x2),
        x5 == reduce(x4 * x),
    ensures
        x5 == reduce(x * x * x * x * x),
{
    let p = modulus() as int;
    lemma_mul_mod_noop_general(x * x, x * x, p);
    assert(x4 == ((x * x) * (x * x)) % p);
    lemma_mul_mod_noop_general((x * x) * (x * x), x, p);
    assert(x5 == (((x * x) * (x * x)) * x) % p);
    assert(((x * x) * (x * x)) * x == x * x * x * x * x) by (nonlinear_arith);
}

/// A canonical field element reads back from its own decimal writing.
pub proof fn lemma_written_and_read(v: nat)
    requires
        v < modulus(),
    ensures
        parse_field_element(decimal_digits(v)) == Ok::<nat, InvalidFieldElement>(v),
{
    lemma_decimal_round_trip(v);
    lemma_parse_decimal_ok(decimal_digits(v));
    lemma_constants();
}

} // verus!
