//! The Poseidon permutation of width three over the BN254 scalar field, and
//! the hashes built on it.
//!
//! The permutation runs 65 rounds: four full rounds, fifty-seven partial
//! rounds, four full rounds. A round adds its constants, applies the S-box
//! `x^5` (to every element in a full round, to the first alone in a partial
//! round) and multiplies the state by the mixing matrix.

use vstd::prelude::*;
use vstd::arithmetic::div_mod::{lemma_add_mod_noop, lemma_small_mod};
use crate::decimal::decimal_digits;
use crate::field::{field_add, field_pow5, lemma_written_and_read, parse_field_element, reduce};
use crate::limbs::limbs4_value;
use crate::montgomery::modulus;
use crate::poseidon_precomputed::{C_T3_FR, M_T3_FR};

pub use crate::field::{Fr, InvalidFieldElement};

verus! {

/// Round constant `i` of the permutation, as a number.
#[verifier::opaque]
pub open spec fn round_constant(i: int) -> nat {
    limbs4_value(C_T3_FR[i])
}

/// Entry `(i, j)` of the mixing matrix, as a number.
#[verifier::opaque]
pub open spec fn mds_entry(i: int, j: int) -> nat {
    limbs4_value(M_T3_FR[i][j])
}

/// Whether `round` applies the S-box to the whole state.
pub open spec fn is_full_round(round: int) -> bool {
    round < 4 || round >= 61
}

/// The state after the constants of `round` are added.
pub open spec fn with_round_constants(s: Seq<nat>, round: int) -> Seq<nat> {
    seq![
        field_add(s[0], round_constant(3 * round)),
        field_add(s[1], round_constant(3 * round + 1)),
        field_add(s[2], round_constant(3 * round + 2)),
    ]
}

/// The state after the S-box of `round`: every element in a full round, the
/// first alone in a partial round.
pub open spec fn with_sbox(s: Seq<nat>, round: int) -> Seq<nat> {
    if is_full_round(round) {
        seq![field_pow5(s[0]), field_pow5(s[1]), field_pow5(s[2])]
    } else {
        seq![field_pow5(s[0]), s[1], s[2]]
    }
}

/// Row `i` of the mixing matrix applied to the state.
pub open spec fn mixed_row(s: Seq<nat>, i: int) -> nat {
    reduce((s[0] * mds_entry(i, 0) + s[1] * mds_entry(i, 1) + s[2] * mds_entry(i, 2)) as int)
}

/// The matrix-vector product of the mixing matrix and the state.
pub open spec fn mixed(s: Seq<nat>) -> Seq<nat> {
    seq![mixed_row(s, 0), mixed_row(s, 1), mixed_row(s, 2)]
}

/// One round: constants, S-box, mixing.
pub open spec fn round_function(s: Seq<nat>, round: int) -> Seq<nat> {
    mixed(with_sbox(with_round_constants(s, round), round))
}

/// The state after the first `n` rounds.
pub open spec fn after_rounds(s: Seq<nat>, n: nat) -> Seq<nat>
    decreases n,
{
    if n == 0 {
        s
    } else {
        round_function(after_rounds(s, (n - 1) as nat), n - 1)
    }
}

/// The Poseidon permutation of width three.
pub open spec fn permutation(s: Seq<nat>) -> Seq<nat> {
    after_rounds(s, 65)
}

/// The state that absorbs `inputs`: a zero capacity element, then the
/// inputs, then zeros.
pub open spec fn initial_state(inputs: Seq<nat>) -> Seq<nat> {
    seq![
        0nat,
        if inputs.len() > 0 { inputs[0] } else { 0 },
        if inputs.len() > 1 { inputs[1] } else { 0 },
    ]
}

/// The hash of up to two field elements: the first element of the permuted
/// state.
pub open spec fn poseidon_value(inputs: Seq<nat>) -> nat {
    permutation(initial_state(inputs))[0]
}

/// The hash of two field elements.
pub open spec fn hash2_value(a: nat, b: nat) -> nat {
    poseidon_value(seq![a, b])
}

/// The hash of four field elements, as a binary tree of two-input hashes.
pub open spec fn hash4_value(a: nat, b: nat, c: nat, d: nat) -> nat {
    hash2_value(hash2_value(a, b), hash2_value(c, d))
}

/// Whether the first `n` round constants have a top limb below that of
/// the field order, which makes them canonical.
pub open spec fn constants_below(n: nat) -> bool
    decreases n,
{
    n == 0 || (C_T3_FR[n - 1][3] < 0x30644e72e131a029 && constants_below((n - 1) as nat))
}

/// What holds of the first `n` round constants holds of each of them.
#[verifier::spinoff_prover]
proof fn lemma_constant_below(n: nat, i: int)
    requires
        constants_below(n),
        0 <= i < n,
    ensures
        C_T3_FR[i][3] < 0x30644e72e131a029,
    decreases n,
{
    if i < n - 1 {
        lemma_constant_below((n - 1) as nat, i);
    }
}

/// Every round constant and every entry of the mixing matrix is canonical.
#[verifier::spinoff_prover]
#[verifier::rlimit(100)]
pub proof fn lemma_parameters_canonical()
    ensures
        forall|i: int| 0 <= i < 195 ==> #[trigger] round_constant(i) < modulus(),
        forall|i: int, j: int| 0 <= i < 3 && 0 <= j < 3 ==> #[trigger] mds_entry(i, j) < modulus(),
{
    reveal(round_constant);
    reveal(mds_entry);
    assert(constants_below(15)) by {
        reveal_with_fuel(constants_below, 16);
    }
    assert(constants_below(30)) by {
        reveal_with_fuel(constants_below, 16);
    }
    assert(constants_below(45)) by {
        reveal_with_fuel(constants_below, 16);
    }
    assert(constants_below(60)) by {
        reveal_with_fuel(constants_below, 16);
    }
    assert(constants_below(75)) by {
        reveal_with_fuel(constants_below, 16);
    }
    assert(constants_below(90)) by {
        reveal_with_fuel(constants_below, 16);
    }
    assert(constants_below(105)) by {
        reveal_with_fuel(constants_below, 16);
    }
    assert(constants_below(120)) by {
        reveal_with_fuel(constants_below, 16);
    }
    assert(constants_below(135)) by {
        reveal_with_fuel(constants_below, 16);
    }
    assert(constants_below(150)) by {
        reveal_with_fuel(constants_below, 16);
    }
    assert(constants_below(165)) by {
        reveal_with_fuel(constants_below, 16);
    }
    assert(constants_below(180)) by {
        reveal_with_fuel(constants_below, 16);
    }
    assert(constants_below(195)) by {
        reveal_with_fuel(constants_below, 16);
    }
    assert forall|i: int| 0 <= i < 195 implies #[trigger] round_constant(i) < modulus() by {
        lemma_constant_below(195, i);
    }
    assert forall|i: int, j: int| 0 <= i < 3 && 0 <= j < 3 implies #[trigger] mds_entry(i, j)
        < modulus() by {
        assert(M_T3_FR[i][j][3] < 0x30644e72e131a029);
    }
}

/// Round constant `i`, as a field element.
#[verifier::spinoff_prover]
pub fn round_constant_at(i: usize) -> (r: Fr)
    requires
        i < 195,
    ensures
        r.is_canonical(),
        r@ == round_constant(i as int),
{
    proof {
        lemma_parameters_canonical();
        assert(round_constant(i as int) < modulus());
        reveal(round_constant);
    }
    Fr { limbs: C_T3_FR[i] }
}

/// Entry `(i, j)` of the mixing matrix, as a field element.
#[verifier::spinoff_prover]
pub fn mds_entry_at(i: usize, j: usize) -> (r: Fr)
    requires
        i < 3,
        j < 3,
    ensures
        r.is_canonical(),
        r@ == mds_entry(i as int, j as int),
{
    proof {
        lemma_parameters_canonical();
        assert(mds_entry(i as int, j as int) < modulus());
        reveal(mds_entry);
    }
    Fr { limbs: M_T3_FR[i][j] }
}

/// The numbers that a state of three field elements holds.
pub open spec fn state_values(state: [Fr; 3]) -> Seq<nat> {
    seq![state[0]@, state[1]@, state[2]@]
}

/// Whether every element of a state is canonical.
pub open spec fn state_canonical(state: [Fr; 3]) -> bool {
    state[0].is_canonical() && state[1].is_canonical() && state[2].is_canonical()
}

/// A Poseidon sponge state of `T` field elements.
pub struct PoseidonState<const T: usize> {
    pub state: [Fr; T],
}

impl<const T: usize> PoseidonState<T> {
    /// A state of zeros.
    pub fn new() -> (r: Self)
        ensures
            forall|i: int| 0 <= i < T ==> (#[trigger] r.state[i])@ == 0,
    {
        PoseidonState { state: [Fr::zero();T] }
    }
}

/// Adds the constants of `round` to the state.
fn add_round_constants(state: &[Fr; 3], round: usize) -> (r: [Fr; 3])
    requires
        round < 65,
        state_canonical(*state),
    ensures
        state_canonical(r),
        state_values(r) == with_round_constants(state_values(*state), round as int),
{
    let c0 = round_constant_at(round * 3);
    let c1 = round_constant_at(round * 3 + 1);
    let c2 = round_constant_at(round * 3 + 2);
    let r = [state[0].add(&c0), state[1].add(&c1), state[2].add(&c2)];
    proof {
        assert(state_values(r) =~= with_round_constants(state_values(*state), round as int));
    }
    r
}

/// Row `i` of the matrix-vector product.
fn mds_row(state: &[Fr; 3], i: usize) -> (r: Fr)
    requires
        i < 3,
        state_canonical(*state),
    ensures
        r.is_canonical(),
        r@ == mixed_row(state_values(*state), i as int),
{
    let m0 = mds_entry_at(i, 0);
    let m1 = mds_entry_at(i, 1);
    let m2 = mds_entry_at(i, 2);
    let p0 = state[0].mul(&m0);
    let p1 = state[1].mul(&m1);
    let p2 = state[2].mul(&m2);
    let acc0 = Fr::zero().add(&p0);
    let acc1 = acc0.add(&p1);
    let acc2 = acc1.add(&p2);
    proof {
        let p = modulus() as int;
        let x0 = (state[0]@ * m0@) as int;
        let x1 = (state[1]@ * m1@) as int;
        let x2 = (state[2]@ * m2@) as int;
        lemma_small_mod(p0@, modulus());
        assert(acc0@ == x0 % p);
        lemma_add_mod_noop(x0, x1, p);
        assert(acc1@ == (x0 + x1) % p);
        lemma_add_mod_noop(x0 + x1, x2, p);
        assert(acc2@ == (x0 + x1 + x2) % p);
    }
    acc2
}

/// The matrix-vector product of the mixing matrix and the state.
pub fn mds_multiply_t3(state: &[Fr; 3]) -> (r: [Fr; 3])
    requires
        state_canonical(*state),
    ensures
        state_canonical(r),
        state_values(r) == mixed(state_values(*state)),
{
    let r = [mds_row(state, 0), mds_row(state, 1), mds_row(state, 2)];
    proof {
        assert(state_values(r) =~= mixed(state_values(*state)));
    }
    r
}

/// A full round: constants, S-box on every element, mixing.
fn full_round(state: &[Fr; 3], round: usize) -> (r: [Fr; 3])
    requires
        round < 65,
        is_full_round(round as int),
        state_canonical(*state),
    ensures
        state_canonical(r),
        state_values(r) == round_function(state_values(*state), round as int),
{
    let with_constants = add_round_constants(state, round);
    let boxed = [with_constants[0].pow5(), with_constants[1].pow5(), with_constants[2].pow5()];
    proof {
        assert(state_values(boxed) =~= with_sbox(state_values(with_constants), round as int));
    }
    mds_multiply_t3(&boxed)
}

/// A partial round: constants, S-box on the first element, mixing.
fn partial_round(state: &[Fr; 3], round: usize) -> (r: [Fr; 3])
    requires
        round < 65,
        !is_full_round(round as int),
        state_canonical(*state),
    ensures
        state_canonical(r),
        state_values(r) == round_function(state_values(*state), round as int),
{
    let with_constants = add_round_constants(state, round);
    let boxed = [with_constants[0].pow5(), with_constants[1], with_constants[2]];
    proof {
        assert(state_values(boxed) =~= with_sbox(state_values(with_constants), round as int));
    }
    mds_multiply_t3(&boxed)
}

/// The numbers that a slice of field elements holds.
pub open spec fn values_of(inputs: Seq<Fr>) -> Seq<nat> {
    Seq::new(inputs.len(), |i: int| inputs[i]@)
}

/// The Poseidon hash of up to two field elements.
pub fn poseidon_t3(inputs: &[Fr]) -> (r: Fr)
    requires
        inputs@.len() <= 2,
        forall|i: int| 0 <= i < inputs@.len() ==> (#[trigger] inputs@[i]).is_canonical(),
    ensures
        r.is_canonical(),
        r@ == poseidon_value(values_of(inputs@)),
{
    let mut state: [Fr; 3] = PoseidonState::<3>::new().state;
    if inputs.len() > 0 {
        state[1] = inputs[0];
    }
    if inputs.len() > 1 {
        state[2] = inputs[1];
    }
    let ghost start = state_values(state);
    proof {
        assert(start =~= initial_state(values_of(inputs@)));
    }
    let mut round: usize = 0;
    while round < 4
        invariant
            round <= 4,
            state_canonical(state),
            state_values(state) == after_rounds(start, round as nat),
        decreases 4 - round,
    {
        state = full_round(&state, round);
        round = round + 1;
    }
    while round < 61
        invariant
            4 <= round <= 61,
            state_canonical(state),
            state_values(state) == after_rounds(start, round as nat),
        decreases 61 - round,
    {
        state = partial_round(&state, round);
        round = round + 1;
    }
    while round < 65
        invariant
            61 <= round <= 65,
            state_canonical(state),
            state_values(state) == after_rounds(start, round as nat),
        decreases 65 - round,
    {
        state = full_round(&state, round);
        round = round + 1;
    }
    state[0]
}

/// The two field elements that two decimal strings stand for. The first
/// string that is no field element decides the error.
pub open spec fn parse_pair(left: Seq<char>, right: Seq<char>) -> Result<
    (nat, nat),
    InvalidFieldElement,
> {
    match parse_field_element(left) {
        Err(e) => Err(e),
        Ok(a) => match parse_field_element(right) {
            Err(e) => Err(e),
            Ok(b) => Ok((a, b)),
        },
    }
}

/// The decimal writing of the hash of two decimal strings, or the error of
/// the first of them that is no field element.
pub open spec fn hash2_text(left: Seq<char>, right: Seq<char>) -> Result<
    Seq<char>,
    InvalidFieldElement,
> {
    match parse_pair(left, right) {
        Err(e) => Err(e),
        Ok(p) => Ok(decimal_digits(hash2_value(p.0, p.1))),
    }
}

/// The decimal writing of the tree hash of four decimal strings, or the
/// error of the first of them that is no field element.
pub open spec fn hash4_text(a: Seq<char>, b: Seq<char>, c: Seq<char>, d: Seq<char>) -> Result<
    Seq<char>,
    InvalidFieldElement,
> {
    match parse_pair(a, b) {
        Err(e) => Err(e),
        Ok(p) => match parse_pair(c, d) {
            Err(e) => Err(e),
            Ok(q) => Ok(decimal_digits(hash4_value(p.0, p.1, q.0, q.1))),
        },
    }
}

/// The decimal writing of the hash of a nullifier and a leaf index, or the
/// error of a nullifier that is no field element.
pub open spec fn nullifier_text(nullifier: Seq<char>, leaf_index: nat) -> Result<
    Seq<char>,
    InvalidFieldElement,
> {
    match parse_field_element(nullifier) {
        Err(e) => Err(e),
        Ok(a) => Ok(decimal_digits(hash2_value(a, leaf_index))),
    }
}

/// A hash or an error, with the hash as its text.
pub open spec fn text_of(r: Result<String, InvalidFieldElement>) -> Result<
    Seq<char>,
    InvalidFieldElement,
> {
    match r {
        Ok(s) => Ok(s@),
        Err(e) => Err(e),
    }
}

/// The hash is a function of the field elements that its inputs stand for:
/// the same elements give the same text, however they were written.
pub proof fn lemma_hash2_deterministic(
    left: Seq<char>,
    right: Seq<char>,
    other_left: Seq<char>,
    other_right: Seq<char>,
)
    requires
        parse_field_element(left) == parse_field_element(other_left),
        parse_field_element(right) == parse_field_element(other_right),
    ensures
        hash2_text(left, right) == hash2_text(other_left, other_right),
{
}

/// The permutation is defined on every state, so a hash is always a
/// canonical field element.
pub proof fn lemma_hash_canonical(a: nat, b: nat)
    ensures
        hash2_value(a, b) < modulus(),
{
    let s = initial_state(seq![a, b]);
    assert(after_rounds(s, 65) == round_function(after_rounds(s, 64), 64));
}

/// The text of a hash is the decimal writing of a field element: it reads
/// back as the hash.
pub proof fn lemma_hash2_text_reads_back(left: Seq<char>, right: Seq<char>)
    requires
        hash2_text(left, right) is Ok,
    ensures
        parse_field_element(hash2_text(left, right)->Ok_0) == Ok::<nat, InvalidFieldElement>(
            hash2_value(parse_pair(left, right)->Ok_0.0, parse_pair(left, right)->Ok_0.1),
        ),
{
    let p = parse_pair(left, right)->Ok_0;
    lemma_hash_canonical(p.0, p.1);
    lemma_written_and_read(hash2_value(p.0, p.1));
}

/// The tree hash of four strings is the hash of the texts of two hashes.
pub proof fn lemma_hash4_is_a_tree(a: Seq<char>, b: Seq<char>, c: Seq<char>, d: Seq<char>)
    ensures
        hash4_text(a, b, c, d) == (match hash2_text(a, b) {
            Err(e) => Err(e),
            Ok(first) => match hash2_text(c, d) {
                Err(e) => Err(e),
                Ok(second) => hash2_text(first, second),
            },
        }),
{
    if hash2_text(a, b) is Ok {
        lemma_hash2_text_reads_back(a, b);
        if hash2_text(c, d) is Ok {
            lemma_hash2_text_reads_back(c, d);
        }
    }
}

/// Hashes two decimal strings; the result is the decimal writing of the
/// hash. A string that is no field element is rejected, the left one first.
pub fn poseidon_hash2(left: &str, right: &str) -> (r: Result<String, InvalidFieldElement>)
    ensures
        text_of(r) == hash2_text(left@, right@),
{
    let a = match Fr::from_str(left) {
        Ok(x) => x,
        Err(e) => {
            return Err(e);
        },
    };
    let b = match Fr::from_str(right) {
        Ok(x) => x,
        Err(e) => {
            return Err(e);
        },
    };
    let inputs = [a, b];
    proof {
        assert(values_of(inputs@) =~= seq![a@, b@]);
    }
    let result = poseidon_t3(&inputs);
    Ok(result.to_string())
}

/// Hashes four decimal strings as a tree: `hash2(hash2(a, b), hash2(c, d))`.
/// A string that is no field element is rejected, the first such first.
pub fn poseidon_hash4(a: &str, b: &str, c: &str, d: &str) -> (r: Result<
    String,
    InvalidFieldElement,
>)
    ensures
        text_of(r) == hash4_text(a@, b@, c@, d@),
{
    proof {
        lemma_hash4_is_a_tree(a@, b@, c@, d@);
    }
    let h1 = match poseidon_hash2(a, b) {
        Ok(h) => h,
        Err(e) => {
            return Err(e);
        },
    };
    let h2 = match poseidon_hash2(c, d) {
        Ok(h) => h,
        Err(e) => {
            return Err(e);
        },
    };
    poseidon_hash2(h1.as_str(), h2.as_str())
}

/// The commitment to a note: the four-input hash of nullifier, secret,
/// amount and asset.
pub fn compute_commitment(nullifier: &str, secret: &str, amount: &str, asset_id: &str) -> (r:
    Result<String, InvalidFieldElement>)
    ensures
        text_of(r) == hash4_text(nullifier@, secret@, amount@, asset_id@),
{
    poseidon_hash4(nullifier, secret, amount, asset_id)
}

/// The nullifier hash of a note: the two-input hash of the nullifier and
/// the index of its leaf.
pub fn compute_nullifier_hash(nullifier: &str, leaf_index: u64) -> (r: Result<
    String,
    InvalidFieldElement,
>)
    ensures
        text_of(r) == nullifier_text(nullifier@, leaf_index as nat),
{
    let a = match Fr::from_str(nullifier) {
        Ok(x) => x,
        Err(e) => {
            return Err(e);
        },
    };
    let b = Fr::from_u64(leaf_index);
    let inputs = [a, b];
    proof {
        assert(values_of(inputs@) =~= seq![a@, b@]);
    }
    let result = poseidon_t3(&inputs);
    Ok(result.to_string())
}

} // verus!
