//! Step-by-step traces of the first Poseidon round and of a field
//! multiplication, as lines of text, for comparing runs against another
//! implementation.

use vstd::prelude::*;
use vstd::string::StringExecFns;
use crate::decimal::{decimal_digits, limbs_to_decimal};
use crate::limbs::{lemma_halves, limbs4_value, limbs8_value, mul_wide, pow128, pow192, pow256,
    pow64};
use crate::types::{lemma_u256_of_value, u256_of, U256};
use crate::field::{field_mul, Fr, InvalidFieldElement};
use crate::poseidon::{mds_multiply_t3, mixed, parse_pair, round_constant, round_constant_at,
    state_values,
    with_round_constants, with_sbox};

verus! {

/// A label followed by the decimal writing of a number.
pub open spec fn value_line(label: Seq<char>, v: nat) -> Seq<char> {
    label + decimal_digits(v)
}

/// Texts separated by a comma and a space.
pub open spec fn joined(items: Seq<Seq<char>>) -> Seq<char>
    decreases items.len(),
{
    if items.len() == 0 {
        Seq::<char>::empty()
    } else if items.len() == 1 {
        items[0]
    } else {
        joined(items.drop_last()) + ", "@ + items.last()
    }
}

/// The decimal writings of a run of numbers.
pub open spec fn decimals(values: Seq<nat>) -> Seq<Seq<char>> {
    Seq::new(values.len(), |i: int| decimal_digits(values[i]))
}

/// A label followed by a bracketed, comma-separated list of numbers.
pub open spec fn list_line(label: Seq<char>, values: Seq<nat>) -> Seq<char> {
    label + "["@ + joined(decimals(values)) + "]"@
}

/// The numbers that a run of words holds.
pub open spec fn word_values(words: Seq<u64>) -> Seq<nat> {
    Seq::new(words.len(), |i: int| words[i] as nat)
}

/// The texts of a list of lines.
pub open spec fn texts(lines: Seq<String>) -> Seq<Seq<char>> {
    Seq::new(lines.len(), |i: int| lines[i]@)
}

/// A label followed by the decimal writing of a field element.
fn write_value(label: &str, x: &Fr) -> (r: String)
    ensures
        r@ == value_line(label@, x@),
{
    let mut line = String::from_str(label);
    let digits = x.to_string();
    line.append(digits.as_str());
    line
}

/// A label followed by the bracketed, comma-separated list of the items.
fn write_list(label: &str, items: &Vec<String>) -> (r: String)
    ensures
        r@ == label@ + "["@ + joined(texts(items@)) + "]"@,
{
    let mut line = String::from_str(label);
    line.append("[");
    let ghost opened = line@;
    let ghost all = texts(items@);
    for i in 0..items.len()
        invariant
            all == texts(items@),
            line@ == opened + joined(all.take(i as int)),
    {
        let ghost before = all.take(i as int);
        let ghost after = all.take(i + 1);
        proof {
            assert(after.drop_last() =~= before);
            assert(after.last() == items@[i as int]@);
        }
        if i > 0 {
            line.append(", ");
        }
        line.append(items[i].as_str());
        proof {
            if i == 0 {
                assert(joined(before) =~= Seq::<char>::empty());
                assert(after[0] == items@[0]@);
                assert(line@ =~= opened + joined(after));
            } else {
                assert(joined(after) == joined(before) + ", "@ + items@[i as int]@);
                assert(line@ =~= opened + joined(after));
            }
        }
    }
    proof {
        assert(all.take(items@.len() as int) =~= all);
    }
    line.append("]");
    line
}

/// The decimal writing of a word.
fn write_word(w: u64) -> (r: String)
    ensures
        r@ == decimal_digits(w as nat),
{
    let limbs: [u64; 4] = [w, 0, 0, 0];
    proof {
        assert(limbs[0] == w && limbs[1] == 0 && limbs[2] == 0 && limbs[3] == 0);
        assert(limbs4_value(limbs) == w as nat);
    }
    limbs_to_decimal(&limbs)
}

/// A label followed by the bracketed list of words.
fn write_words(label: &str, words: &[u64]) -> (r: String)
    ensures
        r@ == list_line(label@, word_values(words@)),
{
    let mut items: Vec<String> = Vec::new();
    for i in 0..words.len()
        invariant
            items@.len() == i,
            forall|j: int| 0 <= j < i ==> (#[trigger] items@[j])@ == decimal_digits(words@[j] as nat),
    {
        items.push(write_word(words[i]));
    }
    proof {
        assert(texts(items@) =~= decimals(word_values(words@)));
    }
    write_list(label, &items)
}

/// A label followed by the bracketed list of a state's three elements.
fn write_state(label: &str, state: &[Fr; 3]) -> (r: String)
    ensures
        r@ == list_line(label@, state_values(*state)),
{
    let mut items: Vec<String> = Vec::new();
    items.push(state[0].to_string());
    items.push(state[1].to_string());
    items.push(state[2].to_string());
    proof {
        assert(texts(items@) =~= decimals(state_values(*state)));
    }
    write_list(label, &items)
}

/// The values met in the first round on the state `[0, a, b]`.
pub struct FirstRoundValues {
    /// The state at the start.
    pub start: Seq<nat>,
    /// The state after the round constants.
    pub ark: Seq<nat>,
    /// The square of the first element after the round constants.
    pub square: nat,
    /// Its fourth power.
    pub fourth: nat,
    /// Its fifth power.
    pub fifth: nat,
    /// The state after the S-box.
    pub boxed: Seq<nat>,
    /// The state after the mixing.
    pub mixed: Seq<nat>,
    /// The first three round constants.
    pub constants: Seq<nat>,
}

/// The values met in the first round on the state `[0, a, b]`.
pub open spec fn first_round_values(a: nat, b: nat) -> FirstRoundValues {
    let start = seq![0nat, a, b];
    let ark = with_round_constants(start, 0);
    let boxed = with_sbox(ark, 0);
    let square = field_mul(ark[0], ark[0]);
    let fourth = field_mul(square, square);
    FirstRoundValues {
        start,
        ark,
        square,
        fourth,
        fifth: field_mul(fourth, ark[0]),
        boxed,
        mixed: mixed(boxed),
        constants: seq![round_constant(0), round_constant(1), round_constant(2)],
    }
}

/// The lines that show the values of a first round.
pub open spec fn first_round_lines(v: FirstRoundValues) -> Seq<Seq<char>> {
    seq![
        list_line("Initial: "@, v.start),
        list_line("After ARK: "@, v.ark),
        value_line("s0^2 = "@, v.square),
        value_line("s0^4 = "@, v.fourth),
        value_line("s0^5 = "@, v.fifth),
        list_line("After SBOX: "@, v.boxed),
        list_line("After MDS: "@, v.mixed),
        value_line("c[0] = "@, v.constants[0]),
        value_line("c[1] = "@, v.constants[1]),
        value_line("c[2] = "@, v.constants[2]),
    ]
}

/// The lines that trace the first round on the state `[0, a, b]`: the state
/// at the start, after the round constants, the square, fourth and fifth
/// power of its first element, the state after the S-box and after the
/// mixing, and the first three round constants.
pub open spec fn first_round_trace(a: nat, b: nat) -> Seq<Seq<char>> {
    first_round_lines(first_round_values(a, b))
}

/// The field elements met in a first round.
struct FirstRound {
    start: [Fr; 3],
    ark: [Fr; 3],
    square: Fr,
    fourth: Fr,
    fifth: Fr,
    boxed: [Fr; 3],
    mixed: [Fr; 3],
    constants: [Fr; 3],
}

impl View for FirstRound {
    type V = FirstRoundValues;

    closed spec fn view(&self) -> FirstRoundValues {
        FirstRoundValues {
            start: state_values(self.start),
            ark: state_values(self.ark),
            square: self.square@,
            fourth: self.fourth@,
            fifth: self.fifth@,
            boxed: state_values(self.boxed),
            mixed: state_values(self.mixed),
            constants: state_values(self.constants),
        }
    }
}

/// Runs the first round on the state `[0, a, b]` and keeps what it meets.
fn run_first_round(a: Fr, b: Fr) -> (r: FirstRound)
    requires
        a.is_canonical(),
        b.is_canonical(),
    ensures
        r@ == first_round_values(a@, b@),
{
    let start: [Fr; 3] = [Fr::zero(), a, b];
    let constants: [Fr; 3] = [round_constant_at(0), round_constant_at(1), round_constant_at(2)];
    let ark: [Fr; 3] = [
        start[0].add(&constants[0]),
        start[1].add(&constants[1]),
        start[2].add(&constants[2]),
    ];
    let square = ark[0].mul(&ark[0]);
    let fourth = square.mul(&square);
    let fifth = fourth.mul(&ark[0]);
    let boxed: [Fr; 3] = [ark[0].pow5(), ark[1].pow5(), ark[2].pow5()];
    proof {
        assert(state_values(start) =~= seq![0nat, a@, b@]);
        assert(state_values(ark) =~= with_round_constants(state_values(start), 0));
        assert(state_values(boxed) =~= with_sbox(state_values(ark), 0));
        assert(state_values(constants) =~= seq![
            round_constant(0),
            round_constant(1),
            round_constant(2),
        ]);
    }
    let mixed = mds_multiply_t3(&boxed);
    FirstRound { start, ark, square, fourth, fifth, boxed, mixed, constants }
}

/// Writes the lines that show the values of a first round.
fn write_first_round(round: &FirstRound) -> (r: Vec<String>)
    ensures
        texts(r@) == first_round_lines(round@),
{
    let line0 = write_state("Initial: ", &round.start);
    let line1 = write_state("After ARK: ", &round.ark);
    let line2 = write_value("s0^2 = ", &round.square);
    let line3 = write_value("s0^4 = ", &round.fourth);
    let line4 = write_value("s0^5 = ", &round.fifth);
    let line5 = write_state("After SBOX: ", &round.boxed);
    let line6 = write_state("After MDS: ", &round.mixed);
    let line7 = write_value("c[0] = ", &round.constants[0]);
    let line8 = write_value("c[1] = ", &round.constants[1]);
    let line9 = write_value("c[2] = ", &round.constants[2]);
    let ghost want = first_round_lines(round@);
    proof {
        assert(line0@ == want[0]);
        assert(line1@ == want[1]);
        assert(line2@ == want[2]);
        assert(line3@ == want[3]);
        assert(line4@ == want[4]);
        assert(line5@ == want[5]);
        assert(line6@ == want[6]);
        assert(line7@ == want[7]);
        assert(line8@ == want[8]);
        assert(line9@ == want[9]);
    }
    let mut lines: Vec<String> = Vec::new();
    lines.push(line0);
    lines.push(line1);
    lines.push(line2);
    lines.push(line3);
    lines.push(line4);
    lines.push(line5);
    lines.push(line6);
    lines.push(line7);
    lines.push(line8);
    lines.push(line9);
    proof {
        assert(texts(lines@) =~= want);
    }
    lines
}

/// The texts of a list of lines, or the error in its place.
pub open spec fn trace_of(r: Result<Vec<String>, InvalidFieldElement>) -> Result<
    Seq<Seq<char>>,
    InvalidFieldElement,
> {
    match r {
        Ok(lines) => Ok(texts(lines@)),
        Err(e) => Err(e),
    }
}

/// The trace of the first round on two decimal strings, or the error of the
/// first of them that is no field element.
pub open spec fn first_round_trace_of(left: Seq<char>, right: Seq<char>) -> Result<
    Seq<Seq<char>>,
    InvalidFieldElement,
> {
    match parse_pair(left, right) {
        Err(e) => Err(e),
        Ok(p) => Ok(first_round_trace(p.0, p.1)),
    }
}

/// The trace of the multiplication of two decimal strings, or the error of
/// the first of them that is no field element.
pub open spec fn product_trace_of(left: Seq<char>, right: Seq<char>) -> Result<
    Seq<Seq<char>>,
    InvalidFieldElement,
> {
    match parse_pair(left, right) {
        Err(e) => Err(e),
        Ok(p) => Ok(product_trace(p.0, p.1)),
    }
}

/// Reads two decimal strings as field elements, the left one first.
fn read_pair(left: &str, right: &str) -> (r: Result<(Fr, Fr), InvalidFieldElement>)
    ensures
        match r {
            Ok(p) => p.0.is_canonical() && p.1.is_canonical() && parse_pair(left@, right@) == Ok::<
                (nat, nat),
                InvalidFieldElement,
            >((p.0@, p.1@)),
            Err(e) => parse_pair(left@, right@) == Err::<(nat, nat), InvalidFieldElement>(e),
        },
{
    let a = match Fr::from_str(left) {
        Ok(x) => x,
        Err(e) => {
            return Err(e);
        },
    };
    match Fr::from_str(right) {
        Ok(b) => Ok((a, b)),
        Err(e) => Err(e),
    }
}

/// Traces the first Poseidon round on two decimal strings.
pub fn poseidon_debug(left: &str, right: &str) -> (r: Result<Vec<String>, InvalidFieldElement>)
    ensures
        trace_of(r) == first_round_trace_of(left@, right@),
{
    match read_pair(left, right) {
        Ok(p) => {
            let round = run_first_round(p.0, p.1);
            Ok(write_first_round(&round))
        },
        Err(e) => Err(e),
    }
}

/// The four limbs of a 256-bit number, least significant first.
pub open spec fn limb_values(v: nat) -> Seq<nat> {
    seq![
        v % pow64(),
        (v / pow64()) % pow64(),
        (v / pow128()) % pow64(),
        (v / pow192()) % pow64(),
    ]
}

/// The eight limbs of a 512-bit number, least significant first.
pub open spec fn wide_limb_values(v: nat) -> Seq<nat> {
    limb_values(v % pow256()) + limb_values(v / pow256())
}

/// The words of a limb array are the limbs of its value.
pub proof fn lemma_limb_values(l: [u64; 4])
    ensures
        word_values(l@) == limb_values(limbs4_value(l)),
{
    let x = U256(l);
    lemma_u256_of_value(x);
    assert(u256_of(x@).0@ == l@);
    assert(word_values(l@) =~= limb_values(limbs4_value(l)));
}

/// The words of an eight-limb array are the limbs of its value.
pub proof fn lemma_wide_limb_values(l: [u64; 8])
    ensures
        word_values(l@) == wide_limb_values(limbs8_value(l)),
{
    let lo: [u64; 4] = [l[0], l[1], l[2], l[3]];
    let hi: [u64; 4] = [l[4], l[5], l[6], l[7]];
    lemma_halves(l);
    lemma_limb_values(lo);
    lemma_limb_values(hi);
    assert(word_values(l@) =~= word_values(lo@) + word_values(hi@));
}

/// The lines that trace the multiplication of `x` and `y`: the limbs of
/// both factors, the limbs of their 512-bit product, the product in the
/// field and its limbs.
pub open spec fn product_trace(x: nat, y: nat) -> Seq<Seq<char>> {
    seq![
        list_line("x.limbs = "@, limb_values(x)),
        list_line("y.limbs = "@, limb_values(y)),
        list_line("512-bit: "@, wide_limb_values(x * y)),
        value_line("result = "@, field_mul(x, y)),
        list_line("result.limbs = "@, limb_values(field_mul(x, y))),
    ]
}

/// Writes the lines that trace the multiplication of `x` and `y`.
fn write_product(x: &Fr, y: &Fr) -> (r: Vec<String>)
    requires
        x.is_canonical(),
        y.is_canonical(),
    ensures
        texts(r@) == product_trace(x@, y@),
{
    let wide = mul_wide(&x.limbs, &y.limbs);
    let z = x.mul(y);
    proof {
        lemma_limb_values(x.limbs);
        lemma_limb_values(y.limbs);
        lemma_wide_limb_values(wide);
        lemma_limb_values(z.limbs);
    }
    let line0 = write_words("x.limbs = ", x.limbs.as_slice());
    let line1 = write_words("y.limbs = ", y.limbs.as_slice());
    let line2 = write_words("512-bit: ", wide.as_slice());
    let line3 = write_value("result = ", &z);
    let line4 = write_words("result.limbs = ", z.limbs.as_slice());
    let ghost want = product_trace(x@, y@);
    proof {
        assert(line0@ == want[0]);
        assert(line1@ == want[1]);
        assert(line2@ == want[2]);
        assert(line3@ == want[3]);
        assert(line4@ == want[4]);
    }
    let mut lines: Vec<String> = Vec::new();
    lines.push(line0);
    lines.push(line1);
    lines.push(line2);
    lines.push(line3);
    lines.push(line4);
    proof {
        assert(texts(lines@) =~= want);
    }
    lines
}

/// Traces the multiplication of two decimal strings.
pub fn debug_mul(a: &str, b: &str) -> (r: Result<Vec<String>, InvalidFieldElement>)
    ensures
        trace_of(r) == product_trace_of(a@, b@),
{
    match read_pair(a, b) {
        Ok(p) => Ok(write_product(&p.0, &p.1)),
        Err(e) => Err(e),
    }
}

} // verus!
