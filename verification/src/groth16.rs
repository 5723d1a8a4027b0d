//! The Groth16 verifier.
//!
//! A proof `(A, B, C)` holds for public inputs `x` when
//! `e(A, B) = e(alpha, beta) * e(vk_x, gamma) * e(C, delta)` with
//! `vk_x = IC[0] + sum x[i] * IC[i + 1]`. With `A` negated the equation is one
//! product of four pairings that must equal one, which a single pairing
//! check decides.
//!
//! The curve arithmetic belongs to the host. The verifier decides what to
//! ask and what to make of each answer: it is a machine from the phase it is
//! in and the host's reply to the next phase and the next question. Whoever
//! holds the host runs the questions.

use vstd::prelude::*;
use crate::bytes::{le_bytes, lemma_be_bytes_len};
use crate::types::{coordinate_of, g1_bytes, g1_from_bytes, g2_bytes, is_coordinate, is_negatable,
    lemma_g1_round_trip, lemma_g2_round_trip, negatable, negate_g1, negation, parse_proof,
    parse_vk, read_coordinate, G1Point, G2Point, ParseError, Proof, ProofJson, U256,
    VerificationKey, VerificationKeyJson, VerificationKeyView};

verus! {

/// A verifier: a verification key, held for all the proofs it checks.
#[derive(Clone, Debug)]
pub struct Verifier {
    pub vk: VerificationKey,
}

/// A question to the host.
#[derive(Clone, Debug)]
pub enum HostCall {
    /// The sum of `scalar * point` over pairs of a 32-byte little-endian
    /// scalar and a 64-byte G1 point.
    G1Multiexp(Vec<u8>),
    /// The sum of two 64-byte G1 points.
    G1Sum(Vec<u8>),
    /// Whether the product of the pairings of pairs of a 64-byte G1 point
    /// and a 128-byte G2 point is one.
    PairingCheck(Vec<u8>),
}

/// A question to the host, as a mathematical value.
pub enum HostCallView {
    G1Multiexp(Seq<u8>),
    G1Sum(Seq<u8>),
    PairingCheck(Seq<u8>),
}

impl View for HostCall {
    type V = HostCallView;

    open spec fn view(&self) -> HostCallView {
        match self {
            HostCall::G1Multiexp(b) => HostCallView::G1Multiexp(b@),
            HostCall::G1Sum(b) => HostCallView::G1Sum(b@),
            HostCall::PairingCheck(b) => HostCallView::PairingCheck(b@),
        }
    }
}

/// The host's answer to a question.
#[derive(Clone, Debug)]
pub enum HostReply {
    /// The bytes of a G1 point, in answer to a multiexp or a sum.
    Point(Vec<u8>),
    /// The outcome of a pairing check.
    Verdict(bool),
}

/// The host's answer, as a mathematical value.
pub enum HostReplyView {
    Point(Seq<u8>),
    Verdict(bool),
}

impl View for HostReply {
    type V = HostReplyView;

    open spec fn view(&self) -> HostReplyView {
        match self {
            HostReply::Point(b) => HostReplyView::Point(b@),
            HostReply::Verdict(ok) => HostReplyView::Verdict(*ok),
        }
    }
}

/// Where a verification stands.
#[derive(Clone, Copy, Debug, PartialEq, Eq, Structural)]
pub enum Phase {
    /// The multiexp over the non-zero inputs is with the host.
    AwaitingMultiexp,
    /// The sum of `IC[0]` and the multiexp is with the host.
    AwaitingSum,
    /// The pairing check is with the host.
    AwaitingPairing,
    /// The verification has ended with this verdict.
    Finished(bool),
}

/// A phase and the question that goes with it, as mathematical values.
pub struct Step {
    pub phase: Phase,
    pub call: Option<HostCallView>,
}

/// The view of a question that may be absent.
pub open spec fn call_view(call: Option<HostCall>) -> Option<HostCallView> {
    match call {
        Some(c) => Some(c@),
        None => None,
    }
}

/// The multiexp input: for every non-zero input, in order, the scalar as 32
/// little-endian bytes and then the point `IC[i + 1]`. Zero inputs add
/// nothing to the sum and are left out.
pub open spec fn multiexp_input(ic: Seq<G1Point>, inputs: Seq<U256>) -> Seq<u8>
    decreases inputs.len(),
{
    if inputs.len() == 0 {
        Seq::<u8>::empty()
    } else {
        let head = multiexp_input(ic, inputs.drop_last());
        if inputs.last()@ == 0 {
            head
        } else {
            head + le_bytes(inputs.last()@, 32) + g1_bytes(ic[inputs.len() as int])
        }
    }
}

/// The sum input: the two points, one after the other.
pub open spec fn sum_input(p1: G1Point, p2: G1Point) -> Seq<u8> {
    g1_bytes(p1) + g1_bytes(p2)
}

/// The pairing input: the four pairs `(-A, B)`, `(alpha, beta)`,
/// `(vk_x, gamma)`, `(C, delta)`, in this order.
pub open spec fn pairing_input(vk: VerificationKeyView, proof: Proof, vk_x: G1Point) -> Seq<u8> {
    g1_bytes(negation(proof.a)) + g2_bytes(proof.b) + g1_bytes(vk.alpha) + g2_bytes(vk.beta)
        + g1_bytes(vk_x) + g2_bytes(vk.gamma) + g1_bytes(proof.c) + g2_bytes(vk.delta)
}

/// The point that the host's bytes stand for; none unless there are 64.
pub open spec fn point_of_reply(bytes: Seq<u8>) -> Option<G1Point> {
    if bytes.len() == 64 {
        Some(g1_from_bytes(bytes))
    } else {
        None
    }
}

/// A verification that has ended.
pub open spec fn finished(verdict: bool) -> Step {
    Step { phase: Phase::Finished(verdict), call: None }
}

/// Whether a verification can begin: the number of inputs is the number the
/// key expects, the key has its base point, and `A` can be negated.
pub open spec fn admissible(vk: VerificationKeyView, inputs: Seq<U256>, proof: Proof) -> bool {
    inputs.len() == vk.num_inputs() && vk.ic.len() >= 1 && negatable(proof.a)
}

/// The first step of a verification. What is not admissible is refused at
/// once. With every input zero `vk_x` is `IC[0]` and the pairing check is
/// asked straight away; otherwise the multiexp comes first.
pub open spec fn first_step(vk: VerificationKeyView, inputs: Seq<U256>, proof: Proof) -> Step {
    if !admissible(vk, inputs, proof) {
        finished(false)
    } else if multiexp_input(vk.ic, inputs).len() == 0 {
        Step {
            phase: Phase::AwaitingPairing,
            call: Some(HostCallView::PairingCheck(pairing_input(vk, proof, vk.ic[0]))),
        }
    } else {
        Step {
            phase: Phase::AwaitingMultiexp,
            call: Some(HostCallView::G1Multiexp(multiexp_input(vk.ic, inputs))),
        }
    }
}

/// The step that follows a reply. A reply of the wrong kind or of the wrong
/// length ends the verification with `false`; so does a key without base
/// point or an `A` that cannot be negated. A verification that has ended
/// stays as it is.
pub open spec fn next_step(
    vk: VerificationKeyView,
    phase: Phase,
    proof: Proof,
    reply: HostReplyView,
) -> Step {
    match phase {
        Phase::Finished(verdict) => finished(verdict),
        Phase::AwaitingMultiexp => match reply {
            HostReplyView::Point(bytes) => match point_of_reply(bytes) {
                Some(product) => if vk.ic.len() >= 1 {
                    Step {
                        phase: Phase::AwaitingSum,
                        call: Some(HostCallView::G1Sum(sum_input(vk.ic[0], product))),
                    }
                } else {
                    finished(false)
                },
                None => finished(false),
            },
            HostReplyView::Verdict(_) => finished(false),
        },
        Phase::AwaitingSum => match reply {
            HostReplyView::Point(bytes) => match point_of_reply(bytes) {
                Some(vk_x) => if negatable(proof.a) {
                    Step {
                        phase: Phase::AwaitingPairing,
                        call: Some(HostCallView::PairingCheck(pairing_input(vk, proof, vk_x))),
                    }
                } else {
                    finished(false)
                },
                None => finished(false),
            },
            HostReplyView::Verdict(_) => finished(false),
        },
        Phase::AwaitingPairing => match reply {
            HostReplyView::Verdict(ok) => finished(ok),
            HostReplyView::Point(_) => finished(false),
        },
    }
}

/// What the host answers to a question, when its three primitives are the
/// functions `multiexp`, `sum` and `pairing` of the bytes they are given.
pub open spec fn answer(
    multiexp: spec_fn(Seq<u8>) -> Seq<u8>,
    sum: spec_fn(Seq<u8>) -> Seq<u8>,
    pairing: spec_fn(Seq<u8>) -> bool,
    call: HostCallView,
) -> HostReplyView {
    match call {
        HostCallView::G1Multiexp(bytes) => HostReplyView::Point(multiexp(bytes)),
        HostCallView::G1Sum(bytes) => HostReplyView::Point(sum(bytes)),
        HostCallView::PairingCheck(bytes) => HostReplyView::Verdict(pairing(bytes)),
    }
}

/// Where a verification ends when every question is put to the host and
/// every answer is handed back, for at most `turns` questions.
pub open spec fn run(
    vk: VerificationKeyView,
    proof: Proof,
    multiexp: spec_fn(Seq<u8>) -> Seq<u8>,
    sum: spec_fn(Seq<u8>) -> Seq<u8>,
    pairing: spec_fn(Seq<u8>) -> bool,
    step: Step,
    turns: nat,
) -> Phase
    decreases turns,
{
    match step.call {
        None => step.phase,
        Some(call) => if turns == 0 {
            step.phase
        } else {
            run(
                vk,
                proof,
                multiexp,
                sum,
                pairing,
                next_step(vk, step.phase, proof, answer(multiexp, sum, pairing, call)),
                (turns - 1) as nat,
            )
        },
    }
}

/// The verdict on a proof, against a host with the given primitives:
/// `false` for what is not admissible; else the pairing check on the four
/// pairs, with `vk_x` the base point `IC[0]` when every input is zero, and
/// otherwise the host's sum of `IC[0]` and its multiexp over the non-zero
/// inputs. A host answer that is no 64-byte point gives `false`.
pub open spec fn verdict(
    vk: VerificationKeyView,
    inputs: Seq<U256>,
    proof: Proof,
    multiexp: spec_fn(Seq<u8>) -> Seq<u8>,
    sum: spec_fn(Seq<u8>) -> Seq<u8>,
    pairing: spec_fn(Seq<u8>) -> bool,
) -> bool {
    if !admissible(vk, inputs, proof) {
        false
    } else if multiexp_input(vk.ic, inputs).len() == 0 {
        pairing(pairing_input(vk, proof, vk.ic[0]))
    } else {
        match point_of_reply(multiexp(multiexp_input(vk.ic, inputs))) {
            None => false,
            Some(product) => match point_of_reply(sum(sum_input(vk.ic[0], product))) {
                None => false,
                Some(vk_x) => pairing(pairing_input(vk, proof, vk_x)),
            },
        }
    }
}

/// Run against any host, the machine ends within three questions, and
/// with the verdict.
pub proof fn lemma_run_ends_with_verdict(
    vk: VerificationKeyView,
    inputs: Seq<U256>,
    proof: Proof,
    multiexp: spec_fn(Seq<u8>) -> Seq<u8>,
    sum: spec_fn(Seq<u8>) -> Seq<u8>,
    pairing: spec_fn(Seq<u8>) -> bool,
)
    ensures
        run(vk, proof, multiexp, sum, pairing, first_step(vk, inputs, proof), 3) == Phase::Finished(
            verdict(vk, inputs, proof, multiexp, sum, pairing),
        ),
{
    reveal_with_fuel(run, 4);
}

/// A proof is refused without a question to the host when the number of
/// inputs is not the number that the key expects.
pub proof fn lemma_wrong_input_count_is_refused(
    vk: VerificationKeyView,
    inputs: Seq<U256>,
    proof: Proof,
)
    requires
        inputs.len() != vk.num_inputs(),
    ensures
        first_step(vk, inputs, proof) == finished(false),
{
}

/// The pairing check is asked about the proof and the input combination it
/// was given: two pairing inputs under one key are the same bytes only if
/// `B`, `C` and `vk_x` are the same and the negations of `A` are.
pub proof fn lemma_pairing_input_tells_proofs_apart(
    vk: VerificationKeyView,
    proof: Proof,
    vk_x: G1Point,
    other: Proof,
    other_vk_x: G1Point,
)
    requires
        pairing_input(vk, proof, vk_x) == pairing_input(vk, other, other_vk_x),
    ensures
        negation(proof.a) == negation(other.a),
        proof.b == other.b,
        proof.c == other.c,
        vk_x == other_vk_x,
{
    let left = pairing_input(vk, proof, vk_x);
    let right = pairing_input(vk, other, other_vk_x);
    lemma_g1_bytes_len(negation(proof.a));
    lemma_g1_bytes_len(negation(other.a));
    lemma_g2_bytes_len(proof.b);
    lemma_g2_bytes_len(other.b);
    lemma_g1_bytes_len(vk.alpha);
    lemma_g2_bytes_len(vk.beta);
    lemma_g1_bytes_len(vk_x);
    lemma_g1_bytes_len(other_vk_x);
    lemma_g2_bytes_len(vk.gamma);
    lemma_g1_bytes_len(proof.c);
    lemma_g1_bytes_len(other.c);
    lemma_g2_bytes_len(vk.delta);
    assert(left.subrange(0, 64) =~= g1_bytes(negation(proof.a)));
    assert(right.subrange(0, 64) =~= g1_bytes(negation(other.a)));
    assert(left.subrange(64, 192) =~= g2_bytes(proof.b));
    assert(right.subrange(64, 192) =~= g2_bytes(other.b));
    assert(left.subrange(384, 448) =~= g1_bytes(vk_x));
    assert(right.subrange(384, 448) =~= g1_bytes(other_vk_x));
    assert(left.subrange(576, 640) =~= g1_bytes(proof.c));
    assert(right.subrange(576, 640) =~= g1_bytes(other.c));
    lemma_g1_round_trip(negation(proof.a));
    lemma_g1_round_trip(negation(other.a));
    lemma_g2_round_trip(proof.b);
    lemma_g2_round_trip(other.b);
    lemma_g1_round_trip(vk_x);
    lemma_g1_round_trip(other_vk_x);
    lemma_g1_round_trip(proof.c);
    lemma_g1_round_trip(other.c);
}

/// The multiexp input is made of whole pairs, at most one for each input.
pub proof fn lemma_multiexp_input_len(ic: Seq<G1Point>, inputs: Seq<U256>)
    ensures
        multiexp_input(ic, inputs).len() <= 96 * inputs.len(),
        multiexp_input(ic, inputs).len() % 96 == 0,
        multiexp_input(ic, inputs).len() == 0 <==> forall|i: int|
            0 <= i < inputs.len() ==> (#[trigger] inputs[i])@ == 0,
    decreases inputs.len(),
{
    if inputs.len() > 0 {
        let head = inputs.drop_last();
        lemma_multiexp_input_len(ic, head);
        lemma_be_bytes_len(inputs.last()@, 32);
        lemma_g1_bytes_len(ic[inputs.len() as int]);
        assert(le_bytes(inputs.last()@, 32).len() == 32);
        if multiexp_input(ic, inputs).len() == 0 {
            assert forall|i: int| 0 <= i < inputs.len() implies (#[trigger] inputs[i])@ == 0 by {
                if i < head.len() {
                    assert(head[i] == inputs[i]);
                }
            }
        }
        if forall|i: int| 0 <= i < inputs.len() ==> (#[trigger] inputs[i])@ == 0 {
            assert(inputs[inputs.len() - 1]@ == 0);
            assert forall|i: int| 0 <= i < head.len() implies (#[trigger] head[i])@ == 0 by {
                assert(head[i] == inputs[i]);
            }
        }
    }
}

/// The writing of a G1 point has 64 bytes.
pub proof fn lemma_g1_bytes_len(p: G1Point)
    ensures
        g1_bytes(p).len() == 64,
{
    lemma_be_bytes_len(p.x@, 32);
    lemma_be_bytes_len(p.y@, 32);
}

/// The writing of a G2 point has 128 bytes.
pub proof fn lemma_g2_bytes_len(p: G2Point)
    ensures
        g2_bytes(p).len() == 128,
{
    lemma_be_bytes_len(p.x[0]@, 32);
    lemma_be_bytes_len(p.x[1]@, 32);
    lemma_be_bytes_len(p.y[0]@, 32);
    lemma_be_bytes_len(p.y[1]@, 32);
}

/// The pairing input has four pairs of 192 bytes.
pub proof fn lemma_pairing_input_len(vk: VerificationKeyView, proof: Proof, vk_x: G1Point)
    ensures
        pairing_input(vk, proof, vk_x).len() == 4 * 192,
{
    lemma_g1_bytes_len(negation(proof.a));
    lemma_g2_bytes_len(proof.b);
    lemma_g1_bytes_len(vk.alpha);
    lemma_g2_bytes_len(vk.beta);
    lemma_g1_bytes_len(vk_x);
    lemma_g2_bytes_len(vk.gamma);
    lemma_g1_bytes_len(proof.c);
    lemma_g2_bytes_len(vk.delta);
}

/// The sum input for two points.
pub fn build_sum_input(p1: &G1Point, p2: &G1Point) -> (r: Vec<u8>)
    ensures
        r@ == sum_input(*p1, *p2),
        r@.len() == 128,
{
    let mut input: Vec<u8> = Vec::with_capacity(128);
    let first = p1.to_bytes();
    let second = p2.to_bytes();
    input.extend_from_slice(first.as_slice());
    input.extend_from_slice(second.as_slice());
    proof {
        lemma_g1_bytes_len(*p1);
        lemma_g1_bytes_len(*p2);
        assert(input@ =~= sum_input(*p1, *p2));
    }
    input
}

/// The point that the host's bytes stand for; none unless there are 64.
pub fn point_from_reply(bytes: &[u8]) -> (r: Option<G1Point>)
    ensures
        r == point_of_reply(bytes@),
{
    if bytes.len() != 64 {
        return None;
    }
    Some(G1Point { x: U256::from_be_bytes(&bytes[0..32]), y: U256::from_be_bytes(&bytes[32..64]) })
}

/// The proof of a snarkjs proof file, if both it and the inputs can be read.
pub open spec fn readable(proof_json: ProofJson, inputs: Seq<String>) -> Option<Proof> {
    match parse_proof(proof_json.pi_a@, proof_json.pi_b@, proof_json.pi_c@) {
        Ok(proof) => if parsed_inputs(inputs) is Some {
            Some(proof)
        } else {
            None
        },
        Err(_) => None,
    }
}

/// The first step of a verification from a snarkjs proof file and decimal
/// inputs: a refusal if either cannot be read, else the first step for what
/// was read.
pub open spec fn first_step_json(
    vk: VerificationKeyView,
    proof_json: ProofJson,
    inputs: Seq<String>,
) -> Step {
    match readable(proof_json, inputs) {
        Some(proof) => first_step(vk, parsed_inputs(inputs)->0, proof),
        None => finished(false),
    }
}

/// What a list of decimal strings stands for as public inputs; none if one
/// of them is no decimal writing of a 256-bit number.
pub open spec fn parsed_inputs(inputs: Seq<String>) -> Option<Seq<U256>> {
    if forall|i: int| 0 <= i < inputs.len() ==> is_coordinate(#[trigger] inputs[i]@) {
        Some(Seq::new(inputs.len(), |i: int| coordinate_of(inputs[i]@)))
    } else {
        None
    }
}

/// Reads public inputs from decimal strings.
pub fn parse_inputs(inputs: &[String]) -> (r: Option<Vec<U256>>)
    ensures
        match r {
            Some(values) => parsed_inputs(inputs@) == Some(values@),
            None => parsed_inputs(inputs@) is None,
        },
{
    let mut values: Vec<U256> = Vec::new();
    for i in 0..inputs.len()
        invariant
            values@.len() == i,
            forall|j: int| 0 <= j < i ==> is_coordinate(#[trigger] inputs@[j]@),
            forall|j: int| 0 <= j < i ==> values@[j] == coordinate_of(inputs@[j]@),
    {
        match read_coordinate(inputs[i].as_str()) {
            Some(v) => {
                values.push(v);
            },
            None => {
                assert(!is_coordinate(inputs@[i as int]@));
                return None;
            },
        }
    }
    proof {
        assert(values@ =~= Seq::new(inputs@.len(), |i: int| coordinate_of(inputs@[i]@)));
    }
    Some(values)
}

impl Verifier {
    /// A verifier for the given key.
    pub fn new(vk: VerificationKey) -> (r: Self)
        ensures
            r.vk == vk,
    {
        Self { vk }
    }

    /// A verifier for a key as snarkjs writes it.
    pub fn from_json(vk_json: &VerificationKeyJson) -> (r: Result<Self, ParseError>)
        ensures
            match r {
                Ok(v) => parse_vk(
                    vk_json.vk_alpha_1@,
                    vk_json.vk_beta_2@,
                    vk_json.vk_gamma_2@,
                    vk_json.vk_delta_2@,
                    vk_json.ic@,
                ) == Ok::<VerificationKeyView, ParseError>(v.vk@),
                Err(e) => parse_vk(
                    vk_json.vk_alpha_1@,
                    vk_json.vk_beta_2@,
                    vk_json.vk_gamma_2@,
                    vk_json.vk_delta_2@,
                    vk_json.ic@,
                ) == Err::<VerificationKeyView, ParseError>(e),
            },
    {
        match vk_json.to_vk() {
            Ok(vk) => Ok(Self::new(vk)),
            Err(e) => Err(e),
        }
    }

    /// The multiexp input for the given inputs; none if the key has fewer
    /// than one `IC` point more than there are inputs.
    pub fn build_multiexp_input(&self, inputs: &[U256]) -> (r: Option<Vec<u8>>)
        ensures
            r is Some <==> inputs@.len() < self.vk@.ic.len(),
            r is Some ==> r->0@ == multiexp_input(self.vk@.ic, inputs@),
            r is Some ==> r->0@.len() <= 96 * inputs@.len(),
    {
        if inputs.len() >= self.vk.ic.len() {
            return None;
        }
        let mut bytes: Vec<u8> = Vec::new();
        for i in 0..inputs.len()
            invariant
                inputs@.len() < self.vk.ic@.len(),
                bytes@ == multiexp_input(self.vk@.ic, inputs@.take(i as int)),
        {
            proof {
                assert(inputs@.take(i + 1).drop_last() =~= inputs@.take(i as int));
                assert(inputs@.take(i + 1).last() == inputs@[i as int]);
            }
            if !inputs[i].is_zero() {
                let scalar = inputs[i].to_le_bytes();
                let point = self.vk.ic[i + 1].to_bytes();
                bytes.extend_from_slice(scalar.as_slice());
                bytes.extend_from_slice(point.as_slice());
            }
        }
        proof {
            assert(inputs@.take(inputs@.len() as int) =~= inputs@);
            lemma_multiexp_input_len(self.vk@.ic, inputs@);
        }
        Some(bytes)
    }

    /// The pairing input for a proof and the input combination `vk_x`.
    pub fn build_pairing_input(&self, proof: &Proof, vk_x: &G1Point) -> (r: Vec<u8>)
        requires
            negatable(proof.a),
        ensures
            r@ == pairing_input(self.vk@, *proof, *vk_x),
            r@.len() == 4 * 192,
    {
        let mut input: Vec<u8> = Vec::with_capacity(768);
        let neg_a = negate_g1(&proof.a);
        input.extend_from_slice(neg_a.to_bytes().as_slice());
        input.extend_from_slice(proof.b.to_bytes().as_slice());
        input.extend_from_slice(self.vk.alpha.to_bytes().as_slice());
        input.extend_from_slice(self.vk.beta.to_bytes().as_slice());
        input.extend_from_slice(vk_x.to_bytes().as_slice());
        input.extend_from_slice(self.vk.gamma.to_bytes().as_slice());
        input.extend_from_slice(proof.c.to_bytes().as_slice());
        input.extend_from_slice(self.vk.delta.to_bytes().as_slice());
        proof {
            lemma_pairing_input_len(self.vk@, *proof, *vk_x);
            assert(input@ =~= pairing_input(self.vk@, *proof, *vk_x));
        }
        input
    }

    /// Begins the verification of a proof for the given public inputs.
    pub fn start(&self, inputs: &[U256], proof: &Proof) -> (r: (Phase, Option<HostCall>))
        ensures
            r.0 == first_step(self.vk@, inputs@, *proof).phase,
            call_view(r.1) == first_step(self.vk@, inputs@, *proof).call,
    {
        if inputs.len() != self.vk.num_inputs() || self.vk.ic.len() == 0 || !is_negatable(
            &proof.a,
        ) {
            return (Phase::Finished(false), None);
        }
        match self.build_multiexp_input(inputs) {
            None => (Phase::Finished(false), None),
            Some(bytes) => {
                if bytes.len() == 0 {
                    let base = self.vk.ic[0];
                    (
                        Phase::AwaitingPairing,
                        Some(HostCall::PairingCheck(self.build_pairing_input(proof, &base))),
                    )
                } else {
                    (Phase::AwaitingMultiexp, Some(HostCall::G1Multiexp(bytes)))
                }
            },
        }
    }

    /// Begins the verification of a proof and inputs as snarkjs writes them.
    /// What cannot be read is refused at once; else the third result is the
    /// proof that was read, to go with the replies that follow.
    pub fn start_json(&self, proof_json: &ProofJson, inputs: &[String]) -> (r: (
        Phase,
        Option<HostCall>,
        Option<Proof>,
    ))
        ensures
            r.0 == first_step_json(self.vk@, *proof_json, inputs@).phase,
            call_view(r.1) == first_step_json(self.vk@, *proof_json, inputs@).call,
            r.2 == readable(*proof_json, inputs@),
    {
        let proof = match proof_json.to_proof() {
            Ok(p) => p,
            Err(_) => {
                return (Phase::Finished(false), None, None);
            },
        };
        let values = match parse_inputs(inputs) {
            Some(v) => v,
            None => {
                return (Phase::Finished(false), None, None);
            },
        };
        let (phase, call) = self.start(values.as_slice(), &proof);
        (phase, call, Some(proof))
    }

    /// Takes the host's reply to the question of `phase` and gives the next
    /// phase and question.
    pub fn advance(&self, phase: Phase, proof: &Proof, reply: &HostReply) -> (r: (
        Phase,
        Option<HostCall>,
    ))
        ensures
            r.0 == next_step(self.vk@, phase, *proof, reply@).phase,
            call_view(r.1) == next_step(self.vk@, phase, *proof, reply@).call,
    {
        match phase {
            Phase::Finished(verdict) => (Phase::Finished(verdict), None),
            Phase::AwaitingMultiexp => match reply {
                HostReply::Point(bytes) => match point_from_reply(bytes.as_slice()) {
                    Some(product) => {
                        if self.vk.ic.len() >= 1 {
                            let base = self.vk.ic[0];
                            (
                                Phase::AwaitingSum,
                                Some(HostCall::G1Sum(build_sum_input(&base, &product))),
                            )
                        } else {
                            (Phase::Finished(false), None)
                        }
                    },
                    None => (Phase::Finished(false), None),
                },
                HostReply::Verdict(_) => (Phase::Finished(false), None),
            },
            Phase::AwaitingSum => match reply {
                HostReply::Point(bytes) => match point_from_reply(bytes.as_slice()) {
                    Some(vk_x) => {
                        if is_negatable(&proof.a) {
                            (
                                Phase::AwaitingPairing,
                                Some(HostCall::PairingCheck(self.build_pairing_input(proof, &vk_x))),
                            )
                        } else {
                            (Phase::Finished(false), None)
                        }
                    },
                    None => (Phase::Finished(false), None),
                },
                HostReply::Verdict(_) => (Phase::Finished(false), None),
            },
            Phase::AwaitingPairing => match reply {
                HostReply::Verdict(ok) => (Phase::Finished(*ok), None),
                HostReply::Point(_) => (Phase::Finished(false), None),
            },
        }
    }
}

} // verus!
