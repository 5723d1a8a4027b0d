use near_groth16_verifier::groth16::{
    build_sum_input, parse_inputs, point_from_reply, HostCall, HostReply, Phase, Verifier,
};
use near_groth16_verifier::types::{
    negate_g1, Coordinate, G1Point, G2Point, ParseError, ParseReason, ParseSubject, Proof,
    ProofJson, VerificationKey, VerificationKeyJson, U256,
};

const Q: &str = "21888242871839275222246405745257275088696311157297823662689037894645226208583";

fn g1(x: u64, y: u64) -> G1Point {
    G1Point { x: U256::from(x), y: U256::from(y) }
}

fn g2(a: u64, b: u64, c: u64, d: u64) -> G2Point {
    G2Point { x: [U256::from(a), U256::from(b)], y: [U256::from(c), U256::from(d)] }
}

fn sample_key(points: usize) -> VerificationKey {
    VerificationKey {
        alpha: g1(1, 2),
        beta: g2(3, 4, 5, 6),
        gamma: g2(7, 8, 9, 10),
        delta: g2(11, 12, 13, 14),
        ic: (0..points as u64).map(|i| g1(100 + i, 200 + i)).collect(),
    }
}

fn sample_proof() -> Proof {
    Proof { a: g1(21, 22), b: g2(23, 24, 25, 26), c: g1(27, 28) }
}

fn strings(items: &[&str]) -> Vec<String> {
    items.iter().map(|s| s.to_string()).collect()
}

/// A stand-in host: a multiexp and a sum that fold their input into 64
/// bytes, and a pairing check that accepts one byte string only.
struct Host {
    accepted: Vec<u8>,
    seen: Vec<HostCall>,
}

fn fold(bytes: &[u8], salt: u8) -> Vec<u8> {
    let mut out = vec![salt; 64];
    for (i, b) in bytes.iter().enumerate() {
        let k = i % 64;
        out[k] = out[k].wrapping_mul(31).wrapping_add(*b).wrapping_add(i as u8);
    }
    out
}

impl Host {
    fn answer(&mut self, call: &HostCall) -> HostReply {
        self.seen.push(call.clone());
        match call {
            HostCall::G1Multiexp(bytes) => HostReply::Point(fold(bytes, 1)),
            HostCall::G1Sum(bytes) => HostReply::Point(fold(bytes, 2)),
            HostCall::PairingCheck(bytes) => HostReply::Verdict(*bytes == self.accepted),
        }
    }
}

fn verify_with(host: &mut Host, verifier: &Verifier, inputs: &[U256], proof: &Proof) -> bool {
    let (mut phase, mut call) = verifier.start(inputs, proof);
    let mut turns = 0;
    while let Some(question) = call {
        turns += 1;
        assert!(turns <= 3);
        let reply = host.answer(&question);
        let next = verifier.advance(phase, proof, &reply);
        phase = next.0;
        call = next.1;
    }
    match phase {
        Phase::Finished(verdict) => verdict,
        _ => panic!("the machine stopped without a verdict"),
    }
}

/// The pairing input that the stand-in host must accept for the triple.
fn accepted_for(verifier: &Verifier, inputs: &[U256], proof: &Proof) -> Vec<u8> {
    let mut recorder = Host { accepted: Vec::new(), seen: Vec::new() };
    verify_with(&mut recorder, verifier, inputs, proof);
    match recorder.seen.last() {
        Some(HostCall::PairingCheck(bytes)) => bytes.clone(),
        _ => panic!("no pairing check was asked"),
    }
}

#[test]
fn test_verifier_creation() {
    let vk = VerificationKey {
        alpha: G1Point::zero(),
        beta: G2Point::zero(),
        gamma: G2Point::zero(),
        delta: G2Point::zero(),
        ic: vec![G1Point::zero(), G1Point::zero()],
    };
    let verifier = Verifier::new(vk);
    assert_eq!(verifier.vk.num_inputs(), 1);
}

#[test]
fn test_compiles() {
    assert!(true);
}

#[test]
fn num_inputs_is_one_less_than_ic() {
    assert_eq!(sample_key(0).num_inputs(), 0);
    assert_eq!(sample_key(1).num_inputs(), 0);
    assert_eq!(sample_key(4).num_inputs(), 3);
}

#[test]
fn wrong_input_count_is_refused_without_a_question() {
    let verifier = Verifier::new(sample_key(3));
    let proof = sample_proof();
    for inputs in [vec![], vec![U256::from(1u64)], vec![U256::from(1u64); 3]] {
        let (phase, call) = verifier.start(&inputs, &proof);
        assert_eq!(phase, Phase::Finished(false));
        assert!(call.is_none());
    }
    let empty = Verifier::new(sample_key(0));
    let (phase, call) = empty.start(&[], &proof);
    assert_eq!(phase, Phase::Finished(false));
    assert!(call.is_none());
}

#[test]
fn a_that_cannot_be_negated_is_refused() {
    let verifier = Verifier::new(sample_key(2));
    let mut proof = sample_proof();
    proof.a.y = U256::from_dec_str(Q).unwrap();
    assert!(matches!(verifier.start(&[U256::from(1u64)], &proof).0, Phase::AwaitingMultiexp));
    proof.a.y = U256([0x3c208c16d87cfd48, 0x97816a916871ca8d, 0xb85045b68181585d, 0x30644e72e131a029]);
    let (phase, call) = verifier.start(&[U256::from(1u64)], &proof);
    assert_eq!(phase, Phase::Finished(false));
    assert!(call.is_none());
    let (phase, call) =
        verifier.advance(Phase::AwaitingSum, &proof, &HostReply::Point(vec![0; 64]));
    assert_eq!(phase, Phase::Finished(false));
    assert!(call.is_none());
}

#[test]
fn multiexp_input_skips_zero_inputs() {
    let verifier = Verifier::new(sample_key(4));
    let inputs = [U256::from(0x0102u64), U256::zero(), U256([0, 0, 0, 0x0a00000000000000])];
    let bytes = verifier.build_multiexp_input(&inputs).unwrap();
    assert_eq!(bytes.len(), 2 * 96);
    // scalar, little-endian
    assert_eq!(bytes[0], 2);
    assert_eq!(bytes[1], 1);
    assert!(bytes[2..32].iter().all(|b| *b == 0));
    // IC[1], big-endian
    assert_eq!(&bytes[32..96], &g1(101, 201).to_bytes());
    // the third input with IC[3]
    assert!(bytes[96..127].iter().all(|b| *b == 0));
    assert_eq!(bytes[127], 0x0a);
    assert_eq!(&bytes[128..192], &g1(103, 203).to_bytes());

    assert_eq!(verifier.build_multiexp_input(&[U256::zero(); 3]).unwrap().len(), 0);
    assert_eq!(verifier.build_multiexp_input(&[]).unwrap().len(), 0);
    assert!(verifier.build_multiexp_input(&[U256::zero(); 4]).is_none());
    assert!(Verifier::new(sample_key(0)).build_multiexp_input(&[]).is_none());
}

#[test]
fn pairing_input_is_four_pairs_in_order() {
    let key = sample_key(2);
    let verifier = Verifier::new(key.clone());
    let proof = sample_proof();
    let vk_x = g1(31, 32);
    let bytes = verifier.build_pairing_input(&proof, &vk_x);
    assert_eq!(bytes.len(), 4 * 192);
    let mut want = Vec::new();
    want.extend_from_slice(&negate_g1(&proof.a).to_bytes());
    want.extend_from_slice(&proof.b.to_bytes());
    want.extend_from_slice(&key.alpha.to_bytes());
    want.extend_from_slice(&key.beta.to_bytes());
    want.extend_from_slice(&vk_x.to_bytes());
    want.extend_from_slice(&key.gamma.to_bytes());
    want.extend_from_slice(&proof.c.to_bytes());
    want.extend_from_slice(&key.delta.to_bytes());
    assert_eq!(bytes, want);
    // -A keeps x and takes y to q - y
    assert_eq!(bytes[31], 21);
    assert_eq!(
        U256::from_be_bytes(&bytes[32..64]).to_string(),
        "21888242871839275222246405745257275088696311157297823662689037894645226208561"
    );
}

#[test]
fn negation_uses_the_base_field() {
    let p = g1(5, 1);
    let n = negate_g1(&p);
    assert_eq!(n.x, p.x);
    assert_eq!(
        n.y.to_string(),
        "21888242871839275222246405745257275088696311157297823662689037894645226208582"
    );
    assert_eq!(negate_g1(&n).y, p.y);
    let infinity = G1Point::zero();
    assert!(negate_g1(&infinity).is_zero());
    let on_axis = g1(5, 0);
    assert_eq!(negate_g1(&on_axis).y.to_string(), Q);
    let top = G1Point { x: U256::from(5u64), y: U256::from_dec_str(Q).unwrap() };
    assert!(negate_g1(&top).y.is_zero());
}

#[test]
fn pairing_bytes_of_a_proof() {
    let proof = sample_proof();
    let (a, b, c) = proof.to_pairing_bytes(false);
    assert_eq!(a, proof.a.to_bytes());
    assert_eq!(b, proof.b.to_bytes());
    assert_eq!(c, proof.c.to_bytes());
    let (a, _, _) = proof.to_pairing_bytes(true);
    assert_eq!(a, negate_g1(&proof.a).to_bytes());
}

#[test]
fn all_zero_inputs_go_straight_to_the_pairing_check() {
    let verifier = Verifier::new(sample_key(3));
    let proof = sample_proof();
    let inputs = [U256::zero(), U256::zero()];
    let (phase, call) = verifier.start(&inputs, &proof);
    assert_eq!(phase, Phase::AwaitingPairing);
    match call {
        Some(HostCall::PairingCheck(bytes)) => {
            assert_eq!(bytes, verifier.build_pairing_input(&proof, &g1(100, 200)));
        }
        _ => panic!("expected a pairing check"),
    }
    let (phase, call) = verifier.advance(Phase::AwaitingPairing, &proof, &HostReply::Verdict(true));
    assert_eq!(phase, Phase::Finished(true));
    assert!(call.is_none());
}

#[test]
fn questions_follow_the_replies() {
    let verifier = Verifier::new(sample_key(2));
    let proof = sample_proof();
    let inputs = [U256::from(9u64)];
    let (phase, call) = verifier.start(&inputs, &proof);
    assert_eq!(phase, Phase::AwaitingMultiexp);
    assert!(matches!(call, Some(HostCall::G1Multiexp(ref b)) if b.len() == 96));

    let product = g1(41, 42);
    let (phase, call) =
        verifier.advance(phase, &proof, &HostReply::Point(product.to_bytes().to_vec()));
    assert_eq!(phase, Phase::AwaitingSum);
    match call {
        Some(HostCall::G1Sum(bytes)) => {
            assert_eq!(bytes.len(), 128);
            assert_eq!(&bytes[..64], &g1(100, 200).to_bytes());
            assert_eq!(&bytes[64..], &product.to_bytes());
            assert_eq!(bytes, build_sum_input(&g1(100, 200), &product));
        }
        _ => panic!("expected a sum"),
    }

    let vk_x = g1(51, 52);
    let (phase, call) = verifier.advance(phase, &proof, &HostReply::Point(vk_x.to_bytes().to_vec()));
    assert_eq!(phase, Phase::AwaitingPairing);
    match call {
        Some(HostCall::PairingCheck(bytes)) => {
            assert_eq!(bytes, verifier.build_pairing_input(&proof, &vk_x));
        }
        _ => panic!("expected a pairing check"),
    }

    for verdict in [true, false] {
        let (phase, call) = verifier.advance(phase, &proof, &HostReply::Verdict(verdict));
        assert_eq!(phase, Phase::Finished(verdict));
        assert!(call.is_none());
        let (again, call) = verifier.advance(phase, &proof, &HostReply::Verdict(!verdict));
        assert_eq!(again, Phase::Finished(verdict));
        assert!(call.is_none());
    }
}

#[test]
fn replies_of_the_wrong_length_or_kind_end_with_false() {
    let verifier = Verifier::new(sample_key(2));
    let proof = sample_proof();
    for phase in [Phase::AwaitingMultiexp, Phase::AwaitingSum] {
        for reply in [
            HostReply::Point(vec![0; 63]),
            HostReply::Point(vec![0; 65]),
            HostReply::Point(Vec::new()),
            HostReply::Verdict(true),
        ] {
            let (next, call) = verifier.advance(phase, &proof, &reply);
            assert_eq!(next, Phase::Finished(false));
            assert!(call.is_none());
        }
    }
    let (next, call) =
        verifier.advance(Phase::AwaitingPairing, &proof, &HostReply::Point(vec![1; 64]));
    assert_eq!(next, Phase::Finished(false));
    assert!(call.is_none());
    assert!(point_from_reply(&[0; 63]).is_none());
    let p = point_from_reply(&g1(3, 4).to_bytes()).unwrap();
    assert_eq!(p.x, U256::from(3u64));
    assert_eq!(p.y, U256::from(4u64));
}

#[test]
fn a_changed_proof_input_or_key_is_not_accepted() {
    let key = sample_key(3);
    let verifier = Verifier::new(key.clone());
    let proof = sample_proof();
    let inputs = vec![U256::from(5u64), U256::from(6u64)];
    let accepted = accepted_for(&verifier, &inputs, &proof);
    let mut host = Host { accepted, seen: Vec::new() };
    assert!(verify_with(&mut host, &verifier, &inputs, &proof));
    assert_eq!(host.seen.len(), 3);

    // every byte of the proof
    let mut bytes = Vec::new();
    bytes.extend_from_slice(&proof.a.to_bytes());
    bytes.extend_from_slice(&proof.b.to_bytes());
    bytes.extend_from_slice(&proof.c.to_bytes());
    for i in 0..bytes.len() {
        let mut flipped = bytes.clone();
        flipped[i] ^= 1;
        let a: [u8; 64] = flipped[..64].try_into().unwrap();
        let b: [u8; 128] = flipped[64..192].try_into().unwrap();
        let c: [u8; 64] = flipped[192..].try_into().unwrap();
        let changed = Proof {
            a: G1Point::from_bytes(&a),
            b: G2Point::from_bytes(&b),
            c: G1Point::from_bytes(&c),
        };
        assert!(!verify_with(&mut host, &verifier, &inputs, &changed), "byte {}", i);
    }

    // every public input
    for i in 0..inputs.len() {
        let mut changed = inputs.clone();
        changed[i] = U256::from(7u64 + i as u64);
        assert!(!verify_with(&mut host, &verifier, &changed, &proof));
        changed[i] = U256::zero();
        assert!(!verify_with(&mut host, &verifier, &changed, &proof));
    }

    // one input fewer
    assert!(!verify_with(&mut host, &verifier, &inputs[..1], &proof));

    // two IC entries swapped
    for (i, j) in [(0, 1), (1, 2), (0, 2)] {
        let mut swapped = key.clone();
        swapped.ic.swap(i, j);
        assert!(!verify_with(&mut host, &Verifier::new(swapped), &inputs, &proof));
    }
}

#[test]
fn inputs_are_read_from_decimal_strings() {
    let values = parse_inputs(&strings(&["0", "18446744073709551616", "7"])).unwrap();
    assert_eq!(values, vec![U256::zero(), U256([0, 1, 0, 0]), U256::from(7u64)]);
    assert_eq!(parse_inputs(&[]).unwrap().len(), 0);
    assert!(parse_inputs(&strings(&["1", "0x2"])).is_none());
    assert!(parse_inputs(&strings(&["-1"])).is_none());
}

fn key_json(ic: Vec<Vec<String>>) -> VerificationKeyJson {
    VerificationKeyJson {
        protocol: Some("groth16".to_string()),
        curve: Some("bn128".to_string()),
        n_public: Some(1),
        vk_alpha_1: strings(&["1", "2", "1"]),
        vk_beta_2: vec![strings(&["3", "4"]), strings(&["5", "6"]), strings(&["1", "0"])],
        vk_gamma_2: vec![strings(&["7", "8"]), strings(&["9", "10"]), strings(&["1", "0"])],
        vk_delta_2: vec![strings(&["11", "12"]), strings(&["13", "14"]), strings(&["1", "0"])],
        ic,
    }
}

#[test]
fn a_key_is_read_from_decimal_arrays() {
    let json = key_json(vec![strings(&["100", "200", "1"]), strings(&["101", "201", "1"])]);
    let verifier = Verifier::from_json(&json).unwrap();
    let want = sample_key(2);
    assert_eq!(verifier.vk.num_inputs(), 1);
    assert_eq!(verifier.vk.alpha.to_bytes(), want.alpha.to_bytes());
    assert_eq!(verifier.vk.beta.to_bytes(), want.beta.to_bytes());
    assert_eq!(verifier.vk.gamma.to_bytes(), want.gamma.to_bytes());
    assert_eq!(verifier.vk.delta.to_bytes(), want.delta.to_bytes());
    assert_eq!(verifier.vk.ic.len(), 2);
    assert_eq!(verifier.vk.ic[1].to_bytes(), want.ic[1].to_bytes());
    // real part first in the arrays, imaginary part first in the bytes
    assert_eq!(verifier.vk.beta.x[0], U256::from(3u64));
    assert_eq!(verifier.vk.beta.to_bytes()[31], 4);
}

#[test]
fn a_malformed_key_names_its_first_fault() {
    let good_ic = vec![strings(&["100", "200"])];
    let fault = |change: &dyn Fn(&mut VerificationKeyJson)| -> ParseError {
        let mut json = key_json(good_ic.clone());
        change(&mut json);
        Verifier::from_json(&json).unwrap_err()
    };
    assert_eq!(
        fault(&|j| j.vk_alpha_1 = strings(&["1"])),
        ParseError { which: ParseSubject::VkAlpha1, why: ParseReason::TooFewCoordinates }
    );
    assert_eq!(
        fault(&|j| j.vk_beta_2 = vec![strings(&["1", "2"])]),
        ParseError { which: ParseSubject::VkBeta2, why: ParseReason::TooFewPairs }
    );
    assert_eq!(
        fault(&|j| j.vk_gamma_2 = vec![strings(&["1", "2"]), strings(&["1"])]),
        ParseError { which: ParseSubject::VkGamma2, why: ParseReason::TooFewElements }
    );
    assert_eq!(
        fault(&|j| j.vk_delta_2 = vec![strings(&["1", "2"]), strings(&["1", "x"])]),
        ParseError {
            which: ParseSubject::VkDelta2,
            why: ParseReason::InvalidDecimal(Coordinate::Y1)
        }
    );
    assert_eq!(
        fault(&|j| j.ic = Vec::new()),
        ParseError { which: ParseSubject::Ic, why: ParseReason::EmptyIc }
    );
    assert_eq!(
        fault(&|j| j.ic = vec![strings(&["1", "2"]), strings(&["1", ""]), strings(&["a", "b"])]),
        ParseError {
            which: ParseSubject::IcPoint(2),
            why: ParseReason::InvalidDecimal(Coordinate::X)
        }
    );
    assert_eq!(
        fault(&|j| {
            j.vk_alpha_1 = strings(&["1", "y"]);
            j.ic = Vec::new();
        }),
        ParseError {
            which: ParseSubject::VkAlpha1,
            why: ParseReason::InvalidDecimal(Coordinate::Y)
        }
    );
    assert_eq!(ParseReason::EmptyIc.message(), "Verification key requires at least 1 IC point");
    assert_eq!(
        ParseReason::InvalidDecimal(Coordinate::X0).message(),
        "Invalid decimal string for x0"
    );
    assert_eq!(
        ParseReason::TooFewCoordinates.message(),
        "G1 point requires at least 2 coordinates"
    );
}

#[test]
fn a_proof_is_read_from_decimal_arrays() {
    let json = ProofJson {
        pi_a: strings(&["21", "22", "1"]),
        pi_b: vec![strings(&["23", "24"]), strings(&["25", "26"]), strings(&["1", "0"])],
        pi_c: strings(&["27", "28", "1"]),
        protocol: Some("groth16".to_string()),
        curve: None,
    };
    let proof = json.to_proof().unwrap();
    let want = sample_proof();
    assert_eq!(proof.a.to_bytes(), want.a.to_bytes());
    assert_eq!(proof.b.to_bytes(), want.b.to_bytes());
    assert_eq!(proof.c.to_bytes(), want.c.to_bytes());

    let bad = ProofJson { pi_c: strings(&["27"]), ..json };
    assert_eq!(
        bad.to_proof().unwrap_err(),
        ParseError { which: ParseSubject::PiC, why: ParseReason::TooFewCoordinates }
    );
    let overflow = "115792089237316195423570985008687907853269984665640564039457584007913129639936";
    assert_eq!(
        Proof::from_json(&strings(&[overflow, "1"]), &[], &[]).unwrap_err(),
        ParseError { which: ParseSubject::PiA, why: ParseReason::InvalidDecimal(Coordinate::X) }
    );
    assert_eq!(
        Proof::from_json(&strings(&["1", "2"]), &[], &[]).unwrap_err(),
        ParseError { which: ParseSubject::PiB, why: ParseReason::TooFewPairs }
    );
    assert_eq!(
        G1Point::from_json_array(&strings(&["1"])).unwrap_err(),
        ParseReason::TooFewCoordinates
    );
    assert_eq!(
        G2Point::from_json_array(&[strings(&["1", "2"]), strings(&["3", "4x"])]).unwrap_err(),
        ParseReason::InvalidDecimal(Coordinate::Y1)
    );
}

#[test]
fn a_proof_file_that_cannot_be_read_is_refused() {
    let verifier = Verifier::new(sample_key(2));
    let good = ProofJson {
        pi_a: strings(&["21", "22", "1"]),
        pi_b: vec![strings(&["23", "24"]), strings(&["25", "26"]), strings(&["1", "0"])],
        pi_c: strings(&["27", "28", "1"]),
        protocol: None,
        curve: None,
    };
    let (phase, call, proof) = verifier.start_json(&good, &strings(&["9"]));
    assert_eq!(phase, Phase::AwaitingMultiexp);
    let direct = verifier.start(&[U256::from(9u64)], &sample_proof());
    match (call, direct.1) {
        (Some(HostCall::G1Multiexp(a)), Some(HostCall::G1Multiexp(b))) => assert_eq!(a, b),
        _ => panic!("expected two multiexp questions"),
    }
    assert_eq!(proof.unwrap().c.to_bytes(), sample_proof().c.to_bytes());

    let (phase, call, proof) = verifier.start_json(&good, &strings(&["nine"]));
    assert_eq!(phase, Phase::Finished(false));
    assert!(call.is_none() && proof.is_none());

    let bad = ProofJson { pi_b: vec![strings(&["23", "24"])], ..good };
    let (phase, call, proof) = verifier.start_json(&bad, &strings(&["9"]));
    assert_eq!(phase, Phase::Finished(false));
    assert!(call.is_none() && proof.is_none());

    // readable, but one input too many
    let good = ProofJson { pi_b: vec![strings(&["23", "24"]), strings(&["25", "26"])], ..bad };
    let (phase, call, proof) = verifier.start_json(&good, &strings(&["9", "9"]));
    assert_eq!(phase, Phase::Finished(false));
    assert!(call.is_none() && proof.is_some());
}
