use near_groth16_verifier::transcript::{
    hash_to_field, FiatShamirTranscript, PlonkChallenges, SimpleTranscript,
};
use near_groth16_verifier::types::{G1Point, U256};

const FR_MODULUS: &str =
    "21888242871839275222246405745257275088548364400416034343698204186575808495617";

const KECCAK_OF_NOTHING: [u8; 32] = [
    0xc5, 0xd2, 0x46, 0x01, 0x86, 0xf7, 0x23, 0x3c, 0x92, 0x7e, 0x7d, 0xb2, 0xdc, 0xc7, 0x03, 0xc0,
    0xe5, 0x00, 0xb6, 0x53, 0xca, 0x82, 0x27, 0x3b, 0x7b, 0xfa, 0xd8, 0x04, 0x5d, 0x85, 0xa4, 0x70,
];

const KECCAK_OF_PHRASE: [u8; 32] = [
    0xb2, 0x44, 0xaf, 0x9d, 0xd4, 0xaa, 0xda, 0x2e, 0xda, 0x59, 0x13, 0x0b, 0xbc, 0xff, 0x11, 0x2f,
    0x29, 0xb4, 0x27, 0xd9, 0x24, 0xb6, 0x54, 0xaa, 0xeb, 0x5a, 0x03, 0x84, 0xfa, 0x9a, 0xfe, 0xd4,
];

fn point(x: u64, y: u64) -> G1Point {
    G1Point { x: U256::from(x), y: U256::from(y) }
}

#[test]
fn test_transcript_append() {
    let mut transcript = FiatShamirTranscript::new();
    assert_eq!(transcript.state_len(), 0);

    let point = G1Point { x: U256::from(1u64), y: U256::from(2u64) };
    transcript.append_g1(&point);
    assert_eq!(transcript.state_len(), 64);

    let scalar = U256::from(123u64);
    transcript.append_scalar(&scalar);
    assert_eq!(transcript.state_len(), 96);
}

#[test]
fn test_fr_modulus() {
    let modulus = U256::from_dec_str(FR_MODULUS).unwrap();
    assert!(!modulus.is_zero());
}

#[test]
fn keccak_of_known_inputs() {
    let mut t = SimpleTranscript::new();
    assert_eq!(t.hash(), KECCAK_OF_NOTHING);
    t.append(b"The phrase that will be hashed");
    assert_eq!(t.hash(), KECCAK_OF_PHRASE);
    assert_eq!(t.state(), b"The phrase that will be hashed");
    t.clear();
    assert_eq!(t.state().len(), 0);
    assert_eq!(t.hash(), KECCAK_OF_NOTHING);
}

#[test]
fn challenge_is_the_hash_modulo_the_field_order() {
    let t = FiatShamirTranscript::new();
    assert_eq!(
        t.challenge().to_string(),
        "1924180730567573949438414972962865885128629851683618892617351438379423999084"
    );
    let mut t = FiatShamirTranscript::default();
    t.append_bytes(b"The phrase that will be hashed");
    assert_eq!(
        t.challenge().to_string(),
        "14968316093427327073451875556432609892351751483884129842630208306399174917841"
    );
    assert_eq!(t.state_len(), 30);
    let squeezed = t.squeeze_challenge();
    assert_eq!(
        squeezed.to_string(),
        "14968316093427327073451875556432609892351751483884129842630208306399174917841"
    );
    assert_eq!(t.state_len(), 0);
}

#[test]
fn double_hash_hashes_the_hash() {
    let t = FiatShamirTranscript::new();
    let mut inner = SimpleTranscript::new();
    inner.append(&KECCAK_OF_NOTHING);
    assert_eq!(t.challenge_double_hash(), inner.challenge());
    assert_ne!(t.challenge_double_hash(), t.challenge());
}

#[test]
fn hash_to_field_reduces() {
    assert_eq!(hash_to_field(&[]), U256::zero());
    assert_eq!(hash_to_field(&[1, 0]), U256::from(256u64));
    let r = U256::from_dec_str(FR_MODULUS).unwrap();
    assert_eq!(hash_to_field(&r.to_be_bytes()), U256::zero());
    assert_eq!(
        hash_to_field(&[0xff; 32]).to_string(),
        "6350874878119819312338956282401532410528162663560392320966563075034087161850"
    );
    assert_eq!(
        hash_to_field(&KECCAK_OF_NOTHING).to_string(),
        "1924180730567573949438414972962865885128629851683618892617351438379423999084"
    );
}

#[test]
fn appended_elements_are_laid_out_in_order() {
    let mut gathered = SimpleTranscript::new();
    gathered.append_g1(&point(1, 2));
    gathered.append_scalar(&U256::from(3u64));
    gathered.append(&[9, 9]);
    let state = gathered.state();
    assert_eq!(state.len(), 98);
    assert_eq!(state[31], 1);
    assert_eq!(state[63], 2);
    assert_eq!(state[95], 3);
    assert_eq!(&state[96..], &[9, 9]);

    let mut a = FiatShamirTranscript::new();
    a.append_g1_vec(&[point(1, 2), point(3, 4)]);
    a.append_scalars(&[U256::from(5u64), U256::from(6u64)]);
    let mut b = FiatShamirTranscript::new();
    b.append_g1(&point(1, 2));
    b.append_g1(&point(3, 4));
    b.append_scalar(&U256::from(5u64));
    b.append_scalar(&U256::from(6u64));
    assert_eq!(a.state_len(), 192);
    assert_eq!(a.challenge(), b.challenge());
    a.reset();
    assert_eq!(a.state_len(), 0);
}

#[test]
fn rounds_hash_their_own_elements() {
    let (a, b, c) = (point(1, 2), point(3, 4), point(5, 6));
    let mut t = FiatShamirTranscript::new();
    t.append_bytes(&[7; 10]);
    let (beta, gamma) = t.round1_challenges(&a, &b, &c);
    assert_eq!(t.state_len(), 192);

    let mut plain = SimpleTranscript::new();
    plain.append_g1(&a);
    plain.append_g1(&b);
    plain.append_g1(&c);
    assert_eq!(beta, plain.challenge());
    let mut twice = SimpleTranscript::new();
    twice.append(&plain.hash());
    assert_eq!(gamma, twice.challenge());

    let alpha = t.round2_challenge(&a);
    assert_eq!(t.state_len(), 0);
    let mut plain = SimpleTranscript::new();
    plain.append_g1(&a);
    assert_eq!(alpha, plain.challenge());

    let zeta = t.round3_challenge(&a, &b, &c);
    assert_eq!(zeta, beta);

    let evals: Vec<U256> = (10..16u64).map(U256::from).collect();
    let v = t.round4_challenge(&evals[0], &evals[1], &evals[2], &evals[3], &evals[4], &evals[5]);
    let mut plain = SimpleTranscript::new();
    for e in &evals {
        plain.append_scalar(e);
    }
    assert_eq!(v, plain.challenge());

    let u = t.round5_challenge(&a, &b);
    let mut plain = SimpleTranscript::new();
    plain.append_g1(&a);
    plain.append_g1(&b);
    assert_eq!(u, plain.challenge());
    assert_eq!(t.state_len(), 0);
}

#[test]
fn derive_runs_the_five_rounds() {
    let (a, b, c, z) = (point(1, 2), point(3, 4), point(5, 6), point(7, 8));
    let (t1, t2, t3) = (point(9, 10), point(11, 12), point(13, 14));
    let (w1, w2) = (point(15, 16), point(17, 18));
    let evals = [
        U256::from(21u64),
        U256::from(22u64),
        U256::from(23u64),
        U256::from(24u64),
        U256::from(25u64),
        U256::from(26u64),
    ];
    let all = PlonkChallenges::derive(&a, &b, &c, &z, &t1, &t2, &t3, &evals, &w1, &w2);
    let mut t = FiatShamirTranscript::new();
    let (beta, gamma) = t.round1_challenges(&a, &b, &c);
    assert_eq!(all.beta, beta);
    assert_eq!(all.gamma, gamma);
    assert_eq!(all.alpha, t.round2_challenge(&z));
    assert_eq!(all.zeta, t.round3_challenge(&t1, &t2, &t3));
    assert_eq!(
        all.v,
        t.round4_challenge(&evals[0], &evals[1], &evals[2], &evals[3], &evals[4], &evals[5])
    );
    assert_eq!(all.u, t.round5_challenge(&w1, &w2));
}
