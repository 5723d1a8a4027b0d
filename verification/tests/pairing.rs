//! Verification against real BN254 arithmetic: the questions of the
//! verifier are put to the NEAR host functions.

use near_groth16_verifier::groth16::{parse_inputs, HostCall, HostReply, Phase, Verifier};
use near_groth16_verifier::near_layout::{from_near_point, to_near};
use near_groth16_verifier::types::{negate_g1, Proof, ProofJson, VerificationKeyJson, U256};
use near_sdk::env::{alt_bn128_g1_multiexp, alt_bn128_g1_sum, alt_bn128_pairing_check};

fn answer(call: &HostCall) -> HostReply {
    let input = to_near(call);
    match call {
        HostCall::G1Multiexp(_) => HostReply::Point(from_near_point(&alt_bn128_g1_multiexp(input))),
        HostCall::G1Sum(_) => HostReply::Point(from_near_point(&alt_bn128_g1_sum(input))),
        HostCall::PairingCheck(_) => HostReply::Verdict(alt_bn128_pairing_check(input)),
    }
}

/// Runs a verification; the second result is the number of questions asked.
fn verify(verifier: &Verifier, inputs: &[U256], proof: &Proof) -> (bool, usize) {
    let (mut phase, mut call) = verifier.start(inputs, proof);
    let mut questions = 0;
    while let Some(question) = call {
        questions += 1;
        let reply = answer(&question);
        let next = verifier.advance(phase, proof, &reply);
        phase = next.0;
        call = next.1;
    }
    (phase == Phase::Finished(true), questions)
}

fn strings(items: &[&str]) -> Vec<String> {
    items.iter().map(|s| s.to_string()).collect()
}

fn pairs(items: &[&[&str]]) -> Vec<Vec<String>> {
    items.iter().map(|row| strings(row)).collect()
}

const IC0: [&str; 3] = [
    "16133490442195259581640433152883265507080126004045798371810624627811658116078",
    "21831445660032428270257921744371107200208385605558358393348394796841338834618",
    "1",
];
const IC1: [&str; 3] = [
    "4817630109552365822125551342580338930042199772473249330774114767182417491372",
    "20480676075993146624040322940588123030452002786144786070392946481619811069343",
    "1",
];

/// A verification key for one public input.
fn key() -> VerificationKeyJson {
    VerificationKeyJson {
        protocol: Some("groth16".to_string()),
        curve: Some("bn128".to_string()),
        n_public: Some(1),
        vk_alpha_1: strings(&[
            "4339552877383103325675399960518838589876930657287326049224403931008792682102",
            "5872420222442650244148230671633531064774699510483817572084648471800134548874",
            "1",
        ]),
        vk_beta_2: pairs(&[
            &[
                "12745562094898422644786011206700796713633028294249958412261641304462976503742",
                "12881928118493855250483508433281537853936730553678157804271617339580670819461",
            ],
            &[
                "21081270717854571916264208163761804967094172912781945671781704202051123969801",
                "19241852514023608017197039707475782883579944771105600021330920569981988709117",
            ],
            &["1", "0"],
        ]),
        vk_gamma_2: pairs(&[
            &[
                "7414156470634352104110818992485290235846923869463070758777085627436169193948",
                "19740859419705566440785554734959967741876009364684472682019706462006907196534",
            ],
            &[
                "7753126058594146312020549277892252819434671498802147994732032374552760984233",
                "7590438250522803061894796412646279981607505998812685023817132426654693403276",
            ],
            &["1", "0"],
        ]),
        vk_delta_2: pairs(&[
            &[
                "538031640934566315671486312441988968455844081804751025983978452562131791470",
                "4209047503585111666111984358842914139523031601572370800238151479030609126944",
            ],
            &[
                "13612312554967899116019218269158626124013068457636002358174341017787877676174",
                "20296335119404384317002771167624380243450022873586403892984638706096123896518",
            ],
            &["1", "0"],
        ]),
        ic: pairs(&[&IC0, &IC1]),
    }
}

/// A proof that holds under `key()` for the public input 33.
fn proof_for_33() -> ProofJson {
    ProofJson {
        pi_a: strings(&[
            "10130099712789852985876463860375119884285796207553969438824460598736869438966",
            "19348913181878667826333848548529979293459919566701381230612539376458672927885",
            "1",
        ]),
        pi_b: pairs(&[
            &[
                "19427095998139464957114015504770679518204371579982628955697956561164310603391",
                "2009333790222223717814877092834859010665659889104580016432579200317121986518",
            ],
            &[
                "5789914504930935685532132769593014872529892343152512772272201293672246031674",
                "19499826200487938058824831394937014480592822469513967662691359774732277957405",
            ],
            &["1", "0"],
        ]),
        pi_c: strings(&[
            "8692681515088288486857457762261858026434227539588587619988295499293159274871",
            "18313800493183330161711281332419988344660250283670381262269206090864963331661",
            "1",
        ]),
        protocol: Some("groth16".to_string()),
        curve: Some("bn128".to_string()),
    }
}

/// A proof that holds under `key()` for the public input 0.
fn proof_for_0() -> ProofJson {
    ProofJson {
        pi_a: strings(&[
            "5260701971153217998271766165282167317134796743668792602672522694732953126276",
            "4825124334084439482326934656042154820606002828296494717134849704227696847413",
            "1",
        ]),
        pi_b: pairs(&[
            &[
                "5429662431327998444524588871484129577439597916341682256162312263537367199432",
                "14034149922221847126241739062830657115173472053134873970260331559661301757434",
            ],
            &[
                "11911708527650426885517571179201187924477332847263552419101105598668477148127",
                "3985162613871310317199713205349226866242092849337398109472157537461646360812",
            ],
            &["1", "0"],
        ]),
        pi_c: strings(&[
            "15627420407725501422310262293195905207658430187183930804415549592694272444662",
            "4805801795478916272986980350082926576624841686703985406835901333013895998217",
            "1",
        ]),
        protocol: None,
        curve: None,
    }
}

/// Twice the `A` of `proof_for_33()`: a point of the curve, and the wrong one.
const TWICE_A: [&str; 3] = [
    "17344766592761500532826736572822248034983596245963471411068413641277136122557",
    "10224777492738676314336782244819869875270627084770575821176356352677741070402",
    "1",
];

#[test]
fn a_valid_proof_verifies() {
    let verifier = Verifier::from_json(&key()).unwrap();
    let proof = proof_for_33().to_proof().unwrap();
    let inputs = parse_inputs(&strings(&["33"])).unwrap();
    assert_eq!(verify(&verifier, &inputs, &proof), (true, 3));
}

#[test]
fn a_valid_proof_for_a_zero_input_verifies_without_multiexp() {
    let verifier = Verifier::from_json(&key()).unwrap();
    let proof = proof_for_0().to_proof().unwrap();
    assert_eq!(verify(&verifier, &[U256::zero()], &proof), (true, 1));
    assert_eq!(verify(&verifier, &[U256::from(33u64)], &proof), (false, 3));
}

#[test]
fn another_input_does_not_verify() {
    let verifier = Verifier::from_json(&key()).unwrap();
    let proof = proof_for_33().to_proof().unwrap();
    assert_eq!(verify(&verifier, &[U256::from(32u64)], &proof), (false, 3));
    assert_eq!(verify(&verifier, &[U256::from(34u64)], &proof), (false, 3));
    assert_eq!(verify(&verifier, &[U256::zero()], &proof), (false, 1));
}

#[test]
fn a_wrong_number_of_inputs_does_not_reach_the_host() {
    let verifier = Verifier::from_json(&key()).unwrap();
    let proof = proof_for_33().to_proof().unwrap();
    assert_eq!(verify(&verifier, &[], &proof), (false, 0));
    assert_eq!(verify(&verifier, &[U256::from(33u64); 2], &proof), (false, 0));
}

#[test]
fn swapped_ic_points_do_not_verify() {
    let mut json = key();
    json.ic = pairs(&[&IC1, &IC0]);
    let verifier = Verifier::from_json(&json).unwrap();
    let proof = proof_for_33().to_proof().unwrap();
    assert_eq!(verify(&verifier, &[U256::from(33u64)], &proof), (false, 3));
}

#[test]
fn a_changed_proof_does_not_verify() {
    let verifier = Verifier::from_json(&key()).unwrap();
    let inputs = [U256::from(33u64)];
    let good = proof_for_33();

    let other_a = ProofJson { pi_a: strings(&TWICE_A), ..proof_for_33() };
    assert_eq!(verify(&verifier, &inputs, &other_a.to_proof().unwrap()), (false, 3));

    let other_c = ProofJson { pi_c: good.pi_a.clone(), ..proof_for_33() };
    assert_eq!(verify(&verifier, &inputs, &other_c.to_proof().unwrap()), (false, 3));

    let other_b = ProofJson { pi_b: proof_for_0().pi_b, ..proof_for_33() };
    assert_eq!(verify(&verifier, &inputs, &other_b.to_proof().unwrap()), (false, 3));

    // A negated: the point itself where its negation is expected
    let mut negated = good.to_proof().unwrap();
    negated.a = negate_g1(&negated.a);
    assert_eq!(verify(&verifier, &inputs, &negated), (false, 3));
}

#[test]
fn another_key_does_not_verify() {
    let mut json = key();
    json.vk_gamma_2 = key().vk_delta_2;
    let verifier = Verifier::from_json(&json).unwrap();
    let proof = proof_for_33().to_proof().unwrap();
    assert_eq!(verify(&verifier, &[U256::from(33u64)], &proof), (false, 3));
}

#[test]
fn the_host_adds_and_multiplies_points() {
    // the generator (1, 2), doubled by a sum and by a multiexp
    let g = near_groth16_verifier::types::G1Point { x: U256::from(1u64), y: U256::from(2u64) };
    let sum = HostCall::G1Sum([g.to_bytes(), g.to_bytes()].concat());
    let by_two = HostCall::G1Multiexp([U256::from(2u64).to_le_bytes().to_vec(), g.to_bytes().to_vec()].concat());
    let (a, b) = match (answer(&sum), answer(&by_two)) {
        (HostReply::Point(a), HostReply::Point(b)) => (a, b),
        _ => panic!("expected two points"),
    };
    assert_eq!(a, b);
    assert_eq!(
        U256::from_be_bytes(&a[..32]).to_string(),
        "1368015179489954701390400359078579693043519447331113978918064868415326638035"
    );
    assert_eq!(
        U256::from_be_bytes(&a[32..]).to_string(),
        "9918110051302171585080402603319702774565515993150576347155970296011118125764"
    );
}
