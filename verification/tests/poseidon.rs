use near_groth16_verifier::poseidon::{
    compute_commitment, compute_nullifier_hash, poseidon_hash2, poseidon_hash4, poseidon_t3, Fr,
    InvalidFieldElement,
};

const HASH_1_2: &str =
    "7853200120776062878684798364095072458815029376092732009249414926327459813530";
const HASH_0_0: &str =
    "14744269619966411208579211824598458697587494354926760081771325075741142829156";
const EMPTY_TREE_ZEROS: [&str; 5] = [
    "0",
    "14744269619966411208579211824598458697587494354926760081771325075741142829156",
    "7423237065226347324353380772367382631490014989348495481811164164159255474657",
    "11286972368698509976183087595462810875513684078608517520839298933882497716792",
    "3607627140608796879659380071776844901612302623152076817094415224584923813162",
];
const R_MINUS_ONE: &str =
    "21888242871839275222246405745257275088548364400416034343698204186575808495616";
const R: &str = "21888242871839275222246405745257275088548364400416034343698204186575808495617";

#[test]
fn test_fr_from_str() {
    let a = Fr::from_str("12345").unwrap();
    assert_eq!(a.to_string(), "12345");
}

#[test]
fn test_fr_add() {
    let a = Fr::from_u64(100);
    let b = Fr::from_u64(200);
    let c = a.add(&b);
    assert_eq!(c.to_string(), "300");
}

#[test]
fn test_fr_mul() {
    let a = Fr::from_u64(1000);
    let b = Fr::from_u64(2000);
    let c = a.mul(&b);
    assert_eq!(c.to_string(), "2000000");
}

#[test]
fn test_fr_pow5() {
    let a = Fr::from_u64(3);
    let b = a.pow5();
    assert_eq!(b.to_string(), "243");
}

#[test]
fn test_poseidon_basic() {
    let result = poseidon_hash2("1", "2").unwrap();
    assert!(!result.is_empty());

    let result2 = poseidon_hash2("1", "2").unwrap();
    assert_eq!(result, result2);

    let result3 = poseidon_hash2("1", "3").unwrap();
    assert_ne!(result, result3);
}

#[test]
fn test_poseidon_zeros() {
    let result = poseidon_hash2("0", "0").unwrap();
    assert!(!result.is_empty());
}

#[test]
fn test_commitment() {
    let commitment = compute_commitment("12345", "67890", "1000000000000000000000000", "0").unwrap();
    assert!(!commitment.is_empty());
}

#[test]
fn test_nullifier_hash() {
    let nh = compute_nullifier_hash("12345", 42).unwrap();
    assert!(!nh.is_empty());
}

#[test]
fn test_poseidon_hash2_vectors() {
    let result = poseidon_hash2("1", "2").unwrap();
    println!("Poseidon(1, 2) = {}", result);

    let result_zeros = poseidon_hash2("0", "0").unwrap();
    println!("Poseidon(0, 0) = {}", result_zeros);

    let result_large = poseidon_hash2(
        "21888242871839275222246405745257275088548364400416034343698204186575808495616",
        "1",
    ).unwrap();
    println!("Poseidon(p-1, 1) = {}", result_large);
}

#[test]
fn test_poseidon_determinism() {
    let a1 = poseidon_hash2("12345", "67890").unwrap();
    let a2 = poseidon_hash2("12345", "67890").unwrap();
    assert_eq!(a1, a2, "Poseidon must be deterministic");
}

#[test]
fn test_poseidon_collision_resistance() {
    let h1 = poseidon_hash2("1", "2").unwrap();
    let h2 = poseidon_hash2("2", "1").unwrap();
    let h3 = poseidon_hash2("1", "3").unwrap();

    assert_ne!(h1, h2, "hash(1,2) should differ from hash(2,1)");
    assert_ne!(h1, h3, "hash(1,2) should differ from hash(1,3)");
}

#[test]
fn test_merkle_tree_zeros() {
    let mut zeros = vec!["0".to_string()];

    for i in 0..20 {
        let prev = &zeros[i];
        let next = poseidon_hash2(prev, prev).unwrap();
        println!("Zero level {}: {}", i + 1, next);
        zeros.push(next);
    }

    println!("Empty tree root: {}", zeros[20]);
}

#[test]
fn test_commitment_computation() {
    let nullifier = "123456789";
    let secret = "987654321";
    let amount = "1000000000000000000000000";
    let asset_id = "0";

    let commitment = compute_commitment(nullifier, secret, amount, asset_id).unwrap();
    println!("Commitment: {}", commitment);

    let commitment2 = compute_commitment(nullifier, secret, amount, asset_id).unwrap();
    assert_eq!(commitment, commitment2);
}

#[test]
fn test_nullifier_hash_computation() {
    let nullifier = "123456789";
    let leaf_index: u64 = 42;

    let nh = compute_nullifier_hash(nullifier, leaf_index).unwrap();
    println!("Nullifier hash: {}", nh);

    let nh2 = compute_nullifier_hash(nullifier, 43).unwrap();
    assert_ne!(nh, nh2);
}

#[test]
fn test_fr_arithmetic() {
    let a = Fr::from_str("100").unwrap();
    let b = Fr::from_str("200").unwrap();

    let sum = a.add(&b);
    assert_eq!(sum.to_string(), "300");

    let diff = b.sub(&a);
    assert_eq!(diff.to_string(), "100");

    let prod = a.mul(&b);
    assert_eq!(prod.to_string(), "20000");

    let x = Fr::from_str("3").unwrap();
    let x5 = x.pow5();
    assert_eq!(x5.to_string(), "243");
}

#[test]
fn test_fr_modular_reduction() {
    let one = Fr::from_str("1").unwrap();
    let p_minus_one = Fr::from_str(
        "21888242871839275222246405745257275088548364400416034343698204186575808495616",
    ).unwrap();

    let result = p_minus_one.add(&one);
    assert_eq!(result.to_string(), "0", "Field modular reduction failed");
}

#[test]
fn poseidon_matches_reference_vectors() {
    assert_eq!(poseidon_hash2("1", "2").unwrap(), HASH_1_2);
    assert_eq!(poseidon_hash2("0", "0").unwrap(), HASH_0_0);
}

#[test]
fn empty_tree_levels_match_reference() {
    for level in 1..5 {
        let below = EMPTY_TREE_ZEROS[level - 1];
        assert_eq!(poseidon_hash2(below, below).unwrap(), EMPTY_TREE_ZEROS[level]);
    }
}

#[test]
fn hash4_is_a_tree_of_hash2() {
    let left = poseidon_hash2("11", "22").unwrap();
    let right = poseidon_hash2("33", "44").unwrap();
    assert_eq!(poseidon_hash4("11", "22", "33", "44").unwrap(), poseidon_hash2(&left, &right).unwrap());
    assert_eq!(compute_commitment("11", "22", "33", "44").unwrap(), poseidon_hash2(&left, &right).unwrap());
}

#[test]
fn nullifier_hash_is_hash2_with_the_index() {
    assert_eq!(compute_nullifier_hash("12345", 42).unwrap(), poseidon_hash2("12345", "42").unwrap());
    assert_eq!(
        compute_nullifier_hash("7", 18446744073709551615).unwrap(),
        poseidon_hash2("7", "18446744073709551615").unwrap()
    );
}

#[test]
fn poseidon_t3_pads_missing_inputs_with_zero() {
    let one = Fr::from_u64(1);
    let zero = Fr::from_u64(0);
    assert_eq!(poseidon_t3(&[one]), poseidon_t3(&[one, zero]));
    assert_eq!(poseidon_t3(&[]), poseidon_t3(&[zero, zero]));
    assert_eq!(poseidon_t3(&[zero, zero]).to_string(), HASH_0_0);
}

#[test]
fn wrap_around_at_the_modulus() {
    let top = Fr::from_str(R_MINUS_ONE).unwrap();
    assert_eq!(top.add(&Fr::from_u64(1)).to_string(), "0");
    assert_eq!(Fr::from_u64(0).sub(&Fr::from_u64(1)).to_string(), R_MINUS_ONE);
    assert!(top.add(&Fr::from_u64(1)).is_zero());
}

#[test]
fn field_laws_on_sample_values() {
    let x = Fr::from_str("21888242871839275222246405745257275088548364400416034343698204186575808495000").unwrap();
    let y = Fr::from_str("9915499612839321149637521777990102151350674507940716049588462388200839649614").unwrap();
    let z = Fr::from_str("340282366920938463463374607431768211457").unwrap();
    assert_eq!(x.add(&y), y.add(&x));
    assert_eq!(x.add(&y).add(&z), x.add(&y.add(&z)));
    assert_eq!(x.mul(&y), y.mul(&x));
    assert_eq!(x.mul(&y).mul(&z), x.mul(&y.mul(&z)));
    assert_eq!(x.mul(&y.add(&z)), x.mul(&y).add(&x.mul(&z)));
    assert_eq!(x.add(&Fr::zero()), x);
    assert_eq!(x.mul(&Fr::one()), x);
    let minus_x = Fr::zero().sub(&x);
    assert!(x.add(&minus_x).is_zero());
    assert_eq!(x.sub(&y).add(&y), x);
}

#[test]
fn multiplication_matches_known_products() {
    // 2^256 mod r times its inverse is one
    let big = Fr::from_str("6350874878119819312338956282401532410528162663560392320966563075034087161851").unwrap();
    let inv = Fr::from_str("9915499612839321149637521777990102151350674507940716049588462388200839649614").unwrap();
    assert_eq!(big.mul(&inv).to_string(), "1");
    // (r - 1)^2 = 1
    let top = Fr::from_str(R_MINUS_ONE).unwrap();
    assert_eq!(top.mul(&top).to_string(), "1");
    // (r - 1) * 2 = r - 2
    assert_eq!(
        top.mul(&Fr::from_u64(2)).to_string(),
        "21888242871839275222246405745257275088548364400416034343698204186575808495615"
    );
    let a = Fr::from_str("340282366920938463463374607431768211456").unwrap();
    assert_eq!(
        a.mul(&a).to_string(),
        "6350874878119819312338956282401532410528162663560392320966563075034087161851"
    );
}

#[test]
fn pow5_is_five_multiplications() {
    let x = Fr::from_str("123456789012345678901234567890123456789012345678901234567890").unwrap();
    let by_hand = x.mul(&x).mul(&x).mul(&x).mul(&x);
    assert_eq!(x.pow5(), by_hand);
    assert_eq!(Fr::from_u64(2).pow5().to_string(), "32");
}

#[test]
fn reading_accepts_decimal_numerals_below_the_modulus() {
    assert_eq!(Fr::from_str("12345").unwrap().to_string(), "12345");
    assert_eq!(Fr::from_str("").unwrap().to_string(), "0");
    assert_eq!(Fr::from_str("0").unwrap().to_string(), "0");
    assert_eq!(Fr::from_str("007").unwrap().to_string(), "7");
    assert_eq!(Fr::from_str(R_MINUS_ONE).unwrap().to_string(), R_MINUS_ONE);
}

#[test]
fn reading_rejects_what_is_no_field_element() {
    assert_eq!(Fr::from_str(R), Err(InvalidFieldElement::OutOfRange));
    assert_eq!(Fr::from_str("12a"), Err(InvalidFieldElement::NotDecimal));
    assert_eq!(Fr::from_str("1_000"), Err(InvalidFieldElement::NotDecimal));
    assert_eq!(Fr::from_str("-12 3x"), Err(InvalidFieldElement::NotDecimal));
    assert_eq!(Fr::from_str("-1"), Err(InvalidFieldElement::NotDecimal));
    assert_eq!(Fr::from_str("0x10"), Err(InvalidFieldElement::NotDecimal));
    assert_eq!(Fr::from_str(" 1"), Err(InvalidFieldElement::NotDecimal));
    let huge = "9".repeat(100);
    assert_eq!(Fr::from_str(&huge), Err(InvalidFieldElement::OutOfRange));
    let huge_then_letter = format!("{}x", huge);
    assert_eq!(Fr::from_str(&huge_then_letter), Err(InvalidFieldElement::OutOfRange));
}

#[test]
fn hashes_hand_on_the_error_of_the_first_bad_input() {
    assert_eq!(poseidon_hash2("1", R), Err(InvalidFieldElement::OutOfRange));
    assert_eq!(poseidon_hash2("one", R), Err(InvalidFieldElement::NotDecimal));
    assert_eq!(poseidon_hash2(R, "one"), Err(InvalidFieldElement::OutOfRange));
    assert_eq!(poseidon_hash2("1 ", "2"), Err(InvalidFieldElement::NotDecimal));
    assert_eq!(poseidon_hash4("1", "2", "3", "4x"), Err(InvalidFieldElement::NotDecimal));
    assert_eq!(poseidon_hash4("1", R, "3x", "4"), Err(InvalidFieldElement::OutOfRange));
    assert_eq!(poseidon_hash4("1", "2", R, "4x"), Err(InvalidFieldElement::OutOfRange));
    assert_eq!(compute_commitment("a", "2", "3", "4"), Err(InvalidFieldElement::NotDecimal));
    assert_eq!(compute_nullifier_hash("-5", 1), Err(InvalidFieldElement::NotDecimal));
    assert_eq!(compute_nullifier_hash(R, 1), Err(InvalidFieldElement::OutOfRange));
    assert_eq!(poseidon_hash2("01", "002"), poseidon_hash2("1", "2"));
    assert_eq!(poseidon_hash2("", ""), poseidon_hash2("0", "0"));
}

#[test]
fn field_bytes_round_trip_and_reduce() {
    let x = Fr::from_str("340282366920938463463374607431768211457").unwrap();
    let bytes = x.to_be_bytes();
    assert_eq!(bytes[31], 1);
    assert_eq!(bytes[15], 1);
    assert_eq!(bytes.iter().map(|b| *b as u32).sum::<u32>(), 2);
    assert_eq!(Fr::from_be_bytes(&bytes), x);
    // 2^256 - 1 reduces to 2^256 - 1 - 5r
    assert_eq!(
        Fr::from_be_bytes(&[0xff; 32]).to_string(),
        "6350874878119819312338956282401532410528162663560392320966563075034087161850"
    );
    assert_eq!(Fr::from_be_bytes(&[]).to_string(), "0");
    assert_eq!(Fr::from_be_bytes(&[1, 0]).to_string(), "256");
}

#[test]
fn small_division_and_remainder() {
    let x = Fr::from_str("1000000000000000000000000000000000000007").unwrap();
    assert_eq!(x.mod_small(10), 7);
    assert_eq!(x.div_small(10).to_string(), "100000000000000000000000000000000000000");
    assert_eq!(x.mod_small(1), 0);
    assert_eq!(x.div_small(1), x);
}

#[test]
fn comparisons_and_raw_helpers() {
    let r_minus_one = Fr::from_str(R_MINUS_ONE).unwrap();
    let modulus = Fr { limbs: [0x43e1f593f0000001, 0x2833e84879b97091, 0xb85045b68181585d, 0x30644e72e131a029] };
    assert!(modulus.gte_modulus());
    assert!(!r_minus_one.gte_modulus());
    assert!(modulus.gte(&r_minus_one));
    assert!(!r_minus_one.gte(&modulus));
    assert!(modulus.sub_modulus().is_zero());
    assert_eq!(Fr::zero().add_modulus(), modulus);
    assert_eq!(modulus.sub_internal(&r_minus_one), Fr::one());
}
