use near_groth16_verifier::bytes::{
    concat32, concat64, limbs_from_be_bytes, limbs_to_be_bytes, limbs_to_le_bytes,
    word_to_be_bytes,
};
use near_groth16_verifier::decimal::{
    digit_of_char, limbs_to_decimal, parse_decimal_limbs, push_digit, FromDecStrErr,
};
use near_groth16_verifier::poseidon::{mds_multiply_t3, poseidon_t3, Fr, PoseidonState};
use near_groth16_verifier::poseidon_precomputed::{C_T3_FR, M_T3_FR};
use near_groth16_verifier::types::{
    check_coordinates, check_g2, check_ic, is_negatable, label_is, read_coordinate, read_ic,
    G1Point, ParseError, ParseReason, ParseSubject, U256, BASE_MODULUS,
};

fn strings(items: &[&str]) -> Vec<String> {
    items.iter().map(|s| s.to_string()).collect()
}

#[test]
fn digits() {
    assert_eq!(digit_of_char('0'), Some(0));
    assert_eq!(digit_of_char('9'), Some(9));
    for c in ['/', ':', 'a', ' ', '٣', '９'] {
        assert_eq!(digit_of_char(c), None);
    }
    let mut text = String::from("x");
    for d in 0..10 {
        push_digit(&mut text, d);
    }
    assert_eq!(text, "x0123456789");
}

#[test]
fn limbs_and_decimal_strings() {
    assert_eq!(limbs_to_decimal(&[0, 0, 0, 0]), "0");
    assert_eq!(limbs_to_decimal(&[10, 0, 0, 0]), "10");
    assert_eq!(limbs_to_decimal(&[0, 1, 0, 0]), "18446744073709551616");
    assert_eq!(
        limbs_to_decimal(&[u64::MAX; 4]),
        "115792089237316195423570985008687907853269984665640564039457584007913129639935"
    );
    assert_eq!(parse_decimal_limbs("18446744073709551616"), Ok([0, 1, 0, 0]));
    assert_eq!(parse_decimal_limbs(""), Ok([0, 0, 0, 0]));
    assert_eq!(parse_decimal_limbs("1.5"), Err(FromDecStrErr::InvalidCharacter));
    assert_eq!(
        parse_decimal_limbs(
            "115792089237316195423570985008687907853269984665640564039457584007913129639935"
        ),
        Ok([u64::MAX; 4])
    );
    assert_eq!(
        parse_decimal_limbs(
            "1157920892373161954235709850086879078532699846656405640394575840079131296399350"
        ),
        Err(FromDecStrErr::InvalidLength)
    );
}

#[test]
fn limbs_and_bytes() {
    assert_eq!(word_to_be_bytes(0x0102030405060708), [1, 2, 3, 4, 5, 6, 7, 8]);
    let limbs = [0x1112131415161718, 0x2122232425262728, 0x3132333435363738, 0x4142434445464748];
    let be = limbs_to_be_bytes(&limbs);
    assert_eq!(&be[..8], &[0x41, 0x42, 0x43, 0x44, 0x45, 0x46, 0x47, 0x48]);
    assert_eq!(&be[24..], &[0x11, 0x12, 0x13, 0x14, 0x15, 0x16, 0x17, 0x18]);
    let le = limbs_to_le_bytes(&limbs);
    assert_eq!(&le[..8], &[0x18, 0x17, 0x16, 0x15, 0x14, 0x13, 0x12, 0x11]);
    assert!(le.iter().eq(be.iter().rev()));
    assert_eq!(limbs_from_be_bytes(&be), limbs);
    assert_eq!(limbs_from_be_bytes(&[1, 0, 0, 0, 0, 0, 0, 0, 0]), [0, 1, 0, 0]);
    let joined = concat32(&be, &le);
    assert_eq!(&joined[..32], &be);
    assert_eq!(&joined[32..], &le);
    let twice = concat64(&joined, &joined);
    assert_eq!(&twice[..64], &joined);
    assert_eq!(&twice[64..], &joined);
}

#[test]
fn defaults_are_zero() {
    assert!(Fr::default().is_zero());
    assert_eq!(Fr::default(), Fr::zero());
    assert!(U256::default().is_zero());
    let state = PoseidonState::<3>::new();
    assert!(state.state.iter().all(|x| x.is_zero()));
    let wide = PoseidonState::<5>::new();
    assert_eq!(wide.state.len(), 5);
}

#[test]
fn parameters_are_canonical_field_elements() {
    assert_eq!(C_T3_FR.len(), 195);
    for c in C_T3_FR.iter() {
        assert!(!Fr { limbs: *c }.gte_modulus());
    }
    for row in M_T3_FR.iter() {
        for m in row.iter() {
            assert!(!Fr { limbs: *m }.gte_modulus());
        }
    }
    assert_eq!(
        Fr { limbs: C_T3_FR[0] }.to_string(),
        "6745197990210204598374042828761989596302876299545964402857411729872131034734"
    );
    assert_eq!(
        Fr { limbs: M_T3_FR[0][0] }.to_string(),
        "7511745149465107256748700652201246547602992235352608707588321460060273774987"
    );
    assert_eq!(
        Fr { limbs: M_T3_FR[2][2] }.to_string(),
        "11597556804922396090267472882856054602429588299176362916247939723151043581408"
    );
}

#[test]
fn mixing_is_a_matrix_product() {
    let unit = [Fr::one(), Fr::zero(), Fr::zero()];
    let column = mds_multiply_t3(&unit);
    for i in 0..3 {
        assert_eq!(column[i], Fr { limbs: M_T3_FR[i][0] });
    }
    let state = [Fr::from_u64(2), Fr::from_u64(3), Fr::from_u64(5)];
    let mixed = mds_multiply_t3(&state);
    for i in 0..3 {
        let m = |j: usize| Fr { limbs: M_T3_FR[i][j] };
        let want = state[0].mul(&m(0)).add(&state[1].mul(&m(1))).add(&state[2].mul(&m(2)));
        assert_eq!(mixed[i], want);
    }
    assert_eq!(poseidon_t3(&[Fr::from_u64(1), Fr::from_u64(2)]).to_string().len(), 76);
}

#[test]
fn coordinates_and_labels() {
    assert_eq!(read_coordinate("12"), Some(U256::from(12u64)));
    assert_eq!(read_coordinate("1 2"), None);
    assert!(check_coordinates(&strings(&["1", "2", "3"])));
    assert!(check_coordinates(&[]));
    assert!(!check_coordinates(&strings(&["1", "b"])));
    assert!(check_g2(&[strings(&["1", "2"]), strings(&["3", "4"])]));
    assert!(!check_g2(&[strings(&["1", "2"]), strings(&["3"])]));
    assert!(!check_g2(&[strings(&["1", "2"]), strings(&["3", "4"]), strings(&["x"])]));
    assert!(check_ic(&[strings(&["1", "2"])]));
    assert!(!check_ic(&[]));
    assert!(!check_ic(&[strings(&["1", "2"]), strings(&["1"])]));
    assert!(label_is(&Some("groth16".to_string()), "groth16"));
    assert!(!label_is(&Some("groth16 ".to_string()), "groth16"));
    assert!(!label_is(&None, "groth16"));
    assert_eq!(read_ic(&[]).unwrap().len(), 0);
    assert_eq!(read_ic(&[strings(&["1", "2"]), strings(&["3", "4", "1"])]).unwrap().len(), 2);
    assert_eq!(
        read_ic(&[strings(&["1", "2"]), strings(&["3"])]).unwrap_err(),
        ParseError { which: ParseSubject::IcPoint(1), why: ParseReason::TooFewCoordinates }
    );
}

#[test]
fn points_that_can_be_negated() {
    let q = U256(BASE_MODULUS);
    assert!(is_negatable(&G1Point::zero()));
    assert!(is_negatable(&G1Point { x: U256::from(1u64), y: q }));
    assert!(is_negatable(&G1Point { x: U256::zero(), y: U256::from(7u64) }));
    let above = U256([BASE_MODULUS[0] + 1, BASE_MODULUS[1], BASE_MODULUS[2], BASE_MODULUS[3]]);
    assert!(!is_negatable(&G1Point { x: U256::from(1u64), y: above }));
    assert!(!is_negatable(&G1Point { x: U256::zero(), y: U256([u64::MAX; 4]) }));
}
