use near_groth16_verifier::groth16::HostCall;
use near_groth16_verifier::near_layout::{
    from_near_point, to_near, to_near_multiexp, to_near_pairing, to_near_sum,
};

/// The bytes `first`, `first + 1`, ... of the given count.
fn run(first: u8, count: usize) -> Vec<u8> {
    (0..count).map(|i| first.wrapping_add(i as u8)).collect()
}

fn reversed(bytes: &[u8]) -> Vec<u8> {
    bytes.iter().rev().copied().collect()
}

#[test]
fn a_multiexp_pair_becomes_point_then_scalar() {
    let scalar = run(1, 32);
    let x = run(50, 32);
    let y = run(100, 32);
    let input = [scalar.clone(), x.clone(), y.clone()].concat();
    let want = [reversed(&x), reversed(&y), scalar].concat();
    assert_eq!(to_near_multiexp(&input), want);
    assert_eq!(to_near(&HostCall::G1Multiexp(input.clone())), want);
    let twice = [input.clone(), input].concat();
    assert_eq!(to_near_multiexp(&twice), [want.clone(), want].concat());
    assert_eq!(to_near_multiexp(&[]), Vec::<u8>::new());
}

#[test]
fn a_sum_point_gets_a_sign_byte() {
    let x = run(1, 32);
    let y = run(100, 32);
    let p = [x.clone(), y.clone()].concat();
    let q = [y.clone(), x.clone()].concat();
    let want = [vec![0], reversed(&x), reversed(&y), vec![0], reversed(&y), reversed(&x)].concat();
    assert_eq!(to_near_sum(&[p.clone(), q.clone()].concat()), want);
    assert_eq!(to_near(&HostCall::G1Sum([p, q].concat())), want);
}

#[test]
fn a_pairing_pair_puts_real_parts_first() {
    let parts: Vec<Vec<u8>> = (0..6).map(|i| run(40 * i as u8, 32)).collect();
    // x, y, then x.c1, x.c0, y.c1, y.c0
    let input = parts.concat();
    let want = [
        reversed(&parts[0]),
        reversed(&parts[1]),
        reversed(&parts[3]),
        reversed(&parts[2]),
        reversed(&parts[5]),
        reversed(&parts[4]),
    ]
    .concat();
    assert_eq!(to_near_pairing(&input), want);
    assert_eq!(to_near(&HostCall::PairingCheck(input.clone())), want);
    let four = [input.clone(), input.clone(), input.clone(), input].concat();
    let converted = to_near_pairing(&four);
    assert_eq!(converted.len(), 768);
    assert_eq!(&converted[576..], &want[..]);
}

#[test]
fn bytes_that_fill_no_element_stay() {
    let odd = run(7, 100);
    let converted = to_near_multiexp(&odd);
    assert_eq!(converted.len(), 100);
    assert_eq!(&converted[96..], &odd[96..]);
    assert_eq!(to_near_sum(&run(3, 63)), run(3, 63));
    assert_eq!(to_near_sum(&run(3, 65)).len(), 66);
    assert_eq!(to_near_pairing(&run(3, 191)), run(3, 191));
}

#[test]
fn a_point_comes_back_big_endian() {
    let x = run(1, 32);
    let y = run(100, 32);
    let reply = [reversed(&x), reversed(&y)].concat();
    assert_eq!(from_near_point(&reply), [x, y].concat());
    assert_eq!(from_near_point(&from_near_point(&reply)), reply);
    assert_eq!(from_near_point(&run(0, 63)), run(0, 63));
    assert_eq!(from_near_point(&[]), Vec::<u8>::new());
}
