//! The curve of the precompiles.

use revm::precompile::bn254::{
    add_points, encode_g1_point, g1_point_add, g1_point_mul, multiply_point, pairing_check,
    read_g1_point, read_g2_point, read_scalar, PrecompileError,
};

fn bytes(hex: &str) -> Vec<u8> {
    (0..hex.len() / 2)
        .map(|i| u8::from_str_radix(&hex[2 * i..2 * i + 2], 16).unwrap())
        .collect()
}

fn word(n: u8) -> Vec<u8> {
    let mut w = vec![0u8; 32];
    w[31] = n;
    w
}

fn generator() -> Vec<u8> {
    [word(1), word(2)].concat()
}

fn minus_generator() -> Vec<u8> {
    [
        word(1),
        bytes("30644e72e131a029b85045b68181585d97816a916871ca8d3c208c16d87cfd45"),
    ]
    .concat()
}

fn doubled() -> Vec<u8> {
    [
        bytes("030644e72e131a029b85045b68181585d97816a916871ca8d3c208c16d87cfd3"),
        bytes("15ed738c0e0a7c92e7845f96b2ae9c0a68a6a449e3538fc7ff3ebf7a5a18a2c4"),
    ]
    .concat()
}

fn g2_generator() -> Vec<u8> {
    [
        bytes("198e9393920d483a7260bfb731fb5d25f1aa493335a9e71297e485b7aef312c2"),
        bytes("1800deef121f1e76426a00665e5c4479674322d4f75edadd46debd5cd992f6ed"),
        bytes("090689d0585ff075ec9e99ad690c3395bc4b313370b38ef355acdadcd122975b"),
        bytes("12c85ea5db8c6deb4aab71808dcb408fe3d1e7690c43d37b4ce6cc0166fa7daa"),
    ]
    .concat()
}

#[test]
fn points_are_added() {
    let g = generator();
    let zero = vec![0u8; 64];
    assert_eq!(g1_point_add(&g, &g), Ok(doubled()));
    assert_eq!(g1_point_add(&g, &zero), Ok(g.clone()));
    assert_eq!(g1_point_add(&zero, &g), Ok(g.clone()));
    assert_eq!(g1_point_add(&zero, &zero), Ok(zero.clone()));
    assert_eq!(g1_point_add(&g, &minus_generator()), Ok(zero.clone()));
    assert_eq!(add_points(Some(g.clone()), None), Some(g));
}

#[test]
fn points_are_multiplied() {
    let g = generator();
    let zero = vec![0u8; 64];
    assert_eq!(g1_point_mul(&g, &word(2)), Ok(doubled()));
    assert_eq!(g1_point_mul(&g, &word(1)), Ok(g.clone()));
    assert_eq!(g1_point_mul(&g, &word(0)), Ok(zero.clone()));
    assert_eq!(g1_point_mul(&zero, &word(5)), Ok(zero.clone()));
    // The order of the group is zero as a scalar, and one more is one.
    let order = bytes("30644e72e131a029b85045b68181585d2833e84879b9709143e1f593f0000001");
    assert_eq!(g1_point_mul(&g, &order), Ok(zero));
    let mut more = order;
    more[31] = 2;
    assert_eq!(g1_point_mul(&g, &more), Ok(g.clone()));
    assert_eq!(read_scalar(&more), word(1));
    let top = vec![0xff; 32];
    let reduced = bytes("0e0a77c19a07df2f666ea36f7879462e36fc76959f60cd29ac96341c4ffffffa");
    assert_eq!(read_scalar(&top), reduced);
    assert_eq!(g1_point_mul(&g, &top), g1_point_mul(&g, &reduced));
    assert_eq!(multiply_point(Some(g.clone()), &word(1)), Some(g));
}

#[test]
fn bad_points_are_refused() {
    let modulus = bytes("30644e72e131a029b85045b68181585d97816a916871ca8d3c208c16d87cfd47");
    let outside = [modulus, word(2)].concat();
    assert_eq!(
        g1_point_add(&outside, &generator()),
        Err(PrecompileError::Bn254FieldPointNotAMember)
    );
    let off_curve = [word(1), word(3)].concat();
    assert_eq!(
        g1_point_mul(&off_curve, &word(1)),
        Err(PrecompileError::Bn254AffineGFailedToCreate)
    );
    let mut off_twist = g2_generator();
    off_twist[127] ^= 1;
    assert_eq!(
        read_g2_point(&off_twist),
        Err(PrecompileError::Bn254AffineGFailedToCreate)
    );
    assert_eq!(
        pairing_check(&[(&outside, &g2_generator())]),
        Err(PrecompileError::Bn254FieldPointNotAMember)
    );
}

#[test]
fn points_are_spelled_as_they_were_read() {
    let g = generator();
    assert_eq!(encode_g1_point(read_g1_point(&g).unwrap()), g);
    let zero = vec![0u8; 64];
    assert_eq!(read_g1_point(&zero), Ok(None));
    assert_eq!(encode_g1_point(None), zero);
    assert_eq!(read_g2_point(&vec![0u8; 128]), Ok(None));
    assert_eq!(read_g2_point(&g2_generator()), Ok(Some(g2_generator())));
}

#[test]
fn pairings_are_checked() {
    let g = generator();
    let minus = minus_generator();
    let h = g2_generator();
    let zero = vec![0u8; 64];
    assert_eq!(pairing_check(&[]), Ok(true));
    assert_eq!(pairing_check(&[(&zero, &h)]), Ok(true));
    assert_eq!(pairing_check(&[(&g, &h)]), Ok(false));
    assert_eq!(pairing_check(&[(&g, &h), (&minus, &h)]), Ok(true));
    assert_eq!(pairing_check(&[(&g, &h), (&zero, &h), (&minus, &h)]), Ok(true));
    let twice = doubled();
    assert_eq!(
        pairing_check(&[(&twice, &h), (&minus, &h), (&minus, &h)]),
        Ok(true)
    );
}

#[test]
fn points_that_change_places_have_the_same_sum() {
    let (g, d) = (generator(), doubled());
    let tripled = g1_point_mul(&g, &word(3)).unwrap();
    assert_eq!(g1_point_add(&g, &d), Ok(tripled.clone()));
    assert_eq!(g1_point_add(&d, &g), Ok(tripled.clone()));
    assert_eq!(
        add_points(Some(tripled.clone()), Some(d.clone())),
        add_points(Some(d), Some(tripled))
    );
}
