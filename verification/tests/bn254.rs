use interlink::bn254::{
    compute_commitment_on_chain, field_add, field_mul, field_sub_modulus, ge_scalar_field,
    negate_g1, reduce_mod_scalar_field, BN254_BASE_FIELD, BN254_SCALAR_FIELD,
};

fn small(v: u64) -> [u8; 32] {
    let mut out = [0u8; 32];
    out[24..32].copy_from_slice(&v.to_be_bytes());
    out
}

fn modulus_minus(k: u8) -> [u8; 32] {
    let mut out = BN254_SCALAR_FIELD;
    out[31] -= k;
    out
}

fn from_hex(h: &str) -> [u8; 32] {
    let mut out = [0u8; 32];
    for i in 0..32 {
        out[i] = u8::from_str_radix(&h[2 * i..2 * i + 2], 16).unwrap();
    }
    out
}

#[test]
fn bn254_mul_small_values() {
    assert_eq!(field_mul(&small(6), &small(7)), small(42));
    assert_eq!(field_mul(&small(0), &modulus_minus(1)), small(0));
}

#[test]
fn bn254_minus_one_squared_is_one() {
    let m1 = modulus_minus(1);
    assert_eq!(field_mul(&m1, &m1), small(1));
}

#[test]
fn bn254_add_wraps_at_modulus() {
    assert_eq!(field_add(&modulus_minus(1), &small(1)), small(0));
    assert_eq!(field_add(&modulus_minus(1), &small(5)), small(4));
    assert_eq!(field_add(&small(2), &small(3)), small(5));
}

#[test]
fn bn254_compare_and_subtract_modulus() {
    assert!(ge_scalar_field(&BN254_SCALAR_FIELD));
    assert!(!ge_scalar_field(&modulus_minus(1)));
    let mut above = BN254_SCALAR_FIELD;
    above[31] += 9;
    assert!(ge_scalar_field(&above));
    assert_eq!(field_sub_modulus(&above), small(9));
    // Below the modulus the subtraction wraps modulo 2^256.
    let wrapped = field_sub_modulus(&small(0));
    // 2^256 - r plus r carries out, and the carry is reduced by wrapping again.
    assert_eq!(field_add(&wrapped, &BN254_SCALAR_FIELD), wrapped);
}

#[test]
fn bn254_reduce_stops_after_four_subtractions() {
    assert_eq!(reduce_mod_scalar_field(&small(17)), small(17));
    let mut above = BN254_SCALAR_FIELD;
    above[31] += 3;
    assert_eq!(reduce_mod_scalar_field(&above), small(3));
    let all_ones = [0xffu8; 32];
    assert_eq!(
        reduce_mod_scalar_field(&all_ones),
        from_hex("3e6ec6347b397f591ebee925f9fa9e8b5f305ede191a3dbaf07829b03ffffffb")
    );
}

#[test]
fn bn254_negate_g1_flips_y() {
    let mut point = [0u8; 64];
    point[0] = 0xab;
    point[63] = 5;
    let neg = negate_g1(&point);
    assert_eq!(neg[0], 0xab);
    assert_eq!(&neg[32..64], &from_hex("30644e72e131a029b85045b68181585d97816a916871ca8d3c208c16d87cfd42")[..]);
    let mut y_is_p = [0u8; 64];
    y_is_p[32..64].copy_from_slice(&BN254_BASE_FIELD);
    assert_eq!(&negate_g1(&y_is_p)[32..64], &[0u8; 32][..]);
}

#[test]
fn bn254_commitment_moves_with_sequence() {
    let payload = [7u8; 32];
    let c0 = compute_commitment_on_chain(&payload, 41);
    let c1 = compute_commitment_on_chain(&payload, 42);
    assert_ne!(c0, c1);
    assert_eq!(field_add(&c0, &small(1)), c1);
    assert!(!ge_scalar_field(&c1));
}
