use interlink::sha256::{sha2_256, sha256_hash};
use sha2::{Digest, Sha256};

fn reference(data: &[u8]) -> [u8; 32] {
    Sha256::digest(data).into()
}

#[test]
fn sha256_of_empty_input() {
    let expected = [
        0xe3, 0xb0, 0xc4, 0x42, 0x98, 0xfc, 0x1c, 0x14, 0x9a, 0xfb, 0xf4, 0xc8, 0x99, 0x6f, 0xb9, 0x24, 0x27,
        0xae, 0x41, 0xe4, 0x64, 0x9b, 0x93, 0x4c, 0xa4, 0x95, 0x99, 0x1b, 0x78, 0x52, 0xb8, 0x55,
    ];
    assert_eq!(sha2_256(&[]), expected);
}

#[test]
fn sha256_of_abc() {
    let d = sha2_256(b"abc");
    assert_eq!(d[0..4], [0xba, 0x78, 0x16, 0xbf]);
    assert_eq!(d, reference(b"abc"));
}

#[test]
fn sha256_matches_reference_across_block_boundaries() {
    for len in [1usize, 54, 55, 56, 57, 63, 64, 65, 119, 120, 127, 128, 129, 1000] {
        let data: Vec<u8> = (0..len).map(|i| (i * 31 + 7) as u8).collect();
        assert_eq!(sha2_256(&data), reference(&data), "length {len}");
    }
}

#[test]
fn sha256_hash_is_the_digest_as_a_vector() {
    assert_eq!(sha256_hash(b"interlink"), reference(b"interlink").to_vec());
}
