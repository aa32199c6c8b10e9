use interlink::multisig::{hex_commitment, hex_sig};
use interlink::text::hex_pairs_cut_char;

#[test]
fn hex_commitment_round_trip() {
    let mut bytes = [0u8; 32];
    for (i, b) in bytes.iter_mut().enumerate() {
        *b = (i as u8).wrapping_mul(37);
    }
    let text = hex_commitment::serialize(&bytes);
    assert_eq!(text.len(), 64);
    assert!(text.starts_with("00254a6f"));
    assert_eq!(hex_commitment::deserialize(&text), Ok(bytes));
}

#[test]
fn hex_commitment_wrong_length() {
    assert_eq!(
        hex_commitment::deserialize("abcd"),
        Err("expected 64-char hex string for 32-byte commitment".to_string())
    );
}

#[test]
fn hex_commitment_invalid_character() {
    let mut text = "00".repeat(32);
    text.replace_range(10..12, "zz");
    assert_eq!(hex_commitment::deserialize(&text), Err("invalid hex character".to_string()));
}

#[test]
fn hex_commitment_accepts_upper_case_and_plus_sign() {
    let text = format!("FF+a{}", "00".repeat(30));
    let bytes = hex_commitment::deserialize(&text).unwrap();
    assert_eq!(bytes[0], 0xff);
    assert_eq!(bytes[1], 0x0a);
    assert_eq!(bytes[2], 0);
}

#[test]
fn hex_signature_round_trip_and_length() {
    let bytes = [0xabu8; 64];
    let text = hex_sig::serialize(&bytes);
    assert_eq!(text, "ab".repeat(64));
    assert_eq!(hex_sig::deserialize(&text), Ok(bytes));
    assert_eq!(
        hex_sig::deserialize(&"ab".repeat(32)),
        Err("expected 128-char hex string for 64-byte signature".to_string())
    );
}

#[test]
fn hex_cut_through_character_is_detected() {
    // "é" is two bytes; placed at an odd offset its pair cuts through it.
    let text = format!("0é{}", "0".repeat(61));
    assert_eq!(text.len(), 64);
    assert!(hex_pairs_cut_char(&text, 32));
    // Aligned on a pair, it is just an invalid pair.
    let aligned = format!("é{}", "0".repeat(62));
    assert!(!hex_pairs_cut_char(&aligned, 32));
    assert_eq!(hex_commitment::deserialize(&aligned), Err("invalid hex character".to_string()));
}
