//! Hexadecimal text of a 64-byte signature, as it is written in JSON.
use vstd::prelude::*;
use vstd::string::StringSliceAdditionalSpecFns;
use crate::text::{decode_hex_pairs, hex_chars, hex_pairs_decoded, hex_pairs_split_char, hex_pairs_valid, hex_prefix};

verus! {

/// The signature as lower-case hexadecimal text.
pub fn serialize(bytes: &[u8; 64]) -> (r: String)
    ensures
        r@ == hex_chars(bytes@),
{
    let r = hex_prefix(bytes, 64);
    assert(bytes@.take(64) =~= bytes@);
    r
}

/// The signature that hexadecimal text spells: 128 characters, two per byte,
/// each pair two digits of either case or a `+` and one digit.
pub fn deserialize(hex: &str) -> (r: Result<[u8; 64], String>)
    requires
        hex.spec_bytes().len() == 128 ==> !hex_pairs_split_char(hex.spec_bytes(), 64),
    ensures
        hex.spec_bytes().len() != 128 ==> (r matches Err(e) && e@ == "expected 128-char hex string for 64-byte signature"@),
        hex.spec_bytes().len() == 128 && !hex_pairs_valid(hex.spec_bytes(), 64) ==> (r matches Err(e)
            && e@ == "invalid hex character"@),
        hex.spec_bytes().len() == 128 && hex_pairs_valid(hex.spec_bytes(), 64) ==> (r matches Ok(a)
            && a@ == hex_pairs_decoded(hex.spec_bytes(), 64)),
{
    let b = hex.as_bytes();
    if b.len() != 128 {
        return Err("expected 128-char hex string for 64-byte signature".to_owned());
    }
    match decode_hex_pairs(b, 64) {
        None => Err("invalid hex character".to_owned()),
        Some(v) => {
            let mut out = [0u8; 64];
            let mut i: usize = 0;
            while i < 64
                invariant
                    i <= 64,
                    v@.len() == 64,
                    out@.len() == 64,
                    forall|k: int| 0 <= k < i ==> out@[k] == v@[k],
                decreases 64 - i,
            {
                out.set(i, v[i]);
                i = i + 1;
            }
            assert(out@ =~= v@);
            Ok(out)
        },
    }
}

} // verus!
