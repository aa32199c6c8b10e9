//! Hexadecimal text of a 32-byte commitment, as it is written in JSON.
use vstd::prelude::*;
use vstd::string::StringSliceAdditionalSpecFns;
use crate::text::{decode_hex_pairs, hex_chars, hex_pairs_decoded, hex_pairs_split_char, hex_pairs_valid, hex_prefix};

verus! {

/// The commitment as lower-case hexadecimal text.
pub fn serialize(bytes: &[u8; 32]) -> (r: String)
    ensures
        r@ == hex_chars(bytes@),
{
    let r = hex_prefix(bytes, 32);
    assert(bytes@.take(32) =~= bytes@);
    r
}

/// The commitment that hexadecimal text spells: 64 characters, two per byte,
/// each pair two digits of either case or a `+` and one digit.
pub fn deserialize(hex: &str) -> (r: Result<[u8; 32], String>)
    requires
        hex.spec_bytes().len() == 64 ==> !hex_pairs_split_char(hex.spec_bytes(), 32),
    ensures
        hex.spec_bytes().len() != 64 ==> (r matches Err(e) && e@ == "expected 64-char hex string for 32-byte commitment"@),
        hex.spec_bytes().len() == 64 && !hex_pairs_valid(hex.spec_bytes(), 32) ==> (r matches Err(e)
            && e@ == "invalid hex character"@),
        hex.spec_bytes().len() == 64 && hex_pairs_valid(hex.spec_bytes(), 32) ==> (r matches Ok(a)
            && a@ == hex_pairs_decoded(hex.spec_bytes(), 32)),
{
    let b = hex.as_bytes();
    if b.len() != 64 {
        return Err("expected 64-char hex string for 32-byte commitment".to_owned());
    }
    match decode_hex_pairs(b, 32) {
        None => Err("invalid hex character".to_owned()),
        Some(v) => {
            let mut out = [0u8; 32];
            let mut i: usize = 0;
            while i < 32
                invariant
                    i <= 32,
                    v@.len() == 32,
                    out@.len() == 32,
                    forall|k: int| 0 <= k < i ==> out@[k] == v@[k],
                decreases 32 - i,
            {
                out.set(i, v[i]);
                i = i + 1;
            }
            assert(out@ =~= v@);
            Ok(out)
        },
    }
}

} // verus!
