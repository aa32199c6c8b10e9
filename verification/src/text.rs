//! Text helpers: decimal rendering of integers and string building.
use vstd::prelude::*;
use vstd::string::{StrSliceExecFns, StringExecFns, StringSliceAdditionalSpecFns};

verus! {

/// The ASCII digit for `d` (`'9'` for anything above 8).
pub open spec fn digit_char(d: int) -> char {
    if d == 0 {
        '0'
    } else if d == 1 {
        '1'
    } else if d == 2 {
        '2'
    } else if d == 3 {
        '3'
    } else if d == 4 {
        '4'
    } else if d == 5 {
        '5'
    } else if d == 6 {
        '6'
    } else if d == 7 {
        '7'
    } else if d == 8 {
        '8'
    } else {
        '9'
    }
}

/// Decimal rendering of `n`, without leading zeros.
pub open spec fn dec_chars(n: nat) -> Seq<char>
    decreases n,
{
    if n < 10 {
        seq![digit_char(n as int)]
    } else {
        dec_chars(n / 10).push(digit_char((n % 10) as int))
    }
}

fn digit_str(d: u64) -> (r: &'static str)
    requires
        d < 10,
    ensures
        r@ == seq![digit_char(d as int)],
{
    proof {
        reveal_strlit("0");
        reveal_strlit("1");
        reveal_strlit("2");
        reveal_strlit("3");
        reveal_strlit("4");
        reveal_strlit("5");
        reveal_strlit("6");
        reveal_strlit("7");
        reveal_strlit("8");
        reveal_strlit("9");
    }
    if d == 0 {
        "0"
    } else if d == 1 {
        "1"
    } else if d == 2 {
        "2"
    } else if d == 3 {
        "3"
    } else if d == 4 {
        "4"
    } else if d == 5 {
        "5"
    } else if d == 6 {
        "6"
    } else if d == 7 {
        "7"
    } else if d == 8 {
        "8"
    } else {
        "9"
    }
}

/// Decimal rendering of `n` as a `String`.
pub fn decimal(n: u64) -> (r: String)
    ensures
        r@ == dec_chars(n as nat),
    decreases n,
{
    if n < 10 {
        digit_str(n).to_owned()
    } else {
        let mut s = decimal(n / 10);
        s.append(digit_str(n % 10));
        s
    }
}

/// Decimal rendering of a `u128` as a `String`.
pub fn decimal_u128(n: u128) -> (r: String)
    ensures
        r@ == dec_chars(n as nat),
    decreases n,
{
    if n < 10 {
        digit_str(n as u64).to_owned()
    } else {
        let mut s = decimal_u128(n / 10);
        s.append(digit_str((n % 10) as u64));
        s
    }
}

/// `prefix` followed by the decimal rendering of `n`.
pub fn prefixed_decimal(prefix: &str, n: u64) -> (r: String)
    ensures
        r@ == prefix@ + dec_chars(n as nat),
{
    let mut s = prefix.to_owned();
    let d = decimal(n);
    s.append(d.as_str());
    s
}

proof fn lemma_digit_char_injective(a: int, b: int)
    requires
        0 <= a < 10,
        0 <= b < 10,
        digit_char(a) == digit_char(b),
    ensures
        a == b,
{
}

proof fn lemma_dec_len(n: nat)
    ensures
        dec_chars(n).len() >= 1,
        n >= 10 ==> dec_chars(n).len() >= 2,
        n < 10 ==> dec_chars(n).len() == 1,
    decreases n,
{
    if n >= 10 {
        lemma_dec_len(n / 10);
    }
}

/// Distinct numbers have distinct decimal renderings.
pub proof fn lemma_dec_injective(a: nat, b: nat)
    requires
        dec_chars(a) == dec_chars(b),
    ensures
        a == b,
    decreases a,
{
    lemma_dec_len(a);
    lemma_dec_len(b);
    if a < 10 && b < 10 {
        assert(dec_chars(a)[0] == digit_char(a as int));
        assert(dec_chars(b)[0] == digit_char(b as int));
        assert(dec_chars(a)[0] == dec_chars(b)[0]);
        lemma_digit_char_injective(a as int, b as int);
    } else if a >= 10 && b >= 10 {
        let da = dec_chars(a);
        let db = dec_chars(b);
        assert(da.last() == db.last());
        lemma_digit_char_injective((a % 10) as int, (b % 10) as int);
        assert(da.drop_last() =~= dec_chars(a / 10));
        assert(db.drop_last() =~= dec_chars(b / 10));
        assert(dec_chars(a / 10) =~= dec_chars(b / 10));
        lemma_dec_injective(a / 10, b / 10);
    }
}

/// Equal prefixed renderings come from equal numbers.
pub proof fn lemma_prefixed_injective(prefix: Seq<char>, a: nat, b: nat)
    requires
        prefix + dec_chars(a) == prefix + dec_chars(b),
    ensures
        a == b,
{
    let sa = prefix + dec_chars(a);
    let sb = prefix + dec_chars(b);
    assert(sa.subrange(prefix.len() as int, sa.len() as int) =~= dec_chars(a));
    assert(sb.subrange(prefix.len() as int, sb.len() as int) =~= dec_chars(b));
    lemma_dec_injective(a, b);
}

/// The lower-case hexadecimal digit for `d` (`'f'` for anything above 14).
pub open spec fn hex_char(d: int) -> char {
    if d < 10 {
        digit_char(d)
    } else if d == 10 {
        'a'
    } else if d == 11 {
        'b'
    } else if d == 12 {
        'c'
    } else if d == 13 {
        'd'
    } else if d == 14 {
        'e'
    } else {
        'f'
    }
}

/// Lower-case hexadecimal rendering of bytes, two digits per byte.
pub open spec fn hex_chars(b: Seq<u8>) -> Seq<char>
    decreases b.len(),
{
    if b.len() == 0 {
        Seq::empty()
    } else {
        hex_chars(b.drop_last()) + seq![hex_char((b.last() / 16) as int), hex_char((b.last() % 16) as int)]
    }
}

fn hex_digit_str(d: u8) -> (r: &'static str)
    requires
        d < 16,
    ensures
        r@ == seq![hex_char(d as int)],
{
    proof {
        reveal_strlit("a");
        reveal_strlit("b");
        reveal_strlit("c");
        reveal_strlit("d");
        reveal_strlit("e");
        reveal_strlit("f");
    }
    if d < 10 {
        digit_str(d as u64)
    } else if d == 10 {
        "a"
    } else if d == 11 {
        "b"
    } else if d == 12 {
        "c"
    } else if d == 13 {
        "d"
    } else if d == 14 {
        "e"
    } else {
        "f"
    }
}

/// Lower-case hexadecimal rendering of the first `n` bytes of `b`.
pub fn hex_prefix(b: &[u8], n: usize) -> (r: String)
    requires
        n <= b@.len(),
    ensures
        r@ == hex_chars(b@.take(n as int)),
{
    let mut s = String::new();
    let mut i: usize = 0;
    while i < n
        invariant
            0 <= i <= n,
            n <= b@.len(),
            s@ == hex_chars(b@.take(i as int)),
        decreases n - i,
    {
        let byte = b[i];
        s.append(hex_digit_str(byte / 16));
        s.append(hex_digit_str(byte % 16));
        assert(b@.take(i + 1).drop_last() =~= b@.take(i as int));
        assert(s@ =~= hex_chars(b@.take(i + 1)));
        i = i + 1;
    }
    s
}

/// Value of an ASCII hexadecimal digit, either case.
pub open spec fn hex_digit_value(c: u8) -> Option<u8> {
    if 48 <= c <= 57 {
        Some((c - 48) as u8)
    } else if 97 <= c <= 102 {
        Some((c - 87) as u8)
    } else if 65 <= c <= 70 {
        Some((c - 55) as u8)
    } else {
        None
    }
}

/// The byte that the two characters at `2k` and `2k + 1` spell as a
/// base-16 number: two digits, or a `+` sign and one digit.
pub open spec fn hex_pair_value(b: Seq<u8>, k: int) -> Option<u8> {
    let c0 = b[2 * k];
    let c1 = b[2 * k + 1];
    if c0 == 43 {
        hex_digit_value(c1)
    } else {
        match (hex_digit_value(c0), hex_digit_value(c1)) {
            (Some(d0), Some(d1)) => Some((16 * d0 + d1) as u8),
            _ => None,
        }
    }
}

/// The first `n` pairs of `b` each spell a byte.
pub open spec fn hex_pairs_valid(b: Seq<u8>, n: int) -> bool {
    forall|k: int| 0 <= k < n ==> (#[trigger] hex_pair_value(b, k)) is Some
}

/// The bytes the first `n` pairs spell.
pub open spec fn hex_pairs_decoded(b: Seq<u8>, n: int) -> Seq<u8> {
    Seq::new(n as nat, |k: int| hex_pair_value(b, k)->Some_0)
}

/// Pair `k` of `b` starts and ends on a character boundary.
pub open spec fn pair_on_boundaries(b: Seq<u8>, k: int) -> bool {
    vstd::utf8::is_char_boundary(b, 2 * k) && vstd::utf8::is_char_boundary(b, 2 * k + 2)
}

/// Cutting the text into its first `n` pairs, up to the first pair that
/// spells no byte, would cut through a character.
pub open spec fn hex_pairs_split_char(b: Seq<u8>, n: int) -> bool {
    exists|i: int| 0 <= i < n && hex_pairs_valid(b, i) && !#[trigger] pair_on_boundaries(b, i)
}

fn hex_digit_exec(c: u8) -> (r: Option<u8>)
    ensures
        r == hex_digit_value(c),
{
    if 48 <= c && c <= 57 {
        Some(c - 48)
    } else if 97 <= c && c <= 102 {
        Some(c - 87)
    } else if 65 <= c && c <= 70 {
        Some(c - 55)
    } else {
        None
    }
}

/// Decode the first `n` pairs of characters of `b` as bytes, or `None` at
/// the first pair that spells no byte.
pub fn decode_hex_pairs(b: &[u8], n: usize) -> (r: Option<Vec<u8>>)
    requires
        2 * n <= b@.len(),
    ensures
        r is Some <==> hex_pairs_valid(b@, n as int),
        r matches Some(v) ==> v@ == hex_pairs_decoded(b@, n as int),
{
    let mut out: Vec<u8> = Vec::new();
    let mut i: usize = 0;
    while i < n
        invariant
            i <= n,
            2 * n <= b@.len(),
            hex_pairs_valid(b@, i as int),
            out@ == hex_pairs_decoded(b@, i as int),
        decreases n - i,
    {
        let c0 = b[2 * i];
        let c1 = b[2 * i + 1];
        let v = if c0 == 43 {
            hex_digit_exec(c1)
        } else {
            match (hex_digit_exec(c0), hex_digit_exec(c1)) {
                (Some(d0), Some(d1)) => Some(16 * d0 + d1),
                _ => None,
            }
        };
        assert(v == hex_pair_value(b@, i as int));
        match v {
            Some(x) => {
                out.push(x);
            },
            None => {
                return None;
            },
        }
        i = i + 1;
        assert(out@ =~= hex_pairs_decoded(b@, i as int));
    }
    Some(out)
}

/// Whether cutting `hex` into its first `n` pairs of bytes, up to the first
/// pair that spells no byte, cuts through a character.
pub fn hex_pairs_cut_char(hex: &str, n: usize) -> (r: bool)
    requires
        2 * n <= hex.spec_bytes().len(),
    ensures
        r == hex_pairs_split_char(hex.spec_bytes(), n as int),
{
    let b = hex.as_bytes();
    let len = b.len();
    let mut i: usize = 0;
    while i < n
        invariant
            i <= n,
            b@ == hex.spec_bytes(),
            len == b@.len(),
            2 * n <= len,
            hex_pairs_valid(b@, i as int),
            forall|k: int| 0 <= k < i ==> #[trigger] pair_on_boundaries(b@, k),
        decreases n - i,
    {
        if !(hex.is_char_boundary(2 * i) && hex.is_char_boundary(2 * i + 2)) {
            assert(!pair_on_boundaries(b@, i as int));
            return true;
        }
        assert(pair_on_boundaries(b@, i as int));
        let c0 = b[2 * i];
        let c1 = b[2 * i + 1];
        let v = if c0 == 43 {
            hex_digit_exec(c1)
        } else {
            match (hex_digit_exec(c0), hex_digit_exec(c1)) {
                (Some(d0), Some(d1)) => Some(16 * d0 + d1),
                _ => None,
            }
        };
        assert(v == hex_pair_value(b@, i as int));
        if v.is_none() {
            assert(!hex_pairs_split_char(b@, n as int)) by {
                assert forall|j: int| 0 <= j < n && hex_pairs_valid(b@, j) implies #[trigger] pair_on_boundaries(
                    b@,
                    j,
                ) by {
                    if j > i {
                        assert(hex_pair_value(b@, i as int) is Some);
                    }
                }
            }
            return false;
        }
        i = i + 1;
    }
    false
}

proof fn lemma_hex_chars_shape(b: Seq<u8>)
    ensures
        hex_chars(b).len() == 2 * b.len(),
        forall|k: int|
            0 <= k < b.len() ==> hex_chars(b)[2 * k] == hex_char((b[k] / 16) as int) && hex_chars(b)[2 * k + 1]
                == hex_char((b[k] % 16) as int),
    decreases b.len(),
{
    if b.len() > 0 {
        let p = b.drop_last();
        lemma_hex_chars_shape(p);
        assert forall|k: int| 0 <= k < b.len() implies hex_chars(b)[2 * k] == hex_char((b[k] / 16) as int)
            && hex_chars(b)[2 * k + 1] == hex_char((b[k] % 16) as int) by {
            if k < p.len() {
                assert(b[k] == p[k]);
            }
        }
    }
}

proof fn lemma_hex_char_value(d: int)
    requires
        0 <= d < 16,
    ensures
        (hex_char(d) as u8) != 43,
        hex_char(d) <= '\u{7f}',
        hex_digit_value(hex_char(d) as u8) == Some(d as u8),
{
    if d == 0 { assert(hex_char(d) == '0'); }
    else if d == 1 { assert(hex_char(d) == '1'); }
    else if d == 2 { assert(hex_char(d) == '2'); }
    else if d == 3 { assert(hex_char(d) == '3'); }
    else if d == 4 { assert(hex_char(d) == '4'); }
    else if d == 5 { assert(hex_char(d) == '5'); }
    else if d == 6 { assert(hex_char(d) == '6'); }
    else if d == 7 { assert(hex_char(d) == '7'); }
    else if d == 8 { assert(hex_char(d) == '8'); }
    else if d == 9 { assert(hex_char(d) == '9'); }
    else if d == 10 { assert(hex_char(d) == 'a'); }
    else if d == 11 { assert(hex_char(d) == 'b'); }
    else if d == 12 { assert(hex_char(d) == 'c'); }
    else if d == 13 { assert(hex_char(d) == 'd'); }
    else if d == 14 { assert(hex_char(d) == 'e'); }
    else { assert(hex_char(d) == 'f'); }
}

/// Hexadecimal text decodes back to the bytes it was written for: the
/// UTF-8 bytes of `hex_chars(b)` are two per byte, every pair spells a
/// byte, and the pairs spell `b`.
pub proof fn law_hex_roundtrip(b: Seq<u8>)
    ensures
        vstd::utf8::encode_utf8(hex_chars(b)).len() == 2 * b.len(),
        hex_pairs_valid(vstd::utf8::encode_utf8(hex_chars(b)), b.len() as int),
        hex_pairs_decoded(vstd::utf8::encode_utf8(hex_chars(b)), b.len() as int) == b,
{
    let cs = hex_chars(b);
    lemma_hex_chars_shape(b);
    assert forall|i: int| 0 <= i < cs.len() implies '\0' <= #[trigger] cs[i] <= '\u{7f}' by {
        let k = i / 2;
        assert(0 <= k < b.len());
        lemma_hex_char_value((b[k] / 16) as int);
        lemma_hex_char_value((b[k] % 16) as int);
        if i % 2 == 0 {
            assert(i == 2 * k);
        } else {
            assert(i == 2 * k + 1);
        }
    }
    assert(vstd::utf8::is_ascii_chars(cs));
    vstd::utf8::is_ascii_chars_encode_utf8(cs);
    let bytes = vstd::utf8::encode_utf8(cs);
    assert forall|k: int| 0 <= k < b.len() implies (#[trigger] hex_pair_value(bytes, k)) == Some(b[k]) by {
        let hi = (b[k] / 16) as int;
        let lo = (b[k] % 16) as int;
        lemma_hex_char_value(hi);
        lemma_hex_char_value(lo);
        assert(bytes[2 * k] == cs[2 * k] as u8);
        assert(bytes[2 * k + 1] == cs[2 * k + 1] as u8);
    }
    assert(hex_pairs_decoded(bytes, b.len() as int) =~= b);
}

/// The `Debug` text of a string: quoted, with escapes (`{:?}`).
pub uninterp spec fn str_debug_spec(s: Seq<char>) -> Seq<char>;

/// Wraps `format!("{:?}", s)` for a `&str`: the quoted, escaped text, named
/// `str_debug_spec` (it depends on the characters alone).
#[verifier::external_body]
pub(crate) fn str_debug(s: &str) -> (r: String)
    ensures
        r@ == str_debug_spec(s@),
{
    format!("{:?}", s)
}

/// `prefix`, `mid` and `suffix` one after another.
pub fn concat3(prefix: &str, mid: &str, suffix: &str) -> (r: String)
    ensures
        r@ == prefix@ + mid@ + suffix@,
{
    let mut t = prefix.to_owned();
    t.append(mid);
    t.append(suffix);
    t
}

/// Two decimal digits of `n` (below 100), with a leading zero.
pub open spec fn two_digits(n: nat) -> Seq<char> {
    seq![digit_char((n / 10) as int), digit_char((n % 10) as int)]
}

/// An amount of cents as dollars: a dollar sign, whole dollars, a point and
/// two digits of cents, then `extra` zeros.
pub open spec fn usd_text(cents: nat, extra: nat) -> Seq<char> {
    "$"@ + dec_chars(cents / 100) + "."@ + two_digits(cents % 100) + Seq::new(extra, |i: int| '0')
}

/// Render an amount of cents as dollars with two decimals (and `extra`
/// trailing zeros for more decimals).
pub fn usd_string(cents: u64, extra: usize) -> (r: String)
    requires
        extra <= 8,
    ensures
        r@ == usd_text(cents as nat, extra as nat),
{
    let mut s = prefixed_decimal("$", cents / 100);
    s.append(".");
    let c = cents % 100;
    s.append(digit_str(c / 10));
    s.append(digit_str(c % 10));
    let mut i: usize = 0;
    let ghost base = s@;
    while i < extra
        invariant
            i <= extra,
            s@ == base + Seq::new(i as nat, |k: int| '0'),
        decreases extra - i,
    {
        s.append(digit_str(0));
        proof {
            assert(s@ =~= base + Seq::new((i + 1) as nat, |k: int| '0'));
        }
        i = i + 1;
    }
    assert(s@ =~= usd_text(cents as nat, extra as nat));
    s
}

/// `s` padded with spaces on the left to `width` characters.
pub open spec fn pad_left(s: Seq<char>, width: nat) -> Seq<char> {
    if s.len() < width {
        Seq::new((width - s.len()) as nat, |i: int| ' ') + s
    } else {
        s
    }
}

/// `s` padded with spaces on the right to `width` characters.
pub open spec fn pad_right(s: Seq<char>, width: nat) -> Seq<char> {
    if s.len() < width {
        s + Seq::new((width - s.len()) as nat, |i: int| ' ')
    } else {
        s
    }
}

fn spaces(n: usize) -> (r: String)
    ensures
        r@ == Seq::new(n as nat, |i: int| ' '),
{
    let mut s = String::new();
    let mut i: usize = 0;
    while i < n
        invariant
            i <= n,
            s@ == Seq::new(i as nat, |k: int| ' '),
        decreases n - i,
    {
        proof {
            reveal_strlit(" ");
        }
        s.append(" ");
        proof {
            assert(s@ =~= Seq::new((i + 1) as nat, |k: int| ' '));
        }
        i = i + 1;
    }
    s
}

/// Pad on the left with spaces to `width` characters.
pub fn pad_left_string(s: &str, width: usize) -> (r: String)
    ensures
        r@ == pad_left(s@, width as nat),
{
    let n = s.unicode_len();
    if n < width {
        let mut out = spaces(width - n);
        out.append(s);
        out
    } else {
        s.to_owned()
    }
}

/// Pad on the right with spaces to `width` characters.
pub fn pad_right_string(s: &str, width: usize) -> (r: String)
    ensures
        r@ == pad_right(s@, width as nat),
{
    let n = s.unicode_len();
    let mut out = s.to_owned();
    if n < width {
        let pad = spaces(width - n);
        out.append(pad.as_str());
    }
    out
}

} // verus!
