use vstd::prelude::*;

use base64::engine::general_purpose::{STANDARD, URL_SAFE_NO_PAD};
use base64::Engine;

use crate::error::TextError;

verus! {

/// ASCII code of the padding character `=`.
pub const PAD_CODE: u8 = 61;

/// ASCII code of the character that stands for the 6-bit value `v`, in the
/// standard alphabet (`+` and `/` last) or the URL-safe one (`-` and `_` last).
pub open spec fn sextet_code(url_safe: bool, v: int) -> u8 {
    if v < 26 {
        (v + 65) as u8
    } else if v < 52 {
        (v + 71) as u8
    } else if v < 62 {
        (v - 4) as u8
    } else if v == 62 {
        if url_safe { 45 } else { 43 }
    } else {
        if url_safe { 95 } else { 47 }
    }
}

/// Whether `c` belongs to the alphabet (padding excluded).
pub open spec fn is_alphabet_char(url_safe: bool, c: char) -> bool {
    ||| 'A' <= c <= 'Z'
    ||| 'a' <= c <= 'z'
    ||| '0' <= c <= '9'
    ||| c == (if url_safe { '-' } else { '+' })
    ||| c == (if url_safe { '_' } else { '/' })
}

/// The codes that three bytes become: four 6-bit groups, high bits first.
pub open spec fn quad_codes(url_safe: bool, a: u8, b: u8, c: u8) -> Seq<u8> {
    let (a, b, c) = (a as int, b as int, c as int);
    seq![
        sextet_code(url_safe, a / 4),
        sextet_code(url_safe, (a % 4) * 16 + b / 16),
        sextet_code(url_safe, (b % 16) * 4 + c / 64),
        sextet_code(url_safe, c % 64),
    ]
}

/// The codes of a final group of one or two bytes, with `=` to fill the
/// group of four when `pad` holds.
pub open spec fn tail_codes(url_safe: bool, pad: bool, t: Seq<u8>) -> Seq<u8> {
    let a = t[0] as int;
    if t.len() == 1 {
        seq![sextet_code(url_safe, a / 4), sextet_code(url_safe, (a % 4) * 16)]
            + (if pad { seq![PAD_CODE, PAD_CODE] } else { Seq::empty() })
    } else {
        let b = t[1] as int;
        seq![
            sextet_code(url_safe, a / 4),
            sextet_code(url_safe, (a % 4) * 16 + b / 16),
            sextet_code(url_safe, (b % 16) * 4),
        ] + (if pad { seq![PAD_CODE] } else { Seq::empty() })
    }
}

/// Base64 (RFC 4648) of `bytes`, as ASCII codes.
pub open spec fn base64_codes(url_safe: bool, pad: bool, bytes: Seq<u8>) -> Seq<u8>
    decreases bytes.len(),
{
    if bytes.len() == 0 {
        Seq::empty()
    } else if bytes.len() < 3 {
        tail_codes(url_safe, pad, bytes)
    } else {
        quad_codes(url_safe, bytes[0], bytes[1], bytes[2])
            + base64_codes(url_safe, pad, bytes.subrange(3, bytes.len() as int))
    }
}

/// Base64 (RFC 4648) of `bytes`, as text.
pub open spec fn base64_text(url_safe: bool, pad: bool, bytes: Seq<u8>) -> Seq<char> {
    base64_codes(url_safe, pad, bytes).map_values(|x: u8| x as char)
}

/// The bytes whose encoding is `text`, if `text` is the encoding of any.
pub open spec fn decoded(url_safe: bool, pad: bool, text: Seq<char>) -> Option<Seq<u8>> {
    if exists|v: Seq<u8>| base64_text(url_safe, pad, v) == text {
        Some(choose|v: Seq<u8>| base64_text(url_safe, pad, v) == text)
    } else {
        None
    }
}

/// Whether the length of the encoding of `len` bytes fits in a `usize`.
pub open spec fn encodable_len(len: nat) -> bool {
    len / 3 * 4 + 4 <= usize::MAX
}

/// Relies on base64's `URL_SAFE_NO_PAD.encode`: RFC 4648 base64 with the
/// URL-safe alphabet and no padding. It panics only when the output length
/// overflows `usize`.
#[verifier::external_body]
fn url_safe_encode(bytes: &[u8]) -> (r: String)
    requires
        encodable_len(bytes@.len()),
    ensures
        r@ == base64_text(true, false, bytes@),
{
    URL_SAFE_NO_PAD.encode(bytes)
}

/// Relies on base64's `STANDARD.encode`: RFC 4648 base64 with the standard
/// alphabet and `=` padding.
#[verifier::external_body]
fn standard_encode(bytes: &[u8]) -> (r: String)
    requires
        encodable_len(bytes@.len()),
    ensures
        r@ == base64_text(false, true, bytes@),
{
    STANDARD.encode(bytes)
}

/// The error of base64's decoders, carried but never looked into.
#[verifier::external_type_specification]
#[verifier::external_body]
pub struct ExDecodeError(base64::DecodeError);

/// Relies on base64's `URL_SAFE_NO_PAD.decode`: it accepts exactly the
/// canonical unpadded encodings (no foreign byte, no `=`, no lone final
/// symbol, no set trailing bits) and returns the bytes encoded.
#[verifier::external_body]
fn url_safe_decode(text: &str) -> (r: Result<Vec<u8>, base64::DecodeError>)
    ensures
        r is Ok <==> exists|v: Seq<u8>| base64_text(true, false, v) == text@,
        r matches Ok(v) ==> base64_text(true, false, v@) == text@,
{
    URL_SAFE_NO_PAD.decode(text)
}

/// Relies on base64's `STANDARD.decode`: it accepts exactly the canonical
/// padded encodings and returns the bytes encoded.
#[verifier::external_body]
fn standard_decode(text: &str) -> (r: Result<Vec<u8>, base64::DecodeError>)
    ensures
        r is Ok <==> exists|v: Seq<u8>| base64_text(false, true, v) == text@,
        r matches Ok(v) ==> base64_text(false, true, v@) == text@,
{
    STANDARD.decode(text)
}

/// Each 6-bit value has a code of the alphabet, never `=`, and distinct
/// values have distinct codes.
proof fn lemma_sextet_code(url_safe: bool, v: int, w: int)
    requires
        0 <= v < 64,
        0 <= w < 64,
    ensures
        sextet_code(url_safe, v) != PAD_CODE,
        is_alphabet_char(url_safe, sextet_code(url_safe, v) as char),
        sextet_code(url_safe, v) == sextet_code(url_safe, w) ==> v == w,
{
}

/// Distinct codes stay distinct as characters.
proof fn lemma_code_char(x: u8, y: u8)
    ensures
        (x as char) == (y as char) ==> x == y,
{
}

/// The four 6-bit groups of three bytes give the bytes back.
proof fn lemma_quad_values(a: int, b: int, c: int, x: int, y: int, z: int)
    requires
        0 <= a < 256,
        0 <= b < 256,
        0 <= c < 256,
        0 <= x < 256,
        0 <= y < 256,
        0 <= z < 256,
        a / 4 == x / 4,
        (a % 4) * 16 + b / 16 == (x % 4) * 16 + y / 16,
        (b % 16) * 4 + c / 64 == (y % 16) * 4 + z / 64,
        c % 64 == z % 64,
    ensures
        a == x,
        b == y,
        c == z,
{
}

/// The groups of a final one or two bytes give the bytes back.
proof fn lemma_tail_values(a: int, b: int, x: int, y: int)
    requires
        0 <= a < 256,
        0 <= b < 256,
        0 <= x < 256,
        0 <= y < 256,
        a / 4 == x / 4,
    ensures
        (a % 4) * 16 == (x % 4) * 16 ==> a == x,
        (a % 4) * 16 + b / 16 == (x % 4) * 16 + y / 16 && (b % 16) * 4 == (y % 16) * 4 ==> a
            == x && b == y,
{
}

/// A final group of one or two bytes is determined by its codes.
proof fn lemma_tail_injective(url_safe: bool, pad: bool, a: Seq<u8>, b: Seq<u8>)
    requires
        1 <= a.len() < 3,
        1 <= b.len() < 3,
        tail_codes(url_safe, pad, a) == tail_codes(url_safe, pad, b),
    ensures
        a == b,
{
    let (ta, tb) = (tail_codes(url_safe, pad, a), tail_codes(url_safe, pad, b));
    let (a0, b0) = (a[0] as int, b[0] as int);
    let (a1, b1) = (if a.len() == 2 { a[1] as int } else { 0 }, if b.len() == 2 { b[1] as int } else { 0 });
    lemma_sextet_code(url_safe, a0 / 4, b0 / 4);
    assert(ta[0] == sextet_code(url_safe, a0 / 4) && tb[0] == sextet_code(url_safe, b0 / 4));
    if a.len() == 1 && b.len() == 1 {
        lemma_sextet_code(url_safe, (a0 % 4) * 16, (b0 % 4) * 16);
        assert(ta[1] == tb[1]);
        lemma_tail_values(a0, 0, b0, 0);
    } else if a.len() == 2 && b.len() == 2 {
        lemma_sextet_code(url_safe, (a0 % 4) * 16 + a1 / 16, (b0 % 4) * 16 + b1 / 16);
        lemma_sextet_code(url_safe, (a1 % 16) * 4, (b1 % 16) * 4);
        assert(ta[1] == tb[1] && ta[2] == tb[2]);
        lemma_tail_values(a0, a1, b0, b1);
    } else if a.len() == 1 {
        // unpadded, the lengths differ; padded, the third code differs
        lemma_sextet_code(url_safe, (b1 % 16) * 4, 0);
        assert(ta[2] != tb[2] || ta.len() != tb.len());
    } else {
        lemma_sextet_code(url_safe, (a1 % 16) * 4, 0);
        assert(ta[2] != tb[2] || ta.len() != tb.len());
    }
    assert(a =~= b);
}

/// A final group of one or two bytes never encodes like three bytes or more.
proof fn lemma_tail_not_longer(url_safe: bool, pad: bool, a: Seq<u8>, b: Seq<u8>)
    requires
        1 <= a.len() < 3,
        b.len() >= 3,
    ensures
        base64_codes(url_safe, pad, a) != base64_codes(url_safe, pad, b),
{
    let ca = base64_codes(url_safe, pad, a);
    let cb = base64_codes(url_safe, pad, b);
    let rest = base64_codes(url_safe, pad, b.subrange(3, b.len() as int));
    assert(cb == quad_codes(url_safe, b[0], b[1], b[2]) + rest);
    lemma_sextet_code(url_safe, b[2] as int % 64, 0);
    if ca == cb {
        assert(ca.len() == 4 + rest.len());
        assert(ca[3] == PAD_CODE);
        assert(cb[3] != PAD_CODE);
    }
}

/// Distinct byte sequences have distinct encodings.
pub proof fn lemma_codes_injective(url_safe: bool, pad: bool, a: Seq<u8>, b: Seq<u8>)
    requires
        base64_codes(url_safe, pad, a) == base64_codes(url_safe, pad, b),
    ensures
        a == b,
    decreases a.len(),
{
    let ca = base64_codes(url_safe, pad, a);
    let cb = base64_codes(url_safe, pad, b);
    if a.len() == 0 || b.len() == 0 {
        if b.len() >= 3 {
            assert(cb.len() >= 4);
        } else if a.len() >= 3 {
            assert(ca.len() >= 4);
        }
        assert(a =~= b);
    } else if a.len() < 3 && b.len() < 3 {
        lemma_tail_injective(url_safe, pad, a, b);
    } else if a.len() < 3 {
        lemma_tail_not_longer(url_safe, pad, a, b);
    } else if b.len() < 3 {
        lemma_tail_not_longer(url_safe, pad, b, a);
    } else {
        let (ra, rb) = (a.subrange(3, a.len() as int), b.subrange(3, b.len() as int));
        let qa = quad_codes(url_safe, a[0], a[1], a[2]);
        let qb = quad_codes(url_safe, b[0], b[1], b[2]);
        assert(ca == qa + base64_codes(url_safe, pad, ra));
        assert(cb == qb + base64_codes(url_safe, pad, rb));
        assert(qa =~= ca.subrange(0, 4));
        assert(qb =~= cb.subrange(0, 4));
        assert(base64_codes(url_safe, pad, ra) =~= ca.subrange(4, ca.len() as int));
        assert(base64_codes(url_safe, pad, rb) =~= cb.subrange(4, cb.len() as int));
        let (a0, a1, a2) = (a[0] as int, a[1] as int, a[2] as int);
        let (b0, b1, b2) = (b[0] as int, b[1] as int, b[2] as int);
        assert(qa[0] == qb[0] && qa[1] == qb[1] && qa[2] == qb[2] && qa[3] == qb[3]);
        lemma_sextet_code(url_safe, a0 / 4, b0 / 4);
        lemma_sextet_code(url_safe, (a0 % 4) * 16 + a1 / 16, (b0 % 4) * 16 + b1 / 16);
        lemma_sextet_code(url_safe, (a1 % 16) * 4 + a2 / 64, (b1 % 16) * 4 + b2 / 64);
        lemma_sextet_code(url_safe, a2 % 64, b2 % 64);
        lemma_quad_values(a0, a1, a2, b0, b1, b2);
        lemma_codes_injective(url_safe, pad, ra, rb);
        assert forall|i: int| 0 <= i < a.len() implies a[i] == b[i] by {
            if i >= 3 {
                assert(a[i] == ra[i - 3] && b[i] == rb[i - 3]);
            }
        }
        assert(a =~= b);
    }
}

/// Distinct byte sequences have distinct encodings, as text.
pub proof fn lemma_text_injective(url_safe: bool, pad: bool, a: Seq<u8>, b: Seq<u8>)
    requires
        base64_text(url_safe, pad, a) == base64_text(url_safe, pad, b),
    ensures
        a == b,
{
    let ca = base64_codes(url_safe, pad, a);
    let cb = base64_codes(url_safe, pad, b);
    assert(ca.len() == base64_text(url_safe, pad, a).len());
    assert forall|i: int| 0 <= i < ca.len() implies ca[i] == cb[i] by {
        assert(base64_text(url_safe, pad, a)[i] == ca[i] as char);
        assert(base64_text(url_safe, pad, b)[i] == cb[i] as char);
        lemma_code_char(ca[i], cb[i]);
    }
    assert(ca =~= cb);
    lemma_codes_injective(url_safe, pad, a, b);
}

/// Every character of an unpadded encoding belongs to the alphabet.
proof fn lemma_codes_in_alphabet(url_safe: bool, b: Seq<u8>)
    ensures
        forall|i: int|
            0 <= i < base64_codes(url_safe, false, b).len() ==> is_alphabet_char(
                url_safe,
                #[trigger] base64_codes(url_safe, false, b)[i] as char,
            ),
    decreases b.len(),
{
    let c = base64_codes(url_safe, false, b);
    if b.len() == 0 {
    } else if b.len() < 3 {
        let (a0, a1) = (b[0] as int, b[1] as int);
        lemma_sextet_code(url_safe, a0 / 4, 0);
        lemma_sextet_code(url_safe, (a0 % 4) * 16, 0);
        lemma_sextet_code(url_safe, (a0 % 4) * 16 + a1 / 16, 0);
        lemma_sextet_code(url_safe, (a1 % 16) * 4, 0);
    } else {
        let rest = b.subrange(3, b.len() as int);
        let (a0, a1, a2) = (b[0] as int, b[1] as int, b[2] as int);
        lemma_codes_in_alphabet(url_safe, rest);
        lemma_sextet_code(url_safe, a0 / 4, 0);
        lemma_sextet_code(url_safe, (a0 % 4) * 16 + a1 / 16, 0);
        lemma_sextet_code(url_safe, (a1 % 16) * 4 + a2 / 64, 0);
        lemma_sextet_code(url_safe, a2 % 64, 0);
        let q = quad_codes(url_safe, b[0], b[1], b[2]);
        assert(c == q + base64_codes(url_safe, false, rest));
        assert forall|i: int| 0 <= i < c.len() implies is_alphabet_char(url_safe, c[i] as char) by {
            if i >= 4 {
                assert(c[i] == base64_codes(url_safe, false, rest)[i - 4]);
            }
        }
    }
}

/// Decoding the encoding of any bytes gives those bytes back.
pub proof fn lemma_decode_encode(url_safe: bool, pad: bool, bytes: Seq<u8>)
    ensures
        decoded(url_safe, pad, base64_text(url_safe, pad, bytes)) == Some(bytes),
{
    let text = base64_text(url_safe, pad, bytes);
    assert(base64_text(url_safe, pad, bytes) == text);
    let v = choose|v: Seq<u8>| base64_text(url_safe, pad, v) == text;
    lemma_text_injective(url_safe, pad, v, bytes);
}

/// In either format offered for arbitrary data, decoding what the format
/// encodes gives the bytes back.
pub proof fn lemma_process_decode_encode(format: Base64Format, bytes: Seq<u8>)
    ensures
        decoded(format.url_safe(), format.padded(), base64_text(format.url_safe(), format.padded(), bytes))
            == Some(bytes),
{
    lemma_decode_encode(format.url_safe(), format.padded(), bytes);
}

/// Text with a character outside the URL-safe alphabet is the unpadded
/// encoding of nothing.
pub proof fn lemma_foreign_char_rejected(text: Seq<char>, i: int)
    requires
        0 <= i < text.len(),
        !is_alphabet_char(true, text[i]),
    ensures
        decoded(true, false, text) is None,
{
    if exists|v: Seq<u8>| base64_text(true, false, v) == text {
        let v = choose|v: Seq<u8>| base64_text(true, false, v) == text;
        lemma_codes_in_alphabet(true, v);
        assert(text[i] == base64_codes(true, false, v)[i] as char);
    }
}

/// Encodes a signature as URL-safe base64 without padding.
pub fn encode(bytes: &[u8]) -> (r: String)
    requires
        encodable_len(bytes@.len()),
    ensures
        r@ == base64_text(true, false, bytes@),
{
    url_safe_encode(bytes)
}

/// Decodes URL-safe unpadded base64; anything but a canonical encoding is a
/// decode error.
pub fn decode(text: &str) -> (r: Result<Vec<u8>, TextError>)
    ensures
        match decoded(true, false, text@) {
            Some(v) => r matches Ok(w) && w@ == v,
            None => r == Err::<Vec<u8>, TextError>(TextError::Decode),
        },
{
    match url_safe_decode(text) {
        Ok(w) => {
            proof {
                lemma_decode_encode(true, false, w@);
            }
            Ok(w)
        },
        Err(_) => Err(TextError::Decode),
    }
}

/// The two base64 variants offered for arbitrary data.
#[derive(Debug, Clone, Copy, PartialEq, Eq, Structural)]
pub enum Base64Format {
    /// Standard alphabet, padded with `=`.
    Standard,
    /// URL-safe alphabet, unpadded.
    UrlSafe,
}

impl Base64Format {
    pub open spec fn url_safe(self) -> bool {
        self is UrlSafe
    }

    pub open spec fn padded(self) -> bool {
        self is Standard
    }

    /// The name of the format on the command line.
    pub fn as_str(&self) -> (r: &'static str)
        ensures
            r@ == (match *self {
                Base64Format::Standard => "standard"@,
                Base64Format::UrlSafe => "urlSafe"@,
            }),
    {
        match self {
            Base64Format::Standard => "standard",
            Base64Format::UrlSafe => "urlSafe",
        }
    }
}

/// Encodes arbitrary data in the chosen format.
pub fn process_encode(data: &[u8], format: Base64Format) -> (r: String)
    requires
        encodable_len(data@.len()),
    ensures
        r@ == base64_text(format.url_safe(), format.padded(), data@),
{
    match format {
        Base64Format::Standard => standard_encode(data),
        Base64Format::UrlSafe => url_safe_encode(data),
    }
}

/// Decodes text in the chosen format; anything but a canonical encoding is a
/// decode error.
pub fn process_decode(text: &str, format: Base64Format) -> (r: Result<Vec<u8>, TextError>)
    ensures
        match decoded(format.url_safe(), format.padded(), text@) {
            Some(v) => r matches Ok(w) && w@ == v,
            None => r == Err::<Vec<u8>, TextError>(TextError::Decode),
        },
{
    let decoded_bytes = match format {
        Base64Format::Standard => standard_decode(text),
        Base64Format::UrlSafe => url_safe_decode(text),
    };
    match decoded_bytes {
        Ok(w) => {
            proof {
                lemma_decode_encode(format.url_safe(), format.padded(), w@);
            }
            Ok(w)
        },
        Err(_) => Err(TextError::Decode),
    }
}

} // verus!
