//! Text encodings the server uses on the wire: lower-case hex, UUID text and
//! padded standard base64.

use vstd::prelude::*;
use vstd::string::StringExecFns;
use vstd::utf8::encode_utf8;
use base64::Engine;
use sha1::Digest;

verus! {

/// The lower-case hex digit for a value below 16.
pub open spec fn hex_digit(n: int) -> char {
    if n < 10 {
        (48 + n) as char
    } else {
        (87 + n) as char
    }
}

/// Two lower-case hex digits per byte, most significant nibble first.
pub open spec fn hex_lower(bytes: Seq<u8>) -> Seq<char>
    decreases bytes.len(),
{
    if bytes.len() == 0 {
        seq![]
    } else {
        seq![hex_digit(bytes[0] as int / 16), hex_digit(bytes[0] as int % 16)] + hex_lower(bytes.skip(1))
    }
}

/// Byte `k` (0 is the most significant) of the big-endian form of a 128-bit value.
pub open spec fn be_byte(x: u128, k: int) -> u8 {
    ((x >> ((8 * (15 - k)) as u128)) & 0xff) as u8
}

/// The sixteen big-endian bytes of a 128-bit value.
pub open spec fn be_bytes(x: u128) -> Seq<u8> {
    Seq::new(16, |k: int| be_byte(x, k))
}

/// The hyphenated lower-case text of a UUID: 8-4-4-4-12 hex digits.
pub open spec fn uuid_text(x: u128) -> Seq<char> {
    let b = be_bytes(x);
    hex_lower(b.subrange(0, 4)) + seq!['-'] + hex_lower(b.subrange(4, 6)) + seq!['-']
        + hex_lower(b.subrange(6, 8)) + seq!['-'] + hex_lower(b.subrange(8, 10)) + seq!['-']
        + hex_lower(b.subrange(10, 16))
}

/// What `uuid::Uuid::parse_str` returns for a text, taken as the UUID's 128-bit value.
pub uninterp spec fn uuid_parse(text: Seq<char>) -> Option<u128>;

/// A character of the standard base64 alphabet, for a value below 64.
pub open spec fn base64_char(n: int) -> char {
    if n < 26 {
        (65 + n) as char
    } else if n < 52 {
        (71 + n) as char
    } else if n < 62 {
        (n - 4) as char
    } else if n == 62 {
        '+'
    } else {
        '/'
    }
}

/// Standard base64 with `=` padding: every three bytes become four characters.
pub open spec fn base64_text(b: Seq<u8>) -> Seq<char>
    decreases b.len(),
{
    if b.len() == 0 {
        seq![]
    } else {
        let b0 = b[0] as int;
        let b1 = if b.len() > 1 { b[1] as int } else { 0 };
        let b2 = if b.len() > 2 { b[2] as int } else { 0 };
        let c0 = base64_char(b0 / 4);
        let c1 = base64_char((b0 % 4) * 16 + b1 / 16);
        let c2 = base64_char((b1 % 16) * 4 + b2 / 64);
        let c3 = base64_char(b2 % 64);
        if b.len() == 1 {
            seq![c0, c1, '=', '=']
        } else if b.len() == 2 {
            seq![c0, c1, c2, '=']
        } else {
            seq![c0, c1, c2, c3] + base64_text(b.skip(3))
        }
    }
}

/// The bytes of a base64 text; every character of it is ASCII.
pub open spec fn base64_bytes(b: Seq<u8>) -> Seq<u8> {
    Seq::new(base64_text(b).len(), |i: int| base64_text(b)[i] as u8)
}

/// The length `base64` computes for the encoding of `n` bytes; the engine
/// panics where this does not fit in a `usize`.
pub open spec fn base64_len(n: nat) -> nat {
    (n / 3) * 4 + if n % 3 == 0 { 0nat } else { 4nat }
}

/// What the standard base64 engine's `decode` returns for some bytes, `None`
/// standing for its error.
pub uninterp spec fn base64_decoded(text: Seq<u8>) -> Option<Seq<u8>>;

/// The SHA-1 digest of some bytes.
pub uninterp spec fn sha1_digest(data: Seq<u8>) -> Seq<u8>;

/// A character that an HTTP header value may hold: visible ASCII or a space.
pub open spec fn header_char(c: char) -> bool {
    32 <= c as int && c as int <= 126
}

/// A hex text is two characters per byte, all of them ASCII.
pub proof fn lemma_hex_lower_ascii(bytes: Seq<u8>)
    ensures
        hex_lower(bytes).len() == 2 * bytes.len(),
        vstd::utf8::is_ascii_chars(hex_lower(bytes)),
    decreases bytes.len(),
{
    if bytes.len() > 0 {
        lemma_hex_lower_ascii(bytes.skip(1));
        let h = hex_lower(bytes);
        let t = hex_lower(bytes.skip(1));
        assert forall|i| 0 <= i < h.len() implies '\0' <= #[trigger] h[i] <= '\u{7f}' by {
            if i >= 2 {
                assert(h[i] == t[i - 2]);
            }
        }
    }
}

/// The text of a UUID is thirty-six ASCII characters.
pub proof fn lemma_uuid_text_ascii(x: u128)
    ensures
        uuid_text(x).len() == 36,
        vstd::utf8::is_ascii_chars(uuid_text(x)),
{
    let b = be_bytes(x);
    lemma_hex_lower_ascii(b.subrange(0, 4));
    lemma_hex_lower_ascii(b.subrange(4, 6));
    lemma_hex_lower_ascii(b.subrange(6, 8));
    lemma_hex_lower_ascii(b.subrange(8, 10));
    lemma_hex_lower_ascii(b.subrange(10, 16));
    broadcast use vstd::utf8::is_ascii_chars_concat;
    let t = uuid_text(x);
    assert forall|i| 0 <= i < t.len() implies '\0' <= #[trigger] t[i] <= '\u{7f}' by {
        let p0 = hex_lower(b.subrange(0, 4));
        let p1 = hex_lower(b.subrange(4, 6));
        let p2 = hex_lower(b.subrange(6, 8));
        let p3 = hex_lower(b.subrange(8, 10));
        let p4 = hex_lower(b.subrange(10, 16));
        if i < 8 {
            assert(t[i] == p0[i]);
        } else if i == 8 || i == 13 || i == 18 || i == 23 {
        } else if i < 13 {
            assert(t[i] == p1[i - 9]);
        } else if i < 18 {
            assert(t[i] == p2[i - 14]);
        } else if i < 23 {
            assert(t[i] == p3[i - 19]);
        } else {
            assert(t[i] == p4[i - 24]);
        }
    }
}

/// Every character of a base64 text may stand in an HTTP header value.
pub proof fn lemma_base64_header_chars(b: Seq<u8>)
    ensures
        forall|i| 0 <= i < base64_text(b).len() ==> header_char(#[trigger] base64_text(b)[i]),
        base64_text(b).len() == base64_len(b.len()),
    decreases b.len(),
{
    if b.len() > 2 {
        lemma_base64_header_chars(b.skip(3));
        let t = base64_text(b);
        let r = base64_text(b.skip(3));
        assert forall|i| 0 <= i < t.len() implies header_char(#[trigger] t[i]) by {
            if i >= 4 {
                assert(t[i] == r[i - 4]);
            }
        }
    }
}

/// A base64 text is ASCII, and its UTF-8 bytes are `base64_bytes`.
pub proof fn lemma_base64_utf8(b: Seq<u8>)
    ensures
        vstd::utf8::is_ascii_chars(base64_text(b)),
        encode_utf8(base64_text(b)) == base64_bytes(b),
{
    lemma_base64_header_chars(b);
    let t = base64_text(b);
    assert forall|i| 0 <= i < t.len() implies '\0' <= #[trigger] t[i] <= '\u{7f}' by {
        assert(header_char(t[i]));
    }
    vstd::utf8::is_ascii_chars_encode_utf8(t);
    assert(encode_utf8(t) =~= base64_bytes(b));
}

/// Calls `String::push`.
#[verifier::external_body]
pub(crate) fn push_char(s: &mut String, c: char)
    ensures
        final(s)@ == old(s)@.push(c),
{
    s.push(c)
}

/// Calls `Uuid::from_u128` and formats the UUID with `Display`, which
/// `uuid` writes as the hyphenated lower-case form of the big-endian bytes.
/// The text also parses back to the same value: `parse_str` reads every
/// format this crate writes.
#[verifier::external_body]
pub(crate) fn uuid_to_string(id: u128) -> (r: String)
    ensures
        r@ == uuid_text(id),
        uuid_parse(r@) == Some(id),
{
    uuid::Uuid::from_u128(id).to_string()
}

/// Calls `Uuid::parse_str` and hands back the parsed value as `u128`
/// (`Uuid::as_u128`, big-endian). Which texts it accepts is left to the
/// name `uuid_parse`.
#[verifier::external_body]
pub(crate) fn parse_uuid(text: &str) -> (r: Option<u128>)
    ensures
        r == uuid_parse(text@),
{
    match uuid::Uuid::parse_str(text) {
        Ok(u) => Some(u.as_u128()),
        Err(_) => None,
    }
}

/// Calls `base64::engine::general_purpose::STANDARD.encode`, which writes
/// the standard alphabet with `=` padding. It panics where the output length
/// overflows `usize`; `requires` leaves those inputs out. The same engine
/// decodes the text back to the input.
#[verifier::external_body]
pub(crate) fn base64_encode(data: &[u8]) -> (r: String)
    requires
        base64_len(data@.len()) <= usize::MAX,
    ensures
        r@ == base64_text(data@),
        base64_decoded(Seq::new(r@.len(), |i: int| r@[i] as u8)) == Some(data@),
{
    base64::engine::general_purpose::STANDARD.encode(data)
}

#[verifier::external_type_specification]
#[verifier::external_body]
pub struct ExDecodeError(base64::DecodeError);

/// Calls `base64::engine::general_purpose::STANDARD.decode`. Which texts it
/// accepts, and what it decodes them to, is left to `base64_decoded`; of the
/// error nothing is stated. The engine requires canonical padding and no
/// trailing bits, so a text it accepts is the encoding of what it returns.
#[verifier::external_body]
pub(crate) fn base64_decode(text: &[u8]) -> (r: Result<Vec<u8>, base64::DecodeError>)
    ensures
        match r {
            Ok(v) => base64_decoded(text@) == Some(v@) && text@ == base64_bytes(v@),
            Err(_) => base64_decoded(text@) is None,
        },
{
    base64::engine::general_purpose::STANDARD.decode(text)
}

/// Calls `sha1::Sha1::digest`; the digest is twenty bytes long.
#[verifier::external_body]
pub(crate) fn sha1_hash(data: &[u8]) -> (r: Vec<u8>)
    ensures
        r@ == sha1_digest(data@),
        r@.len() == 20,
{
    sha1::Sha1::digest(data).to_vec()
}

/// The lower-case hex digit for a value below 16.
pub fn hex_digit_char(n: u8) -> (c: char)
    requires
        n < 16,
    ensures
        c == hex_digit(n as int),
{
    if n < 10 {
        (n + 48) as char
    } else {
        (n + 87) as char
    }
}

/// Writes each byte as two lower-case hex digits, as `{:x}` does for a digest.
pub fn to_hex_lower(bytes: &[u8]) -> (r: String)
    ensures
        r@ == hex_lower(bytes@),
{
    let mut r = String::new();
    let n = bytes.len();
    assert(bytes@.skip(0) =~= bytes@);
    for i in 0..n
        invariant
            n == bytes@.len(),
            hex_lower(bytes@) =~= r@ + hex_lower(bytes@.skip(i as int)),
    {
        let b = bytes[i];
        push_char(&mut r, hex_digit_char(b / 16));
        push_char(&mut r, hex_digit_char(b % 16));
        assert(bytes@.skip(i as int).skip(1) =~= bytes@.skip(i + 1));
    }
    assert(bytes@.skip(n as int) =~= Seq::<u8>::empty());
    r
}

} // verus!
