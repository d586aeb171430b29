//! Percent-encoding, hexadecimal, HMAC-SHA256, the clock and random state
//! tokens: the calls into `urlencoding`, `hex`, `hmac`/`sha2`, `chrono` and
//! `rand`, each behind a trusted item whose contract states what the crate
//! documents, together with the facts about them that the library proves.
use vstd::prelude::*;
use vstd::utf8::*;
use crate::strings::hex_lower_char;
use hmac::Mac;
use rand::Rng;

verus! {

broadcast use vstd::utf8::group_utf8_lib;

// ---------------------------------------------------------------------------
// Percent-encoding
// ---------------------------------------------------------------------------

/// Bytes that percent-encoding leaves as they are: ASCII letters, digits and `-._~`.
pub open spec fn is_unreserved_byte(b: u8) -> bool {
    (48 <= b <= 57) || (65 <= b <= 90) || (97 <= b <= 122) || b == 45 || b == 46 || b == 95 || b
        == 126
}

/// Uppercase hexadecimal digit (as an ASCII byte) for `d` (0 to 15).
pub open spec fn hex_upper_byte(d: u8) -> u8 {
    if d < 10 {
        (48 + d) as u8
    } else {
        (55 + d) as u8
    }
}

/// One byte, percent-encoded.
pub open spec fn pct_encode_byte(b: u8) -> Seq<u8> {
    if is_unreserved_byte(b) {
        seq![b]
    } else {
        seq![37u8, hex_upper_byte(b / 16), hex_upper_byte(b % 16)]
    }
}

/// A byte string, percent-encoded byte by byte.
pub open spec fn pct_encode(bytes: Seq<u8>) -> Seq<u8>
    decreases bytes.len(),
{
    if bytes.len() == 0 {
        Seq::empty()
    } else {
        pct_encode_byte(bytes[0]) + pct_encode(bytes.drop_first())
    }
}

/// The characters of an ASCII byte string.
pub open spec fn ascii_chars(bytes: Seq<u8>) -> Seq<char> {
    Seq::new(bytes.len(), |i: int| bytes[i] as char)
}

/// `urlencoding::encode`: the UTF-8 bytes of `s`, each percent-encoded
/// unless it is an ASCII letter, digit or one of `-._~`.
pub open spec fn url_encode_spec(s: Seq<char>) -> Seq<char> {
    ascii_chars(pct_encode(encode_utf8(s)))
}

/// Value of a hexadecimal digit byte (either case).
pub open spec fn hex_digit_value(b: u8) -> Option<u8> {
    if 48 <= b <= 57 {
        Some((b - 48) as u8)
    } else if 65 <= b <= 70 {
        Some((b - 55) as u8)
    } else if 97 <= b <= 102 {
        Some((b - 87) as u8)
    } else {
        None
    }
}

/// Percent-decoding of a byte string: `%` followed by two hexadecimal
/// digits stands for one byte; every other byte stands for itself.
pub open spec fn pct_decode(bytes: Seq<u8>) -> Seq<u8>
    decreases bytes.len(),
{
    if bytes.len() == 0 {
        Seq::empty()
    } else if bytes[0] == 37 && bytes.len() >= 3 && hex_digit_value(bytes[1]) is Some
        && hex_digit_value(bytes[2]) is Some {
        seq![
            (hex_digit_value(bytes[1])->0 * 16 + hex_digit_value(bytes[2])->0) as u8,
        ] + pct_decode(bytes.subrange(3, bytes.len() as int))
    } else {
        seq![bytes[0]] + pct_decode(bytes.drop_first())
    }
}

/// `urlencoding::decode`: percent-decode the UTF-8 bytes of `s`; the result
/// is absent when the decoded bytes are not valid UTF-8.
pub open spec fn url_decode_spec(s: Seq<char>) -> Option<Seq<char>> {
    let bytes = pct_decode(encode_utf8(s));
    if valid_utf8(bytes) {
        Some(decode_utf8(bytes))
    } else {
        None
    }
}

/// Calls `urlencoding::encode`, which percent-encodes every UTF-8 byte of
/// its argument except ASCII alphanumerics and `-`, `_`, `.`, `~`, writing
/// `%` and two uppercase hexadecimal digits.
#[verifier::external_body]
pub(crate) fn url_encode(s: &str) -> (res: String)
    ensures
        res@ == url_encode_spec(s@),
{
    urlencoding::encode(s).into_owned()
}

/// Calls `urlencoding::decode`, which replaces each `%` followed by two
/// hexadecimal digits by the byte they spell and keeps every other byte; it
/// fails (here: `None`) when the bytes are not valid UTF-8.
#[verifier::external_body]
pub(crate) fn url_decode(s: &str) -> (res: Option<String>)
    ensures
        match res {
            Some(r) => url_decode_spec(s@) == Some(r@),
            None => url_decode_spec(s@) is None,
        },
{
    match urlencoding::decode(s) {
        Ok(c) => Some(c.into_owned()),
        Err(_) => None,
    }
}

proof fn lemma_pct_encode_ascii(bytes: Seq<u8>)
    ensures
        forall|i: int| 0 <= i < pct_encode(bytes).len() ==> pct_encode(bytes)[i] < 128,
        forall|i: int| 0 <= i < pct_encode(bytes).len() ==> pct_encode(bytes)[i] != 58,
    decreases bytes.len(),
{
    if bytes.len() > 0 {
        lemma_pct_encode_ascii(bytes.drop_first());
        let e = pct_encode_byte(bytes[0]);
        let r = pct_encode(bytes.drop_first());
        assert(pct_encode(bytes) == e + r);
        let b = bytes[0];
        assert(hex_upper_byte(b / 16) < 128 && hex_upper_byte(b / 16) != 58);
        assert(hex_upper_byte(b % 16) < 128 && hex_upper_byte(b % 16) != 58);
        assert forall|i: int| 0 <= i < pct_encode(bytes).len() implies pct_encode(bytes)[i] < 128
            && pct_encode(bytes)[i] != 58 by {
            if i < e.len() {
                assert(pct_encode(bytes)[i] == e[i]);
            } else {
                assert(pct_encode(bytes)[i] == r[i - e.len()]);
            }
        }
    }
}

proof fn lemma_hex_upper_value(d: u8)
    requires
        d < 16,
    ensures
        hex_digit_value(hex_upper_byte(d)) == Some(d),
{
}

proof fn lemma_pct_roundtrip(bytes: Seq<u8>)
    ensures
        pct_decode(pct_encode(bytes)) == bytes,
    decreases bytes.len(),
{
    if bytes.len() > 0 {
        let b = bytes[0];
        let rest = bytes.drop_first();
        lemma_pct_roundtrip(rest);
        let e = pct_encode_byte(b);
        let r = pct_encode(rest);
        let all = pct_encode(bytes);
        assert(all == e + r);
        if is_unreserved_byte(b) {
            assert(all[0] == b);
            assert(all.drop_first() == r);
            assert(pct_decode(all) == seq![b] + pct_decode(r));
        } else {
            lemma_hex_upper_value(b / 16);
            lemma_hex_upper_value(b % 16);
            assert(all[0] == 37u8);
            assert(all[1] == hex_upper_byte(b / 16));
            assert(all[2] == hex_upper_byte(b % 16));
            assert(all.subrange(3, all.len() as int) == r);
            assert(((b / 16) * 16 + b % 16) as u8 == b);
            assert(pct_decode(all) == seq![b] + pct_decode(r));
        }
        assert(seq![b] + rest == bytes);
    }
}

/// Decoding what `url_encode` produced gives back the original text, and
/// the encoded text never holds a `:`.
pub proof fn lemma_url_encode_roundtrip(s: Seq<char>)
    ensures
        url_decode_spec(url_encode_spec(s)) == Some(s),
        forall|i: int| 0 <= i < url_encode_spec(s).len() ==> url_encode_spec(s)[i] != ':',
{
    let p = pct_encode(encode_utf8(s));
    lemma_pct_encode_ascii(encode_utf8(s));
    let c = url_encode_spec(s);
    assert forall|i: int| 0 <= i < c.len() implies '\0' <= #[trigger] c[i] <= '\u{7f}' && c[i]
        as u8 == p[i] && c[i] != ':' by {
        let b = p[i];
        assert(c[i] == b as char);
        assert((b as char) as u8 == b);
        assert(b < 128);
    }
    assert(is_ascii_chars(c));
    is_ascii_chars_encode_utf8(c);
    assert(encode_utf8(c) =~= p);
    lemma_pct_roundtrip(encode_utf8(s));
    encode_utf8_valid_utf8(s);
    encode_utf8_decode_utf8(s);
}

// ---------------------------------------------------------------------------
// Hexadecimal
// ---------------------------------------------------------------------------

/// Lowercase hexadecimal text of a byte string, two digits per byte.
pub open spec fn hex_text(bytes: Seq<u8>) -> Seq<char>
    decreases bytes.len(),
{
    if bytes.len() == 0 {
        Seq::empty()
    } else {
        seq![hex_lower_char((bytes[0] / 16) as int), hex_lower_char((bytes[0] % 16) as int)]
            + hex_text(bytes.drop_first())
    }
}

/// Calls `hex::encode`, which writes each byte as two lowercase
/// hexadecimal digits, most significant first.
#[verifier::external_body]
pub(crate) fn hex_encode(bytes: &[u8]) -> (res: String)
    ensures
        res@ == hex_text(bytes@),
{
    hex::encode(bytes)
}

// ---------------------------------------------------------------------------
// HMAC-SHA256
// ---------------------------------------------------------------------------

/// The HMAC-SHA256 tag of `msg` under `key`.
pub uninterp spec fn hmac_sha256_spec(key: Seq<u8>, msg: Seq<u8>) -> Seq<u8>;

/// Calls `Hmac::<Sha256>::new_from_slice`, `update` and `finalize` from the
/// `hmac` and `sha2` crates: the tag is a function of the key and the
/// message alone. HMAC accepts keys of any length, so the key is never refused.
#[verifier::external_body]
pub(crate) fn hmac_sha256(key: &[u8], msg: &[u8]) -> (tag: Vec<u8>)
    ensures
        tag@ == hmac_sha256_spec(key@, msg@),
{
    let mut mac = hmac::Hmac::<sha2::Sha256>::new_from_slice(key).expect(
        "HMAC can take key of any size",
    );
    mac.update(msg);
    mac.finalize().into_bytes().to_vec()
}

// ---------------------------------------------------------------------------
// Clock and randomness
// ---------------------------------------------------------------------------

/// Largest distance from the epoch, in seconds, of any time `chrono`
/// represents (its years stay within about 262,000 of year 0).
pub open spec fn clock_bound() -> int {
    10_000_000_000_000
}

/// Calls `chrono::Utc::now().timestamp()`: the current Unix time in
/// seconds. Nothing is known of the value but that it is not before the
/// epoch (`Utc::now` panics when the system clock reads earlier) and lies
/// within the range of `chrono`'s dates.
#[verifier::external_body]
pub(crate) fn unix_now() -> (t: i64)
    ensures
        0 <= t <= clock_bound(),
{
    chrono::Utc::now().timestamp()
}

/// An ASCII letter or digit.
pub open spec fn is_ascii_alphanumeric(c: char) -> bool {
    ('0' <= c <= '9') || ('A' <= c <= 'Z') || ('a' <= c <= 'z')
}

/// Calls `rand`'s thread-local generator with the `Alphanumeric`
/// distribution `len` times: `len` characters, each an ASCII letter or
/// digit. Which ones is left open (as is the panic `thread_rng` raises when
/// the operating system cannot seed it).
#[verifier::external_body]
pub(crate) fn random_alphanumeric(len: usize) -> (res: String)
    ensures
        res@.len() == len,
        forall|i: int| 0 <= i < len ==> is_ascii_alphanumeric(#[trigger] res@[i]),
{
    rand::thread_rng().sample_iter(&rand::distributions::Alphanumeric).take(len).map(char::from).collect()
}

// ---------------------------------------------------------------------------
// Case mapping
// ---------------------------------------------------------------------------

/// The Unicode lowercase mapping of a string.
pub uninterp spec fn lowercase_spec(s: Seq<char>) -> Seq<char>;

/// Calls `str::to_lowercase`; its result depends on the argument alone.
#[verifier::external_body]
pub(crate) fn to_lowercase(s: &str) -> (res: String)
    ensures
        res@ == lowercase_spec(s@),
{
    s.to_lowercase()
}

} // verus!
