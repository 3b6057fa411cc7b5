//! Byte encodings and digests: base64 through the `base64` crate, MD5
//! through the `md5` crate, and percent-encoding and lower-case hex here.

use vstd::prelude::*;
use base64::Engine;
use crate::text::push_char;

verus! {

/// The reason `base64` gives for refusing text; only its presence is used.
#[verifier::external_type_specification]
#[verifier::external_body]
pub struct ExDecodeError(base64::DecodeError);

/// The standard, padded base64 text of `b`.
pub uninterp spec fn base64_text(b: Seq<u8>) -> Seq<char>;

/// The bytes that standard, padded base64 text `s` denotes, if it is valid.
pub uninterp spec fn base64_bytes(s: Seq<char>) -> Option<Seq<u8>>;

/// Relies on `base64::engine::general_purpose::STANDARD.encode`: padded
/// standard base64, four characters for every started group of three bytes.
/// It panics only when that length overflows `usize`, which no slice (at most
/// `isize::MAX` bytes) reaches.
#[verifier::external_body]
pub(crate) fn encode_base64(b: &[u8]) -> (r: String)
    ensures
        r@ == base64_text(b@),
        r@.len() == 4 * ((b@.len() + 2) / 3),
{
    base64::engine::general_purpose::STANDARD.encode(b)
}

/// Relies on `base64::engine::general_purpose::STANDARD.decode`: `Ok` with
/// the decoded bytes for valid padded standard base64, else the reason.
#[verifier::external_body]
pub(crate) fn decode_base64(s: &str) -> (r: Result<Vec<u8>, base64::DecodeError>)
    ensures
        match r {
            Ok(v) => base64_bytes(s@) == Some(v@),
            Err(_) => base64_bytes(s@) is None,
        },
{
    base64::engine::general_purpose::STANDARD.decode(s)
}

/// The MD5 digest of `b`.
pub uninterp spec fn md5_of(b: Seq<u8>) -> Seq<u8>;

/// Relies on `md5::compute`: the 16-byte MD5 digest of the input.
#[verifier::external_body]
fn md5_digest(b: &[u8]) -> (r: Vec<u8>)
    ensures
        r@ == md5_of(b@),
        r@.len() == 16,
{
    md5::compute(b).0.to_vec()
}

/// The `Content-MD5` value of a body: the base64 of its MD5 digest.
pub fn content_md5(b: &[u8]) -> (r: String)
    ensures
        r@ == base64_text(md5_of(b@)),
{
    let d = md5_digest(b);
    encode_base64(d.as_slice())
}

pub open spec fn hex_digit(d: u8) -> char {
    if d < 10 {
        (('0' as u8) + d) as char
    } else {
        (('a' as u8) + d - 10) as char
    }
}

/// Two lower-case hex digits per byte, high nibble first.
pub open spec fn hex_of(b: Seq<u8>) -> Seq<char>
    decreases b.len(),
{
    if b.len() == 0 {
        Seq::empty()
    } else {
        hex_of(b.drop_last()).push(hex_digit(b.last() / 16)).push(hex_digit(b.last() % 16))
    }
}

pub(crate) fn hex_char(d: u8) -> (c: char)
    requires
        d < 16,
    ensures
        c == hex_digit(d),
{
    if d < 10 {
        ('0' as u8 + d) as char
    } else {
        ('a' as u8 + d - 10) as char
    }
}

/// The lower-case hex notation of `b`.
pub fn to_hex(b: &[u8]) -> (r: String)
    ensures
        r@ == hex_of(b@),
{
    let mut r = String::new();
    let mut i: usize = 0;
    while i < b.len()
        invariant
            i <= b@.len(),
            r@ == hex_of(b@.subrange(0, i as int)),
        decreases b@.len() - i,
    {
        let x = b[i];
        push_char(&mut r, hex_char(x / 16));
        push_char(&mut r, hex_char(x % 16));
        assert(b@.subrange(0, i + 1).drop_last() =~= b@.subrange(0, i as int));
        i = i + 1;
    }
    assert(b@.subrange(0, b@.len() as int) =~= b@);
    r
}


/// Bytes that stand for themselves in a URI: ASCII letters, digits and
/// `- _ . ~`.
pub open spec fn unreserved(b: u8) -> bool {
    (65 <= b <= 90) || (97 <= b <= 122) || (48 <= b <= 57) || b == 45 || b == 95 || b == 46 || b
        == 126
}

pub open spec fn hex_upper(d: u8) -> char {
    if d < 10 {
        ((48u8) + d) as char
    } else {
        ((65u8) + d - 10) as char
    }
}

/// How one byte is written in a URI: itself when unreserved (or a `/` that
/// is kept), else `%` and two upper-case hex digits.
pub open spec fn uri_byte(b: u8, keep_slash: bool) -> Seq<char> {
    if unreserved(b) || (keep_slash && b == 47) {
        seq![b as char]
    } else {
        seq!['%', hex_upper(b / 16), hex_upper(b % 16)]
    }
}

pub open spec fn uri_encoded(b: Seq<u8>, keep_slash: bool) -> Seq<char>
    decreases b.len(),
{
    if b.len() == 0 {
        Seq::empty()
    } else {
        uri_encoded(b.drop_last(), keep_slash) + uri_byte(b.last(), keep_slash)
    }
}

fn hex_upper_char(d: u8) -> (c: char)
    requires
        d < 16,
    ensures
        c == hex_upper(d),
{
    if d < 10 {
        (48u8 + d) as char
    } else {
        (65u8 + d - 10) as char
    }
}

/// Percent-encodes the UTF-8 bytes of `s`.
pub fn uri_encode(s: &str, keep_slash: bool) -> (r: String)
    ensures
        r@ == uri_encoded(vstd::utf8::encode_utf8(s@), keep_slash),
{
    let b = s.as_bytes();
    let mut r = String::new();
    let mut i: usize = 0;
    while i < b.len()
        invariant
            b@ == vstd::utf8::encode_utf8(s@),
            i <= b@.len(),
            r@ == uri_encoded(b@.subrange(0, i as int), keep_slash),
        decreases b@.len() - i,
    {
        let x = b[i];
        if (65 <= x && x <= 90) || (97 <= x && x <= 122) || (48 <= x && x <= 57) || x == 45 || x
            == 95 || x == 46 || x == 126 || (keep_slash && x == 47) {
            push_char(&mut r, x as char);
        } else {
            push_char(&mut r, '%');
            push_char(&mut r, hex_upper_char(x / 16));
            push_char(&mut r, hex_upper_char(x % 16));
        }
        assert(b@.subrange(0, i + 1).drop_last() =~= b@.subrange(0, i as int));
        i = i + 1;
        assert(r@ =~= uri_encoded(b@.subrange(0, i as int), keep_slash));
    }
    assert(b@.subrange(0, b@.len() as int) =~= b@);
    r
}

} // verus!
