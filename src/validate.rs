//! Local checks on names, run before any request is built.

use vstd::prelude::*;
use crate::text::chars_of;

verus! {

pub open spec fn bucket_name_char(c: char) -> bool {
    ('a' <= c && c <= 'z') || ('0' <= c && c <= '9') || c == '-'
}

/// A bucket name has 3 to 63 characters, each a lower-case ASCII letter, a
/// digit or `-`, and neither starts nor ends with `-`.
pub open spec fn valid_bucket_name(s: Seq<char>) -> bool {
    &&& 3 <= s.len() <= 63
    &&& forall|i: int| 0 <= i < s.len() ==> bucket_name_char(#[trigger] s[i])
    &&& s[0] != '-'
    &&& s.last() != '-'
}

/// An object key is 1 to 1023 bytes long in UTF-8 and does not start with
/// `/` or `\`.
pub open spec fn valid_object_key(s: Seq<char>) -> bool {
    &&& 0 < vstd::utf8::encode_utf8(s).len() <= 1023
    &&& s[0] != '/'
    &&& s[0] != '\\'
}

/// An upload id is any non-empty string issued by the service.
pub open spec fn valid_upload_id(s: Seq<char>) -> bool {
    s.len() > 0
}

/// Part numbers start at 1.
pub open spec fn valid_part_number(n: u32) -> bool {
    n >= 1
}

pub open spec fn path_char_forbidden(c: char) -> bool {
    (c as u32) < 0x20 || c == '<' || c == '>' || c == '|' || c == '"' || c == '?' || c == '*'
        || c == '\\'
}

/// A local file path is non-empty and holds no control character and none of
/// `< > | " ? * \`.
pub open spec fn valid_file_path(s: Seq<char>) -> bool {
    &&& s.len() > 0
    &&& forall|i: int| 0 <= i < s.len() ==> !path_char_forbidden(#[trigger] s[i])
}

pub fn validate_bucket_name(name: &str) -> (r: bool)
    ensures
        r == valid_bucket_name(name@),
{
    let cs = chars_of(name);
    let n = cs.len();
    if n < 3 || n > 63 {
        return false;
    }
    if cs[0] == '-' || cs[n - 1] == '-' {
        return false;
    }
    let mut i: usize = 0;
    while i < n
        invariant
            n == cs@.len(),
            cs@ == name@,
            i <= n,
            forall|j: int| 0 <= j < i ==> bucket_name_char(#[trigger] cs@[j]),
        decreases n - i,
    {
        let c = cs[i];
        if !(('a' <= c && c <= 'z') || ('0' <= c && c <= '9') || c == '-') {
            return false;
        }
        i = i + 1;
    }
    true
}

pub fn validate_object_key(key: &str) -> (r: bool)
    ensures
        r == valid_object_key(key@),
{
    let n = key.as_bytes().len();
    if n == 0 || n > 1023 {
        return false;
    }
    proof {
        if key@.len() == 0 {
            assert(vstd::utf8::encode_utf8(key@) =~= Seq::<u8>::empty());
        }
    }
    let c = key.get_char(0);
    c != '/' && c != '\\'
}

pub fn validate_upload_id(upload_id: &str) -> (r: bool)
    ensures
        r == valid_upload_id(upload_id@),
{
    !upload_id.is_empty()
}

pub fn validate_file_path(path: &str) -> (r: bool)
    ensures
        r == valid_file_path(path@),
{
    let cs = chars_of(path);
    if cs.len() == 0 {
        return false;
    }
    let mut i: usize = 0;
    while i < cs.len()
        invariant
            cs@ == path@,
            i <= cs@.len(),
            forall|j: int| 0 <= j < i ==> !path_char_forbidden(#[trigger] cs@[j]),
        decreases cs@.len() - i,
    {
        let c = cs[i];
        if (c as u32) < 0x20 || c == '<' || c == '>' || c == '|' || c == '"' || c == '?' || c == '*'
            || c == '\\' {
            return false;
        }
        i = i + 1;
    }
    true
}

} // verus!
