//! Small text utilities over `char` sequences.

use vstd::prelude::*;
use vstd::std_specs::iter::IteratorSpec;

verus! {

broadcast use vstd::string::axiom_spec_iter, vstd::string::next_postcondition;

/// The characters of `s`, in order.
pub fn chars_of(s: &str) -> (r: Vec<char>)
    ensures
        r@ == s@,
{
    let mut it = s.chars();
    let mut out: Vec<char> = Vec::new();
    loop
        invariant
            out@ + it.remaining() == s@,
        ensures
            out@ == s@,
        decreases s@.len() - out@.len(),
    {
        match it.next() {
            Some(c) => {
                out.push(c);
            },
            None => {
                assert(out@ =~= s@);
                break;
            },
        }
    }
    out
}

/// Relies on `String::push`: the character is appended at the end.
#[verifier::external_body]
pub(crate) fn push_char(s: &mut String, c: char)
    ensures
        final(s)@ == old(s)@.push(c),
{
    s.push(c);
}

/// Appends every character of `t` to `s`.
pub fn push_str(s: &mut String, t: &str)
    ensures
        final(s)@ == old(s)@ + t@,
{
    s.append(t);
}

/// Appends every character of `t` to `s`.
pub fn push_chars(s: &mut String, t: &Vec<char>)
    ensures
        final(s)@ == old(s)@ + t@,
{
    let ghost start = s@;
    let mut i: usize = 0;
    while i < t.len()
        invariant
            i <= t@.len(),
            s@ == start + t@.subrange(0, i as int),
        decreases t@.len() - i,
    {
        push_char(s, t[i]);
        i = i + 1;
        assert(s@ =~= start + t@.subrange(0, i as int));
    }
    assert(t@.subrange(0, t@.len() as int) =~= t@);
}

/// A string holding exactly the characters of `t`.
pub fn string_of(t: &Vec<char>) -> (r: String)
    ensures
        r@ == t@,
{
    let mut r = String::new();
    push_chars(&mut r, t);
    assert(r@ =~= t@);
    r
}

/// ASCII upper-case letters map to lower case; every other character is kept.
pub open spec fn lower_char(c: char) -> char {
    if 'A' <= c && c <= 'Z' {
        ((c as u32) + 32) as char
    } else {
        c
    }
}

pub open spec fn lower_seq(s: Seq<char>) -> Seq<char> {
    Seq::new(s.len(), |i: int| lower_char(s[i]))
}

pub fn to_lower_char(c: char) -> (r: char)
    ensures
        r == lower_char(c),
{
    if 'A' <= c && c <= 'Z' {
        ((c as u8) + 32) as char
    } else {
        c
    }
}

/// The ASCII lower-case form of `s`.
pub fn to_lower(s: &str) -> (r: String)
    ensures
        r@ == lower_seq(s@),
{
    let cs = chars_of(s);
    let mut r = String::new();
    let mut i: usize = 0;
    while i < cs.len()
        invariant
            i <= cs@.len(),
            cs@ == s@,
            r@ =~= lower_seq(cs@.subrange(0, i as int)),
        decreases cs@.len() - i,
    {
        let c = to_lower_char(cs[i]);
        push_char(&mut r, c);
        i = i + 1;
    }
    assert(cs@.subrange(0, cs@.len() as int) =~= cs@);
    r
}

pub open spec fn digit_char(d: nat) -> char {
    (('0' as u32) + d) as char
}

pub open spec fn is_digit(c: char) -> bool {
    '0' <= c && c <= '9'
}

pub open spec fn digit_value(c: char) -> nat {
    ((c as u32) - ('0' as u32)) as nat
}

/// The decimal notation of `n`, without leading zeros.
pub open spec fn decimal(n: nat) -> Seq<char>
    decreases n,
{
    if n < 10 {
        seq![digit_char(n)]
    } else {
        decimal(n / 10).push(digit_char(n % 10))
    }
}

/// Appends the decimal notation of `n` to `s`.
pub fn push_decimal(s: &mut String, n: u64)
    ensures
        final(s)@ == old(s)@ + decimal(n as nat),
    decreases n,
{
    if n >= 10 {
        push_decimal(s, n / 10);
    }
    let d = (n % 10) as u8;
    push_char(s, ('0' as u8 + d) as char);
    assert(s@ =~= old(s)@ + decimal(n as nat));
}

/// The decimal notation of `n`.
pub fn decimal_string(n: u64) -> (r: String)
    ensures
        r@ == decimal(n as nat),
{
    let mut r = String::new();
    push_decimal(&mut r, n);
    assert(r@ =~= decimal(n as nat));
    r
}

pub open spec fn all_digits(s: Seq<char>) -> bool {
    forall|i: int| 0 <= i < s.len() ==> is_digit(#[trigger] s[i])
}

/// The number that a sequence of decimal digits denotes.
pub open spec fn digits_value(s: Seq<char>) -> nat
    decreases s.len(),
{
    if s.len() == 0 {
        0
    } else {
        digits_value(s.drop_last()) * 10 + digit_value(s.last())
    }
}

proof fn lemma_digits_value_grows(s: Seq<char>, i: int)
    requires
        0 <= i <= s.len(),
        all_digits(s),
    ensures
        digits_value(s.subrange(0, i)) <= digits_value(s),
    decreases s.len() - i,
{
    if i < s.len() {
        lemma_digits_value_grows(s, i + 1);
        assert(s.subrange(0, i + 1).drop_last() =~= s.subrange(0, i));
    } else {
        assert(s.subrange(0, i) =~= s);
    }
}

/// Reads a non-empty run of decimal digits that fits in a `u64`.
pub fn parse_u64(s: &Vec<char>) -> (r: Option<u64>)
    ensures
        r == (if s@.len() > 0 && all_digits(s@) && digits_value(s@) <= u64::MAX {
            Some(digits_value(s@) as u64)
        } else {
            None::<u64>
        }),
{
    if s.len() == 0 {
        return None;
    }
    let mut acc: u64 = 0;
    let mut i: usize = 0;
    while i < s.len()
        invariant
            i <= s@.len(),
            all_digits(s@.subrange(0, i as int)),
            acc as nat == digits_value(s@.subrange(0, i as int)),
        decreases s@.len() - i,
    {
        let c = s[i];
        if !('0' <= c && c <= '9') {
            assert(!all_digits(s@));
            return None;
        }
        let d = (c as u32 - '0' as u32) as u64;
        assert(s@.subrange(0, i + 1).drop_last() =~= s@.subrange(0, i as int));
        if acc > (u64::MAX - d) / 10 {
            proof {
                if all_digits(s@) {
                    lemma_digits_value_grows(s@, i + 1);
                }
            }
            return None;
        }
        acc = acc * 10 + d;
        i = i + 1;
        assert(all_digits(s@.subrange(0, i as int)));
    }
    assert(s@.subrange(0, s@.len() as int) =~= s@);
    Some(acc)
}


/// Decimal notation never holds the characters that XML escapes.
pub proof fn lemma_decimal_plain(n: nat)
    ensures
        crate::xml::escaped(decimal(n)) == decimal(n),
    decreases n,
{
    let d = digit_char(n % 10);
    assert(crate::xml::escape_char(d) == seq![d]);
    if n >= 10 {
        lemma_decimal_plain(n / 10);
        assert(decimal(n).drop_last() =~= decimal(n / 10));
        assert(decimal(n) =~= decimal(n / 10) + seq![d]);
    } else {
        assert(decimal(n).drop_last() =~= Seq::<char>::empty());
        assert(decimal(n) =~= seq![d]);
        assert(crate::xml::escaped(Seq::<char>::empty()) == Seq::<char>::empty());
    }
    assert(decimal(n).last() == d);
    assert(crate::xml::escaped(decimal(n)) == crate::xml::escaped(decimal(n).drop_last())
        + crate::xml::escape_char(d));
    assert(crate::xml::escaped(decimal(n)) =~= decimal(n));
}


/// A string holding `t[s..e]`.
pub fn string_of_range(t: &Vec<char>, s: usize, e: usize) -> (r: String)
    requires
        s <= e <= t@.len(),
    ensures
        r@ == t@.subrange(s as int, e as int),
{
    let mut r = String::new();
    let mut k: usize = s;
    while k < e
        invariant
            s <= k <= e <= t@.len(),
            r@ == t@.subrange(s as int, k as int),
        decreases e - k,
    {
        push_char(&mut r, t[k]);
        k = k + 1;
        assert(r@ =~= t@.subrange(s as int, k as int));
    }
    r
}

/// `k` without one leading `/`, if it has one.
pub open spec fn without_leading_slash(k: Seq<char>) -> Seq<char> {
    if k.len() > 0 && k[0] == '/' {
        k.drop_first()
    } else {
        k
    }
}

/// `k` without one leading and one trailing `/`.
pub open spec fn trimmed_key(k: Seq<char>) -> Seq<char> {
    let a = without_leading_slash(k);
    if a.len() > 0 && a.last() == '/' {
        a.drop_last()
    } else {
        a
    }
}

/// `k` without one leading `/`, ending in exactly the `/` it had or one added.
pub open spec fn folder_key(k: Seq<char>) -> Seq<char> {
    let a = without_leading_slash(k);
    if a.len() > 0 && a.last() == '/' {
        a
    } else {
        a.push('/')
    }
}

pub fn trim_key(k: &str) -> (r: String)
    ensures
        r@ == trimmed_key(k@),
{
    let cs = chars_of(k);
    let mut s: usize = 0;
    let mut e: usize = cs.len();
    if e > 0 && cs[0] == '/' {
        s = 1;
    }
    if e > s && cs[e - 1] == '/' {
        e = e - 1;
    }
    let r = string_of_range(&cs, s, e);
    assert(r@ =~= trimmed_key(k@));
    r
}

pub fn make_folder_key(k: &str) -> (r: String)
    ensures
        r@ == folder_key(k@),
{
    let cs = chars_of(k);
    let n = cs.len();
    let s: usize = if n > 0 && cs[0] == '/' {
        1
    } else {
        0
    };
    let mut r = string_of_range(&cs, s, n);
    if !(n > s && cs[n - 1] == '/') {
        push_char(&mut r, '/');
    }
    assert(r@ =~= folder_key(k@));
    r
}

} // verus!
