//! The small part of XML that the service's documents use: elements without
//! attributes, found by name, and text escaped with the five predefined
//! entities.

use vstd::prelude::*;
use crate::text::{chars_of, push_char, push_str};

verus! {

/// The first position at or after `from` where `pat` occurs in `doc`.
pub open spec fn find_from(doc: Seq<char>, pat: Seq<char>, from: int) -> Option<int>
    decreases doc.len() - from,
{
    if from < 0 || from + pat.len() > doc.len() {
        None
    } else if pat.len() == 0 || doc.subrange(from, from + pat.len()) == pat {
        Some(from)
    } else {
        find_from(doc, pat, from + 1)
    }
}

pub proof fn lemma_find_from_bounds(doc: Seq<char>, pat: Seq<char>, from: int)
    ensures
        find_from(doc, pat, from) matches Some(i) ==> from <= i && i + pat.len() <= doc.len()
            && doc.subrange(i, i + pat.len()) == pat,
    decreases doc.len() - from,
{
    if !(from < 0 || from + pat.len() > doc.len()) && pat.len() != 0 && doc.subrange(
        from,
        from + pat.len(),
    ) != pat {
        lemma_find_from_bounds(doc, pat, from + 1);
    }
    if pat.len() == 0 && 0 <= from <= doc.len() {
        assert(doc.subrange(from, from) =~= pat);
    }
}

pub open spec fn open_tag(name: Seq<char>) -> Seq<char> {
    seq!['<'] + name + seq!['>']
}

pub open spec fn close_tag(name: Seq<char>) -> Seq<char> {
    seq!['<', '/'] + name + seq!['>']
}

/// Where the first element `name` at or after `from` has its text: the
/// positions just after its opening tag and at its closing tag.
pub open spec fn element_span(doc: Seq<char>, name: Seq<char>, from: int) -> Option<(int, int)> {
    match find_from(doc, open_tag(name), from) {
        Some(i) => match find_from(doc, close_tag(name), i + open_tag(name).len()) {
            Some(j) => Some((i + open_tag(name).len(), j)),
            None => None,
        },
        None => None,
    }
}

/// The raw text of the first element `name` of `doc`.
pub open spec fn element_text(doc: Seq<char>, name: Seq<char>) -> Option<Seq<char>> {
    match element_span(doc, name, 0) {
        Some((s, e)) => Some(doc.subrange(s, e)),
        None => None,
    }
}

/// The raw texts of the successive elements `name` at or after `from`.
pub open spec fn elements_from(doc: Seq<char>, name: Seq<char>, from: int) -> Seq<Seq<char>>
    decreases doc.len() - from,
{
    match element_span(doc, name, from) {
        Some((s, e)) => {
            let next = e + close_tag(name).len();
            if from < next <= doc.len() && s <= e {
                seq![doc.subrange(s, e)] + elements_from(doc, name, next)
            } else {
                Seq::empty()
            }
        },
        None => Seq::empty(),
    }
}

/// Whether `pat` occurs in `doc` at position `at`.
fn occurs_at(doc: &Vec<char>, pat: &Vec<char>, at: usize) -> (r: bool)
    requires
        at + pat@.len() <= doc@.len(),
    ensures
        r == (doc@.subrange(at as int, at + pat@.len()) == pat@),
{
    let n = doc.len();
    let mut k: usize = 0;
    while k < pat.len()
        invariant
            n == doc@.len(),
            at + pat@.len() <= doc@.len(),
            k <= pat@.len(),
            forall|m: int| 0 <= m < k ==> doc@[at + m] == pat@[m],
        decreases pat@.len() - k,
    {
        if doc[at + k] != pat[k] {
            assert(doc@.subrange(at as int, at + pat@.len())[k as int] != pat@[k as int]);
            return false;
        }
        k = k + 1;
    }
    assert(doc@.subrange(at as int, at + pat@.len()) =~= pat@);
    true
}

/// Decides `find_from`.
pub fn find(doc: &Vec<char>, pat: &Vec<char>, from: usize) -> (r: Option<usize>)
    ensures
        match r {
            Some(i) => find_from(doc@, pat@, from as int) == Some(i as int),
            None => find_from(doc@, pat@, from as int) is None,
        },
{
    let n = doc.len();
    if pat.len() > n || from > n {
        return None;
    }
    if pat.len() == 0 {
        return Some(from);
    }
    let last = n - pat.len();
    let mut i: usize = from;
    while i <= last
        invariant
            last == doc@.len() - pat@.len(),
            n == doc@.len(),
            pat@.len() > 0,
            from <= i,
            find_from(doc@, pat@, from as int) == find_from(doc@, pat@, i as int),
        decreases last + 1 - i,
    {
        if occurs_at(doc, pat, i) {
            return Some(i);
        }
        i = i + 1;
    }
    None
}

fn tag_chars(name: &str, closing: bool) -> (r: Vec<char>)
    ensures
        r@ == (if closing {
            close_tag(name@)
        } else {
            open_tag(name@)
        }),
{
    let mut s = String::new();
    push_char(&mut s, '<');
    if closing {
        push_char(&mut s, '/');
    }
    push_str(&mut s, name);
    push_char(&mut s, '>');
    let r = chars_of(s.as_str());
    assert(r@ =~= (if closing {
        close_tag(name@)
    } else {
        open_tag(name@)
    }));
    r
}

/// Decides `element_span`.
fn find_element(doc: &Vec<char>, name: &str, from: usize) -> (r: Option<(usize, usize)>)
    ensures
        match r {
            Some((s, e)) => element_span(doc@, name@, from as int) == Some((s as int, e as int)),
            None => element_span(doc@, name@, from as int) is None,
        },
{
    let n = doc.len();
    let open = tag_chars(name, false);
    let close = tag_chars(name, true);
    match find(doc, &open, from) {
        Some(i) => {
            proof {
                lemma_find_from_bounds(doc@, open@, from as int);
            }
            let s = i + open.len();
            match find(doc, &close, s) {
                Some(j) => Some((s, j)),
                None => None,
            }
        },
        None => None,
    }
}

fn slice_chars(doc: &Vec<char>, s: usize, e: usize) -> (r: Vec<char>)
    requires
        s <= e <= doc@.len(),
    ensures
        r@ == doc@.subrange(s as int, e as int),
{
    let mut r: Vec<char> = Vec::new();
    let mut k: usize = s;
    while k < e
        invariant
            s <= k <= e <= doc@.len(),
            r@ == doc@.subrange(s as int, k as int),
        decreases e - k,
    {
        r.push(doc[k]);
        k = k + 1;
        assert(r@ =~= doc@.subrange(s as int, k as int));
    }
    r
}

/// The raw text of the first element `name` of `doc`.
pub fn first_element(doc: &Vec<char>, name: &str) -> (r: Option<Vec<char>>)
    ensures
        match r {
            Some(t) => element_text(doc@, name@) == Some(t@),
            None => element_text(doc@, name@) is None,
        },
{
    match find_element(doc, name, 0) {
        Some((s, e)) => {
            proof {
                let open = open_tag(name@);
                let i = find_from(doc@, open, 0).unwrap();
                lemma_find_from_bounds(doc@, open, 0);
                lemma_find_from_bounds(doc@, close_tag(name@), i + open.len());
            }
            Some(slice_chars(doc, s, e))
        },
        None => None,
    }
}

/// The raw texts of all successive elements `name` of `doc`.
pub fn all_elements(doc: &Vec<char>, name: &str) -> (r: Vec<Vec<char>>)
    ensures
        r@.len() == elements_from(doc@, name@, 0).len(),
        forall|i: int| 0 <= i < r@.len() ==> (#[trigger] r@[i])@ == elements_from(doc@, name@, 0)[i],
{
    let mut out: Vec<Vec<char>> = Vec::new();
    let mut from: usize = 0;
    let ghost acc: Seq<Seq<char>> = Seq::empty();
    let close_len = tag_chars(name, true).len();
    while from <= doc.len()
        invariant
            close_len == close_tag(name@).len(),
            out@.len() == acc.len(),
            forall|i: int| 0 <= i < out@.len() ==> (#[trigger] out@[i])@ == acc[i],
            acc + elements_from(doc@, name@, from as int) == elements_from(doc@, name@, 0),
        decreases doc@.len() + 1 - from,
    {
        match find_element(doc, name, from) {
            Some((s, e)) => {
                proof {
                    let open = open_tag(name@);
                    let i = find_from(doc@, open, from as int).unwrap();
                    lemma_find_from_bounds(doc@, open, from as int);
                    lemma_find_from_bounds(doc@, close_tag(name@), i + open.len());
                }
                let next = e + close_len;
                if !(from < next && next <= doc.len() && s <= e) {
                    assert(elements_from(doc@, name@, from as int) =~= Seq::<Seq<char>>::empty());
                    assert(acc =~= elements_from(doc@, name@, 0));
                    return out;
                }
                let t = slice_chars(doc, s, e);
                proof {
                    let rest = elements_from(doc@, name@, next as int);
                    assert(elements_from(doc@, name@, from as int) == seq![t@] + rest);
                    assert(acc.push(t@) + rest =~= acc + (seq![t@] + rest));
                    acc = acc.push(t@);
                }
                out.push(t);
                from = next;
            },
            None => {
                assert(acc =~= elements_from(doc@, name@, 0));
                return out;
            },
        }
    }
    proof {
        assert(elements_from(doc@, name@, from as int) =~= Seq::<Seq<char>>::empty()) by {
            lemma_find_from_bounds(doc@, open_tag(name@), from as int);
        }
        assert(acc =~= elements_from(doc@, name@, 0));
    }
    out
}

/// How one character is written in XML text.
pub open spec fn escape_char(c: char) -> Seq<char> {
    if c == '&' {
        "&amp;"@
    } else if c == '<' {
        "&lt;"@
    } else if c == '>' {
        "&gt;"@
    } else if c == '"' {
        "&quot;"@
    } else if c == '\'' {
        "&apos;"@
    } else {
        seq![c]
    }
}

/// `s` written as XML text.
pub open spec fn escaped(s: Seq<char>) -> Seq<char>
    decreases s.len(),
{
    if s.len() == 0 {
        Seq::empty()
    } else {
        escaped(s.drop_last()) + escape_char(s.last())
    }
}

/// Appends `t` to `out`, written as XML text.
pub fn push_escaped(out: &mut String, t: &str)
    ensures
        final(out)@ == old(out)@ + escaped(t@),
{
    let cs = chars_of(t);
    let ghost start = out@;
    let mut i: usize = 0;
    while i < cs.len()
        invariant
            cs@ == t@,
            i <= cs@.len(),
            out@ == start + escaped(cs@.subrange(0, i as int)),
        decreases cs@.len() - i,
    {
        let c = cs[i];
        if c == '&' {
            push_str(out, "&amp;");
        } else if c == '<' {
            push_str(out, "&lt;");
        } else if c == '>' {
            push_str(out, "&gt;");
        } else if c == '"' {
            push_str(out, "&quot;");
        } else if c == '\'' {
            push_str(out, "&apos;");
        } else {
            push_char(out, c);
        }
        assert(cs@.subrange(0, i + 1).drop_last() =~= cs@.subrange(0, i as int));
        i = i + 1;
        assert(out@ =~= start + escaped(cs@.subrange(0, i as int)));
    }
    assert(cs@.subrange(0, cs@.len() as int) =~= cs@);
}

/// Appends `<name>text</name>` to `out`, the text escaped.
pub fn push_element(out: &mut String, name: &str, text: &str)
    ensures
        final(out)@ == old(out)@ + open_tag(name@) + escaped(text@) + close_tag(name@),
{
    push_char(out, '<');
    push_str(out, name);
    push_char(out, '>');
    push_escaped(out, text);
    push_str(out, "</");
    push_str(out, name);
    push_char(out, '>');
    proof {
        reveal_strlit("</");
    }
    assert(out@ =~= old(out)@ + open_tag(name@) + escaped(text@) + close_tag(name@));
}

pub open spec fn starts_with(s: Seq<char>, p: Seq<char>) -> bool {
    p.len() <= s.len() && s.subrange(0, p.len() as int) == p
}

/// XML text with the five predefined entities replaced by their
/// characters; any other `&` stands for itself.
pub open spec fn unescaped(s: Seq<char>) -> Seq<char>
    decreases s.len(),
{
    if s.len() == 0 {
        Seq::empty()
    } else if starts_with(s, "&amp;"@) && s.len() >= 5 {
        seq!['&'] + unescaped(s.skip(5))
    } else if starts_with(s, "&lt;"@) && s.len() >= 4 {
        seq!['<'] + unescaped(s.skip(4))
    } else if starts_with(s, "&gt;"@) && s.len() >= 4 {
        seq!['>'] + unescaped(s.skip(4))
    } else if starts_with(s, "&quot;"@) && s.len() >= 6 {
        seq!['"'] + unescaped(s.skip(6))
    } else if starts_with(s, "&apos;"@) && s.len() >= 6 {
        seq!['\''] + unescaped(s.skip(6))
    } else {
        seq![s[0]] + unescaped(s.drop_first())
    }
}

/// The unescaped text of the first element `name` of `doc`.
pub open spec fn element_value(doc: Seq<char>, name: Seq<char>) -> Option<Seq<char>> {
    match element_text(doc, name) {
        Some(t) => Some(unescaped(t)),
        None => None,
    }
}

/// Whether `pat` occurs in `t` at `i`, reading past the end as no match.
fn entity_at(t: &Vec<char>, i: usize, pat: &Vec<char>) -> (r: bool)
    requires
        i <= t@.len(),
    ensures
        r == starts_with(t@.skip(i as int), pat@),
{
    let n = t.len();
    if pat.len() > n - i {
        return false;
    }
    let r = occurs_at(t, pat, i);
    assert(t@.skip(i as int).subrange(0, pat@.len() as int) =~= t@.subrange(
        i as int,
        i + pat@.len(),
    ));
    r
}

/// Replaces the predefined entities of XML text by their characters.
pub fn unescape(t: &Vec<char>) -> (r: String)
    ensures
        r@ == unescaped(t@),
{
    let amp = chars_of("&amp;");
    let lt = chars_of("&lt;");
    let gt = chars_of("&gt;");
    let quot = chars_of("&quot;");
    let apos = chars_of("&apos;");
    proof {
        reveal_strlit("&amp;");
        reveal_strlit("&lt;");
        reveal_strlit("&gt;");
        reveal_strlit("&quot;");
        reveal_strlit("&apos;");
    }
    let n = t.len();
    let mut out = String::new();
    let mut i: usize = 0;
    assert(t@.skip(0) =~= t@);
    while i < n
        invariant
            n == t@.len(),
            i <= n,
            amp@ == "&amp;"@,
            lt@ == "&lt;"@,
            gt@ == "&gt;"@,
            quot@ == "&quot;"@,
            apos@ == "&apos;"@,
            "&amp;"@.len() == 5,
            "&lt;"@.len() == 4,
            "&gt;"@.len() == 4,
            "&quot;"@.len() == 6,
            "&apos;"@.len() == 6,
            unescaped(t@) == out@ + unescaped(t@.skip(i as int)),
        decreases n - i,
    {
        let ghost rest = t@.skip(i as int);
        let ghost before = out@;
        if entity_at(t, i, &amp) {
            push_char(&mut out, '&');
            assert(rest.skip(5) =~= t@.skip(i + 5));
            i = i + 5;
        } else if entity_at(t, i, &lt) {
            push_char(&mut out, '<');
            assert(rest.skip(4) =~= t@.skip(i + 4));
            i = i + 4;
        } else if entity_at(t, i, &gt) {
            push_char(&mut out, '>');
            assert(rest.skip(4) =~= t@.skip(i + 4));
            i = i + 4;
        } else if entity_at(t, i, &quot) {
            push_char(&mut out, '"');
            assert(rest.skip(6) =~= t@.skip(i + 6));
            i = i + 6;
        } else if entity_at(t, i, &apos) {
            push_char(&mut out, '\'');
            assert(rest.skip(6) =~= t@.skip(i + 6));
            i = i + 6;
        } else {
            push_char(&mut out, t[i]);
            assert(rest.drop_first() =~= t@.skip(i + 1));
            i = i + 1;
        }
        assert(out@ + unescaped(t@.skip(i as int)) =~= before + unescaped(rest));
    }
    assert(t@.skip(n as int) =~= Seq::<char>::empty());
    assert(out@ =~= unescaped(t@));
    out
}

} // verus!
