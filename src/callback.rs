//! Completion callbacks: the parameters that the service posts to a
//! caller's URL once an upload completes, and the two headers that ask for
//! it.

use vstd::prelude::*;
use crate::codec::{base64_text, encode_base64};
use crate::keys::{entries_map, entries_of, put_entry, sorted_keys};
use crate::request::OssRequest;
use crate::text::{push_char, push_str};

verus! {

/// One body parameter of a callback: a field that the service fills in, a
/// caller's variable, or a fixed value.
#[derive(Debug, Clone)]
pub enum CallbackBodyParameter {
    OssBucket(String),
    OssObject(String),
    OssETag(String),
    OssSize(String),
    OssCrc64(String),
    OssClientIp(String),
    OssContentMd5(String),
    OssMimeType(String),
    OssImageWidth(String),
    OssImageHeight(String),
    OssImageFormat(String),
    /// `(key, variable name, value)`: the key takes the variable `x:<name>`,
    /// which is defined with the value.
    Custom(String, String, String),
    /// `(key, value)`, the value sent as it is.
    Constant(String, String),
    /// `(key, value)`, where the value may hold `${x:name}` placeholders.
    Literal(String, String),
}

/// The service field that a templated parameter names.
pub open spec fn system_field(p: CallbackBodyParameter) -> Seq<char> {
    match p {
        CallbackBodyParameter::OssBucket(_) => "bucket"@,
        CallbackBodyParameter::OssObject(_) => "object"@,
        CallbackBodyParameter::OssETag(_) => "etag"@,
        CallbackBodyParameter::OssSize(_) => "size"@,
        CallbackBodyParameter::OssCrc64(_) => "crc64"@,
        CallbackBodyParameter::OssClientIp(_) => "clientIp"@,
        CallbackBodyParameter::OssContentMd5(_) => "contentMd5"@,
        CallbackBodyParameter::OssMimeType(_) => "mimeType"@,
        CallbackBodyParameter::OssImageWidth(_) => "imageInfo.width"@,
        CallbackBodyParameter::OssImageHeight(_) => "imageInfo.height"@,
        CallbackBodyParameter::OssImageFormat(_) => "imageInfo.format"@,
        _ => Seq::empty(),
    }
}

/// `${name}`
pub open spec fn placeholder(name: Seq<char>) -> Seq<char> {
    seq!['$', '{'] + name + seq!['}']
}

/// How one parameter reads in the callback body: `key=value`.
pub open spec fn param_text(p: CallbackBodyParameter) -> Seq<char> {
    match p {
        CallbackBodyParameter::Custom(k, n, _) => k@ + seq!['='] + placeholder(
            seq!['x', ':'] + n@,
        ),
        CallbackBodyParameter::Constant(k, v) => k@ + seq!['='] + v@,
        CallbackBodyParameter::Literal(k, v) => k@ + seq!['='] + v@,
        CallbackBodyParameter::OssBucket(k) => k@ + seq!['='] + placeholder(system_field(p)),
        CallbackBodyParameter::OssObject(k) => k@ + seq!['='] + placeholder(system_field(p)),
        CallbackBodyParameter::OssETag(k) => k@ + seq!['='] + placeholder(system_field(p)),
        CallbackBodyParameter::OssSize(k) => k@ + seq!['='] + placeholder(system_field(p)),
        CallbackBodyParameter::OssCrc64(k) => k@ + seq!['='] + placeholder(system_field(p)),
        CallbackBodyParameter::OssClientIp(k) => k@ + seq!['='] + placeholder(system_field(p)),
        CallbackBodyParameter::OssContentMd5(k) => k@ + seq!['='] + placeholder(system_field(p)),
        CallbackBodyParameter::OssMimeType(k) => k@ + seq!['='] + placeholder(system_field(p)),
        CallbackBodyParameter::OssImageWidth(k) => k@ + seq!['='] + placeholder(system_field(p)),
        CallbackBodyParameter::OssImageHeight(k) => k@ + seq!['='] + placeholder(system_field(p)),
        CallbackBodyParameter::OssImageFormat(k) => k@ + seq!['='] + placeholder(system_field(p)),
    }
}

/// The callback body: the parameters' texts joined by `&`.
pub open spec fn body_text(ps: Seq<CallbackBodyParameter>) -> Seq<char>
    decreases ps.len(),
{
    if ps.len() == 0 {
        Seq::empty()
    } else if ps.len() == 1 {
        param_text(ps[0])
    } else {
        body_text(ps.drop_last()) + seq!['&'] + param_text(ps.last())
    }
}

/// How one character is written inside a JSON string.
pub open spec fn json_char(c: char) -> Seq<char> {
    if c == '"' {
        seq!['\\', '"']
    } else if c == '\\' {
        seq!['\\', '\\']
    } else if c == '\n' {
        seq!['\\', 'n']
    } else if c == '\r' {
        seq!['\\', 'r']
    } else if c == '\t' {
        seq!['\\', 't']
    } else if (c as u32) < 0x20 {
        seq!['\\', 'u', '0', '0', crate::codec::hex_digit((c as u32 / 16) as u8), crate::codec::hex_digit((c as u32 % 16) as u8)]
    } else {
        seq![c]
    }
}

pub open spec fn json_chars(s: Seq<char>) -> Seq<char>
    decreases s.len(),
{
    if s.len() == 0 {
        Seq::empty()
    } else {
        json_chars(s.drop_last()) + json_char(s.last())
    }
}

/// `s` as a JSON string literal, quotes included.
pub open spec fn json_string(s: Seq<char>) -> Seq<char> {
    seq!['"'] + json_chars(s) + seq!['"']
}

/// A JSON object with the given members, in order.
pub open spec fn json_members(m: Seq<(Seq<char>, Seq<char>)>) -> Seq<char>
    decreases m.len(),
{
    if m.len() == 0 {
        Seq::empty()
    } else if m.len() == 1 {
        json_string(m[0].0) + seq![':'] + json_string(m[0].1)
    } else {
        json_members(m.drop_last()) + seq![','] + json_string(m.last().0) + seq![':'] + json_string(
            m.last().1,
        )
    }
}

pub open spec fn json_object(m: Seq<(Seq<char>, Seq<char>)>) -> Seq<char> {
    seq!['{'] + json_members(m) + seq!['}']
}

fn push_json_string(out: &mut String, t: &str)
    ensures
        final(out)@ == old(out)@ + json_string(t@),
{
    let cs = crate::text::chars_of(t);
    let ghost start = out@;
    push_char(out, '"');
    let mut i: usize = 0;
    while i < cs.len()
        invariant
            cs@ == t@,
            i <= cs@.len(),
            out@ == start + seq!['"'] + json_chars(cs@.subrange(0, i as int)),
        decreases cs@.len() - i,
    {
        let c = cs[i];
        if c == '"' {
            push_char(out, '\\');
            push_char(out, '"');
        } else if c == '\\' {
            push_char(out, '\\');
            push_char(out, '\\');
        } else if c == '\n' {
            push_char(out, '\\');
            push_char(out, 'n');
        } else if c == '\r' {
            push_char(out, '\\');
            push_char(out, 'r');
        } else if c == '\t' {
            push_char(out, '\\');
            push_char(out, 't');
        } else if (c as u32) < 0x20 {
            let code = c as u32;
            push_char(out, '\\');
            push_char(out, 'u');
            push_char(out, '0');
            push_char(out, '0');
            push_char(out, crate::codec::hex_char((code / 16) as u8));
            push_char(out, crate::codec::hex_char((code % 16) as u8));
        } else {
            push_char(out, c);
        }
        assert(cs@.subrange(0, i + 1).drop_last() =~= cs@.subrange(0, i as int));
        i = i + 1;
        assert(out@ =~= start + seq!['"'] + json_chars(cs@.subrange(0, i as int)));
    }
    assert(cs@.subrange(0, cs@.len() as int) =~= cs@);
    push_char(out, '"');
    assert(out@ =~= old(out)@ + json_string(t@));
}

/// Writes a JSON object with the given members, in order.
pub fn json_object_text(members: &Vec<(String, String)>) -> (r: String)
    ensures
        r@ == json_object(entries_of(members@)),
{
    let ghost m = entries_of(members@);
    let mut out = String::new();
    push_char(&mut out, '{');
    let mut i: usize = 0;
    while i < members.len()
        invariant
            m == entries_of(members@),
            i <= members@.len(),
            out@ == seq!['{'] + json_members(m.subrange(0, i as int)),
        decreases members@.len() - i,
    {
        let ghost before = out@;
        if i > 0 {
            push_char(&mut out, ',');
        }
        push_json_string(&mut out, members[i].0.as_str());
        push_char(&mut out, ':');
        push_json_string(&mut out, members[i].1.as_str());
        assert(m.subrange(0, i + 1).drop_last() =~= m.subrange(0, i as int));
        i = i + 1;
        assert(out@ =~= seq!['{'] + json_members(m.subrange(0, i as int)));
    }
    assert(m.subrange(0, members@.len() as int) =~= m);
    push_char(&mut out, '}');
    assert(out@ =~= json_object(m));
    out
}

/// A complete callback request: target URL, body parameters and the
/// caller's variables (names with their `x:` prefix, sorted).
#[derive(Debug, Clone)]
pub struct Callback {
    url: String,
    params: Vec<CallbackBodyParameter>,
    variables: Vec<(String, String)>,
}

/// Collects a callback's parameters and variables.
#[derive(Debug, Clone)]
pub struct CallbackBuilder {
    callback: Callback,
}

impl Callback {
    pub closed spec fn spec_url(&self) -> Seq<char> {
        self.url@
    }

    pub closed spec fn spec_params(&self) -> Seq<CallbackBodyParameter> {
        self.params@
    }

    /// The caller's variables, in name order.
    pub closed spec fn spec_variables(&self) -> Seq<(Seq<char>, Seq<char>)> {
        entries_of(self.variables@)
    }

    pub open spec fn wf(&self) -> bool {
        sorted_keys(self.spec_variables())
    }

    /// The callback body template, `key=value` pairs joined by `&`.
    pub fn body(&self) -> (r: String)
        ensures
            r@ == body_text(self.spec_params()),
    {
        let mut out = String::new();
        let mut i: usize = 0;
        while i < self.params.len()
            invariant
                i <= self.params@.len(),
                out@ == body_text(self.params@.subrange(0, i as int)),
            decreases self.params@.len() - i,
        {
            if i > 0 {
                push_char(&mut out, '&');
            }
            push_param(&mut out, &self.params[i]);
            assert(self.params@.subrange(0, i + 1).drop_last() =~= self.params@.subrange(0, i as int));
            i = i + 1;
            assert(out@ =~= body_text(self.params@.subrange(0, i as int)));
        }
        assert(self.params@.subrange(0, self.params@.len() as int) =~= self.params@);
        out
    }

    /// The JSON document carried by the callback header.
    pub fn callback_json(&self) -> (r: String)
        ensures
            r@ == json_object(
                seq![
                    ("callbackUrl"@, self.spec_url()),
                    ("callbackBody"@, body_text(self.spec_params())),
                    ("callbackBodyType"@, "application/x-www-form-urlencoded"@),
                ],
            ),
    {
        let mut members: Vec<(String, String)> = Vec::new();
        members.push((String::from_str("callbackUrl"), self.url.clone()));
        members.push((String::from_str("callbackBody"), self.body()));
        members.push(
            (String::from_str("callbackBodyType"), String::from_str("application/x-www-form-urlencoded")),
        );
        let r = json_object_text(&members);
        assert(entries_of(members@) =~= seq![
            ("callbackUrl"@, self.spec_url()),
            ("callbackBody"@, body_text(self.spec_params())),
            ("callbackBodyType"@, "application/x-www-form-urlencoded"@),
        ]);
        r
    }

    /// The JSON document carried by the variables header.
    pub fn variables_json(&self) -> (r: String)
        ensures
            r@ == json_object(self.spec_variables()),
    {
        json_object_text(&self.variables)
    }

    /// Whether the callback defines any variable.
    pub fn has_variables(&self) -> (r: bool)
        ensures
            r == (self.spec_variables().len() > 0),
    {
        self.variables.len() > 0
    }

    /// Adds the callback headers to `req`: `x-oss-callback` with the base64
    /// of the callback document, and `x-oss-callback-var` with the base64 of
    /// the variables document when there are variables.
    pub fn apply(&self, req: OssRequest) -> (r: OssRequest)
        requires
            req.wf(),
        ensures
            r.wf(),
            r.spec_body() == req.spec_body(),
            r@.method == req@.method,
            r@.bucket == req@.bucket,
            r@.object == req@.object,
            r@.query == req@.query,
            r@.headers == with_callback_headers(req@.headers, *self),
    {
        proof {
            reveal_strlit("x-oss-callback");
            reveal_strlit("x-oss-callback-var");
            assert(crate::text::lower_seq("x-oss-callback"@) =~= "x-oss-callback"@);
            assert(crate::text::lower_seq("x-oss-callback-var"@) =~= "x-oss-callback-var"@);
        }
        let doc = self.callback_json();
        let encoded = encode_base64(doc.as_str().as_bytes());
        let mut r = req.add_header("x-oss-callback", encoded.as_str());
        if self.has_variables() {
            let vars = self.variables_json();
            let encoded_vars = encode_base64(vars.as_str().as_bytes());
            r = r.add_header("x-oss-callback-var", encoded_vars.as_str());
        }
        r
    }
}

/// `h` with the headers that ask for callback `c`.
pub open spec fn with_callback_headers(h: Map<Seq<char>, Seq<char>>, c: Callback) -> Map<
    Seq<char>,
    Seq<char>,
> {
    if c.spec_variables().len() > 0 {
        h.insert("x-oss-callback"@, base64_text(callback_document(&c))).insert(
            "x-oss-callback-var"@,
            base64_text(variables_document(&c)),
        )
    } else {
        h.insert("x-oss-callback"@, base64_text(callback_document(&c)))
    }
}

/// The UTF-8 bytes of a callback's JSON document.
pub open spec fn callback_document(c: &Callback) -> Seq<u8> {
    vstd::utf8::encode_utf8(
        json_object(
            seq![
                ("callbackUrl"@, c.spec_url()),
                ("callbackBody"@, body_text(c.spec_params())),
                ("callbackBodyType"@, "application/x-www-form-urlencoded"@),
            ],
        ),
    )
}

/// The UTF-8 bytes of a callback's variables document.
pub open spec fn variables_document(c: &Callback) -> Seq<u8> {
    vstd::utf8::encode_utf8(json_object(c.spec_variables()))
}

fn push_param(out: &mut String, p: &CallbackBodyParameter)
    ensures
        final(out)@ == old(out)@ + param_text(*p),
{
    match p {
        CallbackBodyParameter::Custom(k, n, _) => {
            push_str(out, k.as_str());
            push_str(out, "=${x:");
            push_str(out, n.as_str());
            push_char(out, '}');
            proof { reveal_strlit("=${x:"); }
        },
        CallbackBodyParameter::Constant(k, v) => {
            push_str(out, k.as_str());
            push_char(out, '=');
            push_str(out, v.as_str());
        },
        CallbackBodyParameter::Literal(k, v) => {
            push_str(out, k.as_str());
            push_char(out, '=');
            push_str(out, v.as_str());
        },
        CallbackBodyParameter::OssBucket(k) => push_system(out, k.as_str(), "bucket"),
        CallbackBodyParameter::OssObject(k) => push_system(out, k.as_str(), "object"),
        CallbackBodyParameter::OssETag(k) => push_system(out, k.as_str(), "etag"),
        CallbackBodyParameter::OssSize(k) => push_system(out, k.as_str(), "size"),
        CallbackBodyParameter::OssCrc64(k) => push_system(out, k.as_str(), "crc64"),
        CallbackBodyParameter::OssClientIp(k) => push_system(out, k.as_str(), "clientIp"),
        CallbackBodyParameter::OssContentMd5(k) => push_system(
            out,
            k.as_str(),
            "contentMd5",
        ),
        CallbackBodyParameter::OssMimeType(k) => push_system(out, k.as_str(), "mimeType"),
        CallbackBodyParameter::OssImageWidth(k) => push_system(
            out,
            k.as_str(),
            "imageInfo.width",
        ),
        CallbackBodyParameter::OssImageHeight(k) => push_system(
            out,
            k.as_str(),
            "imageInfo.height",
        ),
        CallbackBodyParameter::OssImageFormat(k) => push_system(
            out,
            k.as_str(),
            "imageInfo.format",
        ),
    }
    assert(out@ =~= old(out)@ + param_text(*p));
}

fn push_system(out: &mut String, key: &str, field: &str)
    ensures
        final(out)@ == old(out)@ + key@ + seq!['='] + placeholder(field@),
{
    push_str(out, key);
    push_str(out, "=${");
    push_str(out, field);
    push_char(out, '}');
    proof {
        reveal_strlit("=${");
    }
    assert(out@ =~= old(out)@ + key@ + seq!['='] + placeholder(field@));
}

impl CallbackBuilder {
    /// A callback to `url` with no parameters and no variables.
    pub fn new(url: &str) -> (r: CallbackBuilder)
        ensures
            r.spec_callback().wf(),
            r.spec_callback().spec_url() == url@,
            r.spec_callback().spec_params() == Seq::<CallbackBodyParameter>::empty(),
            r.spec_callback().spec_variables() == Seq::<(Seq<char>, Seq<char>)>::empty(),
    {
        let r = CallbackBuilder {
            callback: Callback { url: url.to_owned(), params: Vec::new(), variables: Vec::new() },
        };
        assert(r.spec_callback().spec_variables() =~= Seq::<(Seq<char>, Seq<char>)>::empty());
        r
    }

    pub closed spec fn spec_callback(&self) -> Callback {
        self.callback
    }

    /// Appends a body parameter; a `Custom` one also defines its variable.
    pub fn body_parameter(self, p: CallbackBodyParameter) -> (r: CallbackBuilder)
        requires
            self.spec_callback().wf(),
        ensures
            r.spec_callback().wf(),
            r.spec_callback().spec_url() == self.spec_callback().spec_url(),
            r.spec_callback().spec_params() == self.spec_callback().spec_params().push(p),
            entries_map(r.spec_callback().spec_variables()) == (match p {
                CallbackBodyParameter::Custom(_, n, v) => entries_map(
                    self.spec_callback().spec_variables(),
                ).insert(seq!['x', ':'] + n@, v@),
                _ => entries_map(self.spec_callback().spec_variables()),
            }),
    {
        let mut s = self;
        match &p {
            CallbackBodyParameter::Custom(_, n, v) => {
                let mut name = String::from_str("x:");
                push_str(&mut name, n.as_str());
                proof { reveal_strlit("x:"); }
                assert(name@ =~= seq!['x', ':'] + n@);
                put_entry(&mut s.callback.variables, name.as_str(), v.as_str());
            },
            _ => {},
        }
        s.callback.params.push(p);
        s
    }

    /// Defines the variable `x:<name>`, replacing an earlier value.
    pub fn custom_variable(self, name: &str, value: &str) -> (r: CallbackBuilder)
        requires
            self.spec_callback().wf(),
        ensures
            r.spec_callback().wf(),
            r.spec_callback().spec_url() == self.spec_callback().spec_url(),
            r.spec_callback().spec_params() == self.spec_callback().spec_params(),
            entries_map(r.spec_callback().spec_variables()) == entries_map(
                self.spec_callback().spec_variables(),
            ).insert(seq!['x', ':'] + name@, value@),
    {
        let mut s = self;
        let mut full = String::from_str("x:");
        push_str(&mut full, name);
        proof { reveal_strlit("x:"); }
        assert(full@ =~= seq!['x', ':'] + name@);
        put_entry(&mut s.callback.variables, full.as_str(), value);
        s
    }

    pub fn build(self) -> (r: Callback)
        ensures
            r == self.spec_callback(),
    {
        self.callback
    }
}

} // verus!
