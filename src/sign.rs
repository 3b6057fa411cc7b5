//! Request signing: the canonical form of a request, the string that is
//! signed, and the authorization header (HMAC-SHA256, version 4 scheme).

use vstd::prelude::*;
use crate::client::Client;
use crate::codec::{hex_of, to_hex, uri_encode, uri_encoded};
use crate::keys::Entries;
use crate::request::{method_name, OssRequest, RequestView};
use crate::text::{lower_seq, push_char, push_str};
use crate::time::{date_text, timestamp_text, SigningTime};

verus! {

/// The SHA-256 digest of `b`.
pub uninterp spec fn sha256_of(b: Seq<u8>) -> Seq<u8>;

/// The HMAC-SHA256 of `msg` under `key`.
pub uninterp spec fn hmac_sha256_of(key: Seq<u8>, msg: Seq<u8>) -> Seq<u8>;

/// Relies on `sha2::Sha256::digest`: the 32-byte SHA-256 digest of the input.
#[verifier::external_body]
fn sha256(b: &[u8]) -> (r: Vec<u8>)
    ensures
        r@ == sha256_of(b@),
        r@.len() == 32,
{
    <sha2::Sha256 as sha2::Digest>::digest(b).to_vec()
}

/// Relies on `hmac::Hmac::<sha2::Sha256>`: `new_from_slice` accepts a key of
/// any length (it never returns its error), and `finalize` gives the 32-byte
/// tag of the message.
#[verifier::external_body]
fn hmac_sha256(key: &[u8], msg: &[u8]) -> (r: Vec<u8>)
    ensures
        r@ == hmac_sha256_of(key@, msg@),
        r@.len() == 32,
{
    let mut mac = <hmac::Hmac<sha2::Sha256> as hmac::Mac>::new_from_slice(key).expect(
        "HMAC accepts keys of any length",
    );
    hmac::Mac::update(&mut mac, msg);
    hmac::Mac::finalize(mac).into_bytes().to_vec()
}

pub open spec fn utf8(s: Seq<char>) -> Seq<u8> {
    vstd::utf8::encode_utf8(s)
}

pub open spec fn is_space(c: char) -> bool {
    c == ' ' || c == '\t'
}

pub open spec fn trim_front(s: Seq<char>) -> Seq<char>
    decreases s.len(),
{
    if s.len() > 0 && is_space(s[0]) {
        trim_front(s.drop_first())
    } else {
        s
    }
}

pub open spec fn trim_back(s: Seq<char>) -> Seq<char>
    decreases s.len(),
{
    if s.len() > 0 && is_space(s.last()) {
        trim_back(s.drop_last())
    } else {
        s
    }
}

/// `s` without leading and trailing spaces and tabs.
pub open spec fn trimmed(s: Seq<char>) -> Seq<char> {
    trim_back(trim_front(s))
}

pub fn trim(s: &str) -> (r: String)
    ensures
        r@ == trimmed(s@),
{
    let cs = crate::text::chars_of(s);
    let n = cs.len();
    let mut i: usize = 0;
    assert(cs@.subrange(0, n as int) =~= cs@);
    while i < n && (cs[i] == ' ' || cs[i] == '\t')
        invariant
            n == cs@.len(),
            cs@ == s@,
            i <= n,
            trim_front(s@) == trim_front(cs@.subrange(i as int, n as int)),
        decreases n - i,
    {
        assert(cs@.subrange(i as int, n as int).drop_first() =~= cs@.subrange(i + 1, n as int));
        i = i + 1;
    }
    proof {
        if i == 0 {
            assert(cs@.subrange(0, n as int) =~= cs@);
        }
    }
    let ghost front = cs@.subrange(i as int, n as int);
    let mut j: usize = n;
    while j > i && (cs[j - 1] == ' ' || cs[j - 1] == '\t')
        invariant
            n == cs@.len(),
            i <= j <= n,
            front == cs@.subrange(i as int, n as int),
            trim_back(front) == trim_back(cs@.subrange(i as int, j as int)),
        decreases j,
    {
        assert(cs@.subrange(i as int, j as int).drop_last() =~= cs@.subrange(i as int, j - 1));
        j = j - 1;
    }
    proof {
        if j == n {
            assert(cs@.subrange(i as int, n as int) =~= front);
        }
    }
    crate::text::string_of_range(&cs, i, j)
}

/// A header takes part in the signature when it is `content-type`,
/// `content-md5` or an `x-oss-` header.
pub open spec fn signed_header(name: Seq<char>) -> bool {
    name == "content-type"@ || name == "content-md5"@ || (name.len() >= 6 && name.subrange(0, 6)
        == "x-oss-"@)
}

/// `name:value\n` for each signed header, in key order, values trimmed.
pub open spec fn canonical_headers(h: Entries) -> Seq<char>
    decreases h.len(),
{
    if h.len() == 0 {
        Seq::empty()
    } else {
        canonical_headers(h.drop_last()) + if signed_header(h.last().0) {
            h.last().0 + seq![':'] + trimmed(h.last().1) + seq!['\n']
        } else {
            Seq::empty()
        }
    }
}

pub open spec fn query_pair(k: Seq<char>, v: Seq<char>) -> Seq<char> {
    if v.len() == 0 {
        uri_encoded(utf8(k), false)
    } else {
        uri_encoded(utf8(k), false) + seq!['='] + uri_encoded(utf8(v), false)
    }
}

/// `key=value` pairs in key order, percent-encoded, joined by `&`; an empty
/// value leaves the key alone.
pub open spec fn canonical_query(q: Entries) -> Seq<char>
    decreases q.len(),
{
    if q.len() == 0 {
        Seq::empty()
    } else if q.len() == 1 {
        query_pair(q[0].0, q[0].1)
    } else {
        canonical_query(q.drop_last()) + seq!['&'] + query_pair(q.last().0, q.last().1)
    }
}

/// `/`, then `bucket/` and the percent-encoded key when there is a bucket.
pub open spec fn canonical_uri(bucket: Seq<char>, object: Seq<char>) -> Seq<char> {
    if bucket.len() == 0 {
        seq!['/']
    } else {
        seq!['/'] + bucket + seq!['/'] + uri_encoded(utf8(object), true)
    }
}

pub open spec fn nl() -> Seq<char> {
    seq!['\n']
}

/// The canonical request: method, resource, query, signed headers, an empty
/// list of additional headers and the unsigned-payload marker, one per line.
pub open spec fn canonical_request(req: OssRequest) -> Seq<char> {
    method_name(req@.method) + nl() + canonical_uri(req@.bucket, req@.object) + nl()
        + canonical_query(req.query_entries()) + nl() + canonical_headers(req.header_entries())
        + nl() + nl() + "UNSIGNED-PAYLOAD"@
}

fn push_canonical_query(out: &mut String, q: &Vec<(String, String)>)
    ensures
        final(out)@ == old(out)@ + canonical_query(crate::keys::entries_of(q@)),
{
    let ghost s = crate::keys::entries_of(q@);
    let ghost start = out@;
    let mut i: usize = 0;
    while i < q.len()
        invariant
            s == crate::keys::entries_of(q@),
            i <= q@.len(),
            out@ == start + canonical_query(s.subrange(0, i as int)),
        decreases q@.len() - i,
    {
        if i > 0 {
            push_char(out, '&');
        }
        let k = uri_encode(q[i].0.as_str(), false);
        push_str(out, k.as_str());
        if !q[i].1.as_str().is_empty() {
            push_char(out, '=');
            let v = uri_encode(q[i].1.as_str(), false);
            push_str(out, v.as_str());
        }
        proof {
            let t = s.subrange(0, i + 1);
            assert(t.drop_last() =~= s.subrange(0, i as int));
            if i == 0 {
                assert(t.len() == 1);
            }
        }
        i = i + 1;
        assert(out@ =~= start + canonical_query(s.subrange(0, i as int)));
    }
    assert(s.subrange(0, q@.len() as int) =~= s);
}

fn is_signed_header(name: &str) -> (r: bool)
    ensures
        r == signed_header(name@),
{
    let cs = crate::text::chars_of(name);
    let prefix = crate::text::chars_of("x-oss-");
    proof {
        reveal_strlit("x-oss-");
    }
    let starts = cs.len() >= 6 && crate::xml::find(&cs, &prefix, 0) == Some(0usize);
    proof {
        if cs@.len() >= 6 {
            crate::xml::lemma_find_from_bounds(cs@, prefix@, 0);
            if cs@.subrange(0, 6) == prefix@ {
                assert(crate::xml::find_from(cs@, prefix@, 0) == Some(0int));
            }
        }
    }
    let ct = String::from_str("content-type");
    let md5 = String::from_str("content-md5");
    let own = name.to_owned();
    own == ct || own == md5 || starts
}

fn push_canonical_headers(out: &mut String, h: &Vec<(String, String)>)
    ensures
        final(out)@ == old(out)@ + canonical_headers(crate::keys::entries_of(h@)),
{
    let ghost s = crate::keys::entries_of(h@);
    let ghost start = out@;
    let mut i: usize = 0;
    while i < h.len()
        invariant
            s == crate::keys::entries_of(h@),
            i <= h@.len(),
            out@ == start + canonical_headers(s.subrange(0, i as int)),
        decreases h@.len() - i,
    {
        if is_signed_header(h[i].0.as_str()) {
            push_str(out, h[i].0.as_str());
            push_char(out, ':');
            let v = trim(h[i].1.as_str());
            push_str(out, v.as_str());
            push_char(out, '\n');
        }
        assert(s.subrange(0, i + 1).drop_last() =~= s.subrange(0, i as int));
        i = i + 1;
        assert(out@ =~= start + canonical_headers(s.subrange(0, i as int)));
    }
    assert(s.subrange(0, h@.len() as int) =~= s);
}

/// Writes the canonical request of `req`.
pub fn canonical_request_text(req: &OssRequest) -> (r: String)
    ensures
        r@ == canonical_request(*req),
{
    let mut out = req.request_method().name();
    push_char(&mut out, '\n');
    push_char(&mut out, '/');
    let bucket = req.bucket_name();
    if !bucket.is_empty() {
        push_str(&mut out, bucket);
        push_char(&mut out, '/');
        let key = uri_encode(req.object_key(), true);
        push_str(&mut out, key.as_str());
    }
    push_char(&mut out, '\n');
    push_canonical_query(&mut out, req.query_list());
    push_char(&mut out, '\n');
    push_canonical_headers(&mut out, req.header_list());
    push_char(&mut out, '\n');
    push_char(&mut out, '\n');
    push_str(&mut out, "UNSIGNED-PAYLOAD");
    assert(out@ =~= canonical_request(*req));
    out
}


/// `<date>/<region>/oss/aliyun_v4_request`
pub open spec fn scope(t: SigningTime, region: Seq<char>) -> Seq<char> {
    date_text(t) + seq!['/'] + region + "/oss/aliyun_v4_request"@
}

/// The string that is signed: the scheme, the timestamp, the scope and the
/// hex SHA-256 of the canonical request, one per line.
pub open spec fn string_to_sign(req: OssRequest, t: SigningTime, region: Seq<char>) -> Seq<char> {
    "OSS4-HMAC-SHA256"@ + nl() + timestamp_text(t) + nl() + scope(t, region) + nl() + hex_of(
        sha256_of(utf8(canonical_request(req))),
    )
}

/// The key derived from the secret, the date, the region and the service.
pub open spec fn signing_key(secret: Seq<char>, t: SigningTime, region: Seq<char>) -> Seq<u8> {
    hmac_sha256_of(
        hmac_sha256_of(
            hmac_sha256_of(hmac_sha256_of(utf8("aliyun_v4"@ + secret), utf8(date_text(t))), utf8(region)),
            utf8("oss"@),
        ),
        utf8("aliyun_v4_request"@),
    )
}

/// The value of the `authorization` header of `req` signed by `c` at `t`.
pub open spec fn authorization(c: Client, req: OssRequest, t: SigningTime) -> Seq<char> {
    "OSS4-HMAC-SHA256 Credential="@ + c.spec_access_key_id() + seq!['/'] + scope(t, c.spec_region())
        + ",Signature="@ + hex_of(
        hmac_sha256_of(
            signing_key(c.spec_access_key_secret(), t, c.spec_region()),
            utf8(string_to_sign(req, t, c.spec_region())),
        ),
    )
}

/// The headers that a signature covers besides the request's own: the
/// timestamp and the unsigned-payload marker.
pub open spec fn dated_view(v: RequestView, t: SigningTime) -> RequestView {
    RequestView {
        headers: v.headers.insert("x-oss-date"@, timestamp_text(t)).insert(
            "x-oss-content-sha256"@,
            "UNSIGNED-PAYLOAD"@,
        ),
        ..v
    }
}

/// Adds `x-oss-date` and `x-oss-content-sha256`.
pub fn add_signing_headers(req: OssRequest, t: &SigningTime) -> (r: OssRequest)
    requires
        req.wf(),
        t.wf(),
    ensures
        r.wf(),
        r.spec_body() == req.spec_body(),
        r@ == dated_view(req@, *t),
{
    let stamp = t.timestamp();
    proof {
        reveal_strlit("x-oss-date");
        reveal_strlit("x-oss-content-sha256");
        assert(lower_seq("x-oss-date"@) =~= "x-oss-date"@);
        assert(lower_seq("x-oss-content-sha256"@) =~= "x-oss-content-sha256"@);
    }
    req.add_header("x-oss-date", stamp.as_str()).add_header(
        "x-oss-content-sha256",
        "UNSIGNED-PAYLOAD",
    )
}

fn utf8_bytes(s: &String) -> (r: Vec<u8>)
    ensures
        r@ == utf8(s@),
{
    s.as_str().as_bytes_vec()
}

impl Client {
    /// The string that a signature of `req` at `t` covers.
    pub fn string_to_sign(&self, req: &OssRequest, t: &SigningTime) -> (r: String)
        requires
            t.wf(),
        ensures
            r@ == string_to_sign(*req, *t, self.spec_region()),
    {
        let canonical = canonical_request_text(req);
        let digest = sha256(utf8_bytes(&canonical).as_slice());
        let mut out = String::from_str("OSS4-HMAC-SHA256");
        push_char(&mut out, '\n');
        let stamp = t.timestamp();
        push_str(&mut out, stamp.as_str());
        push_char(&mut out, '\n');
        let date = t.date();
        push_str(&mut out, date.as_str());
        push_char(&mut out, '/');
        push_str(&mut out, self.region());
        push_str(&mut out, "/oss/aliyun_v4_request");
        push_char(&mut out, '\n');
        let hex = to_hex(digest.as_slice());
        push_str(&mut out, hex.as_str());
        assert(out@ =~= string_to_sign(*req, *t, self.spec_region()));
        out
    }

    /// The `authorization` header value of `req` signed at `t`.
    pub fn authorization(&self, req: &OssRequest, t: &SigningTime) -> (r: String)
        requires
            t.wf(),
        ensures
            r@ == authorization(*self, *req, *t),
    {
        let mut secret = String::from_str("aliyun_v4");
        push_str(&mut secret, self.access_key_secret());
        let date = t.date();
        let region = String::from_str(self.region());
        let service = String::from_str("oss");
        let terminator = String::from_str("aliyun_v4_request");
        let k1 = hmac_sha256(utf8_bytes(&secret).as_slice(), utf8_bytes(&date).as_slice());
        let k2 = hmac_sha256(k1.as_slice(), utf8_bytes(&region).as_slice());
        let k3 = hmac_sha256(k2.as_slice(), utf8_bytes(&service).as_slice());
        let key = hmac_sha256(k3.as_slice(), utf8_bytes(&terminator).as_slice());
        let to_sign = self.string_to_sign(req, t);
        let tag = hmac_sha256(key.as_slice(), utf8_bytes(&to_sign).as_slice());
        let signature = to_hex(tag.as_slice());
        let mut out = String::from_str("OSS4-HMAC-SHA256 Credential=");
        push_str(&mut out, self.access_key_id());
        push_char(&mut out, '/');
        push_str(&mut out, date.as_str());
        push_char(&mut out, '/');
        push_str(&mut out, self.region());
        push_str(&mut out, "/oss/aliyun_v4_request");
        push_str(&mut out, ",Signature=");
        push_str(&mut out, signature.as_str());
        assert(secret@ =~= "aliyun_v4"@ + self.spec_access_key_secret());
        assert(out@ =~= authorization(*self, *req, *t));
        out
    }

    /// Signs a request whose signing headers are already in place: adds its
    /// `authorization` header.
    pub fn authorize(&self, req: OssRequest, t: &SigningTime) -> (r: OssRequest)
        requires
            req.wf(),
            t.wf(),
        ensures
            r.wf(),
            r.spec_body() == req.spec_body(),
            r@ == (RequestView {
                headers: req@.headers.insert("authorization"@, authorization(*self, req, *t)),
                ..req@
            }),
    {
        let value = self.authorization(&req, t);
        proof {
            reveal_strlit("authorization");
            assert(lower_seq("authorization"@) =~= "authorization"@);
        }
        req.add_header("authorization", value.as_str())
    }

    /// Dates and signs a request at `t`: the signature covers the request
    /// with its signing headers added, whichever well-formed value holds them.
    pub fn sign(&self, req: OssRequest, t: &SigningTime) -> (r: OssRequest)
        requires
            req.wf(),
            t.wf(),
        ensures
            r.wf(),
            r.spec_body() == req.spec_body(),
            forall|d: OssRequest|
                #![trigger authorization(*self, d, *t)]
                d.wf() && d@ == dated_view(req@, *t) ==> r@ == (RequestView {
                    headers: d@.headers.insert("authorization"@, authorization(*self, d, *t)),
                    ..d@
                }),
    {
        let dated = add_signing_headers(req, t);
        let r = self.authorize(dated, t);
        assert forall|d: OssRequest|
            #![trigger authorization(*self, d, *t)]
            d.wf() && d@ == dated_view(req@, *t) implies r@ == (RequestView {
                headers: d@.headers.insert("authorization"@, authorization(*self, d, *t)),
                ..d@
            }) by {
            OssRequest::lemma_view_determines_tables(d, dated);
            assert(canonical_request(d) == canonical_request(dated));
        }
        r
    }

    /// The URL of a request: the bucket's host under the endpoint, the
    /// percent-encoded key, and the canonical query after `?` if there is one.
    pub fn url(&self, req: &OssRequest) -> (r: String)
        ensures
            r@ == "https://"@ + (if req@.bucket.len() > 0 {
                req@.bucket + seq!['.']
            } else {
                Seq::empty()
            }) + self.spec_endpoint() + seq!['/'] + uri_encoded(utf8(req@.object), true) + (
            if req.query_entries().len() > 0 {
                seq!['?'] + canonical_query(req.query_entries())
            } else {
                Seq::empty()
            }),
    {
        let mut out = String::from_str("https://");
        let bucket = req.bucket_name();
        if !bucket.is_empty() {
            push_str(&mut out, bucket);
            push_char(&mut out, '.');
        }
        push_str(&mut out, self.endpoint());
        push_char(&mut out, '/');
        let key = uri_encode(req.object_key(), true);
        push_str(&mut out, key.as_str());
        if req.query_list().len() > 0 {
            push_char(&mut out, '?');
            push_canonical_query(&mut out, req.query_list());
        }
        assert(out@ =~= "https://"@ + (if req@.bucket.len() > 0 {
            req@.bucket + seq!['.']
        } else {
            Seq::empty()
        }) + self.spec_endpoint() + seq!['/'] + uri_encoded(utf8(req@.object), true) + (
        if req.query_entries().len() > 0 {
            seq!['?'] + canonical_query(req.query_entries())
        } else {
            Seq::empty()
        }));
        out
    }
}

} // verus!
