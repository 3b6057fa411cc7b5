//! The request model: what one HTTP call to the service consists of.

use vstd::prelude::*;
use crate::keys::{entries_map, entries_of, lemma_sorted_determined, put_entry, sorted_keys};
use crate::text::{decimal, decimal_string, lower_seq, to_lower};

verus! {

#[derive(Debug, Clone, Copy, PartialEq, Eq, Structural)]
pub enum RequestMethod {
    Get,
    Put,
    Post,
    Delete,
    Head,
}

pub open spec fn method_name(m: RequestMethod) -> Seq<char> {
    match m {
        RequestMethod::Get => "GET"@,
        RequestMethod::Put => "PUT"@,
        RequestMethod::Post => "POST"@,
        RequestMethod::Delete => "DELETE"@,
        RequestMethod::Head => "HEAD"@,
    }
}

impl RequestMethod {
    /// The method's name as it stands on the request line.
    pub fn name(&self) -> (r: String)
        ensures
            r@ == method_name(*self),
    {
        match self {
            RequestMethod::Get => String::from_str("GET"),
            RequestMethod::Put => String::from_str("PUT"),
            RequestMethod::Post => String::from_str("POST"),
            RequestMethod::Delete => String::from_str("DELETE"),
            RequestMethod::Head => String::from_str("HEAD"),
        }
    }
}

/// A half-open byte range `[start, end)` of a local file.
#[derive(Debug, Clone, Copy, PartialEq, Eq, Structural)]
pub struct ByteRange {
    pub start: u64,
    pub end: u64,
}

impl ByteRange {
    /// How many bytes the range spans; an inverted range spans none.
    pub fn len(&self) -> (r: u64)
        ensures
            r == (if self.start <= self.end {
                self.end - self.start
            } else {
                0
            }),
    {
        if self.start <= self.end {
            self.end - self.start
        } else {
            0
        }
    }
}

/// The payload of a request.
#[derive(Debug, Clone)]
pub enum RequestBody {
    Empty,
    Bytes(Vec<u8>),
    /// A local file, whole or only the bytes of a range.
    File(String, Option<ByteRange>),
}

/// What a request denotes: header names are lower case, and both tables are
/// maps (the last value written under a name wins).
pub struct RequestView {
    pub method: RequestMethod,
    pub bucket: Seq<char>,
    pub object: Seq<char>,
    pub headers: Map<Seq<char>, Seq<char>>,
    pub query: Map<Seq<char>, Seq<char>>,
}

/// A description of one HTTP call, built fluently and handed to the signer.
#[derive(Debug, Clone)]
pub struct OssRequest {
    method: RequestMethod,
    bucket: String,
    object: String,
    headers: Vec<(String, String)>,
    query: Vec<(String, String)>,
    body: RequestBody,
}

impl View for OssRequest {
    type V = RequestView;

    open spec fn view(&self) -> RequestView {
        RequestView {
            method: self.spec_method(),
            bucket: self.spec_bucket(),
            object: self.spec_object(),
            headers: entries_map(self.header_entries()),
            query: entries_map(self.query_entries()),
        }
    }
}

impl OssRequest {
    pub closed spec fn spec_method(&self) -> RequestMethod {
        self.method
    }

    pub closed spec fn spec_bucket(&self) -> Seq<char> {
        self.bucket@
    }

    pub closed spec fn spec_object(&self) -> Seq<char> {
        self.object@
    }

    pub closed spec fn spec_body(&self) -> RequestBody {
        self.body
    }

    /// The header table, in key order.
    pub closed spec fn header_entries(&self) -> Seq<(Seq<char>, Seq<char>)> {
        entries_of(self.headers@)
    }

    /// The query table, in key order.
    pub closed spec fn query_entries(&self) -> Seq<(Seq<char>, Seq<char>)> {
        entries_of(self.query@)
    }

    /// Both tables are sorted by key, and header names are lower case.
    pub open spec fn wf(&self) -> bool {
        &&& sorted_keys(self.header_entries())
        &&& sorted_keys(self.query_entries())
        &&& forall|k: Seq<char>| #[trigger]
            self@.headers.contains_key(k) ==> lower_seq(k) == k
    }

    /// Two well-formed requests with the same view hold their tables in the
    /// same order.
    pub proof fn lemma_view_determines_tables(a: OssRequest, b: OssRequest)
        requires
            a.wf(),
            b.wf(),
            a@ == b@,
        ensures
            a.header_entries() == b.header_entries(),
            a.query_entries() == b.query_entries(),
    {
        lemma_sorted_determined(a.header_entries(), b.header_entries());
        lemma_sorted_determined(a.query_entries(), b.query_entries());
    }

    /// A `GET` with no target, no headers, no query and no body.
    pub fn new() -> (r: OssRequest)
        ensures
            r.wf(),
            r@.method == RequestMethod::Get,
            r@.bucket == Seq::<char>::empty(),
            r@.object == Seq::<char>::empty(),
            r@.headers == Map::<Seq<char>, Seq<char>>::empty(),
            r@.query == Map::<Seq<char>, Seq<char>>::empty(),
            r.spec_body() is Empty,
    {
        let r = OssRequest {
            method: RequestMethod::Get,
            bucket: String::new(),
            object: String::new(),
            headers: Vec::new(),
            query: Vec::new(),
            body: RequestBody::Empty,
        };
        assert(r@.headers =~= Map::<Seq<char>, Seq<char>>::empty());
        assert(r@.query =~= Map::<Seq<char>, Seq<char>>::empty());
        r
    }

    pub fn method(self, m: RequestMethod) -> (r: OssRequest)
        requires
            self.wf(),
        ensures
            r.wf(),
            r@ == (RequestView { method: m, ..self@ }),
            r.spec_body() == self.spec_body(),
    {
        OssRequest { method: m, ..self }
    }

    pub fn bucket(self, name: &str) -> (r: OssRequest)
        requires
            self.wf(),
        ensures
            r.wf(),
            r@ == (RequestView { bucket: name@, ..self@ }),
            r.spec_body() == self.spec_body(),
    {
        OssRequest { bucket: name.to_owned(), ..self }
    }

    pub fn object(self, key: &str) -> (r: OssRequest)
        requires
            self.wf(),
        ensures
            r.wf(),
            r@ == (RequestView { object: key@, ..self@ }),
            r.spec_body() == self.spec_body(),
    {
        OssRequest { object: key.to_owned(), ..self }
    }

    /// Sets a header; names are compared without regard to ASCII case, and a
    /// later value replaces an earlier one.
    pub fn add_header(self, name: &str, value: &str) -> (r: OssRequest)
        requires
            self.wf(),
        ensures
            r.wf(),
            r@ == (RequestView { headers: self@.headers.insert(lower_seq(name@), value@), ..self@ }),
            r.spec_body() == self.spec_body(),
    {
        let mut s = self;
        let lower = to_lower(name);
        let ghost before = s@.headers;
        put_entry(&mut s.headers, lower.as_str(), value);
        proof {
            assert forall|k: Seq<char>| #[trigger] s@.headers.contains_key(k) implies lower_seq(k)
                == k by {
                if k != lower@ {
                    assert(before.contains_key(k));
                } else {
                    assert(lower_seq(lower_seq(name@)) =~= lower_seq(name@));
                }
            }
        }
        s
    }

    /// Sets a query parameter; a later value replaces an earlier one.
    pub fn add_query(self, name: &str, value: &str) -> (r: OssRequest)
        requires
            self.wf(),
        ensures
            r.wf(),
            r@ == (RequestView { query: self@.query.insert(name@, value@), ..self@ }),
            r.spec_body() == self.spec_body(),
    {
        let mut s = self;
        put_entry(&mut s.query, name, value);
        s
    }

    pub fn body(self, body: RequestBody) -> (r: OssRequest)
        requires
            self.wf(),
        ensures
            r.wf(),
            r@ == self@,
            r.spec_body() == body,
    {
        OssRequest { body, ..self }
    }

    /// Sets the `content-length` header to the decimal notation of `n`.
    pub fn content_length(self, n: u64) -> (r: OssRequest)
        requires
            self.wf(),
        ensures
            r.wf(),
            r@ == (RequestView {
                headers: self@.headers.insert("content-length"@, decimal(n as nat)),
                ..self@
            }),
            r.spec_body() == self.spec_body(),
    {
        let d = decimal_string(n);
        let r = self.add_header("content-length", d.as_str());
        proof {
            reveal_strlit("content-length");
            assert(lower_seq("content-length"@) =~= "content-length"@);
        }
        r
    }

    pub fn request_method(&self) -> (r: RequestMethod)
        ensures
            r == self@.method,
    {
        self.method
    }

    pub fn bucket_name(&self) -> (r: &str)
        ensures
            r@ == self@.bucket,
    {
        self.bucket.as_str()
    }

    pub fn object_key(&self) -> (r: &str)
        ensures
            r@ == self@.object,
    {
        self.object.as_str()
    }

    /// The headers in key order.
    pub fn header_list(&self) -> (r: &Vec<(String, String)>)
        ensures
            entries_of(r@) == self.header_entries(),
    {
        &self.headers
    }

    /// The query parameters in key order.
    pub fn query_list(&self) -> (r: &Vec<(String, String)>)
        ensures
            entries_of(r@) == self.query_entries(),
    {
        &self.query
    }

    pub fn request_body(&self) -> (r: &RequestBody)
        ensures
            *r == self.spec_body(),
    {
        &self.body
    }
}

} // verus!
