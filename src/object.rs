//! Single-object operations: put, append, download, folders, metadata,
//! copy, delete and restore, each planned as one request.

use vstd::prelude::*;
use crate::callback::{with_callback_headers, Callback};
use crate::client::Client;
use crate::codec::{base64_bytes, base64_text, content_md5, decode_base64, md5_of, uri_encode, uri_encoded};
use crate::sign::utf8;
use crate::error::Error;
use crate::multipart::{
    check_target, insert_opt, is_bytes_body, no_entries, opt_view, target_error, CompletionKind,
};
use crate::request::{OssRequest, RequestBody, RequestMethod, RequestView};
use crate::text::{
    decimal, decimal_string, folder_key, lower_seq, make_folder_key, push_str, trim_key,
    trimmed_key,
};
use crate::validate::{valid_bucket_name, valid_file_path, validate_bucket_name, validate_file_path};
use crate::xml::{close_tag, escaped, open_tag, push_element};

verus! {

/// Optional settings of a put or an append.
#[derive(Debug, Clone)]
pub struct PutObjectOptions {
    pub content_type: Option<String>,
    /// User metadata: each `(name, value)` becomes the header
    /// `x-oss-meta-<name>`.
    pub metadata: Vec<(String, String)>,
    /// Asks the service to call back once the object is stored.
    pub callback: Option<Callback>,
}

/// A byte span of an object: from `start` to `last` inclusive, or to the
/// end when `last` is absent.
#[derive(Debug, Clone, Copy, PartialEq, Eq, Structural)]
pub struct ByteSpan {
    pub start: u64,
    pub last: Option<u64>,
}

#[derive(Debug, Clone)]
pub struct GetObjectOptions {
    pub range: Option<ByteSpan>,
    pub version_id: Option<String>,
}

/// Selects an object version.
#[derive(Debug, Clone)]
pub struct VersionOptions {
    pub version_id: Option<String>,
}

/// The objects that one batch delete removes.
#[derive(Debug, Clone)]
pub struct DeleteMultipleObjectsConfig {
    pub keys: Vec<String>,
    /// Whether the answer lists only the failures.
    pub quiet: bool,
}

/// How long a restored archive object stays readable.
#[derive(Debug, Clone, Copy)]
pub struct RestoreObjectRequest {
    pub days: u32,
}

/// `bytes=<start>-` followed by `<last>` when there is one.
pub open spec fn span_text(s: ByteSpan) -> Seq<char> {
    let head = "bytes="@ + decimal(s.start as nat) + seq!['-'];
    match s.last {
        Some(l) => head + decimal(l as nat),
        None => head,
    }
}

/// The `Range` header value of a span.
pub fn range_header(s: ByteSpan) -> (r: String)
    ensures
        r@ == span_text(s),
{
    let mut r = String::from_str("bytes=");
    crate::text::push_decimal(&mut r, s.start);
    crate::text::push_char(&mut r, '-');
    match s.last {
        Some(l) => crate::text::push_decimal(&mut r, l),
        None => {},
    }
    r
}

/// How many bytes an object of `size` bytes answers to a request for span
/// `s`: the span clipped to the object; nothing when it starts past the
/// end; the whole object when the span is inverted (such a header is
/// ignored).
pub open spec fn served_len(s: ByteSpan, size: nat) -> nat {
    if s.last matches Some(l) && l < s.start {
        size
    } else if s.start >= size {
        0
    } else {
        let last = match s.last {
            Some(l) => if l < size {
                l as nat
            } else {
                (size - 1) as nat
            },
            None => (size - 1) as nat,
        };
        (last - s.start + 1) as nat
    }
}

pub fn served_length(s: ByteSpan, size: u64) -> (r: u64)
    ensures
        r == served_len(s, size as nat),
{
    match s.last {
        Some(l) => if l < s.start {
            return size;
        },
        None => {},
    }
    if s.start >= size {
        return 0;
    }
    let last = match s.last {
        Some(l) => if l < size {
            l
        } else {
            size - 1
        },
        None => size - 1,
    };
    last - s.start + 1
}

/// A request for the first `n` bytes of an object that has at least `n`
/// bytes is answered with exactly `n` bytes.
pub proof fn law_leading_span(n: u64, size: u64)
    requires
        0 < n <= size,
    ensures
        served_len(ByteSpan { start: 0, last: Some((n - 1) as u64) }, size as nat) == n,
{
}

/// The headers of a put or an append: the length, the content type and the
/// user metadata.
pub open spec fn put_headers(o: Option<PutObjectOptions>, len: nat) -> Map<Seq<char>, Seq<char>> {
    let h = no_entries().insert("content-length"@, decimal(len));
    match o {
        Some(o) => with_metadata(
            insert_opt(h, "content-type"@, opt_view(o.content_type)),
            o.metadata@,
        ),
        None => h,
    }
}

pub open spec fn with_metadata(h: Map<Seq<char>, Seq<char>>, meta: Seq<(String, String)>) -> Map<
    Seq<char>,
    Seq<char>,
>
    decreases meta.len(),
{
    if meta.len() == 0 {
        h
    } else {
        with_metadata(h, meta.drop_last()).insert(
            lower_seq("x-oss-meta-"@ + meta.last().0@),
            meta.last().1@,
        )
    }
}

pub open spec fn put_callback(o: Option<PutObjectOptions>) -> bool {
    o matches Some(x) && x.callback is Some
}

/// The headers of a put, with the callback headers when one is asked for.
pub open spec fn put_headers_with_callback(o: Option<PutObjectOptions>, len: nat) -> Map<
    Seq<char>,
    Seq<char>,
> {
    match o {
        Some(x) => match x.callback {
            Some(c) => with_callback_headers(put_headers(o, len), c),
            None => put_headers(o, len),
        },
        None => put_headers(o, len),
    }
}

fn add_put_headers(req: OssRequest, options: &Option<PutObjectOptions>) -> (r: OssRequest)
    requires
        req.wf(),
    ensures
        r.wf(),
        r.spec_body() == req.spec_body(),
        r@ == (RequestView {
            headers: match options {
                Some(o) => with_metadata(
                    insert_opt(req@.headers, "content-type"@, opt_view(o.content_type)),
                    o.metadata@,
                ),
                None => req@.headers,
            },
            ..req@
        }),
{
    match options {
        Some(o) => {
            let mut r = req;
            match &o.content_type {
                Some(t) => {
                    proof {
                        reveal_strlit("content-type");
                        assert(lower_seq("content-type"@) =~= "content-type"@);
                    }
                    r = r.add_header("content-type", t.as_str());
                },
                None => {},
            }
            let ghost base = r@.headers;
            let mut i: usize = 0;
            while i < o.metadata.len()
                invariant
                    r.wf(),
                    r.spec_body() == req.spec_body(),
                    i <= o.metadata@.len(),
                    r@ == (RequestView {
                        headers: with_metadata(base, o.metadata@.subrange(0, i as int)),
                        ..req@
                    }),
                decreases o.metadata@.len() - i,
            {
                let mut name = String::from_str("x-oss-meta-");
                push_str(&mut name, o.metadata[i].0.as_str());
                r = r.add_header(name.as_str(), o.metadata[i].1.as_str());
                assert(o.metadata@.subrange(0, i + 1).drop_last() =~= o.metadata@.subrange(
                    0,
                    i as int,
                ));
                i = i + 1;
            }
            assert(o.metadata@.subrange(0, o.metadata@.len() as int) =~= o.metadata@);
            r
        },
        None => req,
    }
}

/// A put of `body` (`len` bytes) under the trimmed key, with the callback
/// headers when a callback is asked for.
fn put_request(
    bucket: &str,
    key: &str,
    body: RequestBody,
    len: u64,
    options: &Option<PutObjectOptions>,
) -> (r: (OssRequest, CompletionKind))
    ensures
        r.0.wf(),
        r.0.spec_body() == body,
        r.0@.method == RequestMethod::Put,
        r.0@.bucket == bucket@,
        r.0@.object == key@,
        r.0@.query == no_entries(),
        r.0@.headers == put_headers_with_callback(*options, len as nat),
        r.1 == CompletionKind::CallbackBody <==> put_callback(*options),
{
    let req = OssRequest::new().method(RequestMethod::Put).bucket(bucket).object(key).content_length(
        len,
    ).body(body);
    let req = add_put_headers(req, options);
    match options {
        Some(o) => match &o.callback {
            Some(c) => {
                return (c.apply(req), CompletionKind::CallbackBody);
            },
            None => {},
        },
        None => {},
    }
    (req, CompletionKind::Structured)
}

/// An append: a put turned into a `POST` with `append` and `position`.
pub open spec fn append_query(position: u64) -> Map<Seq<char>, Seq<char>> {
    no_entries().insert("append"@, Seq::empty()).insert("position"@, decimal(position as nat))
}

fn append_request(
    bucket: &str,
    key: &str,
    body: RequestBody,
    len: u64,
    position: u64,
    options: &Option<PutObjectOptions>,
) -> (r: OssRequest)
    ensures
        r.wf(),
        r.spec_body() == body,
        r@ == (RequestView {
            method: RequestMethod::Post,
            bucket: bucket@,
            object: key@,
            headers: put_headers(*options, len as nat),
            query: append_query(position),
        }),
{
    let pos = decimal_string(position);
    let req = OssRequest::new().method(RequestMethod::Post).bucket(bucket).object(key).content_length(
        len,
    ).body(body).add_query("append", "").add_query("position", pos.as_str());
    proof {
        reveal_strlit("");
        assert(""@ =~= Seq::<char>::empty());
    }
    add_put_headers(req, options)
}

/// `/bucket/key` of a copy, the key percent-encoded with `/` kept.
pub open spec fn object_source(bucket: Seq<char>, key: Seq<char>) -> Seq<char> {
    seq!['/'] + bucket + seq!['/'] + uri_encoded(vstd::utf8::encode_utf8(key), true)
}

pub open spec fn version_query(base: Map<Seq<char>, Seq<char>>, o: Option<VersionOptions>) -> Map<
    Seq<char>,
    Seq<char>,
> {
    match o {
        Some(o) => insert_opt(base, "versionId"@, opt_view(o.version_id)),
        None => base,
    }
}

fn add_version(req: OssRequest, options: &Option<VersionOptions>) -> (r: OssRequest)
    requires
        req.wf(),
    ensures
        r.wf(),
        r.spec_body() == req.spec_body(),
        r@ == (RequestView { query: version_query(req@.query, *options), ..req@ }),
{
    match options {
        Some(o) => match &o.version_id {
            Some(v) => req.add_query("versionId", v.as_str()),
            None => req,
        },
        None => req,
    }
}

/// The view of a request with no headers and no query.
pub open spec fn plain_view(m: RequestMethod, bucket: Seq<char>, key: Seq<char>) -> RequestView {
    RequestView { method: m, bucket, object: key, headers: no_entries(), query: no_entries() }
}

fn plain_request(m: RequestMethod, bucket: &str, key: &str) -> (r: OssRequest)
    ensures
        r.wf(),
        r.spec_body() is Empty,
        r@ == plain_view(m, bucket@, key@),
{
    OssRequest::new().method(m).bucket(bucket).object(key)
}

/// The XML body of a batch delete.
pub open spec fn delete_xml(keys: Seq<String>, quiet: bool) -> Seq<char> {
    "<Delete>"@ + open_tag("Quiet"@) + (if quiet {
        "true"@
    } else {
        "false"@
    }) + close_tag("Quiet"@) + delete_entries(keys) + "</Delete>"@
}

pub open spec fn delete_entries(keys: Seq<String>) -> Seq<char>
    decreases keys.len(),
{
    if keys.len() == 0 {
        Seq::empty()
    } else {
        delete_entries(keys.drop_last()) + "<Object>"@ + open_tag("Key"@) + escaped(
            keys.last()@,
        ) + close_tag("Key"@) + "</Object>"@
    }
}

pub fn delete_document(config: &DeleteMultipleObjectsConfig) -> (r: String)
    ensures
        r@ == delete_xml(config.keys@, config.quiet),
{
    let mut out = String::from_str("<Delete>");
    if config.quiet {
        push_element(&mut out, "Quiet", "true");
    } else {
        push_element(&mut out, "Quiet", "false");
    }
    proof {
        reveal_strlit("true");
        reveal_strlit("false");
        assert(escaped("true"@) =~= "true"@) by {
            reveal_with_fuel(escaped, 5);
        }
        assert(escaped("false"@) =~= "false"@) by {
            reveal_with_fuel(escaped, 6);
        }
    }
    let ghost head = out@;
    let mut i: usize = 0;
    while i < config.keys.len()
        invariant
            i <= config.keys@.len(),
            out@ == head + delete_entries(config.keys@.subrange(0, i as int)),
        decreases config.keys@.len() - i,
    {
        push_str(&mut out, "<Object>");
        push_element(&mut out, "Key", config.keys[i].as_str());
        push_str(&mut out, "</Object>");
        assert(config.keys@.subrange(0, i + 1).drop_last() =~= config.keys@.subrange(0, i as int));
        i = i + 1;
        assert(out@ =~= head + delete_entries(config.keys@.subrange(0, i as int)));
    }
    assert(config.keys@.subrange(0, config.keys@.len() as int) =~= config.keys@);
    push_str(&mut out, "</Delete>");
    assert(out@ =~= delete_xml(config.keys@, config.quiet));
    out
}

/// The XML body of a restore.
pub open spec fn restore_xml(days: u32) -> Seq<char> {
    "<RestoreRequest>"@ + open_tag("Days"@) + decimal(days as nat) + close_tag("Days"@)
        + "</RestoreRequest>"@
}

pub fn restore_document(config: RestoreObjectRequest) -> (r: String)
    ensures
        r@ == restore_xml(config.days),
{
    let mut out = String::from_str("<RestoreRequest>");
    let d = decimal_string(config.days as u64);
    push_element(&mut out, "Days", d.as_str());
    proof {
        crate::text::lemma_decimal_plain(config.days as nat);
    }
    push_str(&mut out, "</RestoreRequest>");
    out
}

/// Planning of the single-object operations.
pub trait ObjectOperations {
    /// Stores a local file as an object; the key loses one leading and one
    /// trailing `/`.
    fn put_object_from_file(
        &self,
        bucket_name: &str,
        object_key: &str,
        file_path: &str,
        file_size: u64,
        options: Option<PutObjectOptions>,
    ) -> Result<(OssRequest, CompletionKind), Error>;

    /// Stores a buffer as an object.
    fn put_object_from_buffer(
        &self,
        bucket_name: &str,
        object_key: &str,
        buffer: Vec<u8>,
        options: Option<PutObjectOptions>,
    ) -> Result<(OssRequest, CompletionKind), Error>;

    /// Stores the bytes that base64 text denotes; invalid text is refused
    /// before anything is built.
    fn put_object_from_base64(
        &self,
        bucket_name: &str,
        object_key: &str,
        base64_string: &str,
        options: Option<PutObjectOptions>,
    ) -> Result<(OssRequest, CompletionKind), Error>;

    /// Appends a local file at `position` of an appendable object.
    fn append_object_from_file(
        &self,
        bucket_name: &str,
        object_key: &str,
        file_path: &str,
        file_size: u64,
        position: u64,
        options: Option<PutObjectOptions>,
    ) -> Result<OssRequest, Error>;

    /// Appends a buffer at `position` of an appendable object.
    fn append_object_from_buffer(
        &self,
        bucket_name: &str,
        object_key: &str,
        buffer: Vec<u8>,
        position: u64,
        options: Option<PutObjectOptions>,
    ) -> Result<OssRequest, Error>;

    /// Appends the bytes that base64 text denotes.
    fn append_object_from_base64(
        &self,
        bucket_name: &str,
        object_key: &str,
        base64_string: &str,
        position: u64,
        options: Option<PutObjectOptions>,
    ) -> Result<OssRequest, Error>;

    /// Downloads an object, or a span of it, into a local file.
    fn get_object_to_file(
        &self,
        bucket_name: &str,
        object_key: &str,
        file_path: &str,
        options: Option<GetObjectOptions>,
    ) -> Result<OssRequest, Error>;

    /// Creates an empty object whose key ends in `/`.
    fn create_folder(&self, bucket_name: &str, object_key: &str) -> Result<OssRequest, Error>;

    /// Deletes such an object; the service keeps it while it has children.
    fn delete_folder(&self, bucket_name: &str, object_key: &str) -> Result<OssRequest, Error>;

    /// Reads the basic metadata of an object.
    fn get_object_metadata(
        &self,
        bucket_name: &str,
        object_key: &str,
        options: Option<VersionOptions>,
    ) -> Result<OssRequest, Error>;

    /// Probes an object with a metadata request; see `exists_from_status`.
    fn object_exists(&self, bucket_name: &str, object_key: &str, options: Option<VersionOptions>) -> Result<
        OssRequest,
        Error,
    >;

    /// Reads all metadata of an object.
    fn head_object(&self, bucket_name: &str, object_key: &str, options: Option<VersionOptions>) -> Result<
        OssRequest,
        Error,
    >;

    /// Copies an object, within a bucket or across buckets of one region.
    fn copy_object(
        &self,
        source_bucket_name: &str,
        source_object_key: &str,
        dest_bucket_name: &str,
        dest_object_key: &str,
    ) -> Result<OssRequest, Error>;

    fn delete_object(&self, bucket_name: &str, object_key: &str, options: Option<VersionOptions>) -> Result<
        OssRequest,
        Error,
    >;

    fn delete_multiple_objects(&self, bucket_name: &str, config: DeleteMultipleObjectsConfig) -> Result<
        OssRequest,
        Error,
    >;

    /// Makes an archived object readable for a number of days.
    fn restore_object(&self, bucket_name: &str, object_key: &str, config: RestoreObjectRequest) -> Result<
        OssRequest,
        Error,
    >;

    /// Returns a restored object to its archived state.
    fn clean_restored_object(&self, bucket_name: &str, object_key: &str) -> Result<OssRequest, Error>;
}

impl ObjectOperations for Client {
    fn put_object_from_file(
        &self,
        bucket_name: &str,
        object_key: &str,
        file_path: &str,
        file_size: u64,
        options: Option<PutObjectOptions>,
    ) -> (r: Result<(OssRequest, CompletionKind), Error>)
        ensures
            match target_error(bucket_name@, trimmed_key(object_key@)) {
                Some(e) => r == Err::<(OssRequest, CompletionKind), Error>(e),
                None => r matches Ok((q, kind)) && q.wf() && q@.method == RequestMethod::Put
                    && q@.bucket == bucket_name@ && q@.object == trimmed_key(object_key@)
                    && q@.query == no_entries() && (q.spec_body() matches RequestBody::File(p, None)
                    && p@ == file_path@) && q@.headers == put_headers_with_callback(
                    options,
                    file_size as nat,
                ) && (kind == CompletionKind::CallbackBody <==> put_callback(options)),
            },
    {
        let key = trim_key(object_key);
        if let Some(e) = check_target(bucket_name, key.as_str()) {
            return Err(e);
        }
        let body = RequestBody::File(file_path.to_owned(), None);
        Ok(put_request(bucket_name, key.as_str(), body, file_size, &options))
    }

    fn put_object_from_buffer(
        &self,
        bucket_name: &str,
        object_key: &str,
        buffer: Vec<u8>,
        options: Option<PutObjectOptions>,
    ) -> (r: Result<(OssRequest, CompletionKind), Error>)
        ensures
            match target_error(bucket_name@, trimmed_key(object_key@)) {
                Some(e) => r == Err::<(OssRequest, CompletionKind), Error>(e),
                None => r matches Ok((q, kind)) && q.wf() && q@.method == RequestMethod::Put
                    && q@.bucket == bucket_name@ && q@.object == trimmed_key(object_key@)
                    && q@.query == no_entries() && is_bytes_body(q.spec_body(), buffer@)
                    && q@.headers == put_headers_with_callback(options, buffer@.len()) && (kind == CompletionKind::CallbackBody <==> put_callback(options)),
            },
    {
        let key = trim_key(object_key);
        if let Some(e) = check_target(bucket_name, key.as_str()) {
            return Err(e);
        }
        let len = buffer.len() as u64;
        Ok(put_request(bucket_name, key.as_str(), RequestBody::Bytes(buffer), len, &options))
    }

    fn put_object_from_base64(
        &self,
        bucket_name: &str,
        object_key: &str,
        base64_string: &str,
        options: Option<PutObjectOptions>,
    ) -> (r: Result<(OssRequest, CompletionKind), Error>)
        ensures
            match base64_bytes(base64_string@) {
                None => r == Err::<(OssRequest, CompletionKind), Error>(Error::InvalidBase64),
                Some(data) => match target_error(bucket_name@, trimmed_key(object_key@)) {
                    Some(e) => r == Err::<(OssRequest, CompletionKind), Error>(e),
                    None => r matches Ok((q, kind)) && q.wf() && q@.method == RequestMethod::Put
                        && q@.bucket == bucket_name@ && q@.object == trimmed_key(object_key@)
                        && q@.query == no_entries() && is_bytes_body(q.spec_body(), data)
                        && q@.headers == put_headers_with_callback(options, data.len()) && (kind == CompletionKind::CallbackBody <==> put_callback(options)),
                },
            },
    {
        match decode_base64(base64_string) {
            Ok(data) => self.put_object_from_buffer(bucket_name, object_key, data, options),
            Err(_) => Err(Error::InvalidBase64),
        }
    }

    fn append_object_from_file(
        &self,
        bucket_name: &str,
        object_key: &str,
        file_path: &str,
        file_size: u64,
        position: u64,
        options: Option<PutObjectOptions>,
    ) -> (r: Result<OssRequest, Error>)
        ensures
            match target_error(bucket_name@, trimmed_key(object_key@)) {
                Some(e) => r == Err::<OssRequest, Error>(e),
                None => r matches Ok(q) && q.wf() && q@ == (RequestView {
                    method: RequestMethod::Post,
                    bucket: bucket_name@,
                    object: trimmed_key(object_key@),
                    headers: put_headers(options, file_size as nat),
                    query: append_query(position),
                }) && (q.spec_body() matches RequestBody::File(p, None) && p@ == file_path@),
            },
    {
        let key = trim_key(object_key);
        if let Some(e) = check_target(bucket_name, key.as_str()) {
            return Err(e);
        }
        let body = RequestBody::File(file_path.to_owned(), None);
        Ok(append_request(bucket_name, key.as_str(), body, file_size, position, &options))
    }

    fn append_object_from_buffer(
        &self,
        bucket_name: &str,
        object_key: &str,
        buffer: Vec<u8>,
        position: u64,
        options: Option<PutObjectOptions>,
    ) -> (r: Result<OssRequest, Error>)
        ensures
            match target_error(bucket_name@, trimmed_key(object_key@)) {
                Some(e) => r == Err::<OssRequest, Error>(e),
                None => r matches Ok(q) && q.wf() && q@ == (RequestView {
                    method: RequestMethod::Post,
                    bucket: bucket_name@,
                    object: trimmed_key(object_key@),
                    headers: put_headers(options, buffer@.len()),
                    query: append_query(position),
                }) && is_bytes_body(q.spec_body(), buffer@),
            },
    {
        let key = trim_key(object_key);
        if let Some(e) = check_target(bucket_name, key.as_str()) {
            return Err(e);
        }
        let len = buffer.len() as u64;
        Ok(
            append_request(
                bucket_name,
                key.as_str(),
                RequestBody::Bytes(buffer),
                len,
                position,
                &options,
            ),
        )
    }

    fn append_object_from_base64(
        &self,
        bucket_name: &str,
        object_key: &str,
        base64_string: &str,
        position: u64,
        options: Option<PutObjectOptions>,
    ) -> (r: Result<OssRequest, Error>)
        ensures
            match base64_bytes(base64_string@) {
                None => r == Err::<OssRequest, Error>(Error::InvalidBase64),
                Some(data) => match target_error(bucket_name@, trimmed_key(object_key@)) {
                    Some(e) => r == Err::<OssRequest, Error>(e),
                    None => r matches Ok(q) && q.wf() && q@ == (RequestView {
                        method: RequestMethod::Post,
                        bucket: bucket_name@,
                        object: trimmed_key(object_key@),
                        headers: put_headers(options, data.len()),
                        query: append_query(position),
                    }) && is_bytes_body(q.spec_body(), data),
                },
            },
    {
        match decode_base64(base64_string) {
            Ok(data) => self.append_object_from_buffer(bucket_name, object_key, data, position, options),
            Err(_) => Err(Error::InvalidBase64),
        }
    }

    fn get_object_to_file(
        &self,
        bucket_name: &str,
        object_key: &str,
        file_path: &str,
        options: Option<GetObjectOptions>,
    ) -> (r: Result<OssRequest, Error>)
        ensures
            !valid_file_path(file_path@) ==> r == Err::<OssRequest, Error>(Error::InvalidFilePath),
            valid_file_path(file_path@) ==> match target_error(bucket_name@, object_key@) {
                Some(e) => r == Err::<OssRequest, Error>(e),
                None => r matches Ok(q) && q.wf() && q.spec_body() is Empty && q@ == (RequestView {
                    method: RequestMethod::Get,
                    bucket: bucket_name@,
                    object: object_key@,
                    headers: match options {
                        Some(o) => match o.range {
                            Some(s) => no_entries().insert("range"@, span_text(s)),
                            None => no_entries(),
                        },
                        None => no_entries(),
                    },
                    query: match options {
                        Some(o) => insert_opt(no_entries(), "versionId"@, opt_view(o.version_id)),
                        None => no_entries(),
                    },
                }),
            },
    {
        if !validate_file_path(file_path) {
            return Err(Error::InvalidFilePath);
        }
        if let Some(e) = check_target(bucket_name, object_key) {
            return Err(e);
        }
        let mut req = plain_request(RequestMethod::Get, bucket_name, object_key);
        match &options {
            Some(o) => {
                match o.range {
                    Some(s) => {
                        let h = range_header(s);
                        proof {
                            reveal_strlit("range");
                            assert(lower_seq("range"@) =~= "range"@);
                        }
                        req = req.add_header("range", h.as_str());
                    },
                    None => {},
                }
                match &o.version_id {
                    Some(v) => {
                        req = req.add_query("versionId", v.as_str());
                    },
                    None => {},
                }
            },
            None => {},
        }
        Ok(req)
    }

    fn create_folder(&self, bucket_name: &str, object_key: &str) -> (r: Result<OssRequest, Error>)
        ensures
            !valid_bucket_name(bucket_name@) ==> r == Err::<OssRequest, Error>(
                Error::InvalidBucketName,
            ),
            valid_bucket_name(bucket_name@) ==> (r matches Ok(q) && q.wf() && q.spec_body() is Empty
                && q@ == (RequestView {
                method: RequestMethod::Put,
                bucket: bucket_name@,
                object: folder_key(object_key@),
                headers: no_entries().insert("content-length"@, decimal(0)),
                query: no_entries(),
            })),
    {
        let key = make_folder_key(object_key);
        if !validate_bucket_name(bucket_name) {
            return Err(Error::InvalidBucketName);
        }
        Ok(plain_request(RequestMethod::Put, bucket_name, key.as_str()).body(RequestBody::Empty).content_length(0))
    }

    fn delete_folder(&self, bucket_name: &str, object_key: &str) -> (r: Result<OssRequest, Error>)
        ensures
            !valid_bucket_name(bucket_name@) ==> r == Err::<OssRequest, Error>(
                Error::InvalidBucketName,
            ),
            valid_bucket_name(bucket_name@) ==> (r matches Ok(q) && q.wf() && q.spec_body() is Empty
                && q@ == plain_view(RequestMethod::Delete, bucket_name@, folder_key(object_key@))),
    {
        let key = make_folder_key(object_key);
        if !validate_bucket_name(bucket_name) {
            return Err(Error::InvalidBucketName);
        }
        Ok(plain_request(RequestMethod::Delete, bucket_name, key.as_str()))
    }

    fn get_object_metadata(
        &self,
        bucket_name: &str,
        object_key: &str,
        options: Option<VersionOptions>,
    ) -> (r: Result<OssRequest, Error>)
        ensures
            match target_error(bucket_name@, object_key@) {
                Some(e) => r == Err::<OssRequest, Error>(e),
                None => r matches Ok(q) && q.wf() && q.spec_body() is Empty && q@ == (RequestView {
                    method: RequestMethod::Head,
                    bucket: bucket_name@,
                    object: object_key@,
                    headers: no_entries(),
                    query: version_query(no_entries().insert("objectMeta"@, Seq::empty()), options),
                }),
            },
    {
        if let Some(e) = check_target(bucket_name, object_key) {
            return Err(e);
        }
        let req = plain_request(RequestMethod::Head, bucket_name, object_key).add_query(
            "objectMeta",
            "",
        );
        proof {
            reveal_strlit("");
            assert(""@ =~= Seq::<char>::empty());
        }
        Ok(add_version(req, &options))
    }

    fn object_exists(&self, bucket_name: &str, object_key: &str, options: Option<VersionOptions>) -> (r:
        Result<OssRequest, Error>)
        ensures
            match target_error(bucket_name@, object_key@) {
                Some(e) => r == Err::<OssRequest, Error>(e),
                None => r matches Ok(q) && q.wf() && q.spec_body() is Empty && q@ == (RequestView {
                    method: RequestMethod::Head,
                    bucket: bucket_name@,
                    object: object_key@,
                    headers: no_entries(),
                    query: version_query(no_entries().insert("objectMeta"@, Seq::empty()), options),
                }),
            },
    {
        self.get_object_metadata(bucket_name, object_key, options)
    }

    fn head_object(&self, bucket_name: &str, object_key: &str, options: Option<VersionOptions>) -> (r:
        Result<OssRequest, Error>)
        ensures
            match target_error(bucket_name@, object_key@) {
                Some(e) => r == Err::<OssRequest, Error>(e),
                None => r matches Ok(q) && q.wf() && q.spec_body() is Empty && q@ == (RequestView {
                    query: version_query(no_entries(), options),
                    ..plain_view(RequestMethod::Head, bucket_name@, object_key@)
                }),
            },
    {
        if let Some(e) = check_target(bucket_name, object_key) {
            return Err(e);
        }
        Ok(add_version(plain_request(RequestMethod::Head, bucket_name, object_key), &options))
    }

    fn copy_object(
        &self,
        source_bucket_name: &str,
        source_object_key: &str,
        dest_bucket_name: &str,
        dest_object_key: &str,
    ) -> (r: Result<OssRequest, Error>)
        ensures
            match target_error(source_bucket_name@, source_object_key@) {
                Some(e) => r == Err::<OssRequest, Error>(e),
                None => match target_error(dest_bucket_name@, dest_object_key@) {
                    Some(e) => r == Err::<OssRequest, Error>(e),
                    None => r matches Ok(q) && q.wf() && q.spec_body() is Empty && q@ == (
                    RequestView {
                        headers: no_entries().insert(
                            "x-oss-copy-source"@,
                            object_source(source_bucket_name@, source_object_key@),
                        ),
                        ..plain_view(RequestMethod::Put, dest_bucket_name@, dest_object_key@)
                    }),
                },
            },
    {
        if let Some(e) = check_target(source_bucket_name, source_object_key) {
            return Err(e);
        }
        if let Some(e) = check_target(dest_bucket_name, dest_object_key) {
            return Err(e);
        }
        let mut source = String::from_str("/");
        push_str(&mut source, source_bucket_name);
        push_str(&mut source, "/");
        let encoded = uri_encode(source_object_key, true);
        push_str(&mut source, encoded.as_str());
        proof {
            reveal_strlit("/");
            reveal_strlit("x-oss-copy-source");
            assert(lower_seq("x-oss-copy-source"@) =~= "x-oss-copy-source"@);
        }
        assert(source@ =~= object_source(source_bucket_name@, source_object_key@));
        Ok(
            plain_request(RequestMethod::Put, dest_bucket_name, dest_object_key).add_header(
                "x-oss-copy-source",
                source.as_str(),
            ),
        )
    }

    fn delete_object(&self, bucket_name: &str, object_key: &str, options: Option<VersionOptions>) -> (r:
        Result<OssRequest, Error>)
        ensures
            match target_error(bucket_name@, object_key@) {
                Some(e) => r == Err::<OssRequest, Error>(e),
                None => r matches Ok(q) && q.wf() && q.spec_body() is Empty && q@ == (RequestView {
                    query: version_query(no_entries(), options),
                    ..plain_view(RequestMethod::Delete, bucket_name@, object_key@)
                }),
            },
    {
        if let Some(e) = check_target(bucket_name, object_key) {
            return Err(e);
        }
        Ok(add_version(plain_request(RequestMethod::Delete, bucket_name, object_key), &options))
    }

    fn delete_multiple_objects(&self, bucket_name: &str, config: DeleteMultipleObjectsConfig) -> (r:
        Result<OssRequest, Error>)
        ensures
            !valid_bucket_name(bucket_name@) ==> r == Err::<OssRequest, Error>(
                Error::InvalidBucketName,
            ),
            valid_bucket_name(bucket_name@) ==> (r matches Ok(q) && q.wf() && q@ == (RequestView {
                method: RequestMethod::Post,
                bucket: bucket_name@,
                object: Seq::empty(),
                headers: no_entries().insert(
                    "content-length"@,
                    decimal(utf8(delete_xml(config.keys@, config.quiet)).len()),
                ).insert("content-md5"@, base64_text(md5_of(utf8(delete_xml(config.keys@, config.quiet))))),
                query: no_entries().insert("delete"@, Seq::empty()),
            }) && is_bytes_body(q.spec_body(), utf8(delete_xml(config.keys@, config.quiet)))),
    {
        if !validate_bucket_name(bucket_name) {
            return Err(Error::InvalidBucketName);
        }
        let doc = delete_document(&config);
        let bytes = doc.as_str().as_bytes_vec();
        let len = bytes.len() as u64;
        let md5 = content_md5(bytes.as_slice());
        proof {
            reveal_strlit("");
            reveal_strlit("content-md5");
            assert(""@ =~= Seq::<char>::empty());
            assert(lower_seq("content-md5"@) =~= "content-md5"@);
        }
        Ok(
            OssRequest::new().method(RequestMethod::Post).bucket(bucket_name).add_query(
                "delete",
                "",
            ).content_length(len).add_header("content-md5", md5.as_str()).body(
                RequestBody::Bytes(bytes),
            ),
        )
    }

    fn restore_object(&self, bucket_name: &str, object_key: &str, config: RestoreObjectRequest) -> (r:
        Result<OssRequest, Error>)
        ensures
            match target_error(bucket_name@, object_key@) {
                Some(e) => r == Err::<OssRequest, Error>(e),
                None => r matches Ok(q) && q.wf() && q@ == (RequestView {
                    method: RequestMethod::Post,
                    bucket: bucket_name@,
                    object: object_key@,
                    headers: no_entries().insert(
                        "content-length"@,
                        decimal(utf8(restore_xml(config.days)).len()),
                    ),
                    query: no_entries().insert("restore"@, Seq::empty()),
                }) && is_bytes_body(
                    q.spec_body(),
                    vstd::utf8::encode_utf8(restore_xml(config.days)),
                ),
            },
    {
        if let Some(e) = check_target(bucket_name, object_key) {
            return Err(e);
        }
        let doc = restore_document(config);
        let bytes = doc.as_str().as_bytes_vec();
        let len = bytes.len() as u64;
        proof {
            reveal_strlit("");
            reveal_strlit("content-length");
            assert(""@ =~= Seq::<char>::empty());
        }
        Ok(
            plain_request(RequestMethod::Post, bucket_name, object_key).add_query(
                "restore",
                "",
            ).content_length(len).body(RequestBody::Bytes(bytes)),
        )
    }

    fn clean_restored_object(&self, bucket_name: &str, object_key: &str) -> (r: Result<
        OssRequest,
        Error,
    >)
        ensures
            match target_error(bucket_name@, object_key@) {
                Some(e) => r == Err::<OssRequest, Error>(e),
                None => r matches Ok(q) && q.wf() && q.spec_body() is Empty && q@ == (RequestView {
                    query: no_entries().insert("cleanRestoredObject"@, Seq::empty()),
                    ..plain_view(RequestMethod::Post, bucket_name@, object_key@)
                }),
            },
    {
        if let Some(e) = check_target(bucket_name, object_key) {
            return Err(e);
        }
        proof {
            reveal_strlit("");
            assert(""@ =~= Seq::<char>::empty());
        }
        Ok(
            plain_request(RequestMethod::Post, bucket_name, object_key).add_query(
                "cleanRestoredObject",
                "",
            ),
        )
    }
}

} // verus!
