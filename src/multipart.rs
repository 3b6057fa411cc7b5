//! Multipart uploads: initiate a session, upload numbered parts (from a file
//! range, a buffer, base64 text or a server-side copy), list them, and
//! complete or abort the session.
//!
//! Each operation is planned here: its arguments are checked and turned into
//! the request to send. The session itself lives at the service and is
//! named only by its upload id.

use vstd::prelude::*;
use crate::callback::{with_callback_headers, Callback};
use crate::client::Client;
use crate::codec::{base64_bytes, decode_base64, uri_encode, uri_encoded};
use crate::error::Error;
use crate::request::{ByteRange, OssRequest, RequestBody, RequestMethod, RequestView};
use crate::text::{decimal, decimal_string, push_str};
use crate::validate::{
    valid_bucket_name, valid_object_key, valid_upload_id, validate_bucket_name,
    validate_object_key, validate_upload_id,
};
use crate::xml::{close_tag, escaped, open_tag, push_element};

verus! {

/// Names one part of a session.
#[derive(Debug, Clone)]
pub struct UploadPartRequest {
    pub part_number: u32,
    pub upload_id: String,
}

/// Names one part of a session and the existing object whose bytes fill it.
/// An empty `source_bucket_name` means the destination's bucket.
#[derive(Debug, Clone)]
pub struct UploadPartCopyRequest {
    pub part_number: u32,
    pub upload_id: String,
    pub source_bucket_name: String,
    pub source_object_key: String,
}

impl UploadPartCopyRequest {
    /// A copy from `source_object_key` in the destination's own bucket.
    pub fn new(part_number: u32, upload_id: &str, source_object_key: &str) -> (r:
        UploadPartCopyRequest)
        ensures
            r.part_number == part_number,
            r.upload_id@ == upload_id@,
            r.source_bucket_name@ == Seq::<char>::empty(),
            r.source_object_key@ == source_object_key@,
    {
        UploadPartCopyRequest {
            part_number,
            upload_id: upload_id.to_owned(),
            source_bucket_name: String::new(),
            source_object_key: source_object_key.to_owned(),
        }
    }
}

/// Optional settings of a server-side part copy.
#[derive(Debug, Clone)]
pub struct UploadPartCopyOptions {
    /// A byte range of the source, such as `bytes=0-499` or `bytes=500-`.
    pub copy_source_range: Option<String>,
    pub source_version_id: Option<String>,
}

#[derive(Debug, Clone)]
pub struct InitiateMultipartUploadOptions {
    pub content_type: Option<String>,
}

#[derive(Debug, Clone)]
pub struct ListPartsOptions {
    pub max_parts: Option<u32>,
    pub part_number_marker: Option<u32>,
}

#[derive(Debug, Clone)]
pub struct ListMultipartUploadsOptions {
    pub prefix: Option<String>,
    pub delimiter: Option<String>,
    pub key_marker: Option<String>,
    pub upload_id_marker: Option<String>,
    pub max_uploads: Option<u32>,
}

/// The manifest of a completion: `(part number, etag)` pairs in the order in
/// which the parts are to be assembled.
#[derive(Debug, Clone)]
pub struct CompleteMultipartUploadRequest {
    pub upload_id: String,
    pub parts: Vec<(u32, String)>,
}

#[derive(Debug, Clone)]
pub struct CompleteMultipartUploadOptions {
    pub callback: Option<Callback>,
}

/// How the answer to a completion is to be read, fixed before it is sent:
/// the service's own XML result, or the callback target's raw answer.
#[derive(Debug, Clone, Copy, PartialEq, Eq, Structural)]
pub enum CompletionKind {
    Structured,
    CallbackBody,
}

pub open spec fn has_callback(o: Option<CompleteMultipartUploadOptions>) -> bool {
    o matches Some(x) && x.callback is Some
}

/// The headers of a completion whose manifest has `len` bytes.
pub open spec fn completion_headers(len: nat, o: Option<CompleteMultipartUploadOptions>) -> Map<
    Seq<char>,
    Seq<char>,
> {
    let h = no_entries().insert("content-length"@, decimal(len));
    match o {
        Some(x) => match x.callback {
            Some(c) => with_callback_headers(h, c),
            None => h,
        },
        None => h,
    }
}

pub open spec fn no_entries() -> Map<Seq<char>, Seq<char>> {
    Map::empty()
}

/// The first problem with a bucket name and an object key, if any.
pub open spec fn target_error(bucket: Seq<char>, key: Seq<char>) -> Option<Error> {
    if !valid_bucket_name(bucket) {
        Some(Error::InvalidBucketName)
    } else if !valid_object_key(key) {
        Some(Error::InvalidObjectKey)
    } else {
        None
    }
}

/// The first problem with a target and an upload id, if any.
pub open spec fn session_error(bucket: Seq<char>, key: Seq<char>, upload_id: Seq<char>) -> Option<
    Error,
> {
    if target_error(bucket, key) is Some {
        target_error(bucket, key)
    } else if !valid_upload_id(upload_id) {
        Some(Error::InvalidUploadId)
    } else {
        None
    }
}

/// The first problem with a target and a part's name, if any.
pub open spec fn part_error(bucket: Seq<char>, key: Seq<char>, upload_id: Seq<char>, n: u32) -> Option<
    Error,
> {
    if session_error(bucket, key, upload_id) is Some {
        session_error(bucket, key, upload_id)
    } else if n < 1 {
        Some(Error::InvalidPartNumber)
    } else {
        None
    }
}

pub fn check_target(bucket: &str, key: &str) -> (r: Option<Error>)
    ensures
        r == target_error(bucket@, key@),
{
    if !validate_bucket_name(bucket) {
        Some(Error::InvalidBucketName)
    } else if !validate_object_key(key) {
        Some(Error::InvalidObjectKey)
    } else {
        None
    }
}

fn check_session(bucket: &str, key: &str, upload_id: &str) -> (r: Option<Error>)
    ensures
        r == session_error(bucket@, key@, upload_id@),
{
    match check_target(bucket, key) {
        Some(e) => Some(e),
        None => if !validate_upload_id(upload_id) {
            Some(Error::InvalidUploadId)
        } else {
            None
        },
    }
}

fn check_part(bucket: &str, key: &str, upload_id: &str, n: u32) -> (r: Option<Error>)
    ensures
        r == part_error(bucket@, key@, upload_id@, n),
{
    match check_session(bucket, key, upload_id) {
        Some(e) => Some(e),
        None => if n < 1 {
            Some(Error::InvalidPartNumber)
        } else {
            None
        },
    }
}

/// The body is the whole or a range of the file at `path`.
pub open spec fn is_file_body(b: RequestBody, path: Seq<char>, range: ByteRange) -> bool {
    b matches RequestBody::File(p, Some(g)) && p@ == path && g == range
}

/// The body is exactly `data`.
pub open spec fn is_bytes_body(b: RequestBody, data: Seq<u8>) -> bool {
    b matches RequestBody::Bytes(v) && v@ == data
}

/// The query that names a part: `partNumber` and `uploadId`.
pub open spec fn part_query(n: u32, upload_id: Seq<char>) -> Map<Seq<char>, Seq<char>> {
    no_entries().insert("partNumber"@, decimal(n as nat)).insert("uploadId"@, upload_id)
}

/// The request that uploads `len` bytes as part `n` of a session.
pub open spec fn upload_part_view(
    bucket: Seq<char>,
    key: Seq<char>,
    n: u32,
    upload_id: Seq<char>,
    len: nat,
) -> RequestView {
    RequestView {
        method: RequestMethod::Put,
        bucket,
        object: key,
        headers: no_entries().insert("content-length"@, decimal(len)),
        query: part_query(n, upload_id),
    }
}

fn part_request(bucket: &str, key: &str, n: u32, upload_id: &str, len: u64, body: RequestBody) -> (r:
    OssRequest)
    ensures
        r.wf(),
        r@ == upload_part_view(bucket@, key@, n, upload_id@, len as nat),
        r.spec_body() == body,
{
    let number = decimal_string(n as u64);
    OssRequest::new().method(RequestMethod::Put).bucket(bucket).object(key).add_query(
        "partNumber",
        number.as_str(),
    ).add_query("uploadId", upload_id).content_length(len).body(body)
}

/// The XML manifest of a completion, parts in the given order.
pub open spec fn manifest_xml(parts: Seq<(u32, String)>) -> Seq<char> {
    "<CompleteMultipartUpload>"@ + manifest_parts(parts) + "</CompleteMultipartUpload>"@
}

pub open spec fn manifest_part(p: (u32, String)) -> Seq<char> {
    open_tag("Part"@) + open_tag("PartNumber"@) + decimal(p.0 as nat) + close_tag("PartNumber"@)
        + open_tag("ETag"@) + escaped(p.1@) + close_tag("ETag"@) + close_tag("Part"@)
}

pub open spec fn manifest_parts(parts: Seq<(u32, String)>) -> Seq<char>
    decreases parts.len(),
{
    if parts.len() == 0 {
        Seq::empty()
    } else {
        manifest_parts(parts.drop_last()) + manifest_part(parts.last())
    }
}

/// Writes the XML manifest of a completion.
pub fn manifest_document(parts: &Vec<(u32, String)>) -> (r: String)
    ensures
        r@ == manifest_xml(parts@),
{
    let mut out = String::from_str("<CompleteMultipartUpload>");
    let mut i: usize = 0;
    while i < parts.len()
        invariant
            i <= parts@.len(),
            out@ == "<CompleteMultipartUpload>"@ + manifest_parts(parts@.subrange(0, i as int)),
        decreases parts@.len() - i,
    {
        let ghost before = out@;
        let number = decimal_string(parts[i].0 as u64);
        push_str(&mut out, "<Part>");
        push_element(&mut out, "PartNumber", number.as_str());
        push_element(&mut out, "ETag", parts[i].1.as_str());
        push_str(&mut out, "</Part>");
        proof {
            reveal_strlit("<Part>");
            reveal_strlit("</Part>");
            reveal_strlit("Part");
            crate::text::lemma_decimal_plain(parts@[i as int].0 as nat);
        }
        assert(parts@.subrange(0, i + 1).drop_last() =~= parts@.subrange(0, i as int));
        i = i + 1;
        assert(out@ =~= "<CompleteMultipartUpload>"@ + manifest_parts(parts@.subrange(0, i as int)));
    }
    assert(parts@.subrange(0, parts@.len() as int) =~= parts@);
    push_str(&mut out, "</CompleteMultipartUpload>");
    out
}

/// `/bucket/key` of a copy source, the key percent-encoded with `/` kept,
/// then `?versionId=` and the version when one is given.
pub open spec fn copy_source(bucket: Seq<char>, key: Seq<char>, version: Option<Seq<char>>) -> Seq<
    char,
> {
    let base = seq!['/'] + bucket + seq!['/'] + uri_encoded(vstd::utf8::encode_utf8(key), true);
    match version {
        Some(v) => base + "?versionId="@ + v,
        None => base,
    }
}

pub open spec fn opt_view(o: Option<String>) -> Option<Seq<char>> {
    match o {
        Some(s) => Some(s@),
        None => None,
    }
}

/// Adds `name=value` to the query when a value is given.
fn add_query_opt(req: OssRequest, name: &str, value: &Option<String>) -> (r: OssRequest)
    requires
        req.wf(),
    ensures
        r.wf(),
        r.spec_body() == req.spec_body(),
        r@ == (RequestView {
            query: match value {
                Some(v) => req@.query.insert(name@, v@),
                None => req@.query,
            },
            ..req@
        }),
{
    match value {
        Some(v) => req.add_query(name, v.as_str()),
        None => req,
    }
}

/// Adds `name=<decimal of value>` to the query when a value is given.
fn add_query_num(req: OssRequest, name: &str, value: Option<u32>) -> (r: OssRequest)
    requires
        req.wf(),
    ensures
        r.wf(),
        r.spec_body() == req.spec_body(),
        r@ == (RequestView {
            query: match value {
                Some(v) => req@.query.insert(name@, decimal(v as nat)),
                None => req@.query,
            },
            ..req@
        }),
{
    match value {
        Some(v) => {
            let d = decimal_string(v as u64);
            req.add_query(name, d.as_str())
        },
        None => req,
    }
}

pub open spec fn num_view(o: Option<u32>) -> Option<Seq<char>> {
    match o {
        Some(v) => Some(decimal(v as nat)),
        None => None,
    }
}

pub open spec fn insert_opt(
    m: Map<Seq<char>, Seq<char>>,
    k: Seq<char>,
    v: Option<Seq<char>>,
) -> Map<Seq<char>, Seq<char>> {
    match v {
        Some(x) => m.insert(k, x),
        None => m,
    }
}

/// The query of a part listing.
pub open spec fn list_parts_query(upload_id: Seq<char>, o: Option<ListPartsOptions>) -> Map<
    Seq<char>,
    Seq<char>,
> {
    let q = no_entries().insert("uploadId"@, upload_id);
    match o {
        Some(o) => insert_opt(
            insert_opt(q, "max-parts"@, num_view(o.max_parts)),
            "part-number-marker"@,
            num_view(o.part_number_marker),
        ),
        None => q,
    }
}

/// The query of an upload listing.
pub open spec fn list_uploads_query(o: Option<ListMultipartUploadsOptions>) -> Map<
    Seq<char>,
    Seq<char>,
> {
    let q = no_entries().insert("uploads"@, Seq::empty());
    match o {
        Some(o) => insert_opt(
            insert_opt(
                insert_opt(
                    insert_opt(
                        insert_opt(q, "prefix"@, opt_view(o.prefix)),
                        "delimiter"@,
                        opt_view(o.delimiter),
                    ),
                    "key-marker"@,
                    opt_view(o.key_marker),
                ),
                "upload-id-marker"@,
                opt_view(o.upload_id_marker),
            ),
            "max-uploads"@,
            num_view(o.max_uploads),
        ),
        None => q,
    }
}

/// The headers of a part copy.
pub open spec fn copy_headers(
    bucket: Seq<char>,
    data: UploadPartCopyRequest,
    o: Option<UploadPartCopyOptions>,
) -> Map<Seq<char>, Seq<char>> {
    let src_bucket = if data.source_bucket_name@.len() == 0 {
        bucket
    } else {
        data.source_bucket_name@
    };
    let version = match o {
        Some(o) => opt_view(o.source_version_id),
        None => None,
    };
    let h = no_entries().insert(
        "x-oss-copy-source"@,
        copy_source(src_bucket, data.source_object_key@, version),
    );
    match o {
        Some(o) => insert_opt(h, "x-oss-copy-source-range"@, opt_view(o.copy_source_range)),
        None => h,
    }
}

/// Planning of the multipart-upload operations.
pub trait MultipartUploadsOperations {
    /// Lists the sessions of a bucket that are neither completed nor aborted.
    fn list_multipart_uploads(
        &self,
        bucket_name: &str,
        options: Option<ListMultipartUploadsOptions>,
    ) -> Result<OssRequest, Error>;

    /// Lists the parts uploaded so far in a session.
    fn list_parts(
        &self,
        bucket_name: &str,
        object_key: &str,
        upload_id: &str,
        options: Option<ListPartsOptions>,
    ) -> Result<OssRequest, Error>;

    /// Opens a session.
    fn initiate_multipart_uploads(
        &self,
        bucket_name: &str,
        object_key: &str,
        options: Option<InitiateMultipartUploadOptions>,
    ) -> Result<OssRequest, Error>;

    /// Uploads the bytes of a file range as one part. The range is not
    /// checked against the file: that is the caller's part.
    fn upload_part_from_file(
        &self,
        bucket_name: &str,
        object_key: &str,
        file_path: &str,
        range: ByteRange,
        params: UploadPartRequest,
    ) -> Result<OssRequest, Error>;

    /// Uploads a buffer as one part.
    fn upload_part_from_buffer(
        &self,
        bucket_name: &str,
        object_key: &str,
        buffer: Vec<u8>,
        params: UploadPartRequest,
    ) -> Result<OssRequest, Error>;

    /// Uploads the bytes that base64 text denotes as one part; text that is
    /// not valid base64 is refused before anything is built.
    fn upload_part_from_base64(
        &self,
        bucket_name: &str,
        object_key: &str,
        base64_string: &str,
        params: UploadPartRequest,
    ) -> Result<OssRequest, Error>;

    /// Fills one part with bytes of an existing object, copied by the service.
    fn upload_part_copy(
        &self,
        bucket_name: &str,
        dest_object_key: &str,
        data: UploadPartCopyRequest,
        options: Option<UploadPartCopyOptions>,
    ) -> Result<OssRequest, Error>;

    /// Completes a session from a manifest, and says how the answer is to be
    /// read.
    fn complete_multipart_uploads(
        &self,
        bucket_name: &str,
        object_key: &str,
        data: CompleteMultipartUploadRequest,
        options: Option<CompleteMultipartUploadOptions>,
    ) -> Result<(OssRequest, CompletionKind), Error>;

    /// Discards a session and its parts.
    fn abort_multipart_uploads(&self, bucket_name: &str, object_key: &str, upload_id: &str) -> Result<
        OssRequest,
        Error,
    >;
}

impl MultipartUploadsOperations for Client {
    fn list_multipart_uploads(
        &self,
        bucket_name: &str,
        options: Option<ListMultipartUploadsOptions>,
    ) -> (r: Result<OssRequest, Error>)
        ensures
            !valid_bucket_name(bucket_name@) ==> r == Err::<OssRequest, Error>(
                Error::InvalidBucketName,
            ),
            valid_bucket_name(bucket_name@) ==> (r matches Ok(q) && q.wf() && q.spec_body() is Empty
                && q@ == (RequestView {
                method: RequestMethod::Get,
                bucket: bucket_name@,
                object: Seq::empty(),
                headers: no_entries(),
                query: list_uploads_query(options),
            })),
    {
        if !validate_bucket_name(bucket_name) {
            return Err(Error::InvalidBucketName);
        }
        let mut req = OssRequest::new().bucket(bucket_name).add_query("uploads", "");
        proof {
            reveal_strlit("");
            assert(""@ =~= Seq::<char>::empty());
        }
        match &options {
            Some(o) => {
                req = add_query_opt(req, "prefix", &o.prefix);
                req = add_query_opt(req, "delimiter", &o.delimiter);
                req = add_query_opt(req, "key-marker", &o.key_marker);
                req = add_query_opt(req, "upload-id-marker", &o.upload_id_marker);
                req = add_query_num(req, "max-uploads", o.max_uploads);
            },
            None => {},
        }
        Ok(req)
    }

    fn list_parts(
        &self,
        bucket_name: &str,
        object_key: &str,
        upload_id: &str,
        options: Option<ListPartsOptions>,
    ) -> (r: Result<OssRequest, Error>)
        ensures
            match session_error(bucket_name@, object_key@, upload_id@) {
                Some(e) => r == Err::<OssRequest, Error>(e),
                None => r matches Ok(q) && q.wf() && q.spec_body() is Empty && q@ == (RequestView {
                    method: RequestMethod::Get,
                    bucket: bucket_name@,
                    object: object_key@,
                    headers: no_entries(),
                    query: list_parts_query(upload_id@, options),
                }),
            },
    {
        if let Some(e) = check_session(bucket_name, object_key, upload_id) {
            return Err(e);
        }
        let mut req = OssRequest::new().bucket(bucket_name).object(object_key).add_query(
            "uploadId",
            upload_id,
        );
        match &options {
            Some(o) => {
                req = add_query_num(req, "max-parts", o.max_parts);
                req = add_query_num(req, "part-number-marker", o.part_number_marker);
            },
            None => {},
        }
        Ok(req)
    }

    fn initiate_multipart_uploads(
        &self,
        bucket_name: &str,
        object_key: &str,
        options: Option<InitiateMultipartUploadOptions>,
    ) -> (r: Result<OssRequest, Error>)
        ensures
            match target_error(bucket_name@, object_key@) {
                Some(e) => r == Err::<OssRequest, Error>(e),
                None => r matches Ok(q) && q.wf() && q.spec_body() is Empty && q@ == (RequestView {
                    method: RequestMethod::Post,
                    bucket: bucket_name@,
                    object: object_key@,
                    headers: match options {
                        Some(o) => insert_opt(no_entries(), "content-type"@, opt_view(o.content_type)),
                        None => no_entries(),
                    },
                    query: no_entries().insert("uploads"@, Seq::empty()),
                }),
            },
    {
        if let Some(e) = check_target(bucket_name, object_key) {
            return Err(e);
        }
        let mut req = OssRequest::new().method(RequestMethod::Post).bucket(bucket_name).object(
            object_key,
        ).add_query("uploads", "");
        proof {
            reveal_strlit("");
            assert(""@ =~= Seq::<char>::empty());
            reveal_strlit("content-type");
            assert(crate::text::lower_seq("content-type"@) =~= "content-type"@);
        }
        match &options {
            Some(o) => match &o.content_type {
                Some(t) => {
                    req = req.add_header("content-type", t.as_str());
                },
                None => {},
            },
            None => {},
        }
        Ok(req)
    }

    fn upload_part_from_file(
        &self,
        bucket_name: &str,
        object_key: &str,
        file_path: &str,
        range: ByteRange,
        params: UploadPartRequest,
    ) -> (r: Result<OssRequest, Error>)
        ensures
            match part_error(bucket_name@, object_key@, params.upload_id@, params.part_number) {
                Some(e) => r == Err::<OssRequest, Error>(e),
                None => r matches Ok(q) && q.wf() && q@ == upload_part_view(
                    bucket_name@,
                    object_key@,
                    params.part_number,
                    params.upload_id@,
                    (if range.start <= range.end {
                        range.end - range.start
                    } else {
                        0
                    }) as nat,
                ) && is_file_body(q.spec_body(), file_path@, range),
            },
    {
        if let Some(e) = check_part(bucket_name, object_key, params.upload_id.as_str(), params.part_number) {
            return Err(e);
        }
        let body = RequestBody::File(file_path.to_owned(), Some(range));
        Ok(
            part_request(
                bucket_name,
                object_key,
                params.part_number,
                params.upload_id.as_str(),
                range.len(),
                body,
            ),
        )
    }

    fn upload_part_from_buffer(
        &self,
        bucket_name: &str,
        object_key: &str,
        buffer: Vec<u8>,
        params: UploadPartRequest,
    ) -> (r: Result<OssRequest, Error>)
        ensures
            match part_error(bucket_name@, object_key@, params.upload_id@, params.part_number) {
                Some(e) => r == Err::<OssRequest, Error>(e),
                None => r matches Ok(q) && q.wf() && q@ == upload_part_view(
                    bucket_name@,
                    object_key@,
                    params.part_number,
                    params.upload_id@,
                    buffer@.len(),
                ) && is_bytes_body(q.spec_body(), buffer@),
            },
    {
        if let Some(e) = check_part(bucket_name, object_key, params.upload_id.as_str(), params.part_number) {
            return Err(e);
        }
        let len = buffer.len() as u64;
        Ok(
            part_request(
                bucket_name,
                object_key,
                params.part_number,
                params.upload_id.as_str(),
                len,
                RequestBody::Bytes(buffer),
            ),
        )
    }

    fn upload_part_from_base64(
        &self,
        bucket_name: &str,
        object_key: &str,
        base64_string: &str,
        params: UploadPartRequest,
    ) -> (r: Result<OssRequest, Error>)
        ensures
            match base64_bytes(base64_string@) {
                None => r == Err::<OssRequest, Error>(Error::InvalidBase64),
                Some(data) => match part_error(
                    bucket_name@,
                    object_key@,
                    params.upload_id@,
                    params.part_number,
                ) {
                    Some(e) => r == Err::<OssRequest, Error>(e),
                    None => r matches Ok(q) && q.wf() && q@ == upload_part_view(
                        bucket_name@,
                        object_key@,
                        params.part_number,
                        params.upload_id@,
                        data.len(),
                    ) && is_bytes_body(q.spec_body(), data),
                },
            },
    {
        match decode_base64(base64_string) {
            Ok(data) => self.upload_part_from_buffer(bucket_name, object_key, data, params),
            Err(_) => Err(Error::InvalidBase64),
        }
    }

    fn upload_part_copy(
        &self,
        bucket_name: &str,
        dest_object_key: &str,
        data: UploadPartCopyRequest,
        options: Option<UploadPartCopyOptions>,
    ) -> (r: Result<OssRequest, Error>)
        ensures
            match part_error(bucket_name@, dest_object_key@, data.upload_id@, data.part_number) {
                Some(e) => r == Err::<OssRequest, Error>(e),
                None => if !valid_object_key(data.source_object_key@) {
                    r == Err::<OssRequest, Error>(Error::InvalidObjectKey)
                } else if data.source_bucket_name@.len() > 0 && !valid_bucket_name(
                    data.source_bucket_name@,
                ) {
                    r == Err::<OssRequest, Error>(Error::InvalidBucketName)
                } else {
                    r matches Ok(q) && q.wf() && q.spec_body() is Empty && q@ == (RequestView {
                        method: RequestMethod::Put,
                        bucket: bucket_name@,
                        object: dest_object_key@,
                        headers: copy_headers(bucket_name@, data, options),
                        query: part_query(data.part_number, data.upload_id@),
                    })
                },
            },
    {
        if let Some(e) = check_part(bucket_name, dest_object_key, data.upload_id.as_str(), data.part_number) {
            return Err(e);
        }
        if !validate_object_key(data.source_object_key.as_str()) {
            return Err(Error::InvalidObjectKey);
        }
        let same_bucket = data.source_bucket_name.as_str().is_empty();
        if !same_bucket && !validate_bucket_name(data.source_bucket_name.as_str()) {
            return Err(Error::InvalidBucketName);
        }
        let mut source = String::from_str("/");
        if same_bucket {
            push_str(&mut source, bucket_name);
        } else {
            push_str(&mut source, data.source_bucket_name.as_str());
        }
        push_str(&mut source, "/");
        let encoded = uri_encode(data.source_object_key.as_str(), true);
        push_str(&mut source, encoded.as_str());
        match &options {
            Some(o) => match &o.source_version_id {
                Some(v) => {
                    push_str(&mut source, "?versionId=");
                    push_str(&mut source, v.as_str());
                },
                None => {},
            },
            None => {},
        }
        proof {
            reveal_strlit("/");
            reveal_strlit("x-oss-copy-source");
            reveal_strlit("x-oss-copy-source-range");
            assert(crate::text::lower_seq("x-oss-copy-source"@) =~= "x-oss-copy-source"@);
            assert(crate::text::lower_seq("x-oss-copy-source-range"@) =~= "x-oss-copy-source-range"@);
        }
        let number = decimal_string(data.part_number as u64);
        let mut req = OssRequest::new().method(RequestMethod::Put).bucket(bucket_name).object(
            dest_object_key,
        ).add_query("partNumber", number.as_str()).add_query("uploadId", data.upload_id.as_str()).add_header(
            "x-oss-copy-source",
            source.as_str(),
        );
        match &options {
            Some(o) => match &o.copy_source_range {
                Some(g) => {
                    req = req.add_header("x-oss-copy-source-range", g.as_str());
                },
                None => {},
            },
            None => {},
        }
        assert(source@ == copy_source(
            if data.source_bucket_name@.len() == 0 { bucket_name@ } else { data.source_bucket_name@ },
            data.source_object_key@,
            match options { Some(o) => opt_view(o.source_version_id), None => None },
        ));
        Ok(req)
    }

    fn complete_multipart_uploads(
        &self,
        bucket_name: &str,
        object_key: &str,
        data: CompleteMultipartUploadRequest,
        options: Option<CompleteMultipartUploadOptions>,
    ) -> (r: Result<(OssRequest, CompletionKind), Error>)
        ensures
            match session_error(bucket_name@, object_key@, data.upload_id@) {
                Some(e) => r == Err::<(OssRequest, CompletionKind), Error>(e),
                None => r matches Ok((q, kind)) && q.wf() && q@ == (RequestView {
                    method: RequestMethod::Post,
                    bucket: bucket_name@,
                    object: object_key@,
                    headers: completion_headers(
                        vstd::utf8::encode_utf8(manifest_xml(data.parts@)).len(),
                        options,
                    ),
                    query: no_entries().insert("uploadId"@, data.upload_id@),
                }) && is_bytes_body(q.spec_body(), vstd::utf8::encode_utf8(manifest_xml(data.parts@)))
                    && (kind == CompletionKind::CallbackBody <==> has_callback(options)),
            },
    {
        if let Some(e) = check_session(bucket_name, object_key, data.upload_id.as_str()) {
            return Err(e);
        }
        let doc = manifest_document(&data.parts);
        let bytes = doc.as_str().as_bytes_vec();
        let len = bytes.len() as u64;
        let mut req = OssRequest::new().method(RequestMethod::Post).bucket(bucket_name).object(
            object_key,
        ).add_query("uploadId", data.upload_id.as_str()).content_length(len).body(
            RequestBody::Bytes(bytes),
        );
        let mut kind = CompletionKind::Structured;
        match &options {
            Some(o) => match &o.callback {
                Some(c) => {
                    req = c.apply(req);
                    kind = CompletionKind::CallbackBody;
                },
                None => {},
            },
            None => {},
        }
        Ok((req, kind))
    }

    fn abort_multipart_uploads(&self, bucket_name: &str, object_key: &str, upload_id: &str) -> (r:
        Result<OssRequest, Error>)
        ensures
            match session_error(bucket_name@, object_key@, upload_id@) {
                Some(e) => r == Err::<OssRequest, Error>(e),
                None => r matches Ok(q) && q.wf() && q.spec_body() is Empty && q@ == (RequestView {
                    method: RequestMethod::Delete,
                    bucket: bucket_name@,
                    object: object_key@,
                    headers: no_entries(),
                    query: no_entries().insert("uploadId"@, upload_id@),
                }),
            },
    {
        if let Some(e) = check_session(bucket_name, object_key, upload_id) {
            return Err(e);
        }
        Ok(
            OssRequest::new().method(RequestMethod::Delete).bucket(bucket_name).object(
                object_key,
            ).add_query("uploadId", upload_id),
        )
    }
}

} // verus!
