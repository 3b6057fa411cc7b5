//! Reading what the service answered: status codes, headers and the XML
//! documents of the multipart operations.

use vstd::prelude::*;
use crate::error::Error;
use crate::keys::{entries_of, lookup};
use crate::multipart::CompletionKind;
use crate::text::{all_digits, chars_of, digits_value, parse_u64, string_of};
use crate::xml::{all_elements, element_text, element_value, elements_from, first_element, unescape};

verus! {

pub open spec fn success_status(status: u16) -> bool {
    200 <= status <= 299
}

/// Any status outside `2xx` is a failure that carries the status.
pub fn check_status(status: u16) -> (r: Result<(), Error>)
    ensures
        r == (if success_status(status) {
            Ok::<(), Error>(())
        } else {
            Err(Error::Status(status))
        }),
{
    if 200 <= status && status <= 299 {
        Ok(())
    } else {
        Err(Error::Status(status))
    }
}

/// The answer of an existence probe: found on success, absent on `404`,
/// and any other status a failure.
pub fn exists_from_status(status: u16) -> (r: Result<bool, Error>)
    ensures
        r == (if success_status(status) {
            Ok::<bool, Error>(true)
        } else if status == 404 {
            Ok(false)
        } else {
            Err(Error::Status(status))
        }),
{
    if 200 <= status && status <= 299 {
        Ok(true)
    } else if status == 404 {
        Ok(false)
    } else {
        Err(Error::Status(status))
    }
}

/// The value of the first header named `name` (names in lower case).
pub fn header_value(headers: &Vec<(String, String)>, name: &str) -> (r: Option<String>)
    ensures
        match r {
            Some(v) => lookup(entries_of(headers@), name@) == Some(v@),
            None => lookup(entries_of(headers@), name@) is None,
        },
{
    let ghost s = entries_of(headers@);
    let mut i: usize = 0;
    assert(s.subrange(0, s.len() as int) =~= s);
    while i < headers.len()
        invariant
            s == entries_of(headers@),
            i <= headers@.len(),
            lookup(s, name@) == lookup(s.subrange(i as int, s.len() as int), name@),
        decreases headers@.len() - i,
    {
        proof {
            let t = s.subrange(i as int, s.len() as int);
            assert(t.drop_first() =~= s.subrange(i + 1, s.len() as int));
        }
        if headers[i].0 == name.to_owned() {
            return Some(headers[i].1.clone());
        }
        i = i + 1;
    }
    None
}

/// The unescaped text of element `name`, which must be there.
fn required_text(doc: &Vec<char>, name: &str) -> (r: Result<String, Error>)
    ensures
        match r {
            Ok(s) => element_value(doc@, name@) == Some(s@),
            Err(e) => element_value(doc@, name@) is None && e == Error::MalformedResponse,
        },
{
    match first_element(doc, name) {
        Some(t) => Ok(unescape(&t)),
        None => Err(Error::MalformedResponse),
    }
}

/// The number that element `name` holds, which must be there and fit `max`.
pub open spec fn element_number(doc: Seq<char>, name: Seq<char>, max: nat) -> Option<nat> {
    match element_text(doc, name) {
        Some(t) => if t.len() > 0 && all_digits(t) && digits_value(t) <= max {
            Some(digits_value(t))
        } else {
            None
        },
        None => None,
    }
}

fn required_number(doc: &Vec<char>, name: &str, max: u64) -> (r: Result<u64, Error>)
    ensures
        match r {
            Ok(n) => element_number(doc@, name@, max as nat) == Some(n as nat),
            Err(e) => element_number(doc@, name@, max as nat) is None && e
                == Error::MalformedResponse,
        },
{
    match first_element(doc, name) {
        Some(t) => match parse_u64(&t) {
            Some(n) => if n <= max {
                Ok(n)
            } else {
                Err(Error::MalformedResponse)
            },
            None => Err(Error::MalformedResponse),
        },
        None => Err(Error::MalformedResponse),
    }
}

/// The answer to opening a session.
#[derive(Debug, Clone)]
pub struct InitiateMultipartUploadResult {
    pub bucket: String,
    pub key: String,
    pub upload_id: String,
}

impl InitiateMultipartUploadResult {
    /// Reads `Bucket`, `Key` and `UploadId`; all three must be present.
    pub fn from_xml(xml: &str) -> (r: Result<InitiateMultipartUploadResult, Error>)
        ensures
            match (
                element_value(xml@, "Bucket"@),
                element_value(xml@, "Key"@),
                element_value(xml@, "UploadId"@),
            ) {
                (Some(b), Some(k), Some(u)) => r matches Ok(x) && x.bucket@ == b && x.key@ == k
                    && x.upload_id@ == u,
                _ => r == Err::<InitiateMultipartUploadResult, Error>(Error::MalformedResponse),
            },
    {
        let doc = chars_of(xml);
        let bucket = required_text(&doc, "Bucket")?;
        let key = required_text(&doc, "Key")?;
        let upload_id = required_text(&doc, "UploadId")?;
        Ok(InitiateMultipartUploadResult { bucket, key, upload_id })
    }
}

/// The answer to uploading a part.
#[derive(Debug, Clone)]
pub struct UploadPartResult {
    pub etag: String,
}

impl UploadPartResult {
    /// Reads the `etag` header, which must be present.
    pub fn from_headers(headers: &Vec<(String, String)>) -> (r: Result<UploadPartResult, Error>)
        ensures
            match lookup(entries_of(headers@), "etag"@) {
                Some(e) => r matches Ok(x) && x.etag@ == e,
                None => r == Err::<UploadPartResult, Error>(Error::MalformedResponse),
            },
    {
        match header_value(headers, "etag") {
            Some(e) => Ok(UploadPartResult { etag: e }),
            None => Err(Error::MalformedResponse),
        }
    }
}

/// The answer to a server-side part copy.
#[derive(Debug, Clone)]
pub struct UploadPartCopyResult {
    pub etag: String,
    pub last_modified: String,
}

impl UploadPartCopyResult {
    /// Reads `ETag` and `LastModified`; both must be present.
    pub fn from_xml(xml: &str) -> (r: Result<UploadPartCopyResult, Error>)
        ensures
            match (element_value(xml@, "ETag"@), element_value(xml@, "LastModified"@)) {
                (Some(e), Some(m)) => r matches Ok(x) && x.etag@ == e && x.last_modified@ == m,
                _ => r == Err::<UploadPartCopyResult, Error>(Error::MalformedResponse),
            },
    {
        let doc = chars_of(xml);
        let etag = required_text(&doc, "ETag")?;
        let last_modified = required_text(&doc, "LastModified")?;
        Ok(UploadPartCopyResult { etag, last_modified })
    }
}

/// One uploaded part, as a listing reports it.
#[derive(Debug, Clone)]
pub struct PartInfo {
    pub part_number: u32,
    pub etag: String,
    pub size: u64,
    pub last_modified: String,
}

/// What a `Part` element of a listing holds, if it is complete.
pub open spec fn part_fields(body: Seq<char>) -> Option<(nat, Seq<char>, nat, Seq<char>)> {
    match (
        element_number(body, "PartNumber"@, u32::MAX as nat),
        element_value(body, "ETag"@),
        element_number(body, "Size"@, u64::MAX as nat),
        element_value(body, "LastModified"@),
    ) {
        (Some(n), Some(e), Some(z), Some(m)) => Some((n, e, z, m)),
        _ => None,
    }
}

pub open spec fn part_matches(p: PartInfo, body: Seq<char>) -> bool {
    part_fields(body) == Some((p.part_number as nat, p.etag@, p.size as nat, p.last_modified@))
}

impl PartInfo {
    fn from_element(body: &Vec<char>) -> (r: Result<PartInfo, Error>)
        ensures
            match r {
                Ok(p) => part_matches(p, body@),
                Err(e) => part_fields(body@) is None && e == Error::MalformedResponse,
            },
    {
        let n = required_number(body, "PartNumber", u32::MAX as u64)?;
        let etag = required_text(body, "ETag")?;
        let size = required_number(body, "Size", u64::MAX)?;
        let last_modified = required_text(body, "LastModified")?;
        Ok(PartInfo { part_number: n as u32, etag, size, last_modified })
    }
}

/// The answer to a part listing.
#[derive(Debug, Clone)]
pub struct ListPartsResult {
    pub parts: Vec<PartInfo>,
    pub is_truncated: bool,
}

impl ListPartsResult {
    /// Reads every `Part` element, in document order, and whether
    /// `IsTruncated` says `true`. Every part must be complete.
    pub fn from_xml(xml: &str) -> (r: Result<ListPartsResult, Error>)
        ensures
            (forall|i: int|
                0 <= i < elements_from(xml@, "Part"@, 0).len() ==> #[trigger] part_fields(
                    elements_from(xml@, "Part"@, 0)[i],
                ) is Some) ==> (r matches Ok(x) && x.parts@.len() == elements_from(
                xml@,
                "Part"@,
                0,
            ).len() && (forall|i: int|
                0 <= i < x.parts@.len() ==> part_matches(
                    #[trigger] x.parts@[i],
                    elements_from(xml@, "Part"@, 0)[i],
                )) && x.is_truncated == (element_text(xml@, "IsTruncated"@) == Some("true"@))),
            !(forall|i: int|
                0 <= i < elements_from(xml@, "Part"@, 0).len() ==> #[trigger] part_fields(
                    elements_from(xml@, "Part"@, 0)[i],
                ) is Some) ==> r == Err::<ListPartsResult, Error>(Error::MalformedResponse),
    {
        let doc = chars_of(xml);
        let bodies = all_elements(&doc, "Part");
        let ghost es = elements_from(xml@, "Part"@, 0);
        let mut parts: Vec<PartInfo> = Vec::new();
        let mut i: usize = 0;
        while i < bodies.len()
            invariant
                doc@ == xml@,
                es == elements_from(xml@, "Part"@, 0),
                bodies@.len() == es.len(),
                forall|j: int| 0 <= j < bodies@.len() ==> (#[trigger] bodies@[j])@ == es[j],
                i <= bodies@.len(),
                parts@.len() == i,
                forall|j: int| 0 <= j < i ==> part_matches(#[trigger] parts@[j], es[j]),
                forall|j: int| 0 <= j < i ==> #[trigger] part_fields(es[j]) is Some,
            decreases bodies@.len() - i,
        {
            match PartInfo::from_element(&bodies[i]) {
                Ok(p) => {
                    parts.push(p);
                },
                Err(e) => {
                    return Err(e);
                },
            }
            i = i + 1;
        }
        let truncated = match first_element(&doc, "IsTruncated") {
            Some(t) => {
                let s = string_of(&t);
                let yes = String::from_str("true");
                s == yes
            },
            None => false,
        };
        Ok(ListPartsResult { parts, is_truncated: truncated })
    }
}

/// The service's own answer to a completion.
#[derive(Debug, Clone)]
pub struct CompleteMultipartUploadApiResponse {
    pub bucket: String,
    pub key: String,
    pub etag: String,
}

/// The answer to a completion: the service's result, or what the callback
/// target answered, as it came.
#[derive(Debug, Clone)]
pub enum CompleteMultipartUploadResult {
    ApiResponse(CompleteMultipartUploadApiResponse),
    CallbackResponse(String),
}

/// Reads the answer to a completion the way its request fixed: the body of
/// a callback completion is handed back untouched; any other is read as the
/// service's XML result (`Bucket`, `Key` and `ETag`, all present).
pub fn decode_complete(kind: CompletionKind, body: &str) -> (r: Result<
    CompleteMultipartUploadResult,
    Error,
>)
    ensures
        kind == CompletionKind::CallbackBody ==> (r matches Ok(
            CompleteMultipartUploadResult::CallbackResponse(s),
        ) && s@ == body@),
        kind == CompletionKind::Structured ==> match (
            element_value(body@, "Bucket"@),
            element_value(body@, "Key"@),
            element_value(body@, "ETag"@),
        ) {
            (Some(b), Some(k), Some(e)) => r matches Ok(
                CompleteMultipartUploadResult::ApiResponse(x),
            ) && x.bucket@ == b && x.key@ == k && x.etag@ == e,
            _ => r == Err::<CompleteMultipartUploadResult, Error>(Error::MalformedResponse),
        },
{
    match kind {
        CompletionKind::CallbackBody => Ok(
            CompleteMultipartUploadResult::CallbackResponse(body.to_owned()),
        ),
        CompletionKind::Structured => {
            let doc = chars_of(body);
            let bucket = required_text(&doc, "Bucket")?;
            let key = required_text(&doc, "Key")?;
            let etag = required_text(&doc, "ETag")?;
            Ok(
                CompleteMultipartUploadResult::ApiResponse(
                    CompleteMultipartUploadApiResponse { bucket, key, etag },
                ),
            )
        },
    }
}

/// One open session, as an upload listing reports it.
#[derive(Debug, Clone)]
pub struct MultipartUpload {
    pub key: String,
    pub upload_id: String,
}

/// The answer to an upload listing.
#[derive(Debug, Clone)]
pub struct ListMultipartUploadsResult {
    pub uploads: Vec<MultipartUpload>,
}

pub open spec fn upload_matches(u: MultipartUpload, body: Seq<char>) -> bool {
    element_value(body, "Key"@) == Some(u.key@) && element_value(body, "UploadId"@) == Some(
        u.upload_id@,
    )
}

pub open spec fn upload_complete(body: Seq<char>) -> bool {
    element_value(body, "Key"@) is Some && element_value(body, "UploadId"@) is Some
}

impl ListMultipartUploadsResult {
    /// Reads every `Upload` element, in document order; each must hold `Key`
    /// and `UploadId`.
    pub fn from_xml(xml: &str) -> (r: Result<ListMultipartUploadsResult, Error>)
        ensures
            (forall|i: int|
                0 <= i < elements_from(xml@, "Upload"@, 0).len() ==> #[trigger] upload_complete(
                    elements_from(xml@, "Upload"@, 0)[i],
                )) ==> (r matches Ok(x) && x.uploads@.len() == elements_from(
                xml@,
                "Upload"@,
                0,
            ).len() && forall|i: int|
                0 <= i < x.uploads@.len() ==> upload_matches(
                    #[trigger] x.uploads@[i],
                    elements_from(xml@, "Upload"@, 0)[i],
                )),
            !(forall|i: int|
                0 <= i < elements_from(xml@, "Upload"@, 0).len() ==> #[trigger] upload_complete(
                    elements_from(xml@, "Upload"@, 0)[i],
                )) ==> r == Err::<ListMultipartUploadsResult, Error>(Error::MalformedResponse),
    {
        let doc = chars_of(xml);
        let bodies = all_elements(&doc, "Upload");
        let ghost es = elements_from(xml@, "Upload"@, 0);
        let mut uploads: Vec<MultipartUpload> = Vec::new();
        let mut i: usize = 0;
        while i < bodies.len()
            invariant
                doc@ == xml@,
                es == elements_from(xml@, "Upload"@, 0),
                bodies@.len() == es.len(),
                forall|j: int| 0 <= j < bodies@.len() ==> (#[trigger] bodies@[j])@ == es[j],
                i <= bodies@.len(),
                uploads@.len() == i,
                forall|j: int| 0 <= j < i ==> upload_matches(#[trigger] uploads@[j], es[j]),
                forall|j: int| 0 <= j < i ==> #[trigger] upload_complete(es[j]),
            decreases bodies@.len() - i,
        {
            let key = match required_text(&bodies[i], "Key") {
                Ok(k) => k,
                Err(e) => {
                    assert(!upload_complete(es[i as int]));
                    return Err(e);
                },
            };
            let upload_id = match required_text(&bodies[i], "UploadId") {
                Ok(u) => u,
                Err(e) => {
                    assert(!upload_complete(es[i as int]));
                    return Err(e);
                },
            };
            uploads.push(MultipartUpload { key, upload_id });
            i = i + 1;
        }
        Ok(ListMultipartUploadsResult { uploads })
    }
}

/// The optional view of a header.
pub open spec fn header_view(headers: Seq<(String, String)>, name: Seq<char>) -> Option<Seq<char>> {
    lookup(entries_of(headers), name)
}

pub open spec fn opt_string_view(o: Option<String>) -> Option<Seq<char>> {
    match o {
        Some(s) => Some(s@),
        None => None,
    }
}

/// The service's own answer to a put: the headers it sets.
#[derive(Debug, Clone)]
pub struct PutObjectApiResponse {
    pub etag: Option<String>,
    pub version_id: Option<String>,
    pub content_md5: Option<String>,
    pub hash_crc64ecma: Option<String>,
}

/// The answer to a put: the service's headers, or what the callback target
/// answered, as it came.
#[derive(Debug, Clone)]
pub enum PutObjectResult {
    ApiResponse(PutObjectApiResponse),
    CallbackResponse(String),
}

/// Reads the answer to a put the way its request fixed.
pub fn decode_put(kind: CompletionKind, headers: &Vec<(String, String)>, body: &str) -> (r:
    PutObjectResult)
    ensures
        kind == CompletionKind::CallbackBody ==> (r matches PutObjectResult::CallbackResponse(s)
            && s@ == body@),
        kind == CompletionKind::Structured ==> (r matches PutObjectResult::ApiResponse(x)
            && opt_string_view(x.etag) == header_view(headers@, "etag"@) && opt_string_view(
            x.version_id,
        ) == header_view(headers@, "x-oss-version-id"@) && opt_string_view(x.content_md5)
            == header_view(headers@, "content-md5"@) && opt_string_view(x.hash_crc64ecma)
            == header_view(headers@, "x-oss-hash-crc64ecma"@)),
{
    match kind {
        CompletionKind::CallbackBody => PutObjectResult::CallbackResponse(body.to_owned()),
        CompletionKind::Structured => PutObjectResult::ApiResponse(
            PutObjectApiResponse {
                etag: header_value(headers, "etag"),
                version_id: header_value(headers, "x-oss-version-id"),
                content_md5: header_value(headers, "content-md5"),
                hash_crc64ecma: header_value(headers, "x-oss-hash-crc64ecma"),
            },
        ),
    }
}

/// The answer to an append.
#[derive(Debug, Clone)]
pub struct AppendObjectResult {
    pub next_append_position: u64,
}

/// The number that a header holds, if it is a decimal that fits `u64`.
pub open spec fn header_number(headers: Seq<(String, String)>, name: Seq<char>) -> Option<nat> {
    match header_view(headers, name) {
        Some(t) => if t.len() > 0 && all_digits(t) && digits_value(t) <= u64::MAX {
            Some(digits_value(t))
        } else {
            None
        },
        None => None,
    }
}

fn number_header(headers: &Vec<(String, String)>, name: &str) -> (r: Option<u64>)
    ensures
        match r {
            Some(n) => header_number(headers@, name@) == Some(n as nat),
            None => header_number(headers@, name@) is None,
        },
{
    match header_value(headers, name) {
        Some(v) => {
            let cs = chars_of(v.as_str());
            parse_u64(&cs)
        },
        None => None,
    }
}

impl AppendObjectResult {
    /// Reads `x-oss-next-append-position`, which must be a number.
    pub fn from_headers(headers: &Vec<(String, String)>) -> (r: Result<AppendObjectResult, Error>)
        ensures
            match header_number(headers@, "x-oss-next-append-position"@) {
                Some(n) => r matches Ok(x) && x.next_append_position == n,
                None => r == Err::<AppendObjectResult, Error>(Error::MalformedResponse),
            },
    {
        match number_header(headers, "x-oss-next-append-position") {
            Some(n) => Ok(AppendObjectResult { next_append_position: n }),
            None => Err(Error::MalformedResponse),
        }
    }
}

/// What a metadata request reports of an object.
#[derive(Debug, Clone)]
pub struct ObjectMetadata {
    pub content_length: Option<u64>,
    pub etag: Option<String>,
    pub last_modified: Option<String>,
    pub version_id: Option<String>,
}

impl ObjectMetadata {
    /// Reads `content-length`, `etag`, `last-modified` and
    /// `x-oss-version-id`, each when present.
    pub fn from_headers(headers: &Vec<(String, String)>) -> (r: ObjectMetadata)
        ensures
            match header_number(headers@, "content-length"@) {
                Some(n) => r.content_length == Some(n as u64),
                None => r.content_length is None,
            },
            opt_string_view(r.etag) == header_view(headers@, "etag"@),
            opt_string_view(r.last_modified) == header_view(headers@, "last-modified"@),
            opt_string_view(r.version_id) == header_view(headers@, "x-oss-version-id"@),
    {
        ObjectMetadata {
            content_length: number_header(headers, "content-length"),
            etag: header_value(headers, "etag"),
            last_modified: header_value(headers, "last-modified"),
            version_id: header_value(headers, "x-oss-version-id"),
        }
    }
}

} // verus!
