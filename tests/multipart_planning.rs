use ali_oss_rs::callback::{CallbackBodyParameter, CallbackBuilder};
use ali_oss_rs::multipart::{
    manifest_document, CompleteMultipartUploadOptions, CompleteMultipartUploadRequest, CompletionKind,
    InitiateMultipartUploadOptions, ListMultipartUploadsOptions, ListPartsOptions, MultipartUploadsOperations,
    UploadPartCopyOptions, UploadPartCopyRequest, UploadPartRequest,
};
use ali_oss_rs::request::{ByteRange, RequestBody, RequestMethod};
use ali_oss_rs::{Client, Error};

fn client() -> Client {
    Client::new("oss-cn-hangzhou.aliyuncs.com", "cn-hangzhou", "AKID", "SECRET")
}

fn pairs(v: &Vec<(String, String)>) -> Vec<(&str, &str)> {
    v.iter().map(|(k, v)| (k.as_str(), v.as_str())).collect()
}

fn part(n: u32, id: &str) -> UploadPartRequest {
    UploadPartRequest { part_number: n, upload_id: id.to_string() }
}

#[test]
fn initiate_posts_to_uploads() {
    let r = client().initiate_multipart_uploads("yuanyq", "rust-sdk-test/multipart-1.deb", None).unwrap();
    assert_eq!(r.request_method(), RequestMethod::Post);
    assert_eq!(r.bucket_name(), "yuanyq");
    assert_eq!(r.object_key(), "rust-sdk-test/multipart-1.deb");
    assert_eq!(pairs(r.query_list()), vec![("uploads", "")]);
    assert!(r.header_list().is_empty());
    let o = InitiateMultipartUploadOptions { content_type: Some("application/octet-stream".to_string()) };
    let r = client().initiate_multipart_uploads("yuanyq", "k", Some(o)).unwrap();
    assert_eq!(pairs(r.header_list()), vec![("content-type", "application/octet-stream")]);
}

#[test]
fn initiate_rejects_bad_names() {
    assert_eq!(client().initiate_multipart_uploads("Bad", "k", None).unwrap_err(), Error::InvalidBucketName);
    assert_eq!(client().initiate_multipart_uploads("good", "/k", None).unwrap_err(), Error::InvalidObjectKey);
}

#[test]
fn upload_part_from_file_streams_the_range() {
    let range = ByteRange { start: 5 * 1024 * 1024, end: 10 * 1024 * 1024 };
    let r = client()
        .upload_part_from_file("yuanyq", "obj.deb", "/tmp/source.deb", range, part(2, "UP1"))
        .unwrap();
    assert_eq!(r.request_method(), RequestMethod::Put);
    assert_eq!(pairs(r.query_list()), vec![("partNumber", "2"), ("uploadId", "UP1")]);
    assert_eq!(pairs(r.header_list()), vec![("content-length", "5242880")]);
    match r.request_body() {
        RequestBody::File(p, Some(g)) => {
            assert_eq!(p, "/tmp/source.deb");
            assert_eq!(*g, range);
        }
        _ => panic!("file range body expected"),
    }
}

#[test]
fn upload_part_from_buffer_sends_the_bytes() {
    let r = client().upload_part_from_buffer("yuanyq", "obj", vec![1, 2, 3], part(10, "UP1")).unwrap();
    assert_eq!(pairs(r.query_list()), vec![("partNumber", "10"), ("uploadId", "UP1")]);
    assert_eq!(pairs(r.header_list()), vec![("content-length", "3")]);
    match r.request_body() {
        RequestBody::Bytes(b) => assert_eq!(b, &vec![1u8, 2, 3]),
        _ => panic!("bytes body expected"),
    }
}

#[test]
fn upload_part_checks_session_and_part_number() {
    let c = client();
    assert_eq!(c.upload_part_from_buffer("yuanyq", "obj", vec![], part(0, "UP1")).unwrap_err(), Error::InvalidPartNumber);
    assert_eq!(c.upload_part_from_buffer("yuanyq", "obj", vec![], part(1, "")).unwrap_err(), Error::InvalidUploadId);
    assert_eq!(c.upload_part_from_buffer("yuanyq", "", vec![], part(1, "")).unwrap_err(), Error::InvalidObjectKey);
    assert_eq!(c.upload_part_from_buffer("y", "", vec![], part(1, "")).unwrap_err(), Error::InvalidBucketName);
}

#[test]
fn upload_part_from_base64_decodes_first() {
    let r = client().upload_part_from_base64("yuanyq", "obj", "aGVsbG8=", part(1, "UP1")).unwrap();
    match r.request_body() {
        RequestBody::Bytes(b) => assert_eq!(b.as_slice(), b"hello"),
        _ => panic!("bytes body expected"),
    }
    assert_eq!(pairs(r.header_list()), vec![("content-length", "5")]);
}

#[test]
fn invalid_base64_fails_before_any_request() {
    let c = client();
    assert_eq!(c.upload_part_from_base64("yuanyq", "obj", "not base64!", part(1, "UP1")).unwrap_err(), Error::InvalidBase64);
    assert_eq!(c.upload_part_from_base64("yuanyq", "obj", "aGVsbG8", part(1, "UP1")).unwrap_err(), Error::InvalidBase64);
    // decoding is checked before the names
    assert_eq!(c.upload_part_from_base64("B", "", "%%%", part(0, "")).unwrap_err(), Error::InvalidBase64);
}

#[test]
fn upload_part_copy_names_the_source() {
    let data = UploadPartCopyRequest::new(1, "UP1", "rust-sdk-test/img appended.jpg");
    let options = UploadPartCopyOptions { copy_source_range: Some("bytes=0-185000".to_string()), source_version_id: None };
    let r = client().upload_part_copy("yuanyq", "rust-sdk-test/img-1.jpg", data, Some(options)).unwrap();
    assert_eq!(r.request_method(), RequestMethod::Put);
    assert_eq!(pairs(r.query_list()), vec![("partNumber", "1"), ("uploadId", "UP1")]);
    assert_eq!(
        pairs(r.header_list()),
        vec![
            ("x-oss-copy-source", "/yuanyq/rust-sdk-test/img%20appended.jpg"),
            ("x-oss-copy-source-range", "bytes=0-185000"),
        ]
    );
    let mut data = UploadPartCopyRequest::new(2, "UP1", "src.jpg");
    data.source_bucket_name = "other-bucket".to_string();
    let options = UploadPartCopyOptions { copy_source_range: None, source_version_id: Some("v7".to_string()) };
    let r = client().upload_part_copy("yuanyq", "dst.jpg", data, Some(options)).unwrap();
    assert_eq!(pairs(r.header_list()), vec![("x-oss-copy-source", "/other-bucket/src.jpg?versionId=v7")]);
}

#[test]
fn list_parts_and_uploads_queries() {
    let o = ListPartsOptions { max_parts: Some(100), part_number_marker: Some(3) };
    let r = client().list_parts("yuanyq", "obj", "UP1", Some(o)).unwrap();
    assert_eq!(r.request_method(), RequestMethod::Get);
    assert_eq!(
        pairs(r.query_list()),
        vec![("max-parts", "100"), ("part-number-marker", "3"), ("uploadId", "UP1")]
    );
    let o = ListMultipartUploadsOptions {
        prefix: Some("builder/".to_string()),
        delimiter: Some("/".to_string()),
        key_marker: None,
        upload_id_marker: None,
        max_uploads: Some(20),
    };
    let r = client().list_multipart_uploads("yuanyq", Some(o)).unwrap();
    assert_eq!(r.object_key(), "");
    assert_eq!(
        pairs(r.query_list()),
        vec![("delimiter", "/"), ("max-uploads", "20"), ("prefix", "builder/"), ("uploads", "")]
    );
    assert_eq!(client().list_multipart_uploads("x", None).unwrap_err(), Error::InvalidBucketName);
}

#[test]
fn complete_sends_the_manifest_in_given_order() {
    let data = CompleteMultipartUploadRequest {
        upload_id: "UP1".to_string(),
        parts: vec![(1, "\"E1\"".to_string()), (2, "E&2".to_string())],
    };
    let (r, kind) = client().complete_multipart_uploads("yuanyq", "obj", data, None).unwrap();
    assert_eq!(kind, CompletionKind::Structured);
    assert_eq!(r.request_method(), RequestMethod::Post);
    assert_eq!(pairs(r.query_list()), vec![("uploadId", "UP1")]);
    let expected = "<CompleteMultipartUpload><Part><PartNumber>1</PartNumber><ETag>&quot;E1&quot;</ETag></Part><Part><PartNumber>2</PartNumber><ETag>E&amp;2</ETag></Part></CompleteMultipartUpload>";
    match r.request_body() {
        RequestBody::Bytes(b) => assert_eq!(String::from_utf8(b.clone()).unwrap(), expected),
        _ => panic!("bytes body expected"),
    }
    assert_eq!(pairs(r.header_list()), vec![("content-length", expected.len().to_string().as_str())]);
    assert_eq!(manifest_document(&vec![]), "<CompleteMultipartUpload></CompleteMultipartUpload>");
}

#[test]
fn complete_with_callback_adds_headers_and_expects_raw_body() {
    let cb = CallbackBuilder::new("https://cb.example.com/notify")
        .body_parameter(CallbackBodyParameter::OssBucket("bucket".to_string()))
        .body_parameter(CallbackBodyParameter::Custom("my-key".to_string(), "my-prop".to_string(), "hello world".to_string()))
        .body_parameter(CallbackBodyParameter::Literal("k1".to_string(), "${x:v1}".to_string()))
        .custom_variable("v1", "this is value of v1")
        .build();
    let data = CompleteMultipartUploadRequest { upload_id: "UP1".to_string(), parts: vec![(1, "E1".to_string())] };
    let options = CompleteMultipartUploadOptions { callback: Some(cb) };
    let (r, kind) = client().complete_multipart_uploads("yuanyq", "obj", data, Some(options)).unwrap();
    assert_eq!(kind, CompletionKind::CallbackBody);
    let headers = pairs(r.header_list());
    assert_eq!(headers[0].0, "content-length");
    assert_eq!(
        headers[1],
        ("x-oss-callback", "eyJjYWxsYmFja1VybCI6Imh0dHBzOi8vY2IuZXhhbXBsZS5jb20vbm90aWZ5IiwiY2FsbGJhY2tCb2R5IjoiYnVja2V0PSR7YnVja2V0fSZteS1rZXk9JHt4Om15LXByb3B9JmsxPSR7eDp2MX0iLCJjYWxsYmFja0JvZHlUeXBlIjoiYXBwbGljYXRpb24veC13d3ctZm9ybS11cmxlbmNvZGVkIn0=")
    );
    assert_eq!(headers[2], ("x-oss-callback-var", "eyJ4Om15LXByb3AiOiJoZWxsbyB3b3JsZCIsIng6djEiOiJ0aGlzIGlzIHZhbHVlIG9mIHYxIn0="));
}

#[test]
fn abort_validates_before_building() {
    let c = client();
    let r = c.abort_multipart_uploads("yuanyq", "obj", "UP1").unwrap();
    assert_eq!(r.request_method(), RequestMethod::Delete);
    assert_eq!(pairs(r.query_list()), vec![("uploadId", "UP1")]);
    assert!(matches!(r.request_body(), RequestBody::Empty));
    assert_eq!(c.abort_multipart_uploads("ab", "obj", "UP1").unwrap_err(), Error::InvalidBucketName);
    assert_eq!(c.abort_multipart_uploads("yuanyq", "", "UP1").unwrap_err(), Error::InvalidObjectKey);
    assert_eq!(c.abort_multipart_uploads("yuanyq", "obj", "").unwrap_err(), Error::InvalidUploadId);
}
