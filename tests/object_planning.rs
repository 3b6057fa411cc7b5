use ali_oss_rs::multipart::CompletionKind;
use ali_oss_rs::object::{
    delete_document, range_header, restore_document, served_length, ByteSpan, DeleteMultipleObjectsConfig,
    GetObjectOptions, ObjectOperations, PutObjectOptions, RestoreObjectRequest, VersionOptions,
};
use ali_oss_rs::request::{RequestBody, RequestMethod};
use ali_oss_rs::response::exists_from_status;
use ali_oss_rs::multipart::MultipartUploadsOperations;
use ali_oss_rs::{Client, Error};

fn client() -> Client {
    Client::new("oss-cn-hangzhou.aliyuncs.com", "cn-hangzhou", "AKID", "SECRET")
}

fn pairs(v: &Vec<(String, String)>) -> Vec<(&str, &str)> {
    v.iter().map(|(k, v)| (k.as_str(), v.as_str())).collect()
}

#[test]
fn range_header_and_served_length() {
    let first = ByteSpan { start: 0, last: Some(499) };
    assert_eq!(range_header(first), "bytes=0-499");
    assert_eq!(range_header(ByteSpan { start: 185001, last: None }), "bytes=185001-");
    assert_eq!(served_length(first, 500), 500);
    assert_eq!(served_length(first, 22966826), 500);
    assert_eq!(served_length(first, 100), 100);
    assert_eq!(served_length(ByteSpan { start: 100, last: None }, 150), 50);
    assert_eq!(served_length(ByteSpan { start: 200, last: None }, 150), 0);
    assert_eq!(served_length(ByteSpan { start: 10, last: Some(5) }, 150), 150);
}

#[test]
fn download_sends_the_range_header() {
    let o = GetObjectOptions { range: Some(ByteSpan { start: 0, last: Some(499) }), version_id: None };
    let r = client()
        .get_object_to_file("yuanyq", "rust-sdk-test/katex.zip", "/home/u/Downloads/katex.zip.1", Some(o))
        .unwrap();
    assert_eq!(r.request_method(), RequestMethod::Get);
    assert_eq!(pairs(r.header_list()), vec![("range", "bytes=0-499")]);
    assert!(r.query_list().is_empty());
    let e = client().get_object_to_file("yuanyq", "rust-sdk-test/katex.zip", "/home/u/a>/katex.zip.1", None);
    assert_eq!(e.unwrap_err(), Error::InvalidFilePath);
}

#[test]
fn put_trims_the_key_and_sets_metadata() {
    let o = PutObjectOptions {
        content_type: Some("image/jpeg".to_string()),
        metadata: vec![("Who".to_string(), "yuanyu".to_string()), ("when".to_string(), "now or later".to_string())],
        callback: None,
    };
    let (r, kind) = client().put_object_from_buffer("yuanyq", "/rust-sdk-test/a.jpg/", vec![9; 7], Some(o)).unwrap();
    assert_eq!(kind, CompletionKind::Structured);
    assert_eq!(r.request_method(), RequestMethod::Put);
    assert_eq!(r.object_key(), "rust-sdk-test/a.jpg");
    assert_eq!(
        pairs(r.header_list()),
        vec![
            ("content-length", "7"),
            ("content-type", "image/jpeg"),
            ("x-oss-meta-when", "now or later"),
            ("x-oss-meta-who", "yuanyu"),
        ]
    );
    let (f, _) = client().put_object_from_file("yuanyq", "a.pdf", "/tmp/a.pdf", 1234, None).unwrap();
    assert_eq!(pairs(f.header_list()), vec![("content-length", "1234")]);
    assert!(matches!(f.request_body(), RequestBody::File(p, None) if p == "/tmp/a.pdf"));
}

#[test]
fn put_from_base64_decodes_or_fails_locally() {
    let (r, _) = client().put_object_from_base64("yuanyq", "a.txt", "aGk=", None).unwrap();
    assert!(matches!(r.request_body(), RequestBody::Bytes(b) if b.as_slice() == b"hi"));
    assert_eq!(client().put_object_from_base64("yuanyq", "a.txt", "a", None).unwrap_err(), Error::InvalidBase64);
    assert_eq!(
        client().append_object_from_base64("yuanyq", "a.txt", "!!", 0, None).unwrap_err(),
        Error::InvalidBase64
    );
}

#[test]
fn append_posts_with_position() {
    let r = client().append_object_from_buffer("yuanyq", "a.jpg", vec![0; 61929], 61929, None).unwrap();
    assert_eq!(r.request_method(), RequestMethod::Post);
    assert_eq!(pairs(r.query_list()), vec![("append", ""), ("position", "61929")]);
    assert_eq!(pairs(r.header_list()), vec![("content-length", "61929")]);
    let f = client().append_object_from_file("yuanyq", "a.jpg", "/tmp/part-2", 10, 0, None).unwrap();
    assert_eq!(pairs(f.query_list()), vec![("append", ""), ("position", "0")]);
}

#[test]
fn folders_end_in_slash() {
    let r = client().create_folder("yuanyq", "rust-sdk-test/test-folder").unwrap();
    assert_eq!(r.request_method(), RequestMethod::Put);
    assert_eq!(r.object_key(), "rust-sdk-test/test-folder/");
    assert_eq!(pairs(r.header_list()), vec![("content-length", "0")]);
    let d = client().delete_folder("yuanyq", "/rust-sdk-test/x/").unwrap();
    assert_eq!(d.request_method(), RequestMethod::Delete);
    assert_eq!(d.object_key(), "rust-sdk-test/x/");
    assert_eq!(client().create_folder("Y", "a").unwrap_err(), Error::InvalidBucketName);
}

#[test]
fn metadata_probe_and_existence() {
    let v = Some(VersionOptions { version_id: Some("7873641174252289613".to_string()) });
    let r = client().get_object_metadata("yuanyq", "obj", v.clone()).unwrap();
    assert_eq!(r.request_method(), RequestMethod::Head);
    assert_eq!(pairs(r.query_list()), vec![("objectMeta", ""), ("versionId", "7873641174252289613")]);
    let e = client().object_exists("yuanyq", "obj", None).unwrap();
    assert_eq!(pairs(e.query_list()), vec![("objectMeta", "")]);
    let h = client().head_object("yuanyq", "obj", v).unwrap();
    assert_eq!(pairs(h.query_list()), vec![("versionId", "7873641174252289613")]);
}

#[test]
fn abort_then_probe_reports_absent() {
    let c = client();
    let abort = c.abort_multipart_uploads("yuanyq", "obj.deb", "UP1").unwrap();
    assert_eq!(abort.request_method(), RequestMethod::Delete);
    let probe = c.object_exists("yuanyq", "obj.deb", None).unwrap();
    assert_eq!(probe.object_key(), "obj.deb");
    // the service answers the probe of a never-completed object with 404
    assert_eq!(exists_from_status(404), Ok(false));
}

#[test]
fn copy_delete_and_restore() {
    let r = client().copy_object("yuanyq", "rust-sdk-test/katex.zip", "yuanyq-2", "rust-sdk-test/katex-1.zip").unwrap();
    assert_eq!(r.bucket_name(), "yuanyq-2");
    assert_eq!(pairs(r.header_list()), vec![("x-oss-copy-source", "/yuanyq/rust-sdk-test/katex.zip")]);
    let d = client()
        .delete_object("yuanyq", "obj", Some(VersionOptions { version_id: Some("v2".to_string()) }))
        .unwrap();
    assert_eq!(pairs(d.query_list()), vec![("versionId", "v2")]);
    let c = client().clean_restored_object("yuanyq", "obj").unwrap();
    assert_eq!(pairs(c.query_list()), vec![("cleanRestoredObject", "")]);
    let rs = client().restore_object("yuanyq", "obj", RestoreObjectRequest { days: 3 }).unwrap();
    assert_eq!(pairs(rs.query_list()), vec![("restore", "")]);
    assert_eq!(restore_document(RestoreObjectRequest { days: 3 }), "<RestoreRequest><Days>3</Days></RestoreRequest>");
}

#[test]
fn batch_delete_document() {
    let config = DeleteMultipleObjectsConfig { keys: vec!["a.jpg".to_string(), "b&c.png".to_string()], quiet: true };
    assert_eq!(
        delete_document(&config),
        "<Delete><Quiet>true</Quiet><Object><Key>a.jpg</Key></Object><Object><Key>b&amp;c.png</Key></Object></Delete>"
    );
    let r = client().delete_multiple_objects("yuanyq", config).unwrap();
    assert_eq!(r.request_method(), RequestMethod::Post);
    assert_eq!(pairs(r.query_list()), vec![("delete", "")]);
    assert_eq!(pairs(r.header_list()), vec![("content-length", "108"), ("content-md5", "01dCe9pqSXfOl99VbXbHtw==")]);
}
