use ali_oss_rs::multipart::MultipartUploadsOperations;
use ali_oss_rs::object::VersionOptions;
use ali_oss_rs::request::{OssRequest, RequestMethod};
use ali_oss_rs::sign::{add_signing_headers, canonical_request_text, trim};
use ali_oss_rs::tagging::{parse_tags, tagging_document, ObjectTagOperations};
use ali_oss_rs::time::SigningTime;
use ali_oss_rs::xml::{all_elements, first_element};
use ali_oss_rs::{Client, Error};

fn client() -> Client {
    Client::new("oss-cn-hangzhou.aliyuncs.com", "cn-hangzhou", "AKID", "SECRET")
}

fn pairs(v: &Vec<(String, String)>) -> Vec<(&str, &str)> {
    v.iter().map(|(k, v)| (k.as_str(), v.as_str())).collect()
}

fn chars(s: &str) -> Vec<char> {
    s.chars().collect()
}

#[test]
fn tag_requests_and_documents() {
    let v = Some(VersionOptions { version_id: Some("v1".to_string()) });
    let g = client().get_object_tags("yuanyq-2", "a.webp", v.clone()).unwrap();
    assert_eq!(g.request_method(), RequestMethod::Get);
    assert_eq!(pairs(g.query_list()), vec![("tagging", ""), ("versionId", "v1")]);
    let tags = vec![("tag-b".to_string(), "tag-value-b".to_string()), ("tag-c".to_string(), "<c>".to_string())];
    assert_eq!(
        tagging_document(&tags),
        "<Tagging><TagSet><Tag><Key>tag-b</Key><Value>tag-value-b</Value></Tag><Tag><Key>tag-c</Key><Value>&lt;c&gt;</Value></Tag></TagSet></Tagging>"
    );
    let p = client().put_object_tags("yuanyq-2", "a.webp", tags, v).unwrap();
    assert_eq!(p.request_method(), RequestMethod::Put);
    let d = client().delete_object_tags("yuanyq-2", "a.webp", None).unwrap();
    assert_eq!(d.request_method(), RequestMethod::Delete);
    assert_eq!(pairs(d.query_list()), vec![("tagging", "")]);
    assert_eq!(client().delete_object_tags("yuanyq-2", "", None).unwrap_err(), Error::InvalidObjectKey);
}

#[test]
fn tags_are_parsed_in_document_order() {
    let xml = "<Tagging><TagSet><Tag><Key>tag-a</Key><Value>tag-value-a</Value></Tag><Tag><Key>k2</Key><Value></Value></Tag></TagSet></Tagging>";
    let t = parse_tags(xml).unwrap();
    assert_eq!(t, vec![("tag-a".to_string(), "tag-value-a".to_string()), ("k2".to_string(), String::new())]);
    assert!(parse_tags("<Tagging><TagSet></TagSet></Tagging>").unwrap().is_empty());
    assert_eq!(parse_tags("<Tagging><Tag><Key>x</Key></Tag></Tagging>").unwrap_err(), Error::MalformedResponse);
}

#[test]
fn xml_elements_are_found_by_name() {
    let doc = chars("<a><b>1</b><c>2</c><b>3</b></a>");
    assert_eq!(first_element(&doc, "b"), Some(chars("1")));
    assert_eq!(first_element(&doc, "d"), None);
    assert_eq!(all_elements(&doc, "b"), vec![chars("1"), chars("3")]);
    assert_eq!(all_elements(&doc, "a"), vec![chars("<b>1</b><c>2</c><b>3</b>")]);
}

#[test]
fn signing_time_from_unix_seconds() {
    let t = SigningTime::from_unix_seconds(1700000000);
    assert_eq!(t, SigningTime { year: 2023, month: 11, day: 14, hour: 22, minute: 13, second: 20 });
    assert_eq!(t.timestamp(), "20231114T221320Z");
    assert_eq!(t.date(), "20231114");
    let e = SigningTime::from_unix_seconds(0);
    assert_eq!(e.timestamp(), "19700101T000000Z");
    let leap = SigningTime::from_unix_seconds(951782400);
    assert_eq!(leap.date(), "20000229");
}

#[test]
fn header_values_are_trimmed() {
    assert_eq!(trim("  a b \t"), "a b");
    assert_eq!(trim("   "), "");
    assert_eq!(trim("x"), "x");
}

fn signed_abort() -> (OssRequest, SigningTime) {
    let t = SigningTime::from_unix_seconds(1700000000);
    let r = client().abort_multipart_uploads("examplebucket", "dir/a b.txt", "UPLOAD123").unwrap();
    (add_signing_headers(r, &t), t)
}

#[test]
fn canonical_request_is_exact() {
    let (r, _) = signed_abort();
    assert_eq!(
        canonical_request_text(&r),
        "DELETE\n/examplebucket/dir/a%20b.txt\nuploadId=UPLOAD123\nx-oss-content-sha256:UNSIGNED-PAYLOAD\nx-oss-date:20231114T221320Z\n\n\nUNSIGNED-PAYLOAD"
    );
    let plain = OssRequest::new().add_header("Content-Type", " text/plain ").add_header("range", "bytes=0-1");
    assert_eq!(canonical_request_text(&plain), "GET\n/\n\ncontent-type:text/plain\n\n\nUNSIGNED-PAYLOAD");
}

#[test]
fn string_to_sign_hashes_the_canonical_request() {
    let (r, t) = signed_abort();
    assert_eq!(
        client().string_to_sign(&r, &t),
        "OSS4-HMAC-SHA256\n20231114T221320Z\n20231114/cn-hangzhou/oss/aliyun_v4_request\n7865b57cb1ccd537002d8199e9f3982f5db17f4912f6d3a812daaec6616542fd"
    );
}

#[test]
fn authorization_is_the_keyed_signature() {
    let (r, t) = signed_abort();
    let expected = "OSS4-HMAC-SHA256 Credential=AKID/20231114/cn-hangzhou/oss/aliyun_v4_request,Signature=f6d23f5a62f0c863a2925a9baaf88d0709b939b84e6d0225d2a055973a353b44";
    assert_eq!(client().authorization(&r, &t), expected);
    let abort = client().abort_multipart_uploads("examplebucket", "dir/a b.txt", "UPLOAD123").unwrap();
    let signed = client().sign(abort, &t);
    let headers = pairs(signed.header_list());
    assert_eq!(headers[0], ("authorization", expected));
    assert_eq!(headers.len(), 3);
}

#[test]
fn request_url_has_bucket_host_key_and_query() {
    let r = client().abort_multipart_uploads("examplebucket", "dir/a b.txt", "UPLOAD123").unwrap();
    assert_eq!(
        client().url(&r),
        "https://examplebucket.oss-cn-hangzhou.aliyuncs.com/dir/a%20b.txt?uploadId=UPLOAD123"
    );
    assert_eq!(client().url(&OssRequest::new()), "https://oss-cn-hangzhou.aliyuncs.com/");
}
