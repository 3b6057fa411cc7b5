use ali_oss_rs::codec::{to_hex, uri_encode};
use ali_oss_rs::request::{ByteRange, OssRequest, RequestBody, RequestMethod};
use ali_oss_rs::text::{decimal_string, make_folder_key, parse_u64, trim_key};
use ali_oss_rs::validate::{validate_bucket_name, validate_file_path, validate_object_key, validate_upload_id};

fn pairs(v: &Vec<(String, String)>) -> Vec<(&str, &str)> {
    v.iter().map(|(k, v)| (k.as_str(), v.as_str())).collect()
}

#[test]
fn bucket_names_follow_the_naming_rules() {
    assert!(validate_bucket_name("yuanyq"));
    assert!(validate_bucket_name("yuanyq-2"));
    assert!(validate_bucket_name("abc"));
    assert!(!validate_bucket_name("ab"));
    assert!(!validate_bucket_name(&"a".repeat(64)));
    assert!(validate_bucket_name(&"a".repeat(63)));
    assert!(!validate_bucket_name("-abc"));
    assert!(!validate_bucket_name("abc-"));
    assert!(!validate_bucket_name("Abc"));
    assert!(!validate_bucket_name("ab_c"));
    assert!(!validate_bucket_name(""));
}

#[test]
fn object_keys_follow_the_naming_rules() {
    assert!(validate_object_key("rust-sdk-test/katex.zip"));
    assert!(validate_object_key("a"));
    assert!(!validate_object_key(""));
    assert!(!validate_object_key("/leading"));
    assert!(!validate_object_key("\\leading"));
    assert!(validate_object_key(&"k".repeat(1023)));
    assert!(!validate_object_key(&"k".repeat(1024)));
    // three bytes per character in UTF-8
    assert!(validate_object_key(&"云".repeat(341)));
    assert!(!validate_object_key(&"云".repeat(342)));
}

#[test]
fn upload_ids_must_not_be_empty() {
    assert!(validate_upload_id("0004B9894A22E5B1888A1E29F823"));
    assert!(!validate_upload_id(""));
}

#[test]
fn file_paths_refuse_shell_and_control_characters() {
    assert!(validate_file_path("/home/yuanyq/Downloads/ali-oss-rs-test/a.zip.1"));
    assert!(!validate_file_path("/home/yuanyq/Downloads/ali-oss-rs-test>/katex.zip.1"));
    assert!(!validate_file_path("/home/yuanyq/Downloads/ali-oss-rs-test|/katex;.zip.1"));
    assert!(!validate_file_path("/home/yuanyq/Downloads/ali-oss-rs-test\\0/katex.zip.1"));
    assert!(!validate_file_path("/tmp/a\u{0}b"));
    assert!(!validate_file_path(""));
}

#[test]
fn headers_are_case_insensitive_and_last_write_wins() {
    let r = OssRequest::new()
        .add_header("Content-Type", "text/plain")
        .add_header("X-Oss-Meta-Who", "a")
        .add_header("content-type", "image/jpeg");
    assert_eq!(
        pairs(r.header_list()),
        vec![("content-type", "image/jpeg"), ("x-oss-meta-who", "a")]
    );
}

#[test]
fn query_parameters_are_kept_sorted() {
    let r = OssRequest::new()
        .add_query("uploadId", "u1")
        .add_query("partNumber", "3")
        .add_query("append", "")
        .add_query("partNumber", "4");
    assert_eq!(
        pairs(r.query_list()),
        vec![("append", ""), ("partNumber", "4"), ("uploadId", "u1")]
    );
}

#[test]
fn builder_sets_target_method_body_and_length() {
    let r = OssRequest::new()
        .method(RequestMethod::Put)
        .bucket("b1")
        .object("k/1")
        .body(RequestBody::File("/tmp/f".to_string(), Some(ByteRange { start: 5, end: 9 })))
        .content_length(4);
    assert_eq!(r.request_method(), RequestMethod::Put);
    assert_eq!(r.bucket_name(), "b1");
    assert_eq!(r.object_key(), "k/1");
    assert_eq!(pairs(r.header_list()), vec![("content-length", "4")]);
    match r.request_body() {
        RequestBody::File(p, Some(g)) => {
            assert_eq!(p, "/tmp/f");
            assert_eq!(g.len(), 4);
        }
        _ => panic!("file body expected"),
    }
    assert_eq!(RequestMethod::Delete.name(), "DELETE");
}

#[test]
fn byte_range_length_is_end_minus_start() {
    assert_eq!(ByteRange { start: 0, end: 5 * 1024 * 1024 }.len(), 5 * 1024 * 1024);
    assert_eq!(ByteRange { start: 10, end: 10 }.len(), 0);
    assert_eq!(ByteRange { start: 11, end: 10 }.len(), 0);
}

#[test]
fn hex_and_percent_encoding() {
    assert_eq!(to_hex(&[0x00, 0x0f, 0xab, 0xff]), "000fabff");
    assert_eq!(to_hex(&[]), "");
    assert_eq!(uri_encode("dir/a b+c~d_e.f-g", true), "dir/a%20b%2Bc~d_e.f-g");
    assert_eq!(uri_encode("dir/a", false), "dir%2Fa");
    assert_eq!(uri_encode("云", true), "%E4%BA%91");
}

#[test]
fn decimal_text_round_trips() {
    assert_eq!(decimal_string(0), "0");
    assert_eq!(decimal_string(10000), "10000");
    assert_eq!(decimal_string(u64::MAX), "18446744073709551615");
    let digits: Vec<char> = "18446744073709551615".chars().collect();
    assert_eq!(parse_u64(&digits), Some(u64::MAX));
    let over: Vec<char> = "18446744073709551616".chars().collect();
    assert_eq!(parse_u64(&over), None);
    let bad: Vec<char> = "12a".chars().collect();
    assert_eq!(parse_u64(&bad), None);
    assert_eq!(parse_u64(&Vec::new()), None);
}

#[test]
fn object_keys_are_trimmed_and_folders_end_in_slash() {
    assert_eq!(trim_key("/a/b/"), "a/b");
    assert_eq!(trim_key("a/b"), "a/b");
    assert_eq!(trim_key("//a//"), "/a/");
    assert_eq!(make_folder_key("/rust-sdk-test/test-folder"), "rust-sdk-test/test-folder/");
    assert_eq!(make_folder_key("rust-sdk-test/test-folder/"), "rust-sdk-test/test-folder/");
    assert_eq!(make_folder_key(""), "/");
}
