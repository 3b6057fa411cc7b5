use ali_oss_rs::multipart::CompletionKind;
use ali_oss_rs::response::{
    check_status, decode_complete, decode_put, exists_from_status, header_value, AppendObjectResult,
    CompleteMultipartUploadResult, InitiateMultipartUploadResult, ListMultipartUploadsResult, ListPartsResult,
    ObjectMetadata, PutObjectResult, UploadPartCopyResult, UploadPartResult,
};
use ali_oss_rs::Error;

fn headers(v: &[(&str, &str)]) -> Vec<(String, String)> {
    v.iter().map(|(k, v)| (k.to_string(), v.to_string())).collect()
}

#[test]
fn statuses_map_to_errors() {
    assert_eq!(check_status(200), Ok(()));
    assert_eq!(check_status(206), Ok(()));
    assert_eq!(check_status(404), Err(Error::Status(404)));
    assert_eq!(check_status(500), Err(Error::Status(500)));
}

#[test]
fn existence_probe_treats_not_found_as_absent() {
    assert_eq!(exists_from_status(200), Ok(true));
    assert_eq!(exists_from_status(404), Ok(false));
    assert_eq!(exists_from_status(403), Err(Error::Status(403)));
}

#[test]
fn initiate_result_is_read_from_xml() {
    let xml = "<?xml version=\"1.0\" encoding=\"UTF-8\"?>\n<InitiateMultipartUploadResult><Bucket>yuanyq</Bucket><Key>rust-sdk-test/multipart.deb</Key><UploadId>0004B9894A22E5B1888A1E29F823</UploadId></InitiateMultipartUploadResult>";
    let r = InitiateMultipartUploadResult::from_xml(xml).unwrap();
    assert_eq!(r.bucket, "yuanyq");
    assert_eq!(r.key, "rust-sdk-test/multipart.deb");
    assert_eq!(r.upload_id, "0004B9894A22E5B1888A1E29F823");
    let broken = "<InitiateMultipartUploadResult><Bucket>yuanyq</Bucket><Key>k</Key></InitiateMultipartUploadResult>";
    assert_eq!(InitiateMultipartUploadResult::from_xml(broken).unwrap_err(), Error::MalformedResponse);
}

#[test]
fn upload_part_result_takes_the_etag_header() {
    let h = headers(&[("x-oss-request-id", "r1"), ("etag", "\"3349DC700140D7F86A0784842780****\"")]);
    assert_eq!(UploadPartResult::from_headers(&h).unwrap().etag, "\"3349DC700140D7F86A0784842780****\"");
    assert_eq!(UploadPartResult::from_headers(&headers(&[])).unwrap_err(), Error::MalformedResponse);
    assert_eq!(header_value(&h, "x-oss-request-id"), Some("r1".to_string()));
    assert_eq!(header_value(&h, "content-type"), None);
}

#[test]
fn copy_part_result_is_read_from_xml() {
    let xml = "<CopyPartResult><LastModified>2014-07-17T06:27:54.000Z</LastModified><ETag>\"5B3C1A2E053D763E1B002CC607C5****\"</ETag></CopyPartResult>";
    let r = UploadPartCopyResult::from_xml(xml).unwrap();
    assert_eq!(r.etag, "\"5B3C1A2E053D763E1B002CC607C5****\"");
    assert_eq!(r.last_modified, "2014-07-17T06:27:54.000Z");
}

#[test]
fn element_text_is_unescaped() {
    let xml = "<CopyPartResult><LastModified>t</LastModified><ETag>&quot;5B3C&quot; &amp; &lt;x&gt; &apos;y&apos; &unknown;</ETag></CopyPartResult>";
    let r = UploadPartCopyResult::from_xml(xml).unwrap();
    assert_eq!(r.etag, "\"5B3C\" & <x> 'y' &unknown;");
}

#[test]
fn part_listing_reads_every_part_in_order() {
    let xml = "<ListPartsResult><Bucket>b</Bucket><IsTruncated>false</IsTruncated>\
        <Part><PartNumber>1</PartNumber><LastModified>t1</LastModified><ETag>E1</ETag><Size>6291456</Size></Part>\
        <Part><PartNumber>2</PartNumber><LastModified>t2</LastModified><ETag>E2</ETag><Size>1024</Size></Part>\
        <Part><PartNumber>5</PartNumber><LastModified>t5</LastModified><ETag>E5</ETag><Size>0</Size></Part>\
        </ListPartsResult>";
    let r = ListPartsResult::from_xml(xml).unwrap();
    assert_eq!(r.parts.len(), 3);
    let numbers: Vec<u32> = r.parts.iter().map(|p| p.part_number).collect();
    assert_eq!(numbers, vec![1, 2, 5]);
    assert_eq!(r.parts[0].size, 6291456);
    assert_eq!(r.parts[1].etag, "E2");
    assert_eq!(r.parts[2].last_modified, "t5");
    assert!(!r.is_truncated);
    let truncated = "<ListPartsResult><IsTruncated>true</IsTruncated></ListPartsResult>";
    let r = ListPartsResult::from_xml(truncated).unwrap();
    assert!(r.parts.is_empty());
    assert!(r.is_truncated);
    let bad = "<ListPartsResult><Part><PartNumber>x</PartNumber><LastModified>t</LastModified><ETag>E</ETag><Size>1</Size></Part></ListPartsResult>";
    assert_eq!(ListPartsResult::from_xml(bad).unwrap_err(), Error::MalformedResponse);
    let too_big = "<ListPartsResult><Part><PartNumber>4294967296</PartNumber><LastModified>t</LastModified><ETag>E</ETag><Size>1</Size></Part></ListPartsResult>";
    assert_eq!(ListPartsResult::from_xml(too_big).unwrap_err(), Error::MalformedResponse);
}

#[test]
fn upload_listing_reads_every_upload() {
    let xml = "<ListMultipartUploadsResult><Upload><Key>a.deb</Key><UploadId>U1</UploadId></Upload><Upload><Key>b.deb</Key><UploadId>U2</UploadId></Upload></ListMultipartUploadsResult>";
    let r = ListMultipartUploadsResult::from_xml(xml).unwrap();
    assert_eq!(r.uploads.len(), 2);
    assert_eq!(r.uploads[1].key, "b.deb");
    assert_eq!(r.uploads[1].upload_id, "U2");
    let bad = "<ListMultipartUploadsResult><Upload><Key>a.deb</Key></Upload></ListMultipartUploadsResult>";
    assert_eq!(ListMultipartUploadsResult::from_xml(bad).unwrap_err(), Error::MalformedResponse);
}

#[test]
fn completion_answer_is_read_by_its_kind() {
    let xml = "<CompleteMultipartUploadResult><Location>l</Location><Bucket>yuanyq</Bucket><Key>obj</Key><ETag>\"E\"</ETag></CompleteMultipartUploadResult>";
    match decode_complete(CompletionKind::Structured, xml).unwrap() {
        CompleteMultipartUploadResult::ApiResponse(a) => {
            assert_eq!(a.bucket, "yuanyq");
            assert_eq!(a.key, "obj");
            assert_eq!(a.etag, "\"E\"");
        }
        _ => panic!("structured answer expected"),
    }
    let json = "{\"object\":\"rust-sdk-test/multipart-1.deb\",\"status\":\"ok\"}";
    match decode_complete(CompletionKind::CallbackBody, json).unwrap() {
        CompleteMultipartUploadResult::CallbackResponse(s) => assert_eq!(s, json),
        _ => panic!("callback answer expected"),
    }
    assert_eq!(decode_complete(CompletionKind::Structured, json).unwrap_err(), Error::MalformedResponse);
}

#[test]
fn put_and_append_answers_come_from_headers() {
    let h = headers(&[("etag", "E"), ("x-oss-version-id", "v1"), ("x-oss-next-append-position", "185786")]);
    match decode_put(CompletionKind::Structured, &h, "") {
        PutObjectResult::ApiResponse(a) => {
            assert_eq!(a.etag.as_deref(), Some("E"));
            assert_eq!(a.version_id.as_deref(), Some("v1"));
            assert_eq!(a.content_md5, None);
        }
        _ => panic!("structured answer expected"),
    }
    match decode_put(CompletionKind::CallbackBody, &h, "{}") {
        PutObjectResult::CallbackResponse(s) => assert_eq!(s, "{}"),
        _ => panic!("callback answer expected"),
    }
    assert_eq!(AppendObjectResult::from_headers(&h).unwrap().next_append_position, 185786);
    let bad = headers(&[("x-oss-next-append-position", "-1")]);
    assert_eq!(AppendObjectResult::from_headers(&bad).unwrap_err(), Error::MalformedResponse);
}

#[test]
fn metadata_is_read_from_headers() {
    let h = headers(&[
        ("content-length", "22966826"),
        ("etag", "\"B752E1A13502E231AC4AA0E1D91F887C\""),
        ("last-modified", "Tue, 18 Feb 2025 15:03:23 GMT"),
    ]);
    let m = ObjectMetadata::from_headers(&h);
    assert_eq!(m.content_length, Some(22966826));
    assert_eq!(m.etag.as_deref(), Some("\"B752E1A13502E231AC4AA0E1D91F887C\""));
    assert_eq!(m.last_modified.as_deref(), Some("Tue, 18 Feb 2025 15:03:23 GMT"));
    assert_eq!(m.version_id, None);
}
