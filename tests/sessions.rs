use ali_oss_rs::response::{ListPartsResult, PartInfo};
use ali_oss_rs::session::UploadSession;
use ali_oss_rs::Error;

fn listing(numbers: &[u32]) -> ListPartsResult {
    ListPartsResult {
        parts: numbers
            .iter()
            .map(|n| PartInfo { part_number: *n, etag: format!("E{}", n), size: 1, last_modified: String::new() })
            .collect(),
        is_truncated: false,
    }
}

#[test]
fn re_uploading_a_part_keeps_the_last_etag() {
    let mut s = UploadSession::new("yuanyq", "obj", "UP1");
    s.record_part(1, "A").unwrap();
    s.record_part(2, "X").unwrap();
    s.record_part(1, "B").unwrap();
    let m = s.manifest();
    assert_eq!(m.upload_id, "UP1");
    assert_eq!(m.parts, vec![(1, "B".to_string()), (2, "X".to_string())]);
    assert_eq!(s.part_count(), 2);
}

#[test]
fn manifest_is_ascending_whatever_the_upload_order() {
    let mut a = UploadSession::new("yuanyq", "obj", "UP1");
    let mut b = UploadSession::new("yuanyq", "obj", "UP1");
    for n in [3u32, 1, 4, 2, 5] {
        a.record_part(n, &format!("E{}", n)).unwrap();
    }
    for n in [5u32, 4, 3, 2, 1] {
        b.record_part(n, &format!("E{}", n)).unwrap();
    }
    let ma = a.manifest();
    assert_eq!(ma.parts, b.manifest().parts);
    let numbers: Vec<u32> = ma.parts.iter().map(|p| p.0).collect();
    assert_eq!(numbers, vec![1, 2, 3, 4, 5]);
}

#[test]
fn part_number_zero_is_refused() {
    let mut s = UploadSession::new("yuanyq", "obj", "UP1");
    assert_eq!(s.record_part(0, "A"), Err(Error::InvalidPartNumber));
    assert_eq!(s.part_count(), 0);
    assert_eq!(s.bucket(), "yuanyq");
    assert_eq!(s.key(), "obj");
    assert_eq!(s.upload_id(), "UP1");
}

#[test]
fn listing_reconciles_with_the_record() {
    let mut s = UploadSession::new("yuanyq", "obj", "UP1");
    for n in [2u32, 1, 3] {
        s.record_part(n, "E").unwrap();
    }
    assert!(s.matches_listing(&listing(&[1, 2, 3])));
    assert!(!s.matches_listing(&listing(&[1, 2])));
    assert!(!s.matches_listing(&listing(&[1, 2, 4])));
}

#[test]
fn session_opens_from_an_initiation_answer() {
    let xml = "<InitiateMultipartUploadResult><Bucket>yuanyq</Bucket><Key>a.deb</Key><UploadId>U9</UploadId></InitiateMultipartUploadResult>";
    let answer = ali_oss_rs::response::InitiateMultipartUploadResult::from_xml(xml).unwrap();
    let s = UploadSession::from_initiate(&answer);
    assert_eq!(s.bucket(), "yuanyq");
    assert_eq!(s.key(), "a.deb");
    assert_eq!(s.upload_id(), "U9");
    assert_eq!(s.part_count(), 0);
}
