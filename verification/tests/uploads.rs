use reqwest::header::{HeaderMap, HeaderName, HeaderValue};
use split_transfer::error::{RateLimitHeader, TransferError};
use split_transfer::instance::InstanceInfo;
use split_transfer::upload::{ContentKind, Reply, StoreRequest, Upload, UploadStep};

const T: u64 = 1_700_000_000_000;

fn info(ceiling: u64) -> InstanceInfo {
    InstanceInfo::new(ceiling, b"http://files.example".to_vec())
}

fn file(len: usize) -> Vec<u8> {
    (0..len).map(|i| (i * 5 + 1) as u8).collect()
}

fn headers(sent_bytes: &'static str, request_count: &'static str) -> HeaderMap {
    let mut map = HeaderMap::new();
    let fields = [
        ("x-ratelimit-byte-max", "1000"),
        ("x-ratelimit-sent-bytes", sent_bytes),
        ("x-ratelimit-max", "10"),
        ("x-ratelimit-request-count", request_count),
        ("x-ratelimit-reset", "5000"),
        ("x-ratelimit-last-reset", "1700000000000"),
    ];
    for (name, value) in fields {
        map.insert(HeaderName::from_static(name), HeaderValue::from_static(value));
    }
    map
}

fn sending(step: UploadStep) -> (Upload, StoreRequest) {
    match step {
        UploadStep::Send(upload, request) => (upload, request),
        other => panic!("expected a request, got {:?}", other),
    }
}

fn aborted(step: UploadStep) -> TransferError {
    match step {
        UploadStep::Aborted(e) => e,
        other => panic!("expected a failure, got {:?}", other),
    }
}

fn stored(upload: Upload, map: &HeaderMap, id: &[u8]) -> UploadStep {
    upload.step(Reply::Answered { headers: map, id: Some(id.to_vec()), now_ms: T })
}

#[test]
fn media_types() {
    assert_eq!(ContentKind::Binary.mime(), "application/octet-stream");
    assert_eq!(ContentKind::Text.mime(), "text/plain");
}

#[test]
fn file_that_fits_is_not_split() {
    for len in [0usize, 1, 9, 10] {
        let step = Upload::begin(file(len), b"f.bin".to_vec(), &info(10));
        assert_eq!(aborted(step), TransferError::FileTooSmallForSplitting);
    }
}

#[test]
fn empty_file_is_too_small_whatever_the_ceiling() {
    let step = Upload::begin(Vec::new(), b"f.bin".to_vec(), &info(0));
    assert_eq!(aborted(step), TransferError::FileTooSmallForSplitting);
}

#[test]
fn ceiling_of_zero_cannot_cut_a_file() {
    for len in [1usize, 2, 25] {
        let step = Upload::begin(file(len), b"f.bin".to_vec(), &info(0));
        assert_eq!(aborted(step), TransferError::InstanceInfoMalformed);
    }
    let step = Upload::begin(file(3), b"a\0b".to_vec(), &info(0));
    assert_eq!(aborted(step), TransferError::InstanceInfoMalformed);
}

#[test]
fn size_is_checked_before_the_name() {
    let step = Upload::begin(file(3), b"a\0b".to_vec(), &info(10));
    assert_eq!(aborted(step), TransferError::FileTooSmallForSplitting);
}

#[test]
fn name_with_a_separator_is_refused_before_anything_is_sent() {
    let step = Upload::begin(file(11), b"a\0b".to_vec(), &info(10));
    assert_eq!(aborted(step), TransferError::ManifestMalformed);
}

#[test]
fn first_part_goes_out_at_once() {
    let data = file(11);
    let (_, request) = sending(Upload::begin(data.clone(), b"f.bin".to_vec(), &info(10)));
    assert_eq!(
        request,
        StoreRequest {
            name: b"f.bin-0".to_vec(),
            body: data[0..10].to_vec(),
            kind: ContentKind::Binary,
            delay_ms: 0,
        }
    );
}

#[test]
fn twenty_five_bytes_go_out_as_three_parts_and_a_manifest() {
    let data = file(25);
    let quiet = headers("0", "0");
    let (upload, first) = sending(Upload::begin(data.clone(), b"f.bin".to_vec(), &info(10)));
    assert_eq!(first.name, b"f.bin-0".to_vec());
    assert_eq!(first.body, data[0..10].to_vec());
    let (upload, second) = sending(stored(upload, &quiet, b"id1"));
    assert_eq!(second.name, b"f.bin-1".to_vec());
    assert_eq!(second.body, data[10..20].to_vec());
    assert_eq!(second.kind, ContentKind::Binary);
    let (upload, third) = sending(stored(upload, &quiet, b"id2"));
    assert_eq!(third.name, b"f.bin-2".to_vec());
    assert_eq!(third.body, data[20..25].to_vec());
    let (upload, last) = sending(stored(upload, &quiet, b"id3"));
    assert_eq!(
        last,
        StoreRequest {
            name: b"f.bin-meta".to_vec(),
            body: b"f.bin\0id1\0id2\0id3".to_vec(),
            kind: ContentKind::Text,
            delay_ms: 0,
        }
    );
    match stored(upload, &quiet, b"meta-id") {
        UploadStep::Finished(id) => assert_eq!(id, b"meta-id".to_vec()),
        other => panic!("expected the end, got {:?}", other),
    }
}

#[test]
fn identifiers_are_listed_in_upload_order() {
    let quiet = headers("0", "0");
    let (upload, _) = sending(Upload::begin(file(5), b"n".to_vec(), &info(2)));
    let (upload, _) = sending(stored(upload, &quiet, b"zebra"));
    let (upload, _) = sending(stored(upload, &quiet, b"10"));
    let (_, last) = sending(stored(upload, &quiet, b"9"));
    assert_eq!(last.body, b"n\0zebra\x0010\x009".to_vec());
}

#[test]
fn delay_is_decided_for_the_size_of_the_next_part() {
    let data = file(25);
    let (upload, _) = sending(Upload::begin(data, b"f".to_vec(), &info(10)));
    // 990 sent + 10 for the next part reaches the ceiling of 1000 but does not exceed it
    let (upload, second) = sending(stored(upload, &headers("990", "1"), b"a"));
    assert_eq!(second.delay_ms, 0);
    // 996 sent + 5 for the last part exceeds it
    let (upload, third) = sending(upload.step(Reply::Answered {
        headers: &headers("996", "2"),
        id: Some(b"b".to_vec()),
        now_ms: T + 1000,
    }));
    assert_eq!(third.delay_ms, 4000);
    // nothing follows the last part: only the request count can hold the manifest back
    let (_, last) = sending(stored(upload, &headers("1000", "3"), b"c"));
    assert_eq!(last.delay_ms, 0);
}

#[test]
fn manifest_waits_when_every_request_is_used() {
    let (upload, _) = sending(Upload::begin(file(3), b"f".to_vec(), &info(2)));
    let (upload, _) = sending(stored(upload, &headers("0", "0"), b"a"));
    let (_, last) = sending(stored(upload, &headers("0", "10"), b"b"));
    assert_eq!(last.kind, ContentKind::Text);
    assert_eq!(last.delay_ms, 5000);
}

#[test]
fn request_that_does_not_get_through_fails_its_part() {
    let quiet = headers("0", "0");
    let (upload, _) = sending(Upload::begin(file(25), b"f".to_vec(), &info(10)));
    assert_eq!(
        aborted(upload.step(Reply::Failed)),
        TransferError::PartUploadFailed { index: 0 }
    );
    let (upload, _) = sending(Upload::begin(file(25), b"f".to_vec(), &info(10)));
    let (upload, _) = sending(stored(upload, &quiet, b"a"));
    assert_eq!(
        aborted(upload.step(Reply::Failed)),
        TransferError::PartUploadFailed { index: 1 }
    );
}

#[test]
fn body_without_an_identifier_fails_its_part() {
    let quiet = headers("0", "0");
    let (upload, _) = sending(Upload::begin(file(25), b"f".to_vec(), &info(10)));
    let (upload, _) = sending(stored(upload, &quiet, b"a"));
    let (upload, _) = sending(stored(upload, &quiet, b"b"));
    let step = upload.step(Reply::Answered { headers: &quiet, id: None, now_ms: T });
    assert_eq!(aborted(step), TransferError::PartUploadFailed { index: 2 });
}

#[test]
fn missing_header_aborts_before_the_next_part() {
    let names = [
        ("x-ratelimit-byte-max", RateLimitHeader::ByteMax),
        ("x-ratelimit-sent-bytes", RateLimitHeader::SentBytes),
        ("x-ratelimit-max", RateLimitHeader::Max),
        ("x-ratelimit-request-count", RateLimitHeader::RequestCount),
        ("x-ratelimit-reset", RateLimitHeader::Reset),
        ("x-ratelimit-last-reset", RateLimitHeader::LastReset),
    ];
    for (name, header) in names {
        let mut map = headers("0", "0");
        map.remove(name);
        let (upload, _) = sending(Upload::begin(file(25), b"f".to_vec(), &info(10)));
        assert_eq!(
            aborted(stored(upload, &map, b"a")),
            TransferError::RateLimitHeaderMissing { header }
        );
    }
}

#[test]
fn non_numeric_header_aborts_before_the_next_part() {
    let mut map = headers("0", "0");
    map.insert(HeaderName::from_static("x-ratelimit-reset"), HeaderValue::from_static("later"));
    let (upload, _) = sending(Upload::begin(file(25), b"f".to_vec(), &info(10)));
    assert_eq!(
        aborted(stored(upload, &map, b"a")),
        TransferError::RateLimitHeaderUnparseable { header: RateLimitHeader::Reset }
    );
}

#[test]
fn bad_headers_count_before_a_missing_identifier() {
    let (upload, _) = sending(Upload::begin(file(25), b"f".to_vec(), &info(10)));
    let step = upload.step(Reply::Answered { headers: &HeaderMap::new(), id: None, now_ms: T });
    assert_eq!(
        aborted(step),
        TransferError::RateLimitHeaderMissing { header: RateLimitHeader::ByteMax }
    );
}

#[test]
fn identifier_that_cannot_be_listed_aborts() {
    let quiet = headers("0", "0");
    for bad in [&b""[..], &b"a\0b"[..]] {
        let (upload, _) = sending(Upload::begin(file(25), b"f".to_vec(), &info(10)));
        assert_eq!(aborted(stored(upload, &quiet, bad)), TransferError::ManifestMalformed);
    }
}

#[test]
fn failed_manifest_fails_the_upload() {
    let quiet = headers("0", "0");
    let (upload, _) = sending(Upload::begin(file(3), b"f".to_vec(), &info(2)));
    let (upload, _) = sending(stored(upload, &quiet, b"a"));
    let (upload, _) = sending(stored(upload, &quiet, b"b"));
    assert_eq!(aborted(upload.step(Reply::Failed)), TransferError::ManifestUploadFailed);

    let (upload, _) = sending(Upload::begin(file(3), b"f".to_vec(), &info(2)));
    let (upload, _) = sending(stored(upload, &quiet, b"a"));
    let (upload, _) = sending(stored(upload, &quiet, b"b"));
    let step = upload.step(Reply::Answered { headers: &quiet, id: None, now_ms: T });
    assert_eq!(aborted(step), TransferError::ManifestUploadFailed);
}

#[test]
fn headers_of_the_manifest_response_are_not_read() {
    let quiet = headers("0", "0");
    let (upload, _) = sending(Upload::begin(file(3), b"f".to_vec(), &info(2)));
    let (upload, _) = sending(stored(upload, &quiet, b"a"));
    let (upload, _) = sending(stored(upload, &quiet, b"b"));
    match stored(upload, &HeaderMap::new(), b"m") {
        UploadStep::Finished(id) => assert_eq!(id, b"m".to_vec()),
        other => panic!("expected the end, got {:?}", other),
    }
}
