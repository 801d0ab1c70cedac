use reqwest::header::{HeaderMap, HeaderName, HeaderValue};
use split_transfer::download::{Download, DownloadStep, Fetched};
use split_transfer::error::TransferError;
use split_transfer::instance::InstanceInfo;
use split_transfer::upload::{Reply, Upload, UploadStep};

fn info(ceiling: u64) -> InstanceInfo {
    InstanceInfo::new(ceiling, b"http://files.example".to_vec())
}

fn fetching(step: DownloadStep) -> (Download, Vec<u8>) {
    match step {
        DownloadStep::Fetch(download, url) => (download, url),
        other => panic!("expected a request, got {:?}", other),
    }
}

fn finished(step: DownloadStep) -> (Vec<u8>, u128) {
    match step {
        DownloadStep::Finished { file_name, bytes_written } => (file_name, bytes_written),
        other => panic!("expected the end, got {:?}", other),
    }
}

fn aborted(step: DownloadStep) -> TransferError {
    match step {
        DownloadStep::Aborted(e) => e,
        other => panic!("expected a failure, got {:?}", other),
    }
}

#[test]
fn manifest_is_fetched_first() {
    let (_, url) = Download::begin(b"77", &info(10));
    assert_eq!(url, b"http://files.example/77".to_vec());
}

#[test]
fn ceiling_plays_no_part_in_a_download() {
    let mut sink = Vec::new();
    let (download, url) = Download::begin(b"m", &info(0));
    assert_eq!(url, b"http://files.example/m".to_vec());
    let (download, url) = fetching(download.step(Fetched::Body(b"f.bin\0a\0b"), &mut sink));
    assert_eq!(url, b"http://files.example/a".to_vec());
    let (download, _) = fetching(download.step(Fetched::Body(b"12"), &mut sink));
    let end = finished(download.step(Fetched::Body(b"345"), &mut sink));
    assert_eq!(end, (b"f.bin".to_vec(), 5));
    assert_eq!(sink, b"12345".to_vec());
}

#[test]
fn unreachable_manifest_fails_the_download() {
    let mut sink = b"kept".to_vec();
    let (download, _) = Download::begin(b"77", &info(10));
    assert_eq!(aborted(download.step(Fetched::Failed, &mut sink)), TransferError::ManifestFetchFailed);
    assert_eq!(sink, b"kept".to_vec());
}

#[test]
fn manifest_without_parts_finishes_with_nothing_written() {
    for text in [&b"photo.png\0"[..], &b"photo.png"[..]] {
        let mut sink = Vec::new();
        let (download, _) = Download::begin(b"m", &info(10));
        let end = finished(download.step(Fetched::Body(text), &mut sink));
        assert_eq!(end, (b"photo.png".to_vec(), 0));
        assert!(sink.is_empty());
    }
}

#[test]
fn parts_are_fetched_in_manifest_order_and_joined() {
    let mut sink = Vec::new();
    let (download, _) = Download::begin(b"m", &info(10));
    let (download, url) = fetching(download.step(Fetched::Body(b"f.bin\0id1\0id2\0id3"), &mut sink));
    assert_eq!(url, b"http://files.example/id1".to_vec());
    assert!(sink.is_empty());
    let (download, url) = fetching(download.step(Fetched::Body(b"0123456789"), &mut sink));
    assert_eq!(url, b"http://files.example/id2".to_vec());
    let (download, url) = fetching(download.step(Fetched::Body(b"abcdefghij"), &mut sink));
    assert_eq!(url, b"http://files.example/id3".to_vec());
    let end = finished(download.step(Fetched::Body(b"VWXYZ"), &mut sink));
    assert_eq!(end, (b"f.bin".to_vec(), 25));
    assert_eq!(sink, b"0123456789abcdefghijVWXYZ".to_vec());
}

#[test]
fn order_is_the_manifests_not_the_identifiers() {
    let mut sink = Vec::new();
    let (download, _) = Download::begin(b"m", &info(10));
    let (download, first) = fetching(download.step(Fetched::Body(b"n\x009\x0010\x001"), &mut sink));
    let (download, second) = fetching(download.step(Fetched::Body(b"C"), &mut sink));
    let (download, third) = fetching(download.step(Fetched::Body(b"A"), &mut sink));
    let end = finished(download.step(Fetched::Body(b"B"), &mut sink));
    assert_eq!(first, b"http://files.example/9".to_vec());
    assert_eq!(second, b"http://files.example/10".to_vec());
    assert_eq!(third, b"http://files.example/1".to_vec());
    assert_eq!(end, (b"n".to_vec(), 3));
    assert_eq!(sink, b"CAB".to_vec());
}

#[test]
fn parts_go_after_what_the_sink_already_holds() {
    let mut sink = b">>".to_vec();
    let (download, _) = Download::begin(b"m", &info(10));
    let (download, _) = fetching(download.step(Fetched::Body(b"n\0a"), &mut sink));
    assert_eq!(sink, b">>".to_vec());
    let end = finished(download.step(Fetched::Body(b"xyz"), &mut sink));
    assert_eq!(end, (b"n".to_vec(), 3));
    assert_eq!(sink, b">>xyz".to_vec());
}

#[test]
fn unreachable_part_fails_the_download_and_is_named() {
    let mut sink = Vec::new();
    let (download, _) = Download::begin(b"m", &info(10));
    let (download, _) = fetching(download.step(Fetched::Body(b"f\0id1\0id2\0id3"), &mut sink));
    let (download, _) = fetching(download.step(Fetched::Body(b"0123"), &mut sink));
    assert_eq!(
        aborted(download.step(Fetched::Failed, &mut sink)),
        TransferError::PartFetchFailed { id: b"id2".to_vec() }
    );
    assert_eq!(sink, b"0123".to_vec());
}

#[test]
fn empty_parts_count_as_nothing() {
    let mut sink = Vec::new();
    let (download, _) = Download::begin(b"m", &info(10));
    let (download, _) = fetching(download.step(Fetched::Body(b"f\0a\0b"), &mut sink));
    let (download, _) = fetching(download.step(Fetched::Body(b""), &mut sink));
    let end = finished(download.step(Fetched::Body(b"xy"), &mut sink));
    assert_eq!(end, (b"f".to_vec(), 2));
}

// An object store that hands out identifiers in an order unlike their
// storage order, so that a reader who sorted them would join the parts wrongly.
struct Store {
    objects: Vec<(Vec<u8>, Vec<u8>)>,
}

impl Store {
    fn put(&mut self, body: Vec<u8>) -> Vec<u8> {
        let id = format!("{}", 1000 - self.objects.len() * 7).into_bytes();
        self.objects.push((id.clone(), body));
        id
    }

    fn get(&self, url: &[u8]) -> Option<&[u8]> {
        let id = url.strip_prefix(b"http://files.example/")?;
        self.objects.iter().find(|(key, _)| key == id).map(|(_, body)| body.as_slice())
    }
}

fn quiet() -> HeaderMap {
    let mut map = HeaderMap::new();
    for name in [
        "x-ratelimit-byte-max",
        "x-ratelimit-sent-bytes",
        "x-ratelimit-max",
        "x-ratelimit-request-count",
        "x-ratelimit-reset",
        "x-ratelimit-last-reset",
    ] {
        map.insert(HeaderName::from_static(name), HeaderValue::from_static("0"));
    }
    map.insert(HeaderName::from_static("x-ratelimit-byte-max"), HeaderValue::from_static("99999"));
    map.insert(HeaderName::from_static("x-ratelimit-max"), HeaderValue::from_static("99999"));
    map
}

fn round_trip(file: Vec<u8>, name: &[u8], ceiling: u64) -> (Vec<u8>, Vec<u8>, u128, usize) {
    let info = info(ceiling);
    let headers = quiet();
    let mut store = Store { objects: Vec::new() };
    let mut step = Upload::begin(file, name.to_vec(), &info);
    let meta_id = loop {
        match step {
            UploadStep::Send(upload, request) => {
                assert_eq!(request.delay_ms, 0);
                let id = store.put(request.body);
                step = upload.step(Reply::Answered { headers: &headers, id: Some(id), now_ms: 5 });
            }
            UploadStep::Finished(id) => break id,
            UploadStep::Aborted(e) => panic!("upload failed: {:?}", e),
        }
    };
    let stored = store.objects.len();
    let mut sink = Vec::new();
    let (download, url) = Download::begin(&meta_id, &info);
    let mut step = DownloadStep::Fetch(download, url);
    loop {
        match step {
            DownloadStep::Fetch(download, url) => {
                let fetched = match store.get(&url) {
                    Some(body) => Fetched::Body(body),
                    None => Fetched::Failed,
                };
                step = download.step(fetched, &mut sink);
            }
            DownloadStep::Finished { file_name, bytes_written } => {
                return (file_name, sink, bytes_written, stored)
            }
            DownloadStep::Aborted(e) => panic!("download failed: {:?}", e),
        }
    }
}

#[test]
fn upload_then_download_gives_the_file_back() {
    let file: Vec<u8> = (0..25u8).collect();
    let (name, bytes, written, stored) = round_trip(file.clone(), b"f.bin", 10);
    assert_eq!(name, b"f.bin".to_vec());
    assert_eq!(bytes, file);
    assert_eq!(written, 25);
    assert_eq!(stored, 4);
}

#[test]
fn round_trip_holds_for_many_sizes() {
    for len in [2usize, 3, 10, 11, 99, 100, 101, 256] {
        for ceiling in [1u64, 2, 7, 10, 50] {
            if (len as u64) <= ceiling {
                continue;
            }
            let file: Vec<u8> = (0..len).map(|i| (i * 31 + 7) as u8).collect();
            let (name, bytes, written, stored) = round_trip(file.clone(), b"some file.dat", ceiling);
            assert_eq!(name, b"some file.dat".to_vec());
            assert_eq!(bytes, file);
            assert_eq!(written, len as u128);
            assert_eq!(stored as u64, (len as u64 + ceiling - 1) / ceiling + 1);
        }
    }
}
