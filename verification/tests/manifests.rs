use split_transfer::error::TransferError;
use split_transfer::manifest::{is_valid_id, is_valid_name, Manifest, SEPARATOR};

fn manifest(name: &[u8], ids: &[&[u8]]) -> Manifest {
    Manifest { file_name: name.to_vec(), part_ids: ids.iter().map(|id| id.to_vec()).collect() }
}

#[test]
fn separator_is_nul() {
    assert_eq!(SEPARATOR, 0);
}

#[test]
fn name_followed_by_separator_has_no_parts() {
    assert_eq!(Manifest::decode(b"photo.png\0"), manifest(b"photo.png", &[]));
}

#[test]
fn name_alone_has_no_parts() {
    assert_eq!(Manifest::decode(b"onlyname"), manifest(b"onlyname", &[]));
}

#[test]
fn empty_text_is_an_empty_name() {
    assert_eq!(Manifest::decode(b""), manifest(b"", &[]));
    assert_eq!(Manifest::decode(b"\0"), manifest(b"", &[]));
}

#[test]
fn identifiers_come_out_in_the_order_written() {
    assert_eq!(
        Manifest::decode(b"f.bin\0id1\0id2\0id3"),
        manifest(b"f.bin", &[b"id1", b"id2", b"id3"])
    );
    assert_eq!(Manifest::decode(b"f\x009\x0010\x002"), manifest(b"f", &[b"9", b"10", b"2"]));
}

#[test]
fn empty_pieces_after_the_first_are_kept() {
    assert_eq!(Manifest::decode(b"n\0\0"), manifest(b"n", &[b"", b""]));
    assert_eq!(Manifest::decode(b"n\0a\0"), manifest(b"n", &[b"a", b""]));
    assert_eq!(Manifest::decode(b"\0a"), manifest(b"", &[b"a"]));
}

#[test]
fn writes_name_and_identifiers_with_separators() {
    assert_eq!(
        manifest(b"f.bin", &[b"id1", b"id2", b"id3"]).encode(),
        Ok(b"f.bin\0id1\0id2\0id3".to_vec())
    );
    assert_eq!(manifest(b"f.bin", &[b"7"]).encode(), Ok(b"f.bin\x007".to_vec()));
}

#[test]
fn writes_a_lone_separator_after_the_name_without_parts() {
    assert_eq!(manifest(b"photo.png", &[]).encode(), Ok(b"photo.png\0".to_vec()));
    assert_eq!(manifest(b"", &[]).encode(), Ok(b"\0".to_vec()));
}

#[test]
fn refuses_a_separator_in_the_name() {
    assert_eq!(manifest(b"a\0b", &[b"1"]).encode(), Err(TransferError::ManifestMalformed));
    assert!(!manifest(b"a\0b", &[b"1"]).is_well_formed());
}

#[test]
fn refuses_a_separator_in_an_identifier() {
    assert_eq!(manifest(b"a", &[b"1", b"2\x003"]).encode(), Err(TransferError::ManifestMalformed));
}

#[test]
fn refuses_an_empty_identifier() {
    assert_eq!(manifest(b"a", &[b""]).encode(), Err(TransferError::ManifestMalformed));
    assert_eq!(manifest(b"a", &[b"1", b"", b"3"]).encode(), Err(TransferError::ManifestMalformed));
}

#[test]
fn validity_of_names_and_identifiers() {
    assert!(is_valid_name(b""));
    assert!(is_valid_name(b"photo.png"));
    assert!(!is_valid_name(b"\0"));
    assert!(is_valid_id(b"id1"));
    assert!(!is_valid_id(b""));
    assert!(!is_valid_id(b"i\0d"));
}

#[test]
fn written_manifest_reads_back() {
    let cases: [(&[u8], &[&[u8]]); 5] = [
        (b"f.bin", &[b"id1", b"id2", b"id3"]),
        (b"", &[b"x"]),
        (b"name with spaces", &[]),
        (b"\xc3\xa9t\xc3\xa9.txt", &[b"3", b"1", b"2"]),
        (b"n", &[b"z", b"a", b"m", b"a"]),
    ];
    for (name, ids) in cases {
        let written = manifest(name, ids);
        assert!(written.is_well_formed());
        let text = written.encode().unwrap();
        assert_eq!(Manifest::decode(&text), written);
    }
}
