use fileshare::models::ResolvedFile;
use fileshare::utilities::generate_metadata;

const NAMESPACE: [u8; 16] = [
    0x2d, 0x8a, 0xef, 0x7b, 0x51, 0x3a, 0x4b, 0x92, 0x9c, 0x6e, 0x1f, 0x44, 0x8d, 0x22, 0x71,
    0x05,
];

fn entry(path: &[u8], size: u64) -> ResolvedFile {
    ResolvedFile { path: path.to_vec(), size }
}

#[test]
fn identity_is_deterministic() {
    let first = generate_metadata(&vec![entry(b"/tmp/a.txt", 10)]).unwrap();
    let second = generate_metadata(&vec![entry(b"/tmp/a.txt", 10)]).unwrap();
    assert_eq!(first[0].uuid, second[0].uuid);
}

#[test]
fn distinct_paths_get_distinct_identities() {
    let catalog = generate_metadata(&vec![
        entry(b"/tmp/a.txt", 10),
        entry(b"/tmp/b.txt", 20),
        entry(b"/tmp/sub/a.txt", 10),
    ])
    .unwrap();
    assert_ne!(catalog[0].uuid, catalog[1].uuid);
    assert_ne!(catalog[0].uuid, catalog[2].uuid);
    assert_ne!(catalog[1].uuid, catalog[2].uuid);
}

#[test]
fn identity_matches_version5_uuid_of_path() {
    let catalog = generate_metadata(&vec![entry(b"/tmp/a.txt", 10)]).unwrap();
    let expected = uuid::Uuid::new_v5(&uuid::Uuid::from_bytes(NAMESPACE), b"/tmp/a.txt");
    assert_eq!(catalog[0].uuid, expected.as_u128());
}

#[test]
fn catalog_keeps_input_order_names_and_sizes() {
    let catalog = generate_metadata(&vec![
        entry(b"/srv/share/report.pdf", 1234),
        entry(b"/srv/share/notes.txt", 5),
    ])
    .unwrap();
    assert_eq!(catalog.len(), 2);
    assert_eq!(catalog[0].file_name, "report.pdf");
    assert_eq!(catalog[0].file_size, 1234);
    assert_eq!(catalog[0].file_path, b"/srv/share/report.pdf".to_vec());
    assert_eq!(catalog[1].file_name, "notes.txt");
    assert_eq!(catalog[1].file_size, 5);
}

#[test]
fn non_ascii_name_is_decoded_as_utf8() {
    let catalog = generate_metadata(&vec![entry("/tmp/r\u{e9}sum\u{e9}.pdf".as_bytes(), 7)])
        .unwrap();
    assert_eq!(catalog[0].file_name, "r\u{e9}sum\u{e9}.pdf");
}

#[test]
fn invalid_utf8_name_is_an_encoding_error() {
    let mut path = b"/tmp/".to_vec();
    path.push(0xff);
    path.push(0xfe);
    let err = generate_metadata(&vec![entry(b"/tmp/ok.txt", 1), ResolvedFile { path, size: 1 }])
        .unwrap_err();
    assert_eq!(err.index, 1);
}

#[test]
fn path_without_final_component_is_an_encoding_error() {
    let err = generate_metadata(&vec![entry(b"/", 0)]).unwrap_err();
    assert_eq!(err.index, 0);
}

#[test]
fn name_without_separator_is_the_whole_path() {
    let catalog = generate_metadata(&vec![entry(b"plain.txt", 3)]).unwrap();
    assert_eq!(catalog[0].file_name, "plain.txt");
}
