use raincloud::archive::{pack, unpack, FileEntry};
use raincloud::errors::SyncErrorKind;

fn entry(path: &str, data: &[u8]) -> FileEntry {
    FileEntry { path: path.as_bytes().to_vec(), data: data.to_vec() }
}

#[test]
fn pack_then_unpack_reproduces_every_file() {
    let files = vec![
        entry("root.txt", b"hello"),
        entry("sub/dir/nested.bin", &[0u8, 1, 2, 255, 254, 0]),
        entry("empty", b""),
        entry("big", &vec![7u8; 100_000]),
    ];
    let bytes = pack(&files).unwrap();
    let out = unpack(&bytes).unwrap();
    assert_eq!(out.len(), files.len());
    for (a, b) in files.iter().zip(out.iter()) {
        assert_eq!(a.path, b.path);
        assert_eq!(a.data, b.data);
    }
}

#[test]
fn empty_tree_round_trips() {
    let files: Vec<FileEntry> = Vec::new();
    let bytes = pack(&files).unwrap();
    let out = unpack(&bytes).unwrap();
    assert!(out.is_empty());
}

#[test]
fn archive_is_a_zip_file() {
    let files = vec![entry("a.txt", b"abcabcabc")];
    let bytes = pack(&files).unwrap();
    // A real archive, not the input handed back: it starts with the zip
    // local-file-header magic.
    assert_eq!(&bytes[0..2], b"PK");
    assert_ne!(bytes, b"abcabcabc".to_vec());
}

#[test]
fn duplicate_paths_are_refused() {
    let files = vec![entry("same.txt", b"one"), entry("same.txt", b"two")];
    let r = pack(&files);
    assert!(r.is_err());
    assert_eq!(r.unwrap_err().kind, SyncErrorKind::Archive);
}

#[test]
fn non_ascii_names_still_pack() {
    // The owed-success condition asks for ASCII names, but any UTF-8 name
    // is accepted at run time.
    let files = vec![entry("na\u{ef}ve/r\u{e9}sum\u{e9}.txt", b"bytes")];
    let bytes = pack(&files).unwrap();
    let out = unpack(&bytes).unwrap();
    assert_eq!(out[0].path, files[0].path);
    assert_eq!(out[0].data, files[0].data);
}

#[test]
fn corrupt_bytes_are_refused() {
    let r = unpack(&b"this is not an archive".to_vec());
    assert!(r.is_err());
    assert_eq!(r.unwrap_err().kind, SyncErrorKind::Archive);
}

#[test]
fn compression_shrinks_repetitive_data() {
    let files = vec![entry("zeros.bin", &vec![0u8; 50_000])];
    let bytes = pack(&files).unwrap();
    assert!(bytes.len() < 10_000);
}
