use wws_staging::staging::{extension_of, Data};

// Identical byte content hashes to the identical string, wherever the
// bytes came from.
#[test]
fn hash_same_content_same_hash() {
    let a: Vec<u8> = b"console.log('hi')".to_vec();
    let mut b: Vec<u8> = Vec::new();
    b.extend_from_slice(b"console.log");
    b.extend_from_slice(b"('hi')");
    assert_eq!(a, b);
    assert_eq!(Data::file_hash(&a), Data::file_hash(&b));
}

// Differing byte content gives differing hashes (collision resistance,
// checked here on concrete values).
#[test]
fn hash_different_content_different_hash() {
    let a: Vec<u8> = b"one worker".to_vec();
    let b: Vec<u8> = b"two worker".to_vec();
    assert_ne!(Data::file_hash(&a), Data::file_hash(&b));
}

// The hash of the empty input is the well-known blake3 digest, rendered
// as 64 lowercase hexadecimal characters.
#[test]
fn hash_known_value_empty_input() {
    let h = Data::file_hash(&Vec::new());
    assert_eq!(
        h,
        "af1349b9f5f9a1a6a0404dea36dcc9499bcb25c9adc112b7cc9a93cae41f3262"
    );
}

// The hash string agrees with the blake3 crate's own rendering, and is
// always 64 lowercase hex characters.
#[test]
fn hash_matches_blake3_rendering() {
    let content: Vec<u8> = b"export default () => {}".to_vec();
    let h = Data::file_hash(&content);
    assert_eq!(h, blake3::hash(&content).to_string());
    assert_eq!(h.len(), 64);
    assert!(h
        .chars()
        .all(|c| c.is_ascii_hexdigit() && !c.is_ascii_uppercase()));
}

// A ten-byte source staged for "js" resolves to `.wws/js/<hash>` and its
// staged copy to `.wws/js/<hash>/index.js`.
#[test]
fn create_and_index_path_for_js_worker() {
    let content: Vec<u8> = b"console.lo".to_vec();
    assert_eq!(content.len(), 10);
    let hash = Data::file_hash(&content);
    let d = Data::new("js".to_string(), &content);
    assert_eq!(d.folder, format!(".wws/js/{}", hash));
    let staged = d.index_file_path("hello.js");
    assert_eq!(staged, format!(".wws/js/{}/index.js", hash));
}

// Resolving twice with the same inputs lands on the same folder.
#[test]
fn create_is_deterministic() {
    let content: Vec<u8> = b"a worker body".to_vec();
    let first = Data::new("wasm".to_string(), &content);
    let second = Data::new("wasm".to_string(), &content);
    assert_eq!(first.folder, second.folder);
}

// Different language subfolders namespace the same content apart.
#[test]
fn languages_are_namespaced() {
    let content: Vec<u8> = b"shared body".to_vec();
    let js = Data::new("js".to_string(), &content);
    let wasm = Data::new("wasm".to_string(), &content);
    assert_ne!(js.folder, wasm.folder);
    assert!(js.folder.starts_with(".wws/js/"));
    assert!(wasm.folder.starts_with(".wws/wasm/"));
}

// A source with no extension stages to a file literally named `index.`.
#[test]
fn no_extension_gives_bare_index_name() {
    let content: Vec<u8> = b"#!/bin/sh".to_vec();
    let d = Data::new("sh".to_string(), &content);
    let staged = d.index_file_path("Makefile");
    assert_eq!(staged, format!("{}/index.", d.folder));
}

// Extension extraction follows the file-name rules: the portion after the
// last dot past the first character, else empty.
#[test]
fn extension_extraction_rules() {
    assert_eq!(extension_of("hello.js"), "js");
    assert_eq!(extension_of("archive.tar.gz"), "gz");
    assert_eq!(extension_of("Makefile"), "");
    assert_eq!(extension_of(".gitignore"), "");
    assert_eq!(extension_of("trailing."), "");
    assert_eq!(extension_of(".hidden.rc"), "rc");
    assert_eq!(extension_of(""), "");
    assert_eq!(extension_of("."), "");
}
