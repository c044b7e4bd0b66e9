use genesis_rs::manifest::{ManifestDoc, ManifestError};

const SAMPLE: &[u8] = b"[package]\nname = \"starter\"\nversion = \"0.1.0\"\nedition = \"2021\"\n\n[dependencies]\nserde = \"1\"\n";

#[test]
fn sets_only_the_package_name() {
    let mut doc = ManifestDoc::parse(&SAMPLE.to_vec());
    let r = doc.set_package_name(&b"demo".to_vec());
    assert!(r.is_ok());
    let out = doc.to_bytes();
    assert_eq!(
        out,
        b"[package]\nname = \"demo\"\nversion = \"0.1.0\"\nedition = \"2021\"\n\n[dependencies]\nserde = \"1\"\n".to_vec()
    );
}

#[test]
fn reparsing_a_patched_manifest_gives_the_patched_structure() {
    let mut doc = ManifestDoc::parse(&SAMPLE.to_vec());
    doc.set_package_name(&b"demo".to_vec()).unwrap();
    let text = doc.to_bytes();
    let reparsed = ManifestDoc::parse(&text);
    assert_eq!(reparsed.lines, doc.lines);
    assert_eq!(reparsed.to_bytes(), text);
}

#[test]
fn patching_again_with_the_same_name_changes_nothing() {
    let mut doc = ManifestDoc::parse(&SAMPLE.to_vec());
    doc.set_package_name(&b"demo".to_vec()).unwrap();
    let once = doc.to_bytes();
    let r = doc.set_package_name(&b"demo".to_vec());
    assert!(r.is_ok());
    assert_eq!(doc.to_bytes(), once);
}

#[test]
fn missing_package_table_is_reported() {
    let text = b"[dependencies]\nname = \"not-a-package-name\"\n".to_vec();
    let mut doc = ManifestDoc::parse(&text);
    let r = doc.set_package_name(&b"demo".to_vec());
    assert_eq!(r, Err(ManifestError::MissingPackage));
    assert_eq!(doc.to_bytes(), text);
}

#[test]
fn missing_name_key_is_reported() {
    let text = b"[package]\nversion = \"0.1.0\"\n\n[dependencies]\nname = \"elsewhere\"\n".to_vec();
    let mut doc = ManifestDoc::parse(&text);
    let r = doc.set_package_name(&b"demo".to_vec());
    assert_eq!(r, Err(ManifestError::MissingName));
    assert_eq!(doc.to_bytes(), text);
}

#[test]
fn name_key_after_other_package_keys_is_found() {
    let text = b"[package]\nversion = \"2.0.0\"\nname= \"old\"\n".to_vec();
    let mut doc = ManifestDoc::parse(&text);
    doc.set_package_name(&b"fresh".to_vec()).unwrap();
    assert_eq!(doc.to_bytes(), b"[package]\nversion = \"2.0.0\"\nname = \"fresh\"\n".to_vec());
}

#[test]
fn a_name_prefix_key_is_not_the_name_key() {
    let text = b"[package]\nnamespace = \"x\"\nname = \"old\"\n".to_vec();
    let mut doc = ManifestDoc::parse(&text);
    doc.set_package_name(&b"fresh".to_vec()).unwrap();
    assert_eq!(doc.to_bytes(), b"[package]\nnamespace = \"x\"\nname = \"fresh\"\n".to_vec());
}

#[test]
fn parse_and_serialize_round_trip_is_exact() {
    let text = b"a\n\nb\nno trailing newline".to_vec();
    let doc = ManifestDoc::parse(&text);
    assert_eq!(doc.to_bytes(), text);
    let empty = Vec::new();
    let doc2 = ManifestDoc::parse(&empty);
    assert_eq!(doc2.to_bytes(), empty);
}
