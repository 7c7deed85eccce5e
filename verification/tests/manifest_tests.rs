use caliptra_bitstream_downloader::manifest::{
    sanitize_url, with_license_header, BitstreamKind, ManifestError, BUCKET_RESOURCE_SEGMENT,
};
use caliptra_bitstream_downloader::{Manifest, MANIFEST_SCHEMA_VERSION, OUTPUT_BUNDLE_FILENAME};

fn test_manifest() -> Manifest {
    Manifest {
        schema_version: MANIFEST_SCHEMA_VERSION.to_string(),
        repository: "chipsalliance/caliptra-infra".to_string(),
        hw_major_version: "2.0".to_string(),
        target_branch: "main".to_string(),
        caliptra_variant: "subsystem".to_string(),
        date: "2026-07-13T00:00:00Z".to_string(),
        commit_hash: "1234567890abcdef".to_string(),
        caliptra_ss_commit: None,
        job_id: "100".to_string(),
        segmented: true,
        github_pr: None,
        name: None,
        xsa_url: None,
        pdi_url: None,
        bin_url: None,
        xsa_hash: None,
        pdi_hash: None,
        bin_hash: None,
    }
}

/// Serializes a manifest's fields as TOML the way the application does,
/// after the library has sanitized it.
fn manifest_toml(manifest: &Manifest) -> String {
    let m = manifest.sanitized();
    let mut table = toml::Table::new();
    let mut put = |k: &str, v: &Option<String>| {
        if let Some(v) = v {
            table.insert(k.to_string(), toml::Value::String(v.clone()));
        }
    };
    put("schema_version", &Some(m.schema_version.clone()));
    put("repository", &Some(m.repository.clone()));
    put("caliptra_variant", &Some(m.caliptra_variant.clone()));
    put("commit_hash", &Some(m.commit_hash.clone()));
    put("xsa_url", &m.xsa_url);
    put("pdi_url", &m.pdi_url);
    put("bin_url", &m.bin_url);
    let body = toml::to_string(&table).unwrap();
    with_license_header(&body)
}

#[test]
fn test_manifest_to_toml_sanitizes_urls() {
    let mut manifest = test_manifest();
    manifest.xsa_url = Some("https://storage.googleapis.com/my-bucket/projects/_/buckets/v1/hash/system.xsa".to_string());
    manifest.pdi_url = Some("https://storage.googleapis.com/my-bucket/projects/_/buckets/v1/hash/subsystem.pdi".to_string());
    manifest.bin_url = Some("https://storage.googleapis.com/my-bucket/projects/_/buckets/v1/hash/caliptra_fpga.bin".to_string());

    let toml_str = manifest_toml(&manifest);
    assert!(!toml_str.contains("/_/buckets/"));
    assert!(toml_str.contains("https://storage.googleapis.com/my-bucket/v1/hash/system.xsa"));
    assert!(toml_str.contains("https://storage.googleapis.com/my-bucket/v1/hash/subsystem.pdi"));
    assert!(toml_str.contains("https://storage.googleapis.com/my-bucket/v1/hash/caliptra_fpga.bin"));
}

#[test]
fn sanitized_keeps_other_fields() {
    let mut manifest = test_manifest();
    manifest.xsa_hash = Some("ab".to_string());
    manifest.name = Some("n".to_string());
    manifest.xsa_url = Some("https://h/b/projects/_/buckets/o".to_string());
    let s = manifest.sanitized();
    assert_eq!(s.xsa_url.as_deref(), Some("https://h/b/o"));
    assert_eq!(s.pdi_url, None);
    assert_eq!(s.xsa_hash.as_deref(), Some("ab"));
    assert_eq!(s.name.as_deref(), Some("n"));
    assert_eq!(s.caliptra_variant, "subsystem");
    assert_eq!(s.segmented, true);
}

#[test]
fn sanitize_url_cases() {
    assert_eq!(sanitize_url("https://x/bucket/v1/a.bin"), "https://x/bucket/v1/a.bin");
    assert_eq!(sanitize_url("/projects/_/buckets/"), "/");
    assert_eq!(sanitize_url(""), "");
    assert_eq!(sanitize_url("a/projects/_/buckets/b/projects/_/buckets/c"), "a/b/c");
    // Matches are taken left to right and do not overlap, as str::replace does.
    assert_eq!(
        sanitize_url("/projects/_/buckets/projects/_/buckets/x"),
        "/projects/_/buckets/x"
    );
    assert_eq!(BUCKET_RESOURCE_SEGMENT, "/projects/_/buckets/");
}

#[test]
fn law_clean_url_unchanged_example() {
    let url = "https://storage.googleapis.com/my-bucket/v1/hash/system.xsa";
    assert_eq!(sanitize_url(url), url);
}

#[test]
fn license_header_is_prepended() {
    assert_eq!(
        with_license_header("a = 1\n"),
        "# Licensed under the Apache-2.0 license\na = 1\n"
    );
    assert_eq!(OUTPUT_BUNDLE_FILENAME, "caliptra-bitstream.tar.gz");
}

#[test]
fn schema_version_is_checked() {
    let m = test_manifest();
    assert!(m.check_schema_version().is_ok());
    let mut m = test_manifest();
    m.schema_version = "2".to_string();
    match m.check_schema_version() {
        Err(e) => {
            assert_eq!(e.message(), "Unsupported schema version: 2");
            match e {
                ManifestError::UnsupportedSchemaVersion(v) => assert_eq!(v, "2"),
            }
        }
        Ok(_) => panic!("version 2 accepted"),
    }
}

#[test]
fn record_hash_url_and_name() {
    let mut m = test_manifest();
    m.record_hash(BitstreamKind::Pdi, "h".to_string());
    m.record_url(BitstreamKind::Bin, "u".to_string());
    assert_eq!(m.pdi_hash.as_deref(), Some("h"));
    assert_eq!(m.xsa_hash, None);
    assert_eq!(m.bin_url.as_deref(), Some("u"));
    assert_eq!(m.bitstream_name(), "bitstream");
    m.set_published_name();
    assert_eq!(m.name.as_deref(), Some("subsystem-bitstream"));
    assert_eq!(m.bitstream_name(), "subsystem-bitstream");
}

#[test]
fn duplicate_copies_every_field() {
    let mut m = test_manifest();
    m.github_pr = Some(7);
    m.caliptra_ss_commit = Some("c".to_string());
    let d = m.duplicate();
    assert_eq!(d.github_pr, Some(7));
    assert_eq!(d.caliptra_ss_commit.as_deref(), Some("c"));
    assert_eq!(d.repository, m.repository);
}

#[test]
fn kind_extensions_and_labels() {
    assert_eq!(BitstreamKind::Xsa.extension(), "xsa");
    assert_eq!(BitstreamKind::Pdi.extension(), "pdi");
    assert_eq!(BitstreamKind::Bin.extension(), "bin");
    assert_eq!(BitstreamKind::Xsa.label(), "XSA");
    assert_eq!(BitstreamKind::Pdi.label(), "PDI");
    assert_eq!(BitstreamKind::Bin.label(), "BIN");
}
