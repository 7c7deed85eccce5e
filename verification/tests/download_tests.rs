use caliptra_bitstream_downloader::download::{
    bitstream_output_path, check_bitstream_hash, plan_download, DownloadError,
};
use caliptra_bitstream_downloader::hashing::calculate_hash;
use caliptra_bitstream_downloader::manifest::BitstreamKind;
use caliptra_bitstream_downloader::storage::{
    bundle_object_names, gcs_bucket_resource, gcs_object_name, gcs_public_url,
};
use caliptra_bitstream_downloader::{Manifest, MANIFEST_SCHEMA_VERSION};

const ABC_SHA256: &str = "ba7816bf8f01cfea414140de5dae2223b00361a396177a9cb410ff61f20015ad";
const EMPTY_SHA256: &str = "e3b0c44298fc1c149afbf4c8996fb92427ae41e4649b934ca495991b7852b855";

fn manifest() -> Manifest {
    Manifest {
        schema_version: MANIFEST_SCHEMA_VERSION.to_string(),
        repository: "r".to_string(),
        hw_major_version: "2.0".to_string(),
        target_branch: "main".to_string(),
        caliptra_variant: "subsystem".to_string(),
        date: "d".to_string(),
        commit_hash: "c".to_string(),
        caliptra_ss_commit: None,
        job_id: "1".to_string(),
        segmented: false,
        github_pr: None,
        name: None,
        xsa_url: None,
        pdi_url: None,
        bin_url: None,
        xsa_hash: None,
        pdi_hash: None,
        bin_hash: None,
    }
}

#[test]
fn calculate_hash_known_digests() {
    assert_eq!(calculate_hash(b"abc"), ABC_SHA256);
    assert_eq!(calculate_hash(b""), EMPTY_SHA256);
    assert_eq!(calculate_hash(b"abc").len(), 64);
}

#[test]
fn hash_check_accepts_matching_content() {
    assert_eq!(check_bitstream_hash(ABC_SHA256, b"abc").unwrap(), ABC_SHA256);
}

#[test]
fn law_bundled_content_passes_download_check_example() {
    let content = b"dummy pdi content";
    let recorded = calculate_hash(content);
    assert!(check_bitstream_hash(&recorded, content).is_ok());
}

#[test]
fn hash_check_rejects_other_content() {
    match check_bitstream_hash(ABC_SHA256, b"abd") {
        Err(e) => {
            let calc = calculate_hash(b"abd");
            assert_eq!(
                e.message(),
                format!("hash mismatch expected: {}, got: {}", ABC_SHA256, calc)
            );
            match e {
                DownloadError::HashMismatch { expected, calculated } => {
                    assert_eq!(expected, ABC_SHA256);
                    assert_eq!(calculated, calc);
                }
                _ => panic!("wrong error"),
            }
        }
        Ok(_) => panic!("mismatch accepted"),
    }
    // The comparison is exact: an upper-case hash does not match.
    assert!(check_bitstream_hash(&ABC_SHA256.to_uppercase(), b"abc").is_err());
}

#[test]
fn plan_prefers_pdi_then_bin_then_xsa() {
    let mut m = manifest();
    m.xsa_url = Some("x".to_string());
    m.xsa_hash = Some("xh".to_string());
    m.bin_url = Some("b".to_string());
    m.bin_hash = Some("bh".to_string());
    m.pdi_url = Some("p".to_string());
    m.pdi_hash = Some("ph".to_string());
    let p = plan_download(&m).unwrap();
    assert_eq!((p.url.as_str(), p.expected_hash.as_str(), p.kind), ("p", "ph", BitstreamKind::Pdi));
    assert_eq!(p.output_path, "subsystem.pdi");
    assert_eq!(p.name, "bitstream");

    m.pdi_hash = None;
    let p = plan_download(&m).unwrap();
    assert_eq!((p.url.as_str(), p.kind), ("b", BitstreamKind::Bin));
    assert_eq!(p.output_path, "./caliptra_build/caliptra_fpga.bin");

    m.bin_url = None;
    m.name = Some("named".to_string());
    let p = plan_download(&m).unwrap();
    assert_eq!((p.url.as_str(), p.kind), ("x", BitstreamKind::Xsa));
    assert_eq!(p.output_path, "subsystem.xsa");
    assert_eq!(p.name, "named");
}

#[test]
fn plan_refuses_manifest_without_source() {
    let mut m = manifest();
    m.pdi_url = Some("p".to_string());
    m.xsa_hash = Some("h".to_string());
    match plan_download(&m) {
        Err(e) => assert_eq!(
            e.message(),
            "Manifest is missing 'pdi_url', 'bin_url', and 'xsa_url' fields for download"
        ),
        Ok(_) => panic!("planned without a source"),
    }
}

#[test]
fn law_recorded_artifact_is_selected_example() {
    let mut m = manifest();
    m.record_hash(BitstreamKind::Xsa, "hx".to_string());
    m.record_url(BitstreamKind::Xsa, "ux".to_string());
    let p = plan_download(&m).unwrap();
    assert_eq!((p.url.as_str(), p.expected_hash.as_str(), p.kind), ("ux", "hx", BitstreamKind::Xsa));
}

#[test]
fn output_paths() {
    assert_eq!(bitstream_output_path("core", BitstreamKind::Xsa), "core.xsa");
    assert_eq!(bitstream_output_path("core", BitstreamKind::Pdi), "core.pdi");
    assert_eq!(
        bitstream_output_path("core", BitstreamKind::Bin),
        "./caliptra_build/caliptra_fpga.bin"
    );
}

#[test]
fn storage_names() {
    assert_eq!(gcs_object_name("system.xsa", "abc", ""), "v1/abc/system.xsa");
    assert_eq!(gcs_object_name("system.xsa", "abc", "ns"), "v1/abc/ns/system.xsa");
    assert_eq!(gcs_bucket_resource("bkt"), "projects/_/buckets/bkt");
    assert_eq!(
        gcs_public_url("bkt", "v1/abc/system.xsa"),
        "https://storage.googleapis.com/bkt/v1/abc/system.xsa"
    );
}

#[test]
fn hash_text_shape() {
    let h = calculate_hash(b"dummy xsa content");
    assert_eq!(h.len(), 64);
    assert!(h.chars().all(|c| c.is_ascii_digit() || ('a'..='f').contains(&c)));
}

#[test]
fn bundle_upload_object_names() {
    let files = vec!["system.xsa".to_string(), "caliptra_fpga.bin".to_string()];
    let objects = bundle_object_names(&files, "1234567890abcdef", "manifest-core-latest-itrng.toml");
    assert_eq!(
        objects.artifacts,
        vec![
            "v1/1234567890abcdef/system.xsa".to_string(),
            "v1/1234567890abcdef/caliptra_fpga.bin".to_string()
        ]
    );
    assert_eq!(objects.manifest, "v1/1234567890abcdef/manifest-core-latest-itrng.toml");
    let objects = bundle_object_names(&Vec::new(), "c", "manifest.toml");
    assert!(objects.artifacts.is_empty());
    assert_eq!(objects.manifest, "v1/c/manifest.toml");
}
