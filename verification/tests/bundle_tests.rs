use caliptra_bitstream_downloader::bundle::{
    bundle_components, find_bundle_artifacts, find_unique_with_extension, has_extension,
    BundleError,
};
use caliptra_bitstream_downloader::manifest::BitstreamKind;

fn names(v: &[&str]) -> Vec<String> {
    v.iter().map(|s| s.to_string()).collect()
}

#[test]
fn components_in_bundle_order() {
    let v = bundle_components(Some("a.xsa"), None, Some("c.bin")).unwrap();
    assert_eq!(v, vec![(BitstreamKind::Xsa, "a.xsa"), (BitstreamKind::Bin, "c.bin")]);
    let v = bundle_components(Some(1), Some(2), Some(3)).unwrap();
    assert_eq!(v, vec![(BitstreamKind::Xsa, 1), (BitstreamKind::Pdi, 2), (BitstreamKind::Bin, 3)]);
}

#[test]
fn components_require_one_bitstream() {
    match bundle_components::<&str>(None, None, None) {
        Err(e) => assert_eq!(
            e.message(),
            "At least one bitstream file (XSA, PDI, or BIN) must be provided"
        ),
        Ok(_) => panic!("empty bundle accepted"),
    }
}

#[test]
fn extension_rules() {
    assert!(has_extension("system.xsa", "xsa"));
    assert!(has_extension("a.b.xsa", "xsa"));
    assert!(!has_extension("system.xsa.bak", "xsa"));
    assert!(!has_extension(".xsa", "xsa"));
    assert!(!has_extension("xsa", "xsa"));
    assert!(!has_extension("system.XSA", "xsa"));
    assert!(!has_extension("..", ""));
    assert!(has_extension("a.", ""));
    assert!(has_extension("...", ""));
    assert!(!has_extension("system.xsaa", "xsa"));
}

#[test]
fn unique_extension_search() {
    let v = names(&["manifest.toml", "system.xsa", "subsystem.pdi"]);
    assert_eq!(find_unique_with_extension(&v, "xsa").unwrap(), Some(1));
    assert_eq!(find_unique_with_extension(&v, "bin").unwrap(), None);
    let v = names(&["a.pdi", "b.pdi"]);
    match find_unique_with_extension(&v, "pdi") {
        Err(e) => assert_eq!(e.message(), "Found multiple files with extension .pdi in tarball"),
        Ok(_) => panic!("two matches accepted"),
    }
}

#[test]
fn bundle_artifacts_found_in_order() {
    let v = names(&["caliptra_fpga.bin", "manifest.toml", "system.xsa"]);
    assert_eq!(
        find_bundle_artifacts(&v).unwrap(),
        vec![(BitstreamKind::Xsa, 2), (BitstreamKind::Bin, 0)]
    );
}

#[test]
fn bundle_artifacts_errors() {
    let v = names(&["manifest.toml"]);
    match find_bundle_artifacts(&v) {
        Err(e) => {
            assert_eq!(
                e.message(),
                "Manifest bundle is missing required bitstream file (XSA, PDI, or BIN)"
            );
            assert!(matches!(e, BundleError::MissingBitstreamFile));
        }
        Ok(_) => panic!("bundle without bitstream accepted"),
    }
    let v = names(&["a.bin", "b.bin", "c.xsa", "d.xsa"]);
    match find_bundle_artifacts(&v) {
        Err(BundleError::MultipleFiles { extension }) => assert_eq!(extension, "xsa"),
        _ => panic!("duplicate XSA accepted"),
    }
}
