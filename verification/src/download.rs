use vstd::prelude::*;

use crate::hashing::{calculate_hash, content_hash};
use crate::manifest::{kind_extension, BitstreamKind, Manifest, ManifestView};

verus! {

/// Where a downloaded `.bin` bitstream is written.
pub const BIN_OUTPUT_PATH: &'static str = "./caliptra_build/caliptra_fpga.bin";

/// The artifact a manifest offers for download, by priority: PDI, then BIN,
/// then XSA; each only when both its URL and its hash are present.
pub open spec fn selected_source(m: ManifestView) -> Option<(Seq<char>, Seq<char>, BitstreamKind)> {
    if m.pdi_url is Some && m.pdi_hash is Some {
        Some((m.pdi_url->0, m.pdi_hash->0, BitstreamKind::Pdi))
    } else if m.bin_url is Some && m.bin_hash is Some {
        Some((m.bin_url->0, m.bin_hash->0, BitstreamKind::Bin))
    } else if m.xsa_url is Some && m.xsa_hash is Some {
        Some((m.xsa_url->0, m.xsa_hash->0, BitstreamKind::Xsa))
    } else {
        None
    }
}

/// The file a downloaded artifact is written to.
pub open spec fn output_path(variant: Seq<char>, kind: BitstreamKind) -> Seq<char> {
    match kind {
        BitstreamKind::Bin => BIN_OUTPUT_PATH@,
        _ => variant + "."@ + kind_extension(kind),
    }
}

/// Everything needed to fetch and store one bitstream.
pub struct DownloadPlan {
    pub name: String,
    pub url: String,
    pub expected_hash: String,
    pub kind: BitstreamKind,
    pub output_path: String,
}

/// Why a download was refused.
#[derive(Debug)]
pub enum DownloadError {
    MissingBitstream,
    HashMismatch { expected: String, calculated: String },
}

/// The text reported for a download error.
pub open spec fn download_error_message(e: DownloadError) -> Seq<char> {
    match e {
        DownloadError::MissingBitstream =>
            "Manifest is missing 'pdi_url', 'bin_url', and 'xsa_url' fields for download"@,
        DownloadError::HashMismatch { expected, calculated } => "hash mismatch expected: "@
            + expected@ + ", got: "@ + calculated@,
    }
}

impl DownloadError {
    /// The text reported for this error.
    pub fn message(&self) -> (r: String)
        ensures
            r@ == download_error_message(*self),
    {
        match self {
            DownloadError::MissingBitstream => String::from_str(
                "Manifest is missing 'pdi_url', 'bin_url', and 'xsa_url' fields for download",
            ),
            DownloadError::HashMismatch { expected, calculated } => {
                let mut r = String::from_str("hash mismatch expected: ");
                r.append(expected.as_str());
                r.append(", got: ");
                r.append(calculated.as_str());
                r
            },
        }
    }
}

/// The file a downloaded artifact of `kind` is written to: the fixed build
/// path for a BIN, otherwise the variant name with the kind's extension.
pub fn bitstream_output_path(variant: &str, kind: BitstreamKind) -> (r: String)
    ensures
        r@ == output_path(variant@, kind),
{
    match kind {
        BitstreamKind::Bin => String::from_str(BIN_OUTPUT_PATH),
        _ => {
            let mut r = String::from_str(variant);
            r.append(".");
            r.append(kind.extension());
            r
        },
    }
}

/// Decides what to download for a manifest.
pub fn plan_download(manifest: &Manifest) -> (res: Result<DownloadPlan, DownloadError>)
    ensures
        match selected_source(manifest@) {
            None => res matches Err(DownloadError::MissingBitstream),
            Some((url, hash, kind)) => res matches Ok(p) && p.url@ == url && p.expected_hash@
                == hash && p.kind == kind && p.name@ == manifest@.display_name()
                && p.output_path@ == output_path(manifest@.caliptra_variant, kind),
        },
        (manifest.pdi_url is Some && manifest.pdi_hash is Some) ==> (res matches Ok(p) && p.kind
            == BitstreamKind::Pdi && manifest@.pdi_url == Some(p.url@) && manifest@.pdi_hash
            == Some(p.expected_hash@) && p.output_path@ == manifest.caliptra_variant@ + "."@
            + "pdi"@),
        (manifest.bin_url is Some && manifest.bin_hash is Some && !(manifest.pdi_url is Some
            && manifest.pdi_hash is Some)) ==> (res matches Ok(p) && p.kind == BitstreamKind::Bin
            && manifest@.bin_url == Some(p.url@) && manifest@.bin_hash == Some(p.expected_hash@)
            && p.output_path@ == BIN_OUTPUT_PATH@),
        (manifest.xsa_url is Some && manifest.xsa_hash is Some && !(manifest.pdi_url is Some
            && manifest.pdi_hash is Some) && !(manifest.bin_url is Some && manifest.bin_hash
            is Some)) ==> (res matches Ok(p) && p.kind == BitstreamKind::Xsa && manifest@.xsa_url
            == Some(p.url@) && manifest@.xsa_hash == Some(p.expected_hash@) && p.output_path@
            == manifest.caliptra_variant@ + "."@ + "xsa"@),
        res is Err <==> !(manifest.pdi_url is Some && manifest.pdi_hash is Some) && !(
        manifest.bin_url is Some && manifest.bin_hash is Some) && !(manifest.xsa_url is Some
            && manifest.xsa_hash is Some),
        res matches Ok(p) ==> match p.kind {
            BitstreamKind::Pdi => manifest@.pdi_url == Some(p.url@) && manifest@.pdi_hash == Some(
                p.expected_hash@,
            ),
            BitstreamKind::Bin => manifest@.bin_url == Some(p.url@) && manifest@.bin_hash == Some(
                p.expected_hash@,
            ),
            BitstreamKind::Xsa => manifest@.xsa_url == Some(p.url@) && manifest@.xsa_hash == Some(
                p.expected_hash@,
            ),
        },
{
    let (url, hash, kind) = match (&manifest.pdi_url, &manifest.pdi_hash) {
        (Some(u), Some(h)) => (u, h, BitstreamKind::Pdi),
        _ => match (&manifest.bin_url, &manifest.bin_hash) {
            (Some(u), Some(h)) => (u, h, BitstreamKind::Bin),
            _ => match (&manifest.xsa_url, &manifest.xsa_hash) {
                (Some(u), Some(h)) => (u, h, BitstreamKind::Xsa),
                _ => {
                    return Err(DownloadError::MissingBitstream);
                },
            },
        },
    };
    Ok(
        DownloadPlan {
            name: manifest.bitstream_name(),
            url: url.clone(),
            expected_hash: hash.clone(),
            kind,
            output_path: bitstream_output_path(manifest.caliptra_variant.as_str(), kind),
        },
    )
}

/// Downloaded content is accepted when the hash computed from it is, as
/// text, the hash the manifest recorded.
pub open spec fn hash_accepted(expected: Seq<char>, content: Seq<u8>) -> bool {
    content_hash(content) == expected
}

/// Checks downloaded content against the hash the manifest recorded; on
/// success returns the hash computed from the content.
pub fn check_bitstream_hash(expected: &str, content: &[u8]) -> (res: Result<String, DownloadError>)
    ensures
        hash_accepted(expected@, content@) ==> (res matches Ok(h) && h@ == content_hash(
            content@,
        )),
        !hash_accepted(expected@, content@) ==> (res matches Err(
            DownloadError::HashMismatch { expected: e, calculated: c },
        ) && e@ == expected@ && c@ == content_hash(content@)),
        (res is Ok) <==> expected@ == content_hash(content@),
        res matches Ok(h) ==> h@ == expected@,
{
    let calculated = calculate_hash(content);
    let expected_owned = String::from_str(expected);
    if calculated == expected_owned {
        Ok(calculated)
    } else {
        Err(DownloadError::HashMismatch { expected: expected_owned, calculated })
    }
}

/// Content downloaded byte for byte as it was bundled passes the hash
/// check against the hash recorded for it when it was bundled.
pub proof fn law_bundled_content_passes_download_check(content: Seq<u8>)
    ensures
        hash_accepted(content_hash(content), content),
{
}

/// A manifest that had no download sources, once one artifact's hash and
/// URL are recorded, offers exactly that artifact for download.
pub proof fn law_recorded_artifact_is_selected(
    m: ManifestView,
    kind: BitstreamKind,
    url: Seq<char>,
    hash: Seq<char>,
)
    requires
        m.xsa_url is None,
        m.pdi_url is None,
        m.bin_url is None,
    ensures
        selected_source(m.with_hash(kind, hash).with_url(kind, url)) == Some((url, hash, kind)),
{
}

/// The download source of a manifest, by its fields: PDI whenever the PDI
/// URL and hash are both present; otherwise BIN when both BIN fields are;
/// otherwise XSA when both XSA fields are; otherwise none. The URL and the
/// hash always come from the same kind.
pub proof fn law_download_priority(m: ManifestView)
    ensures
        (m.pdi_url is Some && m.pdi_hash is Some) ==> selected_source(m) == Some(
            (m.pdi_url->0, m.pdi_hash->0, BitstreamKind::Pdi),
        ),
        (m.bin_url is Some && m.bin_hash is Some && !(m.pdi_url is Some && m.pdi_hash is Some))
            ==> selected_source(m) == Some((m.bin_url->0, m.bin_hash->0, BitstreamKind::Bin)),
        (m.xsa_url is Some && m.xsa_hash is Some && !(m.pdi_url is Some && m.pdi_hash is Some)
            && !(m.bin_url is Some && m.bin_hash is Some)) ==> selected_source(m) == Some(
            (m.xsa_url->0, m.xsa_hash->0, BitstreamKind::Xsa),
        ),
        selected_source(m) is None <==> !(m.pdi_url is Some && m.pdi_hash is Some) && !(
        m.bin_url is Some && m.bin_hash is Some) && !(m.xsa_url is Some && m.xsa_hash is Some),
        selected_source(m) matches Some((u, h, k)) ==> match k {
            BitstreamKind::Pdi => m.pdi_url == Some(u) && m.pdi_hash == Some(h),
            BitstreamKind::Bin => m.bin_url == Some(u) && m.bin_hash == Some(h),
            BitstreamKind::Xsa => m.xsa_url == Some(u) && m.xsa_hash == Some(h),
        },
{
}

/// A BIN is stored at the fixed build path, any other artifact under the
/// variant's name with the artifact's extension.
pub proof fn law_output_paths(variant: Seq<char>)
    ensures
        output_path(variant, BitstreamKind::Bin) == BIN_OUTPUT_PATH@,
        output_path(variant, BitstreamKind::Pdi) == variant + "."@ + "pdi"@,
        output_path(variant, BitstreamKind::Xsa) == variant + "."@ + "xsa"@,
{
}

} // verus!
