use vstd::prelude::*;

use crate::text::{contains_seq, lemma_replace_all_absent, replace_all, replace_all_str};

verus! {

/// Schema version written into and required of every manifest.
pub const MANIFEST_SCHEMA_VERSION: &'static str = "1";

/// File name of the bundle produced when bundling a bitstream.
pub const OUTPUT_BUNDLE_FILENAME: &'static str = "caliptra-bitstream.tar.gz";

/// Path segment that storage resource names carry and public URLs must not.
pub const BUCKET_RESOURCE_SEGMENT: &'static str = "/projects/_/buckets/";

/// First line of every serialized manifest.
pub const LICENSE_HEADER: &'static str = "# Licensed under the Apache-2.0 license\n";

/// Name given to a bitstream whose manifest names none.
pub const DEFAULT_BITSTREAM_NAME: &'static str = "bitstream";

/// The view of an optional string.
pub open spec fn opt_view(o: Option<String>) -> Option<Seq<char>> {
    match o {
        Some(s) => Some(s@),
        None => None,
    }
}

/// A URL with every storage resource segment collapsed to a single `/`.
pub open spec fn sanitized_url(url: Seq<char>) -> Seq<char> {
    replace_all(url, BUCKET_RESOURCE_SEGMENT@, "/"@)
}

/// `sanitized_url` applied to an optional URL.
pub open spec fn sanitized_opt(o: Option<Seq<char>>) -> Option<Seq<char>> {
    match o {
        Some(u) => Some(sanitized_url(u)),
        None => None,
    }
}

/// The three bitstream artifacts a manifest can describe.
#[derive(Clone, Copy, Debug, PartialEq, Eq, Structural)]
pub enum BitstreamKind {
    Xsa,
    Pdi,
    Bin,
}

/// File extension of each artifact kind.
pub open spec fn kind_extension(kind: BitstreamKind) -> Seq<char> {
    match kind {
        BitstreamKind::Xsa => "xsa"@,
        BitstreamKind::Pdi => "pdi"@,
        BitstreamKind::Bin => "bin"@,
    }
}

/// Upper-case label of each artifact kind, as used in messages.
pub open spec fn kind_label(kind: BitstreamKind) -> Seq<char> {
    match kind {
        BitstreamKind::Xsa => "XSA"@,
        BitstreamKind::Pdi => "PDI"@,
        BitstreamKind::Bin => "BIN"@,
    }
}

impl BitstreamKind {
    /// The file extension of this kind of artifact, without the dot.
    pub fn extension(&self) -> (r: &'static str)
        ensures
            r@ == kind_extension(*self),
    {
        match self {
            BitstreamKind::Xsa => "xsa",
            BitstreamKind::Pdi => "pdi",
            BitstreamKind::Bin => "bin",
        }
    }

    /// The upper-case label of this kind of artifact.
    pub fn label(&self) -> (r: &'static str)
        ensures
            r@ == kind_label(*self),
    {
        match self {
            BitstreamKind::Xsa => "XSA",
            BitstreamKind::Pdi => "PDI",
            BitstreamKind::Bin => "BIN",
        }
    }
}

/// Description of one FPGA bitstream build.
#[derive(Clone, Debug)]
pub struct Manifest {
    pub schema_version: String,
    pub repository: String,
    pub hw_major_version: String,
    pub target_branch: String,
    pub caliptra_variant: String,
    pub date: String,
    pub commit_hash: String,
    pub caliptra_ss_commit: Option<String>,
    pub job_id: String,
    pub segmented: bool,
    pub github_pr: Option<u32>,
    pub name: Option<String>,
    pub xsa_url: Option<String>,
    pub pdi_url: Option<String>,
    pub bin_url: Option<String>,
    pub xsa_hash: Option<String>,
    pub pdi_hash: Option<String>,
    pub bin_hash: Option<String>,
}

/// The mathematical content of a manifest.
pub struct ManifestView {
    pub schema_version: Seq<char>,
    pub repository: Seq<char>,
    pub hw_major_version: Seq<char>,
    pub target_branch: Seq<char>,
    pub caliptra_variant: Seq<char>,
    pub date: Seq<char>,
    pub commit_hash: Seq<char>,
    pub caliptra_ss_commit: Option<Seq<char>>,
    pub job_id: Seq<char>,
    pub segmented: bool,
    pub github_pr: Option<u32>,
    pub name: Option<Seq<char>>,
    pub xsa_url: Option<Seq<char>>,
    pub pdi_url: Option<Seq<char>>,
    pub bin_url: Option<Seq<char>>,
    pub xsa_hash: Option<Seq<char>>,
    pub pdi_hash: Option<Seq<char>>,
    pub bin_hash: Option<Seq<char>>,
}

impl View for Manifest {
    type V = ManifestView;

    open spec fn view(&self) -> ManifestView {
        ManifestView {
            schema_version: self.schema_version@,
            repository: self.repository@,
            hw_major_version: self.hw_major_version@,
            target_branch: self.target_branch@,
            caliptra_variant: self.caliptra_variant@,
            date: self.date@,
            commit_hash: self.commit_hash@,
            caliptra_ss_commit: opt_view(self.caliptra_ss_commit),
            job_id: self.job_id@,
            segmented: self.segmented,
            github_pr: self.github_pr,
            name: opt_view(self.name),
            xsa_url: opt_view(self.xsa_url),
            pdi_url: opt_view(self.pdi_url),
            bin_url: opt_view(self.bin_url),
            xsa_hash: opt_view(self.xsa_hash),
            pdi_hash: opt_view(self.pdi_hash),
            bin_hash: opt_view(self.bin_hash),
        }
    }
}

impl ManifestView {
    /// The manifest as it is published: every URL sanitized, all else kept.
    pub open spec fn with_sanitized_urls(self) -> ManifestView {
        ManifestView {
            xsa_url: sanitized_opt(self.xsa_url),
            pdi_url: sanitized_opt(self.pdi_url),
            bin_url: sanitized_opt(self.bin_url),
            ..self
        }
    }

    /// The manifest with the hash of one artifact set.
    pub open spec fn with_hash(self, kind: BitstreamKind, hash: Seq<char>) -> ManifestView {
        match kind {
            BitstreamKind::Xsa => ManifestView { xsa_hash: Some(hash), ..self },
            BitstreamKind::Pdi => ManifestView { pdi_hash: Some(hash), ..self },
            BitstreamKind::Bin => ManifestView { bin_hash: Some(hash), ..self },
        }
    }

    /// The manifest with the download URL of one artifact set.
    pub open spec fn with_url(self, kind: BitstreamKind, url: Seq<char>) -> ManifestView {
        match kind {
            BitstreamKind::Xsa => ManifestView { xsa_url: Some(url), ..self },
            BitstreamKind::Pdi => ManifestView { pdi_url: Some(url), ..self },
            BitstreamKind::Bin => ManifestView { bin_url: Some(url), ..self },
        }
    }

    /// The name a published bitstream is given: its variant and `-bitstream`.
    pub open spec fn published_name(self) -> Seq<char> {
        self.caliptra_variant + "-bitstream"@
    }

    /// The name shown for the bitstream: its own, or the default one.
    pub open spec fn display_name(self) -> Seq<char> {
        match self.name {
            Some(n) => n,
            None => DEFAULT_BITSTREAM_NAME@,
        }
    }
}

/// Why a manifest was refused.
#[derive(Debug)]
pub enum ManifestError {
    UnsupportedSchemaVersion(String),
}

impl ManifestError {
    /// The text reported for this error.
    pub fn message(&self) -> (r: String)
        ensures
            match self {
                ManifestError::UnsupportedSchemaVersion(v) => r@ == "Unsupported schema version: "@
                    + v@,
            },
    {
        match self {
            ManifestError::UnsupportedSchemaVersion(v) => {
                let mut r = String::from_str("Unsupported schema version: ");
                r.append(v.as_str());
                r
            },
        }
    }
}

fn copy_opt(o: &Option<String>) -> (r: Option<String>)
    ensures
        opt_view(r) == opt_view(*o),
{
    match o {
        Some(s) => Some(s.clone()),
        None => None,
    }
}

fn sanitize_opt(o: &Option<String>) -> (r: Option<String>)
    ensures
        opt_view(r) == sanitized_opt(opt_view(*o)),
{
    match o {
        Some(s) => Some(sanitize_url(s.as_str())),
        None => None,
    }
}

/// Collapses every storage resource segment `/projects/_/buckets/` of a URL,
/// left to right, into a single `/`.
pub fn sanitize_url(url: &str) -> (r: String)
    ensures
        r@ == sanitized_url(url@),
{
    proof {
        reveal_strlit("/projects/_/buckets/");
    }
    replace_all_str(url, BUCKET_RESOURCE_SEGMENT, "/")
}

/// Puts the license header line in front of a serialized manifest.
pub fn with_license_header(body: &str) -> (r: String)
    ensures
        r@ == LICENSE_HEADER@ + body@,
{
    let mut r = String::from_str(LICENSE_HEADER);
    r.append(body);
    r
}

impl Manifest {
    /// Accepts a parsed manifest only if it carries the supported schema version.
    pub fn check_schema_version(self) -> (res: Result<Manifest, ManifestError>)
        ensures
            self.schema_version@ == MANIFEST_SCHEMA_VERSION@ ==> res == Ok::<
                Manifest,
                ManifestError,
            >(self),
            self.schema_version@ != MANIFEST_SCHEMA_VERSION@ ==> res == Err::<
                Manifest,
                ManifestError,
            >(ManifestError::UnsupportedSchemaVersion(self.schema_version)),
    {
        let expected = String::from_str(MANIFEST_SCHEMA_VERSION);
        if self.schema_version == expected {
            Ok(self)
        } else {
            let v = self.schema_version;
            Err(ManifestError::UnsupportedSchemaVersion(v))
        }
    }

    /// A copy of the manifest.
    pub fn duplicate(&self) -> (r: Manifest)
        ensures
            r@ == self@,
    {
        Manifest {
            schema_version: self.schema_version.clone(),
            repository: self.repository.clone(),
            hw_major_version: self.hw_major_version.clone(),
            target_branch: self.target_branch.clone(),
            caliptra_variant: self.caliptra_variant.clone(),
            date: self.date.clone(),
            commit_hash: self.commit_hash.clone(),
            caliptra_ss_commit: copy_opt(&self.caliptra_ss_commit),
            job_id: self.job_id.clone(),
            segmented: self.segmented,
            github_pr: self.github_pr,
            name: copy_opt(&self.name),
            xsa_url: copy_opt(&self.xsa_url),
            pdi_url: copy_opt(&self.pdi_url),
            bin_url: copy_opt(&self.bin_url),
            xsa_hash: copy_opt(&self.xsa_hash),
            pdi_hash: copy_opt(&self.pdi_hash),
            bin_hash: copy_opt(&self.bin_hash),
        }
    }

    /// The manifest as it is serialized for publication: the XSA, PDI and BIN
    /// URLs have their storage resource segments collapsed, every other field
    /// is kept as it is.
    pub fn sanitized(&self) -> (r: Manifest)
        ensures
            r@ == self@.with_sanitized_urls(),
    {
        Manifest {
            schema_version: self.schema_version.clone(),
            repository: self.repository.clone(),
            hw_major_version: self.hw_major_version.clone(),
            target_branch: self.target_branch.clone(),
            caliptra_variant: self.caliptra_variant.clone(),
            date: self.date.clone(),
            commit_hash: self.commit_hash.clone(),
            caliptra_ss_commit: copy_opt(&self.caliptra_ss_commit),
            job_id: self.job_id.clone(),
            segmented: self.segmented,
            github_pr: self.github_pr,
            name: copy_opt(&self.name),
            xsa_url: sanitize_opt(&self.xsa_url),
            pdi_url: sanitize_opt(&self.pdi_url),
            bin_url: sanitize_opt(&self.bin_url),
            xsa_hash: copy_opt(&self.xsa_hash),
            pdi_hash: copy_opt(&self.pdi_hash),
            bin_hash: copy_opt(&self.bin_hash),
        }
    }

    /// Records the SHA-256 digest of one bundled artifact.
    pub fn record_hash(&mut self, kind: BitstreamKind, hash: String)
        ensures
            final(self)@ == old(self)@.with_hash(kind, hash@),
    {
        match kind {
            BitstreamKind::Xsa => self.xsa_hash = Some(hash),
            BitstreamKind::Pdi => self.pdi_hash = Some(hash),
            BitstreamKind::Bin => self.bin_hash = Some(hash),
        }
    }

    /// Records the public download URL of one uploaded artifact.
    pub fn record_url(&mut self, kind: BitstreamKind, url: String)
        ensures
            final(self)@ == old(self)@.with_url(kind, url@),
    {
        match kind {
            BitstreamKind::Xsa => self.xsa_url = Some(url),
            BitstreamKind::Pdi => self.pdi_url = Some(url),
            BitstreamKind::Bin => self.bin_url = Some(url),
        }
    }

    /// Names the bitstream after its variant, as an uploaded bundle is named.
    pub fn set_published_name(&mut self)
        ensures
            final(self)@ == (ManifestView { name: Some(old(self)@.published_name()), ..old(self)@ }),
    {
        let mut n = self.caliptra_variant.clone();
        n.append("-bitstream");
        self.name = Some(n);
    }

    /// The name under which the bitstream is announced.
    pub fn bitstream_name(&self) -> (r: String)
        ensures
            r@ == self@.display_name(),
    {
        match &self.name {
            Some(n) => n.clone(),
            None => String::from_str(DEFAULT_BITSTREAM_NAME),
        }
    }
}

/// A URL without a storage resource segment is published as it is.
pub proof fn law_clean_url_unchanged(url: Seq<char>)
    requires
        !contains_seq(url, BUCKET_RESOURCE_SEGMENT@),
    ensures
        sanitized_url(url) == url,
{
    lemma_replace_all_absent(url, BUCKET_RESOURCE_SEGMENT@, "/"@);
}

/// A manifest whose URLs carry no storage resource segment is published
/// unchanged.
pub proof fn law_clean_manifest_unchanged(m: ManifestView)
    requires
        m.xsa_url matches Some(u) ==> !contains_seq(u, BUCKET_RESOURCE_SEGMENT@),
        m.pdi_url matches Some(u) ==> !contains_seq(u, BUCKET_RESOURCE_SEGMENT@),
        m.bin_url matches Some(u) ==> !contains_seq(u, BUCKET_RESOURCE_SEGMENT@),
    ensures
        m.with_sanitized_urls() == m,
{
    if let Some(u) = m.xsa_url {
        law_clean_url_unchanged(u);
    }
    if let Some(u) = m.pdi_url {
        law_clean_url_unchanged(u);
    }
    if let Some(u) = m.bin_url {
        law_clean_url_unchanged(u);
    }
}

/// Recording the hash or the URL of one kind of artifact sets that kind's
/// field and leaves every other field as it was.
pub proof fn law_record_sets_own_field(m: ManifestView, kind: BitstreamKind, v: Seq<char>)
    ensures
        match kind {
            BitstreamKind::Xsa => m.with_hash(kind, v) == (ManifestView { xsa_hash: Some(v), ..m })
                && m.with_url(kind, v) == (ManifestView { xsa_url: Some(v), ..m }),
            BitstreamKind::Pdi => m.with_hash(kind, v) == (ManifestView { pdi_hash: Some(v), ..m })
                && m.with_url(kind, v) == (ManifestView { pdi_url: Some(v), ..m }),
            BitstreamKind::Bin => m.with_hash(kind, v) == (ManifestView { bin_hash: Some(v), ..m })
                && m.with_url(kind, v) == (ManifestView { bin_url: Some(v), ..m }),
        },
{
}

/// Publication changes the URLs only: every other field is kept, and a
/// URL led by a storage resource segment has it collapsed to one `/`.
pub proof fn law_publication_touches_urls_only(m: ManifestView, rest: Seq<char>)
    ensures
        (ManifestView {
            xsa_url: m.xsa_url,
            pdi_url: m.pdi_url,
            bin_url: m.bin_url,
            ..m.with_sanitized_urls()
        }) == m,
        m.with_sanitized_urls().xsa_url is Some <==> m.xsa_url is Some,
        m.with_sanitized_urls().pdi_url is Some <==> m.pdi_url is Some,
        m.with_sanitized_urls().bin_url is Some <==> m.bin_url is Some,
        sanitized_url(BUCKET_RESOURCE_SEGMENT@ + rest) == "/"@ + sanitized_url(rest),
{
    reveal_strlit("/projects/_/buckets/");
    let s = BUCKET_RESOURCE_SEGMENT@ + rest;
    assert(s.take(BUCKET_RESOURCE_SEGMENT@.len() as int) =~= BUCKET_RESOURCE_SEGMENT@);
    assert(s.skip(BUCKET_RESOURCE_SEGMENT@.len() as int) =~= rest);
}

} // verus!
