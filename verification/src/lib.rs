//! Verified core of the Caliptra bitstream downloader: manifest rules,
//! bitstream selection and integrity checking, storage naming, bundle
//! planning and CI test-report logic.

pub mod manifest;
pub mod text;
pub mod hashing;
pub mod download;
pub mod storage;
pub mod bundle;
pub mod lexical;
pub mod report;

pub use manifest::{Manifest, MANIFEST_SCHEMA_VERSION, OUTPUT_BUNDLE_FILENAME};
