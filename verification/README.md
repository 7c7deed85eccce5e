# caliptra-bitstream-downloader

Tools for publishing and fetching Caliptra FPGA bitstreams, with their
decision logic verified in Verus.

- `src/` — the verified library:
  - `manifest.rs`: the manifest, its schema check, URL sanitizing before
    publication, and the fields recorded while bundling and uploading;
  - `download.rs`: which artifact a manifest offers, where it is stored, and
    the integrity check of downloaded content;
  - `hashing.rs`: SHA-256 (via `sha2`) rendered as lower-case hex (via `hex`);
  - `storage.rs`: object names and public URLs in cloud storage;
  - `bundle.rs`: ordering of bundled artifacts and finding them again by
    file extension in an unpacked bundle;
  - `report.rs`, `lexical.rs`, `text.rs`: JUnit report classification, the
    list.json reading (via `serde_json`), the
    check that every listed test ran, and the string algorithms they use.
- `app/` — the command-line front end: argument parsing, TOML/XML
  (de)serialization, files, archives, HTTP and cloud storage.
- `tests/` — tests of the library on concrete values.
