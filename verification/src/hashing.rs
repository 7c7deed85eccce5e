use vstd::prelude::*;

verus! {

/// The SHA-256 digest of a byte sequence.
pub uninterp spec fn sha256_spec(data: Seq<u8>) -> Seq<u8>;

/// The lower-case hexadecimal digit for a value below sixteen.
pub open spec fn hex_digit(n: int) -> char {
    seq!['0', '1', '2', '3', '4', '5', '6', '7', '8', '9', 'a', 'b', 'c', 'd', 'e', 'f'][n]
}

/// Lower-case hexadecimal text of a byte sequence, high nibble first.
pub open spec fn hex_lower(data: Seq<u8>) -> Seq<char>
    decreases data.len(),
{
    if data.len() == 0 {
        Seq::empty()
    } else {
        seq![hex_digit((data[0] / 16) as int), hex_digit((data[0] % 16) as int)] + hex_lower(data.skip(1))
    }
}

/// A lower-case hexadecimal digit.
pub open spec fn is_hex_digit(c: char) -> bool {
    exists|n: int| 0 <= n < 16 && c == #[trigger] hex_digit(n)
}

/// Hex text has two digits per byte, all lower-case hexadecimal.
pub proof fn lemma_hex_lower_shape(data: Seq<u8>)
    ensures
        hex_lower(data).len() == 2 * data.len(),
        forall|k: int| 0 <= k < hex_lower(data).len() ==> is_hex_digit(#[trigger] hex_lower(data)[k]),
    decreases data.len(),
{
    if data.len() > 0 {
        lemma_hex_lower_shape(data.skip(1));
        let hi = (data[0] / 16) as int;
        let lo = (data[0] % 16) as int;
        let h = hex_lower(data);
        let rest = hex_lower(data.skip(1));
        assert forall|k: int| 0 <= k < h.len() implies is_hex_digit(#[trigger] h[k]) by {
            if k == 0 {
                assert(h[k] == hex_digit(hi));
            } else if k == 1 {
                assert(h[k] == hex_digit(lo));
            } else {
                assert(h[k] == rest[k - 2]);
            }
        }
    }
}

/// The hash text recorded in manifests: lower-case hex of the SHA-256 digest.
pub open spec fn content_hash(data: Seq<u8>) -> Seq<char> {
    hex_lower(sha256_spec(data))
}

/// Computes the SHA-256 digest of `data` with `sha2::Sha256::digest`.
/// Trusted: the result is the digest of exactly these bytes (named by
/// `sha256_spec`) and is 32 bytes long (`OutputSize = U32`); nothing else
/// about its value is claimed.
#[verifier::external_body]
fn sha256_digest(data: &[u8]) -> (digest: Vec<u8>)
    ensures
        digest@ == sha256_spec(data@),
        digest@.len() == 32,
{
    <sha2::Sha256 as sha2::Digest>::digest(data).to_vec()
}

/// Encodes bytes as text with `hex::encode`.
/// Trusted: two lower-case hex digits per byte, high nibble first, as the
/// crate's `HEX_CHARS_LOWER` table and `BytesToHexChars` iterator produce.
#[verifier::external_body]
fn hex_encode(data: &[u8]) -> (text: String)
    ensures
        text@ == hex_lower(data@),
{
    hex::encode(data)
}

/// Hash text of a byte content: lower-case hex of its SHA-256 digest.
pub fn calculate_hash(content: &[u8]) -> (hash: String)
    ensures
        hash@ == content_hash(content@),
        hash@.len() == 64,
        forall|k: int| 0 <= k < 64 ==> is_hex_digit(#[trigger] hash@[k]),
{
    let digest = sha256_digest(content);
    proof {
        lemma_hex_lower_shape(digest@);
    }
    hex_encode(digest.as_slice())
}

} // verus!
