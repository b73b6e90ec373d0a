//! SHA-256 digests, nonces and their textual form.
use rand::RngCore;
use vstd::prelude::*;

verus! {

/// The width of a digest.
pub const HASH_WIDTH_IN_BYTES: usize = 32;

/// A SHA-256 digest: of a service name, or of a token followed by a nonce.
pub type Digest = [u8; HASH_WIDTH_IN_BYTES];

/// The SHA-256 digest of `data`.
pub uninterp spec fn sha256(data: Seq<u8>) -> Digest;

/// `sha2::Sha256::digest`, which hashes `data` in one call. The hash is left
/// uninterpreted: all that is claimed is that it depends on the bytes alone.
#[verifier::external_body]
pub(crate) fn digest(data: &[u8]) -> (hash: Digest)
    ensures
        hash == sha256(data@),
{
    <sha2::Sha256 as sha2::Digest>::digest(data).into()
}

/// `rand::thread_rng().fill_bytes`, which fills the whole buffer with random
/// bytes. Nothing is claimed of their value.
#[verifier::external_body]
pub(crate) fn random_nonce() -> Digest {
    let mut nonce = [0u8; HASH_WIDTH_IN_BYTES];
    rand::thread_rng().fill_bytes(&mut nonce);
    nonce
}

/// The lower-case hexadecimal digit of `n`.
pub open spec fn hex_digit(n: int) -> char {
    if n < 10 {
        (48 + n) as char
    } else {
        (87 + n) as char
    }
}

/// `bytes` in lower-case hexadecimal, two digits a byte, high digit first.
pub open spec fn hex_text(bytes: Seq<u8>) -> Seq<char> {
    Seq::new(
        2 * bytes.len(),
        |i: int|
            hex_digit(
                if i % 2 == 0 {
                    bytes[i / 2] as int / 16
                } else {
                    bytes[i / 2] as int % 16
                },
            ),
    )
}

/// `hex::encode`, which writes each byte as two lower-case hexadecimal digits.
#[verifier::external_body]
pub(crate) fn hex_encode(bytes: &Digest) -> (text: String)
    ensures
        text@ == hex_text(bytes@),
{
    hex::encode(bytes)
}

/// In hexadecimal each byte stands as its two digits, the high one first, and
/// nothing else is there: the bytes can be read back.
pub proof fn law_hex_text_spells_every_byte(bytes: Seq<u8>, i: int)
    requires
        0 <= i < bytes.len(),
    ensures
        hex_text(bytes).len() == 2 * bytes.len(),
        hex_text(bytes)[2 * i] == "0123456789abcdef"@[bytes[i] as int / 16],
        hex_text(bytes)[2 * i + 1] == "0123456789abcdef"@[bytes[i] as int % 16],
{
    reveal_strlit("0123456789abcdef");
}

} // verus!
