//! Calls into the hashing, curve, base-58 and randomness crates. Each function
//! here is trusted: its contract restates what the called crate documents.
use vstd::prelude::*;
use sha2::Digest;
use vstd::string::StringSliceAdditionalSpecFns;

verus! {

/// The SHA-256 digest of a byte string.
pub uninterp spec fn sha256_of(m: Seq<u8>) -> Seq<u8>;

/// Whether 32 bytes decompress to a point of the ed25519 curve.
pub uninterp spec fn on_curve(k: Seq<u8>) -> bool;

/// The base-58 text (Bitcoin alphabet, one `'1'` per leading zero byte) of
/// 32 bytes, as ASCII bytes.
pub uninterp spec fn base58_of(b: Seq<u8>) -> Seq<u8>;

/// The 32 bytes that a base-58 key text stands for, if it stands for any.
pub uninterp spec fn key_of_text(s: Seq<char>) -> Option<Seq<u8>>;

/// Why a text is not a key.
#[derive(Clone, Copy, Debug, PartialEq, Eq, Structural)]
pub enum OwnerKeyError {
    /// The text is too long, or decodes to other than 32 bytes.
    WrongSize,
    /// The text holds a character outside the base-58 alphabet.
    Invalid,
}

/// Relies on `sha2::Sha256::digest`: the SHA-256 digest of the 62 bytes.
#[verifier::external_body]
pub(crate) fn sha256(m: &[u8; 62]) -> (r: [u8; 32])
    ensures
        r@ == sha256_of(m@),
{
    let mut out = [0u8; 32];
    out.copy_from_slice(&sha2::Sha256::digest(m));
    out
}

/// Relies on `solana_pubkey::Pubkey::is_on_curve`: whether the bytes are a
/// compressed Edwards point that decompresses.
#[verifier::external_body]
pub(crate) fn is_on_curve(k: &[u8; 32]) -> (r: bool)
    ensures
        r == on_curve(k@),
{
    solana_pubkey::Pubkey::new_from_array(*k).is_on_curve()
}

/// Relies on `five8::encode_32`: writes the base-58 text of the bytes into a
/// 44-byte buffer and returns its length.
#[verifier::external_body]
pub(crate) fn base58_encode(b: &[u8; 32]) -> (r: Vec<u8>)
    ensures
        r@ == base58_of(b@),
        r@.len() <= 44,
{
    let mut out = [0u8; 44];
    let n = five8::encode_32(b, &mut out);
    out[..n as usize].to_vec()
}

/// Relies on `<solana_pubkey::Pubkey as FromStr>::from_str`: a text longer
/// than 44 bytes is `WrongSize`; otherwise five8's 32-byte decoder decides.
#[verifier::external_body]
pub(crate) fn parse_pubkey(s: &str) -> (r: Result<[u8; 32], OwnerKeyError>)
    ensures
        r is Ok <==> key_of_text(s@) is Some,
        r is Ok ==> key_of_text(s@) == Some(r->Ok_0@),
        s.spec_bytes().len() > 44 ==> r is Err && r->Err_0 == OwnerKeyError::WrongSize,
{
    match <solana_pubkey::Pubkey as std::str::FromStr>::from_str(s) {
        Ok(k) => Ok(k.to_bytes()),
        Err(solana_pubkey::ParsePubkeyError::WrongSize) => Err(OwnerKeyError::WrongSize),
        Err(solana_pubkey::ParsePubkeyError::Invalid) => Err(OwnerKeyError::Invalid),
    }
}

/// Relies on `rand::random::<u64>`: any 64-bit value.
#[verifier::external_body]
pub(crate) fn random_u64() -> (r: u64) {
    rand::random::<u64>()
}

} // verus!
