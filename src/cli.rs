//! The two commands of the search tool, as plain values, and the reading of
//! an owner key from its base-58 text.
use vstd::prelude::*;
use vstd::string::StringSliceAdditionalSpecFns;
use crate::address::{canonical_digest, derive_address, lemma_selects_canonical};
use crate::primitives::{OwnerKeyError, base58_encode, base58_of, key_of_text, parse_pubkey};

verus! {

/// Search for seeds whose canonical address text starts with `target`.
pub struct GrindArgs {
    /// The owner key.
    pub owner: [u8; 32],
    /// The prefix looked for, taken as it is.
    pub target: String,
    /// The number of parallel workers.
    pub threads: u64,
}

/// Print the canonical address of one owner and seed.
pub struct CheckArgs {
    /// The owner key.
    pub owner: [u8; 32],
    /// The seed.
    pub seed: u64,
}

/// A command of the search tool.
pub enum Command {
    Grind(GrindArgs),
    Check(CheckArgs),
}

/// Reads an owner key from its base-58 text; a text longer than 44 bytes is
/// always the wrong size.
pub fn parse_owner(s: &str) -> (r: Result<[u8; 32], OwnerKeyError>)
    ensures
        r is Ok <==> key_of_text(s@) is Some,
        r is Ok ==> key_of_text(s@) == Some(r->Ok_0@),
        s.spec_bytes().len() > 44 ==> r is Err && r->Err_0 == OwnerKeyError::WrongSize,
{
    parse_pubkey(s)
}

/// The base-58 text of a 32-byte key or address.
pub fn encode_key(k: &[u8; 32]) -> (r: Vec<u8>)
    ensures
        r@ == base58_of(k@),
        r@.len() <= 44,
{
    base58_encode(k)
}

/// The text of the canonical address of `owner` and `seed`, or `None` when
/// the seed has none.
pub fn check_address(owner: &[u8; 32], seed: u64) -> (r: Option<Vec<u8>>)
    ensures
        match r {
            Some(t) => canonical_digest(owner@, seed) is Some && t@ == base58_of(
                canonical_digest(owner@, seed)->Some_0,
            ),
            None => canonical_digest(owner@, seed) is None,
        },
{
    let found = derive_address(owner, seed);
    proof {
        lemma_selects_canonical(
            owner@,
            seed,
            match found {
                Some((d, b)) => Some((d@, b)),
                None => None,
            },
        );
    }
    match found {
        Some((digest, _bump)) => Some(base58_encode(&digest)),
        None => None,
    }
}

} // verus!
