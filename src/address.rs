//! Canonical bump selection: the one derived address of an (owner, seed) pair.
use vstd::prelude::*;
use crate::preimage::{Preimage, preimage, bump_at};
use crate::primitives::{sha256, sha256_of, is_on_curve, on_curve};

verus! {

/// Number of bump values scanned per seed: bumps 255 down to 1.
pub const BUMP_SCAN_LEN: u8 = 255;

/// The digest tried at scan position `offset` (bump `255 - offset`).
pub open spec fn candidate(owner: Seq<u8>, seed: u64, offset: int) -> Seq<u8> {
    sha256_of(preimage(owner, seed, bump_at(offset)))
}

/// `offset` is the first scan position whose digest is off the curve.
pub open spec fn is_canonical_offset(owner: Seq<u8>, seed: u64, offset: int) -> bool {
    &&& 0 <= offset < BUMP_SCAN_LEN
    &&& !on_curve(candidate(owner, seed, offset))
    &&& forall|j: int| 0 <= j < offset ==> on_curve(#[trigger] candidate(owner, seed, j))
}

/// Every digest of the scan is on the curve: the seed has no address.
pub open spec fn no_canonical(owner: Seq<u8>, seed: u64) -> bool {
    forall|j: int| 0 <= j < BUMP_SCAN_LEN ==> on_curve(#[trigger] candidate(owner, seed, j))
}

/// `r` is a correct outcome of the bump scan for `owner` and `seed`: the
/// digest and bump of the first off-curve position, or nothing when there
/// is none.
pub open spec fn selects(owner: Seq<u8>, seed: u64, r: Option<(Seq<u8>, u8)>) -> bool {
    match r {
        Some((d, b)) => exists|k: int|
            #[trigger] is_canonical_offset(owner, seed, k) && d == candidate(owner, seed, k)
                && b == bump_at(k),
        None => no_canonical(owner, seed),
    }
}

/// The canonical digest of `owner` and `seed`, if the scan finds one.
pub open spec fn canonical_digest(owner: Seq<u8>, seed: u64) -> Option<Seq<u8>> {
    if exists|k: int| is_canonical_offset(owner, seed, k) {
        Some(candidate(owner, seed, choose|k: int| is_canonical_offset(owner, seed, k)))
    } else {
        None
    }
}

/// At most one scan position is canonical, and it is the first off-curve
/// one in descending-bump order.
pub proof fn lemma_canonical_unique(owner: Seq<u8>, seed: u64, a: int, b: int)
    requires
        is_canonical_offset(owner, seed, a),
        is_canonical_offset(owner, seed, b),
    ensures
        a == b,
{
    if a < b {
        assert(on_curve(candidate(owner, seed, a)));
    } else if b < a {
        assert(on_curve(candidate(owner, seed, b)));
    }
}

/// Any two correct outcomes of the scan for the same owner and seed are
/// equal: the address does not depend on the run or the worker.
pub proof fn lemma_selection_deterministic(
    owner: Seq<u8>,
    seed: u64,
    r1: Option<(Seq<u8>, u8)>,
    r2: Option<(Seq<u8>, u8)>,
)
    requires
        selects(owner, seed, r1),
        selects(owner, seed, r2),
    ensures
        r1 == r2,
{
    match (r1, r2) {
        (Some((d1, b1)), Some((d2, b2))) => {
            let k1 = choose|k: int| #[trigger] is_canonical_offset(owner, seed, k)
                && d1 == candidate(owner, seed, k) && b1 == bump_at(k);
            let k2 = choose|k: int| #[trigger] is_canonical_offset(owner, seed, k)
                && d2 == candidate(owner, seed, k) && b2 == bump_at(k);
            lemma_canonical_unique(owner, seed, k1, k2);
        },
        (Some((d1, b1)), None) => {
            let k1 = choose|k: int| #[trigger] is_canonical_offset(owner, seed, k)
                && d1 == candidate(owner, seed, k) && b1 == bump_at(k);
            assert(on_curve(candidate(owner, seed, k1)));
        },
        (None, Some((d2, b2))) => {
            let k2 = choose|k: int| #[trigger] is_canonical_offset(owner, seed, k)
                && d2 == candidate(owner, seed, k) && b2 == bump_at(k);
            assert(on_curve(candidate(owner, seed, k2)));
        },
        (None, None) => {},
    }
}

/// A correct outcome of the scan carries the canonical digest.
pub proof fn lemma_selects_canonical(owner: Seq<u8>, seed: u64, r: Option<(Seq<u8>, u8)>)
    requires
        selects(owner, seed, r),
    ensures
        match r {
            Some((d, _)) => canonical_digest(owner, seed) == Some(d),
            None => canonical_digest(owner, seed) is None,
        },
{
    match r {
        Some((d, b)) => {
            let k = choose|k: int| #[trigger] is_canonical_offset(owner, seed, k)
                && d == candidate(owner, seed, k) && b == bump_at(k);
            let c = choose|k: int| is_canonical_offset(owner, seed, k);
            lemma_canonical_unique(owner, seed, k, c);
        },
        None => {
            if exists|k: int| is_canonical_offset(owner, seed, k) {
                let c = choose|k: int| is_canonical_offset(owner, seed, k);
                assert(on_curve(candidate(owner, seed, c)));
            }
        },
    }
}

/// Scans bumps 255, 254, ... for the buffer's owner and `seed`, and returns the
/// first digest that is off the curve together with its bump, or `None`
/// when all 255 are on the curve. Stops at the first off-curve digest.
pub fn find_canonical(pre: &mut Preimage, seed: u64) -> (r: Option<([u8; 32], u8)>)
    requires
        old(pre).wf(),
    ensures
        final(pre).wf(),
        final(pre).owner() == old(pre).owner(),
        final(pre).seed() == seed,
        selects(
            old(pre).owner(),
            seed,
            match r {
                Some((d, b)) => Some((d@, b)),
                None => None,
            },
        ),
{
    let ghost owner = pre.owner();
    pre.set_seed(seed);
    let mut offset: u8 = 0;
    while offset < BUMP_SCAN_LEN
        invariant
            offset <= BUMP_SCAN_LEN,
            pre.wf(),
            pre.owner() == owner,
            owner == old(pre).owner(),
            pre.seed() == seed,
            forall|j: int| 0 <= j < offset ==> on_curve(#[trigger] candidate(owner, seed, j)),
        decreases BUMP_SCAN_LEN - offset,
    {
        pre.set_bump(offset);
        let digest = sha256(pre.as_bytes());
        assert(digest@ == candidate(owner, seed, offset as int));
        if !is_on_curve(&digest) {
            assert(is_canonical_offset(owner, seed, offset as int));
            return Some((digest, 255 - offset));
        }
        offset = offset + 1;
    }
    None
}

/// The derived address of `owner` and `seed` with its bump, or `None` when
/// no bump of the scan gives an off-curve digest.
pub fn derive_address(owner: &[u8; 32], seed: u64) -> (r: Option<([u8; 32], u8)>)
    ensures
        selects(
            owner@,
            seed,
            match r {
                Some((d, b)) => Some((d@, b)),
                None => None,
            },
        ),
{
    let mut pre = Preimage::new(owner);
    find_canonical(&mut pre, seed)
}

} // verus!
