//! A search worker: walks its own run of seeds and reports the seeds whose
//! canonical address text starts with the target prefix.
use vstd::prelude::*;
use crate::address::{
    canonical_digest, candidate, find_canonical, is_canonical_offset, lemma_canonical_unique,
    lemma_selects_canonical,
};
use crate::encoding::{is_prefix, lemma_prefix_semantics, log_line, log_line_spec};
use crate::partition::{seed_space, start_seed, start_seed_spec};
use crate::preimage::Preimage;
use crate::primitives::{base58_encode, base58_of, random_u64};

verus! {

/// A seed whose canonical address text starts with the target.
pub struct MatchRecord {
    /// The base-58 text of the address.
    pub address: Vec<u8>,
    /// The seed that gives it.
    pub seed: u64,
}

impl View for MatchRecord {
    type V = (Seq<u8>, u64);

    open spec fn view(&self) -> (Seq<u8>, u64) {
        (self.address@, self.seed)
    }
}

impl MatchRecord {
    /// The line `"<address>: <seed>\n"` that records this match in a log.
    pub fn log_line(&self) -> (r: Vec<u8>)
        ensures
            r@ == log_line_spec(self.address@, self.seed),
    {
        log_line(self.address.as_slice(), self.seed)
    }
}

/// The address text reported for `seed`: the text of its canonical digest,
/// when that text starts with `target`; nothing otherwise.
pub open spec fn seed_outcome(owner: Seq<u8>, seed: u64, target: Seq<u8>) -> Option<Seq<u8>> {
    match canonical_digest(owner, seed) {
        Some(d) => if is_prefix(target, base58_of(d)) {
            Some(base58_of(d))
        } else {
            None
        },
        None => None,
    }
}

/// Whether a seed is reported depends on the text of its canonical digest
/// alone: digests that come earlier in the bump scan, on the curve, are never
/// matched, whatever their text.
pub proof fn lemma_only_canonical_matched(owner: Seq<u8>, seed: u64, target: Seq<u8>, k: int)
    requires
        is_canonical_offset(owner, seed, k),
    ensures
        seed_outcome(owner, seed, target) is Some <==> is_prefix(
            target,
            base58_of(candidate(owner, seed, k)),
        ),
        seed_outcome(owner, seed, target) is Some ==> seed_outcome(owner, seed, target)
            == Some(base58_of(candidate(owner, seed, k))),
{
    let c = choose|j: int| is_canonical_offset(owner, seed, j);
    lemma_canonical_unique(owner, seed, k, c);
}

/// With an empty target every seed that has a canonical address is reported,
/// with the text of that address.
pub proof fn lemma_empty_target_matches(owner: Seq<u8>, seed: u64)
    requires
        canonical_digest(owner, seed) is Some,
    ensures
        seed_outcome(owner, seed, Seq::empty()) == Some(
            base58_of(canonical_digest(owner, seed)->Some_0),
        ),
{
    let d = canonical_digest(owner, seed)->Some_0;
    lemma_prefix_semantics(base58_of(d), Seq::empty());
}

/// The seed `n` steps after `start`, wrapping around the 64-bit ring.
pub open spec fn seed_after(start: u64, n: nat) -> u64 {
    ((start + n) % seed_space()) as u64
}

/// The matches reported for the `n` seeds after `start`, in order.
pub open spec fn scan_matches(owner: Seq<u8>, target: Seq<u8>, start: u64, n: nat) -> Seq<
    (Seq<u8>, u64),
>
    decreases n,
{
    if n == 0 {
        Seq::empty()
    } else {
        let before = scan_matches(owner, target, start, (n - 1) as nat);
        let s = seed_after(start, n);
        match seed_outcome(owner, s, target) {
            Some(a) => before.push((a, s)),
            None => before,
        }
    }
}

/// One worker: its preimage buffer and its seed counter.
pub struct Worker {
    pre: Preimage,
    seed: u64,
}

impl Worker {
    /// The owner key the worker searches for.
    pub closed spec fn owner(&self) -> Seq<u8> {
        self.pre.owner()
    }

    /// The last seed processed (or the starting seed, before the first).
    pub closed spec fn seed_spec(&self) -> u64 {
        self.seed
    }

    /// The worker's buffer is well formed.
    pub closed spec fn wf(&self) -> bool {
        self.pre.wf()
    }

    /// A worker for `owner` whose first seed processed is `start + 1`.
    pub fn new(owner: &[u8; 32], start: u64) -> (r: Self)
        ensures
            r.wf(),
            r.owner() == owner@,
            r.seed_spec() == start,
    {
        Worker { pre: Preimage::new(owner), seed: start }
    }

    /// The last seed processed.
    pub fn seed(&self) -> (r: u64)
        ensures
            r == self.seed_spec(),
    {
        self.seed
    }

    /// Moves to the next seed (wrapping) and returns a match when the text of
    /// its canonical address starts with `target`.
    pub fn advance(&mut self, target: &[u8]) -> (r: Option<MatchRecord>)
        requires
            old(self).wf(),
        ensures
            final(self).wf(),
            final(self).owner() == old(self).owner(),
            final(self).seed_spec() == seed_after(old(self).seed_spec(), 1),
            match r {
                Some(m) => seed_outcome(old(self).owner(), final(self).seed_spec(), target@)
                    == Some(m.address@) && m.seed == final(self).seed_spec(),
                None => seed_outcome(old(self).owner(), final(self).seed_spec(), target@) is None,
            },
            r is Some ==> r->Some_0.address@.len() <= 44,
            target@.len() > 44 ==> r is None,
    {
        self.seed = self.seed.wrapping_add(1);
        let ghost owner = self.pre.owner();
        let found = find_canonical(&mut self.pre, self.seed);
        proof {
            lemma_selects_canonical(
                owner,
                self.seed,
                match found {
                    Some((d, b)) => Some((d@, b)),
                    None => None,
                },
            );
        }
        match found {
            Some((digest, _bump)) => {
                let text = base58_encode(&digest);
                if crate::encoding::matches(text.as_slice(), target) {
                    Some(MatchRecord { address: text, seed: self.seed })
                } else {
                    None
                }
            },
            None => None,
        }
    }

    /// Processes the next `count` seeds and returns their matches in order.
    pub fn scan(&mut self, target: &[u8], count: u64) -> (r: Vec<MatchRecord>)
        requires
            old(self).wf(),
        ensures
            final(self).wf(),
            final(self).owner() == old(self).owner(),
            final(self).seed_spec() == seed_after(old(self).seed_spec(), count as nat),
            r@.map_values(|m: MatchRecord| m@) == scan_matches(
                old(self).owner(),
                target@,
                old(self).seed_spec(),
                count as nat,
            ),
            target@.len() > 44 ==> r@.len() == 0,
    {
        let ghost owner = self.owner();
        let ghost start = self.seed;
        let mut found: Vec<MatchRecord> = Vec::new();
        let mut i: u64 = 0;
        while i < count
            invariant
                i <= count,
                self.wf(),
                self.owner() == owner,
                owner == old(self).owner(),
                start == old(self).seed_spec(),
                self.seed_spec() == seed_after(start, i as nat),
                found@.map_values(|m: MatchRecord| m@) == scan_matches(owner, target@, start, i as nat),
                target@.len() > 44 ==> found@.len() == 0,
            decreases count - i,
        {
            let ghost before = found@;
            let r = self.advance(target);
            proof {
                assert(seed_after(seed_after(start, i as nat), 1) == seed_after(start, (i + 1) as nat));
            }
            match r {
                Some(m) => {
                    found.push(m);
                    assert(found@.map_values(|m: MatchRecord| m@) =~= before.map_values(
                        |m: MatchRecord| m@,
                    ).push(found@.last()@));
                },
                None => {},
            }
            i = i + 1;
        }
        found
    }
}

/// `starts` are the starting seeds of `threads` workers that share `offset`.
pub open spec fn starts_from(starts: Seq<u64>, threads: u64, offset: u64) -> bool {
    forall|i: int|
        0 <= i < threads ==> #[trigger] starts[i] as int == start_seed_spec(
            threads as int,
            i,
            offset as int,
        )
}

/// The starting seeds of `threads` workers sharing one freshly drawn random
/// offset: worker `i` starts at `floor(2^64 / threads) * i + offset`.
pub fn start_seeds(threads: u64) -> (r: Vec<u64>)
    ensures
        r@.len() == threads,
        exists|offset: u64| #[trigger] starts_from(r@, threads, offset),
{
    let offset = random_u64();
    let mut starts: Vec<u64> = Vec::new();
    let mut i: u64 = 0;
    while i < threads
        invariant
            i <= threads,
            starts@.len() == i,
            forall|k: int|
                0 <= k < i ==> #[trigger] starts@[k] as int == start_seed_spec(
                    threads as int,
                    k,
                    offset as int,
                ),
        decreases threads - i,
    {
        starts.push(start_seed(threads, i, offset));
        i = i + 1;
    }
    assert(starts_from(starts@, threads, offset));
    starts
}

/// The approximate total of seeds processed, as reported by the first worker:
/// its own `batches` batches of `batch_size` seeds plus the count `others`
/// published by the other workers, saturating at `u64::MAX`.
pub fn aggregate_progress(batches: u64, batch_size: u64, others: u64) -> (r: u64)
    ensures
        r as int == if batches * batch_size + others > u64::MAX {
            u64::MAX as int
        } else {
            batches * batch_size + others
        },
{
    let own = batches.checked_mul(batch_size);
    match own {
        Some(n) => n.saturating_add(others),
        None => {
            assert(batches * batch_size > u64::MAX);
            u64::MAX
        },
    }
}

} // verus!
