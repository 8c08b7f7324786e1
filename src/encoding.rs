//! Prefix matching on address text, and the text of a match log line.
use vstd::prelude::*;

verus! {

/// Longest base-58 text of 32 bytes.
pub const MAX_ENCODED_LEN: usize = 44;

/// `prefix` is a prefix of `text`, byte for byte.
pub open spec fn is_prefix(prefix: Seq<u8>, text: Seq<u8>) -> bool {
    prefix.len() <= text.len() && text.subrange(0, prefix.len() as int) == prefix
}

/// Whether `text` starts with `prefix`: exact, case-sensitive byte comparison.
pub fn matches(text: &[u8], prefix: &[u8]) -> (r: bool)
    ensures
        r == is_prefix(prefix@, text@),
{
    if prefix.len() > text.len() {
        return false;
    }
    let mut i: usize = 0;
    while i < prefix.len()
        invariant
            prefix@.len() <= text@.len(),
            i <= prefix@.len(),
            forall|k: int| 0 <= k < i ==> text@[k] == prefix@[k],
        decreases prefix@.len() - i,
    {
        if text[i] != prefix[i] {
            assert(text@.subrange(0, prefix@.len() as int)[i as int] != prefix@[i as int]);
            return false;
        }
        i = i + 1;
    }
    assert(text@.subrange(0, prefix@.len() as int) =~= prefix@);
    true
}

/// The empty prefix matches every text, and a prefix longer than the longest
/// encoded address matches no encoded address.
pub proof fn lemma_prefix_semantics(text: Seq<u8>, prefix: Seq<u8>)
    ensures
        is_prefix(Seq::empty(), text),
        text.len() <= MAX_ENCODED_LEN < prefix.len() ==> !is_prefix(prefix, text),
{
    assert(text.subrange(0, 0) =~= Seq::<u8>::empty());
}

/// The decimal digits of `n` as ASCII bytes, most significant first.
pub open spec fn decimal(n: nat) -> Seq<u8>
    decreases n,
{
    if n < 10 {
        seq![(48 + n) as u8]
    } else {
        decimal(n / 10).push((48 + n % 10) as u8)
    }
}

/// Appends the decimal digits of `n` to `out`.
pub fn push_decimal(out: &mut Vec<u8>, n: u64)
    ensures
        final(out)@ == old(out)@ + decimal(n as nat),
    decreases n,
{
    if n >= 10 {
        push_decimal(out, n / 10);
    }
    out.push(48 + (n % 10) as u8);
    proof {
        if n >= 10 {
            assert(final(out)@ =~= old(out)@ + decimal(n as nat));
        } else {
            assert(final(out)@ =~= old(out)@ + decimal(n as nat));
        }
    }
}

/// The log line of a match: `"<address>: <seed>\n"`.
pub open spec fn log_line_spec(address: Seq<u8>, seed: u64) -> Seq<u8> {
    address + seq![58u8, 32u8] + decimal(seed as nat) + seq![10u8]
}

/// Builds the log line `"<address>: <seed>\n"` of a match.
pub fn log_line(address: &[u8], seed: u64) -> (r: Vec<u8>)
    ensures
        r@ == log_line_spec(address@, seed),
{
    let mut out: Vec<u8> = Vec::new();
    let mut i: usize = 0;
    while i < address.len()
        invariant
            i <= address@.len(),
            out@ == address@.subrange(0, i as int),
        decreases address@.len() - i,
    {
        out.push(address[i]);
        i = i + 1;
        assert(out@ =~= address@.subrange(0, i as int));
    }
    assert(out@ =~= address@);
    out.push(58);
    out.push(32);
    push_decimal(&mut out, seed);
    out.push(10);
    assert(out@ =~= log_line_spec(address@, seed));
    out
}

} // verus!
