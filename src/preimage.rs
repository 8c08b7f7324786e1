//! The fixed 62-byte candidate preimage: `[seed: 8][bump: 1][owner: 32][marker: 21]`.
use vstd::prelude::*;

verus! {

/// Offset of the bump byte.
pub const BUMP_AT: usize = 8;

/// Offset of the owner key.
pub const OWNER_AT: usize = 9;

/// Offset of the domain-separation marker.
pub const MARKER_AT: usize = 41;

/// The domain-separation marker, `b"ProgramDerivedAddress"`.
pub const PDA_MARKER: [u8; 21] = [
    0x50, 0x72, 0x6f, 0x67, 0x72, 0x61, 0x6d, 0x44, 0x65, 0x72, 0x69,
    0x76, 0x65, 0x64, 0x41, 0x64, 0x64, 0x72, 0x65, 0x73, 0x73,
];

/// The marker as a sequence of bytes.
pub open spec fn marker() -> Seq<u8> {
    seq![
        0x50u8, 0x72, 0x6f, 0x67, 0x72, 0x61, 0x6d, 0x44, 0x65, 0x72, 0x69,
        0x76, 0x65, 0x64, 0x41, 0x64, 0x64, 0x72, 0x65, 0x73, 0x73,
    ]
}

/// Byte `k` (least significant first) of `v`.
pub open spec fn le_byte(v: u64, k: u64) -> u8 {
    ((v >> (8 * k)) & 0xff) as u8
}

/// The eight little-endian bytes of `v`.
pub open spec fn le_bytes(v: u64) -> Seq<u8> {
    seq![
        le_byte(v, 0), le_byte(v, 1), le_byte(v, 2), le_byte(v, 3),
        le_byte(v, 4), le_byte(v, 5), le_byte(v, 6), le_byte(v, 7),
    ]
}

/// The bump byte tried at scan position `offset`: `255 - offset`.
pub open spec fn bump_at(offset: int) -> u8 {
    (255 - offset) as u8
}

/// The preimage hashed for `owner`, `seed` and `bump`.
pub open spec fn preimage(owner: Seq<u8>, seed: u64, bump: u8) -> Seq<u8> {
    le_bytes(seed) + seq![bump] + owner + marker()
}

/// A reusable preimage buffer; only the seed and bump fields change after
/// it is made.
pub struct Preimage {
    bytes: [u8; 62],
    seed: Ghost<u64>,
}

impl Preimage {
    /// The owner key held in the buffer.
    pub closed spec fn owner(&self) -> Seq<u8> {
        self.bytes@.subrange(OWNER_AT as int, MARKER_AT as int)
    }

    /// The seed field, as it was last set.
    pub closed spec fn seed(&self) -> u64 {
        self.seed@
    }

    /// The bump field, as it was last set.
    pub closed spec fn bump(&self) -> u8 {
        self.bytes@[BUMP_AT as int]
    }

    /// The bytes that are hashed.
    pub closed spec fn view_bytes(&self) -> Seq<u8> {
        self.bytes@
    }

    /// The buffer holds the preimage of its owner, seed and bump.
    pub closed spec fn wf(&self) -> bool {
        self.bytes@ == preimage(self.owner(), self.seed(), self.bump())
    }

    /// A buffer for `owner`, with seed 0 and bump 255.
    pub fn new(owner: &[u8; 32]) -> (r: Self)
        ensures
            r.wf(),
            r.owner() == owner@,
            r.seed() == 0,
            r.bump() == 255,
            r.view_bytes() == preimage(owner@, 0, 255),
    {
        let mut bytes: [u8; 62] = [0u8; 62];
        bytes[BUMP_AT] = 255;
        let mut i: usize = 0;
        while i < 32
            invariant
                i <= 32,
                bytes@.len() == 62,
                bytes@[8] == 255,
                forall|k: int| 0 <= k < 8 ==> bytes@[k] == 0,
                forall|k: int| 0 <= k < i ==> bytes@[OWNER_AT + k] == owner@[k],
            decreases 32 - i,
        {
            bytes[OWNER_AT + i] = owner[i];
            i = i + 1;
        }
        let mut j: usize = 0;
        while j < 21
            invariant
                j <= 21,
                bytes@.len() == 62,
                bytes@[8] == 255,
                forall|k: int| 0 <= k < 8 ==> bytes@[k] == 0,
                forall|k: int| 0 <= k < 32 ==> bytes@[OWNER_AT + k] == owner@[k],
                forall|k: int| 0 <= k < j ==> bytes@[MARKER_AT + k] == marker()[k],
            decreases 21 - j,
        {
            bytes[MARKER_AT + j] = PDA_MARKER[j];
            j = j + 1;
        }
        let r = Preimage { bytes, seed: Ghost(0) };
        proof {
            lemma_le_bytes_zero();
            assert(r.bytes@ =~= preimage(owner@, 0, 255));
            assert(r.owner() =~= owner@);
        }
        r
    }

    /// Overwrites the seed field with `seed` (little-endian).
    pub fn set_seed(&mut self, seed: u64)
        requires
            old(self).wf(),
        ensures
            final(self).wf(),
            final(self).owner() == old(self).owner(),
            final(self).bump() == old(self).bump(),
            final(self).seed() == seed,
            final(self).view_bytes() == preimage(old(self).owner(), seed, old(self).bump()),
    {
        let ghost owner = self.owner();
        let ghost bump = self.bump();
        self.bytes[0] = (seed & 0xff) as u8;
        self.bytes[1] = ((seed >> 8) & 0xff) as u8;
        self.bytes[2] = ((seed >> 16) & 0xff) as u8;
        self.bytes[3] = ((seed >> 24) & 0xff) as u8;
        self.bytes[4] = ((seed >> 32) & 0xff) as u8;
        self.bytes[5] = ((seed >> 40) & 0xff) as u8;
        self.bytes[6] = ((seed >> 48) & 0xff) as u8;
        self.bytes[7] = ((seed >> 56) & 0xff) as u8;
        self.seed = Ghost(seed);
        proof {
            assert(seed >> 0 == seed) by (bit_vector);
            assert(self.bytes@ =~= preimage(owner, seed, bump));
            assert(self.owner() =~= owner);
        }
    }

    /// Writes the bump byte for scan position `offset`, that is `255 - offset`.
    pub fn set_bump(&mut self, offset: u8)
        requires
            old(self).wf(),
        ensures
            final(self).wf(),
            final(self).owner() == old(self).owner(),
            final(self).seed() == old(self).seed(),
            final(self).bump() == 255 - offset,
            final(self).view_bytes() == preimage(old(self).owner(), old(self).seed(), (255 - offset) as u8),
    {
        let ghost owner = self.owner();
        let ghost seed = self.seed();
        self.bytes[BUMP_AT] = 255 - offset;
        proof {
            assert(self.bytes@ =~= preimage(owner, seed, (255 - offset) as u8));
            assert(self.owner() =~= owner);
        }
    }

    /// The 62 bytes to hash.
    pub fn as_bytes(&self) -> (r: &[u8; 62])
        ensures
            r@ == self.view_bytes(),
            self.wf() ==> r@ == preimage(self.owner(), self.seed(), self.bump()),
    {
        &self.bytes
    }
}

/// The little-endian bytes of zero are all zero.
proof fn lemma_le_bytes_zero()
    ensures
        le_bytes(0) == seq![0u8, 0, 0, 0, 0, 0, 0, 0],
{
    assert(le_byte(0, 0) == 0) by (bit_vector);
    assert(le_byte(0, 1) == 0) by (bit_vector);
    assert(le_byte(0, 2) == 0) by (bit_vector);
    assert(le_byte(0, 3) == 0) by (bit_vector);
    assert(le_byte(0, 4) == 0) by (bit_vector);
    assert(le_byte(0, 5) == 0) by (bit_vector);
    assert(le_byte(0, 6) == 0) by (bit_vector);
    assert(le_byte(0, 7) == 0) by (bit_vector);
    assert(le_bytes(0) =~= seq![0u8, 0, 0, 0, 0, 0, 0, 0]);
}

} // verus!
