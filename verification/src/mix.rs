//! Two small arithmetic mixing digests implementing [`SigDigest`].
//!
//! Both are deterministic, fixed-output-length and cheap, which makes them
//! convenient defaults for demonstrations and tests of the signature scheme;
//! neither is one-way, so neither is fit for use where security matters. A
//! production deployment plugs in a real hash function through the same
//! trait instead.

use vstd::prelude::*;

use crate::hash::SigDigest;

verus! {

/// Seed state of the 32-bit mixer.
pub const MIX32_INIT: u32 = 2166136261;

/// Multiplier of the 32-bit mixer's absorb step.
pub const MIX32_MULT: u32 = 16777619;

/// One absorb step of the 32-bit mixer.
pub open spec fn mix32_step(s: int, b: u8) -> int {
    (s * (MIX32_MULT as int) + b + 1) % 0x100000000
}

/// The 32-bit mixer's state after absorbing `bytes`, seed first.
pub open spec fn mix32_state(bytes: Seq<u8>) -> int
    decreases bytes.len(),
{
    if bytes.len() == 0 {
        MIX32_INIT as int
    } else {
        mix32_step(mix32_state(bytes.drop_last()), bytes.last())
    }
}

/// The 32-bit mixer's digest: the final state as four bytes, big end first.
pub open spec fn mix32_hash(input: Seq<u8>) -> Seq<u8> {
    let s = mix32_state(input);
    seq![
        (s / 0x1000000) as u8,
        ((s / 0x10000) % 0x100) as u8,
        ((s / 0x100) % 0x100) as u8,
        (s % 0x100) as u8,
    ]
}

/// A 32-bit mixing digest with a 4-byte output.
pub struct Mix32 {
    state: u32,
    bytes: Ghost<Seq<u8>>,
}

impl SigDigest for Mix32 {
    open spec fn out_len() -> nat {
        4
    }

    open spec fn hash_of(input: Seq<u8>) -> Seq<u8> {
        mix32_hash(input)
    }

    closed spec fn fed(&self) -> Seq<u8> {
        self.bytes@
    }

    closed spec fn inv(&self) -> bool {
        self.state as int == mix32_state(self.bytes@)
    }

    proof fn lemma_hash_len(input: Seq<u8>) {
    }

    fn output_len() -> (n: usize) {
        4
    }

    fn new() -> (d: Self) {
        Mix32 { state: MIX32_INIT, bytes: Ghost(Seq::empty()) }
    }

    #[verifier::rlimit(100)]
    fn update(&mut self, data: &[u8]) {
        let ghost fed0 = self.bytes@;
        let mut i: usize = 0;
        while i < data.len()
            invariant
                i <= data@.len(),
                self.bytes@ == fed0 + data@.take(i as int),
                self.state as int == mix32_state(self.bytes@),
            decreases data@.len() - i,
        {
            let b = data[i];
            let ghost oldfed = self.bytes@;
            let s64 = (self.state as u64) * (MIX32_MULT as u64) + (b as u64) + 1;
            self.state = (s64 % 0x100000000) as u32;
            self.bytes = Ghost(oldfed.push(b));
            proof {
                assert(oldfed.push(b).drop_last() =~= oldfed);
                assert(oldfed.push(b).last() == b);
                assert(mix32_state(oldfed.push(b)) == mix32_step(mix32_state(oldfed), b));
                assert(self.state as int == mix32_state(self.bytes@));
                assert(fed0 + data@.take(i + 1) =~= oldfed.push(b));
            }
            i = i + 1;
        }
        proof {
            assert(fed0 + data@.take(data@.len() as int) =~= fed0 + data@);
        }
    }

    fn finalize(self) -> (r: Vec<u8>) {
        let s = self.state;
        let mut r: Vec<u8> = Vec::new();
        r.push((s / 0x1000000) as u8);
        r.push(((s / 0x10000) % 0x100) as u8);
        r.push(((s / 0x100) % 0x100) as u8);
        r.push((s % 0x100) as u8);
        proof {
            assert(r@ =~= mix32_hash(self.bytes@));
        }
        r
    }
}

/// One absorb step of the 16-bit mixer.
pub open spec fn mix16_step(s: int, b: u8) -> int {
    (s * 0x100 + b + 1) % 0x10000
}

/// The 16-bit mixer's state after absorbing `bytes`, seed zero.
pub open spec fn mix16_state(bytes: Seq<u8>) -> int
    decreases bytes.len(),
{
    if bytes.len() == 0 {
        0
    } else {
        mix16_step(mix16_state(bytes.drop_last()), bytes.last())
    }
}

/// The 16-bit mixer's digest: the final state as two bytes, big end first.
pub open spec fn mix16_hash(input: Seq<u8>) -> Seq<u8> {
    let s = mix16_state(input);
    seq![((s / 0x100) % 0x100) as u8, (s % 0x100) as u8]
}

/// A 16-bit mixing digest with a 2-byte output.
pub struct Mix16 {
    state: u16,
    bytes: Ghost<Seq<u8>>,
}

impl SigDigest for Mix16 {
    open spec fn out_len() -> nat {
        2
    }

    open spec fn hash_of(input: Seq<u8>) -> Seq<u8> {
        mix16_hash(input)
    }

    closed spec fn fed(&self) -> Seq<u8> {
        self.bytes@
    }

    closed spec fn inv(&self) -> bool {
        self.state as int == mix16_state(self.bytes@)
    }

    proof fn lemma_hash_len(input: Seq<u8>) {
    }

    fn output_len() -> (n: usize) {
        2
    }

    fn new() -> (d: Self) {
        Mix16 { state: 0, bytes: Ghost(Seq::empty()) }
    }

    fn update(&mut self, data: &[u8]) {
        let ghost fed0 = self.bytes@;
        let mut i: usize = 0;
        while i < data.len()
            invariant
                i <= data@.len(),
                self.bytes@ == fed0 + data@.take(i as int),
                self.state as int == mix16_state(self.bytes@),
            decreases data@.len() - i,
        {
            let b = data[i];
            let ghost oldfed = self.bytes@;
            let s32 = (self.state as u32) * 0x100 + (b as u32) + 1;
            self.state = (s32 % 0x10000) as u16;
            self.bytes = Ghost(oldfed.push(b));
            proof {
                assert(oldfed.push(b).drop_last() =~= oldfed);
                assert(oldfed.push(b).last() == b);
                assert(self.state as int == mix16_state(self.bytes@));
                assert(fed0 + data@.take(i + 1) =~= oldfed.push(b));
            }
            i = i + 1;
        }
        proof {
            assert(fed0 + data@.take(data@.len() as int) =~= fed0 + data@);
        }
    }

    fn finalize(self) -> (r: Vec<u8>) {
        let s = self.state;
        let mut r: Vec<u8> = Vec::new();
        r.push(((s / 0x100) % 0x100) as u8);
        r.push((s % 0x100) as u8);
        proof {
            assert(r@ =~= mix16_hash(self.bytes@));
        }
        r
    }
}

} // verus!
