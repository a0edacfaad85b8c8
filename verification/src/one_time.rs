//! The one-time signature scheme: per-byte hash-chain signatures and their
//! composition across every byte position of a digest output.
//!
//! A secret key is strictly one-time: `sign` takes it by value, so ownership
//! rules out a second use. Deriving a verification key does not consume it.

use core::marker::PhantomData;
use vstd::prelude::*;

use crate::hash::{bytes_eq, chain, chain_hashes, lemma_chain_add, lemma_chain_len, SigDigest};

verus! {

/// The mathematical content of a per-byte key, verification key or
/// signature: one byte string per chain.
#[verifier::ext_equal]
pub struct ChainPair {
    pub low: Seq<u8>,
    pub high: Seq<u8>,
}

/// Both halves of a pair have the digest's output length.
pub open spec fn wf_pair<D: SigDigest>(p: ChainPair) -> bool {
    p.low.len() == D::out_len() && p.high.len() == D::out_len()
}

/// What signing the byte `a` reveals: the low chain at depth `a` and the
/// high chain at depth `256 - a`.
pub open spec fn spec_byte_sign<D: SigDigest>(sk: ChainPair, a: u8) -> ChainPair {
    ChainPair {
        low: chain::<D>(sk.low, a as nat),
        high: chain::<D>(sk.high, (256 - a as int) as nat),
    }
}

/// The verification key derived from a per-byte secret key: both chain
/// endpoints, at depth 256.
pub open spec fn spec_byte_vk<D: SigDigest>(sk: ChainPair) -> ChainPair {
    ChainPair {
        low: chain::<D>(sk.low, 256),
        high: chain::<D>(sk.high, 256),
    }
}

/// The per-byte check: walking each revealed point the remaining distance
/// reaches the respective endpoint in the verification key.
pub open spec fn spec_byte_verify<D: SigDigest>(vk: ChainPair, a: u8, sig: ChainPair) -> bool {
    &&& chain::<D>(sig.low, (256 - a as int) as nat) == vk.low
    &&& chain::<D>(sig.high, a as nat) == vk.high
}

/// Position-wise signing of the digest of `msg`.
pub open spec fn spec_sign<D: SigDigest>(sk: Seq<ChainPair>, msg: Seq<u8>) -> Seq<ChainPair> {
    Seq::new(sk.len(), |i: int| spec_byte_sign::<D>(sk[i], D::hash_of(msg)[i]))
}

/// Position-wise derivation of the composite verification key.
pub open spec fn spec_to_vk<D: SigDigest>(sk: Seq<ChainPair>) -> Seq<ChainPair> {
    Seq::new(sk.len(), |i: int| spec_byte_vk::<D>(sk[i]))
}

/// The composite check: the key has one position per digest byte, the
/// signature is aligned with it, and every position passes its per-byte
/// check against the digest of `msg`.
pub open spec fn spec_verify<D: SigDigest>(vk: Seq<ChainPair>, msg: Seq<u8>, sig: Seq<ChainPair>) -> bool {
    &&& vk.len() == D::out_len()
    &&& sig.len() == vk.len()
    &&& forall|i: int| 0 <= i < vk.len() ==>
        #[trigger] spec_byte_verify::<D>(vk[i], D::hash_of(msg)[i], sig[i])
}

/// Secret key for signing a single byte value: two independently generated
/// seeds of the digest's output length. One-time use: `sign` consumes it.
pub struct HashOneTimeByteSK<D: SigDigest> {
    /// Seed of the low chain.
    pub low: Vec<u8>,
    /// Seed of the high chain.
    pub high: Vec<u8>,
    /// Binds the key to its digest function.
    pub marker: PhantomData<D>,
}

/// Verification key for a single byte value: the two chain endpoints.
/// Public and freely reusable for verification.
pub struct HashOneTimeByteVK<D: SigDigest> {
    /// Endpoint of the low chain.
    pub low: Vec<u8>,
    /// Endpoint of the high chain.
    pub high: Vec<u8>,
    /// Binds the key to its digest function.
    pub marker: PhantomData<D>,
}

/// Signature over a single byte value: one revealed point per chain.
pub struct HashOneTimeByteSig<D: SigDigest> {
    /// Low chain at depth `value`.
    pub low: Vec<u8>,
    /// High chain at depth `256 - value`.
    pub high: Vec<u8>,
    /// Binds the signature to its digest function.
    pub marker: PhantomData<D>,
}

impl<D: SigDigest> View for HashOneTimeByteSK<D> {
    type V = ChainPair;

    open spec fn view(&self) -> ChainPair {
        ChainPair { low: self.low@, high: self.high@ }
    }
}

impl<D: SigDigest> View for HashOneTimeByteVK<D> {
    type V = ChainPair;

    open spec fn view(&self) -> ChainPair {
        ChainPair { low: self.low@, high: self.high@ }
    }
}

impl<D: SigDigest> View for HashOneTimeByteSig<D> {
    type V = ChainPair;

    open spec fn view(&self) -> ChainPair {
        ChainPair { low: self.low@, high: self.high@ }
    }
}

impl<D: SigDigest> HashOneTimeByteSK<D> {
    /// Both seeds have the digest's output length.
    pub open spec fn wf(&self) -> bool {
        wf_pair::<D>(self@)
    }

    /// Build a key from two seeds of the digest's output length. The seeds
    /// must come independently from a cryptographically secure random
    /// source; this is the caller's responsibility.
    pub fn from_seeds(low: Vec<u8>, high: Vec<u8>) -> (sk: Self)
        requires
            low@.len() == D::out_len(),
            high@.len() == D::out_len(),
        ensures
            sk@ == (ChainPair { low: low@, high: high@ }),
            sk.wf(),
    {
        HashOneTimeByteSK { low, high, marker: PhantomData }
    }

    /// Sign the byte `a`, consuming the key.
    pub fn sign(self, a: u8) -> (sig: HashOneTimeByteSig<D>)
        requires
            self.wf(),
        ensures
            sig@ == spec_byte_sign::<D>(self@, a),
            sig.wf(),
    {
        let sig = HashOneTimeByteSig {
            low: chain_hashes::<D>(self.low.as_slice(), a as u16),
            high: chain_hashes::<D>(self.high.as_slice(), 256 - (a as u16)),
            marker: PhantomData,
        };
        proof {
            assert(sig@ =~= spec_byte_sign::<D>(self@, a));
            if a as nat > 0 {
                lemma_chain_len::<D>(self@.low, a as nat);
            }
            lemma_chain_len::<D>(self@.high, (256 - a as int) as nat);
        }
        sig
    }

    /// Derive the verification key: both chains walked to their endpoint at
    /// depth 256. Does not consume the key.
    pub fn to_vk(&self) -> (vk: HashOneTimeByteVK<D>)
        ensures
            vk@ == spec_byte_vk::<D>(self@),
            vk.wf(),
    {
        let vk = HashOneTimeByteVK {
            low: chain_hashes::<D>(self.low.as_slice(), 256),
            high: chain_hashes::<D>(self.high.as_slice(), 256),
            marker: PhantomData,
        };
        proof {
            assert(vk@ =~= spec_byte_vk::<D>(self@));
            lemma_chain_len::<D>(self@.low, 256);
            lemma_chain_len::<D>(self@.high, 256);
        }
        vk
    }
}

impl<D: SigDigest> HashOneTimeByteVK<D> {
    /// Both endpoints have the digest's output length.
    pub open spec fn wf(&self) -> bool {
        wf_pair::<D>(self@)
    }

    /// Check a signature for byte `a`. Total: any mismatch gives `false`,
    /// never an error.
    pub fn verify(&self, a: u8, sig: &HashOneTimeByteSig<D>) -> (r: bool)
        ensures
            r == spec_byte_verify::<D>(self@, a, sig@),
    {
        let lo = chain_hashes::<D>(sig.low.as_slice(), 256 - (a as u16));
        let hi = chain_hashes::<D>(sig.high.as_slice(), a as u16);
        let ok_low = bytes_eq(lo.as_slice(), self.low.as_slice());
        let ok_high = bytes_eq(hi.as_slice(), self.high.as_slice());
        ok_low && ok_high
    }
}

impl<D: SigDigest> HashOneTimeByteSig<D> {
    /// Both revealed points have the digest's output length.
    pub open spec fn wf(&self) -> bool {
        wf_pair::<D>(self@)
    }
}

/// Secret key for signing a whole message: one per-byte secret key for every
/// byte position of the digest output. One-time use: `sign` consumes it, and
/// with it every per-byte key.
pub struct HashOneTimeSK<D: SigDigest> {
    /// One per-byte secret key per digest byte position.
    pub parts: Vec<HashOneTimeByteSK<D>>,
}

/// Composite verification key: one per-byte verification key per position.
pub struct HashOneTimeVK<D: SigDigest> {
    /// One per-byte verification key per digest byte position.
    pub parts: Vec<HashOneTimeByteVK<D>>,
}

/// Composite signature: one per-byte signature per position.
pub struct HashOneTimeSig<D: SigDigest> {
    /// One per-byte signature per digest byte position.
    pub parts: Vec<HashOneTimeByteSig<D>>,
}

impl<D: SigDigest> View for HashOneTimeSK<D> {
    type V = Seq<ChainPair>;

    open spec fn view(&self) -> Seq<ChainPair> {
        Seq::new(self.parts@.len(), |i: int| self.parts@[i]@)
    }
}

impl<D: SigDigest> View for HashOneTimeVK<D> {
    type V = Seq<ChainPair>;

    open spec fn view(&self) -> Seq<ChainPair> {
        Seq::new(self.parts@.len(), |i: int| self.parts@[i]@)
    }
}

impl<D: SigDigest> View for HashOneTimeSig<D> {
    type V = Seq<ChainPair>;

    open spec fn view(&self) -> Seq<ChainPair> {
        Seq::new(self.parts@.len(), |i: int| self.parts@[i]@)
    }
}

impl<D: SigDigest> HashOneTimeSK<D> {
    /// One part per digest byte, each with seeds of the output length.
    pub open spec fn wf(&self) -> bool {
        self@.len() == D::out_len()
            && forall|i: int| 0 <= i < self@.len() ==> wf_pair::<D>(#[trigger] self@[i])
    }

    /// Build a composite key from one per-byte key per digest position.
    pub fn from_parts(parts: Vec<HashOneTimeByteSK<D>>) -> (sk: Self)
        requires
            parts@.len() == D::out_len(),
            forall|i: int| 0 <= i < parts@.len() ==> (#[trigger] parts@[i]).wf(),
        ensures
            sk.parts@ == parts@,
            sk.wf(),
    {
        HashOneTimeSK { parts }
    }

    /// Sign `message`, consuming the key: digest the message, then sign each
    /// digest byte with the per-byte key at its position.
    pub fn sign(self, message: &[u8]) -> (sig: HashOneTimeSig<D>)
        requires
            self.wf(),
        ensures
            sig@ == spec_sign::<D>(self@, message@),
            sig.wf(),
    {
        let mut d = D::new();
        d.update(message);
        proof {
            assert(d.fed() =~= message@);
        }
        self.sign_live(d)
    }

    /// Sign with a digest state already primed with the message bytes,
    /// consuming both. Identical to `sign` on the bytes the state absorbed.
    pub fn sign_live(self, a: D) -> (sig: HashOneTimeSig<D>)
        requires
            self.wf(),
            a.inv(),
        ensures
            sig@ == spec_sign::<D>(self@, a.fed()),
            sig.wf(),
    {
        let ghost msg = a.fed();
        let digest = a.finalize();
        proof {
            D::lemma_hash_len(msg);
        }
        let mut parts: Vec<HashOneTimeByteSig<D>> = Vec::new();
        let mut i: usize = 0;
        while i < digest.len()
            invariant
                self.wf(),
                digest@ == D::hash_of(msg),
                digest@.len() == D::out_len(),
                i <= digest@.len(),
                parts@.len() == i,
                forall|j: int| 0 <= j < i ==>
                    (#[trigger] parts@[j])@ == spec_byte_sign::<D>(self@[j], digest@[j]),
                forall|j: int| 0 <= j < i ==> wf_pair::<D>((#[trigger] parts@[j])@),
            decreases digest@.len() - i,
        {
            let p = &self.parts[i];
            let b = digest[i];
            let s = HashOneTimeByteSig {
                low: chain_hashes::<D>(p.low.as_slice(), b as u16),
                high: chain_hashes::<D>(p.high.as_slice(), 256 - (b as u16)),
                marker: PhantomData,
            };
            proof {
                assert(s@ =~= spec_byte_sign::<D>(self@[i as int], b));
                if b as nat > 0 {
                    lemma_chain_len::<D>(p@.low, b as nat);
                }
                lemma_chain_len::<D>(p@.high, (256 - b as int) as nat);
            }
            parts.push(s);
            i = i + 1;
        }
        let sig = HashOneTimeSig { parts };
        proof {
            assert(sig@ =~= spec_sign::<D>(self@, msg));
        }
        sig
    }

    /// Derive the composite verification key, position by position. Does not
    /// consume the key.
    pub fn to_vk(&self) -> (vk: HashOneTimeVK<D>)
        requires
            self.wf(),
        ensures
            vk@ == spec_to_vk::<D>(self@),
            vk.wf(),
    {
        let mut parts: Vec<HashOneTimeByteVK<D>> = Vec::new();
        let mut i: usize = 0;
        while i < self.parts.len()
            invariant
                self.wf(),
                i <= self.parts@.len(),
                parts@.len() == i,
                forall|j: int| 0 <= j < i ==>
                    (#[trigger] parts@[j])@ == spec_byte_vk::<D>(self@[j]),
                forall|j: int| 0 <= j < i ==> wf_pair::<D>((#[trigger] parts@[j])@),
            decreases self.parts@.len() - i,
        {
            let v = self.parts[i].to_vk();
            parts.push(v);
            i = i + 1;
        }
        let vk = HashOneTimeVK { parts };
        proof {
            assert(vk@ =~= spec_to_vk::<D>(self@));
        }
        vk
    }
}

impl<D: SigDigest> HashOneTimeVK<D> {
    /// One part per digest byte, each with endpoints of the output length.
    pub open spec fn wf(&self) -> bool {
        self@.len() == D::out_len()
            && forall|i: int| 0 <= i < self@.len() ==> wf_pair::<D>(#[trigger] self@[i])
    }

    /// Verify a signature over `message`: recompute the digest and check
    /// every byte position; true iff all positions match. Total: any
    /// mismatch, of content or shape, gives `false`, never an error.
    pub fn verify(&self, message: &[u8], sig: &HashOneTimeSig<D>) -> (r: bool)
        ensures
            r == spec_verify::<D>(self@, message@, sig@),
    {
        let mut d = D::new();
        d.update(message);
        proof {
            assert(d.fed() =~= message@);
        }
        self.verify_live(d, sig)
    }

    /// Verify with a digest state already primed with the message bytes.
    /// Identical to `verify` on the bytes the state absorbed.
    pub fn verify_live(&self, a: D, sig: &HashOneTimeSig<D>) -> (r: bool)
        requires
            a.inv(),
        ensures
            r == spec_verify::<D>(self@, a.fed(), sig@),
    {
        let ghost msg = a.fed();
        let digest = a.finalize();
        proof {
            D::lemma_hash_len(msg);
        }
        if self.parts.len() != digest.len() || sig.parts.len() != digest.len() {
            proof {
                assert(self@.len() == self.parts@.len());
                assert(sig@.len() == sig.parts@.len());
                assert(!(self@.len() == D::out_len() && sig@.len() == self@.len()));
            }
            return false;
        }
        let mut i: usize = 0;
        while i < digest.len()
            invariant
                msg == a.fed(),
                digest@ == D::hash_of(msg),
                digest@.len() == D::out_len(),
                self@.len() == digest@.len(),
                sig@.len() == digest@.len(),
                i <= digest@.len(),
                forall|j: int| 0 <= j < i ==>
                    #[trigger] spec_byte_verify::<D>(self@[j], digest@[j], sig@[j]),
            decreases digest@.len() - i,
        {
            let ok = self.parts[i].verify(digest[i], &sig.parts[i]);
            if !ok {
                proof {
                    assert(!spec_byte_verify::<D>(
                        self@[i as int],
                        D::hash_of(msg)[i as int],
                        sig@[i as int],
                    ));
                }
                return false;
            }
            i = i + 1;
        }
        true
    }
}

impl<D: SigDigest> HashOneTimeSig<D> {
    /// One part per digest byte, each with points of the output length.
    pub open spec fn wf(&self) -> bool {
        self@.len() == D::out_len()
            && forall|i: int| 0 <= i < self@.len() ==> wf_pair::<D>(#[trigger] self@[i])
    }
}

/// Chain-depth identity: hashing the revealed low point the remaining
/// `256 - a` times, or the revealed high point `a` times, lands on the
/// respective chain endpoint at depth 256, for every byte value `a`.
pub proof fn lemma_chain_depth_identity<D: SigDigest>(sk: ChainPair, a: u8)
    ensures
        chain::<D>(spec_byte_sign::<D>(sk, a).low, (256 - a as int) as nat)
            == chain::<D>(sk.low, 256),
        chain::<D>(spec_byte_sign::<D>(sk, a).high, a as nat)
            == chain::<D>(sk.high, 256),
{
    lemma_chain_add::<D>(sk.low, a as nat, (256 - a as int) as nat);
    lemma_chain_add::<D>(sk.high, (256 - a as int) as nat, a as nat);
}

/// Per-byte round trip: a signature produced for value `a` verifies against
/// the verification key derived from the same secret key.
pub proof fn lemma_byte_round_trip<D: SigDigest>(sk: ChainPair, a: u8)
    ensures
        spec_byte_verify::<D>(spec_byte_vk::<D>(sk), a, spec_byte_sign::<D>(sk, a)),
{
    lemma_chain_depth_identity::<D>(sk, a);
}

/// Round trip: for any composite secret key and any message, the signature
/// produced by signing verifies against the derived verification key.
pub proof fn lemma_round_trip<D: SigDigest>(sk: Seq<ChainPair>, msg: Seq<u8>)
    requires
        sk.len() == D::out_len(),
    ensures
        spec_verify::<D>(spec_to_vk::<D>(sk), msg, spec_sign::<D>(sk, msg)),
{
    assert forall|i: int| 0 <= i < sk.len() implies #[trigger] spec_byte_verify::<D>(
        spec_to_vk::<D>(sk)[i],
        D::hash_of(msg)[i],
        spec_sign::<D>(sk, msg)[i],
    ) by {
        lemma_byte_round_trip::<D>(sk[i], D::hash_of(msg)[i]);
    }
}

/// A composite signature fails verification as soon as any single position
/// fails its per-byte check: verification is the conjunction over positions.
pub proof fn lemma_single_position_failure<D: SigDigest>(
    vk: Seq<ChainPair>,
    msg: Seq<u8>,
    sig: Seq<ChainPair>,
    i: int,
)
    requires
        0 <= i < vk.len(),
        !spec_byte_verify::<D>(vk[i], D::hash_of(msg)[i], sig[i]),
    ensures
        !spec_verify::<D>(vk, msg, sig),
{
}

/// Positions do not interfere: the per-byte check at a position reads only
/// that position, so it gives the same answer for two composite signatures
/// that agree there, whatever they hold elsewhere.
pub proof fn lemma_non_interference<D: SigDigest>(
    vk: Seq<ChainPair>,
    msg: Seq<u8>,
    sig1: Seq<ChainPair>,
    sig2: Seq<ChainPair>,
    j: int,
)
    requires
        0 <= j < vk.len(),
        0 <= j < sig1.len(),
        0 <= j < sig2.len(),
        sig1[j] == sig2[j],
    ensures
        spec_byte_verify::<D>(vk[j], D::hash_of(msg)[j], sig1[j])
            == spec_byte_verify::<D>(vk[j], D::hash_of(msg)[j], sig2[j]),
{
}

} // verus!
