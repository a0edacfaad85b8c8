//! The digest capability that the signature scheme is generic over, and
//! hash chains built from it.

use vstd::prelude::*;

verus! {

/// A deterministic digest function with a fixed output length.
///
/// An implementation wraps a concrete hash function in its incremental
/// "feed bytes, then finalize" form. The two spec members pin the behaviour
/// down: `hash_of` is the digest as a mathematical function of the input
/// bytes, and `out_len` is its fixed output length. `fed` is the sequence of
/// bytes a digest state has absorbed so far, and `inv` is the state's
/// internal consistency, established by `new` and kept by `update`.
pub trait SigDigest: Sized {
    /// Output length of the digest, in bytes.
    spec fn out_len() -> nat;

    /// The digest of `input`, as a mathematical function.
    spec fn hash_of(input: Seq<u8>) -> Seq<u8>;

    /// The bytes this digest state has absorbed so far.
    spec fn fed(&self) -> Seq<u8>;

    /// Internal consistency of a digest state.
    spec fn inv(&self) -> bool;

    /// Every digest output has length `out_len`.
    proof fn lemma_hash_len(input: Seq<u8>)
        ensures
            Self::hash_of(input).len() == Self::out_len(),
    ;

    /// The output length, as a runtime value.
    fn output_len() -> (n: usize)
        ensures
            n as nat == Self::out_len(),
    ;

    /// A fresh digest state that has absorbed nothing.
    fn new() -> (d: Self)
        ensures
            d.inv(),
            d.fed() == Seq::<u8>::empty(),
    ;

    /// Absorb `data` into the state.
    fn update(&mut self, data: &[u8])
        requires
            old(self).inv(),
        ensures
            final(self).inv(),
            final(self).fed() == old(self).fed() + data@,
    ;

    /// Finish, returning the digest of everything absorbed.
    fn finalize(self) -> (r: Vec<u8>)
        requires
            self.inv(),
        ensures
            r@ == Self::hash_of(self.fed()),
    ;
}

/// `seed` hashed `n` times: the point of the hash chain of `D` at depth `n`.
pub open spec fn chain<D: SigDigest>(seed: Seq<u8>, n: nat) -> Seq<u8>
    decreases n,
{
    if n == 0 {
        seed
    } else {
        D::hash_of(chain::<D>(seed, (n - 1) as nat))
    }
}

/// Walking a chain in two legs reaches the same point as in one:
/// `n` further applications after depth `m` land at depth `m + n`.
pub proof fn lemma_chain_add<D: SigDigest>(seed: Seq<u8>, m: nat, n: nat)
    ensures
        chain::<D>(chain::<D>(seed, m), n) == chain::<D>(seed, m + n),
    decreases n,
{
    if n > 0 {
        lemma_chain_add::<D>(seed, m, (n - 1) as nat);
    }
}

/// Every chain point below the seed itself has the digest's output length.
pub proof fn lemma_chain_len<D: SigDigest>(seed: Seq<u8>, n: nat)
    requires
        n >= 1,
    ensures
        chain::<D>(seed, n).len() == D::out_len(),
{
    D::lemma_hash_len(chain::<D>(seed, (n - 1) as nat));
}

/// Digest a byte slice in one call.
pub fn digest_of<D: SigDigest>(data: &[u8]) -> (r: Vec<u8>)
    ensures
        r@ == D::hash_of(data@),
{
    let mut d = D::new();
    d.update(data);
    proof {
        assert(d.fed() =~= data@);
    }
    d.finalize()
}

/// Copy a byte slice into an owned vector.
pub fn copy_bytes(data: &[u8]) -> (r: Vec<u8>)
    ensures
        r@ == data@,
{
    let mut r: Vec<u8> = Vec::new();
    let mut i: usize = 0;
    while i < data.len()
        invariant
            i <= data@.len(),
            r@ == data@.take(i as int),
        decreases data@.len() - i,
    {
        r.push(data[i]);
        proof {
            assert(r@ =~= data@.take(i + 1));
        }
        i = i + 1;
    }
    proof {
        assert(data@.take(data@.len() as int) =~= data@);
    }
    r
}

/// Apply the digest `count` times to `seed`, walking its hash chain down to
/// depth `count`.
pub fn chain_hashes<D: SigDigest>(seed: &[u8], count: u16) -> (r: Vec<u8>)
    ensures
        r@ == chain::<D>(seed@, count as nat),
{
    let mut v = copy_bytes(seed);
    let mut i: u16 = 0;
    while i < count
        invariant
            i <= count,
            v@ == chain::<D>(seed@, i as nat),
        decreases count - i,
    {
        v = digest_of::<D>(v.as_slice());
        i = i + 1;
    }
    v
}

/// Compare two byte slices for equality.
pub fn bytes_eq(a: &[u8], b: &[u8]) -> (r: bool)
    ensures
        r == (a@ == b@),
{
    if a.len() != b.len() {
        return false;
    }
    let mut i: usize = 0;
    while i < a.len()
        invariant
            a@.len() == b@.len(),
            i <= a@.len(),
            forall|j: int| 0 <= j < i ==> a@[j] == b@[j],
        decreases a@.len() - i,
    {
        if a[i] != b[i] {
            return false;
        }
        i = i + 1;
    }
    proof {
        assert(a@ =~= b@);
    }
    true
}

} // verus!
