//! Fixed-length binary encoding of keys and signatures.
//!
//! A per-byte key, verification key or signature encodes as exactly
//! `2 * H_LEN` bytes, `low` then `high`, where `H_LEN` is the digest's
//! output length; a composite one as `H_LEN` consecutive per-byte encodings
//! in position order. There are no length prefixes, no framing and no
//! checksums. Decoding reads exactly the expected byte count from the front
//! of its input and fails with a short-read error if fewer bytes are there.

use core::marker::PhantomData;
use vstd::prelude::*;
use vstd::slice::slice_subrange;

use crate::hash::{copy_bytes, SigDigest};
use crate::one_time::{
    wf_pair, ChainPair, HashOneTimeByteSK, HashOneTimeByteSig, HashOneTimeByteVK, HashOneTimeSK,
    HashOneTimeSig, HashOneTimeVK,
};

verus! {

/// The single way decoding can fail: the byte source ended before the
/// expected fixed number of bytes was supplied.
#[derive(Debug, Clone, Copy, PartialEq, Eq)]
pub enum DecodeError {
    /// The input held fewer bytes than the encoding needs.
    ShortRead,
}

/// The encoding of one chain pair: `low` then `high`.
pub open spec fn spec_encode_pair(p: ChainPair) -> Seq<u8> {
    p.low + p.high
}

/// The encoding of a sequence of chain pairs, in position order.
pub open spec fn spec_encode_seq(s: Seq<ChainPair>) -> Seq<u8>
    decreases s.len(),
{
    if s.len() == 0 {
        Seq::empty()
    } else {
        spec_encode_pair(s.first()) + spec_encode_seq(s.drop_first())
    }
}

/// The chain pair read from position `i` of an encoded sequence: `2 * H_LEN`
/// bytes starting at offset `2 * H_LEN * i`, split in the middle.
pub open spec fn spec_decode_pair<D: SigDigest>(bytes: Seq<u8>, i: int) -> ChainPair {
    let l = D::out_len() as int;
    ChainPair {
        low: bytes.subrange(2 * l * i, 2 * l * i + l),
        high: bytes.subrange(2 * l * i + l, 2 * l * i + 2 * l),
    }
}

/// Appending a pair to a sequence appends its encoding.
pub proof fn lemma_encode_seq_push(s: Seq<ChainPair>, p: ChainPair)
    ensures
        spec_encode_seq(s.push(p)) == spec_encode_seq(s) + spec_encode_pair(p),
    decreases s.len(),
{
    if s.len() == 0 {
        assert(s.push(p).drop_first() =~= Seq::<ChainPair>::empty());
        assert(s.push(p).first() == p);
        assert(spec_encode_seq(s.push(p)) == spec_encode_pair(p) + spec_encode_seq(
            Seq::<ChainPair>::empty(),
        ));
        assert(spec_encode_pair(p) + Seq::<u8>::empty() =~= spec_encode_pair(p));
        assert(Seq::<u8>::empty() + spec_encode_pair(p) =~= spec_encode_pair(p));
    } else {
        assert(s.push(p).drop_first() =~= s.drop_first().push(p));
        assert(s.push(p).first() == s.first());
        assert(spec_encode_seq(s.push(p)) == spec_encode_pair(s.first()) + spec_encode_seq(
            s.drop_first().push(p),
        ));
        lemma_encode_seq_push(s.drop_first(), p);
        assert(spec_encode_seq(s) == spec_encode_pair(s.first()) + spec_encode_seq(
            s.drop_first(),
        ));
        assert(spec_encode_pair(s.first()) + (spec_encode_seq(s.drop_first())
            + spec_encode_pair(p)) =~= (spec_encode_pair(s.first())
            + spec_encode_seq(s.drop_first())) + spec_encode_pair(p));
    }
}

/// The encoding of `n` well-formed pairs is `2 * H_LEN * n` bytes long.
pub proof fn lemma_encode_seq_len<D: SigDigest>(s: Seq<ChainPair>)
    requires
        forall|i: int| 0 <= i < s.len() ==> wf_pair::<D>(#[trigger] s[i]),
    ensures
        spec_encode_seq(s).len() == 2 * D::out_len() * s.len(),
    decreases s.len(),
{
    let l = D::out_len() as int;
    let n = s.len() as int;
    if s.len() == 0 {
    } else {
        assert(wf_pair::<D>(s[0]));
        assert(forall|i: int| 0 <= i < s.drop_first().len() ==> wf_pair::<D>(
            #[trigger] s.drop_first()[i],
        ));
        lemma_encode_seq_len::<D>(s.drop_first());
        assert(2 * l + 2 * l * (n - 1) == 2 * l * n) by (nonlinear_arith);
    }
}

/// The binary format loses nothing: decoding an encoded pair gives the
/// pair back.
pub proof fn lemma_pair_codec_round_trip<D: SigDigest>(p: ChainPair)
    requires
        wf_pair::<D>(p),
    ensures
        spec_decode_pair::<D>(spec_encode_pair(p), 0) == p,
{
    let l = D::out_len() as int;
    let bytes = spec_encode_pair(p);
    assert(bytes.subrange(0, l) =~= p.low);
    assert(bytes.subrange(l, 2 * l) =~= p.high);
    assert(spec_decode_pair::<D>(bytes, 0) =~= p);
}

/// The binary format loses nothing at any position: decoding position `i`
/// of an encoded sequence of well-formed pairs gives that position back.
pub proof fn lemma_seq_codec_round_trip<D: SigDigest>(s: Seq<ChainPair>, i: int)
    requires
        forall|j: int| 0 <= j < s.len() ==> wf_pair::<D>(#[trigger] s[j]),
        0 <= i < s.len(),
    ensures
        spec_decode_pair::<D>(spec_encode_seq(s), i) == s[i],
    decreases i,
{
    let l = D::out_len() as int;
    let bytes = spec_encode_seq(s);
    if i == 0 {
        assert(bytes.subrange(0, l) =~= s[0].low);
        assert(bytes.subrange(l, 2 * l) =~= s[0].high);
        assert(spec_decode_pair::<D>(bytes, 0) =~= s[0]);
    } else {
        let rest = s.drop_first();
        let rbytes = spec_encode_seq(rest);
        assert(forall|j: int| 0 <= j < rest.len() ==> wf_pair::<D>(#[trigger] rest[j]));
        lemma_seq_codec_round_trip::<D>(rest, i - 1);
        lemma_encode_seq_len::<D>(rest);
        assert(2 * l * i - 2 * l == 2 * l * (i - 1)) by (nonlinear_arith);
        assert(2 * l * (i - 1) + 2 * l <= 2 * l * rest.len()) by (nonlinear_arith)
            requires 0 <= l, 1 <= i, i - 1 < rest.len(),
        ;
        assert(bytes.subrange(2 * l * i, 2 * l * i + l) =~= rbytes.subrange(
            2 * l * (i - 1),
            2 * l * (i - 1) + l,
        ));
        assert(bytes.subrange(2 * l * i + l, 2 * l * i + 2 * l) =~= rbytes.subrange(
            2 * l * (i - 1) + l,
            2 * l * (i - 1) + 2 * l,
        ));
        assert(spec_decode_pair::<D>(bytes, i) =~= spec_decode_pair::<D>(rbytes, i - 1));
        assert(rest[i - 1] == s[i]);
    }
}

/// Concatenate the two halves of a pair: `low` then `high`.
fn pair_to_bytes(low: &Vec<u8>, high: &Vec<u8>) -> (r: Vec<u8>)
    ensures
        r@ == low@ + high@,
{
    let mut r = copy_bytes(low.as_slice());
    let mut h = copy_bytes(high.as_slice());
    r.append(&mut h);
    r
}

/// Split `2 * len` bytes off the front of `bytes` into two halves of `len`
/// bytes each; a short read if fewer are there.
fn pair_from_bytes(bytes: &[u8], len: usize) -> (r: Result<(Vec<u8>, Vec<u8>), DecodeError>)
    ensures
        r is Ok <==> bytes@.len() >= 2 * len,
        r is Ok ==> (r->Ok_0).0@ == bytes@.subrange(0, len as int),
        r is Ok ==> (r->Ok_0).1@ == bytes@.subrange(len as int, 2 * (len as int)),
        r is Err ==> r->Err_0 == DecodeError::ShortRead,
{
    if bytes.len() < len {
        return Err(DecodeError::ShortRead);
    }
    if bytes.len() - len < len {
        return Err(DecodeError::ShortRead);
    }
    let low = copy_bytes(slice_subrange(bytes, 0, len));
    let high = copy_bytes(slice_subrange(bytes, len, len + len));
    Ok((low, high))
}

/// Read `H_LEN` consecutive pair encodings off the front of `bytes`; a short
/// read if fewer than `2 * H_LEN * H_LEN` bytes are there.
fn pairs_from_bytes<D: SigDigest>(bytes: &[u8]) -> (r: Result<
    Vec<(Vec<u8>, Vec<u8>)>,
    DecodeError,
>)
    ensures
        r is Ok <==> bytes@.len() >= 2 * D::out_len() * D::out_len(),
        r is Ok ==> (r->Ok_0)@.len() == D::out_len(),
        r is Ok ==> forall|i: int| 0 <= i < D::out_len() ==> {
            &&& (#[trigger] (r->Ok_0)@[i]).0@ == spec_decode_pair::<D>(bytes@, i).low
            &&& (r->Ok_0)@[i].1@ == spec_decode_pair::<D>(bytes@, i).high
            &&& (r->Ok_0)@[i].0@.len() == D::out_len()
            &&& (r->Ok_0)@[i].1@.len() == D::out_len()
        },
        r is Err ==> r->Err_0 == DecodeError::ShortRead,
{
    let l = D::output_len();
    let mut pairs: Vec<(Vec<u8>, Vec<u8>)> = Vec::new();
    let mut off: usize = 0;
    let mut i: usize = 0;
    while i < l
        invariant
            l as nat == D::out_len(),
            i <= l,
            off as int == 2 * (l as int) * (i as int),
            off <= bytes@.len(),
            pairs@.len() == i,
            forall|j: int| 0 <= j < i ==> {
                &&& (#[trigger] pairs@[j]).0@ == spec_decode_pair::<D>(bytes@, j).low
                &&& pairs@[j].1@ == spec_decode_pair::<D>(bytes@, j).high
                &&& pairs@[j].0@.len() == D::out_len()
                &&& pairs@[j].1@.len() == D::out_len()
            },
        decreases l - i,
    {
        let rem = bytes.len() - off;
        if rem < l || rem - l < l {
            proof {
                let li = l as int;
                let ii = i as int;
                assert(bytes@.len() < 2 * li * ii + 2 * li);
                assert(2 * li * ii + 2 * li == 2 * li * (ii + 1)) by (nonlinear_arith);
                assert(2 * li * (ii + 1) <= 2 * li * li) by (nonlinear_arith)
                    requires 0 <= ii, ii < li,
                ;
            }
            return Err(DecodeError::ShortRead);
        }
        let low = copy_bytes(slice_subrange(bytes, off, off + l));
        let high = copy_bytes(slice_subrange(bytes, off + l, off + l + l));
        pairs.push((low, high));
        proof {
            let li = l as int;
            let ii = i as int;
            assert(2 * li * ii + 2 * li == 2 * li * (ii + 1)) by (nonlinear_arith);
        }
        off = off + l + l;
        i = i + 1;
    }
    proof {
        let li = l as int;
        assert(2 * li * li == 2 * D::out_len() * D::out_len());
    }
    Ok(pairs)
}

impl<D: SigDigest> HashOneTimeByteSK<D> {
    /// Encode as exactly `2 * H_LEN` bytes: `low` then `high`.
    pub fn to_bytes(&self) -> (r: Vec<u8>)
        ensures
            r@ == spec_encode_pair(self@),
    {
        pair_to_bytes(&self.low, &self.high)
    }

    /// Decode from the front of `bytes`; a short read if fewer than
    /// `2 * H_LEN` bytes are there.
    pub fn from_bytes(bytes: &[u8]) -> (r: Result<Self, DecodeError>)
        ensures
            r is Ok <==> bytes@.len() >= 2 * D::out_len(),
            r is Ok ==> (r->Ok_0)@ == spec_decode_pair::<D>(bytes@, 0) && (r->Ok_0).wf(),
            r is Err ==> r->Err_0 == DecodeError::ShortRead,
    {
        let l = D::output_len();
        match pair_from_bytes(bytes, l) {
            Ok((low, high)) => {
                let k = HashOneTimeByteSK { low, high, marker: PhantomData };
                proof {
                    assert(k@ =~= spec_decode_pair::<D>(bytes@, 0));
                }
                Ok(k)
            },
            Err(e) => Err(e),
        }
    }
}

impl<D: SigDigest> HashOneTimeByteVK<D> {
    /// Encode as exactly `2 * H_LEN` bytes: `low` then `high`.
    pub fn to_bytes(&self) -> (r: Vec<u8>)
        ensures
            r@ == spec_encode_pair(self@),
    {
        pair_to_bytes(&self.low, &self.high)
    }

    /// Decode from the front of `bytes`; a short read if fewer than
    /// `2 * H_LEN` bytes are there.
    pub fn from_bytes(bytes: &[u8]) -> (r: Result<Self, DecodeError>)
        ensures
            r is Ok <==> bytes@.len() >= 2 * D::out_len(),
            r is Ok ==> (r->Ok_0)@ == spec_decode_pair::<D>(bytes@, 0) && (r->Ok_0).wf(),
            r is Err ==> r->Err_0 == DecodeError::ShortRead,
    {
        let l = D::output_len();
        match pair_from_bytes(bytes, l) {
            Ok((low, high)) => {
                let k = HashOneTimeByteVK { low, high, marker: PhantomData };
                proof {
                    assert(k@ =~= spec_decode_pair::<D>(bytes@, 0));
                }
                Ok(k)
            },
            Err(e) => Err(e),
        }
    }
}

impl<D: SigDigest> HashOneTimeByteSig<D> {
    /// Encode as exactly `2 * H_LEN` bytes: `low` then `high`.
    pub fn to_bytes(&self) -> (r: Vec<u8>)
        ensures
            r@ == spec_encode_pair(self@),
    {
        pair_to_bytes(&self.low, &self.high)
    }

    /// Decode from the front of `bytes`; a short read if fewer than
    /// `2 * H_LEN` bytes are there.
    pub fn from_bytes(bytes: &[u8]) -> (r: Result<Self, DecodeError>)
        ensures
            r is Ok <==> bytes@.len() >= 2 * D::out_len(),
            r is Ok ==> (r->Ok_0)@ == spec_decode_pair::<D>(bytes@, 0) && (r->Ok_0).wf(),
            r is Err ==> r->Err_0 == DecodeError::ShortRead,
    {
        let l = D::output_len();
        match pair_from_bytes(bytes, l) {
            Ok((low, high)) => {
                let s = HashOneTimeByteSig { low, high, marker: PhantomData };
                proof {
                    assert(s@ =~= spec_decode_pair::<D>(bytes@, 0));
                }
                Ok(s)
            },
            Err(e) => Err(e),
        }
    }
}

impl<D: SigDigest> HashOneTimeSK<D> {
    /// Encode as `H_LEN` consecutive per-byte encodings in position order.
    pub fn to_bytes(&self) -> (r: Vec<u8>)
        ensures
            r@ == spec_encode_seq(self@),
    {
        let mut out: Vec<u8> = Vec::new();
        let mut i: usize = 0;
        while i < self.parts.len()
            invariant
                i <= self.parts@.len(),
                out@ == spec_encode_seq(self@.take(i as int)),
            decreases self.parts@.len() - i,
        {
            let p = &self.parts[i];
            let mut enc = pair_to_bytes(&p.low, &p.high);
            out.append(&mut enc);
            proof {
                assert(self@.take(i + 1) =~= self@.take(i as int).push(self@[i as int]));
                lemma_encode_seq_push(self@.take(i as int), self@[i as int]);
            }
            i = i + 1;
        }
        proof {
            assert(self@.take(self@.len() as int) =~= self@);
        }
        out
    }

    /// Decode from the front of `bytes`; a short read if fewer than
    /// `2 * H_LEN * H_LEN` bytes are there.
    pub fn from_bytes(bytes: &[u8]) -> (r: Result<Self, DecodeError>)
        ensures
            r is Ok <==> bytes@.len() >= 2 * D::out_len() * D::out_len(),
            r is Ok ==> (r->Ok_0)@.len() == D::out_len(),
            r is Ok ==> forall|i: int| 0 <= i < D::out_len() ==>
                (#[trigger] (r->Ok_0)@[i]) == spec_decode_pair::<D>(bytes@, i),
            r is Ok ==> (r->Ok_0).wf(),
            r is Err ==> r->Err_0 == DecodeError::ShortRead,
    {
        let pairs = match pairs_from_bytes::<D>(bytes) {
            Ok(ps) => ps,
            Err(e) => {
                return Err(e);
            },
        };
        let mut parts: Vec<HashOneTimeByteSK<D>> = Vec::new();
        let mut i: usize = 0;
        while i < pairs.len()
            invariant
                pairs@.len() == D::out_len(),
                forall|j: int| 0 <= j < pairs@.len() ==> {
                    &&& (#[trigger] pairs@[j]).0@ == spec_decode_pair::<D>(bytes@, j).low
                    &&& pairs@[j].1@ == spec_decode_pair::<D>(bytes@, j).high
                    &&& pairs@[j].0@.len() == D::out_len()
                    &&& pairs@[j].1@.len() == D::out_len()
                },
                i <= pairs@.len(),
                parts@.len() == i,
                forall|j: int| 0 <= j < i ==>
                    (#[trigger] parts@[j])@ == spec_decode_pair::<D>(bytes@, j),
                forall|j: int| 0 <= j < i ==> wf_pair::<D>((#[trigger] parts@[j])@),
            decreases pairs@.len() - i,
        {
            let k = HashOneTimeByteSK {
                low: copy_bytes(pairs[i].0.as_slice()),
                high: copy_bytes(pairs[i].1.as_slice()),
                marker: PhantomData,
            };
            proof {
                assert(k@ =~= spec_decode_pair::<D>(bytes@, i as int));
            }
            parts.push(k);
            i = i + 1;
        }
        let k = HashOneTimeSK { parts };
        proof {
            assert forall|i: int| 0 <= i < k@.len() implies wf_pair::<D>(#[trigger] k@[i]) by {
                assert(k@[i] == parts@[i]@);
            }
        }
        Ok(k)
    }
}

impl<D: SigDigest> HashOneTimeVK<D> {
    /// Encode as `H_LEN` consecutive per-byte encodings in position order.
    pub fn to_bytes(&self) -> (r: Vec<u8>)
        ensures
            r@ == spec_encode_seq(self@),
    {
        let mut out: Vec<u8> = Vec::new();
        let mut i: usize = 0;
        while i < self.parts.len()
            invariant
                i <= self.parts@.len(),
                out@ == spec_encode_seq(self@.take(i as int)),
            decreases self.parts@.len() - i,
        {
            let p = &self.parts[i];
            let mut enc = pair_to_bytes(&p.low, &p.high);
            out.append(&mut enc);
            proof {
                assert(self@.take(i + 1) =~= self@.take(i as int).push(self@[i as int]));
                lemma_encode_seq_push(self@.take(i as int), self@[i as int]);
            }
            i = i + 1;
        }
        proof {
            assert(self@.take(self@.len() as int) =~= self@);
        }
        out
    }

    /// Decode from the front of `bytes`; a short read if fewer than
    /// `2 * H_LEN * H_LEN` bytes are there.
    pub fn from_bytes(bytes: &[u8]) -> (r: Result<Self, DecodeError>)
        ensures
            r is Ok <==> bytes@.len() >= 2 * D::out_len() * D::out_len(),
            r is Ok ==> (r->Ok_0)@.len() == D::out_len(),
            r is Ok ==> forall|i: int| 0 <= i < D::out_len() ==>
                (#[trigger] (r->Ok_0)@[i]) == spec_decode_pair::<D>(bytes@, i),
            r is Ok ==> (r->Ok_0).wf(),
            r is Err ==> r->Err_0 == DecodeError::ShortRead,
    {
        let pairs = match pairs_from_bytes::<D>(bytes) {
            Ok(ps) => ps,
            Err(e) => {
                return Err(e);
            },
        };
        let mut parts: Vec<HashOneTimeByteVK<D>> = Vec::new();
        let mut i: usize = 0;
        while i < pairs.len()
            invariant
                pairs@.len() == D::out_len(),
                forall|j: int| 0 <= j < pairs@.len() ==> {
                    &&& (#[trigger] pairs@[j]).0@ == spec_decode_pair::<D>(bytes@, j).low
                    &&& pairs@[j].1@ == spec_decode_pair::<D>(bytes@, j).high
                    &&& pairs@[j].0@.len() == D::out_len()
                    &&& pairs@[j].1@.len() == D::out_len()
                },
                i <= pairs@.len(),
                parts@.len() == i,
                forall|j: int| 0 <= j < i ==>
                    (#[trigger] parts@[j])@ == spec_decode_pair::<D>(bytes@, j),
                forall|j: int| 0 <= j < i ==> wf_pair::<D>((#[trigger] parts@[j])@),
            decreases pairs@.len() - i,
        {
            let k = HashOneTimeByteVK {
                low: copy_bytes(pairs[i].0.as_slice()),
                high: copy_bytes(pairs[i].1.as_slice()),
                marker: PhantomData,
            };
            proof {
                assert(k@ =~= spec_decode_pair::<D>(bytes@, i as int));
            }
            parts.push(k);
            i = i + 1;
        }
        let k = HashOneTimeVK { parts };
        proof {
            assert forall|i: int| 0 <= i < k@.len() implies wf_pair::<D>(#[trigger] k@[i]) by {
                assert(k@[i] == parts@[i]@);
            }
        }
        Ok(k)
    }
}

impl<D: SigDigest> HashOneTimeSig<D> {
    /// Encode as `H_LEN` consecutive per-byte encodings in position order.
    pub fn to_bytes(&self) -> (r: Vec<u8>)
        ensures
            r@ == spec_encode_seq(self@),
    {
        let mut out: Vec<u8> = Vec::new();
        let mut i: usize = 0;
        while i < self.parts.len()
            invariant
                i <= self.parts@.len(),
                out@ == spec_encode_seq(self@.take(i as int)),
            decreases self.parts@.len() - i,
        {
            let p = &self.parts[i];
            let mut enc = pair_to_bytes(&p.low, &p.high);
            out.append(&mut enc);
            proof {
                assert(self@.take(i + 1) =~= self@.take(i as int).push(self@[i as int]));
                lemma_encode_seq_push(self@.take(i as int), self@[i as int]);
            }
            i = i + 1;
        }
        proof {
            assert(self@.take(self@.len() as int) =~= self@);
        }
        out
    }

    /// Decode from the front of `bytes`; a short read if fewer than
    /// `2 * H_LEN * H_LEN` bytes are there.
    pub fn from_bytes(bytes: &[u8]) -> (r: Result<Self, DecodeError>)
        ensures
            r is Ok <==> bytes@.len() >= 2 * D::out_len() * D::out_len(),
            r is Ok ==> (r->Ok_0)@.len() == D::out_len(),
            r is Ok ==> forall|i: int| 0 <= i < D::out_len() ==>
                (#[trigger] (r->Ok_0)@[i]) == spec_decode_pair::<D>(bytes@, i),
            r is Ok ==> (r->Ok_0).wf(),
            r is Err ==> r->Err_0 == DecodeError::ShortRead,
    {
        let pairs = match pairs_from_bytes::<D>(bytes) {
            Ok(ps) => ps,
            Err(e) => {
                return Err(e);
            },
        };
        let mut parts: Vec<HashOneTimeByteSig<D>> = Vec::new();
        let mut i: usize = 0;
        while i < pairs.len()
            invariant
                pairs@.len() == D::out_len(),
                forall|j: int| 0 <= j < pairs@.len() ==> {
                    &&& (#[trigger] pairs@[j]).0@ == spec_decode_pair::<D>(bytes@, j).low
                    &&& pairs@[j].1@ == spec_decode_pair::<D>(bytes@, j).high
                    &&& pairs@[j].0@.len() == D::out_len()
                    &&& pairs@[j].1@.len() == D::out_len()
                },
                i <= pairs@.len(),
                parts@.len() == i,
                forall|j: int| 0 <= j < i ==>
                    (#[trigger] parts@[j])@ == spec_decode_pair::<D>(bytes@, j),
                forall|j: int| 0 <= j < i ==> wf_pair::<D>((#[trigger] parts@[j])@),
            decreases pairs@.len() - i,
        {
            let s = HashOneTimeByteSig {
                low: copy_bytes(pairs[i].0.as_slice()),
                high: copy_bytes(pairs[i].1.as_slice()),
                marker: PhantomData,
            };
            proof {
                assert(s@ =~= spec_decode_pair::<D>(bytes@, i as int));
            }
            parts.push(s);
            i = i + 1;
        }
        let k = HashOneTimeSig { parts };
        proof {
            assert forall|i: int| 0 <= i < k@.len() implies wf_pair::<D>(#[trigger] k@[i]) by {
                assert(k@[i] == parts@[i]@);
            }
        }
        Ok(k)
    }
}

} // verus!
