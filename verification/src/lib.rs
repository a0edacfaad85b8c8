//! A Winternitz-style hash-based one-time signature (OTS) scheme.
//!
//! The scheme is built from two layers:
//!
//! * a per-byte one-time signature over a single value in `0..=255`, made of
//!   two independent hash chains of length 256 (`one_time::HashOneTimeByteSK`
//!   and friends), and
//! * its composition across every byte position of a digest output, which
//!   signs arbitrary-length messages by reducing them to a fixed-size digest
//!   first (`one_time::HashOneTimeSK` and friends).
//!
//! The scheme is generic over the digest function through the
//! [`hash::SigDigest`] trait: any deterministic, fixed-output-length hash
//! function can be plugged in. Secret keys are strictly one-time: `sign`
//! consumes the key by value, so reusing it is ruled out by ownership.

pub mod codec;
pub mod hash;
pub mod mix;
pub mod one_time;

pub use hash::SigDigest;
