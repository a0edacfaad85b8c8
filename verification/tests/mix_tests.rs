use hash_ots::hash::{bytes_eq, copy_bytes, digest_of, SigDigest};
use hash_ots::mix::{Mix16, Mix32};

#[test]
fn mix32_output_length() {
    assert_eq!(Mix32::output_len(), 4);
    assert_eq!(digest_of::<Mix32>(b"").len(), 4);
    assert_eq!(digest_of::<Mix32>(b"some longer input data").len(), 4);
}

#[test]
fn mix32_empty_input_exact() {
    // The digest of nothing is the seed state 2166136261, big end first.
    assert_eq!(digest_of::<Mix32>(b""), vec![0x81, 0x1C, 0x9D, 0xC5]);
}

#[test]
fn mix32_deterministic() {
    assert_eq!(digest_of::<Mix32>(b"abc"), digest_of::<Mix32>(b"abc"));
    assert_ne!(digest_of::<Mix32>(b"abc"), digest_of::<Mix32>(b"abd"));
}

#[test]
fn mix32_streaming_matches_oneshot() {
    let msg = b"fed in three separate slices";
    let mut d = Mix32::new();
    d.update(&msg[..5]);
    d.update(&msg[5..20]);
    d.update(&msg[20..]);
    assert_eq!(d.finalize(), digest_of::<Mix32>(msg));
}

#[test]
fn mix16_output_length() {
    assert_eq!(Mix16::output_len(), 2);
    assert_eq!(digest_of::<Mix16>(b"whatever").len(), 2);
}

#[test]
fn mix16_exact_values() {
    // One absorb step from seed 0: state = b + 1.
    assert_eq!(digest_of::<Mix16>(&[7]), vec![0, 8]);
    assert_eq!(digest_of::<Mix16>(&[255]), vec![1, 0]);
    // Two steps: state = 256 * (b0 + 1) + b1 + 1, so "ab" gives [98, 99].
    assert_eq!(digest_of::<Mix16>(b"ab"), vec![98, 99]);
}

#[test]
fn byte_helpers() {
    let v = copy_bytes(b"abc");
    assert_eq!(v, b"abc".to_vec());
    assert!(bytes_eq(b"abc", &v));
    assert!(!bytes_eq(b"abc", b"abd"));
    assert!(!bytes_eq(b"abc", b"ab"));
}
