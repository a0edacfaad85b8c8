use hash_ots::hash::{chain_hashes, digest_of, SigDigest};
use hash_ots::mix::{Mix16, Mix32};
use hash_ots::one_time::{HashOneTimeByteSK, HashOneTimeSK};

fn byte_sk32(tag: u8) -> HashOneTimeByteSK<Mix32> {
    HashOneTimeByteSK::<Mix32>::from_seeds(
        vec![tag, 1, 2, 3],
        vec![tag, 7, 11, 13],
    )
}

fn sk32(tag: u8) -> HashOneTimeSK<Mix32> {
    let mut parts = Vec::new();
    for i in 0..4u8 {
        parts.push(HashOneTimeByteSK::<Mix32>::from_seeds(
            vec![tag, i, 2, i],
            vec![tag, i, 5, i.wrapping_add(9)],
        ));
    }
    HashOneTimeSK::<Mix32>::from_parts(parts)
}

fn sk16(tag: u8) -> HashOneTimeSK<Mix16> {
    let mut parts = Vec::new();
    for i in 0..2u8 {
        parts.push(HashOneTimeByteSK::<Mix16>::from_seeds(
            vec![tag, i],
            vec![tag, i.wrapping_add(100)],
        ));
    }
    HashOneTimeSK::<Mix16>::from_parts(parts)
}

#[test]
fn byte_round_trip_boundary_values() {
    for &v in &[0u8, 1, 128, 255] {
        let sk = byte_sk32(v);
        let vk = sk.to_vk();
        let sig = sk.sign(v);
        assert!(vk.verify(v, &sig));
    }
}

#[test]
fn byte_wrong_value_fails() {
    let sk = byte_sk32(3);
    let vk = sk.to_vk();
    let sig = sk.sign(10);
    assert!(!vk.verify(11, &sig));
    assert!(!vk.verify(9, &sig));
    assert!(vk.verify(10, &sig));
}

#[test]
fn chain_depth_identity() {
    for &v in &[0u8, 1, 128, 255] {
        let low = vec![v, 21, 22, 23];
        let high = vec![v, 31, 32, 33];
        let sk = HashOneTimeByteSK::<Mix32>::from_seeds(low.clone(), high.clone());
        let sig = sk.sign(v);
        assert_eq!(
            chain_hashes::<Mix32>(&sig.low, 256 - (v as u16)),
            chain_hashes::<Mix32>(&low, 256),
        );
        assert_eq!(
            chain_hashes::<Mix32>(&sig.high, v as u16),
            chain_hashes::<Mix32>(&high, 256),
        );
    }
}

#[test]
fn boundary_value_zero() {
    let low = vec![1, 2, 3, 4];
    let high = vec![5, 6, 7, 8];
    let sk = HashOneTimeByteSK::<Mix32>::from_seeds(low.clone(), high.clone());
    let vk = sk.to_vk();
    let sig = sk.sign(0);
    assert_eq!(sig.low, low);
    assert_eq!(sig.high, chain_hashes::<Mix32>(&high, 256));
    assert_eq!(sig.high, vk.high);
}

#[test]
fn boundary_value_max() {
    let low = vec![9, 8, 7, 6];
    let high = vec![5, 4, 3, 2];
    let sk = HashOneTimeByteSK::<Mix32>::from_seeds(low.clone(), high.clone());
    let sig = sk.sign(255);
    assert_eq!(sig.low, chain_hashes::<Mix32>(&low, 255));
    assert_eq!(sig.high, chain_hashes::<Mix32>(&high, 1));
}

#[test]
fn composite_round_trip() {
    for msg in [&b""[..], &b"ab"[..], &b"hello world"[..], &b"a slightly longer message body"[..]] {
        let sk = sk32(42);
        let vk = sk.to_vk();
        let sig = sk.sign(msg);
        assert_eq!(sig.parts.len(), 4);
        assert!(vk.verify(msg, &sig));
    }
}

#[test]
fn streaming_matches_buffer() {
    let msg = b"streamed in several pieces";
    let sig_buf = sk32(7).sign(msg);

    let mut d = Mix32::new();
    d.update(&msg[..9]);
    d.update(&msg[9..]);
    let sig_live = sk32(7).sign_live(d);
    assert_eq!(sig_buf.to_bytes(), sig_live.to_bytes());

    let vk = sk32(7).to_vk();
    let mut d2 = Mix32::new();
    d2.update(&msg[..3]);
    d2.update(&msg[3..]);
    assert!(vk.verify_live(d2, &sig_live));

    let mut d3 = Mix32::new();
    d3.update(b"another message entirely");
    assert!(!vk.verify_live(d3, &sig_live));
}

#[test]
fn tamper_message_fails() {
    let msg: Vec<u8> = b"ab".to_vec();
    let sk = sk32(11);
    let vk = sk.to_vk();
    let sig = sk.sign(&msg);
    for byte in 0..msg.len() {
        for bit in 0..8 {
            let mut bad = msg.clone();
            bad[byte] ^= 1 << bit;
            assert_ne!(digest_of::<Mix32>(&bad), digest_of::<Mix32>(&msg));
            assert!(!vk.verify(&bad, &sig));
        }
    }
}

#[test]
fn tamper_signature_fails() {
    let msg = b"tamper target";
    let vk = sk32(23).to_vk();
    let sig = sk32(23).sign(msg);
    assert!(vk.verify(msg, &sig));
    for p in 0..4 {
        for k in 0..4 {
            let mut tampered = sk32(23).sign(msg);
            tampered.parts[p].low[k] ^= 1;
            assert!(!vk.verify(msg, &tampered));

            let mut tampered = sk32(23).sign(msg);
            tampered.parts[p].high[k] ^= 0x80;
            assert!(!vk.verify(msg, &tampered));
        }
    }
}

#[test]
fn non_interference_across_positions() {
    let msg = b"independent positions";
    let sk = sk32(31);
    let vk = sk.to_vk();
    let digest = digest_of::<Mix32>(msg);

    let corrupt_at = 2;
    let mut sig = sk.sign(msg);
    sig.parts[corrupt_at].low[0] ^= 1;

    assert!(!vk.verify(msg, &sig));
    for j in 0..4 {
        let position_ok = vk.parts[j].verify(digest[j], &sig.parts[j]);
        if j == corrupt_at {
            assert!(!position_ok);
        } else {
            assert!(position_ok);
        }
    }
}

#[test]
fn concrete_scenario_two_byte_digest() {
    let sk = sk16(1);
    let vk = sk.to_vk();
    assert_eq!(digest_of::<Mix16>(b"ab"), vec![98, 99]);
    let sig = sk.sign(b"ab");
    assert_eq!(sig.parts.len(), 2);
    assert!(vk.verify(b"ab", &sig));
    assert!(!vk.verify(b"ac", &sig));
}

#[test]
fn wrong_key_fails() {
    let msg = b"signed with one key";
    let sig = sk32(1).sign(msg);
    let other_vk = sk32(2).to_vk();
    assert!(!other_vk.verify(msg, &sig));
    assert!(sk32(1).to_vk().verify(msg, &sig));
}
