use hash_ots::codec::DecodeError;
use hash_ots::mix::Mix32;
use hash_ots::one_time::{
    HashOneTimeByteSK, HashOneTimeByteSig, HashOneTimeByteVK, HashOneTimeSK, HashOneTimeSig,
    HashOneTimeVK,
};

fn byte_sk(tag: u8) -> HashOneTimeByteSK<Mix32> {
    HashOneTimeByteSK::<Mix32>::from_seeds(vec![tag, 1, 2, 3], vec![tag, 4, 5, 6])
}

fn sk(tag: u8) -> HashOneTimeSK<Mix32> {
    let mut parts = Vec::new();
    for i in 0..4u8 {
        parts.push(HashOneTimeByteSK::<Mix32>::from_seeds(
            vec![tag, i, 1, 2],
            vec![tag, i, 3, 4],
        ));
    }
    HashOneTimeSK::<Mix32>::from_parts(parts)
}

#[test]
fn byte_sk_codec_round_trip() {
    let k = byte_sk(9);
    let bytes = k.to_bytes();
    assert_eq!(bytes.len(), 8);
    assert_eq!(bytes, vec![9, 1, 2, 3, 9, 4, 5, 6]);
    let back = HashOneTimeByteSK::<Mix32>::from_bytes(&bytes).unwrap();
    assert_eq!(back.low, k.low);
    assert_eq!(back.high, k.high);
}

#[test]
fn byte_vk_and_sig_codec_round_trip() {
    let k = byte_sk(5);
    let vk = k.to_vk();
    let vb = vk.to_bytes();
    assert_eq!(vb.len(), 8);
    let vk2 = HashOneTimeByteVK::<Mix32>::from_bytes(&vb).unwrap();
    assert_eq!(vk2.low, vk.low);
    assert_eq!(vk2.high, vk.high);

    let sig = k.sign(77);
    let sb = sig.to_bytes();
    assert_eq!(sb.len(), 8);
    let sig2 = HashOneTimeByteSig::<Mix32>::from_bytes(&sb).unwrap();
    assert_eq!(sig2.low, sig.low);
    assert_eq!(sig2.high, sig.high);
    assert!(vk.verify(77, &sig2));
}

#[test]
fn byte_codec_short_read() {
    let bytes = byte_sk(1).to_bytes();
    for cut in 0..bytes.len() {
        let r = HashOneTimeByteSK::<Mix32>::from_bytes(&bytes[..cut]);
        assert!(matches!(r, Err(DecodeError::ShortRead)));
    }
    assert!(HashOneTimeByteSK::<Mix32>::from_bytes(&bytes).is_ok());
}

#[test]
fn byte_codec_reads_prefix_only() {
    let mut bytes = byte_sk(2).to_bytes();
    bytes.extend_from_slice(b"trailing junk");
    let back = HashOneTimeByteSK::<Mix32>::from_bytes(&bytes).unwrap();
    assert_eq!(back.low, byte_sk(2).low);
    assert_eq!(back.high, byte_sk(2).high);
}

#[test]
fn composite_sk_codec_round_trip() {
    let k = sk(3);
    let bytes = k.to_bytes();
    assert_eq!(bytes.len(), 2 * 4 * 4);
    let back = HashOneTimeSK::<Mix32>::from_bytes(&bytes).unwrap();
    assert_eq!(back.parts.len(), 4);
    for i in 0..4 {
        assert_eq!(back.parts[i].low, k.parts[i].low);
        assert_eq!(back.parts[i].high, k.parts[i].high);
    }
}

#[test]
fn composite_vk_and_sig_codec_round_trip() {
    let msg = b"serialize me";
    let vk = sk(4).to_vk();
    let sig = sk(4).sign(msg);

    let vk2 = HashOneTimeVK::<Mix32>::from_bytes(&vk.to_bytes()).unwrap();
    let sig2 = HashOneTimeSig::<Mix32>::from_bytes(&sig.to_bytes()).unwrap();
    assert!(vk2.verify(msg, &sig2));
    assert!(!vk2.verify(b"some other text", &sig2));
}

#[test]
fn composite_codec_short_read() {
    let bytes = sk(6).to_bytes();
    let r = HashOneTimeSK::<Mix32>::from_bytes(&bytes[..bytes.len() - 1]);
    assert!(matches!(r, Err(DecodeError::ShortRead)));
    let r = HashOneTimeSK::<Mix32>::from_bytes(b"");
    assert!(matches!(r, Err(DecodeError::ShortRead)));
}
