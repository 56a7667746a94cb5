use streams_session::{Packet, PacketBuilder, SessionError};

const KEY: &[u8; 32] = b"an example very very secret key.";
const NONCE: &[u8; 24] = b"extra long unique nonce!";

fn sealed_packet(public: &[u8], masked: &[u8]) -> Packet {
    PacketBuilder::new()
        .public(public)
        .masked(masked)
        .key_nonce(KEY, NONCE)
        .build()
        .unwrap()
}

#[test]
fn round_trip_with_key() {
    let p = sealed_packet(b"{\"temperature\":20.5}", b"{\"secret\":true}");
    let (public, masked) = p.parse(Some((KEY, NONCE))).unwrap();
    assert_eq!(public, b"{\"temperature\":20.5}".to_vec());
    assert_eq!(masked, b"{\"secret\":true}".to_vec());
}

#[test]
fn sealed_masked_differs_from_plaintext() {
    let p = sealed_packet(b"pub", b"plaintext message");
    assert_eq!(p.public_bytes(), b"pub".to_vec());
    assert_ne!(p.masked_bytes(), b"plaintext message".to_vec());
    assert_eq!(p.masked_bytes().len(), b"plaintext message".len() + 16);
}

#[test]
fn sealing_is_deterministic() {
    let a = sealed_packet(b"p", b"same");
    let b = sealed_packet(b"p", b"same");
    assert_eq!(a.masked_bytes(), b.masked_bytes());
}

#[test]
fn round_trip_empty_masked() {
    let p = sealed_packet(b"", b"");
    let (public, masked) = p.parse(Some((KEY, NONCE))).unwrap();
    assert!(public.is_empty());
    assert!(masked.is_empty());
}

#[test]
fn tampered_ciphertext_is_refused() {
    let p = sealed_packet(b"pub", b"plaintext message");
    let wire = p.masked_bytes();
    for i in 0..wire.len() {
        for bit in 0..8 {
            let mut t = wire.clone();
            t[i] ^= 1 << bit;
            let q = Packet::from_parts(p.public_bytes(), t);
            assert_eq!(q.parse(Some((KEY, NONCE))), Err(SessionError::Crypto));
        }
    }
}

#[test]
fn wrong_key_is_refused() {
    let p = sealed_packet(b"pub", b"secret");
    let other = b"another example very secret key!";
    assert_eq!(p.parse(Some((&other[..32], NONCE))), Err(SessionError::Crypto));
}

#[test]
fn plain_path_keeps_bytes() {
    let p = PacketBuilder::new().public(b"a").masked(b"bc").build().unwrap();
    assert_eq!(p.masked_bytes(), b"bc".to_vec());
    assert_eq!(p.parse(None), Ok((b"a".to_vec(), b"bc".to_vec())));
}

#[test]
fn short_key_refused_by_build() {
    let r = PacketBuilder::new().masked(b"m").key_nonce(&KEY[..31], NONCE).build();
    assert!(matches!(r, Err(SessionError::Crypto)));
}

#[test]
fn long_nonce_refused_by_build() {
    let nonce = [7u8; 25];
    let r = PacketBuilder::new().masked(b"m").key_nonce(KEY, &nonce).build();
    assert!(matches!(r, Err(SessionError::Crypto)));
}

#[test]
fn bad_lengths_refused_by_parse() {
    let p = sealed_packet(b"pub", b"m");
    assert_eq!(p.parse(Some((&KEY[..31], NONCE))), Err(SessionError::Crypto));
    assert_eq!(p.parse(Some((KEY, &NONCE[..23]))), Err(SessionError::Crypto));
}

#[test]
fn truncated_ciphertext_refused() {
    let q = Packet::from_parts(b"pub".to_vec(), vec![1, 2, 3]);
    assert_eq!(q.parse(Some((KEY, NONCE))), Err(SessionError::Crypto));
}
