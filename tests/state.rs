use streams_session::{ChannelState, SessionError};

fn sample() -> ChannelState {
    ChannelState::new(&[1, 2, 3], "CHANNEL", "announce", "pub-msg", "masked-msg")
}

#[test]
fn getters_return_fields() {
    let s = sample();
    assert_eq!(s.author_state(), vec![1, 2, 3]);
    assert_eq!(s.channel_address(), "CHANNEL");
    assert_eq!(s.announcement_id(), "announce");
    assert_eq!(s.last_public_msg(), "pub-msg");
    assert_eq!(s.last_masked_msg(), "masked-msg");
}

#[test]
fn persist_then_load_gives_same_state() {
    let s = sample();
    let t = ChannelState::from_bytes(&s.to_bytes()).unwrap();
    assert_eq!(t.author_state(), s.author_state());
    assert_eq!(t.channel_address(), s.channel_address());
    assert_eq!(t.announcement_id(), s.announcement_id());
    assert_eq!(t.last_public_msg(), s.last_public_msg());
    assert_eq!(t.last_masked_msg(), s.last_masked_msg());
}

#[test]
fn persist_then_load_non_ascii_and_empty() {
    let s = ChannelState::new(&[], "", "éé", "日本", "");
    let t = ChannelState::from_bytes(&s.to_bytes()).unwrap();
    assert!(t.author_state().is_empty());
    assert_eq!(t.channel_address(), "");
    assert_eq!(t.announcement_id(), "éé");
    assert_eq!(t.last_public_msg(), "日本");
}

#[test]
fn persisted_bytes_exact() {
    let s = ChannelState::new(&[9], "a", "b", "", "cd");
    let mut expected: Vec<u8> = Vec::new();
    expected.extend_from_slice(&[1, 0, 0, 0, 0, 0, 0, 0, 9]);
    expected.extend_from_slice(&[1, 0, 0, 0, 0, 0, 0, 0, b'a']);
    expected.extend_from_slice(&[1, 0, 0, 0, 0, 0, 0, 0, b'b']);
    expected.extend_from_slice(&[0, 0, 0, 0, 0, 0, 0, 0]);
    expected.extend_from_slice(&[2, 0, 0, 0, 0, 0, 0, 0, b'c', b'd']);
    assert_eq!(s.to_bytes(), expected);
}

#[test]
fn load_refuses_truncated() {
    let b = sample().to_bytes();
    for n in 0..b.len() {
        assert!(matches!(ChannelState::from_bytes(&b[..n]), Err(SessionError::Persistence)));
    }
}

#[test]
fn load_refuses_trailing_bytes() {
    let mut b = sample().to_bytes();
    b.push(0);
    assert!(matches!(ChannelState::from_bytes(&b), Err(SessionError::Persistence)));
}

#[test]
fn load_refuses_invalid_utf8() {
    let mut b: Vec<u8> = vec![0; 8];
    b.extend_from_slice(&[1, 0, 0, 0, 0, 0, 0, 0, 0xff]);
    for _ in 0..3 {
        b.extend_from_slice(&[0; 8]);
    }
    assert!(matches!(ChannelState::from_bytes(&b), Err(SessionError::Persistence)));
}

#[test]
fn load_refuses_huge_length() {
    let b: Vec<u8> = vec![0xff; 8];
    assert!(matches!(ChannelState::from_bytes(&b), Err(SessionError::Persistence)));
}
