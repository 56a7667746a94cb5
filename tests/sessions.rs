use streams_session::{
    fetch_all_pending, ChannelReader, ChannelWriter, MessageIndex, MessageRecord, PacketBuilder,
    PageCollector, SessionError,
};

const KEY: &[u8; 32] = b"an example very very secret key.";
const NONCE: &[u8; 24] = b"extra long unique nonce!";

fn rec(id: &str, public: &[u8], masked: &[u8]) -> MessageRecord {
    MessageRecord::new(id, public, masked)
}

fn ids(v: &[MessageRecord]) -> Vec<String> {
    v.iter().map(|r| r.message_id.clone()).collect()
}

#[test]
fn pagination_concatenates_until_empty_page() {
    let pages = vec![
        vec![rec("m1", b"a", b""), rec("ctl", b"", b""), rec("m2", b"", b"z")],
        vec![rec("m3", b"c", b"d")],
        vec![],
        vec![rec("late", b"x", b"y")],
    ];
    let out = fetch_all_pending(&pages);
    assert_eq!(ids(&out), vec!["m1", "m2", "m3"]);
    assert_eq!(out[1].masked, b"z".to_vec());
}

#[test]
fn pagination_of_only_empty_page() {
    let pages: Vec<Vec<MessageRecord>> = vec![vec![]];
    assert!(fetch_all_pending(&pages).is_empty());
}

#[test]
fn page_of_control_frames_does_not_end_collection() {
    let mut c = PageCollector::new();
    assert!(c.accept_page(&vec![rec("ctl", b"", b"")]));
    assert!(c.accept_page(&vec![rec("m1", b"a", b"b")]));
    assert!(!c.accept_page(&vec![]));
    assert!(!c.accept_page(&vec![rec("m2", b"a", b"b")]));
    assert_eq!(ids(&c.into_records()), vec!["m1"]);
}

#[test]
fn index_positions_in_order() {
    let mut ix = MessageIndex::new();
    ix.record("a");
    ix.record("b");
    ix.record("a");
    assert_eq!(ix.len(), 2);
    assert_eq!(ix.position("a"), Ok(0));
    assert_eq!(ix.position("b"), Ok(1));
    assert_eq!(ix.position("c"), Err(SessionError::NotFound));
}

fn packet_record(id: &str, public: &[u8], masked: &[u8]) -> MessageRecord {
    let p = PacketBuilder::new().public(public).masked(masked).key_nonce(KEY, NONCE).build().unwrap();
    MessageRecord::new(id, &p.public_bytes(), &p.masked_bytes())
}

#[test]
fn reader_refuses_fetch_before_attach() {
    let mut r = ChannelReader::new("CH", "ANN");
    let pages = vec![vec![rec("m1", b"a", b"")], vec![]];
    assert!(matches!(r.fetch_remaining_msgs(&pages), Err(SessionError::Protocol)));
    assert_eq!(r.msg_index("m1"), Err(SessionError::NotFound));
}

#[test]
fn reader_attach_failure_is_transport_error() {
    let mut r = ChannelReader::new("CH", "ANN");
    assert_eq!(r.open(false), Err(SessionError::Transport));
    assert!(matches!(r.export(b"st"), Err(SessionError::Protocol)));
}

#[test]
fn reader_fetches_two_packets_then_nothing() {
    let mut r = ChannelReader::new("CH", "ANN");
    r.open(true).unwrap();
    let pages = vec![
        vec![packet_record("m1", b"p1", b"s1"), packet_record("m2", b"p2", b"s2")],
        vec![],
    ];
    let got = r.fetch_parsed_msgs(&pages, Some((KEY, NONCE))).unwrap();
    assert_eq!(got.len(), 2);
    assert_eq!(got[0], ("m1".to_string(), b"p1".to_vec(), b"s1".to_vec()));
    assert_eq!(got[1], ("m2".to_string(), b"p2".to_vec(), b"s2".to_vec()));
    assert_eq!(r.msg_index("ANN"), Ok(0));
    assert_eq!(r.msg_index("m2"), Ok(2));
    let again: Vec<Vec<MessageRecord>> = vec![vec![]];
    assert!(r.fetch_parsed_msgs(&again, Some((KEY, NONCE))).unwrap().is_empty());
    assert!(r.fetch_parsed_msgs(&again, Some((KEY, NONCE))).unwrap().is_empty());
}

#[test]
fn reader_decode_failure_leaves_index() {
    let mut r = ChannelReader::new("CH", "ANN");
    r.open(true).unwrap();
    let pages = vec![vec![packet_record("m1", b"p1", b"s1"), rec("bad", b"p", b"not sealed")], vec![]];
    assert_eq!(r.fetch_parsed_msgs(&pages, Some((KEY, NONCE))), Err(SessionError::Crypto));
    assert_eq!(r.msg_index("m1"), Err(SessionError::NotFound));
}

#[test]
fn reader_resumes_after_last_delivered() {
    let mut r = ChannelReader::new("CH", "ANN");
    r.open(true).unwrap();
    let pages = vec![vec![rec("m1", b"a", b""), rec("m2", b"b", b"")], vec![]];
    r.fetch_remaining_msgs(&pages).unwrap();
    let blob = r.export(b"reader-state").unwrap();
    let (mut back, st) = ChannelReader::import(&blob).unwrap();
    assert_eq!(st, b"reader-state".to_vec());
    assert_eq!(back.channel_address(), ("CH".to_string(), "ANN".to_string()));
    let state = streams_session::ChannelState::from_bytes(&blob).unwrap();
    assert_eq!(state.last_public_msg(), "m2");
    let later = vec![vec![rec("m3", b"c", b"")], vec![]];
    let got = back.fetch_remaining_msgs(&later).unwrap();
    assert_eq!(ids(&got), vec!["m3"]);
    assert_eq!(back.msg_index("m1"), Err(SessionError::NotFound));
    assert_eq!(back.msg_index("m3"), Ok(1));
}

#[test]
fn writer_refuses_before_open() {
    let w = ChannelWriter::new();
    assert!(matches!(w.export(), Err(SessionError::Protocol)));
    assert!(matches!(w.send_link(), Err(SessionError::Protocol)));
    let mut w = w;
    assert_eq!(w.on_sent("m1", b"x"), Err(SessionError::Protocol));
}

#[test]
fn writer_open_twice_refused() {
    let mut w = ChannelWriter::new();
    w.open(b"s0", "CH", "ANN").unwrap();
    assert_eq!(w.open(b"s1", "CH2", "ANN2"), Err(SessionError::Protocol));
    assert_eq!(w.channel_address(), Ok(("CH".to_string(), "ANN".to_string())));
}

#[test]
fn writer_export_import_keeps_channel_address() {
    let mut w = ChannelWriter::new();
    w.open(b"author-0", "CHANNEL", "ANNOUNCE").unwrap();
    let masked = serde_json::to_vec(&temperature_secret()).unwrap();
    let public = serde_json::to_vec(&temperature()).unwrap();
    let p = PacketBuilder::new().public(&public).masked(&masked).key_nonce(KEY, NONCE).build().unwrap();
    assert_ne!(p.masked_bytes(), masked);
    let (addr, link) = w.send_link().unwrap();
    assert_eq!((addr.as_str(), link.as_str()), ("CHANNEL", "ANNOUNCE"));
    w.on_sent("MSG1", b"author-1").unwrap();
    assert_eq!(w.msg_index("MSG1"), Ok(1));
    let saved = w.export().unwrap();
    let back = ChannelWriter::import(&saved).unwrap();
    assert_eq!(back.channel_address(), w.channel_address());
    assert_eq!(back.author_state(), Ok(b"author-1".to_vec()));
    assert_eq!(back.send_link().unwrap().1, "MSG1");
    assert_eq!(back.msg_index("ANNOUNCE"), Ok(0));
    assert_eq!(back.msg_index("MSG1"), Err(SessionError::NotFound));
}

#[test]
fn writer_import_refuses_garbage() {
    assert!(matches!(ChannelWriter::import(&[1, 2, 3]), Err(SessionError::Persistence)));
}

fn temperature() -> serde_json::Value {
    let mut m = serde_json::Map::new();
    m.insert("temperature".to_string(), serde_json::Value::from(20.5));
    serde_json::Value::Object(m)
}

fn temperature_secret() -> serde_json::Value {
    let mut m = serde_json::Map::new();
    m.insert("temperature".to_string(), serde_json::Value::from(20.5));
    m.insert("secret".to_string(), serde_json::Value::from(true));
    serde_json::Value::Object(m)
}
