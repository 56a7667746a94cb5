use streams_session::{create_send_options, AuthorBuilder, SendOptions};

#[test]
fn send_options_fields() {
    let o = create_send_options(9, false);
    assert_eq!(o, SendOptions { min_weight_magnitude: 9, local_pow: false });
}

#[test]
fn builder_defaults() {
    let c = AuthorBuilder::new().build();
    assert_eq!(c.seed.len(), 81);
    assert!(c.seed.chars().all(|ch| ch.is_ascii_uppercase() || ch == '9'));
    assert_eq!(c.node_url, "https://api.lb-0.testnet.chrysalis2.com");
    assert_eq!(c.encoding, "utf-8");
    assert!(!c.multi_branching);
    assert_eq!(c.send_options, None);
}

#[test]
fn builder_setters() {
    let c = AuthorBuilder::new()
        .seed("SEED9")
        .node("http://localhost:14265")
        .encoding("ascii")
        .send_options(create_send_options(14, true))
        .build();
    assert_eq!(c.seed, "SEED9");
    assert_eq!(c.node_url, "http://localhost:14265");
    assert_eq!(c.encoding, "ascii");
    assert_eq!(c.send_options, Some(SendOptions { min_weight_magnitude: 14, local_pow: true }));
}
