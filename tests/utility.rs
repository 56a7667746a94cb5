use streams_session::{hash_string, random_seed, SEED_LEN};

#[test]
fn seed_has_length_and_charset() {
    let s = random_seed();
    assert_eq!(s.chars().count(), SEED_LEN);
    assert_eq!(SEED_LEN, 81);
    assert!(s.chars().all(|c| c.is_ascii_uppercase() || c == '9'));
}

#[test]
fn hash_of_empty_string() {
    assert_eq!(
        hash_string(""),
        "786a02f742015903c6c6fd852552d272912f4740e15847618a86e217f71f5419d25e1031afee585313896444934eb04b903a685b1448b755d56f701afe9be2ce"
    );
}

#[test]
fn hash_of_abc() {
    assert_eq!(
        hash_string("abc"),
        "ba80a53f981c4d0d6a2797b69f12f6e94c212f14685ac4b74b12bb6fdbffa2d17d87c5392aab792dc252d5de4533cc9518d38aa8dbf1925ab92386edd4009923"
    );
}
