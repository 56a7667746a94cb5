use vstd::prelude::*;
use crate::utility::{SEED_LEN, is_seed_char, random_seed};

verus! {

/// How the transport is to send: the proof-of-work difficulty and whether the
/// proof of work is done locally.
#[derive(Debug, Clone, Copy, PartialEq, Eq, Structural)]
pub struct SendOptions {
    pub min_weight_magnitude: u8,
    pub local_pow: bool,
}

/// Send options with the given difficulty and proof-of-work placement.
pub fn create_send_options(min_weight_magnitude: u8, local_pow: bool) -> (r: SendOptions)
    ensures
        r == (SendOptions { min_weight_magnitude, local_pow }),
{
    SendOptions { min_weight_magnitude, local_pow }
}

/// The explicit configuration that a writer identity is made from on the transport.
pub struct AuthorConfig {
    pub seed: String,
    pub node_url: String,
    pub encoding: String,
    pub multi_branching: bool,
    /// `None` leaves the transport's own defaults.
    pub send_options: Option<SendOptions>,
}

/// Accumulates the configuration of a writer identity.
pub struct AuthorBuilder {
    seed: String,
    node_url: String,
    encoding: String,
    multi_branching: bool,
    send_options: Option<SendOptions>,
}

/// The view of a builder: seed, node URL, encoding, branching and send options.
pub struct AuthorBuilderView {
    pub seed: Seq<char>,
    pub node_url: Seq<char>,
    pub encoding: Seq<char>,
    pub multi_branching: bool,
    pub send_options: Option<SendOptions>,
}

impl View for AuthorBuilder {
    type V = AuthorBuilderView;

    closed spec fn view(&self) -> AuthorBuilderView {
        AuthorBuilderView {
            seed: self.seed@,
            node_url: self.node_url@,
            encoding: self.encoding@,
            multi_branching: self.multi_branching,
            send_options: self.send_options,
        }
    }
}

impl AuthorBuilder {
    /// A builder with a fresh random seed, the default test node, UTF-8
    /// encoding, a single branch and the transport's default send options.
    pub fn new() -> (r: AuthorBuilder)
        ensures
            r@.seed.len() == SEED_LEN,
            forall|i: int| 0 <= i < r@.seed.len() ==> is_seed_char(#[trigger] r@.seed[i]),
            r@.node_url == "https://api.lb-0.testnet.chrysalis2.com"@,
            r@.encoding == "utf-8"@,
            !r@.multi_branching,
            r@.send_options is None,
    {
        AuthorBuilder {
            seed: random_seed(),
            node_url: "https://api.lb-0.testnet.chrysalis2.com".to_owned(),
            encoding: "utf-8".to_owned(),
            multi_branching: false,
            send_options: None,
        }
    }

    /// Sets the seed.
    pub fn seed(self, seed: &str) -> (r: AuthorBuilder)
        ensures
            r@ == (AuthorBuilderView { seed: seed@, ..self@ }),
    {
        AuthorBuilder { seed: seed.to_owned(), ..self }
    }

    /// Sets the node URL.
    pub fn node(self, node_url: &str) -> (r: AuthorBuilder)
        ensures
            r@ == (AuthorBuilderView { node_url: node_url@, ..self@ }),
    {
        AuthorBuilder { node_url: node_url.to_owned(), ..self }
    }

    /// Sets the payload encoding.
    pub fn encoding(self, encoding: &str) -> (r: AuthorBuilder)
        ensures
            r@ == (AuthorBuilderView { encoding: encoding@, ..self@ }),
    {
        AuthorBuilder { encoding: encoding.to_owned(), ..self }
    }

    /// Sets the send options.
    pub fn send_options(self, send_options: SendOptions) -> (r: AuthorBuilder)
        ensures
            r@ == (AuthorBuilderView { send_options: Some(send_options), ..self@ }),
    {
        AuthorBuilder { send_options: Some(send_options), ..self }
    }

    /// The configuration accumulated.
    pub fn build(self) -> (r: AuthorConfig)
        ensures
            r.seed@ == self@.seed,
            r.node_url@ == self@.node_url,
            r.encoding@ == self@.encoding,
            r.multi_branching == self@.multi_branching,
            r.send_options == self@.send_options,
    {
        AuthorConfig {
            seed: self.seed,
            node_url: self.node_url,
            encoding: self.encoding,
            multi_branching: self.multi_branching,
            send_options: self.send_options,
        }
    }
}

} // verus!
