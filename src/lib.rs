//! A session layer over an append-only pub/sub channel: signed packets with a
//! public part and an optionally encrypted masked part, a persisted session
//! record, and paginated retrieval with a message index.
mod bytes;
pub mod builder;
pub mod error;
pub mod index;
pub mod packet;
pub mod reader;
pub mod state;
pub mod utility;
pub mod writer;

pub use builder::{AuthorBuilder, AuthorConfig, SendOptions, create_send_options};
pub use error::SessionError;
pub use index::MessageIndex;
pub use packet::{Packet, PacketBuilder, KEY_LEN, NONCE_LEN};
pub use reader::{ChannelReader, MessageRecord, PageCollector, fetch_all_pending};
pub use state::ChannelState;
pub use utility::{SEED_LEN, hash_string, random_seed};
pub use writer::ChannelWriter;
