use vstd::prelude::*;
use crate::error::SessionError;
use crate::index::{MessageIndex, recorded};
use crate::state::{ChannelState, ChannelStateView, decode_state, encode_state};

verus! {

/// A writer session: `Unopened` until the channel is announced, then `Open`,
/// keeping the session record current after each message sent.
pub struct ChannelWriter {
    state: Option<ChannelState>,
    index: MessageIndex,
}

/// The record after a signed packet `msg_id` was sent with the writer's new state.
pub open spec fn after_send(v: ChannelStateView, msg_id: Seq<char>, author_state: Seq<u8>) -> ChannelStateView {
    ChannelStateView { author_state, last_public_msg: msg_id, last_masked_msg: msg_id, ..v }
}

impl ChannelWriter {
    pub closed spec fn is_open(&self) -> bool {
        self.state is Some
    }

    /// The session record of an open writer.
    pub closed spec fn record(&self) -> ChannelStateView {
        match self.state {
            Some(s) => s@,
            None => arbitrary(),
        }
    }

    /// The ids this writer recorded, by position.
    pub closed spec fn indexed(&self) -> Seq<Seq<char>> {
        self.index@
    }

    pub closed spec fn wf(&self) -> bool {
        self.index.wf()
    }

    /// A writer that has not opened a channel.
    pub fn new() -> (r: ChannelWriter)
        ensures
            !r.is_open(),
            r.indexed() == Seq::<Seq<char>>::empty(),
            r.wf(),
    {
        ChannelWriter { state: None, index: MessageIndex::new() }
    }

    /// Takes the announcement of a new channel on the transport, with the
    /// writer's state after it: the writer is open, both last messages being
    /// the announcement. A `Protocol` error when it was already open.
    pub fn open(&mut self, author_state: &[u8], channel_address: &str, announcement_id: &str) -> (r: Result<(), SessionError>)
        requires
            old(self).wf(),
        ensures
            final(self).wf(),
            old(self).is_open() ==> r == Err::<(), SessionError>(SessionError::Protocol) && final(self).is_open()
                && final(self).record() == old(self).record() && final(self).indexed() == old(self).indexed(),
            !old(self).is_open() ==> r is Ok && final(self).is_open() && final(self).record() == (ChannelStateView {
                author_state: author_state@,
                channel_address: channel_address@,
                announcement_id: announcement_id@,
                last_public_msg: announcement_id@,
                last_masked_msg: announcement_id@,
            }) && final(self).indexed() == recorded(old(self).indexed(), announcement_id@),
    {
        if self.state.is_some() {
            return Err(SessionError::Protocol);
        }
        self.state = Some(ChannelState::new(author_state, channel_address, announcement_id, announcement_id, announcement_id));
        self.index.record(announcement_id);
        Ok(())
    }

    /// The channel's address and the message a new packet links to; a
    /// `Protocol` error when no channel was announced yet.
    pub fn send_link(&self) -> (r: Result<(String, String), SessionError>)
        ensures
            !self.is_open() ==> r == Err::<(String, String), SessionError>(SessionError::Protocol),
            self.is_open() ==> (r matches Ok((a, l)) && a@ == self.record().channel_address
                && l@ == self.record().last_public_msg),
    {
        match &self.state {
            None => Err(SessionError::Protocol),
            Some(s) => Ok((s.channel_address(), s.last_public_msg())),
        }
    }

    /// Takes a signed packet that the transport sent as `msg_id`, with the
    /// writer's state after it: the last messages advance and the id is
    /// indexed. A `Protocol` error, and no change, when no channel was announced.
    pub fn on_sent(&mut self, msg_id: &str, author_state: &[u8]) -> (r: Result<(), SessionError>)
        requires
            old(self).wf(),
        ensures
            final(self).wf(),
            !old(self).is_open() ==> r == Err::<(), SessionError>(SessionError::Protocol) && !final(self).is_open()
                && final(self).indexed() == old(self).indexed(),
            old(self).is_open() ==> r is Ok && final(self).is_open()
                && final(self).record() == after_send(old(self).record(), msg_id@, author_state@)
                && final(self).indexed() == recorded(old(self).indexed(), msg_id@),
    {
        let next = match &self.state {
            None => return Err(SessionError::Protocol),
            Some(s) => {
                let address = s.channel_address();
                let announcement = s.announcement_id();
                ChannelState::new(author_state, address.as_str(), announcement.as_str(), msg_id, msg_id)
            },
        };
        self.state = Some(next);
        self.index.record(msg_id);
        Ok(())
    }

    /// The channel's address and announcement id; a `Protocol` error when none was announced.
    pub fn channel_address(&self) -> (r: Result<(String, String), SessionError>)
        ensures
            !self.is_open() ==> r == Err::<(String, String), SessionError>(SessionError::Protocol),
            self.is_open() ==> (r matches Ok((a, n)) && a@ == self.record().channel_address
                && n@ == self.record().announcement_id),
    {
        match &self.state {
            None => Err(SessionError::Protocol),
            Some(s) => Ok((s.channel_address(), s.announcement_id())),
        }
    }

    /// The writer's opaque state; a `Protocol` error when no channel was announced.
    pub fn author_state(&self) -> (r: Result<Vec<u8>, SessionError>)
        ensures
            !self.is_open() ==> r == Err::<Vec<u8>, SessionError>(SessionError::Protocol),
            self.is_open() ==> (r matches Ok(b) && b@ == self.record().author_state),
    {
        match &self.state {
            None => Err(SessionError::Protocol),
            Some(s) => Ok(s.author_state()),
        }
    }

    /// The persisted form of the session record; the writer stays open. A
    /// `Protocol` error when no channel was announced.
    pub fn export(&self) -> (r: Result<Vec<u8>, SessionError>)
        ensures
            !self.is_open() ==> r == Err::<Vec<u8>, SessionError>(SessionError::Protocol),
            self.is_open() ==> (r matches Ok(b) && b@ == encode_state(self.record())),
    {
        match &self.state {
            None => Err(SessionError::Protocol),
            Some(s) => Ok(s.to_bytes()),
        }
    }

    /// Resumes an open writer from a persisted record, its index holding the
    /// announcement; a `Persistence` error when the bytes hold no record.
    pub fn import(b: &[u8]) -> (r: Result<ChannelWriter, SessionError>)
        ensures
            match decode_state(b@) {
                Some(v) => (r matches Ok(w) && w.wf() && w.is_open() && w.record() == v
                    && w.indexed() == seq![v.announcement_id]),
                None => r is Err && r == Err::<ChannelWriter, SessionError>(SessionError::Persistence),
            },
    {
        let s = match ChannelState::from_bytes(b) {
            Ok(s) => s,
            Err(e) => return Err(e),
        };
        let mut index = MessageIndex::new();
        let announcement = s.announcement_id();
        index.record(announcement.as_str());
        proof {
            assert(index@ =~= seq![s@.announcement_id]);
        }
        Ok(ChannelWriter { state: Some(s), index })
    }

    /// The position of `id` among the messages this writer recorded;
    /// `NotFound` when it recorded no such message.
    pub fn msg_index(&self, id: &str) -> (r: Result<usize, SessionError>)
        requires
            self.wf(),
        ensures
            match r {
                Ok(i) => i < self.indexed().len() && self.indexed()[i as int] == id@,
                Err(e) => e == SessionError::NotFound && !self.indexed().contains(id@),
            },
            self.indexed().contains(id@) ==> r is Ok,
    {
        self.index.position(id)
    }
}

} // verus!

verus! {

/// A writer resumed from its export holds the same session record: the same
/// channel address, announcement, last messages and writer state.
pub proof fn lemma_writer_resume(w: ChannelWriter)
    requires
        w.is_open(),
        crate::state::fits(w.record()),
    ensures
        decode_state(encode_state(w.record())) == Some(w.record()),
{
    crate::state::lemma_persist_load(w.record());
}

} // verus!
