use vstd::prelude::*;
use crate::bytes::copy_bytes;
use crate::error::SessionError;
use crate::index::{MessageIndex, recorded};
use crate::packet::{Packet, plain_masked, key_nonce_view};
use crate::state::{ChannelState, ChannelStateView, encode_state, decode_state};

verus! {

/// One message as fetched from the channel.
pub struct MessageRecord {
    pub message_id: String,
    pub public: Vec<u8>,
    pub masked: Vec<u8>,
}

/// The view of a fetched message.
pub struct MessageRecordView {
    pub message_id: Seq<char>,
    pub public: Seq<u8>,
    pub masked: Seq<u8>,
}

impl View for MessageRecord {
    type V = MessageRecordView;

    open spec fn view(&self) -> MessageRecordView {
        MessageRecordView { message_id: self.message_id@, public: self.public@, masked: self.masked@ }
    }
}

impl MessageRecord {
    /// A record of the given id and payloads.
    pub fn new(message_id: &str, public: &[u8], masked: &[u8]) -> (r: MessageRecord)
        ensures
            r@ == (MessageRecordView { message_id: message_id@, public: public@, masked: masked@ }),
    {
        MessageRecord { message_id: message_id.to_owned(), public: copy_bytes(public), masked: copy_bytes(masked) }
    }

    /// A copy of the record.
    pub fn duplicate(&self) -> (r: MessageRecord)
        ensures
            r@ == self@,
    {
        MessageRecord {
            message_id: self.message_id.clone(),
            public: copy_bytes(self.public.as_slice()),
            masked: copy_bytes(self.masked.as_slice()),
        }
    }
}

/// A record that carries data: not both payloads empty.
pub open spec fn is_data(r: MessageRecordView) -> bool {
    r.public.len() > 0 || r.masked.len() > 0
}

/// The views of a sequence of records.
pub open spec fn records_view(s: Seq<MessageRecord>) -> Seq<MessageRecordView> {
    s.map_values(|r: MessageRecord| r@)
}

/// The data records of a page, in order.
pub open spec fn data_only(page: Seq<MessageRecordView>) -> Seq<MessageRecordView>
    decreases page.len(),
{
    if page.len() == 0 {
        Seq::empty()
    } else {
        let rest = data_only(page.drop_last());
        if is_data(page.last()) {
            rest.push(page.last())
        } else {
            rest
        }
    }
}

/// What draining pages yields: the data records of each page, in order, up to
/// the first empty page.
pub open spec fn pending(pages: Seq<Seq<MessageRecordView>>) -> Seq<MessageRecordView>
    decreases pages.len(),
{
    if pages.len() == 0 || pages[0].len() == 0 {
        Seq::empty()
    } else {
        data_only(pages[0]) + pending(pages.skip(1))
    }
}

/// The concatenation of the data records of every page.
pub open spec fn all_data(pages: Seq<Seq<MessageRecordView>>) -> Seq<MessageRecordView>
    decreases pages.len(),
{
    if pages.len() == 0 {
        Seq::empty()
    } else {
        data_only(pages[0]) + all_data(pages.skip(1))
    }
}

/// Gathers the records of successive pages until the transport hands over an
/// empty one.
pub struct PageCollector {
    records: Vec<MessageRecord>,
    done: bool,
}

impl PageCollector {
    /// The data records gathered so far.
    pub closed spec fn gathered(&self) -> Seq<MessageRecordView> {
        records_view(self.records@)
    }

    /// Whether an empty page has been seen.
    pub closed spec fn is_done(&self) -> bool {
        self.done
    }

    /// A collector that has seen no page.
    pub fn new() -> (r: PageCollector)
        ensures
            r.gathered() == Seq::<MessageRecordView>::empty(),
            !r.is_done(),
    {
        let r = PageCollector { records: Vec::new(), done: false };
        assert(r.gathered() =~= Seq::<MessageRecordView>::empty());
        r
    }

    /// Takes the next page; says whether another page is to be fetched. An
    /// empty page ends the collection; after that, pages are ignored.
    pub fn accept_page(&mut self, page: &Vec<MessageRecord>) -> (more: bool)
        ensures
            old(self).is_done() ==> final(self).gathered() == old(self).gathered() && final(self).is_done(),
            !old(self).is_done() && page@.len() == 0 ==> final(self).gathered() == old(self).gathered()
                && final(self).is_done(),
            !old(self).is_done() && page@.len() > 0 ==> final(self).gathered() == old(self).gathered()
                + data_only(records_view(page@)) && !final(self).is_done(),
            more == !final(self).is_done(),
    {
        if self.done {
            return false;
        }
        if page.len() == 0 {
            self.done = true;
            return false;
        }
        let mut i: usize = 0;
        let ghost start = self.gathered();
        while i < page.len()
            invariant
                i <= page@.len(),
                !self.done,
                self.gathered() == start + data_only(records_view(page@).take(i as int)),
            decreases page@.len() - i,
        {
            let r = &page[i];
            let ghost before = self.gathered();
            assert(records_view(page@).take(i + 1).drop_last() =~= records_view(page@).take(i as int));
            if r.public.len() > 0 || r.masked.len() > 0 {
                self.records.push(r.duplicate());
                assert(self.gathered() =~= before.push(r@));
            }
            i += 1;
        }
        assert(records_view(page@).take(page@.len() as int) =~= records_view(page@));
        true
    }

    /// The records gathered.
    pub fn into_records(self) -> (r: Vec<MessageRecord>)
        ensures
            records_view(r@) == self.gathered(),
    {
        self.records
    }
}

/// The pages as the views of their records.
pub open spec fn pages_view(pages: Seq<Vec<MessageRecord>>) -> Seq<Seq<MessageRecordView>> {
    pages.map_values(|p: Vec<MessageRecord>| records_view(p@))
}

/// Drains the pages that a transport hands over in turn: the data records of
/// each, in order, until the first empty page.
pub fn fetch_all_pending(pages: &Vec<Vec<MessageRecord>>) -> (r: Vec<MessageRecord>)
    ensures
        records_view(r@) == pending(pages_view(pages@)),
{
    let mut c = PageCollector::new();
    let mut i: usize = 0;
    let mut more = true;
    assert(pages_view(pages@).skip(0) =~= pages_view(pages@));
    assert(c.gathered() + pending(pages_view(pages@)) =~= pending(pages_view(pages@)));
    while more && i < pages.len()
        invariant
            i <= pages@.len(),
            more == !c.is_done(),
            more ==> pending(pages_view(pages@)) == c.gathered() + pending(pages_view(pages@).skip(i as int)),
            !more ==> pending(pages_view(pages@)) == c.gathered(),
        decreases pages@.len() - i,
    {
        let ghost pv = pages_view(pages@);
        assert(pv.skip(i as int).skip(1) =~= pv.skip(i + 1));
        assert(pv.skip(i as int)[0] == records_view(pages@[i as int]@));
        more = c.accept_page(&pages[i]);
        i += 1;
    }
    if more {
        assert(pages_view(pages@).skip(i as int) =~= Seq::<Seq<MessageRecordView>>::empty());
        assert(c.gathered() + Seq::<MessageRecordView>::empty() =~= c.gathered());
    }
    c.into_records()
}

} // verus!

verus! {

/// Over a transport that hands over `n` non-empty pages and then an empty one,
/// draining yields exactly the data records of those `n` pages, in order.
pub proof fn lemma_pagination(pages: Seq<Seq<MessageRecordView>>, n: nat)
    requires
        pages.len() == n + 1,
        forall|j: int| 0 <= j < n ==> pages[j].len() > 0,
        pages[n as int].len() == 0,
    ensures
        pending(pages) == all_data(pages.take(n as int)),
    decreases n,
{
    if n == 0 {
        assert(pages.take(0) =~= Seq::<Seq<MessageRecordView>>::empty());
    } else {
        let rest = pages.skip(1);
        assert forall|j: int| 0 <= j < (n - 1) as nat implies rest[j].len() > 0 by {
            assert(rest[j] == pages[j + 1]);
        }
        assert(rest[(n - 1) as int] == pages[n as int]);
        lemma_pagination(rest, (n - 1) as nat);
        assert(pages.take(n as int).skip(1) =~= rest.take((n - 1) as int));
        assert(pages.take(n as int)[0] == pages[0]);
    }
}

/// The ids after recording each of `ids` in turn.
pub open spec fn recorded_all(s: Seq<Seq<char>>, ids: Seq<Seq<char>>) -> Seq<Seq<char>>
    decreases ids.len(),
{
    if ids.len() == 0 {
        s
    } else {
        recorded(recorded_all(s, ids.drop_last()), ids.last())
    }
}

/// The ids of a sequence of records.
pub open spec fn message_ids(s: Seq<MessageRecordView>) -> Seq<Seq<char>> {
    s.map_values(|r: MessageRecordView| r.message_id)
}

/// The decoded messages: each id with its public bytes and masked plaintext.
pub open spec fn decoded(
    s: Seq<MessageRecordView>,
    kn: Option<(Seq<u8>, Seq<u8>)>,
) -> Result<Seq<(Seq<char>, Seq<u8>, Seq<u8>)>, SessionError>
    decreases s.len(),
{
    if s.len() == 0 {
        Ok(Seq::empty())
    } else {
        match decoded(s.drop_last(), kn) {
            Err(e) => Err(e),
            Ok(d) => match plain_masked(s.last().masked, kn) {
                Err(e) => Err(e),
                Ok(m) => Ok(d.push((s.last().message_id, s.last().public, m))),
            },
        }
    }
}

proof fn lemma_decoded_err(s: Seq<MessageRecordView>, kn: Option<(Seq<u8>, Seq<u8>)>, k: nat)
    requires
        k <= s.len(),
        decoded(s.take(k as int), kn) is Err,
    ensures
        decoded(s, kn) == decoded(s.take(k as int), kn),
    decreases s.len() - k,
{
    if k == s.len() {
        assert(s.take(k as int) =~= s);
    } else {
        assert(s.take((k + 1) as int).drop_last() =~= s.take(k as int));
        lemma_decoded_err(s, kn, k + 1);
    }
}

/// The views of decoded messages.
pub open spec fn decoded_view(s: Seq<(String, Vec<u8>, Vec<u8>)>) -> Seq<(Seq<char>, Seq<u8>, Seq<u8>)> {
    s.map_values(|t: (String, Vec<u8>, Vec<u8>)| (t.0@, t.1@, t.2@))
}

/// A reader session: attaches to a channel and takes in what the transport
/// fetched from it, indexing each message it delivers.
pub struct ChannelReader {
    channel_address: String,
    announcement_id: String,
    attached: bool,
    last_msg: String,
    index: MessageIndex,
}

/// The id of the last delivered message after delivering `s`.
pub open spec fn last_after(last: Seq<char>, s: Seq<MessageRecordView>) -> Seq<char> {
    if s.len() == 0 {
        last
    } else {
        s.last().message_id
    }
}

impl ChannelReader {
    pub closed spec fn address(&self) -> Seq<char> {
        self.channel_address@
    }

    pub closed spec fn announcement(&self) -> Seq<char> {
        self.announcement_id@
    }

    pub closed spec fn is_attached(&self) -> bool {
        self.attached
    }

    /// The id of the last message delivered, the announcement before any.
    pub closed spec fn last_delivered(&self) -> Seq<char> {
        self.last_msg@
    }

    /// The ids delivered so far, the announcement first, by position.
    pub closed spec fn indexed(&self) -> Seq<Seq<char>> {
        self.index@
    }

    pub closed spec fn wf(&self) -> bool {
        self.index.wf()
    }

    /// A reader of the given channel, not yet attached.
    pub fn new(channel_address: &str, announcement_id: &str) -> (r: ChannelReader)
        ensures
            r.address() == channel_address@,
            r.announcement() == announcement_id@,
            !r.is_attached(),
            r.last_delivered() == announcement_id@,
            r.indexed() == Seq::<Seq<char>>::empty(),
            r.wf(),
    {
        ChannelReader {
            channel_address: channel_address.to_owned(),
            announcement_id: announcement_id.to_owned(),
            attached: false,
            last_msg: announcement_id.to_owned(),
            index: MessageIndex::new(),
        }
    }

    /// The channel's address and announcement id.
    pub fn channel_address(&self) -> (r: (String, String))
        ensures
            r.0@ == self.address(),
            r.1@ == self.announcement(),
    {
        (self.channel_address.clone(), self.announcement_id.clone())
    }

    /// Takes the outcome of resolving the announcement on the transport: the
    /// reader is attached when it was found, and a `Transport` error leaves it
    /// as it was otherwise.
    pub fn open(&mut self, announcement_found: bool) -> (r: Result<(), SessionError>)
        requires
            old(self).wf(),
        ensures
            final(self).wf(),
            final(self).address() == old(self).address(),
            final(self).announcement() == old(self).announcement(),
            final(self).last_delivered() == old(self).last_delivered(),
            announcement_found ==> r is Ok && final(self).is_attached()
                && final(self).indexed() == recorded(old(self).indexed(), old(self).announcement()),
            !announcement_found ==> r == Err::<(), SessionError>(SessionError::Transport)
                && final(self).is_attached() == old(self).is_attached()
                && final(self).indexed() == old(self).indexed(),
    {
        if !announcement_found {
            return Err(SessionError::Transport);
        }
        self.attached = true;
        let id = self.announcement_id.clone();
        self.index.record(id.as_str());
        Ok(())
    }

    fn record_all(&mut self, records: &Vec<MessageRecord>)
        requires
            old(self).wf(),
        ensures
            final(self).wf(),
            final(self).address() == old(self).address(),
            final(self).announcement() == old(self).announcement(),
            final(self).is_attached() == old(self).is_attached(),
            final(self).last_delivered() == last_after(old(self).last_delivered(), records_view(records@)),
            final(self).indexed() == recorded_all(old(self).indexed(), message_ids(records_view(records@))),
    {
        let mut i: usize = 0;
        let ghost ids = message_ids(records_view(records@));
        while i < records.len()
            invariant
                i <= records@.len(),
                ids == message_ids(records_view(records@)),
                self.wf(),
                self.address() == old(self).address(),
                self.announcement() == old(self).announcement(),
                self.is_attached() == old(self).is_attached(),
                self.last_delivered() == old(self).last_delivered(),
                self.indexed() == recorded_all(old(self).indexed(), ids.take(i as int)),
            decreases records@.len() - i,
        {
            assert(ids.take(i + 1).drop_last() =~= ids.take(i as int));
            self.index.record(records[i].message_id.as_str());
            i += 1;
        }
        assert(ids.take(records@.len() as int) =~= ids);
        if records.len() > 0 {
            self.last_msg = records[records.len() - 1].message_id.clone();
        }
    }

    /// Takes the pages that the transport handed over since the last fetch and
    /// delivers their data records up to the first empty page, indexing each.
    /// A `Protocol` error when the reader is not attached.
    pub fn fetch_remaining_msgs(&mut self, pages: &Vec<Vec<MessageRecord>>) -> (r: Result<Vec<MessageRecord>, SessionError>)
        requires
            old(self).wf(),
        ensures
            final(self).wf(),
            final(self).address() == old(self).address(),
            final(self).announcement() == old(self).announcement(),
            final(self).is_attached() == old(self).is_attached(),
            !old(self).is_attached() ==> r == Err::<Vec<MessageRecord>, SessionError>(SessionError::Protocol)
                && final(self).indexed() == old(self).indexed()
                && final(self).last_delivered() == old(self).last_delivered(),
            old(self).is_attached() ==> final(self).last_delivered() == last_after(
                old(self).last_delivered(),
                pending(pages_view(pages@)),
            ),
            old(self).is_attached() ==> (r matches Ok(v) && records_view(v@) == pending(pages_view(pages@))
                && final(self).indexed() == recorded_all(old(self).indexed(), message_ids(records_view(v@)))),
    {
        if !self.attached {
            return Err(SessionError::Protocol);
        }
        let msgs = fetch_all_pending(pages);
        self.record_all(&msgs);
        Ok(msgs)
    }

    /// Like `fetch_remaining_msgs`, and decodes each message with the key and
    /// nonce given; the first failure is returned and the reader is left as it was.
    pub fn fetch_parsed_msgs(
        &mut self,
        pages: &Vec<Vec<MessageRecord>>,
        key_nonce: Option<(&[u8], &[u8])>,
    ) -> (r: Result<Vec<(String, Vec<u8>, Vec<u8>)>, SessionError>)
        requires
            old(self).wf(),
        ensures
            final(self).wf(),
            final(self).address() == old(self).address(),
            final(self).announcement() == old(self).announcement(),
            final(self).is_attached() == old(self).is_attached(),
            !old(self).is_attached() ==> r == Err::<Vec<(String, Vec<u8>, Vec<u8>)>, SessionError>(SessionError::Protocol)
                && final(self).indexed() == old(self).indexed()
                && final(self).last_delivered() == old(self).last_delivered(),
            old(self).is_attached() ==> match decoded(pending(pages_view(pages@)), key_nonce_view(key_nonce)) {
                Ok(d) => (r matches Ok(v) && decoded_view(v@) == d
                    && final(self).indexed() == recorded_all(old(self).indexed(), message_ids(pending(pages_view(pages@))))
                    && final(self).last_delivered() == last_after(old(self).last_delivered(), pending(pages_view(pages@)))),
                Err(e) => r == Err::<Vec<(String, Vec<u8>, Vec<u8>)>, SessionError>(e)
                    && final(self).indexed() == old(self).indexed()
                    && final(self).last_delivered() == old(self).last_delivered(),
            },
    {
        if !self.attached {
            return Err(SessionError::Protocol);
        }
        let msgs = fetch_all_pending(pages);
        let ghost kn = key_nonce_view(key_nonce);
        let ghost s = records_view(msgs@);
        let mut out: Vec<(String, Vec<u8>, Vec<u8>)> = Vec::new();
        let mut i: usize = 0;
        assert(s.take(0) =~= Seq::<MessageRecordView>::empty());
        assert(decoded_view(out@) =~= Seq::<(Seq<char>, Seq<u8>, Seq<u8>)>::empty());
        while i < msgs.len()
            invariant
                i <= msgs@.len(),
                s == records_view(msgs@),
                s == pending(pages_view(pages@)),
                self.wf(),
                self.is_attached(),
                self.indexed() == old(self).indexed(),
                self.last_delivered() == old(self).last_delivered(),
                self.address() == old(self).address(),
                self.announcement() == old(self).announcement(),
                kn == key_nonce_view(key_nonce),
                decoded(s.take(i as int), kn) == Ok::<Seq<(Seq<char>, Seq<u8>, Seq<u8>)>, SessionError>(decoded_view(out@)),
            decreases msgs@.len() - i,
        {
            assert(s.take(i + 1).drop_last() =~= s.take(i as int));
            let m = &msgs[i];
            let packet = Packet::from_parts(copy_bytes(m.public.as_slice()), copy_bytes(m.masked.as_slice()));
            match packet.parse(key_nonce) {
                Ok((p, q)) => {
                    let ghost prev = decoded_view(out@);
                    out.push((m.message_id.clone(), p, q));
                    assert(decoded_view(out@) =~= prev.push((m.message_id@, m.public@, q@)));
                },
                Err(e) => {
                    proof {
                        assert(s.take(i + 1).last() == m@);
                        assert(decoded(s.take(i + 1), kn) == Err::<Seq<(Seq<char>, Seq<u8>, Seq<u8>)>, SessionError>(e));
                        lemma_decoded_err(s, kn, (i + 1) as nat);
                    }
                    return Err(e);
                },
            }
            i += 1;
        }
        assert(s.take(msgs@.len() as int) =~= s);
        self.record_all(&msgs);
        Ok(out)
    }

    /// The persisted form of the reader's session record, with the reader's
    /// opaque state as the transport gave it; a `Protocol` error when not attached.
    pub fn export(&self, reader_state: &[u8]) -> (r: Result<Vec<u8>, SessionError>)
        ensures
            !self.is_attached() ==> r == Err::<Vec<u8>, SessionError>(SessionError::Protocol),
            self.is_attached() ==> (r matches Ok(b) && b@ == encode_state(self.record(reader_state@))),
    {
        if !self.attached {
            return Err(SessionError::Protocol);
        }
        let s = ChannelState::new(
            reader_state,
            self.channel_address.as_str(),
            self.announcement_id.as_str(),
            self.last_msg.as_str(),
            self.last_msg.as_str(),
        );
        Ok(s.to_bytes())
    }

    /// The session record of this reader with the given opaque state.
    pub closed spec fn record(&self, reader_state: Seq<u8>) -> ChannelStateView {
        ChannelStateView {
            author_state: reader_state,
            channel_address: self.channel_address@,
            announcement_id: self.announcement_id@,
            last_public_msg: self.last_msg@,
            last_masked_msg: self.last_msg@,
        }
    }

    /// Resumes an attached reader from a persisted record, and hands back the
    /// opaque reader state for the transport; a `Persistence` error when the
    /// bytes hold no record.
    pub fn import(b: &[u8]) -> (r: Result<(ChannelReader, Vec<u8>), SessionError>)
        ensures
            match decode_state(b@) {
                Some(v) => (r matches Ok((rd, st)) && rd.wf() && rd.is_attached() && rd.record(st@) == (
                ChannelStateView { last_masked_msg: v.last_public_msg, ..v }) && rd.indexed() == seq![
                    v.announcement_id,
                ]),
                None => r == Err::<(ChannelReader, Vec<u8>), SessionError>(SessionError::Persistence),
            },
    {
        let s = match ChannelState::from_bytes(b) {
            Ok(s) => s,
            Err(e) => return Err(e),
        };
        let announcement = s.announcement_id();
        let mut index = MessageIndex::new();
        index.record(announcement.as_str());
        proof {
            assert(index@ =~= seq![s@.announcement_id]);
        }
        let rd = ChannelReader {
            channel_address: s.channel_address(),
            announcement_id: announcement,
            attached: true,
            last_msg: s.last_public_msg(),
            index,
        };
        Ok((rd, s.author_state()))
    }

    /// The position of `id` among the messages this reader delivered, the
    /// announcement first; `NotFound` when it delivered no such message.
    pub fn msg_index(&self, id: &str) -> (r: Result<usize, SessionError>)
        requires
            self.wf(),
        ensures
            match r {
                Ok(i) => i < self.indexed().len() && self.indexed()[i as int] == id@,
                Err(e) => e == SessionError::NotFound && !self.indexed().contains(id@),
            },
            self.indexed().contains(id@) ==> r is Ok,
    {
        self.index.position(id)
    }
}

} // verus!

verus! {

/// A reader resumed from its export stands where the exported one stood: the
/// same channel and announcement, and the same last delivered message.
pub proof fn lemma_reader_resume(rd: ChannelReader, reader_state: Seq<u8>)
    requires
        crate::state::fits(rd.record(reader_state)),
    ensures
        decode_state(encode_state(rd.record(reader_state))) matches Some(v) && v.channel_address == rd.address()
            && v.announcement_id == rd.announcement() && v.last_public_msg == rd.last_delivered()
            && v.author_state == reader_state,
{
    crate::state::lemma_persist_load(rd.record(reader_state));
}

} // verus!
