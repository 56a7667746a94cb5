use vstd::prelude::*;
use vstd::utf8::{decode_utf8, encode_utf8, valid_utf8, encode_utf8_valid_utf8, encode_utf8_decode_utf8};
use crate::bytes::copy_bytes;
use crate::error::SessionError;

verus! {

/// The eight little-endian bytes of `n`.
pub open spec fn le8(n: u64) -> Seq<u8> {
    seq![
        (n & 0xff) as u8,
        ((n >> 8u64) & 0xff) as u8,
        ((n >> 16u64) & 0xff) as u8,
        ((n >> 24u64) & 0xff) as u8,
        ((n >> 32u64) & 0xff) as u8,
        ((n >> 40u64) & 0xff) as u8,
        ((n >> 48u64) & 0xff) as u8,
        ((n >> 56u64) & 0xff) as u8,
    ]
}

/// The number whose little-endian bytes are the first eight of `b`.
pub open spec fn from_le8(b: Seq<u8>) -> u64
    recommends
        b.len() >= 8,
{
    (b[0] as u64) | ((b[1] as u64) << 8u64) | ((b[2] as u64) << 16u64) | ((b[3] as u64) << 24u64)
        | ((b[4] as u64) << 32u64) | ((b[5] as u64) << 40u64) | ((b[6] as u64) << 48u64)
        | ((b[7] as u64) << 56u64)
}

/// A length-prefixed frame: the length of `x` in eight little-endian bytes, then `x`.
pub open spec fn frame(x: Seq<u8>) -> Seq<u8> {
    le8(x.len() as u64) + x
}

/// The first frame of `s` and what follows it, if `s` starts with a whole frame.
pub open spec fn take_frame(s: Seq<u8>) -> Option<(Seq<u8>, Seq<u8>)> {
    if s.len() < 8 {
        None
    } else {
        let n = from_le8(s) as int;
        if n > s.len() - 8 {
            None
        } else {
            Some((s.subrange(8, 8 + n), s.skip(8 + n)))
        }
    }
}

/// The first frame of `s` read as UTF-8 text, and what follows it.
pub open spec fn take_text(s: Seq<u8>) -> Option<(Seq<char>, Seq<u8>)> {
    match take_frame(s) {
        Some((b, rest)) => if valid_utf8(b) {
            Some((decode_utf8(b), rest))
        } else {
            None
        },
        None => None,
    }
}

/// The view of a session record.
pub struct ChannelStateView {
    pub author_state: Seq<u8>,
    pub channel_address: Seq<char>,
    pub announcement_id: Seq<char>,
    pub last_public_msg: Seq<char>,
    pub last_masked_msg: Seq<char>,
}

/// Every field of the record can be framed: its length fits in eight bytes.
pub open spec fn fits(v: ChannelStateView) -> bool {
    v.author_state.len() <= u64::MAX
        && encode_utf8(v.channel_address).len() <= u64::MAX
        && encode_utf8(v.announcement_id).len() <= u64::MAX
        && encode_utf8(v.last_public_msg).len() <= u64::MAX
        && encode_utf8(v.last_masked_msg).len() <= u64::MAX
}

/// The persisted form of a record: its five fields in order, each one framed,
/// the strings in UTF-8.
pub open spec fn encode_state(v: ChannelStateView) -> Seq<u8> {
    frame(v.author_state) + frame(encode_utf8(v.channel_address)) + frame(
        encode_utf8(v.announcement_id),
    ) + frame(encode_utf8(v.last_public_msg)) + frame(encode_utf8(v.last_masked_msg))
}

/// The record that `b` holds: five frames and nothing after them, the last four UTF-8.
pub open spec fn decode_state(b: Seq<u8>) -> Option<ChannelStateView> {
    match take_frame(b) {
        None => None,
        Some((a, r1)) => match take_text(r1) {
            None => None,
            Some((c, r2)) => match take_text(r2) {
                None => None,
                Some((d, r3)) => match take_text(r3) {
                    None => None,
                    Some((e, r4)) => match take_text(r4) {
                        None => None,
                        Some((f, r5)) => if r5.len() == 0 {
                            Some(
                                ChannelStateView {
                                    author_state: a,
                                    channel_address: c,
                                    announcement_id: d,
                                    last_public_msg: e,
                                    last_masked_msg: f,
                                },
                            )
                        } else {
                            None
                        },
                    },
                },
            },
        },
    }
}

proof fn lemma_le8_round(n: u64)
    ensures
        from_le8(le8(n)) == n,
{
    assert(from_le8(le8(n)) == ((n & 0xff) as u8 as u64) | ((((n >> 8u64) & 0xff) as u8 as u64) << 8u64)
        | ((((n >> 16u64) & 0xff) as u8 as u64) << 16u64) | ((((n >> 24u64) & 0xff) as u8 as u64) << 24u64)
        | ((((n >> 32u64) & 0xff) as u8 as u64) << 32u64) | ((((n >> 40u64) & 0xff) as u8 as u64) << 40u64)
        | ((((n >> 48u64) & 0xff) as u8 as u64) << 48u64) | ((((n >> 56u64) & 0xff) as u8 as u64) << 56u64));
    assert(((n & 0xff) as u8 as u64) | ((((n >> 8u64) & 0xff) as u8 as u64) << 8u64)
        | ((((n >> 16u64) & 0xff) as u8 as u64) << 16u64) | ((((n >> 24u64) & 0xff) as u8 as u64) << 24u64)
        | ((((n >> 32u64) & 0xff) as u8 as u64) << 32u64) | ((((n >> 40u64) & 0xff) as u8 as u64) << 40u64)
        | ((((n >> 48u64) & 0xff) as u8 as u64) << 48u64) | ((((n >> 56u64) & 0xff) as u8 as u64) << 56u64)
        == n) by (bit_vector);
}

proof fn lemma_take_frame(x: Seq<u8>, rest: Seq<u8>)
    requires
        x.len() <= u64::MAX,
    ensures
        take_frame(frame(x) + rest) == Some((x, rest)),
{
    let s = frame(x) + rest;
    lemma_le8_round(x.len() as u64);
    assert(from_le8(s) == from_le8(le8(x.len() as u64)));
    assert(s.subrange(8, 8 + x.len() as int) =~= x);
    assert(s.skip(8 + x.len() as int) =~= rest);
}

proof fn lemma_take_text(t: Seq<char>, rest: Seq<u8>)
    requires
        encode_utf8(t).len() <= u64::MAX,
    ensures
        take_text(frame(encode_utf8(t)) + rest) == Some((t, rest)),
{
    lemma_take_frame(encode_utf8(t), rest);
    encode_utf8_valid_utf8(t);
    encode_utf8_decode_utf8(t);
}

/// Loading what was persisted gives back the same record.
pub proof fn lemma_persist_load(v: ChannelStateView)
    requires
        fits(v),
    ensures
        decode_state(encode_state(v)) == Some(v),
{
    let fa = frame(v.author_state);
    let fc = frame(encode_utf8(v.channel_address));
    let fd = frame(encode_utf8(v.announcement_id));
    let fe = frame(encode_utf8(v.last_public_msg));
    let ff = frame(encode_utf8(v.last_masked_msg));
    let empty = Seq::<u8>::empty();
    assert(encode_state(v) =~= fa + (fc + (fd + (fe + (ff + empty)))));
    lemma_take_frame(v.author_state, fc + (fd + (fe + (ff + empty))));
    lemma_take_text(v.channel_address, fd + (fe + (ff + empty)));
    lemma_take_text(v.announcement_id, fe + (ff + empty));
    lemma_take_text(v.last_public_msg, ff + empty);
    lemma_take_text(v.last_masked_msg, empty);
}

} // verus!

verus! {

/// Relies on `String::from_utf8`: it accepts exactly the valid UTF-8 byte
/// strings and keeps the characters they encode.
#[verifier::external_body]
fn string_from_utf8(b: Vec<u8>) -> (r: Option<String>)
    ensures
        r is Some <==> valid_utf8(b@),
        r matches Some(s) ==> s@ == decode_utf8(b@),
{
    String::from_utf8(b).ok()
}

/// Appends a frame of `x` to `out`.
fn push_frame(out: &mut Vec<u8>, x: &[u8])
    ensures
        final(out)@ == old(out)@ + frame(x@),
{
    let n: u64 = x.len() as u64;
    out.push((n & 0xff) as u8);
    out.push(((n >> 8u64) & 0xff) as u8);
    out.push(((n >> 16u64) & 0xff) as u8);
    out.push(((n >> 24u64) & 0xff) as u8);
    out.push(((n >> 32u64) & 0xff) as u8);
    out.push(((n >> 40u64) & 0xff) as u8);
    out.push(((n >> 48u64) & 0xff) as u8);
    out.push(((n >> 56u64) & 0xff) as u8);
    let mut i: usize = 0;
    let ghost start = out@;
    while i < x.len()
        invariant
            i <= x@.len(),
            out@ == start + x@.subrange(0, i as int),
        decreases x@.len() - i,
    {
        out.push(x[i]);
        i += 1;
        assert(out@ =~= start + x@.subrange(0, i as int));
    }
    assert(x@.subrange(0, x@.len() as int) =~= x@);
    assert(out@ =~= old(out)@ + frame(x@));
}

/// Reads the frame that starts at `pos` in `b`; gives its bytes and the position after it.
fn read_frame(b: &[u8], pos: usize) -> (r: Option<(Vec<u8>, usize)>)
    requires
        pos <= b@.len(),
    ensures
        match take_frame(b@.skip(pos as int)) {
            Some((x, rest)) => r matches Some((v, p)) && v@ == x && p <= b@.len() && b@.skip(p as int) == rest,
            None => r is None,
        },
{
    let ghost s = b@.skip(pos as int);
    if b.len() - pos < 8 {
        return None;
    }
    let n: u64 = (b[pos] as u64) | ((b[pos + 1] as u64) << 8u64) | ((b[pos + 2] as u64) << 16u64)
        | ((b[pos + 3] as u64) << 24u64) | ((b[pos + 4] as u64) << 32u64) | ((b[pos + 5] as u64) << 40u64)
        | ((b[pos + 6] as u64) << 48u64) | ((b[pos + 7] as u64) << 56u64);
    assert(n == from_le8(s));
    let avail: usize = b.len() - pos - 8;
    if n > avail as u64 {
        return None;
    }
    let start: usize = pos + 8;
    let end: usize = start + n as usize;
    let mut v: Vec<u8> = Vec::with_capacity(n as usize);
    let mut i: usize = start;
    while i < end
        invariant
            start <= i <= end <= b@.len(),
            v@ == b@.subrange(start as int, i as int),
        decreases end - i,
    {
        v.push(b[i]);
        i += 1;
        assert(v@ =~= b@.subrange(start as int, i as int));
    }
    assert(v@ =~= s.subrange(8, 8 + n as int));
    assert(b@.skip(end as int) =~= s.skip(8 + n as int));
    Some((v, end))
}

/// Reads the frame that starts at `pos` in `b` as UTF-8 text.
fn read_text(b: &[u8], pos: usize) -> (r: Option<(String, usize)>)
    requires
        pos <= b@.len(),
    ensures
        match take_text(b@.skip(pos as int)) {
            Some((t, rest)) => r matches Some((s, p)) && s@ == t && p <= b@.len() && b@.skip(p as int) == rest,
            None => r is None,
        },
{
    match read_frame(b, pos) {
        None => None,
        Some((v, p)) => match string_from_utf8(v) {
            Some(s) => Some((s, p)),
            None => None,
        },
    }
}

/// The session record: the writer's or reader's opaque state, and where on the
/// channel the session stands.
pub struct ChannelState {
    author_state: Vec<u8>,
    channel_address: String,
    announcement_id: String,
    last_public_msg: String,
    last_masked_msg: String,
}

impl View for ChannelState {
    type V = ChannelStateView;

    closed spec fn view(&self) -> ChannelStateView {
        ChannelStateView {
            author_state: self.author_state@,
            channel_address: self.channel_address@,
            announcement_id: self.announcement_id@,
            last_public_msg: self.last_public_msg@,
            last_masked_msg: self.last_masked_msg@,
        }
    }
}

impl ChannelState {
    /// Captures a record from its fields.
    pub fn new(
        author_state: &[u8],
        channel_address: &str,
        announcement_id: &str,
        last_public_msg: &str,
        last_masked_msg: &str,
    ) -> (r: ChannelState)
        ensures
            r@ == (ChannelStateView {
                author_state: author_state@,
                channel_address: channel_address@,
                announcement_id: announcement_id@,
                last_public_msg: last_public_msg@,
                last_masked_msg: last_masked_msg@,
            }),
    {
        ChannelState {
            author_state: copy_bytes(author_state),
            channel_address: channel_address.to_owned(),
            announcement_id: announcement_id.to_owned(),
            last_public_msg: last_public_msg.to_owned(),
            last_masked_msg: last_masked_msg.to_owned(),
        }
    }

    /// The opaque writer or reader state.
    pub fn author_state(&self) -> (r: Vec<u8>)
        ensures
            r@ == self@.author_state,
    {
        copy_bytes(self.author_state.as_slice())
    }

    /// The channel's address.
    pub fn channel_address(&self) -> (r: String)
        ensures
            r@ == self@.channel_address,
    {
        self.channel_address.clone()
    }

    /// The id of the channel's announcement.
    pub fn announcement_id(&self) -> (r: String)
        ensures
            r@ == self@.announcement_id,
    {
        self.announcement_id.clone()
    }

    /// The id of the last public message.
    pub fn last_public_msg(&self) -> (r: String)
        ensures
            r@ == self@.last_public_msg,
    {
        self.last_public_msg.clone()
    }

    /// The id of the last masked message.
    pub fn last_masked_msg(&self) -> (r: String)
        ensures
            r@ == self@.last_masked_msg,
    {
        self.last_masked_msg.clone()
    }

    /// The persisted form of the record.
    pub fn to_bytes(&self) -> (r: Vec<u8>)
        ensures
            r@ == encode_state(self@),
    {
        let mut out: Vec<u8> = Vec::new();
        push_frame(&mut out, self.author_state.as_slice());
        push_frame(&mut out, self.channel_address.as_str().as_bytes());
        push_frame(&mut out, self.announcement_id.as_str().as_bytes());
        push_frame(&mut out, self.last_public_msg.as_str().as_bytes());
        push_frame(&mut out, self.last_masked_msg.as_str().as_bytes());
        out
    }

    /// Loads a record from its persisted form; a `Persistence` error exactly
    /// when the bytes hold no record.
    pub fn from_bytes(b: &[u8]) -> (r: Result<ChannelState, SessionError>)
        ensures
            match decode_state(b@) {
                Some(v) => r matches Ok(s) && s@ == v,
                None => r == Err::<ChannelState, SessionError>(SessionError::Persistence),
            },
    {
        assert(b@.skip(0) =~= b@);
        let (author_state, p1) = match read_frame(b, 0) {
            Some(x) => x,
            None => return Err(SessionError::Persistence),
        };
        let (channel_address, p2) = match read_text(b, p1) {
            Some(x) => x,
            None => return Err(SessionError::Persistence),
        };
        let (announcement_id, p3) = match read_text(b, p2) {
            Some(x) => x,
            None => return Err(SessionError::Persistence),
        };
        let (last_public_msg, p4) = match read_text(b, p3) {
            Some(x) => x,
            None => return Err(SessionError::Persistence),
        };
        let (last_masked_msg, p5) = match read_text(b, p4) {
            Some(x) => x,
            None => return Err(SessionError::Persistence),
        };
        if p5 != b.len() {
            return Err(SessionError::Persistence);
        }
        Ok(ChannelState { author_state, channel_address, announcement_id, last_public_msg, last_masked_msg })
    }
}

} // verus!
