use vstd::prelude::*;
use chacha20poly1305::XChaCha20Poly1305;
use chacha20poly1305::aead::{Aead, NewAead};
use aead::generic_array::GenericArray;
use crate::bytes::copy_bytes;
use crate::error::SessionError;

verus! {

/// Length in bytes of a symmetric key.
pub const KEY_LEN: usize = 32;

/// Length in bytes of an extended nonce.
pub const NONCE_LEN: usize = 24;

/// Messages of this many 64-byte blocks or more are refused by the cipher.
pub const MAX_BLOCKS: usize = 0xffff_ffff;

/// The ciphertext, tag appended, that XChaCha20-Poly1305 makes of `plain`.
pub uninterp spec fn sealed(key: Seq<u8>, nonce: Seq<u8>, plain: Seq<u8>) -> Seq<u8>;

/// What XChaCha20-Poly1305 recovers from `cipher`; `None` when the tag does not authenticate.
pub uninterp spec fn opened(key: Seq<u8>, nonce: Seq<u8>, cipher: Seq<u8>) -> Option<Seq<u8>>;

/// Relies on `Aead::encrypt` of chacha20poly1305's `XChaCha20Poly1305` with no
/// associated data: the result decrypts back to `plain` under the same key and
/// nonce, and it fails only when `plain` holds `MAX_BLOCKS` 64-byte blocks or more.
#[verifier::external_body]
fn xchacha_encrypt(key: &[u8], nonce: &[u8], plain: &[u8]) -> (r: Result<Vec<u8>, ()>)
    requires
        key@.len() == KEY_LEN,
        nonce@.len() == NONCE_LEN,
    ensures
        r is Err <==> plain@.len() / 64 >= MAX_BLOCKS,
        r matches Ok(c) ==> c@ == sealed(key@, nonce@, plain@) && opened(key@, nonce@, c@) == Some(plain@),
{
    let cipher = XChaCha20Poly1305::new(GenericArray::from_slice(key));
    cipher.encrypt(GenericArray::from_slice(nonce), plain).map_err(|_| ())
}

/// Relies on `Aead::decrypt` of chacha20poly1305's `XChaCha20Poly1305` with no
/// associated data: the plaintext when the tag authenticates, an error otherwise.
#[verifier::external_body]
fn xchacha_decrypt(key: &[u8], nonce: &[u8], cipher: &[u8]) -> (r: Result<Vec<u8>, ()>)
    requires
        key@.len() == KEY_LEN,
        nonce@.len() == NONCE_LEN,
    ensures
        match r {
            Ok(p) => opened(key@, nonce@, cipher@) == Some(p@),
            Err(_) => opened(key@, nonce@, cipher@) is None,
        },
{
    let aead = XChaCha20Poly1305::new(GenericArray::from_slice(key));
    aead.decrypt(GenericArray::from_slice(nonce), cipher).map_err(|_| ())
}

/// A key and a nonce of the lengths that the cipher takes.
pub open spec fn valid_key_nonce(key: Seq<u8>, nonce: Seq<u8>) -> bool {
    key.len() == KEY_LEN && nonce.len() == NONCE_LEN
}

/// The view of an optional pair of key and nonce.
pub open spec fn key_nonce_view(kn: Option<(&[u8], &[u8])>) -> Option<(Seq<u8>, Seq<u8>)> {
    match kn {
        Some((k, n)) => Some((k@, n@)),
        None => None,
    }
}

/// What the masked part of a packet holds on the wire: the plaintext, or its
/// ciphertext and tag when a key and nonce are given.
pub open spec fn wire_masked(
    masked: Seq<u8>,
    kn: Option<(Seq<u8>, Seq<u8>)>,
) -> Result<Seq<u8>, SessionError> {
    match kn {
        None => Ok(masked),
        Some((k, n)) => if !valid_key_nonce(k, n) || masked.len() / 64 >= MAX_BLOCKS {
            Err(SessionError::Crypto)
        } else {
            Ok(sealed(k, n, masked))
        },
    }
}

/// The plaintext masked part recovered from its wire form.
pub open spec fn plain_masked(
    wire: Seq<u8>,
    kn: Option<(Seq<u8>, Seq<u8>)>,
) -> Result<Seq<u8>, SessionError> {
    match kn {
        None => Ok(wire),
        Some((k, n)) => if !valid_key_nonce(k, n) {
            Err(SessionError::Crypto)
        } else {
            match opened(k, n, wire) {
                Some(m) => Ok(m),
                None => Err(SessionError::Crypto),
            }
        },
    }
}

/// The public and masked bytes of one message, the masked part as it goes on the wire.
pub struct Packet {
    public: Vec<u8>,
    masked: Vec<u8>,
    /// The masked plaintext that the packet was built from.
    plain: Ghost<Seq<u8>>,
    /// The key and nonce that the masked part was sealed under, if any.
    sealed_with: Ghost<Option<(Seq<u8>, Seq<u8>)>>,
}

/// The view of a packet: its public bytes and its masked bytes as on the wire.
pub struct PacketView {
    pub public: Seq<u8>,
    pub masked: Seq<u8>,
}

impl View for Packet {
    type V = PacketView;

    closed spec fn view(&self) -> PacketView {
        PacketView { public: self.public@, masked: self.masked@ }
    }
}

impl Packet {
    /// The masked plaintext the packet carries.
    pub closed spec fn plain(&self) -> Seq<u8> {
        self.plain@
    }

    /// The key and nonce its masked part was sealed under.
    pub closed spec fn sealed_with(&self) -> Option<(Seq<u8>, Seq<u8>)> {
        self.sealed_with@
    }

    /// The masked bytes on the wire are those of the plaintext under the packet's key and nonce.
    pub closed spec fn wf(&self) -> bool {
        match self.sealed_with@ {
            None => self.masked@ == self.plain@,
            Some((k, n)) => valid_key_nonce(k, n) && opened(k, n, self.masked@) == Some(self.plain@),
        }
    }

    /// A packet as it arrives from the transport, its masked part taken as plaintext.
    pub fn from_parts(public: Vec<u8>, masked: Vec<u8>) -> (r: Packet)
        ensures
            r@ == (PacketView { public: public@, masked: masked@ }),
            r.wf(),
            r.plain() == masked@,
            r.sealed_with() is None,
    {
        let ghost m = masked@;
        Packet { public, masked, plain: Ghost(m), sealed_with: Ghost(None) }
    }

    /// The public bytes.
    pub fn public_bytes(&self) -> (r: Vec<u8>)
        ensures
            r@ == self@.public,
    {
        self.public.clone()
    }

    /// The masked bytes as they go on the wire.
    pub fn masked_bytes(&self) -> (r: Vec<u8>)
        ensures
            r@ == self@.masked,
    {
        self.masked.clone()
    }

    /// Recovers the public bytes and the plaintext masked bytes, decrypting the
    /// masked part when a key and nonce are given.
    pub fn parse(&self, key_nonce: Option<(&[u8], &[u8])>) -> (r: Result<(Vec<u8>, Vec<u8>), SessionError>)
        ensures
            match plain_masked(self@.masked, key_nonce_view(key_nonce)) {
                Ok(m) => r matches Ok((p, q)) && p@ == self@.public && q@ == m,
                Err(e) => r == Err::<(Vec<u8>, Vec<u8>), SessionError>(e),
            },
    {
        let public = self.public.clone();
        match key_nonce {
            None => Ok((public, self.masked.clone())),
            Some((k, n)) => {
                if k.len() != KEY_LEN || n.len() != NONCE_LEN {
                    return Err(SessionError::Crypto);
                }
                match xchacha_decrypt(k, n, self.masked.as_slice()) {
                    Ok(m) => Ok((public, m)),
                    Err(_) => Err(SessionError::Crypto),
                }
            },
        }
    }
}

/// Accumulates the parts of a packet before it is sealed.
pub struct PacketBuilder {
    public: Vec<u8>,
    masked: Vec<u8>,
    key_nonce: Option<(Vec<u8>, Vec<u8>)>,
}

/// The view of a builder: public bytes, masked plaintext, and the key and nonce if set.
pub struct PacketBuilderView {
    pub public: Seq<u8>,
    pub masked: Seq<u8>,
    pub key_nonce: Option<(Seq<u8>, Seq<u8>)>,
}

impl View for PacketBuilder {
    type V = PacketBuilderView;

    closed spec fn view(&self) -> PacketBuilderView {
        PacketBuilderView {
            public: self.public@,
            masked: self.masked@,
            key_nonce: match self.key_nonce {
                Some((k, n)) => Some((k@, n@)),
                None => None,
            },
        }
    }
}

impl PacketBuilder {
    /// A builder with empty parts and no encryption.
    pub fn new() -> (r: PacketBuilder)
        ensures
            r@ == (PacketBuilderView { public: Seq::empty(), masked: Seq::empty(), key_nonce: None }),
    {
        PacketBuilder { public: Vec::new(), masked: Vec::new(), key_nonce: None }
    }

    /// Sets the public bytes.
    pub fn public(self, bytes: &[u8]) -> (r: PacketBuilder)
        ensures
            r@ == (PacketBuilderView { public: bytes@, ..self@ }),
    {
        PacketBuilder { public: copy_bytes(bytes), masked: self.masked, key_nonce: self.key_nonce }
    }

    /// Sets the masked plaintext bytes.
    pub fn masked(self, bytes: &[u8]) -> (r: PacketBuilder)
        ensures
            r@ == (PacketBuilderView { masked: bytes@, ..self@ }),
    {
        PacketBuilder { public: self.public, masked: copy_bytes(bytes), key_nonce: self.key_nonce }
    }

    /// Sets the key and nonce that the masked part is to be sealed under.
    pub fn key_nonce(self, key: &[u8], nonce: &[u8]) -> (r: PacketBuilder)
        ensures
            r@ == (PacketBuilderView { key_nonce: Some((key@, nonce@)), ..self@ }),
    {
        PacketBuilder { public: self.public, masked: self.masked, key_nonce: Some((copy_bytes(key), copy_bytes(nonce))) }
    }

    /// Seals the masked part when a key and nonce were set, checking their
    /// lengths first, and yields the packet.
    pub fn build(self) -> (r: Result<Packet, SessionError>)
        ensures
            match wire_masked(self@.masked, self@.key_nonce) {
                Ok(w) => r matches Ok(p) && p@ == (PacketView { public: self@.public, masked: w })
                    && p.wf() && p.plain() == self@.masked && p.sealed_with() == self@.key_nonce,
                Err(e) => r == Err::<Packet, SessionError>(e),
            },
    {
        let ghost plain = self.masked@;
        let ghost kn = self@.key_nonce;
        match self.key_nonce {
            None => Ok(Packet { public: self.public, masked: self.masked, plain: Ghost(plain), sealed_with: Ghost(kn) }),
            Some((k, n)) => {
                if k.len() != KEY_LEN || n.len() != NONCE_LEN {
                    return Err(SessionError::Crypto);
                }
                match xchacha_encrypt(k.as_slice(), n.as_slice(), self.masked.as_slice()) {
                    Ok(c) => Ok(Packet { public: self.public, masked: c, plain: Ghost(plain), sealed_with: Ghost(kn) }),
                    Err(_) => Err(SessionError::Crypto),
                }
            },
        }
    }
}

} // verus!

verus! {

/// Parsing a packet with the key and nonce it was built with gives back its
/// masked plaintext; with `build`'s contract, the public and masked bytes it was
/// built from.
pub proof fn lemma_round_trip(p: Packet)
    requires
        p.wf(),
    ensures
        plain_masked(p@.masked, p.sealed_with()) == Ok::<Seq<u8>, SessionError>(p.plain()),
{
}

/// Without a key and nonce the masked bytes go on the wire as they are, and
/// parsing without a key and nonce hands them back as they are.
pub proof fn lemma_plain_path(masked: Seq<u8>)
    ensures
        wire_masked(masked, None) == Ok::<Seq<u8>, SessionError>(masked),
        plain_masked(masked, None) == Ok::<Seq<u8>, SessionError>(masked),
{
}

/// A key or nonce of the wrong length is refused on both sides, whatever the bytes.
pub proof fn lemma_bad_lengths_refused(masked: Seq<u8>, key: Seq<u8>, nonce: Seq<u8>)
    requires
        !valid_key_nonce(key, nonce),
    ensures
        wire_masked(masked, Some((key, nonce))) == Err::<Seq<u8>, SessionError>(SessionError::Crypto),
        plain_masked(masked, Some((key, nonce))) == Err::<Seq<u8>, SessionError>(SessionError::Crypto),
{
}

} // verus!
