//! The secure handshake with a peer and with the rendezvous server: which
//! keys are trusted, when the session is encrypted, when it may continue in
//! the clear, and what the login proves about the password.
use crate::crypto::{base64_decode, base64_standard_decode, sha256, sha256_digest};
use crate::endpoint::RS_PUB_KEY;
use crate::connect::str_equal;
use vstd::prelude::*;

verus! {

/// A 32-byte key, if `bytes` is exactly that long.
pub fn get_pk(bytes: &[u8]) -> (r: Option<[u8; 32]>)
    ensures
        match r {
            Some(pk) => bytes@.len() == 32 && pk@ == bytes@,
            None => bytes@.len() != 32,
        },
{
    if bytes.len() != 32 {
        return None;
    }
    let mut pk = [0u8; 32];
    let mut i: usize = 0;
    while i < 32
        invariant
            bytes@.len() == 32,
            i <= 32,
            pk@.len() == 32,
            forall|k: int| 0 <= k < i ==> pk@[k] == bytes@[k],
        decreases 32 - i,
    {
        pk.set(i, bytes[i]);
        i = i + 1;
    }
    assert(pk@ =~= bytes@);
    Some(pk)
}

/// The public key that a base64 server key stands for.
pub open spec fn spec_server_pk(key: Seq<char>) -> Option<Seq<u8>> {
    match base64_decode(key) {
        Some(b) => if b.len() == 32 {
            Some(b)
        } else {
            None
        },
        None => None,
    }
}

pub fn get_rs_pk(key: &str) -> (r: Option<[u8; 32]>)
    ensures
        match r {
            Some(pk) => spec_server_pk(key@) == Some(pk@),
            None => spec_server_pk(key@) is None,
        },
{
    match base64_standard_decode(key) {
        Some(bytes) => get_pk(bytes.as_slice()),
        None => None,
    }
}

/// The server key a peer handshake checks against: the configured one, or
/// the public server's key when none is configured.
pub fn handshake_server_key(key: &str) -> (r: &str)
    ensures
        r@ == (if key@.len() == 0 {
            RS_PUB_KEY@
        } else {
            key@
        }),
{
    if key.is_empty() {
        RS_PUB_KEY
    } else {
        key
    }
}

/// Why a secure handshake was refused.
#[derive(Clone, Copy, Debug, PartialEq, Eq, Structural)]
pub enum HandshakeError {
    InvalidServerKey,
    ServerKeyMismatch,
    NoSignedId,
    InvalidHandshakeMessage,
    ExpectedSignedId,
    PeerIdMismatch,
    InvalidPeerSignature,
}

pub open spec fn handshake_error_text(e: HandshakeError) -> Seq<char> {
    match e {
        HandshakeError::InvalidServerKey => "invalid server key"@,
        HandshakeError::ServerKeyMismatch => "server key mismatch"@,
        HandshakeError::NoSignedId => "peer did not send signed id"@,
        HandshakeError::InvalidHandshakeMessage => "invalid handshake message"@,
        HandshakeError::ExpectedSignedId => "expected signed id"@,
        HandshakeError::PeerIdMismatch => "peer signed id mismatch"@,
        HandshakeError::InvalidPeerSignature => "invalid peer signature"@,
    }
}

impl HandshakeError {
    pub fn message(&self) -> (r: &'static str)
        ensures
            r@ == handshake_error_text(*self),
    {
        match self {
            HandshakeError::InvalidServerKey => "invalid server key",
            HandshakeError::ServerKeyMismatch => "server key mismatch",
            HandshakeError::NoSignedId => "peer did not send signed id",
            HandshakeError::InvalidHandshakeMessage => "invalid handshake message",
            HandshakeError::ExpectedSignedId => "expected signed id",
            HandshakeError::PeerIdMismatch => "peer signed id mismatch",
            HandshakeError::InvalidPeerSignature => "invalid peer signature",
        }
    }
}

/// A signed id/key pair, as the signature check and the decoder left it:
/// `Err(())` when the signature or the encoding did not check out.
pub type DecodedIdPk = Result<(String, [u8; 32]), ()>;

/// The first step of the peer handshake.
#[derive(Clone, Copy, Debug, PartialEq, Eq)]
pub enum HandshakeStart {
    /// Send an empty message and continue unencrypted. `approved_insecure`
    /// says the user allowed this despite a failed identity check.
    SendPlain { approved_insecure: bool },
    /// Refuse the session.
    Reject(HandshakeError),
    /// Wait for the peer's signed id, checked with this key.
    AwaitSignedId([u8; 32]),
}

/// The identity check of the rendezvous server's signature on the peer: `None`
/// when the server sent no signed key, else whether it checked out and named
/// `peer_id`.
pub open spec fn id_check(rendezvous_id: Option<DecodedIdPk>, peer_id: Seq<char>) -> Option<
    Result<[u8; 32], HandshakeError>,
> {
    match rendezvous_id {
        None => None,
        Some(Ok((id, pk))) => if id@ == peer_id {
            Some(Ok(pk))
        } else {
            Some(Err(HandshakeError::ServerKeyMismatch))
        },
        Some(Err(())) => Some(Err(HandshakeError::ServerKeyMismatch)),
    }
}

pub open spec fn spec_handshake_start(
    server_key_valid: bool,
    rendezvous_id: Option<DecodedIdPk>,
    peer_id: Seq<char>,
    allow_insecure: bool,
) -> HandshakeStart {
    if !server_key_valid {
        if allow_insecure {
            HandshakeStart::SendPlain { approved_insecure: true }
        } else {
            HandshakeStart::Reject(HandshakeError::InvalidServerKey)
        }
    } else {
        match id_check(rendezvous_id, peer_id) {
            None => HandshakeStart::SendPlain { approved_insecure: false },
            Some(Ok(pk)) => HandshakeStart::AwaitSignedId(pk),
            Some(Err(e)) => if allow_insecure {
                HandshakeStart::SendPlain { approved_insecure: true }
            } else {
                HandshakeStart::Reject(e)
            },
        }
    }
}

/// Decides how the handshake starts. `server_key_valid` says the server key
/// decoded to a public key; `rendezvous_id` is the rendezvous server's
/// signed id/key of the peer, checked with that key (`None` when the server
/// sent none).
pub fn secure_peer_start(
    server_key_valid: bool,
    rendezvous_id: Option<DecodedIdPk>,
    peer_id: &str,
    allow_insecure: bool,
) -> (r: HandshakeStart)
    ensures
        r == spec_handshake_start(server_key_valid, rendezvous_id, peer_id@, allow_insecure),
{
    if !server_key_valid {
        return if allow_insecure {
            HandshakeStart::SendPlain { approved_insecure: true }
        } else {
            HandshakeStart::Reject(HandshakeError::InvalidServerKey)
        };
    }
    let checked: Option<Result<[u8; 32], HandshakeError>> = match rendezvous_id {
        None => None,
        Some(Ok((id, pk))) => if str_equal(id.as_str(), peer_id) {
            Some(Ok(pk))
        } else {
            Some(Err(HandshakeError::ServerKeyMismatch))
        },
        Some(Err(())) => Some(Err(HandshakeError::ServerKeyMismatch)),
    };
    match checked {
        None => HandshakeStart::SendPlain { approved_insecure: false },
        Some(Ok(pk)) => HandshakeStart::AwaitSignedId(pk),
        Some(Err(e)) => if allow_insecure {
            HandshakeStart::SendPlain { approved_insecure: true }
        } else {
            HandshakeStart::Reject(e)
        },
    }
}

/// What the peer sent while the handshake waited for its signed id.
pub enum SignedIdReply {
    /// Nothing arrived in time.
    Missing,
    /// A frame that is no peer message.
    Unparsable,
    /// A peer message of another kind.
    NotSignedId,
    /// A signed id, checked with the key from the first step.
    Decoded(DecodedIdPk),
}

pub open spec fn spec_handshake_finish(reply: SignedIdReply, peer_id: Seq<char>) -> Result<
    [u8; 32],
    HandshakeError,
> {
    match reply {
        SignedIdReply::Missing => Err(HandshakeError::NoSignedId),
        SignedIdReply::Unparsable => Err(HandshakeError::InvalidHandshakeMessage),
        SignedIdReply::NotSignedId => Err(HandshakeError::ExpectedSignedId),
        SignedIdReply::Decoded(Ok((id, pk))) => if id@ == peer_id {
            Ok(pk)
        } else {
            Err(HandshakeError::PeerIdMismatch)
        },
        SignedIdReply::Decoded(Err(())) => Err(HandshakeError::InvalidPeerSignature),
    }
}

/// Decides the end of the handshake: `Ok(key)` is the peer's key that the
/// session key is sealed to; every other reply refuses the session.
pub fn secure_peer_finish(reply: SignedIdReply, peer_id: &str) -> (r: Result<[u8; 32], HandshakeError>)
    ensures
        r == spec_handshake_finish(reply, peer_id@),
{
    match reply {
        SignedIdReply::Missing => Err(HandshakeError::NoSignedId),
        SignedIdReply::Unparsable => Err(HandshakeError::InvalidHandshakeMessage),
        SignedIdReply::NotSignedId => Err(HandshakeError::ExpectedSignedId),
        SignedIdReply::Decoded(Ok((id, pk))) => if str_equal(id.as_str(), peer_id) {
            Ok(pk)
        } else {
            Err(HandshakeError::PeerIdMismatch)
        },
        SignedIdReply::Decoded(Err(())) => Err(HandshakeError::InvalidPeerSignature),
    }
}

/// A session is only ever continued in the clear after a failed identity
/// check when the user allowed it; with a valid server key and a rendezvous
/// signature that names the peer, the handshake always goes on to
/// encryption; and without the user's approval every failed check refuses.
pub proof fn handshake_never_downgrades(
    server_key_valid: bool,
    rendezvous_id: Option<DecodedIdPk>,
    peer_id: Seq<char>,
    allow_insecure: bool,
)
    ensures
        spec_handshake_start(server_key_valid, rendezvous_id, peer_id, allow_insecure)
            == (HandshakeStart::SendPlain { approved_insecure: true }) ==> allow_insecure,
        (server_key_valid && (id_check(rendezvous_id, peer_id) matches Some(Ok(_))))
            ==> spec_handshake_start(server_key_valid, rendezvous_id, peer_id, allow_insecure) is AwaitSignedId,
        (!allow_insecure && (!server_key_valid || (id_check(rendezvous_id, peer_id) matches Some(Err(_)))))
            ==> spec_handshake_start(server_key_valid, rendezvous_id, peer_id, allow_insecure) is Reject,
{
}

/// Why the rendezvous server's key exchange was refused.
#[derive(Clone, Copy, Debug, PartialEq, Eq, Structural)]
pub enum RendezvousSecureError {
    InvalidServerKey,
    InvalidKeyExchange,
    SignatureMismatch,
    InvalidKeyLength,
}

/// What the rendezvous server offered for transport encryption.
pub enum KeyExchangeOffer {
    /// No key exchange (an older server): the connection stays plain.
    NotOffered,
    /// A key exchange with this many keys, the first one's signature checked
    /// with the server key (`Err(())` on a mismatch).
    Keys(usize, Result<Vec<u8>, ()>),
}

/// `Ok(Some(key))`: seal a session key to `key`; `Ok(None)`: continue plain.
pub fn rendezvous_key_exchange(server_key_valid: bool, offer: KeyExchangeOffer) -> (r: Result<
    Option<[u8; 32]>,
    RendezvousSecureError,
>)
    ensures
        !server_key_valid ==> r == Err::<Option<[u8; 32]>, RendezvousSecureError>(
            RendezvousSecureError::InvalidServerKey,
        ),
        server_key_valid ==> match offer {
            KeyExchangeOffer::NotOffered => r == Ok::<Option<[u8; 32]>, RendezvousSecureError>(None),
            KeyExchangeOffer::Keys(n, verified) => if n != 1 {
                r == Err::<Option<[u8; 32]>, RendezvousSecureError>(
                    RendezvousSecureError::InvalidKeyExchange,
                )
            } else {
                match verified {
                    Err(()) => r == Err::<Option<[u8; 32]>, RendezvousSecureError>(
                        RendezvousSecureError::SignatureMismatch,
                    ),
                    Ok(bytes) => if bytes@.len() == 32 {
                        r matches Ok(Some(pk)) && pk@ == bytes@
                    } else {
                        r == Err::<Option<[u8; 32]>, RendezvousSecureError>(
                            RendezvousSecureError::InvalidKeyLength,
                        )
                    },
                }
            },
        },
{
    if !server_key_valid {
        return Err(RendezvousSecureError::InvalidServerKey);
    }
    match offer {
        KeyExchangeOffer::NotOffered => Ok(None),
        KeyExchangeOffer::Keys(n, verified) => {
            if n != 1 {
                return Err(RendezvousSecureError::InvalidKeyExchange);
            }
            match verified {
                Err(()) => Err(RendezvousSecureError::SignatureMismatch),
                Ok(bytes) => match get_pk(bytes.as_slice()) {
                    Some(pk) => Ok(Some(pk)),
                    None => Err(RendezvousSecureError::InvalidKeyLength),
                },
            }
        },
    }
}

/// The password proof sent at login: SHA-256 of SHA-256 of the password and
/// the salt, then the challenge; empty when no password was given.
pub open spec fn spec_login_proof(password: Seq<u8>, salt: Seq<u8>, challenge: Seq<u8>) -> Seq<u8> {
    if password.len() == 0 {
        Seq::empty()
    } else {
        sha256(sha256(password + salt) + challenge)
    }
}

pub fn login_password_response(password: &[u8], salt: &str, challenge: &str) -> (r: Vec<u8>)
    ensures
        r@ == spec_login_proof(password@, vstd::utf8::encode_utf8(salt@), vstd::utf8::encode_utf8(challenge@)),
{
    if password.len() == 0 {
        return Vec::new();
    }
    let mut first: Vec<u8> = Vec::new();
    append_bytes(&mut first, password);
    append_bytes(&mut first, salt.as_bytes());
    let inner = sha256_digest(first.as_slice());
    let mut second: Vec<u8> = inner;
    append_bytes(&mut second, challenge.as_bytes());
    sha256_digest(second.as_slice())
}

fn append_bytes(v: &mut Vec<u8>, b: &[u8])
    ensures
        final(v)@ == old(v)@ + b@,
{
    let mut i: usize = 0;
    while i < b.len()
        invariant
            i <= b@.len(),
            v@ == old(v)@ + b@.subrange(0, i as int),
        decreases b@.len() - i,
    {
        v.push(b[i]);
        i = i + 1;
        assert(v@ =~= old(v)@ + b@.subrange(0, i as int));
    }
    assert(b@.subrange(0, b@.len() as int) =~= b@);
}

} // verus!
