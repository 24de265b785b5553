//! UDP hole punching: the probe/ack packet format, the reply decision of the
//! punch loop, NAT classification and the direct-connect timing policy.
use vstd::prelude::*;

verus! {

/// The transports a session can run over, by their numeric codes.
pub const TRANSPORT_TCP: i32 = 1;

pub const TRANSPORT_UDP_KCP: i32 = 2;

pub const TRANSPORT_IPV6_KCP: i32 = 3;

pub const TRANSPORT_WEBRTC: i32 = 4;

pub const TRANSPORT_WEBSOCKET: i32 = 5;

/// Budget for a direct attempt when the peer is local or behind a symmetric NAT.
pub const LOCAL_DIRECT_CONNECT_TIMEOUT: u64 = 800;

/// Budget for a direct attempt when a relay is there to fall back on.
pub const DIRECT_CONNECT_TIMEOUT: u64 = 1500;

/// Budget for a direct attempt when no relay is available.
pub const DIRECT_ONLY_CONNECT_TIMEOUT: u64 = 5000;

pub const SERVER_CONNECT_TIMEOUT: u64 = 8000;

pub const RENDEZVOUS_REPLY_TIMEOUT: u64 = 6000;

pub const NAT_PROBE_TIMEOUT: u64 = 1500;

/// How long the UDP mapping probe may take, in milliseconds.
pub const UDP_NAT_TEST_TIMEOUT_MS: u64 = 300;

pub const IPV6_PREPARATION_TIMEOUT: u64 = 300;

pub const WEBRTC_OFFER_TIMEOUT: u64 = 500;

pub const WEBRTC_CONNECT_TIMEOUT: u64 = 3500;

/// Successive waits for the rendezvous server's answer to a punch request.
pub const PUNCH_REPLY_TIMEOUTS: [u64; 3] = [1500, 2500, 4000];

/// Tag of a punch probe: the bytes of `RDP?`.
pub const PUNCH_PROBE: [u8; 4] = [82, 68, 80, 63];

/// Tag of a punch acknowledgement: the bytes of `RDP!`.
pub const PUNCH_ACK: [u8; 4] = [82, 68, 80, 33];

/// A punch packet is a four-byte tag and a little-endian `u64` transaction.
pub const PUNCH_PACKET_LEN: usize = 12;

/// Display name of a transport code.
pub open spec fn transport_label(transport: i32) -> Seq<char> {
    if transport == TRANSPORT_TCP {
        "TCP"@
    } else if transport == TRANSPORT_UDP_KCP {
        "UDP/KCP"@
    } else if transport == TRANSPORT_IPV6_KCP {
        "IPv6/KCP"@
    } else if transport == TRANSPORT_WEBRTC {
        "WebRTC"@
    } else if transport == TRANSPORT_WEBSOCKET {
        "WebSocket"@
    } else {
        "Unknown"@
    }
}

pub fn stream_transport_label(transport: i32) -> (r: &'static str)
    ensures
        r@ == transport_label(transport),
{
    if transport == TRANSPORT_TCP {
        "TCP"
    } else if transport == TRANSPORT_UDP_KCP {
        "UDP/KCP"
    } else if transport == TRANSPORT_IPV6_KCP {
        "IPv6/KCP"
    } else if transport == TRANSPORT_WEBRTC {
        "WebRTC"
    } else if transport == TRANSPORT_WEBSOCKET {
        "WebSocket"
    } else {
        "Unknown"
    }
}

/// Which extra transports are prepared before a punch request is sent.
#[derive(Clone, Copy, Debug, PartialEq, Eq, Structural)]
pub struct TransportPreparationPolicy {
    pub udp_kcp: bool,
    pub ipv6_kcp: bool,
    pub webrtc: bool,
}

/// A forced relay prepares nothing; otherwise UDP and IPv6 are always
/// prepared and WebRTC only towards the public server, since a self-hosted
/// server never answers with WebRTC.
pub fn transport_preparation_policy(public_server: bool, force_relay: bool) -> (r:
    TransportPreparationPolicy)
    ensures
        r.udp_kcp == !force_relay,
        r.ipv6_kcp == !force_relay,
        r.webrtc == (public_server && !force_relay),
{
    if force_relay {
        return TransportPreparationPolicy { udp_kcp: false, ipv6_kcp: false, webrtc: false };
    }
    TransportPreparationPolicy { udp_kcp: true, ipv6_kcp: true, webrtc: public_server }
}

/// Byte `i` (from the least significant) of `t`.
pub open spec fn le_byte(t: u64, i: int) -> u8 {
    ((t >> ((8 * i) as u64)) & 0xff) as u8
}

/// The eight little-endian bytes of `t`, as `u64::to_le_bytes`.
pub open spec fn le_bytes(t: u64) -> Seq<u8> {
    Seq::new(8, |i: int| le_byte(t, i))
}

/// The number whose little-endian bytes are `b[0..8]`, as `u64::from_le_bytes`.
pub open spec fn le_value(b: Seq<u8>) -> int {
    b[0] + b[1] * 0x100 + b[2] * 0x1_0000 + b[3] * 0x100_0000 + b[4] * 0x1_0000_0000 + b[5]
        * 0x100_0000_0000 + b[6] * 0x1_0000_0000_0000 + b[7] * 0x100_0000_0000_0000
}

/// The packet that carries `tag` and `transaction`.
pub open spec fn spec_punch_packet(tag: Seq<u8>, transaction: u64) -> Seq<u8> {
    tag + le_bytes(transaction)
}

/// The transaction that `packet` carries under `tag`, if it is such a packet.
pub open spec fn spec_punch_transaction(packet: Seq<u8>, tag: Seq<u8>) -> Option<u64> {
    if packet.len() == PUNCH_PACKET_LEN && packet.subrange(0, 4) == tag {
        Some(le_value(packet.subrange(4, 12)) as u64)
    } else {
        None
    }
}

pub fn punch_packet(tag: &[u8; 4], transaction: u64) -> (r: [u8; 12])
    ensures
        r@ == spec_punch_packet(tag@, transaction),
{
    let t = transaction;
    let b0 = #[verifier::truncate] ((t & 0xff) as u8);
    let b1 = #[verifier::truncate] (((t >> 8u64) & 0xff) as u8);
    let b2 = #[verifier::truncate] (((t >> 16u64) & 0xff) as u8);
    let b3 = #[verifier::truncate] (((t >> 24u64) & 0xff) as u8);
    let b4 = #[verifier::truncate] (((t >> 32u64) & 0xff) as u8);
    let b5 = #[verifier::truncate] (((t >> 40u64) & 0xff) as u8);
    let b6 = #[verifier::truncate] (((t >> 48u64) & 0xff) as u8);
    let b7 = #[verifier::truncate] (((t >> 56u64) & 0xff) as u8);
    proof {
        lemma_le_bytes(t);
    }
    let r: [u8; 12] = [tag[0], tag[1], tag[2], tag[3], b0, b1, b2, b3, b4, b5, b6, b7];
    assert(r@ =~= spec_punch_packet(tag@, transaction));
    r
}

proof fn lemma_le_bytes(t: u64)
    ensures
        le_byte(t, 0) == #[verifier::truncate] ((t & 0xff) as u8),
        le_byte(t, 1) == #[verifier::truncate] (((t >> 8u64) & 0xff) as u8),
        le_byte(t, 2) == #[verifier::truncate] (((t >> 16u64) & 0xff) as u8),
        le_byte(t, 3) == #[verifier::truncate] (((t >> 24u64) & 0xff) as u8),
        le_byte(t, 4) == #[verifier::truncate] (((t >> 32u64) & 0xff) as u8),
        le_byte(t, 5) == #[verifier::truncate] (((t >> 40u64) & 0xff) as u8),
        le_byte(t, 6) == #[verifier::truncate] (((t >> 48u64) & 0xff) as u8),
        le_byte(t, 7) == #[verifier::truncate] (((t >> 56u64) & 0xff) as u8),
{
    assert(((t >> 0u64) & 0xff) as u8 == (t & 0xff) as u8) by (bit_vector);
}

proof fn lemma_le_compose(b0: u8, b1: u8, b2: u8, b3: u8, b4: u8, b5: u8, b6: u8, b7: u8)
    ensures
        (b0 as u64) | ((b1 as u64) << 8u64) | ((b2 as u64) << 16u64) | ((b3 as u64) << 24u64)
            | ((b4 as u64) << 32u64) | ((b5 as u64) << 40u64) | ((b6 as u64) << 48u64) | ((
        b7 as u64) << 56u64) == b0 + b1 * 0x100 + b2 * 0x1_0000 + b3 * 0x100_0000 + b4
            * 0x1_0000_0000 + b5 * 0x100_0000_0000 + b6 * 0x1_0000_0000_0000 + b7
            * 0x100_0000_0000_0000,
{
    assert((b0 as u64) | ((b1 as u64) << 8u64) | ((b2 as u64) << 16u64) | ((b3 as u64)
        << 24u64) | ((b4 as u64) << 32u64) | ((b5 as u64) << 40u64) | ((b6 as u64) << 48u64)
        | ((b7 as u64) << 56u64) == b0 + b1 * 0x100 + b2 * 0x1_0000 + b3 * 0x100_0000 + b4
        * 0x1_0000_0000 + b5 * 0x100_0000_0000 + b6 * 0x1_0000_0000_0000 + b7
        * 0x100_0000_0000_0000) by (bit_vector);
}

pub fn punch_transaction(packet: &[u8], tag: &[u8; 4]) -> (r: Option<u64>)
    ensures
        r == spec_punch_transaction(packet@, tag@),
{
    if packet.len() != PUNCH_PACKET_LEN || packet[0] != tag[0] || packet[1] != tag[1]
        || packet[2] != tag[2] || packet[3] != tag[3] {
        proof {
            if packet@.len() == PUNCH_PACKET_LEN && packet@.subrange(0, 4) == tag@ {
                assert(packet@[0] == packet@.subrange(0, 4)[0]);
                assert(packet@[1] == packet@.subrange(0, 4)[1]);
                assert(packet@[2] == packet@.subrange(0, 4)[2]);
                assert(packet@[3] == packet@.subrange(0, 4)[3]);
            }
        }
        return None;
    }
    assert(packet@.subrange(0, 4) =~= tag@);
    let b0 = packet[4];
    let b1 = packet[5];
    let b2 = packet[6];
    let b3 = packet[7];
    let b4 = packet[8];
    let b5 = packet[9];
    let b6 = packet[10];
    let b7 = packet[11];
    let v: u64 = (b0 as u64) | ((b1 as u64) << 8u64) | ((b2 as u64) << 16u64) | ((b3 as u64)
        << 24u64) | ((b4 as u64) << 32u64) | ((b5 as u64) << 40u64) | ((b6 as u64) << 48u64)
        | ((b7 as u64) << 56u64);
    proof {
        lemma_le_compose(b0, b1, b2, b3, b4, b5, b6, b7);
        let body = packet@.subrange(4, 12);
        assert(body[0] == b0 && body[1] == b1 && body[2] == b2 && body[3] == b3);
        assert(body[4] == b4 && body[5] == b5 && body[6] == b6 && body[7] == b7);
    }
    Some(v)
}

proof fn lemma_le_roundtrip(t: u64)
    ensures
        le_value(le_bytes(t)) == t,
{
    let b = le_bytes(t);
    assert(b[0] == le_byte(t, 0) && b[1] == le_byte(t, 1) && b[2] == le_byte(t, 2) && b[3]
        == le_byte(t, 3));
    assert(b[4] == le_byte(t, 4) && b[5] == le_byte(t, 5) && b[6] == le_byte(t, 6) && b[7]
        == le_byte(t, 7));
    assert(((t >> 0u64) & 0xff) as u8 + (((t >> 8u64) & 0xff) as u8) * 0x100 + (((t >> 16u64)
        & 0xff) as u8) * 0x1_0000 + (((t >> 24u64) & 0xff) as u8) * 0x100_0000 + (((t
        >> 32u64) & 0xff) as u8) * 0x1_0000_0000 + (((t >> 40u64) & 0xff) as u8)
        * 0x100_0000_0000 + (((t >> 48u64) & 0xff) as u8) * 0x1_0000_0000_0000 + (((t
        >> 56u64) & 0xff) as u8) * 0x100_0000_0000_0000 == t) by (bit_vector);
}

/// What the punch loop reads from a packet: the transaction of `packet` under
/// `tag` is `Some(t)` exactly when `packet` is `spec_punch_packet(tag, t)`.
/// In particular a packet decodes to the transaction it was built with, and
/// never decodes under the other tag.
pub proof fn punch_packet_roundtrip(tag: Seq<u8>, other: Seq<u8>, transaction: u64)
    requires
        tag.len() == 4,
        other.len() == 4,
        tag != other,
    ensures
        spec_punch_transaction(spec_punch_packet(tag, transaction), tag) == Some(transaction),
        spec_punch_transaction(spec_punch_packet(tag, transaction), other) is None,
{
    let p = spec_punch_packet(tag, transaction);
    assert(p.subrange(0, 4) =~= tag);
    assert(p.subrange(4, 12) =~= le_bytes(transaction));
    lemma_le_roundtrip(transaction);
}

/// What the punch loop does with one datagram it received.
#[derive(Clone, Copy, Debug, PartialEq, Eq, Structural)]
pub enum PunchReply {
    /// The path is open: the peer acknowledged our probe, or sent data.
    Established,
    /// The peer probed us: answer with an acknowledgement of its transaction.
    SendAck(u64),
    /// An empty datagram: keep waiting.
    Ignore,
}

pub open spec fn spec_punch_reply(packet: Seq<u8>, transaction: u64) -> PunchReply {
    if spec_punch_transaction(packet, PUNCH_ACK@) == Some(transaction) {
        PunchReply::Established
    } else if let Some(peer) = spec_punch_transaction(packet, PUNCH_PROBE@) {
        PunchReply::SendAck(peer)
    } else if packet.len() > 0 {
        PunchReply::Established
    } else {
        PunchReply::Ignore
    }
}

pub fn punch_reply(packet: &[u8], transaction: u64) -> (r: PunchReply)
    ensures
        r == spec_punch_reply(packet@, transaction),
{
    let ack = PUNCH_ACK;
    let probe = PUNCH_PROBE;
    if punch_transaction(packet, &ack) == Some(transaction) {
        return PunchReply::Established;
    }
    match punch_transaction(packet, &probe) {
        Some(peer) => PunchReply::SendAck(peer),
        None => {
            if packet.len() > 0 {
                PunchReply::Established
            } else {
                PunchReply::Ignore
            }
        },
    }
}

/// A punch transaction id made of two random 32-bit halves.
pub fn punch_transaction_id(high: u32, low: u32) -> (r: u64)
    ensures
        r == high * 0x1_0000_0000 + low,
{
    let r = ((high as u64) << 32u64) | (low as u64);
    assert(((high as u64) << 32u64) | (low as u64) == high * 0x1_0000_0000 + low)
        by (bit_vector);
    r
}


/// A datagram shorter than a KCP packet header is dropped before it reaches
/// the KCP endpoint.
pub fn kcp_datagram_accepted(size: usize, header_size: usize) -> (r: bool)
    ensures
        r == (size >= header_size),
{
    size >= header_size
}

} // verus!
