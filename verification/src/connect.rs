//! The decisions of one connection attempt: which peer strings are refused
//! before any network work, how the rendezvous server's answer to a punch
//! request is read, which direct transports race, when the relay is tried,
//! and which status code each failure is reported as.
use crate::endpoint::{spec_classify_direct_peer, classify_direct_peer, ParsedHost, PeerAddress};
use crate::rendezvous::{kind_name, rendezvous_message_kind, NatKind, RendezvousKind};
use crate::session::{spec_mark_connected, spec_status_code, ConnectionStatus};
use crate::text::{chars_of, push_text, string_from_chars, trim, trim_string};
use vstd::prelude::*;

verus! {

// ------------------------------------------------------------ status codes

/// The peer string is missing or empty, or the rendezvous server was unreachable.
pub const CONNECT_BAD_PEER: i32 = -1;

/// The punch request could not be sent.
pub const CONNECT_SEND_FAILED: i32 = -2;

/// The punch answer names no route and no failure this client knows.
pub const CONNECT_NO_ROUTE: i32 = -3;

/// A relay answer without relay server or session uuid.
pub const CONNECT_RELAY_INCOMPLETE: i32 = -4;

/// The server answered with a message that answers no punch request.
pub const CONNECT_UNEXPECTED_REPLY: i32 = -5;

/// No answer to any of the punch requests.
pub const CONNECT_NO_REPLY: i32 = -7;

pub const CONNECT_ID_NOT_EXIST: i32 = -8;

pub const CONNECT_OFFLINE: i32 = -9;

pub const CONNECT_LICENSE_MISMATCH: i32 = -10;

pub const CONNECT_LICENSE_OVERUSE: i32 = -11;

/// The rendezvous server refused the request.
pub const CONNECT_REFUSED: i32 = -13;

/// Every direct transport failed and no relay was available.
pub const CONNECT_DIRECT_FAILED: i32 = -14;

/// The relay could not be reached.
pub const CONNECT_RELAY_FAILED: i32 = -15;

/// The secure handshake failed.
pub const CONNECT_SECURE_FAILED: i32 = -16;

/// A newer connection attempt replaced this one.
pub const CONNECT_CANCELLED: i32 = -19;

/// The attempt ran past its deadline.
pub const CONNECT_DEADLINE: i32 = -20;

/// A credential store was busy.
pub const CONNECT_BUSY: i32 = -22;

/// The peer string looks like an IP literal but is not a usable one.
pub const CONNECT_BAD_LITERAL: i32 = -23;

/// The server key is invalid or does not match the server.
pub const CONNECT_SERVER_KEY: i32 = -24;

/// How long a whole connection attempt may take, in milliseconds.
pub const CONNECTION_DEADLINE_MS: u64 = 28000;

// ------------------------------------------------------------ before the network

/// What a peer string leads to before any network work: `Err(code)` when it
/// is refused, `Ok(Some(address))` for an IP literal that is dialled
/// directly, `Ok(None)` for an ID that goes through the rendezvous server.
pub open spec fn spec_connect_target(peer: Option<Seq<char>>, whole: ParsedHost, inner: ParsedHost) -> Result<
    Option<PeerAddress>,
    i32,
> {
    match peer {
        None => Err(CONNECT_BAD_PEER),
        Some(p) => if trim(p).len() == 0 {
            Err(CONNECT_BAD_PEER)
        } else {
            match spec_classify_direct_peer(trim(p), whole, inner) {
                Ok(a) => Ok(a),
                Err(_) => Err(CONNECT_BAD_LITERAL),
            }
        },
    }
}

/// `whole` and `inner` are what `std::net` parses the trimmed peer string as,
/// and the same without its brackets (see `classify_direct_peer`); the
/// peer is classified trimmed, and one that is blank is refused as missing.
pub fn connect_target(peer: Option<&str>, whole: &ParsedHost, inner: &ParsedHost) -> (r: Result<
    Option<PeerAddress>,
    i32,
>)
    ensures
        r == spec_connect_target(
            match peer {
                Some(p) => Some(p@),
                None => None,
            },
            *whole,
            *inner,
        ),
{
    match peer {
        None => Err(CONNECT_BAD_PEER),
        Some(p) => {
            let t = trim_string(p);
            if t.as_str().is_empty() {
                return Err(CONNECT_BAD_PEER);
            }
            match classify_direct_peer(t.as_str(), whole, inner) {
                Ok(a) => Ok(a),
                Err(_) => Err(CONNECT_BAD_LITERAL),
            }
        },
    }
}

// ------------------------------------------------------------ the punch answer

/// Why the server could not arrange a punch.
#[derive(Clone, Copy, Debug, PartialEq, Eq, Structural)]
pub enum PunchFailure {
    IdNotExist,
    Offline,
    LicenseMismatch,
    LicenseOveruse,
    /// A failure code this client does not know.
    Unrecognized,
}

pub open spec fn failure_code(f: PunchFailure) -> i32 {
    match f {
        PunchFailure::IdNotExist => CONNECT_ID_NOT_EXIST,
        PunchFailure::Offline => CONNECT_OFFLINE,
        PunchFailure::LicenseMismatch => CONNECT_LICENSE_MISMATCH,
        PunchFailure::LicenseOveruse => CONNECT_LICENSE_OVERUSE,
        PunchFailure::Unrecognized => CONNECT_NO_ROUTE,
    }
}

/// The fields of a punch-hole response that the client reads. Addresses are
/// `Some` where the message carried one (already decoded).
pub struct PunchHoleResponse {
    pub other_failure: String,
    pub pk: Vec<u8>,
    pub is_udp: bool,
    pub is_local: bool,
    pub nat_type: NatKind,
    pub socket_addr: Option<PeerAddress>,
    pub socket_addr_v6: Option<PeerAddress>,
    pub webrtc_sdp_answer: String,
    pub relay_server: String,
    pub failure: PunchFailure,
}

/// The fields of a punch-hole message that the client reads.
pub struct PunchHole {
    pub socket_addr: Option<PeerAddress>,
    pub socket_addr_v6: Option<PeerAddress>,
    pub relay_server: String,
}

/// The fields of a relay response that the client reads.
pub struct RelayResponse {
    pub refuse_reason: String,
    pub pk: Vec<u8>,
    pub relay_server: String,
    pub uuid: String,
    pub socket_addr_v6: Option<PeerAddress>,
    pub webrtc_sdp_answer: String,
}

/// The server's answer to a punch request.
pub enum PunchAnswer {
    HoleResponse(PunchHoleResponse),
    Hole(PunchHole),
    Relay(RelayResponse),
    /// Any other message, by its kind.
    Other(RendezvousKind),
}

/// What the rest of the attempt works with after the punch answer.
pub struct PunchPlan {
    pub peer_addr: Option<PeerAddress>,
    pub peer_ipv6_addr: Option<PeerAddress>,
    pub relay_server: String,
    pub signed_id_pk: Vec<u8>,
    pub is_local: bool,
    pub peer_nat: NatKind,
    pub peer_is_udp: bool,
    pub webrtc_sdp_answer: String,
    pub relay_uuid: Option<String>,
}

/// A `PunchPlan` with its text and bytes as sequences.
pub struct PlanModel {
    pub peer_addr: Option<PeerAddress>,
    pub peer_ipv6_addr: Option<PeerAddress>,
    pub relay_server: Seq<char>,
    pub signed_id_pk: Seq<u8>,
    pub is_local: bool,
    pub peer_nat: NatKind,
    pub peer_is_udp: bool,
    pub webrtc_sdp_answer: Seq<char>,
    pub relay_uuid: Option<Seq<char>>,
}

impl View for PunchPlan {
    type V = PlanModel;

    open spec fn view(&self) -> PlanModel {
        PlanModel {
            peer_addr: self.peer_addr,
            peer_ipv6_addr: self.peer_ipv6_addr,
            relay_server: self.relay_server@,
            signed_id_pk: self.signed_id_pk@,
            is_local: self.is_local,
            peer_nat: self.peer_nat,
            peer_is_udp: self.peer_is_udp,
            webrtc_sdp_answer: self.webrtc_sdp_answer@,
            relay_uuid: match self.relay_uuid {
                Some(u) => Some(u@),
                None => None,
            },
        }
    }
}

/// An IPv6 candidate is only kept when it carries a port.
pub open spec fn usable_v6(a: Option<PeerAddress>) -> Option<PeerAddress> {
    match a {
        Some(x) => if x.port > 0 {
            Some(x)
        } else {
            None
        },
        None => None,
    }
}

/// The relay named in the answer, unless the user configured one.
pub open spec fn chosen_relay(relay_override: Seq<char>, from_server: Seq<char>) -> Seq<char> {
    if relay_override.len() == 0 {
        from_server
    } else {
        relay_override
    }
}

pub open spec fn spec_punch_plan(answer: PunchAnswer, relay_override: Seq<char>) -> Result<
    PlanModel,
    i32,
> {
    match answer {
        PunchAnswer::HoleResponse(ph) => {
            let relay = chosen_relay(relay_override, ph.relay_server@);
            let v6 = usable_v6(ph.socket_addr_v6);
            if ph.other_failure@.len() > 0 {
                Err(CONNECT_REFUSED)
            } else if ph.socket_addr is None && v6 is None && ph.webrtc_sdp_answer@.len() == 0
                && relay.len() == 0 {
                Err(failure_code(ph.failure))
            } else {
                Ok(
                    PlanModel {
                        peer_addr: ph.socket_addr,
                        peer_ipv6_addr: v6,
                        relay_server: relay,
                        signed_id_pk: ph.pk@,
                        is_local: ph.is_local,
                        peer_nat: ph.nat_type,
                        peer_is_udp: ph.is_udp,
                        webrtc_sdp_answer: ph.webrtc_sdp_answer@,
                        relay_uuid: None,
                    },
                )
            }
        },
        PunchAnswer::Hole(ph) => Ok(
            PlanModel {
                peer_addr: ph.socket_addr,
                peer_ipv6_addr: usable_v6(ph.socket_addr_v6),
                relay_server: chosen_relay(relay_override, ph.relay_server@),
                signed_id_pk: Seq::empty(),
                is_local: false,
                peer_nat: NatKind::Unknown,
                peer_is_udp: false,
                webrtc_sdp_answer: Seq::empty(),
                relay_uuid: None,
            },
        ),
        PunchAnswer::Relay(rr) => {
            let relay = if rr.relay_server@.len() == 0 {
                relay_override
            } else {
                rr.relay_server@
            };
            if rr.refuse_reason@.len() > 0 {
                Err(CONNECT_REFUSED)
            } else if relay.len() == 0 || rr.uuid@.len() == 0 {
                Err(CONNECT_RELAY_INCOMPLETE)
            } else {
                Ok(
                    PlanModel {
                        peer_addr: None,
                        peer_ipv6_addr: usable_v6(rr.socket_addr_v6),
                        relay_server: relay,
                        signed_id_pk: rr.pk@,
                        is_local: false,
                        peer_nat: NatKind::Unknown,
                        peer_is_udp: false,
                        webrtc_sdp_answer: rr.webrtc_sdp_answer@,
                        relay_uuid: Some(rr.uuid@),
                    },
                )
            }
        },
        PunchAnswer::Other(_) => Err(CONNECT_UNEXPECTED_REPLY),
    }
}

fn keep_v6(a: Option<PeerAddress>) -> (r: Option<PeerAddress>)
    ensures
        r == usable_v6(a),
{
    match a {
        Some(x) => if x.port > 0 {
            Some(x)
        } else {
            None
        },
        None => None,
    }
}

/// Reads the server's answer to a punch request. A refusal, an answer that
/// names no way to reach the peer, a relay answer without relay or uuid, and
/// any other message end the attempt with their code.
pub fn plan_punch_answer(answer: PunchAnswer, relay_override: String) -> (r: Result<PunchPlan, i32>)
    ensures
        match r {
            Ok(p) => spec_punch_plan(answer, relay_override@) == Ok::<PlanModel, i32>(p@),
            Err(c) => spec_punch_plan(answer, relay_override@) == Err::<PlanModel, i32>(c),
        },
{
    match answer {
        PunchAnswer::HoleResponse(ph) => {
            if !ph.other_failure.as_str().is_empty() {
                return Err(CONNECT_REFUSED);
            }
            let relay = if relay_override.as_str().is_empty() {
                ph.relay_server
            } else {
                relay_override
            };
            let v6 = keep_v6(ph.socket_addr_v6);
            if ph.socket_addr.is_none() && v6.is_none() && ph.webrtc_sdp_answer.as_str().is_empty()
                && relay.as_str().is_empty() {
                return Err(
                    match ph.failure {
                        PunchFailure::IdNotExist => CONNECT_ID_NOT_EXIST,
                        PunchFailure::Offline => CONNECT_OFFLINE,
                        PunchFailure::LicenseMismatch => CONNECT_LICENSE_MISMATCH,
                        PunchFailure::LicenseOveruse => CONNECT_LICENSE_OVERUSE,
                        PunchFailure::Unrecognized => CONNECT_NO_ROUTE,
                    },
                );
            }
            Ok(
                PunchPlan {
                    peer_addr: ph.socket_addr,
                    peer_ipv6_addr: v6,
                    relay_server: relay,
                    signed_id_pk: ph.pk,
                    is_local: ph.is_local,
                    peer_nat: ph.nat_type,
                    peer_is_udp: ph.is_udp,
                    webrtc_sdp_answer: ph.webrtc_sdp_answer,
                    relay_uuid: None,
                },
            )
        },
        PunchAnswer::Hole(ph) => {
            let relay = if relay_override.as_str().is_empty() {
                ph.relay_server
            } else {
                relay_override
            };
            Ok(
                PunchPlan {
                    peer_addr: ph.socket_addr,
                    peer_ipv6_addr: keep_v6(ph.socket_addr_v6),
                    relay_server: relay,
                    signed_id_pk: Vec::new(),
                    is_local: false,
                    peer_nat: NatKind::Unknown,
                    peer_is_udp: false,
                    webrtc_sdp_answer: String::new(),
                    relay_uuid: None,
                },
            )
        },
        PunchAnswer::Relay(rr) => {
            if !rr.refuse_reason.as_str().is_empty() {
                return Err(CONNECT_REFUSED);
            }
            let relay = if rr.relay_server.as_str().is_empty() {
                relay_override
            } else {
                rr.relay_server
            };
            if relay.as_str().is_empty() || rr.uuid.as_str().is_empty() {
                return Err(CONNECT_RELAY_INCOMPLETE);
            }
            Ok(
                PunchPlan {
                    peer_addr: None,
                    peer_ipv6_addr: keep_v6(rr.socket_addr_v6),
                    relay_server: relay,
                    signed_id_pk: rr.pk,
                    is_local: false,
                    peer_nat: NatKind::Unknown,
                    peer_is_udp: false,
                    webrtc_sdp_answer: rr.webrtc_sdp_answer,
                    relay_uuid: Some(rr.uuid),
                },
            )
        },
        PunchAnswer::Other(_) => Err(CONNECT_UNEXPECTED_REPLY),
    }
}


// ------------------------------------------------------------ the race

/// Which direct transports race: the peer endpoint over TCP, over UDP/KCP,
/// the IPv6 endpoint over UDP/KCP, and WebRTC.
#[derive(Clone, Copy, Debug, PartialEq, Eq)]
pub struct RacePlan {
    pub tcp_peer: Option<PeerAddress>,
    pub udp_peer: Option<PeerAddress>,
    pub ipv6_peer: Option<PeerAddress>,
    pub webrtc: bool,
    /// The route a WebRTC win is recorded under: relayed when forced.
    pub webrtc_route: i32,
}

/// A forced relay races no TCP, UDP or IPv6 candidate; a peer that asked for
/// UDP is dialled over UDP/KCP instead of TCP; WebRTC only races when the
/// server passed on the peer's answer. The `*_prepared` flags say which
/// sockets were prepared before the punch request.
pub fn plan_direct_race(
    force_relay: bool,
    plan: &PunchPlan,
    udp_prepared: bool,
    ipv6_prepared: bool,
    webrtc_prepared: bool,
) -> (r: RacePlan)
    ensures
        r.tcp_peer == (if !force_relay && !plan.peer_is_udp {
            plan.peer_addr
        } else {
            None
        }),
        r.udp_peer == (if !force_relay && plan.peer_is_udp && udp_prepared {
            plan.peer_addr
        } else {
            None
        }),
        r.ipv6_peer == (if !force_relay && ipv6_prepared {
            plan.peer_ipv6_addr
        } else {
            None
        }),
        r.webrtc == (webrtc_prepared && plan.webrtc_sdp_answer@.len() > 0),
        r.webrtc_route == (if force_relay {
            2i32
        } else {
            1i32
        }),
{
    RacePlan {
        tcp_peer: if !force_relay && !plan.peer_is_udp {
            plan.peer_addr
        } else {
            None
        },
        udp_peer: if !force_relay && plan.peer_is_udp && udp_prepared {
            plan.peer_addr
        } else {
            None
        },
        ipv6_peer: if !force_relay && ipv6_prepared {
            plan.peer_ipv6_addr
        } else {
            None
        },
        webrtc: webrtc_prepared && !plan.webrtc_sdp_answer.as_str().is_empty(),
        webrtc_route: if force_relay {
            2
        } else {
            1
        },
    }
}

/// What follows the direct race.
#[derive(Clone, Copy, Debug, PartialEq, Eq, Structural)]
pub enum AfterDirect {
    /// A direct transport won.
    UseDirect,
    /// Join the relay session the server already opened (it sent a uuid).
    CreateRelay { record_failure: bool },
    /// Ask the server for a relay session.
    RequestRelay { record_failure: bool },
    /// End the attempt with this code.
    Fail(i32),
}

/// After a lost race the relay is tried when one is known; a failed direct
/// attempt is remembered for the peer unless the relay was forced anyway.
/// What follows the direct race: the winner is used; without a relay the
/// attempt fails; otherwise the relay is created (with the uuid the server
/// gave) or requested, and the lost race is recorded unless relay was forced.
pub open spec fn spec_after_direct(direct_won: bool, relay_available: bool, has_relay_uuid: bool, force_relay: bool) -> AfterDirect {
    if direct_won {
        AfterDirect::UseDirect
    } else if !relay_available {
        AfterDirect::Fail(CONNECT_DIRECT_FAILED)
    } else if has_relay_uuid {
        AfterDirect::CreateRelay { record_failure: !force_relay }
    } else {
        AfterDirect::RequestRelay { record_failure: !force_relay }
    }
}

pub fn after_direct_race(direct_won: bool, relay_available: bool, has_relay_uuid: bool, force_relay: bool) -> (r:
    AfterDirect)
    ensures
        r == spec_after_direct(direct_won, relay_available, has_relay_uuid, force_relay),
        direct_won ==> r == AfterDirect::UseDirect,
        !direct_won && !relay_available ==> r == AfterDirect::Fail(CONNECT_DIRECT_FAILED),
        !direct_won && relay_available && has_relay_uuid ==> r == (AfterDirect::CreateRelay {
            record_failure: !force_relay,
        }),
        !direct_won && relay_available && !has_relay_uuid ==> r == (AfterDirect::RequestRelay {
            record_failure: !force_relay,
        }),
{
    if direct_won {
        AfterDirect::UseDirect
    } else if !relay_available {
        AfterDirect::Fail(CONNECT_DIRECT_FAILED)
    } else if has_relay_uuid {
        AfterDirect::CreateRelay { record_failure: !force_relay }
    } else {
        AfterDirect::RequestRelay { record_failure: !force_relay }
    }
}

/// The two handshake errors that mean the server key is wrong.
/// The route of a connection that goes straight to the peer.
pub const ROUTE_DIRECT: i32 = 1;

/// The route of a connection through the relay server.
pub const ROUTE_RELAY: i32 = 2;

pub open spec fn spec_connection_route(relayed: bool) -> i32 {
    if relayed {
        ROUTE_RELAY
    } else {
        ROUTE_DIRECT
    }
}

/// The route a verified connection is recorded under: 2 through the relay,
/// 1 straight to the peer.
pub fn connection_route(relayed: bool) -> (r: i32)
    ensures
        r == spec_connection_route(relayed),
{
    if relayed {
        ROUTE_RELAY
    } else {
        ROUTE_DIRECT
    }
}

/// When the direct race is lost and a relay is known, the attempt goes over
/// the relay; once that connection is verified for the current session it is
/// recorded under the relay route, and the client reports itself connected.
pub proof fn relay_fallback_is_recorded_as_relay(
    relay_available: bool,
    has_relay_uuid: bool,
    force_relay: bool,
    status: ConnectionStatus,
    transport: i32,
)
    requires
        relay_available,
    ensures
        spec_after_direct(false, relay_available, has_relay_uuid, force_relay) is CreateRelay
            || spec_after_direct(false, relay_available, has_relay_uuid, force_relay) is RequestRelay,
        spec_mark_connected(status, spec_connection_route(true), transport).route == ROUTE_RELAY,
        spec_mark_connected(status, spec_connection_route(true), transport).active,
        spec_status_code(spec_mark_connected(status, spec_connection_route(true), transport)) == 2,
{
}

pub open spec fn is_server_key_error(message: Seq<char>) -> bool {
    message == "invalid server key"@ || message == "server key mismatch"@
}

/// What follows a failed secure handshake.
#[derive(Clone, Copy, Debug, PartialEq, Eq, Structural)]
pub enum AfterSecureFailure {
    /// Close the WebRTC stream, remember the failure, and retry over a relay.
    RetryOverRelay,
    /// End the attempt with this code.
    Fail(i32),
}

/// A WebRTC stream whose handshake fails is replaced by a relay when one is
/// known; otherwise a wrong server key is reported as such, and any other
/// error as a failed handshake.
pub fn after_secure_failure(over_webrtc: bool, relay_available: bool, message: &str) -> (r:
    AfterSecureFailure)
    ensures
        over_webrtc && relay_available ==> r == AfterSecureFailure::RetryOverRelay,
        !(over_webrtc && relay_available) ==> r == AfterSecureFailure::Fail(
            if is_server_key_error(message@) {
                CONNECT_SERVER_KEY
            } else {
                CONNECT_SECURE_FAILED
            },
        ),
{
    if over_webrtc && relay_available {
        return AfterSecureFailure::RetryOverRelay;
    }
    let a = "invalid server key";
    let b = "server key mismatch";
    let key_error = str_equal(message, a) || str_equal(message, b);
    AfterSecureFailure::Fail(
        if key_error {
            CONNECT_SERVER_KEY
        } else {
            CONNECT_SECURE_FAILED
        },
    )
}

/// Whether two texts are equal.
pub fn str_equal(a: &str, b: &str) -> (r: bool)
    ensures
        r == (a@ == b@),
{
    let n = a.unicode_len();
    if n != b.unicode_len() {
        return false;
    }
    let mut i: usize = 0;
    while i < n
        invariant
            n == a@.len(),
            n == b@.len(),
            i <= n,
            forall|k: int| 0 <= k < i ==> a@[k] == b@[k],
        decreases n - i,
    {
        if a.get_char(i) != b.get_char(i) {
            return false;
        }
        i = i + 1;
    }
    assert(a@ =~= b@);
    true
}

/// How a connection attempt ended, seen from outside the attempt.
#[derive(Clone, Copy, Debug, PartialEq, Eq, Structural)]
pub enum AttemptEnd {
    /// The attempt ran to its end with this code.
    Finished(i32),
    /// A newer attempt replaced it.
    Cancelled,
    /// It ran past `CONNECTION_DEADLINE_MS`.
    Deadline,
}

pub fn attempt_code(end: AttemptEnd) -> (r: i32)
    ensures
        r == match end {
            AttemptEnd::Finished(c) => c,
            AttemptEnd::Cancelled => CONNECT_CANCELLED,
            AttemptEnd::Deadline => CONNECT_DEADLINE,
        },
{
    match end {
        AttemptEnd::Finished(c) => c,
        AttemptEnd::Cancelled => CONNECT_CANCELLED,
        AttemptEnd::Deadline => CONNECT_DEADLINE,
    }
}

/// A connection is only stored when no newer attempt started meanwhile.
pub fn finish_if_current(current_session: u64, session_id: u64) -> (r: i32)
    ensures
        r == (if current_session == session_id {
            0i32
        } else {
            CONNECT_CANCELLED
        }),
{
    if current_session == session_id {
        0
    } else {
        CONNECT_CANCELLED
    }
}


// ------------------------------------------------------------ relays

/// How many times a relay is requested before giving up.
pub const RELAY_REQUEST_ATTEMPTS: u32 = 3;

/// The rendezvous server's answer to one relay request.
pub enum RelayReply {
    /// A relay answer without a refusal: join the relay with this request's uuid.
    Accepted,
    /// A relay answer with a refusal.
    Refused(String),
    /// Another message, by its kind.
    Unexpected(RendezvousKind),
    /// No answer in time.
    Timeout,
}

/// What follows one relay request.
pub enum RelayStep {
    CreateRelay,
    /// Give up with this error.
    Fail(String),
    /// Try again (while attempts are left); this is the error so far.
    Retry(String),
}

pub open spec fn spec_relay_step(reply: RelayReply) -> (int, Seq<char>) {
    match reply {
        RelayReply::Accepted => (0, Seq::empty()),
        RelayReply::Refused(reason) => (1, "relay refused: "@ + reason@),
        RelayReply::Unexpected(kind) => (2, "unexpected rendezvous response kind="@ + kind_name(kind)),
        RelayReply::Timeout => (2, "relay request timeout"@),
    }
}

pub fn relay_request_step(reply: RelayReply) -> (r: RelayStep)
    ensures
        match r {
            RelayStep::CreateRelay => spec_relay_step(reply).0 == 0,
            RelayStep::Fail(e) => spec_relay_step(reply) == (1int, e@),
            RelayStep::Retry(e) => spec_relay_step(reply) == (2int, e@),
        },
{
    match reply {
        RelayReply::Accepted => RelayStep::CreateRelay,
        RelayReply::Refused(reason) => {
            let mut e = String::new();
            push_text(&mut e, "relay refused: ");
            push_text(&mut e, reason.as_str());
            RelayStep::Fail(e)
        },
        RelayReply::Unexpected(kind) => {
            let mut e = String::new();
            push_text(&mut e, "unexpected rendezvous response kind=");
            push_text(&mut e, rendezvous_message_kind(kind));
            RelayStep::Retry(e)
        },
        RelayReply::Timeout => {
            let v = chars_of("relay request timeout");
            RelayStep::Retry(string_from_chars(&v))
        },
    }
}

/// The error once every attempt failed.
pub fn relay_attempts_exhausted(last_error: &str) -> (r: String)
    ensures
        r@ == last_error@ + " after 3 attempts"@,
{
    let mut e = String::new();
    push_text(&mut e, last_error);
    push_text(&mut e, " after 3 attempts");
    e
}

// ------------------------------------------------------------ file sessions

/// How a file session reaches the peer after the server's answer.
pub struct FilePlan {
    pub peer_addr: Option<PeerAddress>,
    pub relay_server: String,
    pub signed_id_pk: Vec<u8>,
    pub is_local: bool,
    /// Set when the server already opened a relay session.
    pub relay_uuid: Option<String>,
}

pub struct FilePlanModel {
    pub peer_addr: Option<PeerAddress>,
    pub relay_server: Seq<char>,
    pub signed_id_pk: Seq<u8>,
    pub is_local: bool,
    pub relay_uuid: Option<Seq<char>>,
}

impl View for FilePlan {
    type V = FilePlanModel;

    open spec fn view(&self) -> FilePlanModel {
        FilePlanModel {
            peer_addr: self.peer_addr,
            relay_server: self.relay_server@,
            signed_id_pk: self.signed_id_pk@,
            is_local: self.is_local,
            relay_uuid: match self.relay_uuid {
                Some(u) => Some(u@),
                None => None,
            },
        }
    }
}

pub open spec fn spec_file_plan(answer: PunchAnswer, relay_override: Seq<char>) -> Result<
    FilePlanModel,
    Seq<char>,
> {
    match answer {
        PunchAnswer::Relay(rr) => {
            let relay = chosen_relay(relay_override, rr.relay_server@);
            if rr.refuse_reason@.len() > 0 {
                Err(rr.refuse_reason@)
            } else if relay.len() == 0 || rr.uuid@.len() == 0 {
                Err("文件中继信息不完整"@)
            } else {
                Ok(
                    FilePlanModel {
                        peer_addr: None,
                        relay_server: relay,
                        signed_id_pk: rr.pk@,
                        is_local: false,
                        relay_uuid: Some(rr.uuid@),
                    },
                )
            }
        },
        PunchAnswer::HoleResponse(ph) => if ph.other_failure@.len() > 0 {
            Err(ph.other_failure@)
        } else {
            Ok(
                FilePlanModel {
                    peer_addr: ph.socket_addr,
                    relay_server: chosen_relay(relay_override, ph.relay_server@),
                    signed_id_pk: ph.pk@,
                    is_local: ph.is_local,
                    relay_uuid: None,
                },
            )
        },
        PunchAnswer::Hole(ph) => Ok(
            FilePlanModel {
                peer_addr: ph.socket_addr,
                relay_server: chosen_relay(relay_override, ph.relay_server@),
                signed_id_pk: Seq::empty(),
                is_local: false,
                relay_uuid: None,
            },
        ),
        PunchAnswer::Other(_) => Err("文件传输握手响应无效"@),
    }
}

/// Reads the server's answer to a file session's punch request.
pub fn plan_file_answer(answer: PunchAnswer, relay_override: String) -> (r: Result<FilePlan, String>)
    ensures
        match r {
            Ok(p) => spec_file_plan(answer, relay_override@) == Ok::<FilePlanModel, Seq<char>>(p@),
            Err(e) => spec_file_plan(answer, relay_override@) == Err::<FilePlanModel, Seq<char>>(e@),
        },
{
    match answer {
        PunchAnswer::Relay(rr) => {
            if !rr.refuse_reason.as_str().is_empty() {
                return Err(rr.refuse_reason);
            }
            let relay = if relay_override.as_str().is_empty() {
                rr.relay_server
            } else {
                relay_override
            };
            if relay.as_str().is_empty() || rr.uuid.as_str().is_empty() {
                let v = chars_of("文件中继信息不完整");
                return Err(string_from_chars(&v));
            }
            Ok(
                FilePlan {
                    peer_addr: None,
                    relay_server: relay,
                    signed_id_pk: rr.pk,
                    is_local: false,
                    relay_uuid: Some(rr.uuid),
                },
            )
        },
        PunchAnswer::HoleResponse(ph) => {
            if !ph.other_failure.as_str().is_empty() {
                return Err(ph.other_failure);
            }
            let relay = if relay_override.as_str().is_empty() {
                ph.relay_server
            } else {
                relay_override
            };
            Ok(
                FilePlan {
                    peer_addr: ph.socket_addr,
                    relay_server: relay,
                    signed_id_pk: ph.pk,
                    is_local: ph.is_local,
                    relay_uuid: None,
                },
            )
        },
        PunchAnswer::Hole(ph) => {
            let relay = if relay_override.as_str().is_empty() {
                ph.relay_server
            } else {
                relay_override
            };
            Ok(
                FilePlan {
                    peer_addr: ph.socket_addr,
                    relay_server: relay,
                    signed_id_pk: Vec::new(),
                    is_local: false,
                    relay_uuid: None,
                },
            )
        },
        PunchAnswer::Other(_) => {
            let v = chars_of("文件传输握手响应无效");
            Err(string_from_chars(&v))
        },
    }
}

/// The route of a file session without a relay session opened by the server.
#[derive(Clone, Copy, Debug, PartialEq, Eq, Structural)]
pub enum FileRoute {
    /// Dial the peer for this long; fall back to a relay when one is known.
    Direct { timeout_ms: u64, relay_fallback: bool },
    /// Ask the server for a relay.
    Relay,
    /// No way to the peer.
    NoRoute,
}

pub fn file_route(has_peer_addr: bool, is_local: bool, relay_available: bool) -> (r: FileRoute)
    ensures
        has_peer_addr ==> r == (FileRoute::Direct {
            timeout_ms: if is_local {
                crate::punch::LOCAL_DIRECT_CONNECT_TIMEOUT
            } else {
                crate::punch::DIRECT_CONNECT_TIMEOUT
            },
            relay_fallback: relay_available,
        }),
        !has_peer_addr && relay_available ==> r == FileRoute::Relay,
        !has_peer_addr && !relay_available ==> r == FileRoute::NoRoute,
{
    if has_peer_addr {
        FileRoute::Direct {
            timeout_ms: if is_local {
                crate::punch::LOCAL_DIRECT_CONNECT_TIMEOUT
            } else {
                crate::punch::DIRECT_CONNECT_TIMEOUT
            },
            relay_fallback: relay_available,
        }
    } else if relay_available {
        FileRoute::Relay
    } else {
        FileRoute::NoRoute
    }
}


// ------------------------------------------------------------ the request

/// The protocol version this client announces.
pub const RUSTDESK_PROTOCOL_VERSION: &'static str = "1.5.0";

/// The kind of session a punch request asks for.
#[derive(Clone, Copy, Debug, PartialEq, Eq, Structural)]
pub enum ConnType {
    DefaultConn,
    FileTransfer,
}

/// The fields of a punch request.
pub struct PunchHoleRequest {
    pub id: String,
    /// An account token; this client has none.
    pub token: String,
    pub nat_type: NatKind,
    pub licence_key: String,
    pub conn_type: ConnType,
    pub force_relay: bool,
    pub version: String,
    pub udp_port: i32,
    pub socket_addr_v6: Vec<u8>,
    pub webrtc_sdp_offer: String,
}

/// A punch request for `peer`. The server key goes into the licence field;
/// the peer's password never goes to the server, and no token is sent.
pub fn punch_hole_request(
    peer: &str,
    key: &str,
    conn_type: ConnType,
    force_relay: bool,
    nat_type: NatKind,
    udp_port: u16,
    socket_addr_v6: Vec<u8>,
    webrtc_sdp_offer: String,
) -> (r: PunchHoleRequest)
    ensures
        r.id@ == peer@,
        r.token@ == Seq::<char>::empty(),
        r.nat_type == nat_type,
        r.licence_key@ == key@,
        r.conn_type == conn_type,
        r.force_relay == force_relay,
        r.version@ == RUSTDESK_PROTOCOL_VERSION@,
        r.udp_port == udp_port as i32,
        r.socket_addr_v6@ == socket_addr_v6@,
        r.webrtc_sdp_offer@ == webrtc_sdp_offer@,
{
    let p = chars_of(peer);
    let k = chars_of(key);
    let v = chars_of(RUSTDESK_PROTOCOL_VERSION);
    PunchHoleRequest {
        id: string_from_chars(&p),
        token: String::new(),
        nat_type,
        licence_key: string_from_chars(&k),
        conn_type,
        force_relay,
        version: string_from_chars(&v),
        udp_port: udp_port as i32,
        socket_addr_v6,
        webrtc_sdp_offer,
    }
}


// ------------------------------------------------------------ dialling

/// A peer of the other address family than the local socket is first tried
/// from a socket of its own family on the same port, for half the budget;
/// the result is that half budget, or `None` when the families match.
pub fn family_fallback_budget(peer_is_ipv4: bool, local_is_ipv4: bool, timeout_ms: u64) -> (r: Option<u64>)
    ensures
        peer_is_ipv4 == local_is_ipv4 ==> r is None,
        peer_is_ipv4 != local_is_ipv4 ==> r == Some((timeout_ms / 2) as u64),
{
    if peer_is_ipv4 != local_is_ipv4 {
        Some(timeout_ms / 2)
    } else {
        None
    }
}

/// Whether there is any rendezvous server to try.
pub fn check_rendezvous_candidates(count: usize) -> (r: Result<(), &'static str>)
    ensures
        count == 0 ==> (r matches Err(e) && e@ == "no rendezvous server configured"@),
        count > 0 ==> r is Ok,
{
    if count == 0 {
        Err("no rendezvous server configured")
    } else {
        Ok(())
    }
}


// ------------------------------------------------------------ settings

/// The client id sent when the app gives none.
pub const DEFAULT_CLIENT_ID: &'static str = "harmony-client";

pub fn client_id_or_default(client_id: Option<String>) -> (r: String)
    ensures
        r@ == match client_id {
            Some(c) => c@,
            None => DEFAULT_CLIENT_ID@,
        },
{
    match client_id {
        Some(c) => c,
        None => {
            let v = chars_of(DEFAULT_CLIENT_ID);
            string_from_chars(&v)
        },
    }
}

/// A blank rendezvous setting means the public service.
pub fn is_public_server(rendezvous_server: &str) -> (r: bool)
    ensures
        r == (trim(rendezvous_server@).len() == 0),
{
    trim_string(rendezvous_server).as_str().is_empty()
}

} // verus!
