//! Decisions of a connection attempt through the rendezvous server: NAT
//! classification, which messages are skipped, how a punch answer is read,
//! which direct transports race, and what each failure is reported as.
use crate::endpoint::PeerAddress;
use crate::punch::{
    DIRECT_CONNECT_TIMEOUT, DIRECT_ONLY_CONNECT_TIMEOUT, LOCAL_DIRECT_CONNECT_TIMEOUT,
};
use crate::endpoint::views;
use crate::text::{chars_of, contains, contains_str, lower, lower_char, lower_chars, push_char, push_text, upper, upper_char};
use vstd::prelude::*;

verus! {

// ------------------------------------------------------------ NAT

/// The NAT behaviour of an endpoint, as the rendezvous protocol reports it.
#[derive(Clone, Copy, Debug, PartialEq, Eq, Structural)]
pub enum NatKind {
    Unknown,
    Asymmetric,
    Symmetric,
}

pub open spec fn spec_nat_kind_from_code(code: i32) -> NatKind {
    if code == 1 {
        NatKind::Asymmetric
    } else if code == 2 {
        NatKind::Symmetric
    } else {
        NatKind::Unknown
    }
}

pub open spec fn spec_nat_code(kind: NatKind) -> i32 {
    match kind {
        NatKind::Unknown => 0,
        NatKind::Asymmetric => 1,
        NatKind::Symmetric => 2,
    }
}

impl NatKind {
    /// The kind stored under a protocol code; codes it does not know read as
    /// `Unknown`.
    pub fn from_code(code: i32) -> (r: NatKind)
        ensures
            r == spec_nat_kind_from_code(code),
    {
        if code == 1 {
            NatKind::Asymmetric
        } else if code == 2 {
            NatKind::Symmetric
        } else {
            NatKind::Unknown
        }
    }

    pub fn code(&self) -> (r: i32)
        ensures
            r == spec_nat_code(*self),
    {
        match self {
            NatKind::Unknown => 0,
            NatKind::Asymmetric => 1,
            NatKind::Symmetric => 2,
        }
    }
}

/// Stored codes read back as the kind they were stored from.
pub proof fn nat_code_roundtrip(kind: NatKind)
    ensures
        spec_nat_kind_from_code(spec_nat_code(kind)) == kind,
{
}

/// The NAT kind seen from the public ports that the two rendezvous listeners
/// observed for one local endpoint: the same port twice is a cone NAT.
pub open spec fn spec_classify_nat(first_port: i32, second_port: i32) -> NatKind {
    if first_port > 0 && second_port > 0 {
        if first_port == second_port {
            NatKind::Asymmetric
        } else {
            NatKind::Symmetric
        }
    } else {
        NatKind::Unknown
    }
}

pub fn classify_nat_from_ports(first_port: i32, second_port: i32) -> (r: NatKind)
    ensures
        r == spec_classify_nat(first_port, second_port),
{
    if first_port > 0 && second_port > 0 {
        if first_port == second_port {
            NatKind::Asymmetric
        } else {
            NatKind::Symmetric
        }
    } else {
        NatKind::Unknown
    }
}

/// The NAT kind announced in a punch request: a forced relay announces a
/// symmetric NAT, otherwise the cached classification is announced.
pub fn announced_nat_kind(force_relay: bool, cached: NatKind) -> (r: NatKind)
    ensures
        force_relay ==> r == NatKind::Symmetric,
        !force_relay ==> r == cached,
{
    if force_relay {
        NatKind::Symmetric
    } else {
        cached
    }
}

/// Whether a background NAT probe is started: only without a forced relay,
/// and only while the classification is still unknown.
pub fn should_probe_nat(force_relay: bool, cached: NatKind) -> (r: bool)
    ensures
        r == (!force_relay && cached == NatKind::Unknown),
{
    !force_relay && cached == NatKind::Unknown
}

pub open spec fn spec_direct_timeout(
    is_local: bool,
    peer_nat: NatKind,
    relay_available: bool,
    recent_direct_failures: u8,
) -> u64 {
    if is_local || peer_nat == NatKind::Symmetric {
        LOCAL_DIRECT_CONNECT_TIMEOUT
    } else if relay_available {
        if recent_direct_failures > 0 {
            LOCAL_DIRECT_CONNECT_TIMEOUT
        } else {
            DIRECT_CONNECT_TIMEOUT
        }
    } else {
        DIRECT_ONLY_CONNECT_TIMEOUT
    }
}

/// How long the direct transports may race before the relay is tried. The
/// local NAT kind does not enter.
pub fn official_direct_timeout(
    is_local: bool,
    peer_nat_type: NatKind,
    local_nat_type: NatKind,
    relay_available: bool,
    recent_direct_failures: u8,
) -> (r: u64)
    ensures
        r == spec_direct_timeout(is_local, peer_nat_type, relay_available, recent_direct_failures),
{
    if is_local || peer_nat_type == NatKind::Symmetric {
        return LOCAL_DIRECT_CONNECT_TIMEOUT;
    }
    if relay_available {
        return if recent_direct_failures > 0 {
            LOCAL_DIRECT_CONNECT_TIMEOUT
        } else {
            DIRECT_CONNECT_TIMEOUT
        };
    }
    DIRECT_ONLY_CONNECT_TIMEOUT
}

/// With a relay to fall back on, the direct race never waits longer than
/// without one, and a recent direct failure never lengthens it.
pub proof fn direct_timeout_relay_never_slower(
    is_local: bool,
    peer_nat: NatKind,
    failures: u8,
    more_failures: u8,
)
    requires
        failures <= more_failures,
    ensures
        spec_direct_timeout(is_local, peer_nat, true, failures) <= spec_direct_timeout(
            is_local,
            peer_nat,
            false,
            failures,
        ),
        spec_direct_timeout(is_local, peer_nat, true, more_failures) <= spec_direct_timeout(
            is_local,
            peer_nat,
            true,
            failures,
        ),
{
}

// ------------------------------------------------------------ messages
/// Which message a rendezvous frame carried: `Empty` when it carried none,
/// `Unknown` for one this client has no name for.
#[derive(Clone, Copy, Debug, PartialEq, Eq, Structural)]
pub enum RendezvousKind {
    RegisterPeer,
    RegisterPeerResponse,
    PunchHoleRequest,
    PunchHole,
    PunchHoleSent,
    PunchHoleResponse,
    FetchLocalAddr,
    LocalAddr,
    ConfigureUpdate,
    RegisterPk,
    RegisterPkResponse,
    SoftwareUpdate,
    RequestRelay,
    RelayResponse,
    TestNatRequest,
    TestNatResponse,
    PeerDiscovery,
    OnlineRequest,
    OnlineResponse,
    KeyExchange,
    Hc,
    HttpProxyRequest,
    HttpProxyResponse,
    Unknown,
    Empty,
}

/// The name under which a rendezvous message kind is logged.
pub open spec fn kind_name(kind: RendezvousKind) -> Seq<char> {
    match kind {
        RendezvousKind::RegisterPeer => "register_peer"@,
        RendezvousKind::RegisterPeerResponse => "register_peer_response"@,
        RendezvousKind::PunchHoleRequest => "punch_hole_request"@,
        RendezvousKind::PunchHole => "punch_hole"@,
        RendezvousKind::PunchHoleSent => "punch_hole_sent"@,
        RendezvousKind::PunchHoleResponse => "punch_hole_response"@,
        RendezvousKind::FetchLocalAddr => "fetch_local_addr"@,
        RendezvousKind::LocalAddr => "local_addr"@,
        RendezvousKind::ConfigureUpdate => "configure_update"@,
        RendezvousKind::RegisterPk => "register_pk"@,
        RendezvousKind::RegisterPkResponse => "register_pk_response"@,
        RendezvousKind::SoftwareUpdate => "software_update"@,
        RendezvousKind::RequestRelay => "request_relay"@,
        RendezvousKind::RelayResponse => "relay_response"@,
        RendezvousKind::TestNatRequest => "test_nat_request"@,
        RendezvousKind::TestNatResponse => "test_nat_response"@,
        RendezvousKind::PeerDiscovery => "peer_discovery"@,
        RendezvousKind::OnlineRequest => "online_request"@,
        RendezvousKind::OnlineResponse => "online_response"@,
        RendezvousKind::KeyExchange => "key_exchange"@,
        RendezvousKind::Hc => "hc"@,
        RendezvousKind::HttpProxyRequest => "http_proxy_request"@,
        RendezvousKind::HttpProxyResponse => "http_proxy_response"@,
        RendezvousKind::Unknown => "unknown"@,
        RendezvousKind::Empty => "none"@,
    }
}

pub fn rendezvous_message_kind(kind: RendezvousKind) -> (r: &'static str)
    ensures
        r@ == kind_name(kind),
{
    match kind {
        RendezvousKind::RegisterPeer => "register_peer",
        RendezvousKind::RegisterPeerResponse => "register_peer_response",
        RendezvousKind::PunchHoleRequest => "punch_hole_request",
        RendezvousKind::PunchHole => "punch_hole",
        RendezvousKind::PunchHoleSent => "punch_hole_sent",
        RendezvousKind::PunchHoleResponse => "punch_hole_response",
        RendezvousKind::FetchLocalAddr => "fetch_local_addr",
        RendezvousKind::LocalAddr => "local_addr",
        RendezvousKind::ConfigureUpdate => "configure_update",
        RendezvousKind::RegisterPk => "register_pk",
        RendezvousKind::RegisterPkResponse => "register_pk_response",
        RendezvousKind::SoftwareUpdate => "software_update",
        RendezvousKind::RequestRelay => "request_relay",
        RendezvousKind::RelayResponse => "relay_response",
        RendezvousKind::TestNatRequest => "test_nat_request",
        RendezvousKind::TestNatResponse => "test_nat_response",
        RendezvousKind::PeerDiscovery => "peer_discovery",
        RendezvousKind::OnlineRequest => "online_request",
        RendezvousKind::OnlineResponse => "online_response",
        RendezvousKind::KeyExchange => "key_exchange",
        RendezvousKind::Hc => "hc",
        RendezvousKind::HttpProxyRequest => "http_proxy_request",
        RendezvousKind::HttpProxyResponse => "http_proxy_response",
        RendezvousKind::Unknown => "unknown",
        RendezvousKind::Empty => "none",
    }
}

/// Key exchanges, software updates and heartbeats never answer a request.
pub fn should_skip_rendezvous_message(kind: RendezvousKind) -> (r: bool)
    ensures
        r == (kind == RendezvousKind::KeyExchange || kind == RendezvousKind::SoftwareUpdate || kind
            == RendezvousKind::Hc),
{
    match kind {
        RendezvousKind::KeyExchange | RendezvousKind::SoftwareUpdate | RendezvousKind::Hc => true,
        _ => false,
    }
}

/// What the reader of rendezvous frames does with one parsed message.
#[derive(Clone, Copy, Debug, PartialEq, Eq, Structural)]
pub enum ReadAction {
    /// A configuration update from the server, applied and then read past.
    ApplyUpdate,
    /// A message that answers nothing: read past it.
    Skip,
    /// The answer the caller waits for.
    Deliver,
}

pub open spec fn spec_read_action(kind: RendezvousKind, allow_config_updates: bool) -> ReadAction {
    if kind == RendezvousKind::ConfigureUpdate {
        if allow_config_updates {
            ReadAction::ApplyUpdate
        } else {
            ReadAction::Skip
        }
    } else if kind == RendezvousKind::KeyExchange || kind == RendezvousKind::SoftwareUpdate || kind
        == RendezvousKind::Hc {
        ReadAction::Skip
    } else {
        ReadAction::Deliver
    }
}

pub fn rendezvous_read_action(kind: RendezvousKind, allow_config_updates: bool) -> (r: ReadAction)
    ensures
        r == spec_read_action(kind, allow_config_updates),
{
    if kind == RendezvousKind::ConfigureUpdate {
        if allow_config_updates {
            ReadAction::ApplyUpdate
        } else {
            ReadAction::Skip
        }
    } else if should_skip_rendezvous_message(kind) {
        ReadAction::Skip
    } else {
        ReadAction::Deliver
    }
}

// ------------------------------------------------------------ refusals

/// The category under which a refusal text from the rendezvous server is
/// logged: never the text itself.
pub open spec fn refusal_category(reason: Seq<char>) -> Seq<char> {
    let r = lower(reason);
    if reason.len() == 0 {
        "none"@
    } else if contains(r, "version"@) || contains(r, "update"@) || contains(r, "old client"@) {
        "client_version"@
    } else if contains(r, "license"@) || contains(r, "licence"@) || contains(r, "key"@) {
        "server_key"@
    } else if contains(r, "token"@) || contains(r, "auth"@) || contains(r, "login"@) {
        "authentication"@
    } else if contains(r, "rate"@) || contains(r, "frequent"@) || contains(r, "limit"@) {
        "rate_limit"@
    } else if contains(r, "deny"@) || contains(r, "forbid"@) || contains(r, "block"@) {
        "policy"@
    } else if contains(r, "busy"@) || contains(r, "overload"@) || contains(r, "unavailable"@) {
        "server_busy"@
    } else {
        "other"@
    }
}

/// The names a refusal can be logged under.
pub open spec fn is_refusal_category(c: Seq<char>) -> bool {
    ||| c == "none"@
    ||| c == "client_version"@
    ||| c == "server_key"@
    ||| c == "authentication"@
    ||| c == "rate_limit"@
    ||| c == "policy"@
    ||| c == "server_busy"@
    ||| c == "other"@
}

/// The category of a refusal ignores ASCII case: texts that are equal up to
/// case, such as a text and its upper-case form, fall under the same
/// category. The category is always one of the fixed names, never the text,
/// and it is "none" exactly for an empty text.
pub proof fn refusal_category_ignores_ascii_case(a: Seq<char>, b: Seq<char>)
    requires
        lower(a) == lower(b),
    ensures
        refusal_category(a) == refusal_category(b),
        refusal_category(upper(a)) == refusal_category(a),
        is_refusal_category(refusal_category(a)),
        (refusal_category(a) == "none"@) <==> a.len() == 0,
{
    assert(a.len() == lower(a).len() && b.len() == lower(b).len());
    assert forall|i: int| 0 <= i < a.len() implies #[trigger] lower_char(upper_char(a[i])) == lower_char(a[i]) by {
        let c = a[i];
        if 'a' <= c && c <= 'z' {
            assert(upper_char(c) as u32 == (c as u32) - 32);
        }
    }
    assert(lower(upper(a)) =~= lower(a));
    reveal_strlit("none");
    reveal_strlit("client_version");
    reveal_strlit("server_key");
    reveal_strlit("authentication");
    reveal_strlit("rate_limit");
    reveal_strlit("policy");
    reveal_strlit("server_busy");
    reveal_strlit("other");
}

pub fn classify_rendezvous_refusal(reason: &str) -> (r: &'static str)
    ensures
        r@ == refusal_category(reason@),
{
    let v = chars_of(reason);
    if v.len() == 0 {
        return "none";
    }
    let l = lower_chars(&v);
    if contains_str(&l, "version") || contains_str(&l, "update") || contains_str(&l, "old client") {
        "client_version"
    } else if contains_str(&l, "license") || contains_str(&l, "licence") || contains_str(
        &l,
        "key",
    ) {
        "server_key"
    } else if contains_str(&l, "token") || contains_str(&l, "auth") || contains_str(&l, "login") {
        "authentication"
    } else if contains_str(&l, "rate") || contains_str(&l, "frequent") || contains_str(
        &l,
        "limit",
    ) {
        "rate_limit"
    } else if contains_str(&l, "deny") || contains_str(&l, "forbid") || contains_str(&l, "block") {
        "policy"
    } else if contains_str(&l, "busy") || contains_str(&l, "overload") || contains_str(
        &l,
        "unavailable",
    ) {
        "server_busy"
    } else {
        "other"
    }
}


// ------------------------------------------------------------ updates

/// The servers of a configuration update joined with commas.
pub open spec fn joined(list: Seq<Seq<char>>) -> Seq<char>
    decreases list.len(),
{
    if list.len() == 0 {
        Seq::empty()
    } else if list.len() == 1 {
        list[0]
    } else {
        joined(list.drop_last()) + seq![','] + list.last()
    }
}

/// The server list a configuration update stores: the announced servers
/// joined with commas; nothing is stored when it announces none.
pub fn config_update_servers(servers: &Vec<String>) -> (r: Option<String>)
    ensures
        servers@.len() == 0 ==> r is None,
        servers@.len() > 0 ==> (r matches Some(s) && s@ == joined(views(servers@))),
{
    if servers.len() == 0 {
        return None;
    }
    let mut s = String::new();
    push_text(&mut s, servers[0].as_str());
    let mut i: usize = 1;
    proof {
        assert(views(servers@).subrange(0, 1).len() == 1);
        assert(joined(views(servers@).subrange(0, 1)) == views(servers@)[0]);
    }
    while i < servers.len()
        invariant
            1 <= i <= servers@.len(),
            s@ == joined(views(servers@).subrange(0, i as int)),
        decreases servers@.len() - i,
    {
        push_char(&mut s, ',');
        push_text(&mut s, servers[i].as_str());
        proof {
            let next = views(servers@).subrange(0, i + 1);
            assert(next.drop_last() =~= views(servers@).subrange(0, i as int));
            assert(next.last() == servers@[i as int]@);
        }
        i = i + 1;
    }
    assert(views(servers@).subrange(0, servers@.len() as int) =~= views(servers@));
    Some(s)
}

} // verus!
