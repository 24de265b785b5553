use std::time::Duration;

use starrustdesk::connect::{
    connect_target, punch_hole_request, ConnType, RUSTDESK_PROTOCOL_VERSION,
};
use starrustdesk::endpoint::{
    bracket_inner, classify_direct_peer, default_rendezvous_addr, default_server_key,
    online_query_fallback, rendezvous_candidates, rendezvous_host_text,
    websocket_fallback_candidates, DirectAddrError, EndpointRole, IpAddress, ParsedHost,
    PeerAddress, RENDEZVOUS_SERVER, RS_PUB_KEY,
};
use starrustdesk::handshake::get_rs_pk;
use starrustdesk::online::{decode_online_states, ids_for_online_query};
use starrustdesk::punch::{
    punch_packet, punch_transaction, transport_preparation_policy, TransportPreparationPolicy,
    DIRECT_CONNECT_TIMEOUT, DIRECT_ONLY_CONNECT_TIMEOUT, IPV6_PREPARATION_TIMEOUT,
    LOCAL_DIRECT_CONNECT_TIMEOUT, PUNCH_ACK, PUNCH_PACKET_LEN, PUNCH_PROBE, PUNCH_REPLY_TIMEOUTS,
    TRANSPORT_TCP, TRANSPORT_UDP_KCP, UDP_NAT_TEST_TIMEOUT_MS, WEBRTC_OFFER_TIMEOUT,
};
use starrustdesk::rendezvous::{classify_rendezvous_refusal, official_direct_timeout, NatKind};
use starrustdesk::route::{
    apply_peer_direct_failure, apply_peer_route_success, peer_route_history_key,
    prune_peer_route_history, recent_direct_failures, PeerRouteRecord, RouteHistory,
    PEER_ROUTE_HISTORY_MAX_ENTRIES, PEER_ROUTE_HISTORY_TTL_MS,
};
use starrustdesk::session::{should_forward_video_display, test_delay_quality_values, TestDelay};

fn v4(a: u8, b: u8, c: u8, d: u8) -> IpAddress {
    IpAddress::V4([a, b, c, d])
}

fn v6(segments: [u16; 8]) -> IpAddress {
    IpAddress::V6(segments)
}

fn sock(ip: IpAddress, port: u16, scope_id: u32) -> PeerAddress {
    PeerAddress {
        ip,
        port,
        flowinfo: 0,
        scope_id,
    }
}

const LOOPBACK6: [u16; 8] = [0, 0, 0, 0, 0, 0, 0, 1];
const DOC1: [u16; 8] = [0x2001, 0xdb8, 0, 0, 0, 0, 0, 1];
const DOC2111: [u16; 8] = [0x2001, 0xdb8, 0, 0, 0, 0, 0, 0x2111];
const DOC8: [u16; 8] = [0x2001, 0xdb8, 0, 0, 0, 0, 0, 8];
const MAPPED: [u16; 8] = [0, 0, 0, 0, 0, 0xffff, 0xc000, 0x0208];
const LINK_LOCAL: [u16; 8] = [0xfe80, 0, 0, 0, 0, 0, 0, 1];

/// What `str::parse::<SocketAddr>()` and `str::parse::<IpAddr>()` give for
/// the texts these tests use (the library leaves address parsing to its
/// callers; every other text parses as neither).
fn parsed(text: &str) -> ParsedHost {
    let none = ParsedHost {
        socket: None,
        ip: None,
    };
    let ip = |ip: IpAddress| ParsedHost {
        socket: None,
        ip: Some(ip),
    };
    let socket = |address: PeerAddress| ParsedHost {
        socket: Some(address),
        ip: None,
    };
    match text {
        "192.0.2.8" => ip(v4(192, 0, 2, 8)),
        "127.0.0.1" => ip(v4(127, 0, 0, 1)),
        "192.0.2.8:32100" => socket(sock(v4(192, 0, 2, 8), 32100, 0)),
        "192.0.2.8:21118" => socket(sock(v4(192, 0, 2, 8), 21118, 0)),
        "192.0.2.8:32116" => socket(sock(v4(192, 0, 2, 8), 32116, 0)),
        "192.0.2.8:0" => socket(sock(v4(192, 0, 2, 8), 0, 0)),
        "::1" => ip(v6(LOOPBACK6)),
        "[::1]:0" => socket(sock(v6(LOOPBACK6), 0, 0)),
        "[::1]:21118" => socket(sock(v6(LOOPBACK6), 21118, 0)),
        "[2001:db8::1]:32100" => socket(sock(v6(DOC1), 32100, 0)),
        "2001:db8::2111" => ip(v6(DOC2111)),
        "2001:db8::8" => ip(v6(DOC8)),
        "[2001:db8::8]:32116" => socket(sock(v6(DOC8), 32116, 0)),
        "[::ffff:192.0.2.8]:65535" => socket(sock(v6(MAPPED), 65535, 0)),
        "[::ffff:192.0.2.8]:21118" => socket(sock(v6(MAPPED), 21118, 0)),
        "[fe80::1%3]:21118" => socket(sock(v6(LINK_LOCAL), 21118, 3)),
        _ => none,
    }
}

fn direct_peer_addr(peer: &str) -> Result<Option<PeerAddress>, DirectAddrError> {
    let trimmed = peer.trim();
    let inner = bracket_inner(trimmed);
    classify_direct_peer(trimmed, &parsed(trimmed), &parsed(&inner))
}

fn rendezvous_addr(server: &str) -> String {
    let host = rendezvous_host_text(server);
    default_rendezvous_addr(server, &parsed(&host))
}

fn online_query_addr(server: &str) -> String {
    let address = rendezvous_addr(server);
    online_query_fallback(&address, server, &parsed(server.trim()))
}

fn websocket_candidates(endpoint: &str, role: EndpointRole, host_is_ip: bool) -> Vec<String> {
    let host_port = endpoint
        .rsplit_once(':')
        .and_then(|(host, port)| port.parse::<i32>().ok().map(|port| (host.to_string(), port)));
    websocket_fallback_candidates(endpoint, host_port, host_is_ip, role)
}

#[test]
fn multi_display_frames_only_reach_the_selected_surface() {
    assert!(should_forward_video_display(1, 1, true));
    assert!(!should_forward_video_display(0, 1, true));
    assert!(!should_forward_video_display(2, 1, true));
}

#[test]
fn legacy_peers_without_display_tags_keep_video_compatible() {
    assert!(should_forward_video_display(0, 2, false));
}

#[test]
fn ip_literals_use_direct_listener_and_preserve_explicit_ports() {
    for (input, expected) in [
        ("192.0.2.8", "192.0.2.8:21118"),
        (" 192.0.2.8:32100 ", "192.0.2.8:32100"),
        ("::1", "[::1]:21118"),
        ("[::1]", "[::1]:21118"),
        ("[2001:db8::1]:32100", "[2001:db8::1]:32100"),
        ("2001:db8::2111", "[2001:db8::2111]:21118"),
        ("[::ffff:192.0.2.8]:65535", "[::ffff:192.0.2.8]:65535"),
    ] {
        let expected_address = match expected {
            "[2001:db8::2111]:21118" => sock(v6(DOC2111), 21118, 0),
            other => parsed(other)
                .socket
                .unwrap_or_else(|| panic!("expected {expected:?}: not a socket address ({other})")),
        };
        assert_eq!(
            direct_peer_addr(input)
                .unwrap_or_else(|error| panic!("literal {input:?}: {}", error.message())),
            Some(expected_address),
            "{input}"
        );
    }
    for id in ["123456789", "test-peer", "custom.id"] {
        assert_eq!(direct_peer_addr(id).unwrap(), None);
    }
}

#[test]
fn malformed_literals_never_become_rendezvous_ids() {
    for input in [
        "",
        "192.0.2.8:0",
        "[::1]:0",
        "[::1]:65536",
        "192.0.2.8:65536",
        "192.0.2.8:abc",
        "[::1",
        "[::1]:",
        "[not-an-ip]",
        "999.1.2.3",
        "1.2.3",
        "::gg",
        "2001:db8::21118",
    ] {
        assert!(direct_peer_addr(input).is_err(), "{input}");
    }
}

#[test]
fn retry_guard_endpoint_forms_never_select_id_rendezvous() {
    for endpoint in [
        "192.0.2.8",
        "192.0.2.8:21118",
        "999.1.2.3",
        "192.0.2.8:0",
        "::1",
        "[::1]",
        "[::1]:21118",
        "[fe80::1%3]:21118",
        "fe80::1%wlan0",
        "[::ffff:192.0.2.8]:21118",
        "[bad]",
        "bad:port",
        "[::1",
        "1.2.3",
    ] {
        assert!(
            !matches!(direct_peer_addr(endpoint), Ok(None)),
            "routed endpoint {endpoint:?} as an ID"
        );
    }
    for id in ["123456789", "test-peer", "custom.id"] {
        assert!(
            matches!(direct_peer_addr(id), Ok(None)),
            "blocked ID {id:?}"
        );
    }
    let invalid = "192.0.2.8:0";
    let inner = bracket_inner(invalid);
    assert_eq!(
        connect_target(Some(invalid), &parsed(invalid), &parsed(&inner)),
        Err(-23)
    );
}

#[test]
fn public_access_key_and_peer_password_are_separate() {
    let public_key = default_server_key("", "");
    assert_eq!(public_key, RS_PUB_KEY);
    assert!(get_rs_pk(&public_key).is_some());
    assert_eq!(default_server_key("  ", ""), RS_PUB_KEY);
    assert_eq!(default_server_key("private.example", ""), "");
    for server in ["", "private.example", "192.0.2.8:21116"] {
        for key in ["explicit-custom-key", "invalid-key", RS_PUB_KEY] {
            assert_eq!(default_server_key(server, key), key);
        }
    }
    for conn_type in [ConnType::DefaultConn, ConnType::FileTransfer] {
        for force_relay in [false, true] {
            let request = punch_hole_request(
                "test-peer",
                &public_key,
                conn_type,
                force_relay,
                NatKind::Asymmetric,
                40000,
                vec![1, 2, 3],
                "webrtc://offer".to_string(),
            );
            assert_eq!(request.licence_key, RS_PUB_KEY);
            assert!(request.token.is_empty());
            assert_eq!(request.id, "test-peer");
            assert_eq!(request.conn_type, conn_type);
            assert_eq!(request.force_relay, force_relay);
            assert_eq!(request.nat_type, NatKind::Asymmetric);
            assert_eq!(request.version, RUSTDESK_PROTOCOL_VERSION);
            assert_eq!(request.udp_port, 40000);
            assert_eq!(request.socket_addr_v6.as_slice(), &[1, 2, 3]);
            assert_eq!(request.webrtc_sdp_offer, "webrtc://offer");
        }
    }
}

#[test]
fn official_public_server_candidates_do_not_override_custom_configuration() {
    let bootstrap = parsed(RENDEZVOUS_SERVER);
    let entries = vec![(RENDEZVOUS_SERVER.to_string(), parsed(RENDEZVOUS_SERVER))];
    let public = rendezvous_candidates("", &parsed(""), &entries, &bootstrap);
    assert!(!public.is_empty());
    assert!(public.iter().all(|server| server.ends_with(":21116")));
    assert!(public.contains(&"rs-ny.rustdesk.com:21116".to_string()));
    let custom = "private.example:32116";
    assert_eq!(
        rendezvous_candidates(custom, &parsed(custom), &entries, &bootstrap),
        vec!["private.example:32116".to_string()]
    );
}

#[test]
fn websocket_fallbacks_match_rustdesk_rendezvous_and_relay_routes() {
    assert_eq!(
        websocket_candidates("192.0.2.8:21116", EndpointRole::Rendezvous, true),
        vec!["ws://192.0.2.8:21118"]
    );
    assert_eq!(
        websocket_candidates("[2001:db8::8]:21117", EndpointRole::Relay, true),
        vec!["ws://[2001:db8::8]:21119"]
    );
    assert_eq!(
        websocket_candidates("example.com:21116", EndpointRole::Rendezvous, false),
        vec![
            "wss://example.com/ws/id",
            "ws://example.com:21118/ws/id",
            "ws://example.com/ws/id",
        ]
    );
    assert_eq!(
        websocket_candidates("example.com:21117", EndpointRole::Relay, false),
        vec![
            "wss://example.com/ws/relay",
            "ws://example.com:21119/ws/relay",
            "ws://example.com/ws/relay",
        ]
    );
    assert!(
        websocket_candidates("wss://example.com/ws/id", EndpointRole::Rendezvous, false).is_empty()
    );
}

#[test]
fn udp_punch_probe_is_transaction_bound_and_rejects_other_packets() {
    let transaction = 0x8877_6655_4433_2211;
    let probe = punch_packet(&PUNCH_PROBE, transaction);
    let ack = punch_packet(&PUNCH_ACK, transaction);
    assert_eq!(punch_transaction(&probe, &PUNCH_PROBE), Some(transaction));
    assert_eq!(punch_transaction(&ack, &PUNCH_ACK), Some(transaction));
    assert_eq!(punch_transaction(&probe, &PUNCH_ACK), None);
    assert_eq!(
        punch_transaction(&ack[..PUNCH_PACKET_LEN - 1], &PUNCH_ACK),
        None
    );
}

#[test]
fn rendezvous_refusals_are_logged_as_safe_categories() {
    assert_eq!(classify_rendezvous_refusal(""), "none");
    assert_eq!(
        classify_rendezvous_refusal("Please update client"),
        "client_version"
    );
    assert_eq!(classify_rendezvous_refusal("too frequent"), "rate_limit");
    assert_eq!(
        classify_rendezvous_refusal("invalid licence key"),
        "server_key"
    );
    assert_eq!(classify_rendezvous_refusal("internal detail"), "other");
}

#[test]
fn official_direct_timeout_preserves_relay_fallback_responsiveness() {
    assert_eq!(
        official_direct_timeout(true, NatKind::Asymmetric, NatKind::Asymmetric, true, 0),
        LOCAL_DIRECT_CONNECT_TIMEOUT
    );
    assert_eq!(
        official_direct_timeout(false, NatKind::Symmetric, NatKind::Asymmetric, true, 0),
        LOCAL_DIRECT_CONNECT_TIMEOUT
    );
    assert_eq!(
        official_direct_timeout(false, NatKind::Asymmetric, NatKind::Asymmetric, true, 0),
        DIRECT_CONNECT_TIMEOUT
    );
    assert_eq!(
        official_direct_timeout(false, NatKind::Unknown, NatKind::Unknown, true, 0),
        DIRECT_CONNECT_TIMEOUT
    );
    assert_eq!(
        official_direct_timeout(false, NatKind::Unknown, NatKind::Unknown, false, 2),
        DIRECT_ONLY_CONNECT_TIMEOUT
    );
    assert_eq!(
        official_direct_timeout(false, NatKind::Asymmetric, NatKind::Asymmetric, true, 1),
        LOCAL_DIRECT_CONNECT_TIMEOUT
    );
}

#[test]
fn peer_route_history_learns_failures_without_storing_plain_peer_ids() {
    let now = 10_000;
    let peer = "123456789";
    let key = peer_route_history_key(peer);
    assert_ne!(key, peer);
    assert_eq!(key.len(), 24);

    let mut history = RouteHistory::new();
    assert_eq!(apply_peer_direct_failure(&mut history, key.clone(), now), 1);
    assert_eq!(
        apply_peer_direct_failure(&mut history, key.clone(), now + 1),
        2
    );
    assert_eq!(recent_direct_failures(history.get(&key), now + 2), 2);

    let relay = apply_peer_route_success(&mut history, key.clone(), 2, TRANSPORT_TCP, now + 3);
    assert_eq!(relay.direct_failures, 2);
    assert_eq!(recent_direct_failures(history.get(&key), now + 4), 2);

    let direct =
        apply_peer_route_success(&mut history, key.clone(), 1, TRANSPORT_UDP_KCP, now + 5);
    assert_eq!(direct.direct_failures, 0);
    assert_eq!(direct.direct_failure_ms, 0);
    assert_eq!(recent_direct_failures(history.get(&key), now + 6), 0);
}

#[test]
fn peer_route_history_expires_and_stays_bounded() {
    let now = PEER_ROUTE_HISTORY_TTL_MS + 1_000;
    let stale = PeerRouteRecord {
        direct_failures: 2,
        direct_failure_ms: 1,
        updated_ms: 1,
        ..Default::default()
    };
    assert_eq!(recent_direct_failures(Some(&stale), now), 0);

    let mut history = RouteHistory::new();
    history.insert("stale".to_string(), stale);
    for index in 0..(PEER_ROUTE_HISTORY_MAX_ENTRIES + 5) {
        history.insert(
            format!("peer-{index:03}"),
            PeerRouteRecord {
                updated_ms: now + index as u64,
                ..Default::default()
            },
        );
    }
    prune_peer_route_history(
        &mut history,
        now + PEER_ROUTE_HISTORY_MAX_ENTRIES as u64 + 5,
    );
    assert_eq!(history.len(), PEER_ROUTE_HISTORY_MAX_ENTRIES);
    assert!(!history.contains_key("stale"));
    assert!(!history.contains_key("peer-000"));
    assert!(history.contains_key("peer-132"));
}

#[test]
fn official_quality_monitor_uses_peer_delay_and_target_bitrate() {
    let mut peer_probe = TestDelay {
        time: 0,
        from_client: false,
        last_delay: 0,
        target_bitrate: 0,
    };
    peer_probe.from_client = false;
    peer_probe.last_delay = 86;
    peer_probe.target_bitrate = 2048;
    assert_eq!(test_delay_quality_values(&peer_probe), Some((86, 2048)));

    peer_probe.last_delay = u32::MAX;
    peer_probe.target_bitrate = u32::MAX;
    assert_eq!(
        test_delay_quality_values(&peer_probe),
        Some((i32::MAX, i32::MAX))
    );

    peer_probe.from_client = true;
    assert_eq!(test_delay_quality_values(&peer_probe), None);
}

#[test]
fn extended_transports_never_block_the_custom_or_forced_relay_fast_path() {
    assert_eq!(
        transport_preparation_policy(false, false),
        TransportPreparationPolicy {
            udp_kcp: true,
            ipv6_kcp: true,
            webrtc: false,
        }
    );
    assert_eq!(
        transport_preparation_policy(true, false),
        TransportPreparationPolicy {
            udp_kcp: true,
            ipv6_kcp: true,
            webrtc: true,
        }
    );
    assert_eq!(
        transport_preparation_policy(true, true),
        TransportPreparationPolicy {
            udp_kcp: false,
            ipv6_kcp: false,
            webrtc: false,
        }
    );
    assert_eq!(
        Duration::from_millis(UDP_NAT_TEST_TIMEOUT_MS),
        Duration::from_millis(300)
    );
    assert_eq!(IPV6_PREPARATION_TIMEOUT, 300);
    assert_eq!(WEBRTC_OFFER_TIMEOUT, 500);
    assert_eq!(PUNCH_REPLY_TIMEOUTS, [1_500, 2_500, 4_000]);
}

#[test]
fn public_bootstrap_and_online_port_match_upstream_without_overriding_custom_servers() {
    assert_eq!(rendezvous_addr(""), "rs-ny.rustdesk.com:21116");
    assert_eq!(rendezvous_addr("  "), rendezvous_addr(""));
    assert_eq!(online_query_addr(""), "rs-ny.rustdesk.com:21115");
    for (input, connection, online) in [
        (
            "private.example",
            "private.example:21116",
            "private.example:21115",
        ),
        (
            " private.example:32116 ",
            "private.example:32116",
            "private.example:32115",
        ),
        ("192.0.2.8:32116", "192.0.2.8:32116", "192.0.2.8:32115"),
        ("2001:db8::8", "[2001:db8::8]:21116", "[2001:db8::8]:21115"),
        (
            "[2001:db8::8]:32116",
            "[2001:db8::8]:32116",
            "[2001:db8::8]:32115",
        ),
        ("rustdesk.com", "rustdesk.com:21116", "rustdesk.com:21115"),
    ] {
        assert_eq!(rendezvous_addr(input), connection);
        assert_eq!(online_query_addr(input), online);
    }
}

#[test]
fn online_queries_exclude_ip_literals_and_reject_truncated_bitmaps() {
    let peers: Vec<String> = vec![
        "127.0.0.1".into(),
        "123456789".into(),
        "[::1]:21118".into(),
        "987654321".into(),
    ];
    let parsed_pairs: Vec<(ParsedHost, ParsedHost)> = peers
        .iter()
        .map(|peer| {
            let trimmed = peer.trim();
            (parsed(trimmed), parsed(&bracket_inner(trimmed)))
        })
        .collect();
    let ids = ids_for_online_query(&peers, &parsed_pairs);
    assert_eq!(ids, vec!["123456789".to_string(), "987654321".to_string()]);
    let literals: Vec<String> = vec!["127.0.0.1".into(), "[::1]:21118".into()];
    let literal_pairs: Vec<(ParsedHost, ParsedHost)> = literals
        .iter()
        .map(|peer| (parsed(peer), parsed(&bracket_inner(peer))))
        .collect();
    assert!(ids_for_online_query(&literals, &literal_pairs).is_empty());
    assert!(decode_online_states(ids.clone(), &[]).is_none());
    let states = decode_online_states(ids, &[0x80]).unwrap();
    assert_eq!(states.len(), 2);
    assert!(states[0].online);
    assert!(!states[1].online);
}
