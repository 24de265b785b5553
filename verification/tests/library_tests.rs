use starrustdesk::connect::{connect_target, connection_route, ROUTE_DIRECT, ROUTE_RELAY};
use starrustdesk::session::{register_for_session, ConnectionStatus};
use starrustdesk::endpoint::ParsedHost;
use starrustdesk::online::{clock_millis, now_ms, peer_list_from_json};
use starrustdesk::session::new_relay_uuid;
use starrustdesk::connect::{
    after_direct_race, after_secure_failure, attempt_code, plan_direct_race, plan_file_answer,
    plan_punch_answer, relay_attempts_exhausted, relay_request_step, AfterDirect,
    AfterSecureFailure, AttemptEnd, PunchAnswer, PunchFailure, PunchHole, PunchHoleResponse,
    RelayReply, RelayResponse, RelayStep,
};
use starrustdesk::crypto::hex_prefix;
use starrustdesk::cursor::{
    accept_cursor_image, select_remote_cursor_image, CursorCache, CursorRejection, CursorState,
    RemoteCursorImage, CURSOR_CACHE_LIMIT,
};
use starrustdesk::endpoint::{IpAddress, PeerAddress, RS_PUB_KEY};
use starrustdesk::handshake::{
    get_pk, get_rs_pk, login_password_response, secure_peer_finish, secure_peer_start,
    HandshakeError, HandshakeStart, SignedIdReply,
};
use starrustdesk::punch::{
    punch_packet, punch_reply, punch_transaction_id, stream_transport_label, PunchReply,
    PUNCH_ACK, PUNCH_PROBE,
};
use starrustdesk::rendezvous::{
    classify_nat_from_ports, classify_rendezvous_refusal, config_update_servers, rendezvous_message_kind,
    rendezvous_read_action, NatKind, ReadAction, RendezvousKind,
};
use starrustdesk::route::{
    peer_route_history_key, record_peer_direct_failure, record_peer_route_success,
    recent_peer_direct_failures, RouteHistory, PEER_ROUTE_HISTORY_MAX_FAILURES,
    PEER_ROUTE_HISTORY_TTL_MS,
};

fn address(port: u16) -> PeerAddress {
    PeerAddress {
        ip: IpAddress::V4([192, 0, 2, 8]),
        port,
        flowinfo: 0,
        scope_id: 0,
    }
}

fn hole_response() -> PunchHoleResponse {
    PunchHoleResponse {
        other_failure: String::new(),
        pk: vec![7; 4],
        is_udp: false,
        is_local: true,
        nat_type: NatKind::Symmetric,
        socket_addr: None,
        socket_addr_v6: None,
        webrtc_sdp_answer: String::new(),
        relay_server: String::new(),
        failure: PunchFailure::Offline,
    }
}

#[test]
fn punch_packets_round_trip_and_replies_follow_the_transaction() {
    for transaction in [0u64, 1, 0x0102_0304_0506_0708, u64::MAX] {
        let probe = punch_packet(&PUNCH_PROBE, transaction);
        assert_eq!(&probe[..4], b"RDP?");
        assert_eq!(&probe[4..], &transaction.to_le_bytes());
        assert_eq!(punch_reply(&probe, transaction.wrapping_add(1)), PunchReply::SendAck(transaction));
        let ack = punch_packet(&PUNCH_ACK, transaction);
        assert_eq!(&ack[..4], b"RDP!");
        assert_eq!(punch_reply(&ack, transaction), PunchReply::Established);
    }
    assert_eq!(punch_reply(b"hello", 5), PunchReply::Established);
    assert_eq!(punch_reply(&[], 5), PunchReply::Ignore);
    assert_eq!(punch_transaction_id(1, 2), (1u64 << 32) | 2);
}

#[test]
fn transport_labels_and_nat_probe_results() {
    assert_eq!(stream_transport_label(1), "TCP");
    assert_eq!(stream_transport_label(3), "IPv6/KCP");
    assert_eq!(stream_transport_label(9), "Unknown");
    assert_eq!(classify_nat_from_ports(40000, 40000), NatKind::Asymmetric);
    assert_eq!(classify_nat_from_ports(40000, 40001), NatKind::Symmetric);
    assert_eq!(classify_nat_from_ports(0, 40001), NatKind::Unknown);
    assert_eq!(NatKind::from_code(NatKind::Symmetric.code()), NatKind::Symmetric);
    assert_eq!(NatKind::from_code(7), NatKind::Unknown);
}

#[test]
fn rendezvous_reader_skips_noise_and_applies_only_allowed_updates() {
    assert_eq!(rendezvous_message_kind(RendezvousKind::PunchHoleResponse), "punch_hole_response");
    assert_eq!(rendezvous_message_kind(RendezvousKind::Empty), "none");
    assert_eq!(rendezvous_read_action(RendezvousKind::Hc, true), ReadAction::Skip);
    assert_eq!(rendezvous_read_action(RendezvousKind::ConfigureUpdate, true), ReadAction::ApplyUpdate);
    assert_eq!(rendezvous_read_action(RendezvousKind::ConfigureUpdate, false), ReadAction::Skip);
    assert_eq!(rendezvous_read_action(RendezvousKind::RelayResponse, false), ReadAction::Deliver);
    assert_eq!(config_update_servers(&Vec::new()), None);
    assert_eq!(
        config_update_servers(&vec!["a".to_string(), "b:1".to_string()]),
        Some("a,b:1".to_string())
    );
}

#[test]
fn punch_answers_map_to_routes_and_status_codes() {
    // No route and no relay: the failure decides the code.
    let r = plan_punch_answer(PunchAnswer::HoleResponse(hole_response()), String::new());
    assert_eq!(r.err(), Some(-9));
    // A refusal always wins.
    let mut refused = hole_response();
    refused.other_failure = "licence".to_string();
    refused.socket_addr = Some(address(21118));
    assert_eq!(plan_punch_answer(PunchAnswer::HoleResponse(refused), String::new()).err(), Some(-13));
    // An IPv6 candidate without port is dropped; the configured relay wins.
    let mut routed = hole_response();
    routed.socket_addr_v6 = Some(address(0));
    routed.relay_server = "relay.server".to_string();
    let plan = plan_punch_answer(PunchAnswer::HoleResponse(routed), "own.relay".to_string()).unwrap();
    assert_eq!(plan.peer_ipv6_addr, None);
    assert_eq!(plan.relay_server, "own.relay");
    assert!(plan.is_local);
    assert_eq!(plan.peer_nat, NatKind::Symmetric);
    // A relay answer needs a relay and a uuid.
    let relay = RelayResponse {
        refuse_reason: String::new(),
        pk: Vec::new(),
        relay_server: String::new(),
        uuid: "u-1".to_string(),
        socket_addr_v6: None,
        webrtc_sdp_answer: String::new(),
    };
    assert_eq!(plan_punch_answer(PunchAnswer::Relay(relay), String::new()).err(), Some(-4));
    let hole = PunchHole {
        socket_addr: Some(address(30000)),
        socket_addr_v6: None,
        relay_server: "r".to_string(),
    };
    let plan = plan_punch_answer(PunchAnswer::Hole(hole), String::new()).unwrap();
    assert_eq!(plan.peer_addr, Some(address(30000)));
    assert_eq!(
        plan_punch_answer(PunchAnswer::Other(RendezvousKind::Hc), String::new()).err(),
        Some(-5)
    );
}

#[test]
fn race_and_fallback_decisions() {
    let mut response = hole_response();
    response.socket_addr = Some(address(21118));
    response.is_udp = true;
    response.webrtc_sdp_answer = "answer".to_string();
    let plan = plan_punch_answer(PunchAnswer::HoleResponse(response), String::new()).unwrap();
    let race = plan_direct_race(false, &plan, true, false, true);
    assert_eq!(race.tcp_peer, None);
    assert_eq!(race.udp_peer, Some(address(21118)));
    assert!(race.webrtc);
    assert_eq!(race.webrtc_route, 1);
    let forced = plan_direct_race(true, &plan, true, true, true);
    assert_eq!(forced.udp_peer, None);
    assert_eq!(forced.webrtc_route, 2);
    assert_eq!(after_direct_race(true, false, false, false), AfterDirect::UseDirect);
    assert_eq!(after_direct_race(false, false, false, false), AfterDirect::Fail(-14));
    assert_eq!(
        after_direct_race(false, true, true, false),
        AfterDirect::CreateRelay { record_failure: true }
    );
    assert_eq!(
        after_direct_race(false, true, false, true),
        AfterDirect::RequestRelay { record_failure: false }
    );
    assert_eq!(after_secure_failure(true, true, "x"), AfterSecureFailure::RetryOverRelay);
    assert_eq!(
        after_secure_failure(false, true, "server key mismatch"),
        AfterSecureFailure::Fail(-24)
    );
    assert_eq!(after_secure_failure(true, false, "boom"), AfterSecureFailure::Fail(-16));
    assert_eq!(attempt_code(AttemptEnd::Deadline), -20);
    assert_eq!(attempt_code(AttemptEnd::Cancelled), -19);
    assert_eq!(attempt_code(AttemptEnd::Finished(0)), 0);
}

#[test]
fn relay_requests_retry_until_refused_or_exhausted() {
    assert!(matches!(relay_request_step(RelayReply::Accepted), RelayStep::CreateRelay));
    match relay_request_step(RelayReply::Refused("busy".to_string())) {
        RelayStep::Fail(e) => assert_eq!(e, "relay refused: busy"),
        _ => panic!("a refusal ends the request"),
    }
    match relay_request_step(RelayReply::Unexpected(RendezvousKind::PunchHole)) {
        RelayStep::Retry(e) => assert_eq!(e, "unexpected rendezvous response kind=punch_hole"),
        _ => panic!("an unexpected answer is retried"),
    }
    assert_eq!(
        relay_attempts_exhausted("relay request timeout"),
        "relay request timeout after 3 attempts"
    );
    let file = plan_file_answer(PunchAnswer::Other(RendezvousKind::Hc), String::new());
    assert_eq!(file.err(), Some("文件传输握手响应无效".to_string()));
}

#[test]
fn secure_handshake_valid_and_unsigned_compatibility() {
    let pk = [9u8; 32];
    let peer_pk = [7u8; 32];
    // A valid rendezvous signature for the peer asks for its signed id, and
    // a valid signed id gives the key the session is encrypted with.
    let signed = Some(Ok(("test-peer".to_string(), peer_pk)));
    assert_eq!(secure_peer_start(true, signed, "test-peer", false), HandshakeStart::AwaitSignedId(peer_pk));
    assert_eq!(
        secure_peer_finish(SignedIdReply::Decoded(Ok(("test-peer".to_string(), pk))), "test-peer"),
        Ok(pk)
    );
    // Without a rendezvous signature the session stays compatible and plain.
    assert_eq!(
        secure_peer_start(true, None, "test-peer", false),
        HandshakeStart::SendPlain { approved_insecure: false }
    );
}

#[test]
fn invalid_identity_never_downgrades_or_sends_public_key() {
    let peer_pk = [7u8; 32];
    let signed = || Some(Ok(("test-peer".to_string(), peer_pk)));
    // Scenario 0: an invalid server key.
    assert!(get_rs_pk("invalid-key").is_none());
    assert_eq!(
        secure_peer_start(false, signed(), "test-peer", false),
        HandshakeStart::Reject(HandshakeError::InvalidServerKey)
    );
    // Scenario 1: a rendezvous signature that does not verify.
    assert_eq!(
        secure_peer_start(true, Some(Err(())), "test-peer", false),
        HandshakeStart::Reject(HandshakeError::ServerKeyMismatch)
    );
    // Scenario 2: the rendezvous server signed another peer.
    assert_eq!(
        secure_peer_start(true, Some(Ok(("wrong-peer".to_string(), peer_pk))), "test-peer", false),
        HandshakeStart::Reject(HandshakeError::ServerKeyMismatch)
    );
    // Scenarios 3 to 6: what the peer sends instead of a valid signed id.
    assert_eq!(
        secure_peer_finish(SignedIdReply::NotSignedId, "test-peer"),
        Err(HandshakeError::ExpectedSignedId)
    );
    assert_eq!(
        secure_peer_finish(SignedIdReply::Unparsable, "test-peer"),
        Err(HandshakeError::InvalidHandshakeMessage)
    );
    assert_eq!(
        secure_peer_finish(SignedIdReply::Decoded(Ok(("wrong-peer".to_string(), peer_pk))), "test-peer"),
        Err(HandshakeError::PeerIdMismatch)
    );
    assert_eq!(
        secure_peer_finish(SignedIdReply::Decoded(Err(())), "test-peer"),
        Err(HandshakeError::InvalidPeerSignature)
    );
    assert_eq!(secure_peer_finish(SignedIdReply::Missing, "test-peer"), Err(HandshakeError::NoSignedId));
    // Only the user's approval sends a plain session after a failed identity.
    assert_eq!(
        secure_peer_start(false, signed(), "test-peer", true),
        HandshakeStart::SendPlain { approved_insecure: true }
    );
    assert_eq!(HandshakeError::ServerKeyMismatch.message(), "server key mismatch");
}

#[test]
fn server_keys_decode_from_base64_and_login_proof_hashes_twice() {
    let public = get_rs_pk(RS_PUB_KEY).expect("the public key decodes");
    assert_eq!(&public[..4], &[57, 229, 110, 42]);
    assert_eq!(get_rs_pk("AAAAAAAAAAAAAAAAAAAAAAAAAAAAAAAAAAAAAAAAAAA="), Some([0u8; 32]));
    assert_eq!(get_rs_pk("invalid-key"), None);
    assert_eq!(get_rs_pk("AAAA"), None);
    assert_eq!(get_pk(&[1u8; 31]), None);
    assert_eq!(get_pk(&[1u8; 32]), Some([1u8; 32]));
    assert!(login_password_response(b"", "salt", "challenge").is_empty());
    assert_eq!(
        login_password_response(b"secret", "salt", "challenge"),
        vec![
            231, 166, 206, 98, 139, 94, 52, 1, 192, 232, 103, 42, 137, 77, 1, 2, 150, 126, 243,
            144, 145, 198, 239, 187, 15, 138, 114, 211, 120, 29, 97, 126
        ]
    );
}

#[test]
fn route_history_keys_hash_the_trimmed_id_and_counts_cap() {
    assert_eq!(peer_route_history_key("123456789"), "15e2b0d3c33891ebb0f1ef60");
    assert_eq!(peer_route_history_key("  123456789 "), "15e2b0d3c33891ebb0f1ef60");
    assert_eq!(hex_prefix(&vec![0, 15, 255], 3), "000fff");
    let mut history = RouteHistory::new();
    let now = 5_000;
    for expected in [1, 2, 3, 3, 3] {
        assert_eq!(record_peer_direct_failure(&mut history, "peer-1", now), expected);
    }
    assert_eq!(recent_peer_direct_failures(&history, "peer-1", now + 10), PEER_ROUTE_HISTORY_MAX_FAILURES);
    assert_eq!(recent_peer_direct_failures(&history, "peer-1", now + PEER_ROUTE_HISTORY_TTL_MS + 1), 0);
    let relayed = record_peer_route_success(&mut history, "peer-1", 2, 1, now + 20);
    assert_eq!(relayed.direct_failures, 3);
    let direct = record_peer_route_success(&mut history, "peer-1", 1, 2, now + 30);
    assert_eq!(direct.direct_failures, 0);
    assert_eq!(recent_peer_direct_failures(&history, "peer-1", now + 40), 0);
    assert_eq!(history.len(), 1);
    assert!(history.contains_key("37effc81d805811d59f99c13"));
}

fn image(id: u64) -> RemoteCursorImage {
    RemoteCursorImage {
        id,
        hotx: 0,
        hoty: 0,
        width: 1,
        height: 1,
        colors: vec![0, 0, 0, 255],
    }
}

#[test]
fn cursor_images_are_checked_and_the_cache_stays_bounded() {
    assert_eq!(accept_cursor_image(1, 0, 0, 0, 4, vec![]).err(), Some(CursorRejection::InvalidDimensions));
    assert_eq!(accept_cursor_image(1, 0, 0, 513, 4, vec![]).err(), Some(CursorRejection::InvalidDimensions));
    assert_eq!(accept_cursor_image(1, 0, 0, 2, 2, vec![0; 15]).err(), Some(CursorRejection::SizeMismatch));
    let accepted = accept_cursor_image(7, 99, -4, 2, 3, vec![1; 24]).unwrap();
    assert_eq!((accepted.hotx, accepted.hoty), (1, 0));

    let mut cache = CursorCache::new();
    for id in 0..(CURSOR_CACHE_LIMIT as u64 + 10) {
        cache.insert(image(id + 100));
        assert!(cache.len() <= CURSOR_CACHE_LIMIT);
        assert!(cache.contains(id + 100));
    }
    assert_eq!(cache.len(), CURSOR_CACHE_LIMIT);
    // The smallest ids left first.
    assert!(!cache.contains(100));
    assert!(!cache.contains(109));
    assert!(cache.contains(110));

    let mut state = CursorState::new();
    state.store_image(image(5));
    assert!(state.selected_image().is_some());
    assert!(!select_remote_cursor_image(&mut state, 6));
    assert_eq!(state.image_id, 5);
    state.store_image(image(6));
    assert!(select_remote_cursor_image(&mut state, 5));
    assert_eq!(state.image_id, 5);
    state.set_position(30, 40);
    assert_eq!(state.position_relative_to(10, 10), Some((20, 30, 1)));
    state.reset();
    assert_eq!(state.position_relative_to(0, 0), None);
    assert!(state.selected_image().is_none());
}

#[test]
fn peer_lists_come_from_json_and_blank_peers_are_missing() {
    assert_eq!(peer_list_from_json("  "), Err(-1));
    assert_eq!(peer_list_from_json("not json"), Err(-2));
    assert_eq!(peer_list_from_json("{\"a\": 1}"), Err(-2));
    assert_eq!(peer_list_from_json("[\" \", \"\"]"), Err(-3));
    assert_eq!(
        peer_list_from_json("[\"b\", \" \", \"a\", \"b\"]"),
        Ok(vec!["a".to_string(), "b".to_string()])
    );
    let none = ParsedHost { socket: None, ip: None };
    assert_eq!(connect_target(None, &none, &none), Err(-1));
    assert_eq!(connect_target(Some(""), &none, &none), Err(-1));
    assert_eq!(connect_target(Some("   "), &none, &none), Err(-1));
    assert_eq!(connect_target(Some(" 123456789 "), &none, &none), Ok(None));
}

#[test]
fn clock_and_relay_uuid_forms() {
    assert_eq!(clock_millis(None), 0);
    assert_eq!(clock_millis(Some(1_700_000_000_123)), 1_700_000_000_123);
    assert_eq!(clock_millis(Some((1u128 << 64) + 5)), 5);
    assert!(now_ms() > 1_600_000_000_000);
    let uuid = new_relay_uuid();
    assert_eq!(uuid.len(), 36);
    let parts: Vec<&str> = uuid.split('-').collect();
    assert_eq!(parts.iter().map(|p| p.len()).collect::<Vec<_>>(), vec![8, 4, 4, 4, 12]);
    assert!(uuid.chars().all(|c| c == '-' || c.is_ascii_digit() || ('a'..='f').contains(&c)));
    assert_ne!(new_relay_uuid(), uuid);
    assert_eq!(&uuid[14..15], "4");
    assert!(["8", "9", "a", "b"].contains(&&uuid[19..20]));
    assert_eq!(peer_route_history_key("123456789").len(), 24);
    assert_ne!(peer_route_history_key("123456789"), "123456789");
}

#[test]
fn relayed_connections_report_the_relay_route_and_refusals_ignore_case() {
    assert_eq!((connection_route(true), connection_route(false)), (ROUTE_RELAY, ROUTE_DIRECT));
    assert_eq!((ROUTE_DIRECT, ROUTE_RELAY), (1, 2));
    let mut status = ConnectionStatus::new();
    let session = status.begin_session();
    assert!(status.mark_connected(session, connection_route(true), 1));
    assert_eq!((status.route, status.status_code()), (2, 2));
    assert_eq!(classify_rendezvous_refusal("PLEASE UPDATE CLIENT"), "client_version");
    assert_eq!(classify_rendezvous_refusal("Please update client"), "client_version");
    assert_eq!(classify_rendezvous_refusal("TOO FREQUENT"), "rate_limit");
    assert_eq!(classify_rendezvous_refusal(""), "none");
    let mut slot: Option<(u64, &str)> = Some((3, "old"));
    register_for_session(&mut slot, 4, "new");
    assert_eq!(slot, Some((4, "new")));
}
