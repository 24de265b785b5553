use starrustdesk::files::{
    cancel_summary, check_2fa_code, check_download_batch, check_upload_request, directory_listing,
    directory_request, file_command_action, next_file_job_id, record_download_done,
    sanitize_remote_value, set_file_transfer_status, start_download_batch, upload_job_id,
    upload_remote_path, DownloadRequest, FileCommandAction, FileCommandKind, FileSessionQueue,
    RemoteDirectoryEntry, FIRST_FILE_JOB_ID,
};
use starrustdesk::keyboard::{mouse_event, text_event, wheel_event, ControlKey, KeyPayload};
use starrustdesk::media::{
    accept_remote_clipboard, handle_audio_frame, note_clipboard_sent, performance_config,
    performance_preset, preferred_codec_name, reset_audio, supported_decoding_options,
    tag_encoded_frames, take_remote_clipboard_text, ClipboardItem, ClipboardState, CodecSupport,
    ImageQuality, PerformanceConfig, VideoCodec,
};
use starrustdesk::online::{
    decode_online_states, device_id, normalize_peer_list, now_ms, rand_simple,
};
use starrustdesk::receive::{
    close_reason_for_log, login_error_outcome, message_label, peer_command_action,
    receive_loop_ended, CommandAction, CommandKind, LoginOutcome, MiscKind, PeerMessageKind,
    ReceiveStats,
};
use starrustdesk::session::{
    apply_peer_info, apply_switch_display, clear_connection_for_session,
    clear_peer_message_sender_for_session, current_display_origin, current_display_rect,
    finish_peer_task, is_remote_cursor_embedded, mark_connection_lost,
    new_protocol_session_id, protocol_session_id_from, queue_video_received_if_due,
    request_graceful_peer_close, reset_display_state, ConnectionStatus, DisplayInfo, DisplayState,
};

#[test]
fn connection_loss_is_reported_once_per_session() {
    let mut status = ConnectionStatus::new();
    let session = status.begin_session();
    assert!(status.mark_connected(session, 2, 4));
    assert_eq!(status.status_code(), 2);
    let mut sender = Some((session, "sender"));
    let mut connection = Some("stream");
    let mut display = DisplayState::new();
    display.current_display = 1;
    assert!(mark_connection_lost(&mut status, &mut sender, &mut connection, false, &mut display, session + 7).is_none());
    assert_eq!(status.route, 2);
    assert_eq!(sender, Some((session, "sender")));
    assert_eq!(connection, Some("stream"));
    assert_eq!(display.current_display, 1);
    let report = mark_connection_lost(&mut status, &mut sender, &mut connection, false, &mut display, session)
        .expect("the current session is lost");
    assert_eq!(status.status_code(), 0);
    assert_eq!((status.route, status.transport), (0, 0));
    assert_eq!(status.session_id, session + 1);
    assert_eq!((report.state.as_str(), report.error.as_str()), ("failed", "connection lost"));
    assert_eq!((report.session_id, report.direction.as_str()), (session + 1, "upload"));
    assert_eq!((report.transferred, report.total, report.completed_items, report.total_items), (0, 0, 0, 1));
    assert_eq!(sender, None);
    assert_eq!(connection, None);
    assert_eq!(display.current_display, 0);
    assert!(mark_connection_lost(&mut status, &mut sender, &mut connection, false, &mut display, session).is_none());
    assert!(!status.mark_connected(session, 1, 1));
    let mut busy_connection = Some("stream");
    let next = status.session_id;
    assert!(mark_connection_lost(&mut status, &mut sender, &mut busy_connection, true, &mut display, next).is_some());
    assert_eq!(busy_connection, Some("stream"));
    let mut wrapped = ConnectionStatus { session_id: u64::MAX, ..ConnectionStatus::new() };
    assert_eq!(wrapped.begin_session(), 0);
    assert!(!receive_loop_ended(&mut status, session));
}

#[test]
fn sender_and_task_slots_only_serve_their_own_session() {
    let mut slot = Some((3u64, "sender"));
    clear_peer_message_sender_for_session(&mut slot, 4);
    assert_eq!(slot, Some((3, "sender")));
    assert_eq!(request_graceful_peer_close(&slot, 3), Some(&"sender"));
    assert_eq!(request_graceful_peer_close(&slot, 4), None);
    clear_peer_message_sender_for_session(&mut slot, 3);
    assert_eq!(slot, None);

    let mut sender = Some((3u64, 1u8));
    let mut connection = Some("stream");
    assert!(!clear_connection_for_session(&mut sender, &mut connection, true, 3, 3));
    assert_eq!(sender, None);
    assert_eq!(connection, Some("stream"));
    assert!(clear_connection_for_session(&mut sender, &mut connection, false, 4, 3));
    assert_eq!(connection, Some("stream"));
    assert!(clear_connection_for_session(&mut sender, &mut connection, false, 3, 3));
    assert_eq!(connection, None);

    let mut task = Some((8u64, "task"));
    assert_eq!(finish_peer_task(&mut task, 9, true), None);
    assert_eq!(finish_peer_task(&mut task, 8, false), Some(("task", true)));
    assert_eq!(task, None);
}

#[test]
fn displays_default_grow_and_keep_the_local_selection() {
    let mut state = DisplayState::new();
    assert_eq!(current_display_rect(&state), (0, 0, 1920, 1080));
    apply_peer_info(
        &mut state,
        "Android".to_string(),
        "1.2.4".to_string(),
        true,
        vec![
            DisplayInfo { x: 0, y: 0, width: 1280, height: 720, cursor_embedded: false },
            DisplayInfo { x: 1280, y: 0, width: 800, height: 600, cursor_embedded: true },
        ],
        1,
    );
    assert!(state.peer_is_android);
    assert!(state.multi_display_frames);
    assert_eq!(state.display_count, 2);
    assert_eq!(current_display_origin(&state), (1280, 0));
    assert!(is_remote_cursor_embedded(&state));
    apply_switch_display(&mut state, 3, 10, 20, 0, 500, false);
    assert_eq!(state.displays.len(), 4);
    assert_eq!(state.displays[2], DisplayInfo { x: 0, y: 0, width: 1920, height: 1080, cursor_embedded: false });
    assert_eq!(state.displays[3], DisplayInfo { x: 10, y: 20, width: 1920, height: 500, cursor_embedded: false });
    assert_eq!(state.current_display, 1);
    apply_peer_info(&mut state, "Linux".to_string(), "  ".to_string(), false, vec![], 0);
    assert!(!state.multi_display_frames);
    assert_eq!(state.display_count, 1);
    reset_display_state(&mut state);
    assert!(state.displays.is_empty());
    assert!(state.peer_platform.is_empty());
}

#[test]
fn video_acknowledgements_are_throttled_and_frames_tagged() {
    let mut last = 0;
    assert!(queue_video_received_if_due(&mut last, 5_000));
    assert!(!queue_video_received_if_due(&mut last, 5_999));
    assert_eq!(last, 5_000);
    assert!(queue_video_received_if_due(&mut last, 6_000));
    let frames = vec![vec![1, 2], vec![], vec![3]];
    let tagged = tag_encoded_frames(VideoCodec::H265, &frames);
    assert_eq!(tagged, vec![b"SRD05\x01\x02".to_vec(), b"SRD05\x03".to_vec()]);
}

#[test]
fn performance_presets_codecs_and_audio() {
    assert_eq!(performance_preset("stable"), PerformanceConfig { fps: 30, quality: ImageQuality::Balanced });
    assert_eq!(performance_preset("silky"), PerformanceConfig { fps: 60, quality: ImageQuality::Low });
    assert_eq!(performance_preset("whatever"), PerformanceConfig { fps: 45, quality: ImageQuality::Low });
    assert_eq!(
        performance_config(performance_preset("high_fps"), true),
        PerformanceConfig { fps: 2, quality: ImageQuality::Low }
    );
    let support = CodecSupport { h264: true, vp9: false, vp8: true, av1: false, h265: true };
    let decoding = supported_decoding_options(support, true);
    assert!(!decoding.prefer_vp9);
    assert_eq!((decoding.ability_h264, decoding.ability_vp9, decoding.ability_h265), (1, 0, 1));
    assert_eq!(preferred_codec_name(support, true), "auto");
    assert_eq!(preferred_codec_name(CodecSupport { vp9: true, ..support }, true), "vp9");
    let played = std::cell::Cell::new(0);
    let player = |data: &[u8]| played.set(played.get() + data.len());
    assert!(handle_audio_frame(&[1, 2, 3], Some(&player)));
    assert!(!handle_audio_frame(&[], Some(&player)));
    assert_eq!(played.get(), 3);
    let stop = || {};
    assert!(reset_audio(Some(stop)));
    assert!(!reset_audio::<fn()>(None));
}

#[test]
fn clipboard_ignores_echoes_and_invalid_text() {
    let mut state = ClipboardState::new();
    assert!(note_clipboard_sent(&mut state, "mine"));
    assert!(!note_clipboard_sent(&mut state, "mine"));
    assert!(!note_clipboard_sent(&mut state, ""));
    let item = |text: bool, content: &[u8]| ClipboardItem { is_text: text, content: content.to_vec() };
    assert!(!accept_remote_clipboard(&mut state, vec![item(true, b"mine")]));
    assert!(!accept_remote_clipboard(&mut state, vec![item(true, &[0xff, 0xfe])]));
    assert!(!accept_remote_clipboard(&mut state, vec![item(false, b"image")]));
    assert!(accept_remote_clipboard(&mut state, vec![item(false, b"x"), item(true, b"theirs"), item(true, b"later")]));
    assert_eq!(take_remote_clipboard_text(&mut state), "theirs");
    assert_eq!(take_remote_clipboard_text(&mut state), "");
}

#[test]
fn file_requests_are_validated() {
    assert_eq!(check_2fa_code("123456"), 0);
    assert_eq!(check_2fa_code("12345a"), -2);
    assert_eq!(check_2fa_code("1234567"), -2);
    assert_eq!(directory_request(""), Ok("/".to_string()));
    assert_eq!(directory_request("a\0b"), Err(-2));
    assert_eq!(directory_request(&"x".repeat(4097)), Err(-2));
    assert_eq!(check_upload_request("f.txt", "/home"), 0);
    assert_eq!(check_upload_request("a/b", "/home"), -2);
    assert_eq!(check_upload_request("f.txt", ""), -2);
    assert_eq!(check_upload_request(&"é".repeat(128), "/"), -2);
    assert_eq!(upload_remote_path("/home", "f.txt"), "/home/f.txt");
    assert_eq!(upload_remote_path("/home/", "f.txt"), "/home/f.txt");
    assert_eq!(upload_remote_path("C:", "f.txt"), "C:\\f.txt");
    assert_eq!(upload_remote_path("C:\\Users", "f.txt"), "C:\\Users\\f.txt");
    let request = |path: &str, name: &str| DownloadRequest {
        remote_path: path.to_string(),
        local_name: name.to_string(),
        is_directory: false,
    };
    assert_eq!(check_download_batch("/tmp", &vec![request("/a", "a")]), 0);
    assert_eq!(check_download_batch("", &vec![request("/a", "a")]), -2);
    assert_eq!(check_download_batch("/tmp", &vec![]), -4);
    assert_eq!(check_download_batch("/tmp", &vec![request("/a", "..")]), -6);
    let mut counter = i32::MAX - 1000;
    assert_eq!(next_file_job_id(&mut counter), i32::MAX - 1000);
    assert_eq!(counter, FIRST_FILE_JOB_ID);
    let mut low = -5;
    assert_eq!(next_file_job_id(&mut low), 1);
    assert_eq!(upload_job_id(2_147_483_650), 3);
}

#[test]
fn transfer_progress_and_listings() {
    assert_eq!(sanitize_remote_value("a\u{7}b\nc", 2), "ab");
    assert_eq!(sanitize_remote_value("plain", 10), "plain");
    let status = set_file_transfer_status(4, "failed", 1, 2, "bad\u{0}thing");
    assert_eq!((status.direction.as_str(), status.error.as_str()), ("upload", "badthing"));
    let mut batch = start_download_batch(2);
    assert!(!record_download_done(&mut batch, Some(10), false));
    assert!(record_download_done(&mut batch, Some(5), true));
    assert!(!batch.active);
    assert_eq!((batch.completed_jobs, batch.completed_bytes), (2, 15));
    let summary = cancel_summary(&start_download_batch(3), false, 4, 9, 0, 0);
    assert!(summary.is_download);
    assert_eq!((summary.transferred, summary.total, summary.total_items), (4, 9, 3));
    let entry = |name: &str| RemoteDirectoryEntry { name: name.to_string(), entry_type: 0, size: 1, modified_time: 2 };
    let listing = directory_listing("/p\u{1b}", vec![entry("a"), entry("\u{7}"), entry("b")]);
    assert_eq!(listing.path, "/p");
    let names: Vec<&str> = listing.entries.iter().map(|e| e.name.as_str()).collect();
    assert_eq!(names, vec!["a", "b"]);
    let mut queue = FileSessionQueue::new();
    assert_eq!(queue.submit("root", true), None);
    assert_eq!(queue.submit("read", false), None);
    assert_eq!(queue.login_accepted(), vec!["read"]);
    assert_eq!(queue.submit("now", false), Some("now"));
    assert_eq!(file_command_action(1, 2, FileCommandKind::Message), FileCommandAction::Stop);
    assert_eq!(file_command_action(1, 2, FileCommandKind::CancelTransfer), FileCommandAction::Ignore);
    assert_eq!(file_command_action(1, 1, FileCommandKind::StartDownload { jobs: 0 }), FileCommandAction::Stop);
}

#[test]
fn online_queries_sort_ids_and_read_bitmaps() {
    let peers = vec![" ".to_string(), "b".to_string(), "a".to_string(), "b".to_string()];
    assert_eq!(normalize_peer_list(peers), Ok(vec!["a".to_string(), "b".to_string()]));
    assert_eq!(normalize_peer_list(vec!["  ".to_string()]), Err(-3));
    let many: Vec<String> = (0..513).map(|i| format!("p{i}")).collect();
    assert_eq!(normalize_peer_list(many), Err(-3));
    let ids: Vec<String> = (0..9).map(|i| format!("{i}")).collect();
    assert!(decode_online_states(ids.clone(), &[0xff]).is_none());
    let states = decode_online_states(ids, &[0b1000_0001, 0b1000_0000]).unwrap();
    let online: Vec<bool> = states.iter().map(|s| s.online).collect();
    assert_eq!(online, vec![true, false, false, false, false, false, false, true, true]);
    assert_eq!(device_id(100, 205, 999), "100-205-999");
    let r = rand_simple();
    assert!((100..1000).contains(&r));
    assert!(now_ms() > 1_600_000_000_000);
    assert_ne!(new_protocol_session_id(), 0);
    assert_eq!(protocol_session_id_from(0), 1);
    assert_eq!(protocol_session_id_from((5u128 << 64) | 3), 6);
}

#[test]
fn receive_loop_labels_and_command_decisions() {
    assert_eq!(message_label(PeerMessageKind::Misc(MiscKind::SwitchDisplay)), "misc_switch_display");
    let mut stats = ReceiveStats::new();
    stats.count(PeerMessageKind::VideoFrame);
    stats.count(PeerMessageKind::Misc(MiscKind::Other));
    assert_eq!((stats.received, stats.video, stats.misc), (2, 1, 1));
    assert_eq!(login_error_outcome("2FA Required"), LoginOutcome::TwoFactorRequired);
    assert_eq!(login_error_outcome("Wrong 2FA Code"), LoginOutcome::WrongTwoFactor);
    assert_eq!(login_error_outcome("Wrong Password"), LoginOutcome::Refused);
    assert_eq!(close_reason_for_log("\u{7}"), "empty");
    assert_eq!(close_reason_for_log("bye"), "bye");
    assert_eq!(peer_command_action(2, 1, CommandKind::Close), CommandAction::SkipStale);
    assert_eq!(peer_command_action(2, 2, CommandKind::StartDownload), CommandAction::RejectDownload);
}

#[test]
fn pointer_and_text_events() {
    let e = mouse_event(10, 20, 1, 1, 100, 200);
    assert_eq!((e.mask, e.x, e.y), (9, 110, 220));
    assert_eq!(e.modifiers, vec![ControlKey::Control]);
    let w = wheel_event(-1, 2, 0);
    assert_eq!((w.mask, w.x, w.y), (3, -1, 2));
    assert!(text_event("").is_none());
    let t = text_event("hi").unwrap();
    assert_eq!(t.payload, Some(KeyPayload::Text("hi".to_string())));
}
