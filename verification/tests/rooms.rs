use stax_backend::api::rooms::{
    check_room_request, client_name_or, connect_room_socket, create_room, list_rooms,
    sanitize_client_name, store_room_refusal, truncate_chars, MAX_DISPLAY_NAME_CHARS,
};
use stax_backend::clock::AuthoritativePlaybackClock;
use stax_backend::origin::{origin_allowed, parse_frontend_origin};
use stax_backend::persistence::PersistenceError;
use stax_backend::protocol::{
    ClientSocketMessage, CreateRoomRequest, DriftCorrectionAction, PlaybackAction, PlaybackStatus,
    ReportedPosition, ServerEvent,
};
use stax_backend::rooms::socket::{
    close_connection, handle_room_socket, open_connection, participants_event, SocketInput,
    SocketStep,
};
use stax_backend::rooms::{
    apply_select_media, apply_socket_message, back_date_for_client_latency,
    normalize_command_position, normalize_reported_position, CommandEffect, MediaLookup, RoomHub,
    RoomRecord, SocketDispatch, MAX_CLIENT_ONE_WAY_MS,
};
use stax_backend::timestamp::{format_timestamp, Timestamp};

const MILLI: i128 = 1_000_000;
const SECOND: i128 = 1_000_000_000;

fn epoch() -> Timestamp {
    Timestamp::utc(0)
}

fn at_millis(millis: i128) -> Timestamp {
    Timestamp::utc(millis * MILLI)
}

fn room_named(name: &str) -> RoomRecord {
    RoomRecord::new(name.to_string(), None, None, epoch())
}

fn finite(millis: i128) -> ReportedPosition {
    ReportedPosition::Finite(millis * MILLI)
}

#[test]
fn sanitize_blank_client_name_creates_fallback() {
    let client_name = sanitize_client_name(Some("   "));

    assert!(client_name.starts_with("viewer-"));
    assert_eq!(client_name.len(), "viewer-".len() + 8);
}

#[test]
fn sanitize_client_name_truncates_oversized_names() {
    let oversized = "a".repeat(MAX_DISPLAY_NAME_CHARS + 1);
    let client_name = sanitize_client_name(Some(oversized.as_str()));

    assert_eq!(client_name.len(), MAX_DISPLAY_NAME_CHARS);
}

#[test]
fn fallback_names_differ_between_clients() {
    assert_ne!(sanitize_client_name(None), sanitize_client_name(None));
}

#[test]
fn fallback_name_begins_the_identifier() {
    let id: u128 = 0x0123_4567_89ab_4def_8123_456789abcdef;
    assert_eq!(client_name_or(None, id), "viewer-01234567");
    assert_eq!(client_name_or(Some("  Ann "), id), "Ann");
}

#[test]
fn truncation_counts_characters() {
    assert_eq!(truncate_chars("äöüß", 2), "äö");
    assert_eq!(truncate_chars("ab", 2), "ab");
}

#[test]
fn parse_frontend_origin_rejects_invalid_header_values() {
    let error =
        parse_frontend_origin(Some("https://frontend.example\r\nx-test: nope")).unwrap_err();

    match error {
        PersistenceError::InvalidData(message) => {
            assert!(message.contains("frontend origin must be a valid HTTP header value"));
            assert_eq!(
                message,
                "frontend origin must be a valid HTTP header value: failed to parse header value"
            );
        }
        other => panic!("expected invalid data error, got {other:?}"),
    }
}

#[test]
fn frontend_origin_is_kept_as_bytes() {
    assert_eq!(
        parse_frontend_origin(Some("https://ui.example")).unwrap(),
        Some(b"https://ui.example".to_vec())
    );
    assert_eq!(parse_frontend_origin(None).unwrap(), None);
}

#[test]
fn rejects_cross_origin_http_requests_by_default() {
    assert!(!origin_allowed(Some(b"https://evil.example"), Some(b"stax.local:3001"), None));
}

#[test]
fn accepts_same_host_origin_by_default() {
    assert!(origin_allowed(Some(b"http://stax.local:3001"), Some(b"stax.local:3001"), None));
    assert!(origin_allowed(Some(b"https://stax.local:3001"), Some(b"stax.local:3001"), None));
    assert!(origin_allowed(None, Some(b"stax.local:3001"), None));
}

#[test]
fn configured_origin_is_the_only_one() {
    let configured: &[u8] = b"https://ui.example";
    assert!(origin_allowed(Some(b"https://ui.example"), Some(b"stax.local"), Some(configured)));
    assert!(!origin_allowed(Some(b"http://stax.local"), Some(b"stax.local"), Some(configured)));
}

#[test]
fn origins_that_are_no_text_are_refused() {
    assert!(!origin_allowed(Some(&[0xff, 0xfe]), Some(b"stax.local"), None));
    assert!(!origin_allowed(Some(b"http://stax.local"), None, None));
    assert!(!origin_allowed(Some(b"http://stax.local"), Some(&[0xff]), None));
}

#[test]
fn normalize_reported_position_preserves_precision() {
    assert_eq!(
        normalize_reported_position(ReportedPosition::Finite(1_234_560_000)).unwrap(),
        1_235 * MILLI
    );
}

#[test]
fn back_date_for_client_latency_passes_through_none_and_zero() {
    let now = epoch();

    assert_eq!(back_date_for_client_latency(now, None), now);
    assert_eq!(back_date_for_client_latency(now, Some(0)), now);
}

#[test]
fn back_date_for_client_latency_shifts_by_reported_amount() {
    let now = epoch();
    let shifted = back_date_for_client_latency(now, Some(250));

    assert_eq!(now.unix_nanos() - shifted.unix_nanos(), 250 * MILLI);
}

#[test]
fn back_date_for_client_latency_clamps_values_above_ceiling() {
    let now = epoch();
    let shifted = back_date_for_client_latency(now, Some(10_000));

    assert_eq!(
        now.unix_nanos() - shifted.unix_nanos(),
        MAX_CLIENT_ONE_WAY_MS as i128 * MILLI
    );
}

#[test]
fn normalize_command_position_rejects_negative_values() {
    assert_eq!(
        normalize_command_position(finite(-1_000)).unwrap_err(),
        "Playback position cannot be negative."
    );
}

#[test]
fn positions_must_be_numbers() {
    assert_eq!(
        normalize_reported_position(ReportedPosition::NotFinite).unwrap_err(),
        "Playback position must be a valid number."
    );
    assert_eq!(normalize_command_position(finite(1_250)).unwrap(), 1_300 * MILLI);
    let far = 10_i128.pow(30);
    assert_eq!(normalize_command_position(ReportedPosition::Finite(far)).unwrap(), far);
    let farther = 17 * 10_i128.pow(37);
    assert_eq!(normalize_command_position(ReportedPosition::Finite(farther)).unwrap(), farther);
    assert_eq!(normalize_reported_position(ReportedPosition::Finite(farther)).unwrap(), farther);
}

#[test]
fn room_snapshot_contains_anchor_and_clock_metadata() {
    let now = epoch();
    let room = RoomRecord {
        id: 77,
        name: "Snapshot Room".into(),
        media_id: None,
        media_title: None,
        created_at: format_timestamp(now),
        clock: AuthoritativePlaybackClock::new_paused(now),
    };

    let snapshot = room.snapshot(now);

    assert_eq!(snapshot.playback_state.position_nanos, 0);
    assert_eq!(snapshot.playback_state.anchor_position_nanos, 0);
    assert_eq!(snapshot.playback_state.clock_updated_at, snapshot.created_at);
}

#[test]
fn new_rooms_get_identifiers_of_their_own() {
    let first = room_named("Test Room");
    let second = room_named("Test Room");
    assert_ne!(first.id, second.id);
    assert_eq!((first.id >> 76) & 0xf, 4);
    assert_eq!(first.created_at, "1970-01-01T00:00:00Z");
}

#[test]
fn report_position_returns_direct_correction_event() {
    let room = room_named("Test Room");
    let effect = apply_socket_message(
        &room,
        ClientSocketMessage::ReportPosition { position: finite(2_200) },
        "operator",
        epoch(),
    )
    .unwrap();

    match effect {
        CommandEffect::Drift {
            drift_nanos,
            event: ServerEvent::DriftCorrection { actor, suggested_action, measured_at, .. },
        } => {
            assert_eq!(actor, "operator");
            assert_eq!(suggested_action, DriftCorrectionAction::Seek);
            assert_eq!(drift_nanos, 2_200 * MILLI);
            assert_eq!(measured_at, "1970-01-01T00:00:00Z");
        }
        _ => panic!("expected direct drift correction event"),
    }
}

#[test]
fn pause_without_position_uses_elapsed_playback_time() {
    let room = room_named("Clock Room");
    let play = ClientSocketMessage::Play { position: Some(finite(5_000)), client_one_way_ms: None };
    let playing = match apply_socket_message(&room, play, "operator", epoch()).unwrap() {
        CommandEffect::Update { room, .. } => room,
        _ => panic!("expected an update"),
    };

    let pause = ClientSocketMessage::Pause { position: None, client_one_way_ms: None };
    match apply_socket_message(&playing, pause, "operator", at_millis(250)).unwrap() {
        CommandEffect::Update {
            event: ServerEvent::PlaybackUpdated { room, action, .. }, ..
        } => {
            assert_eq!(action, PlaybackAction::Pause);
            assert_eq!(room.playback_state.status, PlaybackStatus::Paused);
            assert!(room.playback_state.position_nanos >= 5_200 * MILLI);
        }
        _ => panic!("expected playback update"),
    }
}

#[test]
fn commands_with_bad_positions_are_refused() {
    let room = room_named("Strict Room");
    let seek = ClientSocketMessage::Seek { position: finite(-5), client_one_way_ms: None };
    assert_eq!(
        apply_socket_message(&room, seek, "operator", epoch()).unwrap_err(),
        "Playback position cannot be negative."
    );
    let play = ClientSocketMessage::Play {
        position: Some(ReportedPosition::NotFinite),
        client_one_way_ms: None,
    };
    assert_eq!(
        apply_socket_message(&room, play, "operator", epoch()).unwrap_err(),
        "Playback position must be a valid number."
    );
}

#[test]
fn play_is_back_dated_by_the_client_latency() {
    let room = room_named("Latency Room");
    let play = ClientSocketMessage::Play {
        position: Some(finite(10_000)),
        client_one_way_ms: Some(500),
    };
    match apply_socket_message(&room, play, "operator", at_millis(1_000)).unwrap() {
        CommandEffect::Update { room, .. } => {
            assert_eq!(room.clock.checkpoint().updated_at, at_millis(500));
            assert_eq!(room.clock.checkpoint().anchor_position_nanos, 10 * SECOND);
        }
        _ => panic!("expected an update"),
    }
}

#[test]
fn ping_is_answered_with_the_time_it_brought() {
    let room = room_named("Ping Room");
    let bits = 1234.5f64.to_bits();
    match apply_socket_message(
        &room,
        ClientSocketMessage::Ping { client_sent_at_bits: bits },
        "operator",
        epoch(),
    )
    .unwrap()
    {
        CommandEffect::Reply { event: ServerEvent::Pong { client_sent_at_bits } } => {
            assert_eq!(client_sent_at_bits, bits)
        }
        _ => panic!("expected a pong"),
    }
}

#[test]
fn selecting_media_restarts_the_clock() {
    let room = room_named("Media Room");
    match apply_socket_message(
        &room,
        ClientSocketMessage::SelectMedia { media_id: 9 },
        "operator",
        epoch(),
    )
    .unwrap()
    {
        CommandEffect::SelectMedia { media_id } => assert_eq!(media_id, 9),
        _ => panic!("expected a selection"),
    }
    let found = MediaLookup::Found { media_id: 9, file_name: "movie.mkv".into() };
    match apply_select_media(&room, found, "operator", at_millis(10)).unwrap() {
        CommandEffect::Update { room, event: ServerEvent::MediaChanged { actor, .. } } => {
            assert_eq!(actor, "operator");
            assert_eq!(room.media_id, Some(9));
            assert_eq!(room.media_title.as_deref(), Some("movie.mkv"));
            assert_eq!(room.clock.checkpoint().updated_at, at_millis(10));
            assert_eq!(room.clock.checkpoint().status, PlaybackStatus::Paused);
        }
        _ => panic!("expected a media change"),
    }
    assert_eq!(
        apply_select_media(&room, MediaLookup::Missing, "operator", epoch()).unwrap_err(),
        "Selected media is not in the library."
    );
    assert_eq!(
        apply_select_media(&room, MediaLookup::Failed, "operator", epoch()).unwrap_err(),
        "Failed to load the selected media."
    );
}

#[test]
fn rooms_change_only_once_they_are_stored() {
    let mut hub = RoomHub::new(room_named("Before"));
    let event = participants_event(&hub);
    assert_eq!(
        hub.commit(room_named("After"), event, false).unwrap_err(),
        "Failed to persist room state."
    );
    assert_eq!(hub.room.name, "Before");

    let event = participants_event(&hub);
    assert!(matches!(
        hub.commit(room_named("After"), event, true),
        Ok(SocketDispatch::Broadcast(ServerEvent::ParticipantsUpdated { .. }))
    ));
    assert_eq!(hub.room.name, "After");
}

#[test]
fn participants_are_listed_by_name_and_identifier() {
    let mut hub = RoomHub::new(room_named("Party"));
    hub.add_participant(3, "bea".into());
    hub.add_participant(2, "ann".into());
    hub.add_participant(1, "bea".into());
    hub.update_participant_drift(2, 17);

    let list = hub.participant_list();
    let ids: Vec<u128> = list.iter().map(|participant| participant.id).collect();
    assert_eq!(ids, vec![2, 1, 3]);
    assert_eq!(list[0].drift_nanos, Some(17));

    hub.remove_participant(1);
    assert_eq!(hub.participant_list().len(), 2);
}

#[test]
fn closing_undoes_opening() {
    let mut hub = RoomHub::restored(room_named("Door"));
    assert!(hub.cleanup_scheduled);

    let opening = open_connection(&mut hub, 5, "ann", epoch());
    assert_eq!(hub.connection_count, 1);
    assert!(!hub.cleanup_scheduled);
    assert!(!hub.should_remove());
    match opening.snapshot {
        ServerEvent::Snapshot { connection_count, participants, .. } => {
            assert_eq!(connection_count, 1);
            assert_eq!(participants.len(), 1);
        }
        _ => panic!("expected a snapshot"),
    }
    assert!(matches!(
        opening.presence,
        ServerEvent::PresenceChanged { connection_count: 1, joined: true, .. }
    ));

    let closing = close_connection(&mut hub, 5, "ann");
    assert_eq!(hub.connection_count, 0);
    assert!(hub.cleanup_scheduled);
    assert!(hub.should_remove());
    assert!(hub.participants.is_empty());
    assert!(matches!(
        closing.presence,
        ServerEvent::PresenceChanged { connection_count: 0, joined: false, .. }
    ));
}

#[test]
fn unreadable_messages_are_answered() {
    let hub = RoomHub::new(room_named("Babel"));
    match handle_room_socket(SocketInput::Unreadable, &hub, epoch()) {
        SocketStep::Send { event: ServerEvent::Error { message } } => {
            assert_eq!(message, "Could not parse the playback command.")
        }
        _ => panic!("expected an error"),
    }
}

#[test]
fn lagging_sockets_get_a_fresh_snapshot() {
    let hub = RoomHub::new(room_named("Slow"));
    match handle_room_socket(SocketInput::Lagged { skipped: 12 }, &hub, epoch()) {
        SocketStep::SendBoth {
            first: ServerEvent::Error { message },
            second: ServerEvent::Snapshot { .. },
        } => assert_eq!(message, "Missed 12 room updates. Sending a fresh snapshot."),
        _ => panic!("expected an error and a snapshot"),
    }
}

#[test]
fn sockets_stop_when_either_side_ends() {
    let hub = RoomHub::new(room_named("End"));
    assert!(matches!(
        handle_room_socket(SocketInput::TransportClose, &hub, epoch()),
        SocketStep::Stop
    ));
    assert!(matches!(
        handle_room_socket(SocketInput::TransportEnded, &hub, epoch()),
        SocketStep::Stop
    ));
    assert!(matches!(
        handle_room_socket(SocketInput::TransportFailed, &hub, epoch()),
        SocketStep::Stop
    ));
    assert!(matches!(handle_room_socket(SocketInput::RoomClosed, &hub, epoch()), SocketStep::Stop));
    assert!(matches!(
        handle_room_socket(SocketInput::TransportOther, &hub, epoch()),
        SocketStep::Wait
    ));
    assert!(matches!(
        handle_room_socket(SocketInput::TransportPing, &hub, epoch()),
        SocketStep::AnswerPing
    ));
}

#[test]
fn command_outcomes_are_dispatched() {
    let hub = RoomHub::new(room_named("Dispatch"));
    let event = participants_event(&hub);
    assert!(matches!(
        handle_room_socket(
            SocketInput::Command { outcome: Ok(SocketDispatch::Broadcast(event)) },
            &hub,
            epoch()
        ),
        SocketStep::Broadcast { .. }
    ));
    match handle_room_socket(
        SocketInput::Command { outcome: Err("Failed to persist room state.") },
        &hub,
        epoch(),
    ) {
        SocketStep::Send { event: ServerEvent::Error { message } } => {
            assert_eq!(message, "Failed to persist room state.")
        }
        _ => panic!("expected an error"),
    }
}

fn request(name: &str, title: Option<&str>) -> CreateRoomRequest {
    CreateRoomRequest {
        name: name.to_string(),
        media_id: None,
        media_title: title.map(|text| text.to_string()),
    }
}

#[test]
fn create_room_rejects_empty_name() {
    let error = check_room_request(request("   ", None)).unwrap_err();
    assert_eq!(error.status, 400);
    assert_eq!(error.message, "Room name is required");
}

#[test]
fn create_room_rejects_oversized_name() {
    let oversized = "a".repeat(MAX_DISPLAY_NAME_CHARS + 1);
    let error = check_room_request(request(&oversized, None)).unwrap_err();
    assert_eq!(error.status, 400);
    assert_eq!(error.message, "Room name is too long.");
}

#[test]
fn create_room_rejects_oversized_media_title() {
    let oversized = "a".repeat(MAX_DISPLAY_NAME_CHARS + 1);
    let error = check_room_request(request("Movie Lab", Some(&oversized))).unwrap_err();
    assert_eq!(error.status, 400);
    assert_eq!(error.message, "Media title is too long.");
}

#[test]
fn create_room_is_reflected_in_room_listing() {
    let plan = check_room_request(request("Movie Lab", Some("Solaris"))).unwrap();
    let room = create_room(plan, MediaLookup::Missing, epoch()).unwrap();
    assert_eq!(room.media_title.as_deref(), Some("Solaris"));

    let rooms = list_rooms(vec![room.snapshot(epoch())]);
    assert_eq!(rooms.len(), 1);
    assert!(rooms.iter().any(|room| room.name == "Movie Lab"));
}

#[test]
fn rooms_are_listed_by_name() {
    let rooms = list_rooms(vec![
        room_named("b").snapshot(epoch()),
        room_named("c").snapshot(epoch()),
        room_named("a").snapshot(epoch()),
    ]);
    let names: Vec<&str> = rooms.iter().map(|room| room.name.as_str()).collect();
    assert_eq!(names, vec!["a", "b", "c"]);
}

#[test]
fn rooms_take_the_title_of_their_media() {
    let mut with_media = request("Movie Lab", None);
    with_media.media_id = Some(4);
    let plan = check_room_request(with_media).unwrap();
    let found = MediaLookup::Found { media_id: 4, file_name: "solaris.mkv".into() };
    let room = create_room(plan, found, epoch()).unwrap();
    assert_eq!(room.media_id, Some(4));
    assert_eq!(room.media_title.as_deref(), Some("solaris.mkv"));

    let mut missing = request("Movie Lab", None);
    missing.media_id = Some(4);
    let plan = check_room_request(missing).unwrap();
    let error = create_room(plan, MediaLookup::Missing, epoch()).unwrap_err();
    assert_eq!((error.status, error.message), (400, "Media is not in the library index."));

    let mut failed = request("Movie Lab", None);
    failed.media_id = Some(4);
    let plan = check_room_request(failed).unwrap();
    let error = create_room(plan, MediaLookup::Failed, epoch()).unwrap_err();
    assert_eq!((error.status, error.message), (500, "Failed to resolve media for room."));
}

#[test]
fn sockets_need_an_allowed_origin_and_a_room() {
    let error = connect_room_socket(false, true).unwrap_err();
    assert_eq!((error.status, error.message), (403, "WebSocket origin is not allowed."));
    let error = connect_room_socket(true, false).unwrap_err();
    assert_eq!((error.status, error.message), (404, "Room not found"));
    assert!(connect_room_socket(true, true).is_ok());
    assert_eq!(store_room_refusal().message, "Failed to persist room.");
}

#[test]
fn commands_change_the_clock_alone() {
    let room = room_named("Steady");
    let seek = ClientSocketMessage::Seek { position: finite(4_000), client_one_way_ms: None };
    match apply_socket_message(&room, seek, "operator", at_millis(10)).unwrap() {
        CommandEffect::Update { room: updated, .. } => {
            assert_eq!(updated.id, room.id);
            assert_eq!(updated.name, room.name);
            assert_eq!(updated.media_id, room.media_id);
            assert_eq!(updated.created_at, room.created_at);
            assert_eq!(updated.clock.checkpoint().anchor_position_nanos, 4 * SECOND);
        }
        _ => panic!("expected an update"),
    }
}
