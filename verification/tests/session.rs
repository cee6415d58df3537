//! The session core: lifecycle, dispatch, probes and intents.

use ironvein_client::ClientError;
use ironvein_client::ConnectionState;
use ironvein_client::Effect;
use ironvein_client::IronVeinClient;

fn open_client() -> IronVeinClient {
    let mut c = IronVeinClient::new();
    c.set_user_info("alice", "r1");
    c.connect().unwrap();
    let effs = c.on_open();
    assert_eq!(effs.len(), 1);
    c
}

#[test]
fn connect_requires_an_idle_session_with_identity() {
    let mut c = IronVeinClient::new();
    assert_eq!(c.connect().unwrap_err(), ClientError::InvalidState);
    c.set_user_info("alice", "r1");
    assert!(c.connect().is_ok());
    assert_eq!(c.connection_state(), ConnectionState::Connecting);
    // a second connect while already connecting is refused
    assert_eq!(c.connect().unwrap_err(), ClientError::InvalidState);
    let _ = c.on_open();
    assert_eq!(c.connect().unwrap_err(), ClientError::InvalidState);
}

#[test]
fn auto_join_sends_the_exact_join_frame_on_open() {
    let mut c = IronVeinClient::new();
    c.set_user_info("alice", "r1");
    c.connect().unwrap();
    let effs = c.on_open();
    assert_eq!(
        effs,
        vec![Effect::Send(
            "{\"type\":\"join\",\"username\":\"alice\",\"room\":\"r1\"}".to_string()
        )]
    );
    assert_eq!(c.connection_state(), ConnectionState::Open);
    assert!(c.is_websocket_connected());
}

#[test]
fn lobby_mode_opens_without_joining() {
    let mut c = IronVeinClient::new();
    c.set_user_info("alice", "r1");
    c.connect_to_server().unwrap();
    let effs = c.on_open();
    assert_eq!(effs, vec![]);
    assert!(c.is_websocket_connected());
    // the deferred join intent works while open
    let frame = c.join_battle().unwrap();
    assert_eq!(frame, "{\"type\":\"join\",\"username\":\"alice\",\"room\":\"r1\"}");
}

#[test]
fn join_battle_needs_an_open_channel() {
    let c = IronVeinClient::new();
    assert_eq!(c.join_battle().unwrap_err(), ClientError::NotConnected);
}

#[test]
fn lobby_mode_ignores_game_events_but_not_chat() {
    let mut c = IronVeinClient::new();
    c.set_user_info("alice", "r1");
    c.connect_to_server().unwrap();
    let _ = c.on_open();
    let effs = c
        .on_frame("{\"type\":\"player_joined\",\"username\":\"bob\",\"x\":5,\"y\":6}", 0)
        .unwrap();
    assert_eq!(effs, vec![]);
    assert_eq!(c.player_count(), 0);
    let effs = c
        .on_frame(
            "{\"type\":\"chat_message\",\"id\":1,\"username\":\"bob\",\"message\":\"hi\",\"timestamp\":\"2023-05-01T10:02:03.456Z\",\"room\":\"r1\"}",
            0,
        )
        .unwrap();
    assert_eq!(effs, vec![Effect::ChatLine("[10:02:03.45] bob: hi".to_string())]);
}

#[test]
fn scenario_connect_join_game_state_marks_self() {
    // connect, open, auto-join, then an authoritative snapshot of 2 players
    let mut c = open_client();
    let effs = c
        .on_frame(
            "{\"type\":\"game_state\",\"players\":[{\"username\":\"alice\",\"x\":1,\"y\":2,\"room\":\"r1\",\"health\":90,\"resources\":5},{\"username\":\"bob\",\"x\":3,\"y\":4,\"room\":\"r1\",\"health\":100,\"resources\":0}]}",
            0,
        )
        .unwrap();
    assert_eq!(effs, vec![]);
    assert_eq!(c.player_count(), 2);
    let me = c.my_player().unwrap();
    assert_eq!(me.username, "alice");
    assert_eq!((me.x, me.y, me.health, me.resources), (1, 2, 90, 5));
    let snapshot = c.players_snapshot();
    assert_eq!(snapshot.len(), 2);
    assert!(snapshot.iter().any(|p| p.username == "bob" && p.x == 3 && p.y == 4));
}

#[test]
fn optimistic_move_applies_before_any_round_trip_and_update_overwrites() {
    let mut c = open_client();
    let frame = c.send_move_command(7, 9).unwrap();
    assert_eq!(
        frame,
        "{\"type\":\"move\",\"username\":\"alice\",\"x\":7,\"y\":9,\"room\":\"r1\"}"
    );
    // the local player stands at (7, 9) at once, with default stats
    let me = c.my_player().unwrap();
    assert_eq!((me.x, me.y, me.health, me.resources), (7, 9, 100, 0));
    // a later authoritative update for the same username overwrites it
    let _ = c
        .on_frame(
            "{\"type\":\"player_update\",\"username\":\"alice\",\"x\":8,\"y\":10,\"health\":50,\"resources\":2}",
            0,
        )
        .unwrap();
    let me = c.my_player().unwrap();
    assert_eq!((me.x, me.y, me.health, me.resources), (8, 10, 50, 2));
    // and a fresh optimistic move keeps the authoritative stats
    let _ = c.send_move_command(0, 0).unwrap();
    let me = c.my_player().unwrap();
    assert_eq!((me.x, me.y, me.health, me.resources), (0, 0, 50, 2));
}

#[test]
fn move_outside_open_is_refused() {
    let mut c = IronVeinClient::new();
    c.set_user_info("alice", "r1");
    assert_eq!(c.send_move_command(1, 1).unwrap_err(), ClientError::NotConnected);
}

#[test]
fn probe_echo_goes_to_latency_never_to_chat() {
    let mut c = open_client();
    let frame = c.send_ping_at(1000).unwrap();
    assert_eq!(
        frame,
        "{\"type\":\"message\",\"username\":\"alice\",\"message\":\"p\",\"room\":\"r1\"}"
    );
    // no second probe while one is outstanding
    assert!(c.send_ping_at(1100).is_none());
    // the echo resolves the measurement; nothing reaches the chat panel
    let effs = c
        .on_frame(
            "{\"type\":\"chat_message\",\"id\":1,\"username\":\"alice\",\"message\":\"p\",\"timestamp\":1,\"room\":\"r1\"}",
            1300,
        )
        .unwrap();
    assert_eq!(effs, vec![Effect::Latency(300)]);
    // the monitor is free again
    assert!(c.send_ping_at(2000).is_some());
}

#[test]
fn anothers_probe_text_is_ordinary_chat() {
    let mut c = open_client();
    let effs = c
        .on_frame(
            "{\"type\":\"chat_message\",\"id\":1,\"username\":\"bob\",\"message\":\"p\",\"timestamp\":\"2023-05-01T10:02:03.456Z\",\"room\":\"r1\"}",
            0,
        )
        .unwrap();
    assert_eq!(effs, vec![Effect::ChatLine("[10:02:03.45] bob: p".to_string())]);
}

#[test]
fn unsolicited_probe_echo_is_swallowed() {
    let mut c = open_client();
    let effs = c
        .on_frame(
            "{\"type\":\"chat_message\",\"id\":1,\"username\":\"alice\",\"message\":\"__ping__\",\"timestamp\":1,\"room\":\"r1\"}",
            500,
        )
        .unwrap();
    assert_eq!(effs, vec![]);
}

#[test]
fn ping_outside_open_is_silent() {
    let mut c = IronVeinClient::new();
    c.set_user_info("alice", "r1");
    assert!(c.send_ping_at(1).is_none());
    assert!(c.send_ping().is_none());
}

#[test]
fn server_error_is_surfaced_and_not_fatal() {
    let mut c = open_client();
    let effs = c.on_frame("{\"type\":\"error\",\"message\":\"room full\"}", 0).unwrap();
    assert_eq!(effs, vec![Effect::ChatLine("Error: room full".to_string())]);
    assert!(c.is_websocket_connected());
}

#[test]
fn malformed_frames_are_dropped_without_corrupting_state() {
    let mut c = open_client();
    let _ = c
        .on_frame("{\"type\":\"player_joined\",\"username\":\"bob\",\"x\":5,\"y\":6}", 0)
        .unwrap();
    assert_eq!(c.player_count(), 1);
    let e = c.on_frame("{\"type\":\"player_joined\",\"username\":\"bob\"", 0).unwrap_err();
    assert_eq!(e, ClientError::ProtocolError);
    let e = c.on_frame("garbage", 0).unwrap_err();
    assert_eq!(e, ClientError::ProtocolError);
    assert_eq!(c.player_count(), 1);
    assert!(c.is_websocket_connected());
}

#[test]
fn outbound_direction_frames_are_ignored_inbound() {
    let mut c = open_client();
    let effs = c
        .on_frame("{\"type\":\"join\",\"username\":\"bob\",\"room\":\"r1\"}", 0)
        .unwrap();
    assert_eq!(effs, vec![]);
    let effs = c
        .on_frame(
            "{\"type\":\"message\",\"username\":\"bob\",\"message\":\"hi\",\"room\":\"r1\"}",
            0,
        )
        .unwrap();
    assert_eq!(effs, vec![]);
    assert_eq!(c.player_count(), 0);
}

#[test]
fn transport_error_moves_to_errored_without_retry() {
    let mut c = open_client();
    let effs = c.on_error();
    assert_eq!(
        effs,
        vec![Effect::ChatLine("Connection error - please refresh to reconnect".to_string())]
    );
    assert_eq!(c.connection_state(), ConnectionState::Errored);
    // no user intent goes through any more
    assert_eq!(c.send_move_command(1, 1).unwrap_err(), ClientError::NotConnected);
}

#[test]
fn transport_close_records_code_and_reason() {
    let mut c = open_client();
    let effs = c.on_close(1006, "abnormal");
    assert_eq!(
        effs,
        vec![Effect::ChatLine("Connection lost. Please refresh to reconnect.".to_string())]
    );
    assert_eq!(c.connection_state(), ConnectionState::Closed);
    assert_eq!(c.close_code(), Some(1006));
}

#[test]
fn disconnect_twice_is_safe_and_releases_the_channel_once() {
    let mut c = open_client();
    let effs = c.disconnect();
    assert_eq!(effs, vec![Effect::CloseTransport]);
    assert_eq!(c.connection_state(), ConnectionState::Closed);
    let effs = c.disconnect();
    assert_eq!(effs, vec![]);
    assert_eq!(c.connection_state(), ConnectionState::Closed);
    // from a fresh (idle) session it is equally safe, with nothing to release
    let mut idle = IronVeinClient::new();
    assert_eq!(idle.disconnect(), vec![]);
    assert_eq!(idle.connection_state(), ConnectionState::Closed);
}

#[test]
fn update_player_and_update_all_players_keep_the_table() {
    let mut c = IronVeinClient::new();
    c.set_user_info("alice", "r1");
    c.update_player("bob", 1, 2, 70, 9);
    assert_eq!(c.player_count(), 1);
    c.update_all_players(
        "[{\"username\":\"carol\",\"x\":0,\"y\":0,\"room\":\"r1\",\"health\":1,\"resources\":1}]",
    );
    assert_eq!(c.player_count(), 1);
    let snapshot = c.players_snapshot();
    assert_eq!(snapshot[0].username, "carol");
    // text that is no player array leaves the table untouched
    c.update_all_players("{\"not\":\"an array\"}");
    assert_eq!(c.players_snapshot()[0].username, "carol");
    c.update_all_players("[{\"username\":\"x\"}]");
    assert_eq!(c.players_snapshot()[0].username, "carol");
}

#[test]
fn usernames_stay_unique_under_any_event_order() {
    let mut c = open_client();
    let frames = [
        "{\"type\":\"player_joined\",\"username\":\"bob\",\"x\":1,\"y\":1}",
        "{\"type\":\"player_joined\",\"username\":\"bob\",\"x\":2,\"y\":2}",
        "{\"type\":\"player_update\",\"username\":\"bob\",\"x\":3,\"y\":3,\"health\":9,\"resources\":9}",
        "{\"type\":\"player_joined\",\"username\":\"carol\",\"x\":4,\"y\":4}",
        "{\"type\":\"player_left\",\"username\":\"bob\"}",
        "{\"type\":\"player_joined\",\"username\":\"bob\",\"x\":5,\"y\":5}",
    ];
    for f in frames {
        let _ = c.on_frame(f, 0).unwrap();
    }
    let snapshot = c.players_snapshot();
    assert_eq!(snapshot.len(), 2);
    for i in 0..snapshot.len() {
        for j in i + 1..snapshot.len() {
            assert_ne!(snapshot[i].username, snapshot[j].username);
        }
    }
    let bob = snapshot.iter().find(|p| p.username == "bob").unwrap();
    // re-created after leaving: a fresh record, defaults included
    assert_eq!((bob.x, bob.y, bob.health, bob.resources), (5, 5, 100, 0));
}

#[test]
fn game_state_replays_identically() {
    let frame = "{\"type\":\"game_state\",\"players\":[{\"username\":\"a\",\"x\":1,\"y\":1,\"room\":\"r\",\"health\":1,\"resources\":1},{\"username\":\"b\",\"x\":2,\"y\":2,\"room\":\"r\",\"health\":2,\"resources\":2}]}";
    let mut c = open_client();
    let _ = c.on_frame("{\"type\":\"player_joined\",\"username\":\"zed\",\"x\":9,\"y\":9}", 0);
    let _ = c.on_frame(frame, 0).unwrap();
    let mut first: Vec<_> = c
        .players_snapshot()
        .into_iter()
        .map(|p| (p.username, p.x, p.y, p.room, p.health, p.resources))
        .collect();
    first.sort();
    let _ = c.on_frame(frame, 0).unwrap();
    let mut second: Vec<_> = c
        .players_snapshot()
        .into_iter()
        .map(|p| (p.username, p.x, p.y, p.room, p.health, p.resources))
        .collect();
    second.sort();
    assert_eq!(first, second);
    assert_eq!(first.len(), 2);
}
