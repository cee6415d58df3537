//! The wire codec: canonical encoding, strict decoding.

use ironvein_client::json::parse_json;
use ironvein_client::json::JsonVal;
use ironvein_client::protocol::decode_frame;
use ironvein_client::protocol::encode_chat;
use ironvein_client::protocol::encode_join;
use ironvein_client::protocol::encode_move;
use ironvein_client::ClientError;
use ironvein_client::Message;

#[test]
fn join_frame_is_canonical() {
    assert_eq!(
        encode_join("alice", "r1"),
        "{\"type\":\"join\",\"username\":\"alice\",\"room\":\"r1\"}"
    );
}

#[test]
fn move_frame_is_canonical() {
    assert_eq!(
        encode_move("alice", 3, 40, "r1"),
        "{\"type\":\"move\",\"username\":\"alice\",\"x\":3,\"y\":40,\"room\":\"r1\"}"
    );
}

#[test]
fn chat_frame_is_canonical() {
    assert_eq!(
        encode_chat("alice", "hi there", "r1"),
        "{\"type\":\"message\",\"username\":\"alice\",\"message\":\"hi there\",\"room\":\"r1\"}"
    );
}

#[test]
fn chat_frame_escapes_like_the_reference_serializer() {
    let frame = encode_chat("a\"b", "line\nbreak\tand \\ quote \"q\"", "r\u{1}");
    let v: serde_json::Value = serde_json::from_str(&frame).unwrap();
    assert_eq!(v["type"], "message");
    assert_eq!(v["username"], "a\"b");
    assert_eq!(v["message"], "line\nbreak\tand \\ quote \"q\"");
    assert_eq!(v["room"], "r\u{1}");
    // and byte for byte what serde_json itself writes for those strings
    assert_eq!(
        frame,
        format!(
            "{{\"type\":\"message\",\"username\":{},\"message\":{},\"room\":{}}}",
            serde_json::to_string("a\"b").unwrap(),
            serde_json::to_string("line\nbreak\tand \\ quote \"q\"").unwrap(),
            serde_json::to_string("r\u{1}").unwrap(),
        )
    );
}

#[test]
fn decode_player_update() {
    let m = decode_frame(
        "{\"type\":\"player_update\",\"username\":\"bob\",\"x\":5,\"y\":6,\"health\":80,\"resources\":3}",
    )
    .unwrap();
    assert_eq!(
        m,
        Message::PlayerUpdate { username: "bob".to_string(), x: 5, y: 6, health: 80, resources: 3 }
    );
}

#[test]
fn decode_accepts_whitespace_and_any_member_order() {
    let m = decode_frame(
        " { \"x\" : 5 , \"username\" : \"bob\" , \"y\" : 6 , \"type\" : \"player_joined\" } ",
    )
    .unwrap();
    assert_eq!(m, Message::PlayerJoined { username: "bob".to_string(), x: 5, y: 6 });
}

#[test]
fn decode_chat_message_keeps_string_timestamp() {
    let m = decode_frame(
        "{\"type\":\"chat_message\",\"id\":7,\"username\":\"bob\",\"message\":\"hi\",\"timestamp\":\"2023-05-01T10:02:03.456Z\",\"room\":\"r1\"}",
    )
    .unwrap();
    assert_eq!(
        m,
        Message::ChatMessage {
            username: "bob".to_string(),
            text: "hi".to_string(),
            timestamp: Some("2023-05-01T10:02:03.456Z".to_string()),
            room: "r1".to_string(),
        }
    );
}

#[test]
fn decode_chat_message_with_numeric_timestamp_keeps_none() {
    let m = decode_frame(
        "{\"type\":\"chat_message\",\"id\":null,\"username\":\"bob\",\"message\":\"hi\",\"timestamp\":12345,\"room\":\"r1\"}",
    )
    .unwrap();
    match m {
        Message::ChatMessage { timestamp, .. } => assert_eq!(timestamp, None),
        _ => panic!("wrong kind"),
    }
}

#[test]
fn decode_chat_message_requires_id_and_timestamp() {
    let e = decode_frame(
        "{\"type\":\"chat_message\",\"username\":\"bob\",\"message\":\"hi\",\"timestamp\":1,\"room\":\"r1\"}",
    )
    .unwrap_err();
    assert_eq!(e, ClientError::ProtocolError);
    let e = decode_frame(
        "{\"type\":\"chat_message\",\"id\":1,\"username\":\"bob\",\"message\":\"hi\",\"room\":\"r1\"}",
    )
    .unwrap_err();
    assert_eq!(e, ClientError::ProtocolError);
}

#[test]
fn decode_game_state() {
    let m = decode_frame(
        "{\"type\":\"game_state\",\"players\":[{\"username\":\"alice\",\"x\":1,\"y\":2,\"room\":\"r1\",\"health\":90,\"resources\":5}]}",
    )
    .unwrap();
    match m {
        Message::GameState { players } => {
            assert_eq!(players.len(), 1);
            assert_eq!(players[0].username, "alice");
            assert_eq!(players[0].x, 1);
            assert_eq!(players[0].y, 2);
            assert_eq!(players[0].room, "r1");
            assert_eq!(players[0].health, 90);
            assert_eq!(players[0].resources, 5);
        }
        _ => panic!("wrong kind"),
    }
}

#[test]
fn decode_rejects_unknown_tag_and_shapes() {
    for bad in [
        "{\"type\":\"bogus\"}",
        "{\"type\":\"player_joined\",\"username\":\"b\",\"x\":5}",
        "{\"type\":\"player_joined\",\"username\":\"b\",\"x\":\"5\",\"y\":6}",
        "{\"type\":\"player_joined\",\"username\":7,\"x\":5,\"y\":6}",
        "{\"username\":\"b\",\"x\":5,\"y\":6}",
        "[1,2,3]",
        "\"just a string\"",
        "not json at all",
        "{\"type\":\"player_joined\",\"username\":\"b\",\"x\":5,\"y\":6",
        "{\"type\":\"player_joined\",\"username\":\"b\",\"x\":5,\"y\":6} trailing",
        "",
    ] {
        assert_eq!(decode_frame(bad).unwrap_err(), ClientError::ProtocolError, "case: {bad}");
    }
}

#[test]
fn decode_rejects_coordinates_outside_the_grid() {
    let e = decode_frame("{\"type\":\"player_joined\",\"username\":\"b\",\"x\":64,\"y\":6}")
        .unwrap_err();
    assert_eq!(e, ClientError::ProtocolError);
    let e = decode_frame("{\"type\":\"player_joined\",\"username\":\"b\",\"x\":-1,\"y\":6}")
        .unwrap_err();
    assert_eq!(e, ClientError::ProtocolError);
    let e = decode_frame("{\"type\":\"player_joined\",\"username\":\"b\",\"x\":5.5,\"y\":6}")
        .unwrap_err();
    assert_eq!(e, ClientError::ProtocolError);
    assert!(decode_frame("{\"type\":\"player_joined\",\"username\":\"b\",\"x\":63,\"y\":0}").is_ok());
}

#[test]
fn decode_health_and_resources_take_the_full_u32_range() {
    let m = decode_frame(
        "{\"type\":\"player_update\",\"username\":\"b\",\"x\":0,\"y\":0,\"health\":4294967295,\"resources\":0}",
    )
    .unwrap();
    assert_eq!(
        m,
        Message::PlayerUpdate {
            username: "b".to_string(),
            x: 0,
            y: 0,
            health: u32::MAX,
            resources: 0,
        }
    );
    // one past the top does not fit
    let e = decode_frame(
        "{\"type\":\"player_update\",\"username\":\"b\",\"x\":0,\"y\":0,\"health\":4294967296,\"resources\":0}",
    )
    .unwrap_err();
    assert_eq!(e, ClientError::ProtocolError);
}

#[test]
fn decode_string_escapes() {
    let m = decode_frame(
        "{\"type\":\"error\",\"message\":\"a\\\"b\\\\c\\n\\t\\u0041\\uD83D\\uDE00\"}",
    )
    .unwrap();
    assert_eq!(m, Message::ErrorMsg { text: "a\"b\\c\n\tA\u{1F600}".to_string() });
}

#[test]
fn decode_rejects_lone_surrogate_and_bad_escape() {
    assert!(decode_frame("{\"type\":\"error\",\"message\":\"\\uD83D\"}").is_err());
    assert!(decode_frame("{\"type\":\"error\",\"message\":\"\\q\"}").is_err());
    assert!(decode_frame("{\"type\":\"error\",\"message\":\"raw\u{1}control\"}").is_err());
}

#[test]
fn duplicate_member_first_occurrence_counts() {
    let m = decode_frame("{\"type\":\"error\",\"message\":\"a\",\"message\":\"b\"}").unwrap();
    assert_eq!(m, Message::ErrorMsg { text: "a".to_string() });
}

#[test]
fn unknown_members_are_ignored() {
    let m = decode_frame(
        "{\"type\":\"player_left\",\"username\":\"bob\",\"extra\":[1,{\"k\":null},true]}",
    )
    .unwrap();
    assert_eq!(m, Message::PlayerLeft { username: "bob".to_string() });
}

#[test]
fn nesting_beyond_the_depth_bound_is_refused() {
    let mut deep = String::new();
    for _ in 0..100 {
        deep.push('[');
    }
    deep.push('0');
    for _ in 0..100 {
        deep.push(']');
    }
    let frame = format!(
        "{{\"type\":\"chat_message\",\"id\":{deep},\"username\":\"b\",\"message\":\"m\",\"timestamp\":1,\"room\":\"r\"}}"
    );
    assert_eq!(decode_frame(&frame).unwrap_err(), ClientError::ProtocolError);
    // a shallow opaque id of the same shape is fine
    let frame = "{\"type\":\"chat_message\",\"id\":[[0]],\"username\":\"b\",\"message\":\"m\",\"timestamp\":1,\"room\":\"r\"}";
    assert!(decode_frame(frame).is_ok());
}

#[test]
fn parse_json_handles_scalars_and_containers() {
    assert!(matches!(parse_json("true"), Some(JsonVal::Bool(true))));
    assert!(matches!(parse_json("null"), Some(JsonVal::Null)));
    match parse_json("-12.5e3") {
        Some(JsonVal::Num(s)) => assert_eq!(s, "-12.5e3"),
        _ => panic!("number expected"),
    }
    match parse_json("{\"a\":[1,2],\"b\":\"x\"}") {
        Some(JsonVal::Obj(o)) => {
            assert_eq!(o.len(), 2);
            assert_eq!(o[0].0, "a");
        }
        _ => panic!("object expected"),
    }
    assert!(parse_json("01").is_none());
    assert!(parse_json("[1,]").is_none());
    assert!(parse_json("{\"a\":}").is_none());
    assert!(parse_json("12 34").is_none());
}

#[test]
fn decoder_accepts_a_reference_serializer_frame() {
    let mut m = serde_json::Map::new();
    m.insert("type".to_string(), serde_json::Value::String("player_left".to_string()));
    m.insert(
        "username".to_string(),
        serde_json::Value::String("na\u{ef}ve \"user\"\n".to_string()),
    );
    let frame = serde_json::to_string(&serde_json::Value::Object(m)).unwrap();
    assert_eq!(
        decode_frame(&frame).unwrap(),
        Message::PlayerLeft { username: "na\u{ef}ve \"user\"\n".to_string() }
    );
}
