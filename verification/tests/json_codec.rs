use chat_system::json::Json;
use chat_system::json_codec::{parse_json, parse_json_or_null, to_json_string};
use chat_system::messengers::discord::{hello_interval, identify_frame, GatewayAction, GatewaySession};
use chat_system::messengers::matrix_cli::{sync_next_batch, sync_rooms};
use chat_system::messengers::SignalCliMessenger;
use serde_json::Value;

fn value(text: &str) -> Value {
    serde_json::from_str(text).unwrap()
}

#[test]
fn parse_json_reads_documents_and_refuses_other_text() {
    match parse_json(r#"{"a":[1,true,null,"x"],"b":-2}"#) {
        Some(Json::Object(members)) => {
            assert_eq!(members.len(), 2);
            let a = members.iter().find(|(k, _)| k == "a").unwrap();
            match &a.1 {
                Json::Array(items) => {
                    assert_eq!(items.len(), 4);
                    assert!(matches!(items[0], Json::Number(Some(1), Some(1))));
                    assert!(matches!(items[1], Json::Bool(true)));
                    assert!(matches!(items[2], Json::Null));
                    assert!(matches!(&items[3], Json::Str(s) if s == "x"));
                }
                other => panic!("unexpected {:?}", other),
            }
            let b = members.iter().find(|(k, _)| k == "b").unwrap();
            assert!(matches!(b.1, Json::Number(Some(-2), None)));
        }
        other => panic!("unexpected {:?}", other),
    }
    assert!(parse_json("{not json").is_none());
    assert!(parse_json("").is_none());
}

#[test]
fn blank_api_body_reads_as_null() {
    assert!(matches!(parse_json_or_null("  \n"), Some(Json::Null)));
    assert!(matches!(parse_json_or_null(" 7 "), Some(Json::Number(Some(7), Some(7)))));
    assert!(parse_json_or_null("oops").is_none());
}

#[test]
fn json_text_round_trips() {
    let j = parse_json(r#"{"k":"v \"q\"","n":[1,2]}"#).unwrap();
    let text = to_json_string(&j);
    assert_eq!(value(&text), value(r#"{"k":"v \"q\"","n":[1,2]}"#));
    assert_eq!(to_json_string(&Json::Str("a\nb".to_string())), r#""a\nb""#);
}

#[test]
fn discord_hello_frame() {
    assert_eq!(hello_interval(r#"{"op":10,"d":{"heartbeat_interval":41250}}"#), Ok(41250));
    assert_eq!(hello_interval(r#"{"op":10}"#), Err("Discord HELLO missing heartbeat_interval"));
    assert_eq!(hello_interval("garbage"), Err("Invalid Discord HELLO payload"));
}

#[test]
fn discord_identify_frame_text() {
    assert_eq!(
        value(&identify_frame("tok", "linux")),
        value(r#"{"op":2,"d":{"token":"tok","intents":513,"properties":{"os":"linux","browser":"chat-system","device":"chat-system"}}}"#)
    );
}

#[test]
fn discord_session_reads_frame_text() {
    let mut session = GatewaySession::new();
    assert_eq!(value(&session.heartbeat_frame()), value(r#"{"op":1,"d":null}"#));
    assert!(session.on_frame("not json", 5).is_none());
    assert_eq!(value(&session.heartbeat_frame()), value(r#"{"op":1,"d":null}"#));
    let frame = r#"{"op":0,"t":"MESSAGE_CREATE","s":42,"d":{"id":"m1","channel_id":"c1","content":"hi",
        "timestamp":"2024-01-01T00:00:00Z","author":{"username":"u"},"guild_id":"g"}}"#;
    match session.on_frame(frame, 5) {
        Some(GatewayAction::Queue(m)) => {
            assert_eq!(m.id, "m1");
            assert_eq!(m.content, "hi");
            assert_eq!(m.sender, "u");
        }
        other => panic!("unexpected {:?}", other),
    }
    assert_eq!(value(&session.heartbeat_frame()), value(r#"{"op":1,"d":42}"#));
    assert!(matches!(session.on_frame(r#"{"op":1,"d":null}"#, 6), Some(GatewayAction::Heartbeat)));
    assert!(matches!(session.on_frame(r#"{"op":7}"#, 7), Some(GatewayAction::Stop)));
}

#[test]
fn signal_receive_output_parses_each_line() {
    let s = SignalCliMessenger::new("signal".to_string(), "+15550000000".to_string());
    let out = "  {\"envelope\":{\"source\":\"+1555\",\"timestamp\":1700000000000,\"dataMessage\":{\"message\":\"hi\"}}}  \n\n{\"envelope\":{\"source\":\"+1666\"}}\n";
    let ms = s.parse_receive_output(out, 0).unwrap();
    assert_eq!(ms.len(), 1);
    assert_eq!(ms[0].content, "hi");
    assert_eq!(ms[0].sender, "+1555");
    assert_eq!(s.parse_receive_output("", 0).unwrap().len(), 0);
    assert_eq!(
        s.parse_receive_output("{}\n  bad line \n{oops", 0).unwrap_err(),
        "Invalid signal-cli receive JSON: bad line"
    );
}

#[test]
fn matrix_sync_body_sections() {
    let body = parse_json(r#"{"next_batch":"s1","rooms":{"join":{"!a:x":{},"!b:x":{}},"invite":{"!c:x":{}}}}"#).unwrap();
    assert_eq!(sync_next_batch(&body), Ok("s1"));
    assert_eq!(sync_rooms(&body, "join").map(|r| r.len()), Some(2));
    assert_eq!(sync_rooms(&body, "invite").map(|r| r[0].0.clone()), Some("!c:x".to_string()));
    assert!(sync_rooms(&body, "leave").is_none());
    let bare = parse_json(r#"{"rooms":{}}"#).unwrap();
    assert_eq!(sync_next_batch(&bare), Err("Invalid sync response: missing next_batch"));
}
