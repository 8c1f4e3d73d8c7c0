use chat_system::json::Json;
use chat_system::messengers::matrix::{
    is_room_id, login_body, sync_messages, text_content, txn_id, typing_payload, validate_config,
    MatrixRoomTimeline, MatrixTimelineEvent,
};
use chat_system::messengers::matrix_cli::{
    alias_lookup_url, auth_header, cli_login_body, connected_with_token, directory_room_id,
    dm_rooms_from_joined, formatted_message_content, join_url, joined_rooms_url, login_needed,
    login_reply, login_url, logout_url, member_event_senders, message_content, room_event, send_url,
    should_accept_invite, sync_url, trim_homeserver, typing_url, MatrixDmConfig,
};
use chat_system::messengers::matrix_cli;
use serde_json::Value;

fn from_value(v: &Value) -> Json {
    match v {
        Value::Null => Json::Null,
        Value::Bool(b) => Json::Bool(*b),
        Value::Number(n) => Json::Number(n.as_i64(), n.as_u64()),
        Value::String(s) => Json::Str(s.clone()),
        Value::Array(a) => Json::Array(a.iter().map(from_value).collect()),
        Value::Object(o) => Json::Object(o.iter().map(|(k, v)| (k.clone(), from_value(v))).collect()),
    }
}

fn to_value(j: &Json) -> Value {
    match j {
        Json::Null => Value::Null,
        Json::Bool(b) => Value::Bool(*b),
        Json::Number(Some(i), _) => Value::from(*i),
        Json::Number(None, Some(u)) => Value::from(*u),
        Json::Number(None, None) => Value::Null,
        Json::Str(s) => Value::String(s.clone()),
        Json::Array(a) => Value::Array(a.iter().map(to_value).collect()),
        Json::Object(o) => {
            let mut m = serde_json::Map::new();
            for (k, v) in o {
                m.insert(k.clone(), to_value(v));
            }
            Value::Object(m)
        }
    }
}

fn parse(text: &str) -> Json {
    from_value(&serde_json::from_str::<Value>(text).unwrap())
}

fn assert_json(j: &Json, text: &str) {
    assert_eq!(to_value(j), serde_json::from_str::<Value>(text).unwrap());
}

fn strings(v: &[&str]) -> Vec<String> {
    v.iter().map(|s| s.to_string()).collect()
}

#[test]
fn validate_config_rejects_empty_homeserver() {
    assert!(validate_config("", "bot", "secret", false).is_err());
}

#[test]
fn validate_config_rejects_empty_username() {
    assert!(validate_config("https://matrix.example", "", "secret", false).is_err());
}

#[test]
fn validate_config_rejects_empty_password() {
    assert!(validate_config("https://matrix.example", "bot", "", false).is_err());
}

#[test]
fn validate_config_accepts_non_empty_values() {
    assert!(validate_config("https://matrix.example", "bot", "secret", false).is_ok());
}

#[test]
fn validate_config_token_replaces_password() {
    assert!(validate_config("https://matrix.example", "bot", "", true).is_ok());
    assert!(validate_config("   ", "bot", "secret", true).is_err());
}

#[test]
fn test_homeserver_url_trimming() {
    assert_eq!(trim_homeserver("https://matrix.org/"), "https://matrix.org");
    assert_eq!(trim_homeserver("https://matrix.org//"), "https://matrix.org");
    assert_eq!(trim_homeserver("https://matrix.org"), "https://matrix.org");
}

#[test]
fn matrix_room_ids_and_payloads() {
    assert!(is_room_id("!abc:example.org"));
    assert!(!is_room_id("#alias:example.org"));
    assert_eq!(txn_id(42), "42");
    assert_json(&typing_payload(true), r#"{"typing":true,"timeout":30000}"#);
    assert_json(&typing_payload(false), r#"{"typing":false}"#);
    assert_json(&text_content("hi"), r#"{"msgtype":"m.text","body":"hi"}"#);
    assert_json(
        &login_body("bot", "pw", "matrix"),
        r#"{"type":"m.login.password","identifier":{"type":"m.id.user","user":"bot"},"password":"pw","initial_device_display_name":"matrix"}"#,
    );
}

fn event(kind: &str, id: &str, sender: &str, ts: i64, body: &str, reply: Option<&str>) -> MatrixTimelineEvent {
    MatrixTimelineEvent {
        event_type: kind.to_string(),
        event_id: id.to_string(),
        sender: sender.to_string(),
        origin_server_ts: ts,
        body: body.to_string(),
        in_reply_to: reply.map(|r| r.to_string()),
    }
}

#[test]
fn matrix_sync_keeps_room_messages_with_a_body() {
    let rooms = vec![
        MatrixRoomTimeline {
            room_id: "!a:x".to_string(),
            events: vec![
                event("m.room.message", "$1", "@alice:x", 1_700_000_000_999, "hello", None),
                event("m.room.member", "$2", "@bob:x", 1, "joined", None),
                event("m.room.message", "$3", "@bob:x", 1_700_000_001_000, "", None),
            ],
        },
        MatrixRoomTimeline {
            room_id: "!b:x".to_string(),
            events: vec![event("m.room.message", "$4", "@carol:x", -1500, "re", Some("$1"))],
        },
    ];
    let ms = sync_messages(&rooms);
    assert_eq!(ms.len(), 2);
    assert_eq!(ms[0].id, "$1");
    assert_eq!(ms[0].timestamp, 1_700_000_000);
    assert_eq!(ms[0].channel.as_deref(), Some("!a:x"));
    assert_eq!(ms[1].sender, "@carol:x");
    assert_eq!(ms[1].timestamp, -1);
    assert_eq!(ms[1].reply_to.as_deref(), Some("$1"));
}

#[test]
fn matrix_cli_urls_are_percent_encoded() {
    let hs = "https://matrix.org";
    assert_eq!(join_url(hs, "!room:example.org"), "https://matrix.org/_matrix/client/v3/rooms/%21room%3Aexample.org/join");
    assert_eq!(joined_rooms_url(hs), "https://matrix.org/_matrix/client/v3/joined_rooms");
    assert_eq!(
        typing_url(hs, "!r:x", "@bot:x"),
        "https://matrix.org/_matrix/client/v3/rooms/%21r%3Ax/typing/%40bot%3Ax"
    );
    assert_eq!(
        send_url(hs, "!r:x", 1700000000000),
        "https://matrix.org/_matrix/client/v3/rooms/%21r%3Ax/send/m.room.message/1700000000000"
    );
    assert_eq!(login_url(hs), "https://matrix.org/_matrix/client/v3/login");
    assert_eq!(logout_url(hs), "https://matrix.org/_matrix/client/v3/logout");
    assert_eq!(
        alias_lookup_url(hs, "#room:example.org"),
        Some("https://matrix.org/_matrix/client/v3/directory/room/%23room%3Aexample.org".to_string())
    );
    assert_eq!(alias_lookup_url(hs, "!room:example.org"), None);
    assert_eq!(alias_lookup_url(hs, "plain"), None);
    assert_eq!(join_url(hs, "a-b_c.d~e"), "https://matrix.org/_matrix/client/v3/rooms/a-b_c.d~e/join");
    assert_eq!(join_url(hs, "é"), "https://matrix.org/_matrix/client/v3/rooms/%C3%A9/join");
}

#[test]
fn matrix_cli_sync_url() {
    let hs = "https://m.org";
    assert_eq!(sync_url(hs, None, None), "https://m.org/_matrix/client/v3/sync");
    assert_eq!(sync_url(hs, Some("s1"), None), "https://m.org/_matrix/client/v3/sync?since=s1");
    assert_eq!(sync_url(hs, None, Some(0)), "https://m.org/_matrix/client/v3/sync?timeout=0");
    assert_eq!(sync_url(hs, Some("s1"), Some(1000)), "https://m.org/_matrix/client/v3/sync?since=s1&timeout=1000");
}

#[test]
fn matrix_cli_login_and_credentials() {
    assert_eq!(auth_header(Some("syt_token")), Ok("Bearer syt_token".to_string()));
    assert!(auth_header(None).is_err());
    assert_json(
        &cli_login_body("@test:matrix.org", "password"),
        r#"{"type":"m.login.password","user":"@test:matrix.org","password":"password","initial_device_display_name":"chat-system Matrix CLI"}"#,
    );
    assert_eq!(
        login_reply(&parse(r#"{"access_token":"tok","device_id":"DEV","user_id":"@a:b"}"#)),
        Some(("tok".to_string(), "DEV".to_string()))
    );
    assert_eq!(login_reply(&parse(r#"{"access_token":"tok"}"#)), None);
    assert_eq!(login_needed(true, true), Ok(false));
    assert_eq!(login_needed(false, true), Ok(true));
    assert!(login_needed(false, false).is_err());
    assert!(connected_with_token(true, Some("t")));
    assert!(!connected_with_token(true, None));
    assert!(!connected_with_token(false, Some("t")));
    assert_eq!(directory_room_id(&parse(r#"{"room_id":"!r:x","servers":[]}"#)), Ok("!r:x".to_string()));
    assert!(directory_room_id(&parse(r#"{"errcode":"M_NOT_FOUND"}"#)).is_err());
}

#[test]
fn matrix_cli_message_content() {
    assert_json(
        &message_content("**hi**", "<p><strong>hi</strong></p>\n", None),
        r#"{"msgtype":"m.text","body":"**hi**","format":"org.matrix.custom.html","formatted_body":"<p><strong>hi</strong></p>\n"}"#,
    );
    assert_json(
        &formatted_message_content("**hi**", Some("$ev")),
        r#"{"msgtype":"m.text","body":"**hi**","format":"org.matrix.custom.html","formatted_body":"<p><strong>hi</strong></p>\n","m.relates_to":{"m.in_reply_to":{"event_id":"$ev"}}}"#,
    );
}

#[test]
fn matrix_cli_invites() {
    let allow = MatrixDmConfig {
        enabled: true,
        policy: "allowlist".to_string(),
        allow_from: strings(&["@alice:x"]),
    };
    assert!(should_accept_invite(&allow, "@alice:x"));
    assert!(!should_accept_invite(&allow, "@mallory:x"));
    let open = MatrixDmConfig { enabled: true, policy: "open".to_string(), allow_from: vec![] };
    assert!(should_accept_invite(&open, "@anyone:x"));
    let pairing = MatrixDmConfig { enabled: true, policy: "pairing".to_string(), allow_from: strings(&["@alice:x"]) };
    assert!(!should_accept_invite(&pairing, "@alice:x"));
    let invite = parse(
        r#"{"invite_state":{"events":[
            {"type":"m.room.name","sender":"@x:x"},
            {"type":"m.room.member","sender":"@alice:x"},
            {"type":"m.room.member"}]}}"#,
    );
    assert_eq!(member_event_senders(&invite), strings(&["@alice:x"]));
    assert!(member_event_senders(&parse("{}")).is_empty());
    assert_eq!(
        dm_rooms_from_joined(&strings(&["!a", "!b", "!c"]), &strings(&["!b"])),
        strings(&["!a", "!c"])
    );
}

#[test]
fn matrix_cli_room_events() {
    let e = room_event(&parse(
        r#"{"type":"m.room.message","sender":"@a:x","event_id":"$1","origin_server_ts":1700000000123,"content":{"body":"hi"}}"#,
    ))
    .unwrap();
    assert_eq!(e.event_type, "m.room.message");
    assert_eq!(e.origin_server_ts, 1700000000123);
    assert_eq!(e.body.as_deref(), Some("hi"));
    assert!(room_event(&parse(r#"{"type":"m.room.message","sender":"@a:x","event_id":"$1","content":{}}"#)).is_none());
}

fn joined_room(events: &str) -> Json {
    parse(&format!(r#"{{"timeline":{{"events":[{}]}}}}"#, events))
}

#[test]
fn matrix_cli_sync_filters_rooms_and_own_messages() {
    let own = r#"{"type":"m.room.message","sender":"@bot:x","event_id":"$own","origin_server_ts":5000,"content":{"body":"mine"}}"#;
    let other = r#"{"type":"m.room.message","sender":"@a:x","event_id":"$2","origin_server_ts":7999,"content":{"body":"yo"}}"#;
    let joined = vec![
        ("!allowed".to_string(), joined_room(&format!("{},{}", own, other))),
        ("!other".to_string(), joined_room(other)),
        ("!dm".to_string(), joined_room(other)),
    ];
    let (ms, advance) = matrix_cli::sync_messages(&joined, &strings(&["!allowed"]), &strings(&["!dm"]), "@bot:x");
    assert!(advance);
    assert_eq!(ms.len(), 2);
    assert_eq!(ms[0].id, "$2");
    assert_eq!(ms[0].timestamp, 7);
    assert_eq!(ms[0].channel.as_deref(), Some("!allowed"));
    assert!(!ms[0].is_direct);
    assert_eq!(ms[1].channel.as_deref(), Some("!dm"));
    assert!(ms[1].is_direct);

    // Only rooms outside the filters took part: the token must not advance.
    let only_other = vec![("!other".to_string(), joined_room(other))];
    let (none, advance) = matrix_cli::sync_messages(&only_other, &strings(&["!allowed"]), &vec![], "@bot:x");
    assert!(none.is_empty());
    assert!(!advance);

    // No filters: every room is read and the token advances.
    let (all, advance) = matrix_cli::sync_messages(&only_other, &vec![], &vec![], "@bot:x");
    assert_eq!(all.len(), 1);
    assert!(advance);
}
