use chat_system::json::{response_ok, Json};
use chat_system::message::Message;
use chat_system::messengers::discord::{
    self, authorization_header, gateway_url_of, heartbeat_interval, identify_payload, message_body,
    messages_path, typing_path, GatewayAction, GatewaySession,
};
use chat_system::messengers::google_chat::{
    self, api_spaces, chat_messages, created_name, newer_name, send_space, space_messages_path,
    space_path, text_body,
};
use chat_system::messengers::history::{str_less, unseen_oldest_first};
use chat_system::messengers::slack::{
    self, channel_messages, conversation_ids, conversations_list_path, history_path, post_message_body,
    posted_ts,
};
use chat_system::messengers::teams::{
    default_graph_base, graph_api_url, graph_body, graph_messages_path, graph_sent_id, newest_id,
    send_channel, teams_messages, webhook_card, webhook_sent_id,
};
use chat_system::messengers::telegram::{
    self, bot_api_base, get_updates_url, next_offset, send_message_body, sent_message_id,
    telegram_updates,
};
use chat_system::messengers::webhook::{sent_id, webhook_body};
use serde_json::Value;

fn from_value(v: &Value) -> Json {
    match v {
        Value::Null => Json::Null,
        Value::Bool(b) => Json::Bool(*b),
        Value::Number(n) => Json::Number(n.as_i64(), n.as_u64()),
        Value::String(s) => Json::Str(s.clone()),
        Value::Array(a) => Json::Array(a.iter().map(from_value).collect()),
        Value::Object(o) => Json::Object(o.iter().map(|(k, v)| (k.clone(), from_value(v))).collect()),
    }
}

fn to_value(j: &Json) -> Value {
    match j {
        Json::Null => Value::Null,
        Json::Bool(b) => Value::Bool(*b),
        Json::Number(Some(i), _) => Value::from(*i),
        Json::Number(None, Some(u)) => Value::from(*u),
        Json::Number(None, None) => Value::Null,
        Json::Str(s) => Value::String(s.clone()),
        Json::Array(a) => Value::Array(a.iter().map(to_value).collect()),
        Json::Object(o) => {
            let mut m = serde_json::Map::new();
            for (k, v) in o {
                m.insert(k.clone(), to_value(v));
            }
            Value::Object(m)
        }
    }
}

fn parse(text: &str) -> Json {
    from_value(&serde_json::from_str::<Value>(text).unwrap())
}

fn assert_json(j: &Json, text: &str) {
    assert_eq!(to_value(j), serde_json::from_str::<Value>(text).unwrap());
}

fn msg(id: &str) -> Message {
    Message::plain(
        id.to_string(),
        "u".to_string(),
        "c".to_string(),
        0,
        None,
        false,
        chat_system::message::MessageType::Text,
    )
}

// ── Telegram ────────────────────────────────────────────────────────────────

#[test]
fn telegram_urls() {
    let base = bot_api_base("123:abc");
    assert_eq!(base, "https://api.telegram.org/bot123:abc");
    assert_eq!(telegram::api_url("https://api.telegram.org/bot1//", "getMe"), "https://api.telegram.org/bot1/getMe");
    assert_eq!(
        get_updates_url("http://localhost/bot1", Some(5)),
        "http://localhost/bot1/getUpdates?offset=5&timeout=0"
    );
    assert_eq!(get_updates_url("http://localhost/bot1/", None), "http://localhost/bot1/getUpdates?timeout=0");
}

#[test]
fn telegram_offset_and_sent_id() {
    assert_eq!(next_offset(Some(41)), Some(42));
    assert_eq!(next_offset(Some(-3)), Some(-2));
    assert_eq!(next_offset(None), None);
    assert_eq!(sent_message_id(&parse(r#"{"ok":true,"result":{"message_id":77}}"#)), "77");
    assert_eq!(sent_message_id(&parse(r#"{"ok":true,"result":{}}"#)), "");
    assert!(response_ok(&parse(r#"{"ok":true}"#)));
    assert!(!response_ok(&parse(r#"{"ok":"yes"}"#)));
    assert!(!response_ok(&parse(r#"{"description":"x"}"#)));
}

#[test]
fn telegram_updates_become_messages() {
    let data = parse(
        r#"{"ok":true,"result":[
            {"update_id":10,"message":{"message_id":1,"from":{"username":"alice","first_name":"Alice"},"text":"hi","date":1700000000,"chat":{"id":-100}}},
            {"update_id":12},
            {"update_id":11,"message":{"message_id":2,"from":{"first_name":"Bob"},"chat":{"id":5}}},
            {"message":{"text":"anonymous"}}
        ]}"#,
    );
    let (messages, max_id) = telegram_updates(&data);
    assert_eq!(max_id, Some(12));
    assert_eq!(messages.len(), 3);
    assert_eq!(messages[0].id, "1");
    assert_eq!(messages[0].sender, "alice");
    assert_eq!(messages[0].content, "hi");
    assert_eq!(messages[0].timestamp, 1700000000);
    assert_eq!(messages[0].channel.as_deref(), Some("-100"));
    assert_eq!(messages[1].id, "2");
    assert_eq!(messages[1].sender, "Bob");
    assert_eq!(messages[1].content, "");
    assert_eq!(messages[1].timestamp, 0);
    assert_eq!(messages[1].channel.as_deref(), Some("5"));
    assert_eq!(messages[2].id, "0");
    assert_eq!(messages[2].sender, "unknown");
    assert_eq!(messages[2].channel, None);
    let (none, no_max) = telegram_updates(&parse(r#"{"ok":true,"result":[]}"#));
    assert!(none.is_empty());
    assert_eq!(no_max, None);
}

#[test]
fn telegram_send_body() {
    assert_json(
        &send_message_body("42", "<b>hi</b>"),
        r#"{"chat_id":"42","text":"<b>hi</b>","parse_mode":"HTML"}"#,
    );
}

// ── Discord ─────────────────────────────────────────────────────────────────

#[test]
fn discord_rest_paths() {
    assert_eq!(discord::default_api_base(), "https://discord.com/api/v10");
    assert_eq!(
        discord::api_url("https://discord.com/api/v10/", "/channels/1/messages"),
        "https://discord.com/api/v10/channels/1/messages"
    );
    assert_eq!(authorization_header("tok"), "Bot tok");
    assert_eq!(messages_path("channel-123"), "channels/channel-123/messages");
    assert_eq!(typing_path("channel-123"), "channels/channel-123/typing");
    assert_json(&message_body("hello discord"), r#"{"content":"hello discord"}"#);
    assert_eq!(discord::sent_message_id(&parse(r#"{"id":"discord-message-42"}"#)), "discord-message-42");
    assert_eq!(discord::sent_message_id(&parse(r#"{}"#)), "");
}

#[test]
fn discord_gateway_handshake() {
    assert_eq!(gateway_url_of(&parse(r#"{"url":"wss://gateway.discord.gg"}"#)), Ok("wss://gateway.discord.gg?v=10&encoding=json".to_string()));
    assert!(gateway_url_of(&parse(r#"{"shards":1}"#)).is_err());
    assert_eq!(heartbeat_interval(&parse(r#"{"op":10,"d":{"heartbeat_interval":41250}}"#)), Some(41250));
    assert_eq!(heartbeat_interval(&parse(r#"{"op":10}"#)), None);
    assert_json(
        &identify_payload("tok", "linux"),
        r#"{"op":2,"d":{"token":"tok","intents":513,"properties":{"os":"linux","browser":"chat-system","device":"chat-system"}}}"#,
    );
}

#[test]
fn discord_gateway_session_queues_messages_and_tracks_sequence() {
    let mut session = GatewaySession::new();
    assert_json(&session.heartbeat_payload(), r#"{"op":1,"d":null}"#);
    let created = parse(
        r#"{"op":0,"t":"MESSAGE_CREATE","s":1,"d":{"id":"gateway-message-1","channel_id":"channel-123",
            "content":"hello from gateway","timestamp":"2024-01-01T00:00:00Z",
            "author":{"username":"gateway-user"},"guild_id":"guild-1"}}"#,
    );
    match session.on_payload(&created, 5) {
        GatewayAction::Queue(m) => {
            assert_eq!(m.id, "gateway-message-1");
            assert_eq!(m.sender, "gateway-user");
            assert_eq!(m.content, "hello from gateway");
            assert_eq!(m.channel.as_deref(), Some("channel-123"));
            assert_eq!(m.timestamp, 1704067200);
            assert!(!m.is_direct);
            assert!(m.reply_to.is_none());
        }
        other => panic!("unexpected action {:?}", other),
    }
    assert_json(&session.heartbeat_payload(), r#"{"op":1,"d":1}"#);

    let dm = parse(
        r#"{"op":0,"t":"MESSAGE_CREATE","s":null,"d":{"id":"m2","channel_id":"dm-1","content":"psst",
            "timestamp":"not a time","message_reference":{"message_id":"m1"}}}"#,
    );
    match session.on_payload(&dm, 99) {
        GatewayAction::Queue(m) => {
            assert!(m.is_direct);
            assert_eq!(m.sender, "unknown");
            assert_eq!(m.timestamp, 99);
            assert_eq!(m.reply_to.as_deref(), Some("m1"));
        }
        other => panic!("unexpected action {:?}", other),
    }
    // A null sequence number keeps the previous one.
    assert_json(&session.heartbeat_payload(), r#"{"op":1,"d":1}"#);

    assert!(matches!(session.on_payload(&parse(r#"{"op":1,"s":7}"#), 0), GatewayAction::Heartbeat));
    assert_json(&session.heartbeat_payload(), r#"{"op":1,"d":7}"#);
    assert!(matches!(session.on_payload(&parse(r#"{"op":7}"#), 0), GatewayAction::Stop));
    assert!(matches!(session.on_payload(&parse(r#"{"op":9,"d":false}"#), 0), GatewayAction::Stop));
    assert!(matches!(session.on_payload(&parse(r#"{"op":11}"#), 0), GatewayAction::Nothing));
    assert!(matches!(
        session.on_payload(&parse(r#"{"op":0,"t":"GUILD_CREATE","s":8,"d":{}}"#), 0),
        GatewayAction::Nothing
    ));
}

// ── Slack ───────────────────────────────────────────────────────────────────

#[test]
fn slack_paths_and_bodies() {
    assert_eq!(slack::default_api_base(), "https://slack.com/api");
    assert_eq!(slack::api_url("http://127.0.0.1:9/api", "auth.test"), "http://127.0.0.1:9/api/auth.test");
    assert!(conversations_list_path().starts_with("conversations.list?types=public_channel"));
    assert_eq!(history_path("C123", None), "conversations.history?channel=C123&limit=100");
    assert_eq!(
        history_path("C123", Some("1700000002.000200")),
        "conversations.history?channel=C123&limit=100&oldest=1700000002.000200&inclusive=false"
    );
    assert_json(&post_message_body("C123", "hello slack"), r#"{"channel":"C123","text":"hello slack"}"#);
    assert_eq!(posted_ts(&parse(r#"{"ok":true,"ts":"1700000001.000100"}"#)), "1700000001.000100");
    assert_eq!(posted_ts(&parse(r#"{"ok":true}"#)), "");
}

#[test]
fn slack_conversations_and_history() {
    let list = parse(r#"{"ok":true,"channels":[{"id":"C123"},{"name":"no-id"},{"id":"D456"}]}"#);
    assert_eq!(conversation_ids(&list), vec!["C123".to_string(), "D456".to_string()]);
    let history = parse(
        r#"{"ok":true,"messages":[
            {"ts":"1700000002.000200","user":"U456","text":"second channel message","thread_ts":"1700000001.000100"},
            {"ts":"1700000001.500000","bot_id":"B1","text":""},
            {"ts":"1700000001.000100","user":"U123","text":"first channel message"}]}"#,
    );
    let ps = channel_messages(&history, "C123");
    assert_eq!(ps.len(), 2);
    assert_eq!(ps[0].0, "1700000001.000100");
    assert_eq!(ps[0].1.id, "1700000001.000100");
    assert_eq!(ps[0].1.sender, "U123");
    assert_eq!(ps[0].1.content, "first channel message");
    assert_eq!(ps[0].1.timestamp, 1700000001);
    assert_eq!(ps[0].1.channel.as_deref(), Some("C123"));
    assert!(ps[0].1.reply_to.is_none());
    assert_eq!(ps[1].1.sender, "U456");
    assert_eq!(ps[1].1.reply_to.as_deref(), Some("1700000001.000100"));
    assert!(channel_messages(&parse(r#"{"ok":true,"messages":[]}"#), "C123").is_empty());
}

// ── Teams ───────────────────────────────────────────────────────────────────

#[test]
fn teams_paths_and_bodies() {
    assert_eq!(default_graph_base(), "https://graph.microsoft.com/v1.0");
    assert_eq!(graph_api_url("http://127.0.0.1:1/", "me"), "http://127.0.0.1:1/me");
    assert_eq!(graph_messages_path("team-1", "channel-123"), "teams/team-1/channels/channel-123/messages");
    assert_eq!(send_channel("", "channel-123"), "channel-123");
    assert_eq!(send_channel("other", "channel-123"), "other");
    assert_eq!(webhook_sent_id(1234), "teams:1234");
    assert_eq!(graph_sent_id(&parse(r#"{"id":"graph-message-3"}"#)), "graph-message-3");
    assert_json(
        &webhook_card("hi"),
        r#"{"@type":"MessageCard","@context":"https://schema.org/extensions","text":"hi"}"#,
    );
    assert_json(&graph_body("hello teams graph"), r#"{"body":{"contentType":"html","content":"hello teams graph"}}"#);
}

#[test]
fn teams_graph_messages_and_polling() {
    let data = parse(
        r#"{"value":[
            {"id":"graph-message-2","createdDateTime":"2024-01-01T00:00:02Z","body":{"content":"second teams message"},"from":{"user":{"displayName":"Bob"}},"replyToId":"graph-message-1"},
            {"id":"graph-message-x","body":{"content":""}},
            {"id":"graph-message-1","createdDateTime":"2024-01-01T00:00:01Z","body":{"content":"first teams message"},"from":{"application":{"displayName":"Alice"}}}]}"#,
    );
    let parsed = teams_messages(&data, "channel-123", 0);
    assert_eq!(parsed.len(), 2);
    assert_eq!(parsed[0].id, "graph-message-2");
    assert_eq!(parsed[0].sender, "Bob");
    assert_eq!(parsed[0].timestamp, 1704067202);
    assert_eq!(parsed[0].reply_to.as_deref(), Some("graph-message-1"));
    assert_eq!(parsed[1].sender, "Alice");
    assert_eq!(parsed[1].channel.as_deref(), Some("channel-123"));
    assert_eq!(newest_id(&parsed, None), Some("graph-message-2".to_string()));
    assert_eq!(newest_id(&Vec::new(), Some("old".to_string())), Some("old".to_string()));

    let first_poll = unseen_oldest_first(parsed, None);
    let ids: Vec<&str> = first_poll.iter().map(|m| m.id.as_str()).collect();
    assert_eq!(ids, vec!["graph-message-1", "graph-message-2"]);
    let again = teams_messages(&data, "channel-123", 0);
    assert!(unseen_oldest_first(again, Some("graph-message-2")).is_empty());
}

#[test]
fn history_unseen_messages() {
    let list = vec![msg("c"), msg("b"), msg("a")];
    let ids = |v: Vec<Message>| v.into_iter().map(|m| m.id).collect::<Vec<_>>();
    assert_eq!(ids(unseen_oldest_first(list.clone(), Some("b"))), vec!["c".to_string()]);
    assert_eq!(ids(unseen_oldest_first(list.clone(), Some("zz"))), vec!["a".to_string(), "b".to_string(), "c".to_string()]);
    assert!(unseen_oldest_first(list, Some("c")).is_empty());
    assert!(str_less("spaces/a/messages/1", "spaces/a/messages/2"));
    assert!(!str_less("b", "a"));
    assert!(str_less("a", "ab"));
}

// ── Google Chat ─────────────────────────────────────────────────────────────

#[test]
fn google_chat_paths_and_bodies() {
    assert_eq!(google_chat::default_api_base(), "https://chat.googleapis.com/v1");
    assert_eq!(google_chat::api_url("https://chat.googleapis.com/v1", "spaces/AAA"), "https://chat.googleapis.com/v1/spaces/AAA");
    assert_eq!(space_path("AAA"), "spaces/AAA");
    assert_eq!(space_messages_path("AAA"), "spaces/AAA/messages");
    assert_eq!(api_spaces(&"AAA".to_string(), &vec![]), vec!["AAA".to_string()]);
    assert_eq!(
        api_spaces(&"AAA".to_string(), &vec!["B".to_string(), "C".to_string()]),
        vec!["B".to_string(), "C".to_string()]
    );
    assert_eq!(send_space("", "AAA"), "AAA");
    assert_eq!(send_space("BBB", "AAA"), "BBB");
    assert_eq!(google_chat::webhook_sent_id(7), "googlechat:7");
    assert_eq!(created_name(&parse(r#"{"name":"spaces/AAA/messages/1"}"#)), "spaces/AAA/messages/1");
    assert_eq!(created_name(&parse(r#"{}"#)), "");
    assert_json(&text_body("hello"), r#"{"text":"hello"}"#);
}

#[test]
fn google_chat_messages() {
    let data = parse(
        r#"{"messages":[
            {"name":"spaces/AAA/messages/2","text":"second","createTime":"2024-01-01T00:00:02Z","sender":{"displayName":"Bob"},"space":{"type":"DM"},"thread":{"name":"spaces/AAA/threads/t"}},
            {"name":"spaces/AAA/messages/x","text":""},
            {"name":"spaces/AAA/messages/1","text":"first","sender":{"name":"users/1"}}]}"#,
    );
    let parsed = chat_messages(&data, "AAA", 50);
    assert_eq!(parsed.len(), 2);
    assert_eq!(parsed[0].id, "spaces/AAA/messages/2");
    assert_eq!(parsed[0].sender, "Bob");
    assert!(parsed[0].is_direct);
    assert_eq!(parsed[0].timestamp, 1704067202);
    assert_eq!(parsed[0].reply_to.as_deref(), Some("spaces/AAA/threads/t"));
    assert_eq!(parsed[1].sender, "users/1");
    assert_eq!(parsed[1].timestamp, 50);
    assert!(!parsed[1].is_direct);
    assert_eq!(parsed[1].channel.as_deref(), Some("AAA"));
    assert_eq!(newer_name(None, &parsed), Some("spaces/AAA/messages/2".to_string()));
    assert_eq!(
        newer_name(Some("spaces/AAA/messages/3".to_string()), &parsed),
        Some("spaces/AAA/messages/3".to_string())
    );
}

// ── Webhook ─────────────────────────────────────────────────────────────────

#[test]
fn webhook_body_and_id() {
    assert_json(
        &webhook_body("#general", "hello", 1700000000),
        r##"{"recipient":"#general","content":"hello","timestamp":1700000000}"##,
    );
    assert_eq!(sent_id(1700000000123), "webhook:1700000000123");
    assert_eq!(sent_id(-5), "webhook:-5");
}
