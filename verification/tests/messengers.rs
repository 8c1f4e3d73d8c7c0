use chat_system::messenger::gather_received;
use chat_system::json::Json;
use chat_system::message::{Message, MessageType};
use chat_system::messengers::console::ConsoleMessenger;
use chat_system::messengers::imessage::{
    applescript_send_script, escape_applescript_string, row_message, rows_to_messages, IMessageRow,
};
use chat_system::messengers::signal_cli::{output_lines_of, parse_signal_message, parse_signal_messages};
use chat_system::messengers::{SignalCliMessenger, WhatsAppMessenger};
use chat_system::number::parse_slack_ts;

#[test]
fn escape_applescript_quotes_and_backslashes() {
    let escaped = escape_applescript_string(r#"a\b"c"#);
    assert_eq!(escaped, r#"a\\b\"c"#);
}

#[test]
fn applescript_script_escapes_both_values() {
    let s = applescript_send_script("bob\"", "hi\\");
    assert!(s.contains("buddy \"bob\\\"\" of targetService"));
    assert!(s.contains("send \"hi\\\\\" to targetBuddy"));
    assert!(s.starts_with("tell application \"Messages\"\n"));
    assert!(s.ends_with("\nend tell"));
}

fn row(rowid: i64, from_me: i64, handle: &str, channel: &str, display: &str) -> IMessageRow {
    IMessageRow {
        rowid,
        guid: format!("guid-{rowid}"),
        text: "hello".into(),
        sender_handle: handle.into(),
        channel_id: channel.into(),
        display_name: display.into(),
        is_from_me: from_me,
        reply_to: String::new(),
        unix_ts: 1700000000,
    }
}

#[test]
fn imessage_rows_become_messages() {
    let m = row_message(row(1, 1, "+1555", "chat1", "Friends"), "me");
    assert_eq!(m.sender, "me");
    assert_eq!(m.channel.as_deref(), Some("chat1"));
    assert!(!m.is_direct);
    let m = row_message(row(2, 0, "", "", ""), "me");
    assert_eq!(m.sender, "unknown");
    assert!(m.channel.is_none());
    assert!(m.is_direct);
    let (ms, last) = rows_to_messages(vec![row(3, 0, "a", "", ""), row(7, 0, "b", "", "")], "me");
    assert_eq!(ms.len(), 2);
    assert_eq!(ms[1].sender, "b");
    assert_eq!(last, Some(7));
    let (ms, last) = rows_to_messages(Vec::new(), "me");
    assert!(ms.is_empty());
    assert_eq!(last, None);
}

#[test]
fn parse_slack_timestamps() {
    assert_eq!(parse_slack_ts("1234567890.123456"), 1234567890);
    assert_eq!(parse_slack_ts("42"), 42);
    assert_eq!(parse_slack_ts("-5.1"), -5);
    assert_eq!(parse_slack_ts("abc.1"), 0);
    assert_eq!(parse_slack_ts(""), 0);
    assert_eq!(parse_slack_ts("99999999999999999999.0"), 0);
}

fn msg(content: &str) -> Message {
    Message::plain("1".into(), "alice".into(), content.into(), 0, None, true, MessageType::Text)
}

#[test]
fn console_queue_is_kept_across_receives() {
    let mut c = ConsoleMessenger::new("con".to_string());
    assert_eq!(c.name(), "con");
    assert_eq!(c.messenger_type(), "console");
    assert!(!c.is_connected());
    c.enqueue(msg("one"));
    c.enqueue(msg("two"));
    assert_eq!(c.queued().len(), 2);
    assert_eq!(c.queued()[1].content, "two");
    assert_eq!(c.queued().len(), 2);
    c.set_connected(true);
    assert!(c.is_connected());
    assert_eq!(ConsoleMessenger::sent_id(1700000000123), "console:1700000000123");
}

#[test]
fn whatsapp_stub_state() {
    let mut w = WhatsAppMessenger::new("wa".to_string(), "whatsapp.db".to_string());
    assert_eq!(w.messenger_type(), "whatsapp");
    assert_eq!(w.db_path(), "whatsapp.db");
    assert!(!w.is_connected());
    w.set_connected(true);
    assert!(w.is_connected());
    assert_eq!(w.send_message("15551234567", "hello"), Err("WhatsApp messenger is a stub.".to_string()));
}

#[test]
fn whatsapp_name_and_type() {
    let m = WhatsAppMessenger::new("my-whatsapp".to_string(), "/tmp/test_wa_name_type.db".to_string());
    assert_eq!(m.name(), "my-whatsapp");
    assert_eq!(m.messenger_type(), "whatsapp");
}

#[test]
fn whatsapp_not_connected_before_initialize() {
    let m = WhatsAppMessenger::new("wa".to_string(), "/tmp/test_wa_not_connected.db".to_string());
    assert!(!m.is_connected());
}

#[test]
fn whatsapp_disconnect_without_init_is_ok() {
    let mut m = WhatsAppMessenger::new("wa".to_string(), "/tmp/test_wa_disconnect_noinit.db".to_string());
    m.set_connected(false);
    assert!(!m.is_connected());
}

#[test]
fn whatsapp_send_message_without_init_returns_err() {
    let m = WhatsAppMessenger::new("wa".to_string(), "/tmp/test_wa_send_noinit.db".to_string());
    let result = m.send_message("15551234567", "hello");
    assert!(result.is_err());
    assert!(result.unwrap_err().contains("not initialised"), "Error should mention initialisation");
}

#[test]
fn signal_command_lines() {
    let s = SignalCliMessenger::new("signal".to_string(), "+15550000000".to_string());
    assert_eq!(s.cli_path(), "signal-cli");
    let s = s.with_cli_path("/opt/signal-cli".to_string());
    assert_eq!(s.cli_path(), "/opt/signal-cli");
    assert_eq!(
        s.send_args("+15551112222", "test signal send").join(" "),
        "-u +15550000000 send -m test signal send +15551112222"
    );
    assert_eq!(
        s.receive_args().join(" "),
        "-u +15550000000 receive --output json --timeout 1"
    );
    assert_eq!(SignalCliMessenger::sent_id(7), "signal:7");
}

fn obj(members: Vec<(&str, Json)>) -> Json {
    Json::Object(members.into_iter().map(|(k, v)| (k.to_string(), v)).collect())
}

fn s(v: &str) -> Json {
    Json::Str(v.to_string())
}

#[test]
fn signal_receive_message_parses() {
    let doc = obj(vec![(
        "envelope",
        obj(vec![
            ("sourceName", s("Alice")),
            ("sourceNumber", s("+15557654321")),
            ("timestamp", Json::Number(Some(1709999999000), Some(1709999999000))),
            (
                "dataMessage",
                obj(vec![
                    ("message", s("hello from signal")),
                    ("groupInfo", obj(vec![("groupId", s("group-123"))])),
                    ("quote", obj(vec![("id", Json::Number(Some(1700), Some(1700)))])),
                ]),
            ),
        ]),
    )]);
    let m = parse_signal_message(&doc, 5).unwrap();
    assert_eq!(m.id, "1709999999000");
    assert_eq!(m.sender, "Alice");
    assert_eq!(m.content, "hello from signal");
    assert_eq!(m.timestamp, 1709999999);
    assert_eq!(m.channel.as_deref(), Some("group-123"));
    assert_eq!(m.reply_to.as_deref(), Some("1700"));
    assert!(!m.is_direct);
}

#[test]
fn signal_sync_message_and_fallbacks() {
    let doc = obj(vec![(
        "syncMessage",
        obj(vec![("sentMessage", obj(vec![("message", s("note to self"))]))]),
    )]);
    let m = parse_signal_message(&doc, 1234).unwrap();
    assert_eq!(m.id, "1234");
    assert_eq!(m.sender, "unknown");
    assert_eq!(m.timestamp, 0);
    assert!(m.is_direct);
    let receipt = obj(vec![("envelope", obj(vec![("receiptMessage", obj(vec![]))]))]);
    assert!(parse_signal_message(&receipt, 0).is_none());
    let ms = parse_signal_messages(&vec![receipt, doc], 9);
    assert_eq!(ms.len(), 1);
    assert_eq!(ms[0].content, "note to self");
}

#[test]
fn signal_output_lines_are_trimmed_and_non_empty() {
    assert_eq!(output_lines_of(" {\"a\":1} \r\n\n  \n{\"b\":2}"), vec!["{\"a\":1}", "{\"b\":2}"]);
    assert!(output_lines_of("").is_empty());
}

#[test]
fn receive_all_appends_successes_and_skips_failures() {
    let m = |id: &str| Message::plain(id.to_string(), "s".to_string(), "c".to_string(), 0, None, false, MessageType::Text);
    let results: Vec<Result<Vec<Message>, String>> =
        vec![Ok(vec![m("a"), m("b")]), Err("down".to_string()), Ok(vec![]), Ok(vec![m("c")])];
    let all = gather_received(results);
    let ids: Vec<&str> = all.iter().map(|x| x.id.as_str()).collect();
    assert_eq!(ids, vec!["a", "b", "c"]);
}
