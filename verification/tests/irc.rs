use chat_system::message::MessageType;
use chat_system::messengers::irc::{
    action_id, action_line, client_event_for, ctcp_reply_line, handle_ctcp_request, irc_message,
    ping_request_line, privmsg_line, sent_id, version_request_line, CtcpReply, IrcEvent,
    IrcSettings, Registration,
};
use chat_system::servers::irc::{delivery_message, IrcServerSession};

#[test]
fn settings_builders_and_lines() {
    let s = IrcSettings::new("bot".into(), "irc.example.org".into(), 6697, "nick".into())
        .with_channels(vec!["#a".into(), "#b".into()])
        .with_password("pw".into())
        .with_tls(true)
        .with_nick_retries(1)
        .with_ctcp_replies(false)
        .with_ctcp_version("v2".into());
    assert_eq!(s.address(), "irc.example.org:6697");
    assert_eq!(s.registration_lines(), vec!["PASS pw", "NICK nick", "USER nick 0 * :nick"]);
    assert_eq!(s.join_lines(), vec!["JOIN #a", "JOIN #b"]);
    assert!(s.use_tls);
    assert_eq!(s.nick_retries, 1);
    assert!(!s.ctcp_replies);
    assert_eq!(s.ctcp_version, "v2");
    let d = IrcSettings::new("bot".into(), "h".into(), 6667, "n".into());
    assert_eq!(d.registration_lines(), vec!["NICK n", "USER n 0 * :n"]);
    assert_eq!(d.nick_retries, 3);
    assert!(d.ctcp_replies);
}

#[test]
fn outgoing_lines() {
    assert_eq!(privmsg_line("#rust", "hi there"), "PRIVMSG #rust :hi there");
    assert_eq!(sent_id("#rust", "hi"), "irc:#rust:hi");
    assert_eq!(action_line("#rust", "waves"), "PRIVMSG #rust :\x01ACTION waves\x01");
    assert_eq!(action_id("#rust", "waves"), "irc:#rust:ACTION waves");
    assert_eq!(version_request_line("bob"), "PRIVMSG bob :\x01VERSION\x01");
    assert_eq!(ping_request_line("bob", 123), "PRIVMSG bob :\x01PING 123\x01");
    assert_eq!(ctcp_reply_line("bob", "PING", ""), "NOTICE bob :\x01PING\x01");
    assert_eq!(ctcp_reply_line("bob", "VERSION", "x 1"), "NOTICE bob :\x01VERSION x 1\x01");
}

#[test]
fn registration_handles_collisions_and_pings() {
    let mut r = Registration::new("bot".into());
    let (done, out) = r.on_line(":srv 433 * bot :Nickname is already in use\r\n", 2);
    assert!(!done);
    assert_eq!(out, vec!["NICK bot_"]);
    let (_, out) = r.on_line(":srv 433 * bot_ :in use", 2);
    assert_eq!(out, vec!["NICK bot__"]);
    let (_, out) = r.on_line(":srv 433 * bot__ :in use", 2);
    assert!(out.is_empty());
    assert_eq!(r.attempts, 2);
    assert_eq!(r.nick, "bot__");
    let (_, out) = r.on_line("PING :token123", 2);
    assert_eq!(out, vec!["PONG :token123"]);
    let (done, out) = r.on_line(":srv 001 bot__ :Welcome", 2);
    assert!(done);
    assert!(out.is_empty());
}

#[test]
fn client_reads_privmsg_notice_action_and_ctcp() {
    match client_event_for(":alice!a@host PRIVMSG #rust :hello world\r\n") {
        IrcEvent::Incoming { sender, channel, content, kind, is_direct } => {
            assert_eq!(sender, "alice");
            assert_eq!(channel, "#rust");
            assert_eq!(content, "hello world");
            assert_eq!(kind, MessageType::Text);
            assert!(!is_direct);
        }
        other => panic!("unexpected {:?}", other),
    }
    match client_event_for(":bob!b@h PRIVMSG me :\x01ACTION waves\x01") {
        IrcEvent::Incoming { content, kind, is_direct, .. } => {
            assert_eq!(content, "waves");
            assert_eq!(kind, MessageType::Action);
            assert!(is_direct);
        }
        other => panic!("unexpected {:?}", other),
    }
    match client_event_for(":bob!b@h PRIVMSG me :\x01VERSION\x01") {
        IrcEvent::CtcpRequest { sender, content } => {
            assert_eq!(sender, "bob");
            assert_eq!(content, "\x01VERSION\x01");
        }
        other => panic!("unexpected {:?}", other),
    }
    match client_event_for(":server NOTICE #c :maintenance") {
        IrcEvent::Incoming { kind, is_direct, sender, .. } => {
            assert_eq!(kind, MessageType::System);
            assert!(!is_direct);
            assert_eq!(sender, "server");
        }
        other => panic!("unexpected {:?}", other),
    }
    assert!(matches!(client_event_for(":x NOTICE me :\x01PING 1\x01"), IrcEvent::Ignore));
    assert!(matches!(client_event_for(":x JOIN #c"), IrcEvent::Ignore));
    assert!(matches!(client_event_for(":x MODE #c +o y"), IrcEvent::Ignore));
    match client_event_for("PING :abc") {
        IrcEvent::Pong(l) => assert_eq!(l, "PONG :abc"),
        other => panic!("unexpected {:?}", other),
    }
}

#[test]
fn ctcp_requests() {
    assert!(matches!(handle_ctcp_request(true, "\x01VERSION\x01"), (true, Some(CtcpReply::Version))));
    match handle_ctcp_request(true, "\x01PING 12345\x01") {
        (true, Some(CtcpReply::Ping(a))) => assert_eq!(a, "12345"),
        other => panic!("unexpected {:?}", other),
    }
    assert!(matches!(handle_ctcp_request(true, "\x01TIME\x01"), (true, Some(CtcpReply::Time))));
    assert!(matches!(handle_ctcp_request(true, "\x01ACTION x\x01"), (false, None)));
    assert!(matches!(handle_ctcp_request(true, "\x01FINGER\x01"), (true, None)));
    assert!(matches!(handle_ctcp_request(true, "\x01\x01"), (false, None)));
    assert!(matches!(handle_ctcp_request(false, "\x01VERSION\x01"), (true, None)));
    assert!(matches!(handle_ctcp_request(false, "plain"), (false, None)));
}

#[test]
fn irc_message_fields() {
    let m = irc_message("a".into(), "#c".into(), "x".into(), MessageType::Text, false, 1000, 1);
    assert_eq!(m.id, "irc-1000");
    assert_eq!(m.timestamp, 1);
    assert_eq!(m.channel.as_deref(), Some("#c"));
}

#[test]
fn server_registers_once_and_welcomes() {
    let mut s = IrcServerSession::new("localhost".into());
    let step = s.step("NICK alice\r\n");
    assert!(step.welcome.is_empty());
    let step = s.step("USER alice 0 * :Alice");
    assert_eq!(step.welcome.len(), 4);
    assert_eq!(step.welcome[0], ":localhost 001 alice :Welcome to the Internet Relay Network alice\r\n");
    assert_eq!(step.welcome[3], ":localhost 004 alice localhost chat-system o o\r\n");
    assert!(s.is_registered());
    let step = s.step("USER alice 0 * :Alice");
    assert!(step.welcome.is_empty());
}

#[test]
fn server_handles_commands() {
    let mut s = IrcServerSession::new("srv".into());
    s.step("NICK bob");
    let step = s.step("PING :xyz");
    assert_eq!(step.out, vec!["PONG :xyz\r\n"]);
    let step = s.step("JOIN :#rust");
    assert_eq!(step.out, vec![":bob!bob@srv JOIN #rust\r\n"]);
    let step = s.step("PRIVMSG #rust :hello there");
    let d = step.delivery.unwrap();
    assert_eq!(d.target, "#rust");
    assert_eq!(d.content, "hello there");
    assert_eq!(d.sender, "bob");
    assert!(d.wants_reply);
    let m = delivery_message(d, 5, 6);
    assert!(!m.is_direct);
    assert_eq!(m.message_type, MessageType::Text);
    let step = s.step("PRIVMSG alice :\x01ACTION dances\x01");
    let d = step.delivery.unwrap();
    assert_eq!(d.kind, MessageType::Action);
    assert_eq!(d.content, "dances");
    let step = s.step("PRIVMSG alice :\x01VERSION\x01");
    assert!(step.delivery.is_none());
    let step = s.step("NOTICE #rust :fyi");
    let d = step.delivery.unwrap();
    assert_eq!(d.kind, MessageType::System);
    assert!(!d.wants_reply);
    assert!(s.step("QUIT :bye").quit);
    assert!(s.step("QUIT").quit);
    assert!(!s.step("QUITTER").quit);
    assert_eq!(s.reply_line("#rust", "pong"), ":srv!srv@srv PRIVMSG #rust :pong\r\n");
}
