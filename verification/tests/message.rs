use chat_system::{MediaAttachment, Message, MessageType, Reaction, SendOptions};

fn message(id: &str, sender: &str, content: &str, timestamp: i64) -> Message {
    Message {
        id: id.to_string(),
        sender: sender.to_string(),
        content: content.to_string(),
        timestamp,
        channel: None,
        reply_to: None,
        thread_id: None,
        media: None,
        is_direct: false,
        message_type: MessageType::Text,
        edited_timestamp: None,
        reactions: None,
    }
}

#[test]
fn message_creation() {
    let msg = Message { channel: Some("#general".to_string()), ..message("123", "alice", "Hello", 1_000_000) };
    assert_eq!(msg.id, "123");
    assert_eq!(msg.sender, "alice");
    assert_eq!(msg.content, "Hello");
    assert_eq!(msg.timestamp, 1_000_000);
    assert_eq!(msg.channel, Some("#general".to_string()));
    assert!(msg.reply_to.is_none());
    assert!(msg.media.is_none());
    assert!(!msg.is_direct);
}

#[test]
fn message_clone() {
    let msg = message("1", "alice", "hi", 1000);
    let cloned = msg.clone();
    assert_eq!(msg.id, cloned.id);
    assert_eq!(msg.sender, cloned.sender);
    assert_eq!(msg.content, cloned.content);
    assert_eq!(msg.timestamp, cloned.timestamp);
}

#[test]
fn message_with_media() {
    let msg = Message {
        channel: Some("#media".to_string()),
        media: Some(vec![MediaAttachment {
            url: Some("https://example.com/file.pdf".to_string()),
            path: None,
            mime_type: Some("application/pdf".to_string()),
            filename: Some("file.pdf".to_string()),
            size: None,
        }]),
        ..message("789", "charlie", "See attached", 3000)
    };
    let media = msg.media.as_ref().unwrap();
    assert_eq!(media.len(), 1);
    assert_eq!(media[0].filename, Some("file.pdf".to_string()));
    assert_eq!(media[0].mime_type, Some("application/pdf".to_string()));
}

#[test]
fn media_attachment_creation() {
    let a = MediaAttachment {
        url: Some("https://example.com/img.png".to_string()),
        path: Some("/tmp/img.png".to_string()),
        mime_type: Some("image/png".to_string()),
        filename: Some("img.png".to_string()),
        size: None,
    };
    assert_eq!(a.url, Some("https://example.com/img.png".to_string()));
    assert_eq!(a.path, Some("/tmp/img.png".to_string()));
    assert_eq!(a.mime_type, Some("image/png".to_string()));
    assert_eq!(a.filename, Some("img.png".to_string()));
}

#[test]
fn media_attachment_all_optional_fields() {
    let a = MediaAttachment { url: None, path: None, mime_type: None, filename: None, size: None };
    assert!(a.url.is_none());
    assert!(a.path.is_none());
    assert!(a.mime_type.is_none());
    assert!(a.filename.is_none());
}

#[test]
fn send_options_default() {
    let opts = SendOptions { recipient: "alice", content: "hello", ..Default::default() };
    assert_eq!(opts.recipient, "alice");
    assert_eq!(opts.content, "hello");
    assert!(opts.reply_to.is_none());
    assert!(!opts.silent);
    assert!(opts.media.is_none());
}

#[test]
fn send_options_full() {
    let opts = SendOptions {
        recipient: "#channel",
        content: "Hello channel!",
        reply_to: Some("123"),
        thread_id: None,
        silent: true,
        media: Some("https://example.com/img.png"),
    };
    assert_eq!(opts.recipient, "#channel");
    assert_eq!(opts.content, "Hello channel!");
    assert_eq!(opts.reply_to, Some("123"));
    assert!(opts.silent);
    assert_eq!(opts.media, Some("https://example.com/img.png"));
}

#[test]
fn message_is_direct_flag() {
    let dm = Message { is_direct: true, ..message("d1", "dave", "private", 4000) };
    assert!(dm.is_direct);
}

#[test]
fn reaction_creation_and_clone() {
    let r = Reaction {
        emoji: "👍".to_string(),
        count: 3,
        user_ids: vec!["alice".to_string(), "bob".to_string(), "carol".to_string()],
    };
    let r2 = r.clone();
    assert_eq!(r.emoji, r2.emoji);
    assert_eq!(r.count, r2.count);
    assert_eq!(r.user_ids, r2.user_ids);
}

#[test]
fn message_with_reactions() {
    let msg = Message {
        channel: Some("#general".to_string()),
        reactions: Some(vec![
            Reaction { emoji: "👍".to_string(), count: 2, user_ids: vec![] },
            Reaction { emoji: "🎉".to_string(), count: 1, user_ids: vec!["bob".to_string()] },
        ]),
        ..message("r1", "alice", "Great idea!", 5000)
    };
    let reactions = msg.reactions.as_ref().unwrap();
    assert_eq!(reactions.len(), 2);
    assert_eq!(reactions[0].emoji, "👍");
    assert_eq!(reactions[0].count, 2);
    assert_eq!(reactions[1].emoji, "🎉");
    assert_eq!(reactions[1].user_ids, vec!["bob".to_string()]);
}
