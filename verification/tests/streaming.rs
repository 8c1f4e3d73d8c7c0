use chat_system::streaming::{recommended_strategy, FlushAction, StreamBuffer, StreamConfig, StreamStrategy};


#[test]
fn test_stream_config_defaults() {
    let config = StreamConfig::default();
    assert!(!config.enabled);
    assert_eq!(config.strategy, StreamStrategy::EditInPlace);
    assert_eq!(config.edit_interval_ms, 500);
    assert!(config.show_typing);
}

#[test]
fn test_stream_buffer_edit_in_place() {
    let config = StreamConfig {
        enabled: true,
        strategy: StreamStrategy::EditInPlace,
        edit_interval_ms: 0, // immediate
        ..Default::default()
    };

    let mut buf = StreamBuffer::new(config);
    buf.push("Hello ");
    buf.push("world");

    // First flush should be SendNew
    let action = buf.flush().unwrap();
    assert!(matches!(action, FlushAction::SendNew(_)));

    buf.push("!");
    // Subsequent flush should be EditExisting
    let action = buf.flush().unwrap();
    assert!(matches!(action, FlushAction::EditExisting(_)));
}

#[test]
fn test_stream_buffer_chunked() {
    let config = StreamConfig {
        enabled: true,
        strategy: StreamStrategy::Chunked,
        edit_interval_ms: 0,
        chunk_min_chars: 5,
        ..Default::default()
    };

    let mut buf = StreamBuffer::new(config);
    buf.push("Hello");

    let action = buf.flush().unwrap();
    assert!(matches!(action, FlushAction::SendNew(ref s) if s == "Hello"));

    // Buffer should be cleared after chunked flush
    assert_eq!(buf.content_len(), 0);
}

#[test]
fn test_stream_buffer_buffer_all() {
    let config = StreamConfig {
        enabled: true,
        strategy: StreamStrategy::BufferAll,
        ..Default::default()
    };

    let mut buf = StreamBuffer::new(config);
    buf.push("Hello ");
    buf.push("world");

    // Should not flush until done
    assert!(!buf.should_flush());

    buf.finish();
    assert!(buf.should_flush());

    let action = buf.flush().unwrap();
    assert!(matches!(action, FlushAction::SendNew(ref s) if s == "Hello world"));
}

#[test]
fn test_stream_buffer_cursor() {
    let config = StreamConfig {
        enabled: true,
        strategy: StreamStrategy::EditInPlace,
        edit_interval_ms: 0,
        streaming_cursor: " ▌".to_string(),
        ..Default::default()
    };

    let mut buf = StreamBuffer::new(config);
    buf.push("typing...");

    let action = buf.flush().unwrap();
    if let FlushAction::SendNew(text) = action {
        assert!(text.ends_with(" ▌"));
    }

    buf.finish();
    buf.push(""); // trigger final state
    let action = buf.flush().unwrap();
    if let FlushAction::EditExisting(text) = action {
        assert!(!text.ends_with(" ▌"));
    }
}

#[test]
fn test_split_content() {
    let config = StreamConfig {
        max_message_len: 10,
        ..Default::default()
    };

    let mut buf = StreamBuffer::new(config);
    buf.push("Hello world, this is a test");

    let chunks = buf.split_content();
    assert!(chunks.len() > 1);
    for chunk in &chunks {
        assert!(chunk.len() <= 10 || !chunk.contains(' '));
    }
}

#[test]
fn test_recommended_strategy() {
    assert_eq!(
        recommended_strategy("telegram"),
        StreamStrategy::EditInPlace
    );
    assert_eq!(recommended_strategy("irc"), StreamStrategy::Chunked);
    assert_eq!(recommended_strategy("imessage"), StreamStrategy::BufferAll);
    assert_eq!(recommended_strategy("unknown"), StreamStrategy::BufferAll);
}

#[test]
fn chunked_flush_clears_the_buffer_and_sends_everything() {
    let config = StreamConfig {
        strategy: StreamStrategy::Chunked,
        edit_interval_ms: 0,
        chunk_min_chars: 3,
        ..Default::default()
    };
    let mut buf = StreamBuffer::new(config);
    buf.push("abc");
    buf.push("def");
    assert!(buf.should_flush_after(0));
    match buf.flush() {
        Some(FlushAction::SendNew(s)) => assert_eq!(s, "abcdef"),
        other => panic!("unexpected {:?}", other),
    }
    assert_eq!(buf.content_len(), 0);
    assert!(buf.flush().is_none());
}

#[test]
fn should_flush_after_respects_interval() {
    let config = StreamConfig {
        strategy: StreamStrategy::EditInPlace,
        edit_interval_ms: 500,
        ..Default::default()
    };
    let mut buf = StreamBuffer::new(config);
    buf.push("x");
    assert!(!buf.should_flush_after(499));
    assert!(buf.should_flush_after(500));
}

#[test]
fn chunked_needs_minimum_bytes() {
    let config = StreamConfig {
        strategy: StreamStrategy::Chunked,
        edit_interval_ms: 0,
        chunk_min_chars: 4,
        ..Default::default()
    };
    let mut buf = StreamBuffer::new(config);
    buf.push("é");
    assert_eq!(buf.content_len(), 2);
    assert!(!buf.should_flush_after(10));
    buf.push("é");
    assert!(buf.should_flush_after(10));
}

#[test]
fn edit_in_place_appends_cursor_until_done() {
    let config = StreamConfig {
        strategy: StreamStrategy::EditInPlace,
        edit_interval_ms: 0,
        streaming_cursor: "|".to_string(),
        ..Default::default()
    };
    let mut buf = StreamBuffer::new(config);
    buf.push("ab");
    match buf.flush() {
        Some(FlushAction::SendNew(s)) => assert_eq!(s, "ab|"),
        other => panic!("unexpected {:?}", other),
    }
    buf.finish();
    assert!(buf.is_done());
    match buf.flush() {
        Some(FlushAction::EditExisting(s)) => assert_eq!(s, "ab"),
        other => panic!("unexpected {:?}", other),
    }
}

#[test]
fn split_content_prefers_newlines_then_spaces() {
    let config = StreamConfig { max_message_len: 8, ..Default::default() };
    let mut buf = StreamBuffer::new(config);
    buf.push("abc def\nghi jkl mno");
    assert!(buf.needs_split());
    assert_eq!(buf.split_content(), vec!["abc def".to_string(), "ghi jkl".to_string(), "mno".to_string()]);
}

#[test]
fn split_content_short_is_single_chunk() {
    let config = StreamConfig { max_message_len: 100, ..Default::default() };
    let mut buf = StreamBuffer::new(config);
    buf.push("short");
    assert!(!buf.needs_split());
    assert_eq!(buf.split_content(), vec!["short".to_string()]);
}

#[test]
fn recommended_strategy_for_every_platform() {
    assert_eq!(recommended_strategy("discord"), StreamStrategy::EditInPlace);
    assert_eq!(recommended_strategy("slack"), StreamStrategy::EditInPlace);
    assert_eq!(recommended_strategy("webhook"), StreamStrategy::Chunked);
    assert_eq!(recommended_strategy("teams"), StreamStrategy::EditInPlace);
    assert_eq!(recommended_strategy("google_chat"), StreamStrategy::EditInPlace);
}

fn visible_text(s: &str) -> String {
    s.chars().filter(|c| !c.is_ascii_whitespace()).collect()
}

#[test]
fn split_pieces_keep_every_visible_character() {
    let text = "alpha beta gamma\ndelta epsilon zeta eta theta\n\niota kappa";
    let config = StreamConfig { max_message_len: 12, ..StreamConfig::default() };
    let mut buf = StreamBuffer::new(config);
    buf.push(text);
    let pieces = buf.split_content();
    assert!(pieces.len() > 1);
    assert!(pieces.iter().all(|p| p.len() <= 12));
    assert_eq!(visible_text(&pieces.concat()), visible_text(text));
}

#[test]
fn edit_in_place_sequence_shows_everything_pushed() {
    let config = StreamConfig {
        strategy: StreamStrategy::EditInPlace,
        streaming_cursor: "|".to_string(),
        ..StreamConfig::default()
    };
    let mut buf = StreamBuffer::new(config);
    assert!(buf.flush().is_none());
    buf.push("ab");
    assert!(matches!(buf.flush(), Some(FlushAction::SendNew(ref s)) if s == "ab|"));
    assert!(matches!(buf.flush(), Some(FlushAction::EditExisting(ref s)) if s == "ab|"));
    buf.push("c");
    assert!(matches!(buf.flush(), Some(FlushAction::EditExisting(ref s)) if s == "abc|"));
    buf.finish();
    assert!(matches!(buf.flush(), Some(FlushAction::EditExisting(ref s)) if s == "abc"));
    assert_eq!(buf.content_len(), 3);
}

#[test]
fn chunked_sequence_sends_every_pushed_character_once() {
    let config = StreamConfig { strategy: StreamStrategy::Chunked, ..StreamConfig::default() };
    let mut buf = StreamBuffer::new(config);
    let mut sent = String::new();
    assert!(buf.flush().is_none());
    for part in ["one ", "two ", "", "three"] {
        buf.push(part);
        match buf.flush() {
            Some(FlushAction::SendNew(s)) => {
                assert!(!s.is_empty());
                sent.push_str(&s);
            }
            Some(FlushAction::EditExisting(_)) => panic!("chunked mode never edits"),
            None => assert_eq!(buf.content_len(), 0),
        }
    }
    buf.finish();
    assert!(buf.flush().is_none());
    assert_eq!(sent, "one two three");
}
