use chat_system::{RichText, RichTextNode};

fn bold_hi() -> RichText {
    RichText(vec![RichTextNode::Bold(vec![RichTextNode::Plain("hi".into())])])
}

#[test]
fn rich_text_plain_text_strips_formatting() {
    let rt = RichText(vec![
        RichTextNode::Bold(vec![RichTextNode::Plain("hello".into())]),
        RichTextNode::Plain(" world".into()),
    ]);
    assert_eq!(rt.to_plain_text(), "hello world");
}

#[test]
fn discord_bold_renders_stars() {
    assert!(bold_hi().to_discord_markdown().contains("**hi**"));
}

#[test]
fn matrix_bold_renders_b_tag() {
    assert!(bold_hi().to_matrix_html().contains("<b>hi</b>"));
}

#[test]
fn rich_text_irc_bold_uses_control_char() {
    let s = bold_hi().to_irc_formatted();
    assert!(s.contains('\x02'));
}

#[test]
fn whatsapp_bold_uses_stars() {
    assert!(bold_hi().to_whatsapp_formatted().contains("*hi*"));
}

#[test]
fn from_markdown_parses_bold() {
    let rt = RichText::from_markdown("**bold text**");
    assert!(rt.0.iter().any(|n| matches!(n, RichTextNode::Bold(_))));
}

#[test]
fn display_gives_plain_text() {
    let rt = RichText(vec![RichTextNode::Plain("hello".into())]);
    assert_eq!(rt.to_string(), "hello");
}

#[test]
fn code_block_roundtrip() {
    let rt = RichText(vec![RichTextNode::CodeBlock {
        language: Some("rust".into()),
        code: "let x = 1;".into(),
    }]);
    let md = rt.to_markdown();
    assert!(md.contains("```rust"));
    assert!(md.contains("let x = 1;"));
}

#[test]
fn underline_renders_html_in_markdown() {
    let rt = RichText(vec![RichTextNode::Underline(vec![RichTextNode::Plain("hi".into())])]);
    assert!(rt.to_markdown().contains("<u>hi</u>"));
}

#[test]
fn underline_renders_discord_double_underscore() {
    let rt = RichText(vec![RichTextNode::Underline(vec![RichTextNode::Plain("hi".into())])]);
    assert!(rt.to_discord_markdown().contains("__hi__"));
}

#[test]
fn underline_renders_irc_control_char() {
    let rt = RichText(vec![RichTextNode::Underline(vec![RichTextNode::Plain("hi".into())])]);
    let s = rt.to_irc_formatted();
    assert!(s.contains('\x1F'));
}

#[test]
fn underline_renders_matrix_u_tag() {
    let rt = RichText(vec![RichTextNode::Underline(vec![RichTextNode::Plain("hi".into())])]);
    assert!(rt.to_matrix_html().contains("<u>hi</u>"));
}

#[test]
fn spoiler_renders_discord_pipes() {
    let rt = RichText(vec![RichTextNode::Spoiler(vec![RichTextNode::Plain("secret".into())])]);
    assert!(rt.to_discord_markdown().contains("||secret||"));
}

#[test]
fn spoiler_renders_matrix_span() {
    let rt = RichText(vec![RichTextNode::Spoiler(vec![RichTextNode::Plain("secret".into())])]);
    assert!(rt.to_matrix_html().contains("<span data-mx-spoiler>secret</span>"));
}

#[test]
fn blockquote_renders_markdown() {
    let rt = RichText(vec![RichTextNode::Blockquote(vec![RichTextNode::Plain(
        "quoted text".into(),
    )])]);
    assert_eq!(rt.to_markdown(), "> quoted text");
}

#[test]
fn blockquote_renders_matrix_tag() {
    let rt = RichText(vec![RichTextNode::Blockquote(vec![RichTextNode::Plain("quoted".into())])]);
    assert!(rt.to_matrix_html().contains("<blockquote>quoted</blockquote>"));
}

#[test]
fn heading_renders_markdown() {
    let rt = RichText(vec![RichTextNode::Heading {
        level: 2,
        children: vec![RichTextNode::Plain("Title".into())],
    }]);
    assert_eq!(rt.to_markdown(), "## Title");
}

#[test]
fn heading_renders_matrix_html() {
    let rt = RichText(vec![RichTextNode::Heading {
        level: 3,
        children: vec![RichTextNode::Plain("Title".into())],
    }]);
    assert!(rt.to_matrix_html().contains("<h3>Title</h3>"));
}

#[test]
fn heading_renders_irc_as_bold() {
    let rt = RichText(vec![RichTextNode::Heading {
        level: 1,
        children: vec![RichTextNode::Plain("Title".into())],
    }]);
    let s = rt.to_irc_formatted();
    assert!(s.contains('\x02'));
    assert!(s.contains("Title"));
}

#[test]
fn from_markdown_parses_blockquote() {
    let rt = RichText::from_markdown("> quoted text");
    assert!(rt.0.iter().any(|n| matches!(n, RichTextNode::Blockquote(_))));
}

#[test]
fn from_markdown_parses_heading() {
    let rt = RichText::from_markdown("## Hello");
    assert!(rt.0.iter().any(|n| matches!(n, RichTextNode::Heading { level: 2, .. })));
}

#[test]
fn discord_bold() {
    assert!(bold_hi().to_discord_markdown().contains("**hi**"));
}

#[test]
fn matrix_html_bold() {
    assert!(bold_hi().to_matrix_html().contains("<b>hi</b>"));
}

#[test]
fn whatsapp_bold() {
    assert!(bold_hi().to_whatsapp_formatted().contains("*hi*"));
}

#[test]
fn from_markdown_bold() {
    let rt = RichText::from_markdown("**bold text**");
    assert!(rt.0.iter().any(|n| matches!(n, RichTextNode::Bold(_))));
}

#[test]
fn discord_link() {
    let rt = RichText(vec![RichTextNode::Link {
        url: "https://example.com".into(),
        text: vec![RichTextNode::Plain("click".into())],
    }]);
    assert!(rt.to_discord_markdown().contains("[click](https://example.com)"));
}

#[test]
fn slack_link() {
    let rt = RichText(vec![RichTextNode::Link {
        url: "https://example.com".into(),
        text: vec![RichTextNode::Plain("click".into())],
    }]);
    assert!(rt.to_slack_mrkdwn().contains("<https://example.com|click>"));
}

#[test]
fn matrix_link() {
    let rt = RichText(vec![RichTextNode::Link {
        url: "https://example.com".into(),
        text: vec![RichTextNode::Plain("click".into())],
    }]);
    assert!(rt.to_matrix_html().contains(r#"href="https://example.com""#));
}

#[test]
fn from_plain_round_trips_through_plain_text_and_markdown() {
    let rt = RichText::from_plain("just *some* text");
    assert_eq!(rt.to_plain_text(), "just *some* text");
    assert_eq!(rt.to_markdown(), "just *some* text");
}

#[test]
fn matrix_html_escapes_plain_text() {
    let rt = RichText::from_plain("a < b & c");
    assert_eq!(rt.to_matrix_html(), "a &lt; b &amp; c");
}

#[test]
fn telegram_html_goes_through_markdown() {
    let rt = RichText(vec![RichTextNode::Bold(vec![RichTextNode::Plain("x & y".into())])]);
    assert_eq!(rt.to_telegram_html(), "<b>x &amp; y</b>");
}

#[test]
fn whatsapp_strikethrough_and_italic() {
    let rt = RichText(vec![
        RichTextNode::Strikethrough(vec![RichTextNode::Plain("a".into())]),
        RichTextNode::Italic(vec![RichTextNode::Plain("b".into())]),
    ]);
    assert_eq!(rt.to_whatsapp_formatted(), "~a~_b_");
}

#[test]
fn heading_level_is_capped_at_six_in_markdown() {
    let rt = RichText(vec![RichTextNode::Heading {
        level: 9,
        children: vec![RichTextNode::Plain("T".into())],
    }]);
    assert_eq!(rt.to_markdown(), "###### T");
}

#[test]
fn readme_rich_text_renderings() {
    let msg = RichText(vec![
        RichTextNode::Bold(vec![RichTextNode::Plain("Hello".into())]),
        RichTextNode::Plain(", world! ".into()),
        RichTextNode::Link {
            url: "https://example.com".into(),
            text: vec![RichTextNode::Plain("click".into())],
        },
    ]);
    assert_eq!(msg.to_discord_markdown(), "**Hello**, world! [click](https://example.com)");
    assert_eq!(msg.to_telegram_html(), "<b>Hello</b>, world! <a href=\"https://example.com\">click</a>");
    assert_eq!(msg.to_slack_mrkdwn(), "*Hello*, world! <https://example.com|click>");
    assert_eq!(msg.to_irc_formatted(), "\x02Hello\x0F, world! click [https://example.com]");
    assert_eq!(msg.to_whatsapp_formatted(), "*Hello*, world! click (https://example.com)");
    assert_eq!(msg.to_matrix_html(), "<b>Hello</b>, world! <a href=\"https://example.com\">click</a>");
}

#[test]
fn discord_underline_and_spoiler_inside_other_formatting() {
    let rt = RichText(vec![RichTextNode::Bold(vec![RichTextNode::Underline(vec![
        RichTextNode::Plain("x".into()),
    ])])]);
    assert_eq!(rt.to_discord_markdown(), "**__x__**");
    let rt = RichText(vec![RichTextNode::Italic(vec![RichTextNode::Spoiler(vec![
        RichTextNode::Plain("s".into()),
    ])])]);
    assert_eq!(rt.to_discord_markdown(), "*||s||*");
    let rt = RichText(vec![RichTextNode::Blockquote(vec![RichTextNode::Underline(vec![
        RichTextNode::Plain("q".into()),
    ])])]);
    assert_eq!(rt.to_discord_markdown(), "> __q__");
}

#[test]
fn rendering_a_concatenation_concatenates_the_renderings() {
    let a = || vec![
        RichTextNode::Bold(vec![RichTextNode::Plain("a".into())]),
        RichTextNode::Plain(" & ".into()),
    ];
    let b = || vec![
        RichTextNode::Underline(vec![RichTextNode::Plain("b".into())]),
        RichTextNode::Link { url: "https://x.y".into(), text: vec![RichTextNode::Plain("l".into())] },
    ];
    let mut ab = a();
    ab.extend(b());
    let (a, b) = (a(), b());
    let (ra, rb, rab) = (RichText(a), RichText(b), RichText(ab));
    assert_eq!(rab.to_plain_text(), ra.to_plain_text() + &rb.to_plain_text());
    assert_eq!(rab.to_markdown(), ra.to_markdown() + &rb.to_markdown());
    assert_eq!(rab.to_discord_markdown(), ra.to_discord_markdown() + &rb.to_discord_markdown());
    assert_eq!(rab.to_matrix_html(), ra.to_matrix_html() + &rb.to_matrix_html());
    assert_eq!(rab.to_irc_formatted(), ra.to_irc_formatted() + &rb.to_irc_formatted());
    assert_eq!(rab.to_whatsapp_formatted(), ra.to_whatsapp_formatted() + &rb.to_whatsapp_formatted());
    assert_eq!(rab.to_discord_markdown(), "**a** & __b__[l](https://x.y)");
}

#[test]
fn cloned_nodes_render_the_same() {
    let n = RichTextNode::Link {
        url: "https://x.y".into(),
        text: vec![RichTextNode::Bold(vec![RichTextNode::Plain("b".into())])],
    };
    let a = RichText(vec![n.clone()]);
    let b = RichText(vec![n]);
    assert_eq!(a.to_markdown(), b.to_markdown());
    assert_eq!(a.to_markdown(), "[**b**](https://x.y)");
}
