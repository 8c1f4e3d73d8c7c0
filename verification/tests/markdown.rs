use chat_system::markdown::{escape_html, try_chunk_markdown_html};
use chat_system::{chunk_markdown_html, markdown_to_slack, markdown_to_telegram_html};

#[test]
fn test_escape_html() {
    assert_eq!(escape_html("a & b"), "a &amp; b");
    assert_eq!(escape_html("<tag>"), "&lt;tag&gt;");
}

#[test]
fn test_telegram_bold() {
    let result = markdown_to_telegram_html("**hello**");
    assert_eq!(result, "<b>hello</b>");
}

#[test]
fn test_telegram_italic_star() {
    let result = markdown_to_telegram_html("*hello*");
    assert_eq!(result, "<i>hello</i>");
}

#[test]
fn test_telegram_strike() {
    let result = markdown_to_telegram_html("~~hello~~");
    assert_eq!(result, "<s>hello</s>");
}

#[test]
fn test_telegram_inline_code() {
    let result = markdown_to_telegram_html("`code`");
    assert_eq!(result, "<code>code</code>");
}

#[test]
fn test_telegram_link() {
    let result = markdown_to_telegram_html("[click](https://example.com)");
    assert_eq!(result, "<a href=\"https://example.com\">click</a>");
}

#[test]
fn test_telegram_html_escape() {
    let result = markdown_to_telegram_html("a & b");
    assert!(result.contains("&amp;"));
}

#[test]
fn test_slack_bold() {
    assert_eq!(markdown_to_slack("**hello**"), "*hello*");
}

#[test]
fn test_slack_strike() {
    assert_eq!(markdown_to_slack("~~hello~~"), "~hello~");
}

#[test]
fn test_slack_link() {
    assert_eq!(
        markdown_to_slack("[click](https://example.com)"),
        "<https://example.com|click>"
    );
}

#[test]
fn test_slack_header() {
    assert_eq!(markdown_to_slack("# Hello"), "*Hello*");
}

#[test]
fn test_chunk_small() {
    let chunks = chunk_markdown_html("hello", 100);
    assert_eq!(chunks.len(), 1);
    assert_eq!(chunks[0], "hello");
}

#[test]
fn test_chunk_split() {
    let long_md = "line1\nline2\nline3";
    let chunks = chunk_markdown_html(long_md, 8);
    assert!(chunks.len() > 1);
    for chunk in &chunks {
        assert!(chunk.len() <= 8);
    }
}

#[test]
fn escape_html_covers_all_three_characters() {
    assert_eq!(escape_html("<a href=x>&</a>"), "&lt;a href=x&gt;&amp;&lt;/a&gt;");
    assert_eq!(escape_html(""), "");
    assert_eq!(escape_html("plain"), "plain");
}

#[test]
fn telegram_text_without_markers_is_only_escaped() {
    assert_eq!(markdown_to_telegram_html("1 < 2 & 3 > 2"), "1 &lt; 2 &amp; 3 &gt; 2");
}

#[test]
fn telegram_code_block_keeps_content_escaped() {
    assert_eq!(
        markdown_to_telegram_html("```rust\nlet x = 1 < 2;\n```"),
        "<pre><code class=\"language-rust\">let x = 1 &lt; 2;\n</code></pre>"
    );
}

#[test]
fn telegram_unclosed_bold_stays_literal() {
    assert_eq!(markdown_to_telegram_html("**open"), "**open");
}

#[test]
fn slack_text_without_markers_is_unchanged() {
    assert_eq!(markdown_to_slack("just words, no markup"), "just words, no markup");
}

#[test]
fn slack_header_levels() {
    assert_eq!(markdown_to_slack("### Deep"), "*Deep*");
    assert_eq!(markdown_to_slack("a\n## Mid\nb"), "a\n*Mid*\nb");
}

#[test]
fn chunk_lines_each_fit() {
    let chunks = chunk_markdown_html("aaa\nbbb\nccc", 7);
    assert_eq!(chunks, vec!["aaa\nbbb".to_string(), "ccc".to_string()]);
}

#[test]
fn chunk_long_line_is_cut_at_the_limit() {
    let chunks = chunk_markdown_html("abcdefghij", 4);
    assert_eq!(chunks, vec!["abcd".to_string(), "efgh".to_string(), "ij".to_string()]);
}

#[test]
fn try_chunk_refuses_to_cut_inside_a_character() {
    assert!(try_chunk_markdown_html("\u{e9}", 1).is_none());
    assert_eq!(
        try_chunk_markdown_html("abc", 0),
        Some(vec!["a".to_string(), "b".to_string(), "c".to_string()])
    );
    assert!(try_chunk_markdown_html("abc", 10).is_some());
}

#[test]
fn readme_markdown_conversions() {
    assert_eq!(markdown_to_telegram_html("**bold** and `code`"), "<b>bold</b> and <code>code</code>");
    assert_eq!(markdown_to_slack("**bold** [link](https://x.com)"), "*bold* <https://x.com|link>");
}

#[test]
fn chunks_keep_every_visible_character() {
    let md = "first line of text\nsecond line\n\nthird line that is rather long indeed";
    let html = markdown_to_telegram_html(md);
    let chunks = chunk_markdown_html(md, 16);
    assert!(chunks.len() > 1);
    assert!(chunks.iter().all(|c| c.len() <= 16));
    let without_breaks = |s: &str| s.chars().filter(|c| *c != '\n').collect::<String>();
    assert_eq!(without_breaks(&chunks.concat()), without_breaks(&html));
}

#[test]
fn a_long_line_after_a_short_one_is_split_to_the_limit() {
    let chunks = chunk_markdown_html("a\nbbbbbbbbbb", 5);
    assert_eq!(chunks, vec!["a", "bbbbb", "bbbbb"]);
    assert!(chunks.iter().all(|c| c.len() <= 5));
}
