//! Rich text representation and format conversion.
//!
//! A `RichText` is modelled by a sequence of `RtNode`s (its view); each
//! output format is a function of that model.
use vstd::prelude::*;
use crate::markdown::{markdown_to_slack, markdown_to_telegram_html, slack_mrkdwn, telegram_html};
use crate::text::{
    contains, find, find_in, first_match, lemma_find_is, lemma_find_none, lemma_find_some,
    push_range, push_str, string_of,
};

verus! {

/// A node in a rich text tree.
///
/// Inspired by formatting features across Discord, Telegram, Matrix, Slack,
/// and IRC — this enum covers the union of formatting primitives used by all
/// major chat platforms.
#[derive(Debug)]
pub enum RichTextNode {
    Plain(String),
    Bold(Vec<RichTextNode>),
    Italic(Vec<RichTextNode>),
    Underline(Vec<RichTextNode>),
    Strikethrough(Vec<RichTextNode>),
    /// Spoiler / hidden text (Discord `||text||`, Telegram `<tg-spoiler>`).
    Spoiler(Vec<RichTextNode>),
    Code(String),
    CodeBlock { language: Option<String>, code: String },
    /// Block quote (Markdown `>`, Discord `> text`, Telegram `<blockquote>`).
    Blockquote(Vec<RichTextNode>),
    /// Heading (levels 1–6).
    Heading { level: u8, children: Vec<RichTextNode> },
    Link { url: String, text: Vec<RichTextNode> },
    Mention { id: String, name: String },
    Emoji(String),
    Paragraph(Vec<RichTextNode>),
    ListItem(Vec<RichTextNode>),
}

/// A rich text document as a sequence of nodes.
pub struct RichText(pub Vec<RichTextNode>);

// ---------------------------------------------------------------------------
// Model
// ---------------------------------------------------------------------------

/// The mathematical model of a `RichTextNode`: strings as character
/// sequences, children as sequences of models.
pub ghost enum RtNode {
    Plain(Seq<char>),
    Bold(Seq<RtNode>),
    Italic(Seq<RtNode>),
    Underline(Seq<RtNode>),
    Strikethrough(Seq<RtNode>),
    Spoiler(Seq<RtNode>),
    Code(Seq<char>),
    CodeBlock { language: Option<Seq<char>>, code: Seq<char> },
    Blockquote(Seq<RtNode>),
    Heading { level: u8, children: Seq<RtNode> },
    Link { url: Seq<char>, text: Seq<RtNode> },
    Mention { id: Seq<char>, name: Seq<char> },
    Emoji(Seq<char>),
    Paragraph(Seq<RtNode>),
    ListItem(Seq<RtNode>),
}

/// The model of an optional string.
pub open spec fn opt_view(o: Option<String>) -> Option<Seq<char>> {
    match o {
        Some(s) => Some(s@),
        None => None,
    }
}

/// The model of a node.
pub open spec fn node_view(n: RichTextNode) -> RtNode
    decreases n,
{
    match n {
        RichTextNode::Plain(s) => RtNode::Plain(s@),
        RichTextNode::Bold(c) => RtNode::Bold(seq_view(c@)),
        RichTextNode::Italic(c) => RtNode::Italic(seq_view(c@)),
        RichTextNode::Underline(c) => RtNode::Underline(seq_view(c@)),
        RichTextNode::Strikethrough(c) => RtNode::Strikethrough(seq_view(c@)),
        RichTextNode::Spoiler(c) => RtNode::Spoiler(seq_view(c@)),
        RichTextNode::Code(s) => RtNode::Code(s@),
        RichTextNode::CodeBlock { language, code } => RtNode::CodeBlock {
            language: opt_view(language),
            code: code@,
        },
        RichTextNode::Blockquote(c) => RtNode::Blockquote(seq_view(c@)),
        RichTextNode::Heading { level, children } => RtNode::Heading {
            level,
            children: seq_view(children@),
        },
        RichTextNode::Link { url, text } => RtNode::Link { url: url@, text: seq_view(text@) },
        RichTextNode::Mention { id, name } => RtNode::Mention { id: id@, name: name@ },
        RichTextNode::Emoji(s) => RtNode::Emoji(s@),
        RichTextNode::Paragraph(c) => RtNode::Paragraph(seq_view(c@)),
        RichTextNode::ListItem(c) => RtNode::ListItem(seq_view(c@)),
    }
}

/// The models of a sequence of nodes.
pub open spec fn seq_view(ns: Seq<RichTextNode>) -> Seq<RtNode>
    decreases ns,
{
    if ns.len() == 0 {
        Seq::empty()
    } else {
        seq_view(ns.drop_last()).push(node_view(ns.last()))
    }
}

impl View for RichTextNode {
    type V = RtNode;

    open spec fn view(&self) -> RtNode {
        node_view(*self)
    }
}

impl View for RichText {
    type V = Seq<RtNode>;

    open spec fn view(&self) -> Seq<RtNode> {
        seq_view(self.0@)
    }
}

/// `seq_view` distributes over `push`.
pub proof fn lemma_seq_view_push(ns: Seq<RichTextNode>, n: RichTextNode)
    ensures
        seq_view(ns.push(n)) == seq_view(ns).push(node_view(n)),
{
    assert(ns.push(n).drop_last() =~= ns);
}

/// The length of `seq_view`.
proof fn lemma_seq_view_len(ns: Seq<RichTextNode>)
    ensures
        seq_view(ns).len() == ns.len(),
    decreases ns.len(),
{
    if ns.len() > 0 {
        lemma_seq_view_len(ns.drop_last());
    }
}

// ---------------------------------------------------------------------------
// Copying
// ---------------------------------------------------------------------------

/// A copy of `n`, with the same model.
fn copy_node(n: &RichTextNode) -> (r: RichTextNode)
    ensures
        r@ == n@,
    decreases n, 1int,
{
    match n {
        RichTextNode::Plain(s) => RichTextNode::Plain(s.clone()),
        RichTextNode::Bold(c) => {
            proof {
                assert forall|j: int| 0 <= j < c.len() implies decreases_to!(*n => c@[j]) by {
                    assert(decreases_to!(*n => *c));
                    assert(decreases_to!(*c => c@));
                    assert(decreases_to!(c@ => c@[j]));
                }
            }
            RichTextNode::Bold(copy_children(n, c))
        },
        RichTextNode::Italic(c) => {
            proof {
                assert forall|j: int| 0 <= j < c.len() implies decreases_to!(*n => c@[j]) by {
                    assert(decreases_to!(*n => *c));
                    assert(decreases_to!(*c => c@));
                    assert(decreases_to!(c@ => c@[j]));
                }
            }
            RichTextNode::Italic(copy_children(n, c))
        },
        RichTextNode::Underline(c) => {
            proof {
                assert forall|j: int| 0 <= j < c.len() implies decreases_to!(*n => c@[j]) by {
                    assert(decreases_to!(*n => *c));
                    assert(decreases_to!(*c => c@));
                    assert(decreases_to!(c@ => c@[j]));
                }
            }
            RichTextNode::Underline(copy_children(n, c))
        },
        RichTextNode::Strikethrough(c) => {
            proof {
                assert forall|j: int| 0 <= j < c.len() implies decreases_to!(*n => c@[j]) by {
                    assert(decreases_to!(*n => *c));
                    assert(decreases_to!(*c => c@));
                    assert(decreases_to!(c@ => c@[j]));
                }
            }
            RichTextNode::Strikethrough(copy_children(n, c))
        },
        RichTextNode::Spoiler(c) => {
            proof {
                assert forall|j: int| 0 <= j < c.len() implies decreases_to!(*n => c@[j]) by {
                    assert(decreases_to!(*n => *c));
                    assert(decreases_to!(*c => c@));
                    assert(decreases_to!(c@ => c@[j]));
                }
            }
            RichTextNode::Spoiler(copy_children(n, c))
        },
        RichTextNode::Blockquote(c) => {
            proof {
                assert forall|j: int| 0 <= j < c.len() implies decreases_to!(*n => c@[j]) by {
                    assert(decreases_to!(*n => *c));
                    assert(decreases_to!(*c => c@));
                    assert(decreases_to!(c@ => c@[j]));
                }
            }
            RichTextNode::Blockquote(copy_children(n, c))
        },
        RichTextNode::Paragraph(c) => {
            proof {
                assert forall|j: int| 0 <= j < c.len() implies decreases_to!(*n => c@[j]) by {
                    assert(decreases_to!(*n => *c));
                    assert(decreases_to!(*c => c@));
                    assert(decreases_to!(c@ => c@[j]));
                }
            }
            RichTextNode::Paragraph(copy_children(n, c))
        },
        RichTextNode::ListItem(c) => {
            proof {
                assert forall|j: int| 0 <= j < c.len() implies decreases_to!(*n => c@[j]) by {
                    assert(decreases_to!(*n => *c));
                    assert(decreases_to!(*c => c@));
                    assert(decreases_to!(c@ => c@[j]));
                }
            }
            RichTextNode::ListItem(copy_children(n, c))
        },
        RichTextNode::Code(s) => RichTextNode::Code(s.clone()),
        RichTextNode::CodeBlock { language, code } => {
            let language = match language {
                Some(l) => Some(l.clone()),
                None => None,
            };
            RichTextNode::CodeBlock { language, code: code.clone() }
        },
        RichTextNode::Heading { level, children } => {
            proof {
                assert forall|j: int| 0 <= j < children.len() implies decreases_to!(*n => children@[j]) by {
                    assert(decreases_to!(*n => *children));
                    assert(decreases_to!(*children => children@));
                    assert(decreases_to!(children@ => children@[j]));
                }
            }
            RichTextNode::Heading { level: *level, children: copy_children(n, children) }
        },
        RichTextNode::Link { url, text } => {
            proof {
                assert forall|j: int| 0 <= j < text.len() implies decreases_to!(*n => text@[j]) by {
                    assert(decreases_to!(*n => *text));
                    assert(decreases_to!(*text => text@));
                    assert(decreases_to!(text@ => text@[j]));
                }
            }
            RichTextNode::Link { url: url.clone(), text: copy_children(n, text) }
        },
        RichTextNode::Mention { id, name } => RichTextNode::Mention {
            id: id.clone(),
            name: name.clone(),
        },
        RichTextNode::Emoji(s) => RichTextNode::Emoji(s.clone()),
    }
}

/// A copy of the children `c` of `n`, with the same models.
fn copy_children(n: &RichTextNode, c: &Vec<RichTextNode>) -> (r: Vec<RichTextNode>)
    requires
        forall|j: int| 0 <= j < c.len() ==> decreases_to!(*n => c@[j]),
    ensures
        seq_view(r@) == seq_view(c@),
    decreases n, 0int,
{
    let mut r: Vec<RichTextNode> = Vec::new();
    let mut i: usize = 0;
    while i < c.len()
        invariant
            forall|j: int| 0 <= j < c.len() ==> decreases_to!(*n => c@[j]),
            i <= c.len(),
            seq_view(r@) == seq_view(c@.take(i as int)),
        decreases c.len() - i,
    {
        let x = copy_node(&c[i]);
        proof {
            lemma_seq_view_push(r@, x);
            lemma_seq_view_push(c@.take(i as int), c@[i as int]);
            assert(c@.take(i + 1) =~= c@.take(i as int).push(c@[i as int]));
        }
        r.push(x);
        i += 1;
    }
    assert(c@.take(c.len() as int) =~= c@);
    r
}

impl Clone for RichTextNode {
    /// A copy of the node, with the same model.
    fn clone(&self) -> (r: Self)
        ensures
            r@ == self@,
    {
        copy_node(self)
    }
}

// ---------------------------------------------------------------------------
// Output formats
// ---------------------------------------------------------------------------

/// The text formats a rich text document renders to.
#[derive(Clone, Copy, PartialEq, Eq, Structural)]
pub enum Format {
    /// Text with all formatting removed.
    PlainText,
    /// CommonMark.
    Markdown,
    /// Discord markdown: CommonMark with `__underline__` and `||spoiler||`.
    Discord,
    /// Matrix HTML.
    MatrixHtml,
    /// IRC control codes.
    Irc,
    /// WhatsApp formatting.
    WhatsApp,
}

/// The formatting spans that enclose their children between two markers.
#[derive(Clone, Copy, PartialEq, Eq, Structural)]
pub enum Span {
    Bold,
    Italic,
    Underline,
    Strikethrough,
    Spoiler,
}

/// The opening and closing markers of a span in a format.
pub open spec fn span_tags(f: Format, k: Span) -> (Seq<char>, Seq<char>) {
    match (f, k) {
        (Format::Markdown, Span::Bold) => ("**"@, "**"@),
        (Format::Markdown, Span::Italic) => ("*"@, "*"@),
        (Format::Markdown, Span::Underline) => ("<u>"@, "</u>"@),
        (Format::Markdown, Span::Strikethrough) => ("~~"@, "~~"@),
        (Format::Markdown, Span::Spoiler) => ("||"@, "||"@),
        (Format::Discord, Span::Bold) => ("**"@, "**"@),
        (Format::Discord, Span::Italic) => ("*"@, "*"@),
        (Format::Discord, Span::Underline) => ("__"@, "__"@),
        (Format::Discord, Span::Strikethrough) => ("~~"@, "~~"@),
        (Format::Discord, Span::Spoiler) => ("||"@, "||"@),
        (Format::MatrixHtml, Span::Bold) => ("<b>"@, "</b>"@),
        (Format::MatrixHtml, Span::Italic) => ("<i>"@, "</i>"@),
        (Format::MatrixHtml, Span::Underline) => ("<u>"@, "</u>"@),
        (Format::MatrixHtml, Span::Strikethrough) => ("<del>"@, "</del>"@),
        (Format::MatrixHtml, Span::Spoiler) => ("<span data-mx-spoiler>"@, "</span>"@),
        (Format::Irc, Span::Bold) => ("\x02"@, "\x0F"@),
        (Format::Irc, Span::Italic) => ("\x1D"@, "\x1D"@),
        (Format::Irc, Span::Underline) => ("\x1F"@, "\x1F"@),
        (Format::Irc, Span::Spoiler) => ("[spoiler: "@, "]"@),
        (Format::WhatsApp, Span::Bold) => ("*"@, "*"@),
        (Format::WhatsApp, Span::Italic) => ("_"@, "_"@),
        (Format::WhatsApp, Span::Strikethrough) => ("~"@, "~"@),
        _ => (Seq::empty(), Seq::empty()),
    }
}

/// `s` with `&`, `<`, `>` and `"` replaced by their HTML entities.
pub open spec fn html_escaped(s: Seq<char>) -> Seq<char>
    decreases s.len(),
{
    if s.len() == 0 {
        Seq::empty()
    } else {
        let c = s.last();
        html_escaped(s.drop_last()) + if c == '&' {
            "&amp;"@
        } else if c == '<' {
            "&lt;"@
        } else if c == '>' {
            "&gt;"@
        } else if c == '"' {
            "&quot;"@
        } else {
            seq![c]
        }
    }
}

/// The lines of `s` (as `str::lines` splits them), each preceded by
/// `prefix`, joined by line breaks; `started` tells whether a line break
/// goes before the first one.
pub open spec fn quote_lines(s: Seq<char>, prefix: Seq<char>, started: bool) -> Seq<char>
    decreases s.len(),
{
    if s.len() == 0 {
        Seq::empty()
    } else {
        let sep = if started {
            seq!['\n']
        } else {
            Seq::empty()
        };
        match find(s, seq!['\n']) {
            Some(k) => if 0 <= k < s.len() {
                let line = if k > 0 && s[k - 1] == '\r' {
                    s.take(k - 1)
                } else {
                    s.take(k)
                };
                sep + prefix + line + quote_lines(s.skip(k + 1), prefix, true)
            } else {
                Seq::empty()
            },
            None => sep + prefix + s,
        }
    }
}

/// `n` `#` characters.
pub open spec fn hashes(n: nat) -> Seq<char> {
    Seq::new(n, |i: int| '#')
}

/// The digit of a heading level, capped at 6.
pub open spec fn level_digit(level: u8) -> char {
    if level == 0 {
        '0'
    } else if level == 1 {
        '1'
    } else if level == 2 {
        '2'
    } else if level == 3 {
        '3'
    } else if level == 4 {
        '4'
    } else if level == 5 {
        '5'
    } else {
        '6'
    }
}

/// A heading level capped at 6.
pub open spec fn capped(level: u8) -> nat {
    if level < 6 {
        level as nat
    } else {
        6
    }
}

/// A node rendered in format `f`.
pub open spec fn node_out(f: Format, n: RtNode) -> Seq<char>
    decreases n,
{
    match n {
        RtNode::Plain(s) => if f == Format::MatrixHtml {
            html_escaped(s)
        } else {
            s
        },
        RtNode::Bold(c) => span_tags(f, Span::Bold).0 + seq_out(f, c) + span_tags(f, Span::Bold).1,
        RtNode::Italic(c) => span_tags(f, Span::Italic).0 + seq_out(f, c) + span_tags(
            f,
            Span::Italic,
        ).1,
        RtNode::Underline(c) => span_tags(f, Span::Underline).0 + seq_out(f, c) + span_tags(
            f,
            Span::Underline,
        ).1,
        RtNode::Strikethrough(c) => span_tags(f, Span::Strikethrough).0 + seq_out(f, c)
            + span_tags(f, Span::Strikethrough).1,
        RtNode::Spoiler(c) => span_tags(f, Span::Spoiler).0 + seq_out(f, c) + span_tags(
            f,
            Span::Spoiler,
        ).1,
        RtNode::Code(s) => match f {
            Format::PlainText => s,
            Format::MatrixHtml => "<code>"@ + html_escaped(s) + "</code>"@,
            _ => "`"@ + s + "`"@,
        },
        RtNode::CodeBlock { language, code } => match f {
            Format::Markdown | Format::Discord => match language {
                Some(lang) => "```"@ + lang + "\n"@ + code + "\n```"@,
                None => "```\n"@ + code + "\n```"@,
            },
            Format::MatrixHtml => match language {
                Some(lang) => "<pre><code class=\"language-"@ + lang + "\">"@ + html_escaped(code)
                    + "</code></pre>"@,
                None => "<pre>"@ + html_escaped(code) + "</pre>"@,
            },
            Format::WhatsApp => "```"@ + code + "```"@,
            _ => code,
        },
        RtNode::Blockquote(c) => match f {
            Format::Markdown | Format::Discord => quote_lines(seq_out(f, c), "> "@, false),
            Format::MatrixHtml => "<blockquote>"@ + seq_out(f, c) + "</blockquote>"@,
            Format::Irc => quote_lines(seq_out(f, c), "| "@, false),
            Format::WhatsApp => quote_lines(seq_out(f, c), "> "@, false),
            Format::PlainText => seq_out(f, c),
        },
        RtNode::Heading { level, children } => match f {
            Format::Markdown | Format::Discord => hashes(capped(level)) + " "@ + seq_out(
                f,
                children,
            ),
            Format::MatrixHtml => seq!['<', 'h', level_digit(level), '>'] + seq_out(f, children)
                + seq!['<', '/', 'h', level_digit(level), '>'],
            Format::Irc => "\x02"@ + seq_out(f, children) + "\x02"@,
            Format::WhatsApp => "*"@ + seq_out(f, children) + "*"@,
            Format::PlainText => seq_out(f, children),
        },
        RtNode::Link { url, text } => match f {
            Format::Markdown | Format::Discord => "["@ + seq_out(f, text) + "]("@ + url + ")"@,
            Format::MatrixHtml => "<a href=\""@ + html_escaped(url) + "\">"@ + seq_out(f, text)
                + "</a>"@,
            Format::PlainText => seq_out(f, text),
            Format::Irc => seq_out(f, text) + " ["@ + url + "]"@,
            _ => seq_out(f, text) + " ("@ + url + ")"@,
        },
        RtNode::Mention { id, name } => if f == Format::MatrixHtml {
            "@"@ + html_escaped(name)
        } else {
            "@"@ + name
        },
        RtNode::Emoji(e) => if f == Format::MatrixHtml {
            html_escaped(e)
        } else {
            e
        },
        RtNode::Paragraph(c) => seq_out(f, c),
        RtNode::ListItem(c) => seq_out(f, c),
    }
}

/// A sequence of nodes rendered in format `f`, one after another.
pub open spec fn seq_out(f: Format, ns: Seq<RtNode>) -> Seq<char>
    decreases ns,
{
    if ns.len() == 0 {
        Seq::empty()
    } else {
        seq_out(f, ns.drop_last()) + node_out(f, ns.last())
    }
}

// ---------------------------------------------------------------------------
// Rendering
// ---------------------------------------------------------------------------

fn span_tags_exec(f: Format, k: Span) -> (t: (&'static str, &'static str))
    ensures
        t.0@ == span_tags(f, k).0,
        t.1@ == span_tags(f, k).1,
{
            proof {
                reveal_strlit("");
            }
    match (f, k) {
        (Format::Markdown, Span::Bold) => ("**", "**"),
        (Format::Markdown, Span::Italic) => ("*", "*"),
        (Format::Markdown, Span::Underline) => ("<u>", "</u>"),
        (Format::Markdown, Span::Strikethrough) => ("~~", "~~"),
        (Format::Markdown, Span::Spoiler) => ("||", "||"),
        (Format::Discord, Span::Bold) => ("**", "**"),
        (Format::Discord, Span::Italic) => ("*", "*"),
        (Format::Discord, Span::Underline) => ("__", "__"),
        (Format::Discord, Span::Strikethrough) => ("~~", "~~"),
        (Format::Discord, Span::Spoiler) => ("||", "||"),
        (Format::MatrixHtml, Span::Bold) => ("<b>", "</b>"),
        (Format::MatrixHtml, Span::Italic) => ("<i>", "</i>"),
        (Format::MatrixHtml, Span::Underline) => ("<u>", "</u>"),
        (Format::MatrixHtml, Span::Strikethrough) => ("<del>", "</del>"),
        (Format::MatrixHtml, Span::Spoiler) => ("<span data-mx-spoiler>", "</span>"),
        (Format::Irc, Span::Bold) => ("\x02", "\x0F"),
        (Format::Irc, Span::Italic) => ("\x1D", "\x1D"),
        (Format::Irc, Span::Underline) => ("\x1F", "\x1F"),
        (Format::Irc, Span::Spoiler) => ("[spoiler: ", "]"),
        (Format::WhatsApp, Span::Bold) => ("*", "*"),
        (Format::WhatsApp, Span::Italic) => ("_", "_"),
        (Format::WhatsApp, Span::Strikethrough) => ("~", "~"),
        _ => ("", ""),
    }
}

/// Appends the HTML-escaped characters of `s`.
fn push_html_escaped(out: &mut Vec<char>, s: &str)
    ensures
        final(out)@ == old(out)@ + html_escaped(s@),
{
    for c in it: s.chars()
        invariant
            out@ == old(out)@ + html_escaped(it.seq().take(it.index() as int)),
            it.seq() == s@,
    {
        let ghost prefix = it.seq().take(it.index() as int);
        assert(it.seq().take(it.index() + 1).drop_last() =~= prefix);
        if c == '&' {
            push_str(out, "&amp;");
        } else if c == '<' {
            push_str(out, "&lt;");
        } else if c == '>' {
            push_str(out, "&gt;");
        } else if c == '"' {
            push_str(out, "&quot;");
        } else {
            out.push(c);
        }
    }
    assert(s@.take(s@.len() as int) =~= s@);
}

/// The line break placed before a quoted line.
pub open spec fn line_sep(started: bool) -> Seq<char> {
    if started {
        seq!['\n']
    } else {
        Seq::empty()
    }
}

/// The first line of `s`, ending at the line break at `k`, without a
/// carriage return that precedes the break.
pub open spec fn line_before(s: Seq<char>, k: int) -> Seq<char> {
    if k > 0 && s[k - 1] == '\r' {
        s.take(k - 1)
    } else {
        s.take(k)
    }
}

proof fn lemma_quote_break(s: Seq<char>, prefix: Seq<char>, started: bool, k: int)
    requires
        first_match(s, seq!['\n'], k),
    ensures
        quote_lines(s, prefix, started) == line_sep(started) + prefix + line_before(s, k)
            + quote_lines(s.skip(k + 1), prefix, true),
{
    lemma_find_is(s, seq!['\n'], k);
}

proof fn lemma_quote_last(s: Seq<char>, prefix: Seq<char>, started: bool)
    requires
        s.len() > 0,
        !contains(s, seq!['\n']),
    ensures
        quote_lines(s, prefix, started) == line_sep(started) + prefix + s,
{
    lemma_find_none(s, seq!['\n']);
}

/// Appends the lines of `inner`, each behind `prefix`, joined by line breaks.
#[verifier::rlimit(50)]
fn push_quoted(out: &mut Vec<char>, inner: &Vec<char>, prefix: &str)
    ensures
        final(out)@ == old(out)@ + quote_lines(inner@, prefix@, false),
{
    let len = inner.len();
    let nl = vec!['\n'];
    assert(nl@ =~= seq!['\n']);
    let mut pos: usize = 0;
    let mut started = false;
    assert(inner@.skip(0) =~= inner@);
    while pos < len
        invariant
            pos <= len == inner.len(),
            nl@ == seq!['\n'],
            old(out)@ + quote_lines(inner@, prefix@, false) == out@ + quote_lines(
                inner@.skip(pos as int),
                prefix@,
                started,
            ),
        decreases len - pos,
    {
        let ghost r = inner@.skip(pos as int);
        let ghost before = out@;
        let ghost was_started = started;
        assert(r =~= inner@.subrange(pos as int, len as int));
        if started {
            out.push('\n');
        }
        push_str(out, prefix);
        assert(out@ =~= before + line_sep(was_started) + prefix@);
        match find_in(inner, pos, len, &nl) {
            Some(k) => {
                proof {
                    lemma_find_some(r, nl@);
                    lemma_quote_break(r, prefix@, was_started, k as int);
                }
                let end = if k > 0 && inner[pos + k - 1] == '\r' {
                    pos + k - 1
                } else {
                    pos + k
                };
                push_range(out, inner, pos, end);
                assert(line_before(r, k as int) =~= inner@.subrange(pos as int, end as int));
                assert(r.skip(k + 1) =~= inner@.skip(pos + k + 1));
                pos = pos + k + 1;
            },
            None => {
                proof {
                    lemma_quote_last(r, prefix@, was_started);
                }
                push_range(out, inner, pos, len);
                assert(inner@.skip(len as int) =~= Seq::<char>::empty());
                pos = len;
            },
        }
        started = true;
    }
    assert(out@ + Seq::<char>::empty() =~= out@);
}

/// Appends `n` `#` characters.
fn push_hashes(out: &mut Vec<char>, n: u8)
    ensures
        final(out)@ == old(out)@ + hashes(n as nat),
{
    let mut i: u8 = 0;
    while i < n
        invariant
            i <= n,
            out@ == old(out)@ + hashes(i as nat),
        decreases n - i,
    {
        out.push('#');
        assert(hashes((i + 1) as nat) =~= hashes(i as nat).push('#'));
        i += 1;
    }
}

fn level_digit_exec(level: u8) -> (c: char)
    ensures
        c == level_digit(level),
{
    if level == 0 {
        '0'
    } else if level == 1 {
        '1'
    } else if level == 2 {
        '2'
    } else if level == 3 {
        '3'
    } else if level == 4 {
        '4'
    } else if level == 5 {
        '5'
    } else {
        '6'
    }
}

/// Appends the characters of `s` (when `escape`, HTML-escaped).
fn push_text(out: &mut Vec<char>, s: &String, escape: bool)
    ensures
        final(out)@ == old(out)@ + if escape {
            html_escaped(s@)
        } else {
            s@
        },
{
    if escape {
        push_html_escaped(out, s.as_str());
    } else {
        push_str(out, s.as_str());
    }
}

/// Renders `n` in format `f`.
fn render_node(f: Format, n: &RichTextNode, out: &mut Vec<char>)
    ensures
        final(out)@ == old(out)@ + node_out(f, n@),
    decreases n, 2int,
{
    let html = f == Format::MatrixHtml;
    match n {
        RichTextNode::Plain(s) => push_text(out, s, html),
        RichTextNode::Bold(c) => {
            proof {
                assert forall|j: int| 0 <= j < c.len() implies decreases_to!(*n => c@[j]) by {
                    assert(decreases_to!(*n => *c));
                    assert(decreases_to!(*c => c@));
                    assert(decreases_to!(c@ => c@[j]));
                }
            }
            render_span(f, Span::Bold, n, c, out);
        },
        RichTextNode::Italic(c) => {
            proof {
                assert forall|j: int| 0 <= j < c.len() implies decreases_to!(*n => c@[j]) by {
                    assert(decreases_to!(*n => *c));
                    assert(decreases_to!(*c => c@));
                    assert(decreases_to!(c@ => c@[j]));
                }
            }
            render_span(f, Span::Italic, n, c, out);
        },
        RichTextNode::Underline(c) => {
            proof {
                assert forall|j: int| 0 <= j < c.len() implies decreases_to!(*n => c@[j]) by {
                    assert(decreases_to!(*n => *c));
                    assert(decreases_to!(*c => c@));
                    assert(decreases_to!(c@ => c@[j]));
                }
            }
            render_span(f, Span::Underline, n, c, out);
        },
        RichTextNode::Strikethrough(c) => {
            proof {
                assert forall|j: int| 0 <= j < c.len() implies decreases_to!(*n => c@[j]) by {
                    assert(decreases_to!(*n => *c));
                    assert(decreases_to!(*c => c@));
                    assert(decreases_to!(c@ => c@[j]));
                }
            }
            render_span(f, Span::Strikethrough, n, c, out);
        },
        RichTextNode::Spoiler(c) => {
            proof {
                assert forall|j: int| 0 <= j < c.len() implies decreases_to!(*n => c@[j]) by {
                    assert(decreases_to!(*n => *c));
                    assert(decreases_to!(*c => c@));
                    assert(decreases_to!(c@ => c@[j]));
                }
            }
            render_span(f, Span::Spoiler, n, c, out);
        },
        RichTextNode::Code(s) => render_code(f, s, out),
        RichTextNode::CodeBlock { language, code } => render_code_block(f, language, code, out),
        RichTextNode::Blockquote(c) => {
            proof {
                assert forall|j: int| 0 <= j < c.len() implies decreases_to!(*n => c@[j]) by {
                    assert(decreases_to!(*n => *c));
                    assert(decreases_to!(*c => c@));
                    assert(decreases_to!(c@ => c@[j]));
                }
            }
            render_blockquote(f, n, c, out);
        },
        RichTextNode::Heading { level, children } => {
            proof {
                assert forall|j: int| 0 <= j < children.len() implies decreases_to!(*n => children@[j]) by {
                    assert(decreases_to!(*n => *children));
                    assert(decreases_to!(*children => children@));
                    assert(decreases_to!(children@ => children@[j]));
                }
            }
            render_heading(f, n, *level, children, out);
        },
        RichTextNode::Link { url, text } => {
            proof {
                assert forall|j: int| 0 <= j < text.len() implies decreases_to!(*n => text@[j]) by {
                    assert(decreases_to!(*n => *text));
                    assert(decreases_to!(*text => text@));
                    assert(decreases_to!(text@ => text@[j]));
                }
            }
            render_link(f, n, url, text, out);
        },
        RichTextNode::Mention { id, name } => {
            push_str(out, "@");
            push_text(out, name, html);
        },
        RichTextNode::Emoji(e) => push_text(out, e, html),
        RichTextNode::Paragraph(c) => {
            proof {
                assert forall|j: int| 0 <= j < c.len() implies decreases_to!(*n => c@[j]) by {
                    assert(decreases_to!(*n => *c));
                    assert(decreases_to!(*c => c@));
                    assert(decreases_to!(c@ => c@[j]));
                }
            }
            render_children(f, n, c, out);
        },
        RichTextNode::ListItem(c) => {
            proof {
                assert forall|j: int| 0 <= j < c.len() implies decreases_to!(*n => c@[j]) by {
                    assert(decreases_to!(*n => *c));
                    assert(decreases_to!(*c => c@));
                    assert(decreases_to!(c@ => c@[j]));
                }
            }
            render_children(f, n, c, out);
        },
    }
}

fn render_code(f: Format, s: &String, out: &mut Vec<char>)
    ensures
        final(out)@ == old(out)@ + node_out(f, RtNode::Code(s@)),
{
    let ghost before = out@;
    match f {
        Format::PlainText => {
            push_str(out, s.as_str());
        },
        Format::MatrixHtml => {
            push_str(out, "<code>");
            push_html_escaped(out, s.as_str());
            push_str(out, "</code>");
            assert(out@ =~= before + ("<code>"@ + html_escaped(s@) + "</code>"@));
        },
        _ => {
            push_str(out, "`");
            push_str(out, s.as_str());
            push_str(out, "`");
            assert(out@ =~= before + ("`"@ + s@ + "`"@));
        },
    }
}

fn render_code_block(f: Format, language: &Option<String>, code: &String, out: &mut Vec<char>)
    ensures
        final(out)@ == old(out)@ + node_out(
            f,
            RtNode::CodeBlock { language: opt_view(*language), code: code@ },
        ),
{
    let ghost before = out@;
    match f {
        Format::Markdown | Format::Discord => {
            match language {
                Some(lang) => {
                    push_str(out, "```");
                    push_str(out, lang.as_str());
                    push_str(out, "\n");
                    push_str(out, code.as_str());
                    push_str(out, "\n```");
                    assert(out@ =~= before + ("```"@ + lang@ + "\n"@ + code@ + "\n```"@));
                },
                None => {
                    push_str(out, "```\n");
                    push_str(out, code.as_str());
                    push_str(out, "\n```");
                    assert(out@ =~= before + ("```\n"@ + code@ + "\n```"@));
                },
            }
        },
        Format::MatrixHtml => {
            match language {
                Some(lang) => {
                    push_str(out, "<pre><code class=\"language-");
                    push_str(out, lang.as_str());
                    push_str(out, "\">");
                    push_html_escaped(out, code.as_str());
                    push_str(out, "</code></pre>");
                    assert(out@ =~= before + ("<pre><code class=\"language-"@ + lang@ + "\">"@
                        + html_escaped(code@) + "</code></pre>"@));
                },
                None => {
                    push_str(out, "<pre>");
                    push_html_escaped(out, code.as_str());
                    push_str(out, "</pre>");
                    assert(out@ =~= before + ("<pre>"@ + html_escaped(code@) + "</pre>"@));
                },
            }
        },
        Format::WhatsApp => {
            push_str(out, "```");
            push_str(out, code.as_str());
            push_str(out, "```");
            assert(out@ =~= before + ("```"@ + code@ + "```"@));
        },
        _ => {
            push_str(out, code.as_str());
        },
    }
}

fn render_blockquote(f: Format, n: &RichTextNode, c: &Vec<RichTextNode>, out: &mut Vec<char>)
    requires
        forall|j: int| 0 <= j < c.len() ==> decreases_to!(*n => c@[j]),
    ensures
        final(out)@ == old(out)@ + node_out(f, RtNode::Blockquote(seq_view(c@))),
    decreases n, 1int,
{
    let ghost before = out@;
    match f {
        Format::MatrixHtml => {
            push_str(out, "<blockquote>");
            render_children(f, n, c, out);
            push_str(out, "</blockquote>");
            assert(out@ =~= before + ("<blockquote>"@ + seq_out(f, seq_view(c@))
                + "</blockquote>"@));
        },
        Format::PlainText => {
            render_children(f, n, c, out);
        },
        _ => {
            let mut inner: Vec<char> = Vec::new();
            render_children(f, n, c, &mut inner);
            assert(inner@ =~= seq_out(f, seq_view(c@)));
            if f == Format::Irc {
                push_quoted(out, &inner, "| ");
            } else {
                push_quoted(out, &inner, "> ");
            }
        },
    }
}

fn render_heading(
    f: Format,
    n: &RichTextNode,
    level: u8,
    children: &Vec<RichTextNode>,
    out: &mut Vec<char>,
)
    requires
        forall|j: int| 0 <= j < children.len() ==> decreases_to!(*n => children@[j]),
    ensures
        final(out)@ == old(out)@ + node_out(
            f,
            RtNode::Heading { level, children: seq_view(children@) },
        ),
    decreases n, 1int,
{
    let ghost before = out@;
    let ghost inner = seq_out(f, seq_view(children@));
    match f {
        Format::Markdown | Format::Discord => {
            let capped_level = if level < 6 {
                level
            } else {
                6
            };
            push_hashes(out, capped_level);
            push_str(out, " ");
            render_children(f, n, children, out);
            assert(out@ =~= before + (hashes(capped(level)) + " "@ + inner));
        },
        Format::MatrixHtml => {
            let d = level_digit_exec(level);
            out.push('<');
            out.push('h');
            out.push(d);
            out.push('>');
            render_children(f, n, children, out);
            out.push('<');
            out.push('/');
            out.push('h');
            out.push(d);
            out.push('>');
            assert(out@ =~= before + (seq!['<', 'h', d, '>'] + inner + seq!['<', '/', 'h', d, '>']));
        },
        Format::Irc => {
            push_str(out, "\x02");
            render_children(f, n, children, out);
            push_str(out, "\x02");
            assert(out@ =~= before + ("\x02"@ + inner + "\x02"@));
        },
        Format::WhatsApp => {
            push_str(out, "*");
            render_children(f, n, children, out);
            push_str(out, "*");
            assert(out@ =~= before + ("*"@ + inner + "*"@));
        },
        Format::PlainText => {
            render_children(f, n, children, out);
        },
    }
}

fn render_link(f: Format, n: &RichTextNode, url: &String, text: &Vec<RichTextNode>, out: &mut Vec<char>)
    requires
        forall|j: int| 0 <= j < text.len() ==> decreases_to!(*n => text@[j]),
    ensures
        final(out)@ == old(out)@ + node_out(f, RtNode::Link { url: url@, text: seq_view(text@) }),
    decreases n, 1int,
{
    let ghost before = out@;
    let ghost inner = seq_out(f, seq_view(text@));
    match f {
        Format::Markdown | Format::Discord => {
            push_str(out, "[");
            render_children(f, n, text, out);
            push_str(out, "](");
            push_str(out, url.as_str());
            push_str(out, ")");
            assert(out@ =~= before + ("["@ + inner + "]("@ + url@ + ")"@));
        },
        Format::MatrixHtml => {
            push_str(out, "<a href=\"");
            push_html_escaped(out, url.as_str());
            push_str(out, "\">");
            render_children(f, n, text, out);
            push_str(out, "</a>");
            assert(out@ =~= before + ("<a href=\""@ + html_escaped(url@) + "\">"@ + inner
                + "</a>"@));
        },
        Format::PlainText => {
            render_children(f, n, text, out);
        },
        Format::Irc => {
            render_children(f, n, text, out);
            push_str(out, " [");
            push_str(out, url.as_str());
            push_str(out, "]");
            assert(out@ =~= before + (inner + " ["@ + url@ + "]"@));
        },
        _ => {
            render_children(f, n, text, out);
            push_str(out, " (");
            push_str(out, url.as_str());
            push_str(out, ")");
            assert(out@ =~= before + (inner + " ("@ + url@ + ")"@));
        },
    }
}

/// Renders a span node `n` whose children are `c`.
fn render_span(f: Format, k: Span, n: &RichTextNode, c: &Vec<RichTextNode>, out: &mut Vec<char>)
    requires
        forall|j: int| 0 <= j < c.len() ==> decreases_to!(*n => c@[j]),
    ensures
        final(out)@ == old(out)@ + (span_tags(f, k).0 + seq_out(f, seq_view(c@)) + span_tags(
            f,
            k,
        ).1),
    decreases n, 1int,
{
    let ghost before = out@;
    let (open, close) = span_tags_exec(f, k);
    push_str(out, open);
    render_children(f, n, c, out);
    push_str(out, close);
    assert(out@ =~= before + (span_tags(f, k).0 + seq_out(f, seq_view(c@)) + span_tags(f, k).1));
}

/// Renders the children `c` of `n` one after another.
fn render_children(f: Format, n: &RichTextNode, c: &Vec<RichTextNode>, out: &mut Vec<char>)
    requires
        forall|j: int| 0 <= j < c.len() ==> decreases_to!(*n => c@[j]),
    ensures
        final(out)@ == old(out)@ + seq_out(f, seq_view(c@)),
    decreases n, 0int,
{
    let mut i: usize = 0;
    while i < c.len()
        invariant
            forall|j: int| 0 <= j < c.len() ==> decreases_to!(*n => c@[j]),
            i <= c.len(),
            out@ == old(out)@ + seq_out(f, seq_view(c@.take(i as int))),
        decreases c.len() - i,
    {
        render_node(f, &c[i], out);
        proof {
            lemma_seq_view_push(c@.take(i as int), c@[i as int]);
            assert(c@.take(i + 1) =~= c@.take(i as int).push(c@[i as int]));
            assert(seq_view(c@.take(i + 1)).drop_last() =~= seq_view(c@.take(i as int)));
        }
        i += 1;
    }
    assert(c@.take(c.len() as int) =~= c@);
}

/// Renders all of `nodes` in format `f`.
pub(crate) fn render_all(f: Format, nodes: &Vec<RichTextNode>) -> (out: Vec<char>)
    ensures
        out@ == seq_out(f, seq_view(nodes@)),
{
    let mut out: Vec<char> = Vec::new();
    let mut i: usize = 0;
    while i < nodes.len()
        invariant
            i <= nodes.len(),
            out@ == seq_out(f, seq_view(nodes@.take(i as int))),
        decreases nodes.len() - i,
    {
        render_node(f, &nodes[i], &mut out);
        proof {
            lemma_seq_view_push(nodes@.take(i as int), nodes@[i as int]);
            assert(nodes@.take(i + 1) =~= nodes@.take(i as int).push(nodes@[i as int]));
            assert(seq_view(nodes@.take(i + 1)).drop_last() =~= seq_view(nodes@.take(i as int)));
        }
        i += 1;
    }
    assert(nodes@.take(nodes.len() as int) =~= nodes@);
    out
}

impl RichText {
    /// Convert to plain text (strips all formatting).
    pub fn to_plain_text(&self) -> (s: String)
        ensures
            s@ == seq_out(Format::PlainText, self@),
    {
        string_of(&render_all(Format::PlainText, &self.0))
    }

    /// Convert to standard CommonMark markdown.
    pub fn to_markdown(&self) -> (s: String)
        ensures
            s@ == seq_out(Format::Markdown, self@),
    {
        string_of(&render_all(Format::Markdown, &self.0))
    }

    /// Convert to Discord markdown.
    ///
    /// Discord extends CommonMark with `||spoiler||` and `__underline__`.
    pub fn to_discord_markdown(&self) -> (s: String)
        ensures
            s@ == seq_out(Format::Discord, self@),
    {
        string_of(&render_all(Format::Discord, &self.0))
    }

    /// Convert to Telegram HTML.
    pub fn to_telegram_html(&self) -> (s: String)
        ensures
            s@ == telegram_html(seq_out(Format::Markdown, self@)),
    {
        let md = self.to_markdown();
        markdown_to_telegram_html(md.as_str())
    }

    /// Convert to Slack mrkdwn.
    pub fn to_slack_mrkdwn(&self) -> (s: String)
        ensures
            s@ == slack_mrkdwn(seq_out(Format::Markdown, self@)),
    {
        let md = self.to_markdown();
        markdown_to_slack(md.as_str())
    }

    /// Convert to Matrix HTML.
    pub fn to_matrix_html(&self) -> (s: String)
        ensures
            s@ == seq_out(Format::MatrixHtml, self@),
    {
        string_of(&render_all(Format::MatrixHtml, &self.0))
    }

    /// Convert to IRC formatted text (bold=`\x02`, italic=`\x1D`).
    pub fn to_irc_formatted(&self) -> (s: String)
        ensures
            s@ == seq_out(Format::Irc, self@),
    {
        string_of(&render_all(Format::Irc, &self.0))
    }

    /// Convert to WhatsApp formatted text.
    pub fn to_whatsapp_formatted(&self) -> (s: String)
        ensures
            s@ == seq_out(Format::WhatsApp, self@),
    {
        string_of(&render_all(Format::WhatsApp, &self.0))
    }

    /// The text shown for the document: its plain text.
    pub fn to_string(&self) -> (s: String)
        ensures
            s@ == seq_out(Format::PlainText, self@),
    {
        self.to_plain_text()
    }

    /// Create from plain text.
    pub fn from_plain(text: &str) -> (rt: RichText)
        ensures
            rt@ == seq![RtNode::Plain(text@)],
    {
        let mut nodes: Vec<RichTextNode> = Vec::new();
        let node = RichTextNode::Plain(String::from_str(text));
        assert(node@ == RtNode::Plain(text@));
        nodes.push(node);
        let rt = RichText(nodes);
        proof {
            assert(rt.0@.drop_last() =~= Seq::<RichTextNode>::empty());
            assert(seq_view(Seq::<RichTextNode>::empty()) =~= Seq::<RtNode>::empty());
            assert(rt.0@.last()@ == RtNode::Plain(text@));
            assert(rt@ =~= seq![RtNode::Plain(text@)]);
        }
        rt
    }
}

/// A single plain run renders as its text in every format that does not
/// escape it.
proof fn lemma_single_plain(f: Format, t: Seq<char>)
    requires
        f != Format::MatrixHtml,
    ensures
        seq_out(f, seq![RtNode::Plain(t)]) == t,
{
    let ns = seq![RtNode::Plain(t)];
    assert(ns.drop_last() =~= Seq::<RtNode>::empty());
    assert(ns.last() == RtNode::Plain(t));
    assert(node_out(f, RtNode::Plain(t)) == t);
    assert(seq_out(f, ns.drop_last()) == Seq::<char>::empty());
    assert(Seq::<char>::empty() + t =~= t);
}

/// Rendering is a fold over the nodes: in every format, the rendering of
/// two node sequences one after the other is the rendering of the first
/// followed by the rendering of the second.
pub proof fn lemma_render_concat(f: Format, a: Seq<RtNode>, b: Seq<RtNode>)
    ensures
        seq_out(f, a + b) == seq_out(f, a) + seq_out(f, b),
    decreases b.len(),
{
    if b.len() == 0 {
        assert(a + b =~= a);
        assert(seq_out(f, a) + seq_out(f, b) =~= seq_out(f, a));
    } else {
        lemma_render_concat(f, a, b.drop_last());
        assert((a + b).drop_last() =~= a + b.drop_last());
        assert((a + b).last() == b.last());
        assert(seq_out(f, a + b) =~= seq_out(f, a) + seq_out(f, b.drop_last()) + node_out(
            f,
            b.last(),
        ));
    }
}

/// The model of two node sequences one after the other is the model of the
/// first followed by the model of the second.
pub proof fn lemma_seq_view_concat(a: Seq<RichTextNode>, b: Seq<RichTextNode>)
    ensures
        seq_view(a + b) == seq_view(a) + seq_view(b),
    decreases b.len(),
{
    if b.len() == 0 {
        assert(a + b =~= a);
        assert(seq_view(a) + seq_view(b) =~= seq_view(a));
    } else {
        lemma_seq_view_concat(a, b.drop_last());
        assert((a + b).drop_last() =~= a + b.drop_last());
        assert((a + b).last() == b.last());
        assert(seq_view(a + b) =~= (seq_view(a) + seq_view(b.drop_last())).push(
            node_view(b.last()),
        ));
        assert(seq_view(a) + seq_view(b) =~= (seq_view(a) + seq_view(b.drop_last())).push(
            node_view(b.last()),
        ));
    }
}

/// A document made of the nodes of `a` followed by those of `b` renders, in
/// every format, as the rendering of `a` followed by that of `b`.
pub proof fn lemma_document_concat(f: Format, a: RichText, b: RichText, ab: RichText)
    requires
        ab.0@ == a.0@ + b.0@,
    ensures
        seq_out(f, ab@) == seq_out(f, a@) + seq_out(f, b@),
{
    lemma_seq_view_concat(a.0@, b.0@);
    lemma_render_concat(f, a@, b@);
}

/// Plain text wrapped as rich text reads back unchanged as plain text, and
/// as Markdown, Discord, IRC and WhatsApp text (none of which escapes
/// plain runs).
pub proof fn lemma_from_plain_roundtrip(t: Seq<char>)
    ensures
        seq_out(Format::PlainText, seq![RtNode::Plain(t)]) == t,
        seq_out(Format::Markdown, seq![RtNode::Plain(t)]) == t,
        seq_out(Format::Discord, seq![RtNode::Plain(t)]) == t,
        seq_out(Format::Irc, seq![RtNode::Plain(t)]) == t,
        seq_out(Format::WhatsApp, seq![RtNode::Plain(t)]) == t,
{
    lemma_single_plain(Format::PlainText, t);
    lemma_single_plain(Format::Markdown, t);
    lemma_single_plain(Format::Discord, t);
    lemma_single_plain(Format::Irc, t);
    lemma_single_plain(Format::WhatsApp, t);
}

/// A single node renders on its own.
proof fn lemma_seq_out_single(f: Format, n: RtNode)
    ensures
        seq_out(f, seq![n]) == node_out(f, n),
{
    let ns = seq![n];
    assert(ns.drop_last() =~= Seq::<RtNode>::empty());
    assert(ns.last() == n);
    assert(seq_out(f, ns.drop_last()) == Seq::<char>::empty());
    assert(Seq::<char>::empty() + node_out(f, n) =~= node_out(f, n));
}

/// How each formatting span is written around its children, in Matrix
/// HTML: bold `<b>`, italic `<i>`, underline `<u>`, strikethrough `<del>`,
/// spoiler `<span data-mx-spoiler>`; and the five differ from each other.
pub proof fn lemma_matrix_html_spans(c: Seq<RtNode>)
    ensures
        seq_out(Format::MatrixHtml, seq![RtNode::Bold(c)]) == "<b>"@ + seq_out(Format::MatrixHtml, c) + "</b>"@,
        seq_out(Format::MatrixHtml, seq![RtNode::Italic(c)]) == "<i>"@ + seq_out(Format::MatrixHtml, c) + "</i>"@,
        seq_out(Format::MatrixHtml, seq![RtNode::Underline(c)]) == "<u>"@ + seq_out(Format::MatrixHtml, c) + "</u>"@,
        seq_out(Format::MatrixHtml, seq![RtNode::Strikethrough(c)]) == "<del>"@ + seq_out(Format::MatrixHtml, c)
            + "</del>"@,
        seq_out(Format::MatrixHtml, seq![RtNode::Spoiler(c)]) == "<span data-mx-spoiler>"@ + seq_out(
            Format::MatrixHtml,
            c,
        ) + "</span>"@,
        seq_out(Format::MatrixHtml, seq![RtNode::Italic(c)]) != seq_out(Format::MatrixHtml, seq![RtNode::Bold(c)]),
        seq_out(Format::MatrixHtml, seq![RtNode::Underline(c)]) != seq_out(Format::MatrixHtml, seq![RtNode::Bold(c)]),
        seq_out(Format::MatrixHtml, seq![RtNode::Underline(c)]) != seq_out(Format::MatrixHtml, seq![RtNode::Italic(c)]),
        seq_out(Format::MatrixHtml, seq![RtNode::Strikethrough(c)]) != seq_out(Format::MatrixHtml, seq![RtNode::Bold(c)]),
        seq_out(Format::MatrixHtml, seq![RtNode::Strikethrough(c)]) != seq_out(Format::MatrixHtml, seq![RtNode::Italic(c)]),
{
    let f = Format::MatrixHtml;
    let inner = seq_out(f, c);
    lemma_seq_out_single(f, RtNode::Bold(c));
    lemma_seq_out_single(f, RtNode::Italic(c));
    lemma_seq_out_single(f, RtNode::Underline(c));
    lemma_seq_out_single(f, RtNode::Strikethrough(c));
    lemma_seq_out_single(f, RtNode::Spoiler(c));
    reveal_strlit("<b>");
    reveal_strlit("<i>");
    reveal_strlit("<u>");
    reveal_strlit("<del>");
    let b = "<b>"@ + inner + "</b>"@;
    let i = "<i>"@ + inner + "</i>"@;
    let u = "<u>"@ + inner + "</u>"@;
    let d = "<del>"@ + inner + "</del>"@;
    assert(b[1] == 'b' && i[1] == 'i' && u[1] == 'u' && d[1] == 'd');
}

/// How each formatting span is written around its children in CommonMark:
/// bold `**`, italic `*`, underline `<u>`, strikethrough `~~`, spoiler
/// `||`.
pub proof fn lemma_markdown_spans(c: Seq<RtNode>)
    ensures
        seq_out(Format::Markdown, seq![RtNode::Bold(c)]) == "**"@ + seq_out(Format::Markdown, c) + "**"@,
        seq_out(Format::Markdown, seq![RtNode::Italic(c)]) == "*"@ + seq_out(Format::Markdown, c) + "*"@,
        seq_out(Format::Markdown, seq![RtNode::Underline(c)]) == "<u>"@ + seq_out(Format::Markdown, c) + "</u>"@,
        seq_out(Format::Markdown, seq![RtNode::Strikethrough(c)]) == "~~"@ + seq_out(Format::Markdown, c) + "~~"@,
        seq_out(Format::Markdown, seq![RtNode::Spoiler(c)]) == "||"@ + seq_out(Format::Markdown, c) + "||"@,
{
    let f = Format::Markdown;
    lemma_seq_out_single(f, RtNode::Bold(c));
    lemma_seq_out_single(f, RtNode::Italic(c));
    lemma_seq_out_single(f, RtNode::Underline(c));
    lemma_seq_out_single(f, RtNode::Strikethrough(c));
    lemma_seq_out_single(f, RtNode::Spoiler(c));
}

/// How each formatting span is written around its children in Discord
/// markdown: bold `**`, italic `*`, underline `__`, strikethrough `~~`,
/// spoiler `||`.
pub proof fn lemma_discord_spans(c: Seq<RtNode>)
    ensures
        seq_out(Format::Discord, seq![RtNode::Bold(c)]) == "**"@ + seq_out(Format::Discord, c) + "**"@,
        seq_out(Format::Discord, seq![RtNode::Italic(c)]) == "*"@ + seq_out(Format::Discord, c) + "*"@,
        seq_out(Format::Discord, seq![RtNode::Underline(c)]) == "__"@ + seq_out(Format::Discord, c) + "__"@,
        seq_out(Format::Discord, seq![RtNode::Strikethrough(c)]) == "~~"@ + seq_out(Format::Discord, c) + "~~"@,
        seq_out(Format::Discord, seq![RtNode::Spoiler(c)]) == "||"@ + seq_out(Format::Discord, c) + "||"@,
{
    let f = Format::Discord;
    lemma_seq_out_single(f, RtNode::Bold(c));
    lemma_seq_out_single(f, RtNode::Italic(c));
    lemma_seq_out_single(f, RtNode::Underline(c));
    lemma_seq_out_single(f, RtNode::Strikethrough(c));
    lemma_seq_out_single(f, RtNode::Spoiler(c));
}

/// How each formatting span is written around its children in IRC text:
/// bold between `\x02` and the reset `\x0F`, italic between `\x1D`s,
/// underline between `\x1F`s, a spoiler as `[spoiler: ...]`; IRC has no
/// strikethrough, which leaves the children bare.
pub proof fn lemma_irc_spans(c: Seq<RtNode>)
    ensures
        seq_out(Format::Irc, seq![RtNode::Bold(c)]) == "\x02"@ + seq_out(Format::Irc, c) + "\x0F"@,
        seq_out(Format::Irc, seq![RtNode::Italic(c)]) == "\x1D"@ + seq_out(Format::Irc, c) + "\x1D"@,
        seq_out(Format::Irc, seq![RtNode::Underline(c)]) == "\x1F"@ + seq_out(Format::Irc, c) + "\x1F"@,
        seq_out(Format::Irc, seq![RtNode::Strikethrough(c)]) == seq_out(Format::Irc, c),
        seq_out(Format::Irc, seq![RtNode::Spoiler(c)]) == "[spoiler: "@ + seq_out(Format::Irc, c) + "]"@,
{
    let f = Format::Irc;
    lemma_seq_out_single(f, RtNode::Bold(c));
    lemma_seq_out_single(f, RtNode::Italic(c));
    lemma_seq_out_single(f, RtNode::Underline(c));
    lemma_seq_out_single(f, RtNode::Strikethrough(c));
    lemma_seq_out_single(f, RtNode::Spoiler(c));
    assert(Seq::<char>::empty() + seq_out(f, c) + Seq::<char>::empty() =~= seq_out(f, c));
}

/// How each formatting span is written around its children in WhatsApp
/// text: bold `*`, italic `_`, strikethrough `~`; WhatsApp has no
/// underline or spoiler, which leave the children bare.
pub proof fn lemma_whatsapp_spans(c: Seq<RtNode>)
    ensures
        seq_out(Format::WhatsApp, seq![RtNode::Bold(c)]) == "*"@ + seq_out(Format::WhatsApp, c) + "*"@,
        seq_out(Format::WhatsApp, seq![RtNode::Italic(c)]) == "_"@ + seq_out(Format::WhatsApp, c) + "_"@,
        seq_out(Format::WhatsApp, seq![RtNode::Strikethrough(c)]) == "~"@ + seq_out(Format::WhatsApp, c) + "~"@,
        seq_out(Format::WhatsApp, seq![RtNode::Underline(c)]) == seq_out(Format::WhatsApp, c),
        seq_out(Format::WhatsApp, seq![RtNode::Spoiler(c)]) == seq_out(Format::WhatsApp, c),
{
    let f = Format::WhatsApp;
    lemma_seq_out_single(f, RtNode::Bold(c));
    lemma_seq_out_single(f, RtNode::Italic(c));
    lemma_seq_out_single(f, RtNode::Underline(c));
    lemma_seq_out_single(f, RtNode::Strikethrough(c));
    lemma_seq_out_single(f, RtNode::Spoiler(c));
    assert(Seq::<char>::empty() + seq_out(f, c) + Seq::<char>::empty() =~= seq_out(f, c));
}

/// Plain text drops every formatting span: a span renders as its children.
pub proof fn lemma_plain_text_spans(c: Seq<RtNode>)
    ensures
        seq_out(Format::PlainText, seq![RtNode::Bold(c)]) == seq_out(Format::PlainText, c),
        seq_out(Format::PlainText, seq![RtNode::Italic(c)]) == seq_out(Format::PlainText, c),
        seq_out(Format::PlainText, seq![RtNode::Underline(c)]) == seq_out(Format::PlainText, c),
        seq_out(Format::PlainText, seq![RtNode::Strikethrough(c)]) == seq_out(Format::PlainText, c),
        seq_out(Format::PlainText, seq![RtNode::Spoiler(c)]) == seq_out(Format::PlainText, c),
{
    let f = Format::PlainText;
    lemma_seq_out_single(f, RtNode::Bold(c));
    lemma_seq_out_single(f, RtNode::Italic(c));
    lemma_seq_out_single(f, RtNode::Underline(c));
    lemma_seq_out_single(f, RtNode::Strikethrough(c));
    lemma_seq_out_single(f, RtNode::Spoiler(c));
    assert(Seq::<char>::empty() + seq_out(f, c) + Seq::<char>::empty() =~= seq_out(f, c));
}

} // verus!
