//! Reading Markdown into a `RichText` document.
//!
//! The Markdown text is first turned into a stream of events by
//! pulldown-cmark; the document is then assembled from the events with a
//! stack of open containers.
use vstd::prelude::*;
use crate::rich_text::{
    lemma_seq_view_push, node_view, render_all, seq_out, seq_view, Format, RichText, RichTextNode,
    RtNode,
};
use crate::number::{all_digits, digits_value, is_digit};
use crate::text::{chars_of, string_of};
use pulldown_cmark::{CodeBlockKind, Event, Tag, TagEnd};

verus! {

/// An event of the Markdown reader, as far as the document assembly
/// distinguishes them.
pub enum MdEvent {
    StartStrong,
    StartEmphasis,
    StartStrikethrough,
    StartBlockQuote,
    /// A heading of the given level (1 to 6) starts.
    StartHeading(u8),
    /// A link to the given destination starts.
    StartLink(String),
    /// A code block starts; fenced blocks carry their info string.
    StartCodeBlock(Option<String>),
    EndStrong,
    EndEmphasis,
    EndStrikethrough,
    EndBlockQuote,
    EndHeading,
    EndLink,
    EndCodeBlock,
    Code(String),
    Text(String),
    SoftBreak,
    HardBreak,
    /// Any other event (ignored by the assembly).
    Other,
}

// ---------------------------------------------------------------------------
// Number text
// ---------------------------------------------------------------------------

/// The decimal digit character for `d` (0 to 9).
pub open spec fn digit_char(d: int) -> char {
    if d == 0 {
        '0'
    } else if d == 1 {
        '1'
    } else if d == 2 {
        '2'
    } else if d == 3 {
        '3'
    } else if d == 4 {
        '4'
    } else if d == 5 {
        '5'
    } else if d == 6 {
        '6'
    } else if d == 7 {
        '7'
    } else if d == 8 {
        '8'
    } else {
        '9'
    }
}

/// The decimal text of a byte (`u8::to_string`).
pub open spec fn decimal(v: u8) -> Seq<char> {
    if v < 10 {
        seq![digit_char(v as int)]
    } else if v < 100 {
        seq![digit_char((v / 10) as int), digit_char((v % 10) as int)]
    } else {
        seq![
            digit_char((v / 100) as int),
            digit_char(((v / 10) % 10) as int),
            digit_char((v % 10) as int),
        ]
    }
}

/// The digits of an unsigned number: the text after an optional `+`.
pub open spec fn unsigned_digits(s: Seq<char>) -> Seq<char> {
    if s.len() > 0 && s[0] == '+' {
        s.drop_first()
    } else {
        s
    }
}

/// `str::parse::<u8>`: an optional `+`, then at least one digit, with a
/// value of at most 255.
pub open spec fn parse_u8(s: Seq<char>) -> Option<u8> {
    let d = unsigned_digits(s);
    if d.len() > 0 && all_digits(d) && digits_value(d) <= 255 {
        Some(digits_value(d) as u8)
    } else {
        None
    }
}

fn digit_char_exec(d: u8) -> (c: char)
    ensures
        c == digit_char(d as int),
{
    if d == 0 {
        '0'
    } else if d == 1 {
        '1'
    } else if d == 2 {
        '2'
    } else if d == 3 {
        '3'
    } else if d == 4 {
        '4'
    } else if d == 5 {
        '5'
    } else if d == 6 {
        '6'
    } else if d == 7 {
        '7'
    } else if d == 8 {
        '8'
    } else {
        '9'
    }
}

fn decimal_exec(v: u8) -> (s: String)
    ensures
        s@ == decimal(v),
{
    let mut out: Vec<char> = Vec::new();
    if v < 10 {
        out.push(digit_char_exec(v));
    } else if v < 100 {
        out.push(digit_char_exec(v / 10));
        out.push(digit_char_exec(v % 10));
    } else {
        out.push(digit_char_exec(v / 100));
        out.push(digit_char_exec((v / 10) % 10));
        out.push(digit_char_exec(v % 10));
    }
    assert(out@ =~= decimal(v));
    string_of(&out)
}

fn parse_u8_exec(s: &String) -> (r: Option<u8>)
    ensures
        r == parse_u8(s@),
{
    let v = chars_of(s.as_str());
    let start: usize = if v.len() > 0 && v[0] == '+' {
        1
    } else {
        0
    };
    let ghost d = unsigned_digits(v@);
    assert(d =~= v@.subrange(start as int, v.len() as int));
    if start >= v.len() {
        return None;
    }
    let mut acc: u32 = 0;
    let mut digits_only = true;
    let mut i = start;
    while i < v.len()
        invariant
            start <= i <= v.len(),
            d == v@.subrange(start as int, v.len() as int),
            digits_only == (forall|j: int| start <= j < i ==> is_digit(#[trigger] v@[j])),
            digits_only ==> (digits_value(v@.subrange(start as int, i as int)) <= 255 ==> acc
                == digits_value(v@.subrange(start as int, i as int))),
            digits_only ==> (digits_value(v@.subrange(start as int, i as int)) > 255 ==> acc
                == 256),
            digits_only ==> digits_value(v@.subrange(start as int, i as int)) >= 0,
            acc <= 256,
        decreases v.len() - i,
    {
        let c = v[i];
        let ghost prefix = v@.subrange(start as int, i as int);
        assert(v@.subrange(start as int, i + 1).drop_last() =~= prefix);
        if '0' <= c && c <= '9' {
            let dv = (c as u32) - ('0' as u32);
            if acc <= 255 {
                acc = acc * 10 + dv;
                if acc > 256 {
                    acc = 256;
                }
            }
        } else {
            digits_only = false;
        }
        i += 1;
    }
    assert(v@.subrange(start as int, v.len() as int) == d);
    if digits_only && acc <= 255 {
        assert forall|j: int| 0 <= j < d.len() implies is_digit(#[trigger] d[j]) by {
            assert(d[j] == v@[start + j]);
        }
        assert(all_digits(d));
        assert(digits_value(d) <= 255);
        assert(v@ == s@);
        assert(parse_u8(s@) == Some(acc as u8));
        Some(acc as u8)
    } else {
        if !digits_only {
            let ghost j = choose|j: int| start <= j < v.len() && !is_digit(v@[j]);
            assert(d[j - start] == v@[j]);
            assert(!is_digit(d[j - start]));
            assert(!all_digits(d));
        } else {
            assert(digits_value(d) > 255);
        }
        None
    }
}

// ---------------------------------------------------------------------------
// Document assembly
// ---------------------------------------------------------------------------

/// The stack of open containers: each frame holds the children read so far.
pub type Frames = Seq<Seq<RtNode>>;

/// Takes the top frame off (an empty frame when there is none).
pub open spec fn pop_frame(st: Frames) -> (Seq<RtNode>, Frames) {
    if st.len() == 0 {
        (Seq::empty(), st)
    } else {
        (st.last(), st.drop_last())
    }
}

/// Adds `n` to the top frame (nothing happens when there is none).
pub open spec fn add_to_top(st: Frames, n: RtNode) -> Frames {
    if st.len() == 0 {
        st
    } else {
        st.update(st.len() - 1, st.last().push(n))
    }
}

/// The text of a frame's first node, when that node is plain text.
pub open spec fn first_plain(frame: Seq<RtNode>) -> Option<Seq<char>> {
    if frame.len() > 0 && frame[0] is Plain {
        Some(frame[0]->Plain_0)
    } else {
        None
    }
}

/// Closes the top frame into the node that `make` builds from it.
pub open spec fn close_span(st: Frames, kind: MdEvent) -> Frames {
    let (c, rest) = pop_frame(st);
    add_to_top(
        rest,
        match kind {
            MdEvent::EndStrong => RtNode::Bold(c),
            MdEvent::EndEmphasis => RtNode::Italic(c),
            MdEvent::EndStrikethrough => RtNode::Strikethrough(c),
            _ => RtNode::Blockquote(c),
        },
    )
}

/// The effect of one event on the stack.
pub open spec fn apply_event(st: Frames, e: MdEvent) -> Frames {
    match e {
        MdEvent::StartStrong => st.push(Seq::empty()),
        MdEvent::StartEmphasis => st.push(Seq::empty()),
        MdEvent::StartStrikethrough => st.push(Seq::empty()),
        MdEvent::StartBlockQuote => st.push(Seq::empty()),
        MdEvent::StartHeading(level) => st.push(seq![RtNode::Plain(decimal(level))]).push(
            Seq::empty(),
        ),
        MdEvent::StartLink(url) => st.push(seq![RtNode::Plain(url@)]).push(Seq::empty()),
        MdEvent::StartCodeBlock(kind) => {
            let lang = match kind {
                Some(l) => l@,
                None => Seq::empty(),
            };
            st.push(seq![RtNode::Plain(lang)]).push(Seq::empty())
        },
        MdEvent::EndStrong => close_span(st, e),
        MdEvent::EndEmphasis => close_span(st, e),
        MdEvent::EndStrikethrough => close_span(st, e),
        MdEvent::EndBlockQuote => close_span(st, e),
        MdEvent::EndHeading => {
            let (children, st1) = pop_frame(st);
            let (level_frame, st2) = pop_frame(st1);
            let level = match first_plain(level_frame) {
                Some(l) => match parse_u8(l) {
                    Some(v) => v,
                    None => 1u8,
                },
                None => 1u8,
            };
            add_to_top(st2, RtNode::Heading { level, children })
        },
        MdEvent::EndLink => {
            let (text, st1) = pop_frame(st);
            let (url_frame, st2) = pop_frame(st1);
            let url = match first_plain(url_frame) {
                Some(u) => u,
                None => Seq::empty(),
            };
            add_to_top(st2, RtNode::Link { url, text })
        },
        MdEvent::EndCodeBlock => {
            let (code_nodes, st1) = pop_frame(st);
            let (lang_frame, st2) = pop_frame(st1);
            let language = match first_plain(lang_frame) {
                Some(l) => if l.len() == 0 {
                    None
                } else {
                    Some(l)
                },
                None => None,
            };
            add_to_top(
                st2,
                RtNode::CodeBlock { language, code: seq_out(Format::PlainText, code_nodes) },
            )
        },
        MdEvent::Code(t) => add_to_top(st, RtNode::Code(t@)),
        MdEvent::Text(t) => add_to_top(st, RtNode::Plain(t@)),
        MdEvent::SoftBreak => add_to_top(st, RtNode::Plain(seq!['\n'])),
        MdEvent::HardBreak => add_to_top(st, RtNode::Plain(seq!['\n'])),
        MdEvent::Other => st,
    }
}

/// The stack after all of `evs`, starting from a single empty frame.
pub open spec fn frames_after(evs: Seq<MdEvent>) -> Frames
    decreases evs.len(),
{
    if evs.len() == 0 {
        seq![Seq::empty()]
    } else {
        apply_event(frames_after(evs.drop_last()), evs.last())
    }
}

/// The document that `evs` describe: the bottom frame.
pub open spec fn events_doc(evs: Seq<MdEvent>) -> Seq<RtNode> {
    let st = frames_after(evs);
    if st.len() > 0 {
        st[0]
    } else {
        Seq::empty()
    }
}

/// Closing a span puts the children read since it opened into the node of
/// that span's kind, added to the enclosing container: strong text becomes
/// `Bold`, emphasis `Italic`, strikethrough `Strikethrough`, a block quote
/// `Blockquote`.
pub proof fn lemma_span_end_builds_its_node(st: Frames, c: Seq<RtNode>)
    requires
        st.len() >= 1,
    ensures
        apply_event(st.push(c), MdEvent::EndStrong) == st.update(
            st.len() - 1,
            st.last().push(RtNode::Bold(c)),
        ),
        apply_event(st.push(c), MdEvent::EndEmphasis) == st.update(
            st.len() - 1,
            st.last().push(RtNode::Italic(c)),
        ),
        apply_event(st.push(c), MdEvent::EndStrikethrough) == st.update(
            st.len() - 1,
            st.last().push(RtNode::Strikethrough(c)),
        ),
        apply_event(st.push(c), MdEvent::EndBlockQuote) == st.update(
            st.len() - 1,
            st.last().push(RtNode::Blockquote(c)),
        ),
{
    assert(st.push(c).drop_last() =~= st);
    assert(st.push(c).last() == c);
}

/// The stack after a span start, a text and an event `end`.
proof fn lemma_span_events(start: MdEvent, end: MdEvent, t: String)
    requires
        start is StartStrong || start is StartEmphasis || start is StartStrikethrough,
    ensures
        frames_after(seq![start, MdEvent::Text(t), end]) == apply_event(
            seq![Seq::<RtNode>::empty(), seq![RtNode::Plain(t@)]],
            end,
        ),
{
    let e = seq![start, MdEvent::Text(t), end];
    let base: Frames = seq![Seq::<RtNode>::empty()];
    assert(e.drop_last().drop_last().drop_last() =~= Seq::<MdEvent>::empty());
    assert(frames_after(e.drop_last().drop_last().drop_last()) == base);
    assert(e.drop_last().drop_last() =~= seq![start]);
    assert(e.drop_last().drop_last().last() == start);
    assert(frames_after(e.drop_last().drop_last()) == base.push(Seq::<RtNode>::empty()));
    assert(e.drop_last() =~= seq![start, MdEvent::Text(t)]);
    assert(e.drop_last().last() == MdEvent::Text(t));
    assert(base.push(Seq::<RtNode>::empty()).update(1, Seq::<RtNode>::empty().push(RtNode::Plain(t@)))
        =~= seq![Seq::<RtNode>::empty(), seq![RtNode::Plain(t@)]]);
    assert(frames_after(e.drop_last()) == seq![Seq::<RtNode>::empty(), seq![RtNode::Plain(t@)]]);
    assert(e.last() == end);
}

/// A span around a single text: the document of the events
/// start, text `t`, end is the one node of that span's kind holding the
/// plain text `t`.
pub proof fn lemma_single_span_document(t: String)
    ensures
        events_doc(seq![MdEvent::StartStrong, MdEvent::Text(t), MdEvent::EndStrong]) == seq![
            RtNode::Bold(seq![RtNode::Plain(t@)]),
        ],
        events_doc(seq![MdEvent::StartEmphasis, MdEvent::Text(t), MdEvent::EndEmphasis]) == seq![
            RtNode::Italic(seq![RtNode::Plain(t@)]),
        ],
        events_doc(
            seq![MdEvent::StartStrikethrough, MdEvent::Text(t), MdEvent::EndStrikethrough],
        ) == seq![RtNode::Strikethrough(seq![RtNode::Plain(t@)])],
{
    let base: Frames = seq![Seq::<RtNode>::empty()];
    let inner: Seq<RtNode> = seq![RtNode::Plain(t@)];
    assert(frames_after(Seq::<MdEvent>::empty()) == base);
    assert(base.push(Seq::empty()).update(1, Seq::<RtNode>::empty().push(RtNode::Plain(t@)))
        =~= base.push(inner));
    lemma_span_end_builds_its_node(base, inner);
    assert(base.update(0, Seq::<RtNode>::empty().push(RtNode::Bold(inner))) =~= seq![
        seq![RtNode::Bold(inner)],
    ]);
    assert(base.update(0, Seq::<RtNode>::empty().push(RtNode::Italic(inner))) =~= seq![
        seq![RtNode::Italic(inner)],
    ]);
    assert(base.update(0, Seq::<RtNode>::empty().push(RtNode::Strikethrough(inner))) =~= seq![
        seq![RtNode::Strikethrough(inner)],
    ]);
    lemma_span_events(MdEvent::StartStrong, MdEvent::EndStrong, t);
    lemma_span_events(MdEvent::StartEmphasis, MdEvent::EndEmphasis, t);
    lemma_span_events(MdEvent::StartStrikethrough, MdEvent::EndStrikethrough, t);
}

/// The events pulldown-cmark reports for a text, with strikethrough enabled.
pub uninterp spec fn markdown_events(text: Seq<char>) -> Seq<MdEvent>;

/// The model of a stack of frames.
pub open spec fn frames_view(st: Seq<Vec<RichTextNode>>) -> Frames {
    st.map_values(|v: Vec<RichTextNode>| seq_view(v@))
}

fn pop_frame_exec(stack: &mut Vec<Vec<RichTextNode>>) -> (frame: Vec<RichTextNode>)
    ensures
        (seq_view(frame@), frames_view(final(stack)@)) == pop_frame(frames_view(old(stack)@)),
{
    let ghost before = stack@;
    match stack.pop() {
        Some(f) => {
            assert(frames_view(stack@) =~= frames_view(before).drop_last());
            f
        },
        None => {
            assert(seq_view(Seq::<RichTextNode>::empty()) =~= Seq::<RtNode>::empty());
            Vec::new()
        },
    }
}

fn add_to_top_exec(stack: &mut Vec<Vec<RichTextNode>>, n: RichTextNode)
    ensures
        frames_view(final(stack)@) == add_to_top(frames_view(old(stack)@), n@),
{
    let ghost before = stack@;
    let ghost nv = n@;
    match stack.pop() {
        Some(mut top) => {
            let ghost old_top = top@;
            top.push(n);
            proof {
                lemma_seq_view_push(old_top, n);
            }
            stack.push(top);
            assert(frames_view(stack@) =~= add_to_top(frames_view(before), nv));
        },
        None => {
            assert(frames_view(stack@) =~= frames_view(before));
        },
    }
}

fn push_frame_exec(stack: &mut Vec<Vec<RichTextNode>>, frame: Vec<RichTextNode>)
    ensures
        frames_view(final(stack)@) == frames_view(old(stack)@).push(seq_view(frame@)),
{
    let ghost before = stack@;
    let ghost fv = seq_view(frame@);
    stack.push(frame);
    assert(frames_view(stack@) =~= frames_view(before).push(fv));
}

/// A frame holding one plain-text node.
fn plain_frame(s: String) -> (frame: Vec<RichTextNode>)
    ensures
        seq_view(frame@) == seq![RtNode::Plain(s@)],
{
    let ghost sv = s@;
    let mut frame: Vec<RichTextNode> = Vec::new();
    frame.push(RichTextNode::Plain(s));
    proof {
        lemma_seq_view_push(Seq::empty(), frame@[0]);
        assert(Seq::<RichTextNode>::empty().push(frame@[0]) =~= frame@);
        assert(seq_view(Seq::<RichTextNode>::empty()) =~= Seq::<RtNode>::empty());
    }
    assert(seq_view(frame@) =~= seq![RtNode::Plain(sv)]);
    frame
}

fn first_plain_exec(frame: &Vec<RichTextNode>) -> (r: Option<String>)
    ensures
        match r {
            Some(s) => first_plain(seq_view(frame@)) == Some(s@),
            None => first_plain(seq_view(frame@)) is None,
        },
{
    proof {
        lemma_seq_view_index(frame@);
    }
    if frame.len() > 0 {
        match &frame[0] {
            RichTextNode::Plain(s) => Some(s.clone()),
            _ => None,
        }
    } else {
        None
    }
}

/// `seq_view` keeps lengths and maps each element.
proof fn lemma_seq_view_index(ns: Seq<RichTextNode>)
    ensures
        seq_view(ns).len() == ns.len(),
        forall|i: int| 0 <= i < ns.len() ==> #[trigger] seq_view(ns)[i] == node_view(ns[i]),
    decreases ns.len(),
{
    if ns.len() > 0 {
        lemma_seq_view_index(ns.drop_last());
    }
}

/// Applies one event to the stack.
fn apply_event_exec(stack: &mut Vec<Vec<RichTextNode>>, e: &MdEvent)
    ensures
        frames_view(final(stack)@) == apply_event(frames_view(old(stack)@), *e),
{
    match e {
        MdEvent::StartStrong | MdEvent::StartEmphasis | MdEvent::StartStrikethrough
        | MdEvent::StartBlockQuote => {
            push_frame_exec(stack, Vec::new());
            assert(seq_view(Seq::<RichTextNode>::empty()) =~= Seq::<RtNode>::empty());
        },
        MdEvent::StartHeading(level) => {
            push_frame_exec(stack, plain_frame(decimal_exec(*level)));
            push_frame_exec(stack, Vec::new());
            assert(seq_view(Seq::<RichTextNode>::empty()) =~= Seq::<RtNode>::empty());
        },
        MdEvent::StartLink(url) => {
            push_frame_exec(stack, plain_frame(url.clone()));
            push_frame_exec(stack, Vec::new());
            assert(seq_view(Seq::<RichTextNode>::empty()) =~= Seq::<RtNode>::empty());
        },
        MdEvent::StartCodeBlock(kind) => {
            let lang = match kind {
                Some(l) => l.clone(),
                None => String::new(),
            };
            push_frame_exec(stack, plain_frame(lang));
            push_frame_exec(stack, Vec::new());
            assert(seq_view(Seq::<RichTextNode>::empty()) =~= Seq::<RtNode>::empty());
        },
        MdEvent::EndStrong => {
            let c = pop_frame_exec(stack);
            add_to_top_exec(stack, RichTextNode::Bold(c));
        },
        MdEvent::EndEmphasis => {
            let c = pop_frame_exec(stack);
            add_to_top_exec(stack, RichTextNode::Italic(c));
        },
        MdEvent::EndStrikethrough => {
            let c = pop_frame_exec(stack);
            add_to_top_exec(stack, RichTextNode::Strikethrough(c));
        },
        MdEvent::EndBlockQuote => {
            let c = pop_frame_exec(stack);
            add_to_top_exec(stack, RichTextNode::Blockquote(c));
        },
        MdEvent::EndHeading => {
            let children = pop_frame_exec(stack);
            let level_frame = pop_frame_exec(stack);
            let level = match first_plain_exec(&level_frame) {
                Some(l) => match parse_u8_exec(&l) {
                    Some(v) => v,
                    None => 1u8,
                },
                None => 1u8,
            };
            add_to_top_exec(stack, RichTextNode::Heading { level, children });
        },
        MdEvent::EndLink => {
            let text = pop_frame_exec(stack);
            let url_frame = pop_frame_exec(stack);
            let url = match first_plain_exec(&url_frame) {
                Some(u) => u,
                None => String::new(),
            };
            add_to_top_exec(stack, RichTextNode::Link { url, text });
        },
        MdEvent::EndCodeBlock => {
            let code_nodes = pop_frame_exec(stack);
            let lang_frame = pop_frame_exec(stack);
            let language = match first_plain_exec(&lang_frame) {
                Some(l) => if l.as_str().is_empty() {
                    None
                } else {
                    Some(l)
                },
                None => None,
            };
            let code = string_of(&render_all(Format::PlainText, &code_nodes));
            add_to_top_exec(stack, RichTextNode::CodeBlock { language, code });
        },
        MdEvent::Code(t) => {
            add_to_top_exec(stack, RichTextNode::Code(t.clone()));
        },
        MdEvent::Text(t) => {
            add_to_top_exec(stack, RichTextNode::Plain(t.clone()));
        },
        MdEvent::SoftBreak | MdEvent::HardBreak => {
            let mut nl = String::new();
            crate::text::string_push(&mut nl, '\n');
            assert(nl@ =~= seq!['\n']);
            add_to_top_exec(stack, RichTextNode::Plain(nl));
        },
        MdEvent::Other => {},
    }
}

impl RichText {
    /// Builds the document that a stream of Markdown events describes.
    pub fn from_events(events: &Vec<MdEvent>) -> (doc: RichText)
        ensures
            doc@ == events_doc(events@),
    {
        let mut stack: Vec<Vec<RichTextNode>> = Vec::new();
        stack.push(Vec::new());
        assert(frames_view(stack@) =~= frames_after(events@.take(0))) by {
            assert(seq_view(Seq::<RichTextNode>::empty()) =~= Seq::<RtNode>::empty());
        }
        let mut i: usize = 0;
        while i < events.len()
            invariant
                i <= events.len(),
                frames_view(stack@) == frames_after(events@.take(i as int)),
            decreases events.len() - i,
        {
            apply_event_exec(&mut stack, &events[i]);
            assert(events@.take(i + 1).drop_last() =~= events@.take(i as int));
            i += 1;
        }
        assert(events@.take(events.len() as int) =~= events@);
        let doc = if stack.len() > 0 {
            let ghost sv = stack@;
            let mut rest = stack;
            let first = rest.swap_remove(0);
            assert(seq_view(first@) == frames_view(sv)[0]);
            first
        } else {
            Vec::new()
        };
        proof {
            assert(seq_view(Seq::<RichTextNode>::empty()) =~= Seq::<RtNode>::empty());
        }
        RichText(doc)
    }

    /// Parse from Markdown using pulldown-cmark.
    pub fn from_markdown(text: &str) -> (doc: RichText)
        ensures
            doc@ == events_doc(markdown_events(text@)),
    {
        let events = read_markdown_events(text);
        RichText::from_events(&events)
    }
}

/// The Markdown events of `text`.
///
/// Trusted: `pulldown_cmark::Parser::new_ext` with
/// `Options::ENABLE_STRIKETHROUGH`, its events converted one for one into
/// `MdEvent`s; the result is only named (`markdown_events`), as a function
/// of the text.
#[verifier::external_body]
fn read_markdown_events(text: &str) -> (events: Vec<MdEvent>)
    ensures
        events@ == markdown_events(text@),
{
    let mut opts = pulldown_cmark::Options::empty();
    opts.insert(pulldown_cmark::Options::ENABLE_STRIKETHROUGH);
    pulldown_cmark::Parser::new_ext(text, opts).map(md_event).collect()
}

/// The HTML that pulldown-cmark renders of a Markdown text, with the
/// parser's default options.
pub uninterp spec fn commonmark_html(text: Seq<char>) -> Seq<char>;

/// Renders Markdown as HTML.
///
/// Trusted: `pulldown_cmark::Parser::new` followed by
/// `pulldown_cmark::html::push_html` into an empty string; the HTML is
/// only named (`commonmark_html`), as a function of the text.
#[verifier::external_body]
pub(crate) fn markdown_html(text: &str) -> (html: String)
    ensures
        html@ == commonmark_html(text@),
{
    let mut out = String::new();
    pulldown_cmark::html::push_html(&mut out, pulldown_cmark::Parser::new(text));
    out
}

#[verifier::external_type_specification]
#[verifier::external_body]
pub struct ExEvent<'a>(pulldown_cmark::Event<'a>);

#[verifier::external_type_specification]
#[verifier::external_body]
pub struct ExTag<'a>(pulldown_cmark::Tag<'a>);

#[verifier::external_type_specification]
#[verifier::external_body]
pub struct ExTagEnd(pulldown_cmark::TagEnd);

/// Converts a pulldown-cmark event (trusted: a one-for-one conversion).
#[verifier::external_body]
fn md_event(e: Event<'_>) -> MdEvent {
    match e {
        Event::Start(tag) => md_start(tag),
        Event::End(tag) => md_end(tag),
        Event::Code(t) => MdEvent::Code(t.to_string()),
        Event::Text(t) => MdEvent::Text(t.to_string()),
        Event::SoftBreak => MdEvent::SoftBreak,
        Event::HardBreak => MdEvent::HardBreak,
        _ => MdEvent::Other,
    }
}

/// Converts a pulldown-cmark start tag (trusted: a one-for-one conversion).
#[verifier::external_body]
fn md_start(tag: Tag<'_>) -> MdEvent {
    match tag {
        Tag::Strong => MdEvent::StartStrong,
        Tag::Emphasis => MdEvent::StartEmphasis,
        Tag::Strikethrough => MdEvent::StartStrikethrough,
        Tag::BlockQuote(_) => MdEvent::StartBlockQuote,
        Tag::Heading { level, .. } => MdEvent::StartHeading(level as u8),
        Tag::Link { dest_url, .. } => MdEvent::StartLink(dest_url.to_string()),
        Tag::CodeBlock(CodeBlockKind::Fenced(l)) => MdEvent::StartCodeBlock(Some(l.to_string())),
        Tag::CodeBlock(CodeBlockKind::Indented) => MdEvent::StartCodeBlock(None),
        _ => MdEvent::Other,
    }
}

/// Converts a pulldown-cmark end tag (trusted: a one-for-one conversion).
#[verifier::external_body]
fn md_end(tag: TagEnd) -> MdEvent {
    match tag {
        TagEnd::Strong => MdEvent::EndStrong,
        TagEnd::Emphasis => MdEvent::EndEmphasis,
        TagEnd::Strikethrough => MdEvent::EndStrikethrough,
        TagEnd::BlockQuote(_) => MdEvent::EndBlockQuote,
        TagEnd::Heading(_) => MdEvent::EndHeading,
        TagEnd::Link => MdEvent::EndLink,
        TagEnd::CodeBlock => MdEvent::EndCodeBlock,
        _ => MdEvent::Other,
    }
}

} // verus!
