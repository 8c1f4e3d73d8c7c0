//! Streaming support for messenger channels.
//!
//! Provides utilities for streaming model responses to messenger channels
//! in real-time, rather than waiting for the full response. Different
//! messengers support different streaming strategies:
//!
//! - **Edit-based**: Send an initial message, then edit it as tokens arrive
//!   (Telegram, Discord, Slack).
//! - **Chunked**: Send partial messages at intervals (IRC, generic).
//! - **Draft**: Use platform-specific draft/typing APIs (where available).
use vstd::prelude::*;
use crate::markdown::{
    fit_count, fit_count_exec, lemma_fit_count_fits, prepend, string_views, strings_of, views,
};
use crate::text::{
    char_len, chars_of, is_ws, joined, last_match, lemma_joined_prepend, lemma_utf8_len_prefix, lemma_visible_concat,
    lemma_visible_trim_start, rfind, rfind_in, skip_ws, str_eq, string_of, trim_start, utf8_len,
    utf8_len_range, visible,
};
use std::time::{Duration, Instant};

verus! {

/// Streaming strategy for a messenger.
#[derive(Debug, Clone, Copy, PartialEq, Eq, Structural)]
pub enum StreamStrategy {
    /// Send initial message, then edit in place as tokens arrive.
    EditInPlace,
    /// Accumulate tokens and send chunks at intervals.
    Chunked,
    /// Wait for full response before sending (no streaming).
    BufferAll,
}

impl Default for StreamStrategy {
    fn default() -> (s: Self)
        ensures
            s == StreamStrategy::EditInPlace,
    {
        StreamStrategy::EditInPlace
    }
}

/// Configuration for messenger streaming.
#[derive(Debug)]
pub struct StreamConfig {
    /// Whether streaming is enabled for this messenger.
    pub enabled: bool,
    /// Streaming strategy.
    pub strategy: StreamStrategy,
    /// Minimum interval between message edits (milliseconds).
    /// Prevents rate-limiting from too-frequent edits.
    pub edit_interval_ms: u64,
    /// For chunked strategy: minimum characters before sending a chunk.
    pub chunk_min_chars: usize,
    /// Maximum message length before splitting into multiple messages.
    pub max_message_len: usize,
    /// Whether to show a typing indicator while generating.
    pub show_typing: bool,
    /// Suffix to append while streaming is in progress (e.g., " ▌").
    pub streaming_cursor: String,
}

/// The default minimum interval between edits.
pub fn default_edit_interval_ms() -> (v: u64)
    ensures
        v == 500,
{
    500
}

/// The default chunk size for the chunked strategy.
pub fn default_chunk_min_chars() -> (v: usize)
    ensures
        v == 100,
{
    100
}

/// The default maximum message length.
pub fn default_max_message_len() -> (v: usize)
    ensures
        v == 4000,
{
    4000
}

/// The default streaming cursor, a space and a left half block.
pub fn default_cursor() -> (s: String)
    ensures
        s@ == " \u{258C}"@,
{
    String::from_str(" \u{258C}")
}

impl Default for StreamConfig {
    fn default() -> (c: Self)
        ensures
            !c.enabled,
            c.strategy == StreamStrategy::EditInPlace,
            c.edit_interval_ms == 500,
            c.chunk_min_chars == 100,
            c.max_message_len == 4000,
            c.show_typing,
            c.streaming_cursor@ == " \u{258C}"@,
    {
        StreamConfig {
            enabled: false,
            strategy: StreamStrategy::EditInPlace,
            edit_interval_ms: default_edit_interval_ms(),
            chunk_min_chars: default_chunk_min_chars(),
            max_message_len: default_max_message_len(),
            show_typing: true,
            streaming_cursor: default_cursor(),
        }
    }
}

#[verifier::external_type_specification]
#[verifier::external_body]
pub struct ExInstant(Instant);

/// The current time.
///
/// Trusted: `Instant::now`; nothing is stated of the value.
#[verifier::external_body]
fn instant_now() -> Instant {
    Instant::now()
}

/// The time elapsed since `i`.
///
/// Trusted: `Instant::elapsed`; nothing is stated of the value.
#[verifier::external_body]
fn elapsed_since(i: &Instant) -> Duration {
    i.elapsed()
}

/// Whole milliseconds of a duration.
///
/// Trusted: `Duration::as_millis`; nothing is stated of the value.
#[verifier::external_body]
fn duration_millis(d: &Duration) -> u128 {
    d.as_millis()
}

/// Buffer that accumulates streaming tokens and decides when to flush.
pub struct StreamBuffer {
    /// Accumulated text.
    content: String,
    /// Last time a flush (edit/send) was performed.
    last_flush: Instant,
    /// Configuration.
    config: StreamConfig,
    /// Number of flushes performed.
    flush_count: usize,
    /// Whether the stream is complete.
    done: bool,
}

/// The model of a `StreamBuffer` (everything but the time of the last flush).
pub ghost struct StreamState {
    pub content: Seq<char>,
    pub strategy: StreamStrategy,
    pub edit_interval_ms: u64,
    pub chunk_min_chars: usize,
    pub max_message_len: usize,
    pub cursor: Seq<char>,
    pub flush_count: nat,
    pub done: bool,
}

impl View for StreamBuffer {
    type V = StreamState;

    closed spec fn view(&self) -> StreamState {
        StreamState {
            content: self.content@,
            strategy: self.config.strategy,
            edit_interval_ms: self.config.edit_interval_ms,
            chunk_min_chars: self.config.chunk_min_chars,
            max_message_len: self.config.max_message_len,
            cursor: self.config.streaming_cursor@,
            flush_count: self.flush_count as nat,
            done: self.done,
        }
    }
}

/// Action to perform after flushing the stream buffer.
#[derive(Debug)]
pub enum FlushAction {
    /// Send a new message.
    SendNew(String),
    /// Edit the previously sent message.
    EditExisting(String),
}

/// The model of a `FlushAction`.
pub ghost enum FlushView {
    SendNew(Seq<char>),
    EditExisting(Seq<char>),
}

impl View for FlushAction {
    type V = FlushView;

    open spec fn view(&self) -> FlushView {
        match self {
            FlushAction::SendNew(s) => FlushView::SendNew(s@),
            FlushAction::EditExisting(s) => FlushView::EditExisting(s@),
        }
    }
}

/// Whether a flush is due, `elapsed_ms` milliseconds after the last one.
pub open spec fn flush_due(st: StreamState, elapsed_ms: u128) -> bool {
    if st.done {
        true
    } else {
        match st.strategy {
            StreamStrategy::EditInPlace => elapsed_ms >= st.edit_interval_ms && st.content.len()
                > 0,
            StreamStrategy::Chunked => elapsed_ms >= st.edit_interval_ms && utf8_len(st.content)
                >= st.chunk_min_chars,
            StreamStrategy::BufferAll => st.done,
        }
    }
}

/// What a flush returns, and the state after it (when it counts as a flush).
pub open spec fn flush_outcome(st: StreamState) -> (Option<FlushView>, StreamState) {
    if st.content.len() == 0 && !st.done {
        (None, st)
    } else {
        let counted = StreamState { flush_count: st.flush_count + 1, ..st };
        match st.strategy {
            StreamStrategy::EditInPlace => {
                let text = if st.done {
                    st.content
                } else {
                    st.content + st.cursor
                };
                (
                    Some(
                        if counted.flush_count == 1 {
                            FlushView::SendNew(text)
                        } else {
                            FlushView::EditExisting(text)
                        },
                    ),
                    counted,
                )
            },
            StreamStrategy::Chunked => {
                let cleared = StreamState { content: Seq::empty(), ..counted };
                if st.content.len() == 0 {
                    (None, cleared)
                } else {
                    (Some(FlushView::SendNew(st.content)), cleared)
                }
            },
            StreamStrategy::BufferAll => if st.done {
                (
                    Some(FlushView::SendNew(st.content)),
                    StreamState { content: Seq::empty(), ..counted },
                )
            } else {
                (None, counted)
            },
        }
    }
}

/// The pieces of the text `r` (already longer than `max` bytes in the
/// first call): cut at the last line break, else the last space, before the
/// `max`-byte boundary, else at the boundary; leading whitespace of the
/// rest is dropped. `None` where the cutting makes no progress (the loop
/// that does it would not end).
pub open spec fn split_rest(r: Seq<char>, max: nat) -> Option<Seq<Seq<char>>>
    decreases r.len(),
{
    if r.len() == 0 {
        Some(Seq::empty())
    } else if utf8_len(r) <= max {
        Some(seq![r])
    } else {
        let b = fit_count(r, max as int) as int;
        let head = r.take(b);
        let cut = match rfind(head, seq!['\n']) {
            Some(k) => k,
            None => match rfind(head, seq![' ']) {
                Some(k) => k,
                None => b,
            },
        };
        let rest = trim_start(r.skip(cut));
        if 0 <= cut <= r.len() && rest.len() < r.len() {
            prepend(seq![r.take(cut)], split_rest(rest, max))
        } else {
            None
        }
    }
}

/// The message-sized pieces of `content` for a limit of `max` bytes.
pub open spec fn split_plan(content: Seq<char>, max: nat) -> Option<Seq<Seq<char>>> {
    if utf8_len(content) <= max {
        Some(seq![content])
    } else {
        split_rest(content, max)
    }
}

/// `trim_start` never lengthens.
proof fn lemma_trim_start_len(s: Seq<char>)
    ensures
        trim_start(s).len() <= s.len(),
        trim_start(s).len() < s.len() <== (s.len() > 0 && is_ws(s[0])),
    decreases s.len(),
{
    if s.len() > 0 && is_ws(s[0]) {
        lemma_trim_start_len(s.drop_first());
    }
}

impl StreamBuffer {
    /// Create a new stream buffer.
    pub fn new(config: StreamConfig) -> (b: StreamBuffer)
        ensures
            b@.content == Seq::<char>::empty(),
            b@.strategy == config.strategy,
            b@.edit_interval_ms == config.edit_interval_ms,
            b@.chunk_min_chars == config.chunk_min_chars,
            b@.max_message_len == config.max_message_len,
            b@.cursor == config.streaming_cursor@,
            b@.flush_count == 0,
            !b@.done,
    {
        StreamBuffer {
            content: String::new(),
            last_flush: instant_now(),
            config,
            flush_count: 0,
            done: false,
        }
    }

    /// Add a text chunk to the buffer.
    pub fn push(&mut self, text: &str)
        ensures
            final(self)@ == (StreamState { content: old(self)@.content + text@, ..old(self)@ }),
    {
        self.content.append(text);
    }

    /// Mark the stream as complete.
    pub fn finish(&mut self)
        ensures
            final(self)@ == (StreamState { done: true, ..old(self)@ }),
    {
        self.done = true;
    }

    /// Check if a flush is needed based on strategy and timing.
    pub fn should_flush(&self) -> (b: bool)
        ensures
            exists|elapsed_ms: u128| b == flush_due(self@, elapsed_ms),
    {
        if self.done {
            assert(flush_due(self@, 0));
            return true;
        }
        let elapsed = elapsed_since(&self.last_flush);
        let ms = duration_millis(&elapsed);
        self.should_flush_after(ms)
    }

    /// Whether a flush is due `elapsed_ms` milliseconds after the last one.
    pub fn should_flush_after(&self, elapsed_ms: u128) -> (b: bool)
        ensures
            b == flush_due(self@, elapsed_ms),
    {
        if self.done {
            return true;
        }
        let interval = self.config.edit_interval_ms as u128;
        match self.config.strategy {
            StreamStrategy::EditInPlace => elapsed_ms >= interval && !self.content.as_str().is_empty(),
            StreamStrategy::Chunked => {
                let v = chars_of(self.content.as_str());
                let n = utf8_len_range(&v, 0, v.len());
                assert(v@.subrange(0, v.len() as int) =~= v@);
                elapsed_ms >= interval && n >= self.config.chunk_min_chars as u128
            },
            StreamStrategy::BufferAll => self.done,
        }
    }

    /// Get the current content to send/edit.
    ///
    /// For EditInPlace: returns full accumulated content with cursor.
    /// For Chunked: returns the pending chunk and clears the buffer.
    ///
    /// Over any sequence of pushes, finishes and flushes, what the flushes
    /// return is stated by `lemma_edit_in_place_flush_sequence` and
    /// `lemma_chunked_flush_sequence`.
    pub fn flush(&mut self) -> (action: Option<FlushAction>)
        requires
            old(self)@.flush_count < usize::MAX,
        ensures
            match action {
                Some(a) => flush_outcome(old(self)@).0 == Some(a@),
                None => flush_outcome(old(self)@).0 is None,
            },
            final(self)@ == flush_outcome(old(self)@).1,
    {
        if self.content.as_str().is_empty() && !self.done {
            return None;
        }
        self.last_flush = instant_now();
        self.flush_count += 1;
        match self.config.strategy {
            StreamStrategy::EditInPlace => {
                let display_text = if self.done {
                    self.content.clone()
                } else {
                    let mut t = self.content.clone();
                    t.append(self.config.streaming_cursor.as_str());
                    t
                };
                if self.flush_count == 1 {
                    Some(FlushAction::SendNew(display_text))
                } else {
                    Some(FlushAction::EditExisting(display_text))
                }
            },
            StreamStrategy::Chunked => {
                let mut chunk = String::new();
                std::mem::swap(&mut chunk, &mut self.content);
                if chunk.as_str().is_empty() {
                    return None;
                }
                Some(FlushAction::SendNew(chunk))
            },
            StreamStrategy::BufferAll => {
                if self.done {
                    let mut all = String::new();
                    std::mem::swap(&mut all, &mut self.content);
                    Some(FlushAction::SendNew(all))
                } else {
                    None
                }
            },
        }
    }

    /// Check if streaming is complete.
    pub fn is_done(&self) -> (b: bool)
        ensures
            b == self@.done,
    {
        self.done
    }

    /// Get current content length (in bytes).
    pub fn content_len(&self) -> (n: usize)
        requires
            utf8_len(self@.content) <= usize::MAX,
        ensures
            n == utf8_len(self@.content),
    {
        let v = chars_of(self.content.as_str());
        let n = utf8_len_range(&v, 0, v.len());
        assert(v@.subrange(0, v.len() as int) =~= v@);
        n as usize
    }

    /// Check if content exceeds max message length and needs splitting.
    pub fn needs_split(&self) -> (b: bool)
        ensures
            b == (utf8_len(self@.content) > self@.max_message_len),
    {
        let v = chars_of(self.content.as_str());
        let n = utf8_len_range(&v, 0, v.len());
        assert(v@.subrange(0, v.len() as int) =~= v@);
        n > self.config.max_message_len as u128
    }

    /// Split content into message-sized chunks; `None` for the contents on
    /// which the cutting makes no progress.
    pub fn try_split_content(&self) -> (chunks: Option<Vec<String>>)
        ensures
            match chunks {
                Some(c) => split_plan(self@.content, self@.max_message_len as nat) == Some(
                    string_views(c@),
                ),
                None => split_plan(self@.content, self@.max_message_len as nat) is None,
            },
    {
        let v = chars_of(self.content.as_str());
        let max = self.config.max_message_len;
        let total = utf8_len_range(&v, 0, v.len());
        assert(v@.subrange(0, v.len() as int) =~= v@);
        if total <= max as u128 {
            let mut one: Vec<String> = Vec::new();
            one.push(self.content.clone());
            assert(string_views(one@) =~= seq![self@.content]);
            return Some(one);
        }
        match split_chars(&v, max) {
            Some(cs) => Some(strings_of(&cs)),
            None => None,
        }
    }

    /// Split content into message-sized chunks.
    pub fn split_content(&self) -> (chunks: Vec<String>)
        requires
            self@.max_message_len >= 4 || split_plan(self@.content, self@.max_message_len as nat) is Some,
        ensures
            split_plan(self@.content, self@.max_message_len as nat) is Some,
            string_views(chunks@) == split_plan(self@.content, self@.max_message_len as nat)->0,
            forall|i: int|
                0 <= i < chunks@.len() ==> utf8_len(#[trigger] chunks@[i]@) <= self@.max_message_len,
            visible(joined(string_views(chunks@))) == visible(self@.content),
    {
        proof {
            if self@.max_message_len >= 4 {
                lemma_split_plan_exists(self@.content, self@.max_message_len as nat);
            }
            lemma_split_pieces_within_limit(self@.content, self@.max_message_len as nat);
            lemma_split_keeps_text(self@.content, self@.max_message_len as nat);
        }
        let chunks = match self.try_split_content() {
            Some(c) => c,
            None => Vec::new(),
        };
        assert forall|i: int| 0 <= i < chunks@.len() implies #[trigger] chunks@[i]@ == string_views(
            chunks@,
        )[i] by {}
        chunks
    }
}

/// The pieces of `v` (longer than `max` bytes) as `split_rest` cuts them.
fn split_chars(v: &Vec<char>, max: usize) -> (r: Option<Vec<Vec<char>>>)
    ensures
        match r {
            Some(cs) => split_rest(v@, max as nat) == Some(views(cs@)),
            None => split_rest(v@, max as nat) is None,
        },
{
    let len = v.len();
    let nl = vec!['\n'];
    let sp = vec![' '];
    assert(nl@ =~= seq!['\n']);
    assert(sp@ =~= seq![' ']);
    let mut chunks: Vec<Vec<char>> = Vec::new();
    let mut pos: usize = 0;
    assert(v@.skip(0) =~= v@);
    assert(views(chunks@) =~= Seq::<Seq<char>>::empty());
    assert(prepend(Seq::empty(), split_rest(v@, max as nat)) =~= split_rest(v@, max as nat)) by {
        match split_rest(v@, max as nat) {
            Some(ps) => {
                assert(Seq::<Seq<char>>::empty() + ps =~= ps);
            },
            None => {},
        }
    }
    while pos < len
        invariant
            pos <= len == v.len(),
            nl@ == seq!['\n'],
            sp@ == seq![' '],
            prepend(views(chunks@), split_rest(v@.skip(pos as int), max as nat)) == split_rest(
                v@,
                max as nat,
            ),
        decreases len - pos,
    {
        let ghost r = v@.skip(pos as int);
        assert(r =~= v@.subrange(pos as int, len as int));
        let rest_bytes = utf8_len_range(v, pos, len);
        if rest_bytes <= max as u128 {
            let piece = crate::text::slice_of(v, pos, len);
            let ghost old_chunks = chunks@;
            chunks.push(piece);
            assert(views(chunks@) =~= views(old_chunks).push(r));
            assert(split_rest(r, max as nat) == Some(seq![r]));
            assert(views(old_chunks) + seq![r] =~= views(chunks@));
            assert(v@.skip(len as int) =~= Seq::<char>::empty());
            assert(split_rest(v@.skip(len as int), max as nat) == Some(Seq::<Seq<char>>::empty()));
            assert(views(chunks@) + Seq::<Seq<char>>::empty() =~= views(chunks@));
            pos = len;
        } else {
            let b = fit_count_exec(v, pos, len, max as u128);
            let ghost head = r.take(b as int);
            assert(head =~= v@.subrange(pos as int, pos + b));
            let cut = match rfind_in(v, pos, pos + b, &nl) {
                Some(k) => k,
                None => match rfind_in(v, pos, pos + b, &sp) {
                    Some(k) => k,
                    None => b,
                },
            };
            proof {
                if rfind(head, seq!['\n']) is Some {
                    let k = rfind(head, seq!['\n'])->0;
                    assert(crate::text::last_match(head, seq!['\n'], k));
                }
                if rfind(head, seq!['\n']) is None && rfind(head, seq![' ']) is Some {
                    let k = rfind(head, seq![' '])->0;
                    assert(crate::text::last_match(head, seq![' '], k));
                }
            }
            assert(cut <= b);
            let next = skip_ws(v, pos + cut, len);
            assert(r.skip(cut as int) =~= v@.subrange(pos + cut, len as int));
            let ghost rest = trim_start(r.skip(cut as int));
            assert(rest =~= v@.subrange(next as int, len as int));
            if next == pos {
                assert(split_rest(r, max as nat) is None);
                return None;
            }
            let piece = crate::text::slice_of(v, pos, pos + cut);
            let ghost old_chunks = chunks@;
            chunks.push(piece);
            assert(r.take(cut as int) =~= v@.subrange(pos as int, pos + cut));
            assert(views(chunks@) =~= views(old_chunks).push(r.take(cut as int)));
            assert(v@.skip(next as int) =~= rest);
            proof {
                match split_rest(rest, max as nat) {
                    Some(ps) => {
                        assert(views(old_chunks) + (seq![r.take(cut as int)] + ps)
                            =~= views(chunks@) + ps);
                    },
                    None => {},
                }
            }
            pos = next;
        }
    }
    assert(v@.skip(pos as int) =~= Seq::<char>::empty());
    assert(views(chunks@) + Seq::<Seq<char>>::empty() =~= views(chunks@));
    Some(chunks)
}

/// Get the recommended stream strategy for a messenger type.
pub open spec fn recommended(messenger_type: Seq<char>) -> StreamStrategy {
    if messenger_type == "telegram"@ || messenger_type == "discord"@ || messenger_type
        == "slack"@ {
        StreamStrategy::EditInPlace
    } else if messenger_type == "irc"@ || messenger_type == "webhook"@ {
        StreamStrategy::Chunked
    } else if messenger_type == "teams"@ || messenger_type == "google_chat"@ {
        StreamStrategy::EditInPlace
    } else {
        StreamStrategy::BufferAll
    }
}

/// Get the recommended stream strategy for a messenger type.
pub fn recommended_strategy(messenger_type: &str) -> (s: StreamStrategy)
    ensures
        s == recommended(messenger_type@),
{
    if str_eq(messenger_type, "telegram") || str_eq(messenger_type, "discord") || str_eq(
        messenger_type,
        "slack",
    ) {
        StreamStrategy::EditInPlace
    } else if str_eq(messenger_type, "irc") || str_eq(messenger_type, "webhook") {
        StreamStrategy::Chunked
    } else if str_eq(messenger_type, "teams") || str_eq(messenger_type, "google_chat") {
        StreamStrategy::EditInPlace
    } else {
        StreamStrategy::BufferAll
    }
}

/// The cutting never yields a piece over the limit: each piece is cut at
/// or before the limit's boundary, and the last is short enough.
proof fn lemma_split_rest_bound(r: Seq<char>, max: nat)
    requires
        split_rest(r, max) is Some,
    ensures
        forall|i: int|
            0 <= i < split_rest(r, max)->0.len() ==> utf8_len(#[trigger] split_rest(r, max)->0[i])
                <= max,
    decreases r.len(),
{
    if r.len() > 0 && utf8_len(r) > max {
        let b = fit_count(r, max as int) as int;
        lemma_fit_count_fits(r, max as int);
        let head = r.take(b);
        let cut = match rfind(head, seq!['\n']) {
            Some(k) => k,
            None => match rfind(head, seq![' ']) {
                Some(k) => k,
                None => b,
            },
        };
        if rfind(head, seq!['\n']) is Some {
            let k = rfind(head, seq!['\n'])->0;
            assert(crate::text::last_match(head, seq!['\n'], k));
        }
        if rfind(head, seq!['\n']) is None && rfind(head, seq![' ']) is Some {
            let k = rfind(head, seq![' '])->0;
            assert(crate::text::last_match(head, seq![' '], k));
        }
        assert(0 <= cut <= b);
        lemma_utf8_len_prefix(head, cut);
        assert(head.take(cut) =~= r.take(cut));
        let rest = trim_start(r.skip(cut));
        lemma_split_rest_bound(rest, max);
        let ps = split_rest(rest, max)->0;
        assert(split_rest(r, max)->0 == seq![r.take(cut)] + ps);
        assert forall|i: int| 0 <= i < split_rest(r, max)->0.len() implies utf8_len(
            #[trigger] split_rest(r, max)->0[i],
        ) <= max by {
            if i > 0 {
                assert(split_rest(r, max)->0[i] == ps[i - 1]);
            }
        }
    }
}

/// Every message-sized piece of the content is within the maximum message
/// length (in bytes).
pub proof fn lemma_split_pieces_within_limit(content: Seq<char>, max: nat)
    requires
        split_plan(content, max) is Some,
    ensures
        forall|i: int|
            0 <= i < split_plan(content, max)->0.len() ==> utf8_len(
                #[trigger] split_plan(content, max)->0[i],
            ) <= max,
{
    if utf8_len(content) > max {
        lemma_split_rest_bound(content, max);
    }
}

proof fn lemma_split_rest_visible(r: Seq<char>, max: nat)
    requires
        split_rest(r, max) is Some,
    ensures
        visible(joined(split_rest(r, max)->0)) == visible(r),
    decreases r.len(),
{
    if r.len() == 0 {
    } else if utf8_len(r) <= max {
        lemma_joined_prepend(r, Seq::empty());
        assert(seq![r] + Seq::<Seq<char>>::empty() =~= seq![r]);
        assert(r + Seq::<char>::empty() =~= r);
    } else {
        let b = fit_count(r, max as int) as int;
        let head = r.take(b);
        let cut = match rfind(head, seq!['\n']) {
            Some(k) => k,
            None => match rfind(head, seq![' ']) {
                Some(k) => k,
                None => b,
            },
        };
        let rest = trim_start(r.skip(cut));
        lemma_split_rest_visible(rest, max);
        let ps = split_rest(rest, max)->0;
        lemma_joined_prepend(r.take(cut), ps);
        lemma_visible_concat(r.take(cut), joined(ps));
        lemma_visible_trim_start(r.skip(cut));
        lemma_visible_concat(r.take(cut), r.skip(cut));
        assert(r.take(cut) + r.skip(cut) =~= r);
    }
}

proof fn lemma_split_rest_exists(r: Seq<char>, max: nat)
    requires
        max >= 4,
    ensures
        split_rest(r, max) is Some,
    decreases r.len(),
{
    if r.len() > 0 && utf8_len(r) > max {
        assert(char_len(r[0]) <= 4);
        let b = fit_count(r, max as int) as int;
        lemma_fit_count_fits(r, max as int);
        assert(b >= 1);
        let head = r.take(b);
        let cut = match rfind(head, seq!['\n']) {
            Some(k) => k,
            None => match rfind(head, seq![' ']) {
                Some(k) => k,
                None => b,
            },
        };
        match rfind(head, seq!['\n']) {
            Some(k) => {
                assert(last_match(head, seq!['\n'], k));
                assert(head.subrange(k, k + 1)[0] == head[k]);
            },
            None => match rfind(head, seq![' ']) {
                Some(k) => {
                    assert(last_match(head, seq![' '], k));
                    assert(head.subrange(k, k + 1)[0] == head[k]);
                },
                None => {},
            },
        }
        assert(0 <= cut <= b);
        lemma_trim_start_len(r.skip(cut));
        if cut == 0 {
            assert(r.skip(0) =~= r);
            assert(head[0] == r[0]);
            assert(is_ws(r[0]));
        }
        let rest = trim_start(r.skip(cut));
        assert(rest.len() < r.len());
        lemma_split_rest_exists(rest, max);
    }
}

/// With a limit of at least four bytes (the widest character), splitting
/// always makes progress and ends.
pub proof fn lemma_split_plan_exists(content: Seq<char>, max: nat)
    requires
        max >= 4,
    ensures
        split_plan(content, max) is Some,
{
    lemma_split_rest_exists(content, max);
}

/// Splitting loses no text: written one after another, the pieces hold
/// every visible character of the content, in order; only whitespace at
/// the cuts is dropped.
pub proof fn lemma_split_keeps_text(content: Seq<char>, max: nat)
    requires
        split_plan(content, max) is Some,
    ensures
        visible(joined(split_plan(content, max)->0)) == visible(content),
{
    if utf8_len(content) <= max {
        lemma_joined_prepend(content, Seq::empty());
        assert(seq![content] + Seq::<Seq<char>>::empty() =~= seq![content]);
        assert(content + Seq::<char>::empty() =~= content);
    } else {
        lemma_split_rest_visible(content, max);
    }
}

/// In chunked mode a flush of pending text sends exactly that text and
/// leaves the buffer empty.
pub proof fn lemma_chunked_flush_sends_all(st: StreamState)
    requires
        st.strategy == StreamStrategy::Chunked,
        st.content.len() > 0,
    ensures
        flush_outcome(st).0 == Some(FlushView::SendNew(st.content)),
        flush_outcome(st).1.content.len() == 0,
        flush_outcome(st).1.flush_count == st.flush_count + 1,
{
}

/// In edit-in-place mode the first flush sends a new message and every
/// later one edits it; the cursor is shown until the stream is done.
pub proof fn lemma_edit_in_place_sends_then_edits(st: StreamState)
    requires
        st.strategy == StreamStrategy::EditInPlace,
        st.content.len() > 0 || st.done,
    ensures
        flush_outcome(st).0 == Some(
            if st.flush_count == 0 {
                FlushView::SendNew(
                    if st.done {
                        st.content
                    } else {
                        st.content + st.cursor
                    },
                )
            } else {
                FlushView::EditExisting(
                    if st.done {
                        st.content
                    } else {
                        st.content + st.cursor
                    },
                )
            },
        ),
        flush_outcome(st).1.content == st.content,
{
}

/// In buffer-all mode nothing is sent before the stream is done, and then
/// everything is sent at once.
pub proof fn lemma_buffer_all_waits(st: StreamState, elapsed_ms: u128)
    requires
        st.strategy == StreamStrategy::BufferAll,
    ensures
        flush_due(st, elapsed_ms) == st.done,
        !st.done ==> flush_outcome(st).0 is None,
        st.done ==> flush_outcome(st).0 == Some(FlushView::SendNew(st.content)),
{
}

/// A call on a stream buffer that changes it.
pub ghost enum StreamOp {
    /// `push` with the given text.
    Push(Seq<char>),
    /// `finish`.
    Finish,
    /// `flush`.
    Flush,
}

/// What a call returns (only a flush returns something) and the state
/// after it.
pub open spec fn stream_step(st: StreamState, op: StreamOp) -> (Option<FlushView>, StreamState) {
    match op {
        StreamOp::Push(t) => (None, StreamState { content: st.content + t, ..st }),
        StreamOp::Finish => (None, StreamState { done: true, ..st }),
        StreamOp::Flush => flush_outcome(st),
    }
}

/// The state after the calls `ops`, one after another, from `st`.
pub open spec fn stream_run(st: StreamState, ops: Seq<StreamOp>) -> StreamState
    decreases ops.len(),
{
    if ops.len() == 0 {
        st
    } else {
        stream_step(stream_run(st, ops.drop_last()), ops.last()).1
    }
}

/// What each of the calls `ops` returned, in order, from `st`.
pub open spec fn stream_replies(st: StreamState, ops: Seq<StreamOp>) -> Seq<Option<FlushView>>
    decreases ops.len(),
{
    if ops.len() == 0 {
        Seq::empty()
    } else {
        stream_replies(st, ops.drop_last()).push(
            stream_step(stream_run(st, ops.drop_last()), ops.last()).0,
        )
    }
}

/// All the text pushed by `ops`, in order.
pub open spec fn pushed_text(ops: Seq<StreamOp>) -> Seq<char>
    decreases ops.len(),
{
    if ops.len() == 0 {
        Seq::empty()
    } else {
        pushed_text(ops.drop_last()) + match ops.last() {
            StreamOp::Push(t) => t,
            _ => Seq::empty(),
        }
    }
}

/// Whether `ops` holds a `finish`.
pub open spec fn finished(ops: Seq<StreamOp>) -> bool
    decreases ops.len(),
{
    if ops.len() == 0 {
        false
    } else {
        finished(ops.drop_last()) || ops.last() is Finish
    }
}

/// How many of `replies` are actions.
pub open spec fn action_count(replies: Seq<Option<FlushView>>) -> nat
    decreases replies.len(),
{
    if replies.len() == 0 {
        0
    } else {
        action_count(replies.drop_last()) + if replies.last() is Some {
            1nat
        } else {
            0nat
        }
    }
}

/// The texts of the actions among `replies`, one after another.
pub open spec fn sent_text(replies: Seq<Option<FlushView>>) -> Seq<char>
    decreases replies.len(),
{
    if replies.len() == 0 {
        Seq::empty()
    } else {
        sent_text(replies.drop_last()) + match replies.last() {
            Some(FlushView::SendNew(t)) => t,
            Some(FlushView::EditExisting(t)) => t,
            None => Seq::empty(),
        }
    }
}

/// What the calls keep of the state in edit-in-place mode: the buffer holds
/// everything pushed, the counter counts the actions returned.
proof fn lemma_edit_in_place_run(st: StreamState, ops: Seq<StreamOp>)
    requires
        st.strategy == StreamStrategy::EditInPlace,
    ensures
        stream_run(st, ops).strategy == StreamStrategy::EditInPlace,
        stream_run(st, ops).cursor == st.cursor,
        stream_run(st, ops).content == st.content + pushed_text(ops),
        stream_run(st, ops).done == (st.done || finished(ops)),
        stream_run(st, ops).flush_count == st.flush_count + action_count(
            stream_replies(st, ops),
        ),
    decreases ops.len(),
{
    if ops.len() == 0 {
        assert(st.content + pushed_text(ops) =~= st.content);
    } else {
        let prev = ops.drop_last();
        lemma_edit_in_place_run(st, prev);
        let r = stream_replies(st, prev);
        let x = stream_step(stream_run(st, prev), ops.last()).0;
        assert(stream_replies(st, ops).drop_last() =~= r);
        assert(stream_replies(st, ops).last() == x);
        match ops.last() {
            StreamOp::Push(t) => {
                assert(st.content + pushed_text(ops) =~= st.content + pushed_text(prev) + t);
            },
            _ => {
                assert(st.content + pushed_text(ops) =~= st.content + pushed_text(prev));
            },
        }
    }
}

/// Edit-in-place streaming, over any sequence of pushes, finishes and
/// flushes: a flush returns nothing, and changes nothing, exactly when no
/// text was pushed and the stream is not done; otherwise it shows all the
/// text pushed so far (with the cursor until the stream is done), as a new
/// message the first time and as an edit of it every later time. The
/// buffer is never cleared.
pub proof fn lemma_edit_in_place_flush_sequence(st: StreamState, ops: Seq<StreamOp>)
    requires
        st.strategy == StreamStrategy::EditInPlace,
    ensures
        ({
            let after = stream_run(st, ops);
            let text = st.content + pushed_text(ops);
            let done = st.done || finished(ops);
            let shown = if done {
                text
            } else {
                text + st.cursor
            };
            &&& flush_outcome(after).0 == if text.len() == 0 && !done {
                None
            } else if st.flush_count + action_count(stream_replies(st, ops)) == 0 {
                Some(FlushView::SendNew(shown))
            } else {
                Some(FlushView::EditExisting(shown))
            }
            &&& flush_outcome(after).0 is None ==> flush_outcome(after).1 == after
            &&& flush_outcome(after).1.content == text
        }),
{
    lemma_edit_in_place_run(st, ops);
}

/// What the calls keep in chunked mode: no action is an edit, every action
/// sends some text, and the texts sent followed by the buffer are all the
/// text pushed.
proof fn lemma_chunked_run(st: StreamState, ops: Seq<StreamOp>)
    requires
        st.strategy == StreamStrategy::Chunked,
    ensures
        stream_run(st, ops).strategy == StreamStrategy::Chunked,
        sent_text(stream_replies(st, ops)) + stream_run(st, ops).content == st.content
            + pushed_text(ops),
        forall|i: int|
            0 <= i < stream_replies(st, ops).len() ==> match #[trigger] stream_replies(st, ops)[i] {
                Some(FlushView::SendNew(t)) => t.len() > 0,
                Some(FlushView::EditExisting(_)) => false,
                None => true,
            },
    decreases ops.len(),
{
    let r = stream_replies(st, ops);
    if ops.len() == 0 {
        assert(sent_text(r) + st.content =~= st.content + pushed_text(ops));
    } else {
        let prev = ops.drop_last();
        lemma_chunked_run(st, prev);
        let rp = stream_replies(st, prev);
        let before = stream_run(st, prev);
        let x = stream_step(before, ops.last()).0;
        assert(r.drop_last() =~= rp);
        assert(r.last() == x);
        assert forall|i: int| 0 <= i < r.len() implies match #[trigger] r[i] {
            Some(FlushView::SendNew(t)) => t.len() > 0,
            Some(FlushView::EditExisting(_)) => false,
            None => true,
        } by {
            if i < rp.len() {
                assert(r[i] == rp[i]);
            }
        }
        match ops.last() {
            StreamOp::Push(t) => {
                assert(sent_text(r) =~= sent_text(rp));
                assert(sent_text(r) + stream_run(st, ops).content =~= st.content + pushed_text(
                    prev,
                ) + t);
                assert(st.content + pushed_text(ops) =~= st.content + pushed_text(prev) + t);
            },
            StreamOp::Finish => {
                assert(sent_text(r) =~= sent_text(rp));
                assert(st.content + pushed_text(ops) =~= st.content + pushed_text(prev));
            },
            StreamOp::Flush => {
                assert(st.content + pushed_text(ops) =~= st.content + pushed_text(prev));
                if before.content.len() == 0 {
                    assert(sent_text(r) =~= sent_text(rp));
                    assert(stream_run(st, ops).content =~= before.content);
                } else {
                    assert(sent_text(r) =~= sent_text(rp) + before.content);
                    assert(sent_text(r) + stream_run(st, ops).content =~= sent_text(rp)
                        + before.content);
                }
            },
        }
    }
}

/// Chunked streaming, over any sequence of pushes, finishes and flushes:
/// no call ever asks for an edit; every action sends some text; the texts
/// sent so far followed by the text still buffered are exactly the text
/// pushed (nothing lost, nothing sent twice); and a flush returns nothing
/// exactly when the buffer is empty, else sends the whole buffer and
/// clears it.
pub proof fn lemma_chunked_flush_sequence(st: StreamState, ops: Seq<StreamOp>)
    requires
        st.strategy == StreamStrategy::Chunked,
    ensures
        forall|i: int|
            0 <= i < stream_replies(st, ops).len() ==> match #[trigger] stream_replies(st, ops)[i] {
                Some(FlushView::SendNew(t)) => t.len() > 0,
                Some(FlushView::EditExisting(_)) => false,
                None => true,
            },
        sent_text(stream_replies(st, ops)) + stream_run(st, ops).content == st.content
            + pushed_text(ops),
        ({
            let after = stream_run(st, ops);
            &&& flush_outcome(after).0 is None <==> after.content.len() == 0
            &&& after.content.len() > 0 ==> flush_outcome(after).0 == Some(
                FlushView::SendNew(after.content),
            )
            &&& flush_outcome(after).1.content.len() == 0
        }),
{
    lemma_chunked_run(st, ops);
}

} // verus!
