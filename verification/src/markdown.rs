//! Markdown-to-platform conversion utilities.
//!
//! Functions for converting standard Markdown to platform-specific formats.
//! Each converter scans its input left to right; the scanning step is
//! specified as a function of the unread suffix (and, for Slack, of whether
//! that suffix starts a line), and the whole conversion as the repetition of
//! that step.
use vstd::prelude::*;
use crate::text::{
    char_len, char_len_utf8, chars_of, contains, find, find_in, joined, lemma_find_some,
    lemma_joined_concat, lemma_joined_prepend, lemma_utf8_len_concat, lemma_without_concat, match_at,
    matches_at, push_range, push_str, slice_of, starts_with, string_of, trim, trim_range, utf8_len,
    utf8_len_range, without,
};

verus! {

/// Telegram message character limit.
pub const TELEGRAM_MAX_LEN: usize = 4096;

/// Slack message character limit.
pub const SLACK_MAX_LEN: usize = 40000;

// ---------------------------------------------------------------------------
// HTML escaping
// ---------------------------------------------------------------------------

/// How one character is written in Telegram HTML text.
pub open spec fn escape_char(c: char) -> Seq<char> {
    if c == '&' {
        "&amp;"@
    } else if c == '<' {
        "&lt;"@
    } else if c == '>' {
        "&gt;"@
    } else {
        seq![c]
    }
}

/// `s` with `&`, `<` and `>` replaced by their HTML entities.
pub open spec fn escaped(s: Seq<char>) -> Seq<char>
    decreases s.len(),
{
    if s.len() == 0 {
        Seq::empty()
    } else {
        escaped(s.drop_last()) + escape_char(s.last())
    }
}

/// Escapes `&`, `<` and `>` for Telegram HTML.
pub fn escape_html(s: &str) -> (r: String)
    ensures
        r@ == escaped(s@),
{
    let v = chars_of(s);
    let out = escape_chars(&v);
    string_of(&out)
}

fn escape_chars(v: &Vec<char>) -> (out: Vec<char>)
    ensures
        out@ == escaped(v@),
{
    let mut out: Vec<char> = Vec::new();
    let mut i: usize = 0;
    while i < v.len()
        invariant
            i <= v.len(),
            out@ == escaped(v@.take(i as int)),
        decreases v.len() - i,
    {
        let c = v[i];
        if c == '&' {
            push_str(&mut out, "&amp;");
        } else if c == '<' {
            push_str(&mut out, "&lt;");
        } else if c == '>' {
            push_str(&mut out, "&gt;");
        } else {
            out.push(c);
        }
        assert(v@.take(i + 1).drop_last() == v@.take(i as int));
        i += 1;
    }
    assert(v@.take(v.len() as int) == v@);
    out
}

// ---------------------------------------------------------------------------
// Telegram HTML
// ---------------------------------------------------------------------------

/// The HTML for the content of a fenced code block (between the fences).
/// A first line that is a single word names the language.
pub open spec fn fence_html(content: Seq<char>) -> Seq<char> {
    match find(content, seq!['\n']) {
        Some(nl) => {
            let lang = trim(content.take(nl));
            if lang.len() > 0 && !contains(lang, seq![' ']) {
                "<pre><code class=\"language-"@ + lang + "\">"@ + content.skip(nl + 1)
                    + "</code></pre>"@
            } else {
                "<pre>"@ + content + "</pre>"@
            }
        },
        None => "<pre>"@ + content + "</pre>"@,
    }
}

/// A span opened by the `n`-character `marker` at the start of `r`: wrapped
/// in `open`/`close` up to the next `marker`, or the marker itself when it is
/// never closed. Yields the output and the number of characters read.
pub open spec fn wrapped(
    r: Seq<char>,
    n: int,
    marker: Seq<char>,
    open: Seq<char>,
    close: Seq<char>,
) -> (Seq<char>, int) {
    match find(r.skip(n), marker) {
        Some(k) => (open + r.skip(n).take(k) + close, n + k + n),
        None => (r.take(n), n),
    }
}

/// For `r` starting with `[`: the index `k` of the first `](` and the
/// index `m` (relative to `k + 2`) of the first `)` after it.
pub open spec fn link_split(r: Seq<char>) -> Option<(int, int)> {
    match find(r, seq![']', '(']) {
        Some(k) => match find(r.skip(k + 2), seq![')']) {
            Some(m) => Some((k, m)),
            None => None,
        },
        None => None,
    }
}

/// One step of the Telegram conversion on the unread (already escaped)
/// suffix `r`: the output and the number of characters read.
pub open spec fn tg_step(r: Seq<char>) -> (Seq<char>, int) {
    if starts_with(r, seq!['`', '`', '`']) {
        match find(r.skip(3), seq!['`', '`', '`']) {
            Some(k) => (fence_html(r.skip(3).take(k)), k + 6),
            None => (r.take(3), 3),
        }
    } else if r[0] == '`' {
        code_step(r)
    } else if starts_with(r, seq!['*', '*']) {
        wrapped(r, 2, seq!['*', '*'], "<b>"@, "</b>"@)
    } else if starts_with(r, seq!['~', '~']) {
        wrapped(r, 2, seq!['~', '~'], "<s>"@, "</s>"@)
    } else if r[0] == '*' {
        wrapped(r, 1, seq!['*'], "<i>"@, "</i>"@)
    } else if r[0] == '_' {
        wrapped(r, 1, seq!['_'], "<i>"@, "</i>"@)
    } else if r[0] == '[' && link_split(r) is Some {
        let (k, m) = link_split(r)->0;
        (
            "<a href=\""@ + r.subrange(k + 2, k + 2 + m) + "\">"@ + r.subrange(1, k) + "</a>"@,
            k + m + 3,
        )
    } else {
        (seq![r[0]], 1)
    }
}

/// The Telegram conversion of the escaped text `r`: steps repeated until
/// the text is used up.
pub open spec fn tg_scan(r: Seq<char>) -> Seq<char>
    decreases r.len(),
{
    if r.len() == 0 {
        Seq::empty()
    } else {
        let (out, n) = tg_step(r);
        if 0 < n <= r.len() {
            out + tg_scan(r.skip(n))
        } else {
            out
        }
    }
}

/// Telegram HTML for the Markdown text `md`.
pub open spec fn telegram_html(md: Seq<char>) -> Seq<char> {
    tg_scan(escaped(md))
}

/// Emits the `wrapped` span at `s[i..]`; returns the characters read.
fn emit_wrapped(
    s: &Vec<char>,
    i: usize,
    n: usize,
    marker: &Vec<char>,
    open: &str,
    close: &str,
    out: &mut Vec<char>,
) -> (used: usize)
    requires
        i + n <= s.len(),
        marker@.len() == n,
        n >= 1,
    ensures
        final(out)@ == old(out)@ + wrapped(s@.skip(i as int), n as int, marker@, open@, close@).0,
        used == wrapped(s@.skip(i as int), n as int, marker@, open@, close@).1,
        1 <= used <= s.len() - i,
{
    let ghost r = s@.skip(i as int);
    assert(r.skip(n as int) =~= s@.subrange(i + n, s.len() as int));
    match find_in(s, i + n, s.len(), marker) {
        Some(k) => {
            push_str(out, open);
            push_range(out, s, i + n, i + n + k);
            push_str(out, close);
            assert(r.skip(n as int).take(k as int) =~= s@.subrange(i + n, i + n + k));
            proof {
                lemma_find_some(r.skip(n as int), marker@);
            }
            n + k + n
        },
        None => {
            push_range(out, s, i, i + n);
            assert(r.take(n as int) =~= s@.subrange(i as int, i + n));
            n
        },
    }
}

/// Emits a fenced code block whose content is `s[a..b]`.
fn emit_fence(s: &Vec<char>, a: usize, b: usize, out: &mut Vec<char>)
    requires
        a <= b <= s.len(),
    ensures
        final(out)@ == old(out)@ + fence_html(s@.subrange(a as int, b as int)),
{
    let ghost content = s@.subrange(a as int, b as int);
    let nl_pat = vec!['\n'];
    let sp_pat = vec![' '];
    assert(nl_pat@ =~= seq!['\n']);
    assert(sp_pat@ =~= seq![' ']);
    match find_in(s, a, b, &nl_pat) {
        Some(nl) => {
            proof {
                lemma_find_some(content, nl_pat@);
            }
            assert(content.take(nl as int) =~= s@.subrange(a as int, a + nl));
            let (la, lb) = trim_range(s, a, a + nl);
            let has_space = find_in(s, la, lb, &sp_pat).is_some();
            if lb > la && !has_space {
                let ghost before = out@;
                push_str(out, "<pre><code class=\"language-");
                push_range(out, s, la, lb);
                push_str(out, "\">");
                push_range(out, s, a + nl + 1, b);
                push_str(out, "</code></pre>");
                assert(content.skip(nl + 1) =~= s@.subrange(a + nl + 1, b as int));
                let ghost lang = trim(content.take(nl as int));
                assert(lang == s@.subrange(la as int, lb as int));
                assert(out@ =~= before + ("<pre><code class=\"language-"@ + lang + "\">"@
                    + content.skip(nl + 1) + "</code></pre>"@));
            } else {
                if has_space {
                    let ghost lang = s@.subrange(la as int, lb as int);
                    let ghost k = find(lang, sp_pat@)->0;
                    proof {
                        lemma_find_some(lang, sp_pat@);
                    }
                    assert(match_at(lang, sp_pat@, k));
                }
                let ghost before = out@;
                push_str(out, "<pre>");
                push_range(out, s, a, b);
                push_str(out, "</pre>");
                assert(out@ =~= before + ("<pre>"@ + content + "</pre>"@));
            }
        },
        None => {
            let ghost before = out@;
            push_str(out, "<pre>");
            push_range(out, s, a, b);
            push_str(out, "</pre>");
            assert(out@ =~= before + ("<pre>"@ + content + "</pre>"@));
        },
    }
}

/// The inline-code step: `r` starts with a backtick.
pub open spec fn code_step(r: Seq<char>) -> (Seq<char>, int) {
    match find(r.skip(1), seq!['`']) {
        Some(k) => ("<code>"@ + r.skip(1).take(k) + "</code>"@, k + 2),
        None => ("<code>"@ + r.skip(1) + "</code>"@, r.len() as int),
    }
}

/// Emits inline code starting at `s[i]`; returns the characters read.
fn emit_code(s: &Vec<char>, i: usize, out: &mut Vec<char>) -> (used: usize)
    requires
        i < s.len(),
    ensures
        final(out)@ == old(out)@ + code_step(s@.skip(i as int)).0,
        used == code_step(s@.skip(i as int)).1,
        1 <= used <= s.len() - i,
{
    let ghost r = s@.skip(i as int);
    let len = s.len();
    let tick = vec!['`'];
    assert(tick@ =~= seq!['`']);
    assert(r.skip(1) =~= s@.subrange(i + 1, len as int));
    match find_in(s, i + 1, len, &tick) {
        Some(k) => {
            proof {
                lemma_find_some(r.skip(1), tick@);
            }
            let ghost before = out@;
            push_str(out, "<code>");
            push_range(out, s, i + 1, i + 1 + k);
            push_str(out, "</code>");
            assert(r.skip(1).take(k as int) =~= s@.subrange(i + 1, i + 1 + k));
            assert(out@ =~= before + ("<code>"@ + r.skip(1).take(k as int) + "</code>"@));
            k + 2
        },
        None => {
            let ghost before = out@;
            push_str(out, "<code>");
            push_range(out, s, i + 1, len);
            push_str(out, "</code>");
            assert(out@ =~= before + ("<code>"@ + r.skip(1) + "</code>"@));
            len - i
        },
    }
}

/// One Telegram conversion step at `s[i..]`; returns the characters read.
fn tg_step_exec(s: &Vec<char>, i: usize, out: &mut Vec<char>) -> (used: usize)
    requires
        i < s.len(),
    ensures
        final(out)@ == old(out)@ + tg_step(s@.skip(i as int)).0,
        used == tg_step(s@.skip(i as int)).1,
        1 <= used <= s.len() - i,
{
    let ghost r = s@.skip(i as int);
    let len = s.len();
    let fence = vec!['`', '`', '`'];
    let tick = vec!['`'];
    let bold = vec!['*', '*'];
    let strike = vec!['~', '~'];
    let star = vec!['*'];
    let under = vec!['_'];
    let close_bracket = vec![']', '('];
    let paren = vec![')'];
    assert(fence@ =~= seq!['`', '`', '`']);
    assert(bold@ =~= seq!['*', '*']);
    assert(strike@ =~= seq!['~', '~']);
    assert(star@ =~= seq!['*']);
    assert(under@ =~= seq!['_']);
    assert(close_bracket@ =~= seq![']', '(']);
    assert(paren@ =~= seq![')']);
    assert(r.len() > 0);
    assert(r[0] == s@[i as int]);
    if matches_at(s, i, &fence) {
        assert(starts_with(r, fence@)) by {
            assert(r.subrange(0, 3) =~= s@.subrange(i as int, i + 3));
        }
        assert(r.skip(3) =~= s@.subrange(i + 3, len as int));
        match find_in(s, i + 3, len, &fence) {
            Some(k) => {
                proof {
                    lemma_find_some(r.skip(3), fence@);
                }
                assert(r.skip(3).take(k as int) =~= s@.subrange(i + 3, i + 3 + k));
                emit_fence(s, i + 3, i + 3 + k, out);
                return k + 6;
            },
            None => {
                push_range(out, s, i, i + 3);
                assert(r.take(3) =~= s@.subrange(i as int, i + 3));
                return 3;
            },
        }
    }
    assert(!starts_with(r, fence@)) by {
        if starts_with(r, fence@) {
            assert(r.subrange(0, 3) =~= s@.subrange(i as int, i + 3));
        }
    }
    if s[i] == '`' {
        let used = emit_code(s, i, out);
        assert(tg_step(r) == code_step(r));
        return used;
    }
    if matches_at(s, i, &bold) {
        assert(starts_with(r, bold@)) by {
            assert(r.subrange(0, 2) =~= s@.subrange(i as int, i + 2));
        }
        return emit_wrapped(s, i, 2, &bold, "<b>", "</b>", out);
    }
    assert(!starts_with(r, bold@)) by {
        if starts_with(r, bold@) {
            assert(r.subrange(0, 2) =~= s@.subrange(i as int, i + 2));
        }
    }
    if matches_at(s, i, &strike) {
        assert(starts_with(r, strike@)) by {
            assert(r.subrange(0, 2) =~= s@.subrange(i as int, i + 2));
        }
        return emit_wrapped(s, i, 2, &strike, "<s>", "</s>", out);
    }
    assert(!starts_with(r, strike@)) by {
        if starts_with(r, strike@) {
            assert(r.subrange(0, 2) =~= s@.subrange(i as int, i + 2));
        }
    }
    if s[i] == '*' {
        return emit_wrapped(s, i, 1, &star, "<i>", "</i>", out);
    }
    if s[i] == '_' {
        return emit_wrapped(s, i, 1, &under, "<i>", "</i>", out);
    }
    if s[i] == '[' {
        match find_in(s, i, len, &close_bracket) {
            Some(k) => {
                proof {
                    lemma_find_some(r, close_bracket@);
                }
                assert(r =~= s@.subrange(i as int, len as int));
                assert(k >= 1) by {
                    if k == 0 {
                        assert(r.subrange(0, 2)[0] == ']');
                    }
                }
                assert(r.skip(k + 2) =~= s@.subrange(i + k + 2, len as int));
                match find_in(s, i + k + 2, len, &paren) {
                    Some(m) => {
                        proof {
                            lemma_find_some(r.skip(k + 2), paren@);
                        }
                        push_str(out, "<a href=\"");
                        push_range(out, s, i + k + 2, i + k + 2 + m);
                        push_str(out, "\">");
                        push_range(out, s, i + 1, i + k);
                        push_str(out, "</a>");
                        assert(r.subrange(k + 2, k + 2 + m) =~= s@.subrange(
                            i + k + 2,
                            i + k + 2 + m,
                        ));
                        assert(r.subrange(1, k as int) =~= s@.subrange(i + 1, i + k));
                        return k + m + 3;
                    },
                    None => {},
                }
            },
            None => {
                assert(r =~= s@.subrange(i as int, len as int));
            },
        }
    }
    out.push(s[i]);
    1
}

fn tg_scan_exec(s: &Vec<char>) -> (out: Vec<char>)
    ensures
        out@ == tg_scan(s@),
{
    let mut out: Vec<char> = Vec::new();
    let mut i: usize = 0;
    assert(s@.skip(0) =~= s@);
    while i < s.len()
        invariant
            i <= s.len(),
            out@ + tg_scan(s@.skip(i as int)) == tg_scan(s@),
        decreases s.len() - i,
    {
        let ghost before = out@;
        let used = tg_step_exec(s, i, &mut out);
        assert(s@.skip(i as int).skip(used as int) =~= s@.skip(i + used));
        assert(before + tg_scan(s@.skip(i as int)) == out@ + tg_scan(s@.skip(i + used)));
        i += used;
    }
    assert(out@ + tg_scan(s@.skip(i as int)) == out@) by {
        assert(s@.skip(i as int).len() == 0);
        assert(out@ + Seq::<char>::empty() =~= out@);
    }
    out
}

/// Convert Markdown to Telegram HTML.
///
/// Telegram supports `<b>`, `<i>`, `<s>`, `<code>`, `<pre>`, `<a href="">`.
pub fn markdown_to_telegram_html(md: &str) -> (html: String)
    ensures
        html@ == telegram_html(md@),
{
    let v = chars_of(md);
    let e = escape_chars(&v);
    let out = tg_scan_exec(&e);
    string_of(&out)
}

// ---------------------------------------------------------------------------
// Slack mrkdwn
// ---------------------------------------------------------------------------

/// Number of `#` characters at the start of `r`.
pub open spec fn hash_run(r: Seq<char>) -> nat
    decreases r.len(),
{
    if r.len() > 0 && r[0] == '#' {
        1 + hash_run(r.drop_first())
    } else {
        0
    }
}

/// A Markdown header at the start of a line: `#`s and a space, then the
/// rest of the line, which becomes bold. Yields the output and the number of
/// characters read (the line break is left unread).
pub open spec fn header_step(r: Seq<char>) -> Option<(Seq<char>, int)> {
    let j = hash_run(r) as int;
    if 0 < j < r.len() && r[j] == ' ' {
        let start = j + 1;
        let end = match find(r.skip(start), seq!['\n']) {
            Some(p) => start + p,
            None => r.len() as int,
        };
        Some((seq!['*'] + r.subrange(start, end) + seq!['*'], end))
    } else {
        None
    }
}

/// One step of the Slack conversion on the unread suffix `r`;
/// `line_start` tells whether `r` begins a line.
pub open spec fn slack_step(r: Seq<char>, line_start: bool) -> (Seq<char>, int) {
    if starts_with(r, seq!['*', '*']) {
        wrapped(r, 2, seq!['*', '*'], "*"@, "*"@)
    } else if starts_with(r, seq!['~', '~']) {
        wrapped(r, 2, seq!['~', '~'], "~"@, "~"@)
    } else if r[0] == '[' && link_split(r) is Some {
        let (k, m) = link_split(r)->0;
        (seq!['<'] + r.subrange(k + 2, k + 2 + m) + seq!['|'] + r.subrange(1, k) + seq!['>'], k + m
            + 3)
    } else if line_start && r[0] == '#' && header_step(r) is Some {
        header_step(r)->0
    } else {
        (seq![r[0]], 1)
    }
}

/// The Slack conversion of `r`: steps repeated until the text is used up.
pub open spec fn slack_scan(r: Seq<char>, line_start: bool) -> Seq<char>
    decreases r.len(),
{
    if r.len() == 0 {
        Seq::empty()
    } else {
        let (out, n) = slack_step(r, line_start);
        if 0 < n <= r.len() {
            out + slack_scan(r.skip(n), r[n - 1] == '\n')
        } else {
            out
        }
    }
}

/// Slack mrkdwn for the Markdown text `md`.
pub open spec fn slack_mrkdwn(md: Seq<char>) -> Seq<char> {
    slack_scan(md, true)
}

/// Emits a header at `s[i..]` if there is one; returns the characters read.
fn emit_header(s: &Vec<char>, i: usize, out: &mut Vec<char>) -> (used: Option<usize>)
    requires
        i < s.len(),
    ensures
        match used {
            Some(n) => header_step(s@.skip(i as int)) is Some && final(out)@ == old(out)@
                + (header_step(s@.skip(i as int))->0).0 && n == (header_step(s@.skip(i as int))->0).1
                && 1 <= n <= s.len() - i,
            None => header_step(s@.skip(i as int)) is None && final(out)@ == old(out)@,
        },
{
    let ghost r = s@.skip(i as int);
    let len = s.len();
    let mut j = i;
    while j < len && s[j] == '#'
        invariant
            i <= j <= len == s.len(),
            r == s@.skip(i as int),
            hash_run(r) == (j - i) + hash_run(s@.skip(j as int)),
        decreases len - j,
    {
        assert(s@.skip(j as int).drop_first() =~= s@.skip(j + 1));
        j += 1;
    }
    assert(hash_run(s@.skip(j as int)) == 0);
    if j > i && j < len && s[j] == ' ' {
        let start = j + 1;
        let nl = vec!['\n'];
        assert(nl@ =~= seq!['\n']);
        assert(r.skip(start - i) =~= s@.subrange(start as int, len as int));
        let end = match find_in(s, start, len, &nl) {
            Some(p) => {
                proof {
                    lemma_find_some(r.skip(start - i), nl@);
                }
                start + p
            },
            None => len,
        };
        let ghost before = out@;
        out.push('*');
        push_range(out, s, start, end);
        out.push('*');
        assert(r.subrange(start - i, end - i) =~= s@.subrange(start as int, end as int));
        assert(out@ =~= before + (seq!['*'] + s@.subrange(start as int, end as int)
            + seq!['*']));
        Some(end - i)
    } else {
        None
    }
}

/// One Slack conversion step at `s[i..]`; returns the characters read.
fn slack_step_exec(s: &Vec<char>, i: usize, line_start: bool, out: &mut Vec<char>) -> (used: usize)
    requires
        i < s.len(),
    ensures
        final(out)@ == old(out)@ + slack_step(s@.skip(i as int), line_start).0,
        used == slack_step(s@.skip(i as int), line_start).1,
        1 <= used <= s.len() - i,
{
    let ghost r = s@.skip(i as int);
    let len = s.len();
    let bold = vec!['*', '*'];
    let strike = vec!['~', '~'];
    let close_bracket = vec![']', '('];
    let paren = vec![')'];
    assert(bold@ =~= seq!['*', '*']);
    assert(strike@ =~= seq!['~', '~']);
    assert(close_bracket@ =~= seq![']', '(']);
    assert(paren@ =~= seq![')']);
    assert(r[0] == s@[i as int]);
    if matches_at(s, i, &bold) {
        assert(starts_with(r, bold@)) by {
            assert(r.subrange(0, 2) =~= s@.subrange(i as int, i + 2));
        }
        return emit_wrapped(s, i, 2, &bold, "*", "*", out);
    }
    assert(!starts_with(r, bold@)) by {
        if starts_with(r, bold@) {
            assert(r.subrange(0, 2) =~= s@.subrange(i as int, i + 2));
        }
    }
    if matches_at(s, i, &strike) {
        assert(starts_with(r, strike@)) by {
            assert(r.subrange(0, 2) =~= s@.subrange(i as int, i + 2));
        }
        return emit_wrapped(s, i, 2, &strike, "~", "~", out);
    }
    assert(!starts_with(r, strike@)) by {
        if starts_with(r, strike@) {
            assert(r.subrange(0, 2) =~= s@.subrange(i as int, i + 2));
        }
    }
    if s[i] == '[' {
        match find_in(s, i, len, &close_bracket) {
            Some(k) => {
                proof {
                    lemma_find_some(r, close_bracket@);
                }
                assert(r =~= s@.subrange(i as int, len as int));
                assert(k >= 1) by {
                    if k == 0 {
                        assert(r.subrange(0, 2)[0] == ']');
                    }
                }
                assert(r.skip(k + 2) =~= s@.subrange(i + k + 2, len as int));
                match find_in(s, i + k + 2, len, &paren) {
                    Some(m) => {
                        proof {
                            lemma_find_some(r.skip(k + 2), paren@);
                        }
                        let ghost before = out@;
                        out.push('<');
                        push_range(out, s, i + k + 2, i + k + 2 + m);
                        out.push('|');
                        push_range(out, s, i + 1, i + k);
                        out.push('>');
                        assert(r.subrange(k + 2, k + 2 + m) =~= s@.subrange(
                            i + k + 2,
                            i + k + 2 + m,
                        ));
                        assert(r.subrange(1, k as int) =~= s@.subrange(i + 1, i + k));
                        assert(out@ =~= before + (seq!['<'] + r.subrange(k + 2, k + 2 + m)
                            + seq!['|'] + r.subrange(1, k as int) + seq!['>']));
                        return k + m + 3;
                    },
                    None => {},
                }
            },
            None => {
                assert(r =~= s@.subrange(i as int, len as int));
            },
        }
    }
    if line_start && s[i] == '#' {
        let ghost before = out@;
        match emit_header(s, i, out) {
            Some(n) => {
                return n;
            },
            None => {},
        }
    }
    out.push(s[i]);
    1
}

#[verifier::rlimit(30)]
fn slack_scan_exec(s: &Vec<char>) -> (out: Vec<char>)
    ensures
        out@ == slack_scan(s@, true),
{
    let mut out: Vec<char> = Vec::new();
    let mut i: usize = 0;
    assert(s@.skip(0) =~= s@);
    while i < s.len()
        invariant
            i <= s.len(),
            out@ + slack_scan(s@.skip(i as int), i == 0 || s@[i - 1] == '\n') == slack_scan(
                s@,
                true,
            ),
        decreases s.len() - i,
    {
        let line_start = i == 0 || s[i - 1] == '\n';
        let ghost before = out@;
        let used = slack_step_exec(s, i, line_start, &mut out);
        assert(s@.skip(i as int).skip(used as int) =~= s@.skip(i + used));
        assert(s@.skip(i as int)[used - 1] == s@[i + used - 1]);
        i += used;
    }
    assert(out@ + Seq::<char>::empty() =~= out@);
    out
}

/// Convert Markdown to Slack mrkdwn format.
pub fn markdown_to_slack(text: &str) -> (mrkdwn: String)
    ensures
        mrkdwn@ == slack_mrkdwn(text@),
{
    let v = chars_of(text);
    let out = slack_scan_exec(&v);
    string_of(&out)
}

// ---------------------------------------------------------------------------
// Chunking
// ---------------------------------------------------------------------------

/// The pieces of `s` between `\n` characters (`str::split('\n')`).
pub open spec fn split_lines(s: Seq<char>) -> Seq<Seq<char>>
    decreases s.len(),
{
    match find(s, seq!['\n']) {
        Some(k) => if 0 <= k < s.len() {
            seq![s.take(k)] + split_lines(s.skip(k + 1))
        } else {
            seq![s]
        },
        None => seq![s],
    }
}

/// How many leading characters of `l` fit in `budget` bytes.
pub open spec fn fit_count(l: Seq<char>, budget: int) -> nat
    decreases l.len(),
{
    if l.len() > 0 && char_len(l[0]) <= budget {
        1 + fit_count(l.drop_first(), budget - char_len(l[0]))
    } else {
        0
    }
}

/// Cuts the line `l` into pieces of at most `max` bytes, each as long as
/// fits. `None` where a piece would have to start inside a multi-byte
/// character (the slicing in the cut panics there).
pub open spec fn force_split(l: Seq<char>, max: nat) -> Option<Seq<Seq<char>>>
    decreases l.len(),
{
    if l.len() == 0 {
        Some(Seq::empty())
    } else {
        let c = fit_count(l, max as int) as int;
        let n = if c == 0 { 1 } else { c };
        if c == 0 && char_len(l[0]) != 1 {
            None
        } else if n <= l.len() {
            match force_split(l.skip(n), max) {
                Some(ps) => Some(seq![l.take(n)] + ps),
                None => None,
            }
        } else {
            None
        }
    }
}

/// Packs `lines` into chunks: a line joins the current chunk (after a line
/// break) while the chunk stays within `max` bytes; otherwise the current
/// chunk, if any, is closed, and the line starts the next one where it fits
/// in `max` bytes, or else is cut by `force_split`.
pub open spec fn chunk_lines(
    lines: Seq<Seq<char>>,
    max: nat,
    chunks: Seq<Seq<char>>,
    current: Seq<char>,
) -> Option<Seq<Seq<char>>>
    decreases lines.len(),
{
    if lines.len() == 0 {
        Some(
            if current.len() > 0 {
                chunks.push(current)
            } else {
                chunks
            },
        )
    } else {
        let line = lines[0];
        let with_nl = if current.len() == 0 {
            line
        } else {
            seq!['\n'] + line
        };
        if utf8_len(current) + utf8_len(with_nl) > max {
            let closed = if current.len() > 0 {
                chunks.push(current)
            } else {
                chunks
            };
            if utf8_len(line) <= max {
                chunk_lines(lines.drop_first(), max, closed, line)
            } else {
                match force_split(line, max) {
                    Some(ps) => chunk_lines(lines.drop_first(), max, closed + ps, Seq::empty()),
                    None => None,
                }
            }
        } else {
            chunk_lines(lines.drop_first(), max, chunks, current + with_nl)
        }
    }
}

/// The chunks of the HTML text `html` for a limit of `max` bytes; `None`
/// where the cutting would panic.
pub open spec fn chunk_plan(html: Seq<char>, max: nat) -> Option<Seq<Seq<char>>> {
    if utf8_len(html) <= max {
        Some(seq![html])
    } else {
        chunk_lines(split_lines(html), max, Seq::empty(), Seq::empty())
    }
}

/// The character sequences held by a vector of character vectors.
pub open spec fn views(cs: Seq<Vec<char>>) -> Seq<Seq<char>> {
    cs.map_values(|c: Vec<char>| c@)
}

/// The character sequences held by a vector of strings.
pub open spec fn string_views(cs: Seq<String>) -> Seq<Seq<char>> {
    cs.map_values(|c: String| c@)
}

/// Adds the pieces `ps` after `acc`, keeping `None`.
pub open spec fn prepend(acc: Seq<Seq<char>>, o: Option<Seq<Seq<char>>>) -> Option<Seq<Seq<char>>> {
    match o {
        Some(ps) => Some(acc + ps),
        None => None,
    }
}

/// Greedy fit of `v[from..to]` into `budget` bytes.
pub(crate) fn fit_count_exec(v: &Vec<char>, from: usize, to: usize, budget: u128) -> (c: usize)
    requires
        from <= to <= v.len(),
    ensures
        c == fit_count(v@.subrange(from as int, to as int), budget as int),
        c <= to - from,
{
    let mut k = from;
    let mut b = budget;
    while k < to && (char_len_utf8(v[k]) as u128) <= b
        invariant
            from <= k <= to <= v.len(),
            fit_count(v@.subrange(from as int, to as int), budget as int) == (k - from)
                + fit_count(v@.subrange(k as int, to as int), b as int),
        decreases to - k,
    {
        assert(v@.subrange(k as int, to as int).drop_first() =~= v@.subrange(k + 1, to as int));
        b = b - char_len_utf8(v[k]) as u128;
        k += 1;
    }
    k - from
}

/// Cuts `v[from..to]` as `force_split` does, appending the pieces.
fn force_split_exec(v: &Vec<char>, from: usize, to: usize, max: usize, chunks: &mut Vec<Vec<char>>) -> (ok: bool)
    requires
        from <= to <= v.len(),
    ensures
        ok == force_split(v@.subrange(from as int, to as int), max as nat) is Some,
        ok ==> views(final(chunks)@) == views(old(chunks)@) + force_split(
            v@.subrange(from as int, to as int),
            max as nat,
        )->0,
{
    let mut pos = from;
    let ghost mut acc: Seq<Seq<char>> = Seq::empty();
    assert(prepend(acc, force_split(v@.subrange(from as int, to as int), max as nat))
        =~= force_split(v@.subrange(from as int, to as int), max as nat)) by {
        match force_split(v@.subrange(from as int, to as int), max as nat) {
            Some(ps) => {
                assert(acc + ps =~= ps);
            },
            None => {},
        }
    }
    while pos < to
        invariant
            from <= pos <= to <= v.len(),
            views(chunks@) == views(old(chunks)@) + acc,
            prepend(acc, force_split(v@.subrange(pos as int, to as int), max as nat))
                == force_split(v@.subrange(from as int, to as int), max as nat),
        decreases to - pos,
    {
        let ghost l = v@.subrange(pos as int, to as int);
        let c = fit_count_exec(v, pos, to, max as u128);
        if c == 0 && char_len_utf8(v[pos]) != 1 {
            assert(force_split(l, max as nat) is None);
            return false;
        }
        let n = if c == 0 {
            1
        } else {
            c
        };
        let piece = slice_of(v, pos, pos + n);
        let ghost old_chunks = chunks@;
        chunks.push(piece);
        assert(l.skip(n as int) =~= v@.subrange(pos + n, to as int));
        assert(l.take(n as int) =~= v@.subrange(pos as int, pos + n));
        assert(views(chunks@) =~= views(old_chunks).push(piece@));
        proof {
            let rest = force_split(v@.subrange(pos + n, to as int), max as nat);
            assert(force_split(l, max as nat) == prepend(seq![l.take(n as int)], rest));
            match rest {
                Some(ps) => {
                    assert(acc + (seq![l.take(n as int)] + ps) =~= acc.push(l.take(n as int))
                        + ps);
                },
                None => {},
            }
            acc = acc.push(l.take(n as int));
        }
        pos = pos + n;
    }
    assert(v@.subrange(pos as int, to as int).len() == 0);
    assert(acc + Seq::<Seq<char>>::empty() =~= acc);
    true
}

/// Byte length of a line break followed by `line`.
proof fn lemma_nl_len(line: Seq<char>)
    ensures
        utf8_len(seq!['\n'] + line) == 1 + utf8_len(line),
{
    lemma_utf8_len_concat(seq!['\n'], line);
    assert(seq!['\n'].drop_last() =~= Seq::<char>::empty());
    assert(utf8_len(Seq::<char>::empty()) == 0);
    assert(('\n' as u32) == 10);
    assert(char_len('\n') == 1);
    assert(utf8_len(seq!['\n']) == 1);
}

/// The chunks for `html` (`None`: the cutting panics).
fn chunk_chars(s: &Vec<char>, max: usize) -> (r: Option<Vec<Vec<char>>>)
    ensures
        match r {
            Some(cs) => chunk_plan(s@, max as nat) == Some(views(cs@)),
            None => chunk_plan(s@, max as nat) is None,
        },
{
    let len = s.len();
    let total = utf8_len_range(s, 0, len);
    assert(s@.subrange(0, len as int) =~= s@);
    if total <= max as u128 {
        let whole = slice_of(s, 0, len);
        let mut one: Vec<Vec<char>> = Vec::new();
        one.push(whole);
        assert(views(one@) =~= seq![s@]);
        return Some(one);
    }
    let nl = vec!['\n'];
    assert(nl@ =~= seq!['\n']);
    let mut chunks: Vec<Vec<char>> = Vec::new();
    let mut current: Vec<char> = Vec::new();
    let mut cur_bytes: u128 = 0;
    let mut pos: usize = 0;
    let mut done = false;
    let ghost mut rest: Seq<Seq<char>> = split_lines(s@);
    assert(s@.skip(0) =~= s@);
    assert(views(chunks@) =~= Seq::<Seq<char>>::empty());
    while !done
        invariant
            pos <= len == s.len(),
            nl@ == seq!['\n'],
            cur_bytes == utf8_len(current@),
            cur_bytes <= 4 * current@.len(),
            chunk_plan(s@, max as nat) == chunk_lines(rest, max as nat, views(chunks@), current@),
            !done ==> rest == split_lines(s@.skip(pos as int)),
            done ==> rest.len() == 0,
            utf8_len(s@) > max,
        decreases 2 * (len - pos) + (if done {
            0int
        } else {
            1int
        }),
    {
        let ghost r = s@.skip(pos as int);
        assert(r =~= s@.subrange(pos as int, len as int));
        let (line_end, last) = match find_in(s, pos, len, &nl) {
            Some(k) => {
                proof {
                    lemma_find_some(r, nl@);
                }
                (pos + k, false)
            },
            None => (len, true),
        };
        let ghost line = s@.subrange(pos as int, line_end as int);
        proof {
            if last {
                assert(split_lines(r) == seq![r]);
                assert(line =~= r);
            } else {
                assert(r.take(line_end - pos) =~= line);
                assert(r.skip(line_end - pos + 1) =~= s@.skip(line_end + 1));
                assert(split_lines(r) == seq![line] + split_lines(s@.skip(line_end + 1)));
            }
        }
        let ghost next_rest = if last {
            Seq::<Seq<char>>::empty()
        } else {
            split_lines(s@.skip(line_end + 1))
        };
        assert(rest.drop_first() =~= next_rest);
        assert(rest[0] == line);
        let line_bytes = utf8_len_range(s, pos, line_end);
        let with_bytes: u128 = if current.len() == 0 {
            line_bytes
        } else {
            line_bytes + 1
        };
        proof {
            lemma_nl_len(line);
        }
        if cur_bytes + with_bytes > max as u128 {
            let ghost cur_view = current@;
            let ghost closed = if cur_view.len() > 0 {
                views(chunks@).push(cur_view)
            } else {
                views(chunks@)
            };
            assert(chunk_lines(rest, max as nat, views(chunks@), cur_view) == (if utf8_len(line) <= max {
                chunk_lines(next_rest, max as nat, closed, line)
            } else {
                match force_split(line, max as nat) {
                    Some(ps) => chunk_lines(next_rest, max as nat, closed + ps, Seq::empty()),
                    None => None,
                }
            }));
            if current.len() > 0 {
                let ghost old_chunks = chunks@;
                chunks.push(current);
                assert(views(chunks@) =~= views(old_chunks).push(cur_view));
                current = Vec::new();
                cur_bytes = 0;
            }
            assert(views(chunks@) == closed);
            if line_bytes <= max as u128 {
                current = slice_of(s, pos, line_end);
                cur_bytes = line_bytes;
            } else {
                let ok = force_split_exec(s, pos, line_end, max, &mut chunks);
                if !ok {
                    return None;
                }
                assert(current@ =~= Seq::<char>::empty());
            }
        } else {
            let ghost old_cur = current@;
            if current.len() > 0 {
                current.push('\n');
            }
            push_range(&mut current, s, pos, line_end);
            proof {
                if old_cur.len() > 0 {
                    assert(current@ =~= old_cur + (seq!['\n'] + line));
                } else {
                    assert(current@ =~= old_cur + line);
                }
                lemma_utf8_len_concat(old_cur, if old_cur.len() == 0 { line } else { seq!['\n'] + line });
            }
            cur_bytes = cur_bytes + with_bytes;
        }
        proof {
            rest = next_rest;
        }
        if last {
            done = true;
        } else {
            pos = line_end + 1;
        }
    }
    if current.len() > 0 {
        let ghost old_chunks = chunks@;
        let ghost cur_view = current@;
        chunks.push(current);
        assert(views(chunks@) =~= views(old_chunks).push(cur_view));
    }
    Some(chunks)
}

pub(crate) fn strings_of(cs: &Vec<Vec<char>>) -> (r: Vec<String>)
    ensures
        string_views(r@) == views(cs@),
{
    let mut r: Vec<String> = Vec::new();
    let mut i: usize = 0;
    while i < cs.len()
        invariant
            i <= cs.len(),
            string_views(r@) == views(cs@.take(i as int)),
        decreases cs.len() - i,
    {
        let ghost old_r = r@;
        let s = string_of(&cs[i]);
        r.push(s);
        assert(string_views(r@) =~= string_views(old_r).push(cs@[i as int]@));
        assert(views(cs@.take(i + 1)) =~= views(cs@.take(i as int)).push(cs@[i as int]@));
        i += 1;
    }
    assert(cs@.take(cs.len() as int) =~= cs@);
    r
}

/// Convert markdown to Telegram HTML then split into chunks of at most
/// `max_len` bytes; `None` for the inputs on which the cutting of an
/// over-long line would have to split a multi-byte character.
pub fn try_chunk_markdown_html(md: &str, max_len: usize) -> (chunks: Option<Vec<String>>)
    ensures
        match chunks {
            Some(c) => chunk_plan(telegram_html(md@), max_len as nat) == Some(string_views(c@)),
            None => chunk_plan(telegram_html(md@), max_len as nat) is None,
        },
{
    let v = chars_of(md);
    let e = escape_chars(&v);
    let html = tg_scan_exec(&e);
    match chunk_chars(&html, max_len) {
        Some(cs) => Some(strings_of(&cs)),
        None => None,
    }
}

/// Convert markdown to Telegram HTML then split into chunks of at most
/// `max_len` bytes.
pub fn chunk_markdown_html(md: &str, max_len: usize) -> (chunks: Vec<String>)
    requires
        max_len >= 4 || chunk_plan(telegram_html(md@), max_len as nat) is Some,
    ensures
        chunk_plan(telegram_html(md@), max_len as nat) is Some,
        string_views(chunks@) == chunk_plan(telegram_html(md@), max_len as nat)->0,
        max_len >= 1 ==> forall|i: int|
            0 <= i < chunks@.len() ==> utf8_len(#[trigger] chunks@[i]@) <= max_len,
        utf8_len(telegram_html(md@)) <= max_len ==> chunks@.len() == 1 && chunks@[0]@
            == telegram_html(md@),
        utf8_len(telegram_html(md@)) > max_len && max_len >= 1 ==> forall|i: int|
            0 <= i < chunks@.len() ==> (#[trigger] chunks@[i]@).len() > 0,
        without(joined(string_views(chunks@)), '\n') == without(telegram_html(md@), '\n'),
{
    proof {
        if max_len >= 4 {
            lemma_chunk_plan_exists(telegram_html(md@), max_len as nat);
        }
        lemma_chunks_keep_text(telegram_html(md@), max_len as nat);
        if max_len >= 1 {
            lemma_chunks_within_limit(telegram_html(md@), max_len as nat);
        }
    }
    let chunks = match try_chunk_markdown_html(md, max_len) {
        Some(c) => c,
        None => Vec::new(),
    };
    assert forall|i: int| 0 <= i < chunks@.len() implies #[trigger] chunks@[i]@ == string_views(chunks@)[i] by {}
    proof {
        if utf8_len(telegram_html(md@)) > max_len && max_len >= 1 {
            let plan = chunk_plan(telegram_html(md@), max_len as nat)->0;
            assert forall|i: int| 0 <= i < chunks@.len() implies (#[trigger] chunks@[i]@).len() > 0 by {
                assert(chunks@[i]@ == plan[i]);
            }
        }
    }
    chunks
}

// ---------------------------------------------------------------------------
// Laws
// ---------------------------------------------------------------------------

/// Escaped text holds no `<` or `>`: nothing in it can open or close a tag.
pub proof fn lemma_escaped_has_no_angle_brackets(s: Seq<char>)
    ensures
        forall|i: int| 0 <= i < escaped(s).len() ==> escaped(s)[i] != '<' && escaped(s)[i] != '>',
    decreases s.len(),
{
    reveal_strlit("&amp;");
    reveal_strlit("&lt;");
    reveal_strlit("&gt;");
    if s.len() > 0 {
        lemma_escaped_has_no_angle_brackets(s.drop_last());
        let a = escaped(s.drop_last());
        let b = escape_char(s.last());
        assert forall|i: int| 0 <= i < escaped(s).len() implies escaped(s)[i] != '<' && escaped(
            s,
        )[i] != '>' by {
            if i >= a.len() {
                assert(escaped(s)[i] == b[i - a.len()]);
            } else {
                assert(escaped(s)[i] == a[i]);
            }
        }
    }
}

/// A character that Telegram Markdown gives a meaning to.
pub open spec fn is_tg_marker(c: char) -> bool {
    c == '`' || c == '*' || c == '~' || c == '_' || c == '['
}

/// Escaping introduces no Telegram markers.
proof fn lemma_escaped_keeps_markers_out(s: Seq<char>)
    requires
        forall|i: int| 0 <= i < s.len() ==> !is_tg_marker(s[i]),
    ensures
        forall|i: int| 0 <= i < escaped(s).len() ==> !is_tg_marker(escaped(s)[i]),
    decreases s.len(),
{
    reveal_strlit("&amp;");
    reveal_strlit("&lt;");
    reveal_strlit("&gt;");
    if s.len() > 0 {
        assert(!is_tg_marker(s[s.len() - 1]));
        lemma_escaped_keeps_markers_out(s.drop_last());
        let a = escaped(s.drop_last());
        let b = escape_char(s.last());
        assert forall|i: int| 0 <= i < escaped(s).len() implies !is_tg_marker(escaped(s)[i]) by {
            if i >= a.len() {
                assert(escaped(s)[i] == b[i - a.len()]);
            } else {
                assert(escaped(s)[i] == a[i]);
            }
        }
    }
}

/// Text without Telegram markers converts to itself.
proof fn lemma_tg_scan_plain(r: Seq<char>)
    requires
        forall|i: int| 0 <= i < r.len() ==> !is_tg_marker(r[i]),
    ensures
        tg_scan(r) == r,
    decreases r.len(),
{
    if r.len() > 0 {
        assert(!is_tg_marker(r[0]));
        if starts_with(r, seq!['`', '`', '`']) {
            assert(r.subrange(0, 3)[0] == '`');
        }
        if starts_with(r, seq!['*', '*']) {
            assert(r.subrange(0, 2)[0] == '*');
        }
        if starts_with(r, seq!['~', '~']) {
            assert(r.subrange(0, 2)[0] == '~');
        }
        assert(tg_step(r) == (seq![r[0]], 1int));
        lemma_tg_scan_plain(r.skip(1));
        assert(seq![r[0]] + r.skip(1) =~= r);
    }
}

/// Markdown without `` ` ``, `*`, `~`, `_` or `[` becomes its HTML-escaped
/// text in Telegram HTML: only `&`, `<` and `>` change.
pub proof fn lemma_telegram_plain_text_is_escaped(md: Seq<char>)
    requires
        forall|i: int| 0 <= i < md.len() ==> !is_tg_marker(md[i]),
    ensures
        telegram_html(md) == escaped(md),
{
    lemma_escaped_keeps_markers_out(md);
    lemma_tg_scan_plain(escaped(md));
}

/// Escaping works character by character.
proof fn lemma_escaped_concat(a: Seq<char>, b: Seq<char>)
    ensures
        escaped(a + b) == escaped(a) + escaped(b),
    decreases b.len(),
{
    if b.len() == 0 {
        assert(a + b =~= a);
        assert(escaped(a) + escaped(b) =~= escaped(a));
    } else {
        lemma_escaped_concat(a, b.drop_last());
        assert((a + b).drop_last() =~= a + b.drop_last());
        assert((a + b).last() == b.last());
        assert(escaped(a + b) =~= escaped(a) + escaped(b.drop_last()) + escape_char(b.last()));
    }
}

/// A marker text `m` (one or two characters, all `c`) followed by text
/// without markers and `m` again: the first `m` after the opening one is
/// the closing one.
proof fn lemma_find_closing(e: Seq<char>, m: Seq<char>, c: char)
    requires
        forall|i: int| 0 <= i < e.len() ==> !is_tg_marker(e[i]),
        is_tg_marker(c),
        m.len() >= 1,
        forall|i: int| 0 <= i < m.len() ==> m[i] == c,
    ensures
        find(e + m, m) == Some(e.len() as int),
{
    let s = e + m;
    assert(s.subrange(e.len() as int, (e.len() + m.len()) as int) =~= m);
    assert forall|j: int| 0 <= j < e.len() implies !match_at(s, m, j) by {
        if match_at(s, m, j) {
            assert(s.subrange(j, j + m.len())[0] == m[0]);
            assert(s[j] == e[j]);
        }
    }
    crate::text::lemma_find_is(s, m, e.len() as int);
}

/// Telegram HTML of a span around text without markers (non-empty for the
/// one-character markers): `**` makes bold `<b>`, `~~` strikethrough
/// `<s>`, and `*` and `_` both make italic `<i>`; the text inside is
/// HTML-escaped and otherwise unchanged.
pub proof fn lemma_telegram_spans(t: Seq<char>)
    requires
        forall|i: int| 0 <= i < t.len() ==> !is_tg_marker(t[i]),
    ensures
        telegram_html("**"@ + t + "**"@) == "<b>"@ + escaped(t) + "</b>"@,
        telegram_html("~~"@ + t + "~~"@) == "<s>"@ + escaped(t) + "</s>"@,
        t.len() > 0 ==> telegram_html("*"@ + t + "*"@) == "<i>"@ + escaped(t) + "</i>"@,
        t.len() > 0 ==> telegram_html("_"@ + t + "_"@) == "<i>"@ + escaped(t) + "</i>"@,
{
    reveal_strlit("**");
    reveal_strlit("~~");
    reveal_strlit("*");
    reveal_strlit("_");
    assert("**"@ =~= seq!['*', '*']);
    assert("~~"@ =~= seq!['~', '~']);
    assert("*"@ =~= seq!['*']);
    assert("_"@ =~= seq!['_']);
    lemma_telegram_span(t, '*', true, "<b>"@, "</b>"@);
    lemma_telegram_span(t, '~', true, "<s>"@, "</s>"@);
    if t.len() > 0 {
        lemma_telegram_span(t, '*', false, "<i>"@, "</i>"@);
        lemma_telegram_span(t, '_', false, "<i>"@, "</i>"@);
    }
}

/// A marker character is not changed by escaping.
proof fn lemma_escaped_marker(c: char)
    requires
        is_tg_marker(c),
    ensures
        escaped(seq![c]) == seq![c],
        escaped(seq![c, c]) == seq![c, c],
{
    let one = seq![c];
    assert(one.drop_last() =~= Seq::<char>::empty());
    assert(one.last() == c);
    assert(escaped(Seq::<char>::empty()) == Seq::<char>::empty());
    assert(escape_char(c) == seq![c]);
    assert(escaped(one) =~= one);
    let two = seq![c, c];
    assert(two.drop_last() =~= one);
    assert(two.last() == c);
    assert(escaped(two) =~= two);
}

/// The Telegram scan of a marker `m`, escaped text without markers `e`, and
/// `m` again, where the step at the start is the wrapped span of `m`.
proof fn lemma_tg_scan_wrapped(e: Seq<char>, m: Seq<char>, c: char, open: Seq<char>, close: Seq<char>)
    requires
        forall|i: int| 0 <= i < e.len() ==> !is_tg_marker(e[i]),
        is_tg_marker(c),
        m.len() >= 1,
        forall|i: int| 0 <= i < m.len() ==> m[i] == c,
        tg_step(m + e + m) == wrapped(m + e + m, m.len() as int, m, open, close),
    ensures
        tg_scan(m + e + m) == open + e + close,
{
    let r = m + e + m;
    let n = m.len() as int;
    assert(r.skip(n) =~= e + m);
    lemma_find_closing(e, m, c);
    assert(r.skip(n).take(e.len() as int) =~= e);
    assert(tg_step(r) == (open + e + close, r.len() as int));
    assert(r.skip(r.len() as int) =~= Seq::<char>::empty());
    assert(tg_scan(Seq::<char>::empty()) == Seq::<char>::empty());
    assert(r.len() > 0);
    assert(tg_scan(r) == open + e + close + tg_scan(r.skip(r.len() as int)));
    assert(open + e + close + Seq::<char>::empty() =~= open + e + close);
}

/// One span of `lemma_telegram_spans`.
#[verifier::rlimit(40)]
proof fn lemma_telegram_span(t: Seq<char>, c: char, two: bool, open: Seq<char>, close: Seq<char>)
    requires
        forall|i: int| 0 <= i < t.len() ==> !is_tg_marker(t[i]),
        c == '*' || c == '~' || c == '_',
        two ==> (c == '*' || c == '~'),
        !two ==> (c == '*' || c == '_') && t.len() > 0,
        open == if two && c == '*' {
            "<b>"@
        } else if two {
            "<s>"@
        } else {
            "<i>"@
        },
        close == if two && c == '*' {
            "</b>"@
        } else if two {
            "</s>"@
        } else {
            "</i>"@
        },
    ensures
        ({
            let m = if two {
                seq![c, c]
            } else {
                seq![c]
            };
            telegram_html(m + t + m) == open + escaped(t) + close
        }),
{
    let m = if two {
        seq![c, c]
    } else {
        seq![c]
    };
    lemma_escaped_keeps_markers_out(t);
    let e = escaped(t);
    lemma_escaped_marker(c);
    lemma_escaped_concat(m, t);
    lemma_escaped_concat(m + t, m);
    let r = m + e + m;
    assert(escaped(m + t + m) == r);
    assert(r[0] == c);
    if !two {
        reveal_strlit("&amp;");
        reveal_strlit("&lt;");
        reveal_strlit("&gt;");
        assert(e == escaped(t.drop_last()) + escape_char(t.last()));
        assert(escape_char(t.last()).len() > 0);
        assert(e.len() > 0);
        assert(r[1] == e[0]);
        assert(!is_tg_marker(e[0]));
    }
    assert(!starts_with(r, seq!['`', '`', '`'])) by {
        if starts_with(r, seq!['`', '`', '`']) {
            assert(r.subrange(0, 3)[0] == '`');
        }
    }
    if two {
        assert(r.subrange(0, 2) =~= seq![c, c]);
    } else {
        assert(!starts_with(r, seq!['*', '*'])) by {
            if starts_with(r, seq!['*', '*']) {
                assert(r.subrange(0, 2)[1] == r[1]);
            }
        }
        assert(!starts_with(r, seq!['~', '~'])) by {
            if starts_with(r, seq!['~', '~']) {
                assert(r.subrange(0, 2)[0] == r[0]);
            }
        }
    }
    if two && c == '~' {
        assert(!starts_with(r, seq!['*', '*'])) by {
            if starts_with(r, seq!['*', '*']) {
                assert(r.subrange(0, 2)[0] == r[0]);
            }
        }
    }
    assert(is_tg_marker(c));
    lemma_tg_scan_wrapped(e, m, c, open, close);
}

/// A character that Slack conversion gives a meaning to.
pub open spec fn is_slack_marker(c: char) -> bool {
    c == '*' || c == '~' || c == '[' || c == '#'
}

/// Text without Slack markers converts to itself.
proof fn lemma_slack_scan_plain(r: Seq<char>, line_start: bool)
    requires
        forall|i: int| 0 <= i < r.len() ==> !is_slack_marker(r[i]),
    ensures
        slack_scan(r, line_start) == r,
    decreases r.len(),
{
    if r.len() > 0 {
        assert(!is_slack_marker(r[0]));
        if starts_with(r, seq!['*', '*']) {
            assert(r.subrange(0, 2)[0] == '*');
        }
        if starts_with(r, seq!['~', '~']) {
            assert(r.subrange(0, 2)[0] == '~');
        }
        assert(slack_step(r, line_start) == (seq![r[0]], 1int));
        lemma_slack_scan_plain(r.skip(1), r[0] == '\n');
        assert(seq![r[0]] + r.skip(1) =~= r);
    }
}

/// Markdown without `*`, `~`, `[` or `#` is already Slack mrkdwn: the
/// conversion leaves it unchanged.
pub proof fn lemma_slack_plain_text_unchanged(md: Seq<char>)
    requires
        forall|i: int| 0 <= i < md.len() ==> !is_slack_marker(md[i]),
    ensures
        slack_mrkdwn(md) == md,
{
    lemma_slack_scan_plain(md, true);
}

/// `k` `#` characters.
pub open spec fn hash_marks(k: nat) -> Seq<char> {
    Seq::new(k, |i: int| '#')
}

/// A run of `k` `#`s is counted whole.
proof fn lemma_hash_run_marks(k: nat, x: Seq<char>)
    requires
        x.len() > 0 ==> x[0] != '#',
    ensures
        hash_run(hash_marks(k) + x) == k,
    decreases k,
{
    if k == 0 {
        assert(hash_marks(0) + x =~= x);
    } else {
        let r = hash_marks(k) + x;
        assert(r[0] == '#');
        assert(r.drop_first() =~= hash_marks((k - 1) as nat) + x);
        lemma_hash_run_marks((k - 1) as nat, x);
    }
}

/// The first step of the Slack scan on a heading line `#`^k, a space and
/// `t` followed by `tail`, where `tail` is empty or starts a new line.
proof fn lemma_slack_header_step(k: nat, t: Seq<char>, tail: Seq<char>)
    requires
        k >= 1,
        forall|i: int| 0 <= i < t.len() ==> t[i] != '\n',
        tail.len() == 0 || tail[0] == '\n',
    ensures
        ({
            let r = hash_marks(k) + seq![' '] + t + tail;
            slack_step(r, true) == (seq!['*'] + t + seq!['*'], (k + 1 + t.len()) as int)
        }),
{
    let r = hash_marks(k) + seq![' '] + t + tail;
    let x = seq![' '] + t + tail;
    assert(r =~= hash_marks(k) + x);
    lemma_hash_run_marks(k, x);
    assert(r[k as int] == ' ');
    assert(r[0] == '#');
    let start = (k + 1) as int;
    assert(r.skip(start) =~= t + tail);
    if tail.len() > 0 {
        assert((t + tail).subrange(t.len() as int, t.len() + 1int) =~= seq!['\n']);
        assert forall|j: int| 0 <= j < t.len() implies !match_at(t + tail, seq!['\n'], j) by {
            if match_at(t + tail, seq!['\n'], j) {
                assert((t + tail).subrange(j, j + 1)[0] == t[j]);
            }
        }
        crate::text::lemma_find_is(t + tail, seq!['\n'], t.len() as int);
    } else {
        assert forall|j: int| !match_at(t + tail, seq!['\n'], j) by {
            if match_at(t + tail, seq!['\n'], j) {
                assert((t + tail).subrange(j, j + 1)[0] == t[j]);
            }
        }
    }
    assert(r.subrange(start, start + t.len()) =~= t);
    assert(!starts_with(r, seq!['*', '*'])) by {
        if starts_with(r, seq!['*', '*']) {
            assert(r.subrange(0, 2)[0] == r[0]);
        }
    }
    assert(!starts_with(r, seq!['~', '~'])) by {
        if starts_with(r, seq!['~', '~']) {
            assert(r.subrange(0, 2)[0] == r[0]);
        }
    }
}

/// In Slack mrkdwn a Markdown heading (one or more `#`s and a space at the
/// start of a line) becomes its whole text, up to the line break, in
/// bold: the heading text `t`, spaces and all, between two `*`, and the
/// lines after it convert as they would on their own.
pub proof fn lemma_slack_heading(k: nat, t: Seq<char>, rest: Seq<char>)
    requires
        k >= 1,
        forall|i: int| 0 <= i < t.len() ==> t[i] != '\n',
    ensures
        slack_mrkdwn(hash_marks(k) + " "@ + t) == "*"@ + t + "*"@,
        slack_mrkdwn(hash_marks(k) + " "@ + t + "\n"@ + rest) == "*"@ + t + "*"@ + "\n"@
            + slack_mrkdwn(rest),
{
    reveal_strlit(" ");
    reveal_strlit("*");
    reveal_strlit("\n");
    assert(" "@ =~= seq![' ']);
    assert("*"@ =~= seq!['*']);
    assert("\n"@ =~= seq!['\n']);
    let n = (k + 1 + t.len()) as int;
    let empty = Seq::<char>::empty();
    lemma_slack_header_step(k, t, empty);
    let r1 = hash_marks(k) + seq![' '] + t + empty;
    assert(r1 =~= hash_marks(k) + " "@ + t);
    assert(r1.skip(n) =~= empty);
    assert(slack_scan(empty, r1[n - 1] == '\n') == empty);
    assert(seq!['*'] + t + seq!['*'] + empty =~= "*"@ + t + "*"@);
    let tail = seq!['\n'] + rest;
    lemma_slack_header_step(k, t, tail);
    let r2 = hash_marks(k) + seq![' '] + t + tail;
    assert(r2 =~= hash_marks(k) + " "@ + t + "\n"@ + rest);
    assert(r2.skip(n) =~= tail);
    assert(r2[n - 1] != '\n') by {
        if t.len() > 0 {
            assert(r2[n - 1] == t[t.len() - 1]);
        } else {
            assert(r2[n - 1] == ' ');
        }
    }
    assert(!starts_with(tail, seq!['*', '*'])) by {
        if starts_with(tail, seq!['*', '*']) {
            assert(tail.subrange(0, 2)[0] == tail[0]);
        }
    }
    assert(!starts_with(tail, seq!['~', '~'])) by {
        if starts_with(tail, seq!['~', '~']) {
            assert(tail.subrange(0, 2)[0] == tail[0]);
        }
    }
    assert(slack_step(tail, false) == (seq!['\n'], 1int));
    assert(tail.skip(1) =~= rest);
    assert(slack_scan(tail, false) == seq!['\n'] + slack_scan(rest, true));
    assert(seq!['*'] + t + seq!['*'] + (seq!['\n'] + slack_scan(rest, true)) =~= "*"@ + t + "*"@
        + "\n"@ + slack_mrkdwn(rest));
}

/// The characters that fit are within the budget.
pub proof fn lemma_fit_count_fits(l: Seq<char>, budget: int)
    requires
        budget >= 0,
    ensures
        fit_count(l, budget) <= l.len(),
        utf8_len(l.take(fit_count(l, budget) as int)) <= budget,
    decreases l.len(),
{
    let c = fit_count(l, budget) as int;
    if l.len() > 0 && char_len(l[0]) <= budget {
        let rest = l.drop_first();
        lemma_fit_count_fits(rest, budget - char_len(l[0]));
        let k = fit_count(rest, budget - char_len(l[0])) as int;
        assert(l.take(c) =~= seq![l[0]] + rest.take(k));
        lemma_utf8_len_concat(seq![l[0]], rest.take(k));
        assert(seq![l[0]].drop_last() =~= Seq::<char>::empty());
        assert(utf8_len(Seq::<char>::empty()) == 0);
        assert(utf8_len(seq![l[0]]) == char_len(l[0]));
    } else {
        assert(l.take(0) =~= Seq::<char>::empty());
    }
}

/// With a limit of at least one byte, every forced piece is within it.
proof fn lemma_force_split_bound(l: Seq<char>, max: nat)
    requires
        max >= 1,
        force_split(l, max) is Some,
    ensures
        forall|i: int|
            0 <= i < force_split(l, max)->0.len() ==> utf8_len(
                #[trigger] force_split(l, max)->0[i],
            ) <= max,
    decreases l.len(),
{
    if l.len() > 0 {
        let c = fit_count(l, max as int) as int;
        lemma_fit_count_fits(l, max as int);
        if c == 0 {
            assert(char_len(l[0]) > max);
        }
        let n = c;
        lemma_force_split_bound(l.skip(n), max);
        let ps = force_split(l.skip(n), max)->0;
        assert(force_split(l, max)->0 == seq![l.take(n)] + ps);
        assert forall|i: int| 0 <= i < force_split(l, max)->0.len() implies utf8_len(
            #[trigger] force_split(l, max)->0[i],
        ) <= max by {
            if i > 0 {
                assert(force_split(l, max)->0[i] == ps[i - 1]);
            }
        }
    }
}

/// Every chunk is non-empty and within `max` bytes.
pub open spec fn chunks_fit(chunks: Seq<Seq<char>>, max: nat) -> bool {
    forall|i: int| 0 <= i < chunks.len() ==> #[trigger] chunks[i].len() > 0 && utf8_len(chunks[i]) <= max
}

/// With a limit of at least one byte, forced pieces are non-empty and fit.
proof fn lemma_force_split_fit(l: Seq<char>, max: nat)
    requires
        max >= 1,
        force_split(l, max) is Some,
    ensures
        chunks_fit(force_split(l, max)->0, max),
    decreases l.len(),
{
    lemma_force_split_bound(l, max);
    if l.len() > 0 {
        let c = fit_count(l, max as int) as int;
        lemma_fit_count_fits(l, max as int);
        if c == 0 {
            assert(char_len(l[0]) > max);
        }
        lemma_force_split_fit(l.skip(c), max);
        let ps = force_split(l.skip(c), max)->0;
        assert(force_split(l, max)->0 == seq![l.take(c)] + ps);
        assert forall|i: int| 0 <= i < force_split(l, max)->0.len() implies #[trigger] force_split(
            l,
            max,
        )->0[i].len() > 0 by {
            if i > 0 {
                assert(force_split(l, max)->0[i] == ps[i - 1]);
            }
        }
    }
}

/// The packing keeps every chunk non-empty and within the limit.
proof fn lemma_chunk_lines_fit(
    lines: Seq<Seq<char>>,
    max: nat,
    chunks: Seq<Seq<char>>,
    current: Seq<char>,
)
    requires
        max >= 1,
        chunks_fit(chunks, max),
        utf8_len(current) <= max,
        chunk_lines(lines, max, chunks, current) is Some,
    ensures
        chunks_fit(chunk_lines(lines, max, chunks, current)->0, max),
    decreases lines.len(),
{
    if lines.len() == 0 {
        if current.len() > 0 {
            let out = chunks.push(current);
            assert forall|i: int| 0 <= i < out.len() implies #[trigger] out[i].len() > 0 && utf8_len(
                out[i],
            ) <= max by {
                if i < chunks.len() {
                    assert(out[i] == chunks[i]);
                }
            }
        }
    } else {
        let line = lines[0];
        let rest = lines.drop_first();
        let with_nl = if current.len() == 0 {
            line
        } else {
            seq!['\n'] + line
        };
        if utf8_len(current) + utf8_len(with_nl) > max {
            let closed = if current.len() > 0 {
                chunks.push(current)
            } else {
                chunks
            };
            assert forall|i: int| 0 <= i < closed.len() implies #[trigger] closed[i].len() > 0
                && utf8_len(closed[i]) <= max by {
                if i < chunks.len() {
                    assert(closed[i] == chunks[i]);
                }
            }
            if utf8_len(line) <= max {
                lemma_chunk_lines_fit(rest, max, closed, line);
            } else {
                let ps = force_split(line, max)->0;
                lemma_force_split_fit(line, max);
                let next = closed + ps;
                assert forall|i: int| 0 <= i < next.len() implies #[trigger] next[i].len() > 0
                    && utf8_len(next[i]) <= max by {
                    if i < closed.len() {
                        assert(next[i] == closed[i]);
                    } else {
                        assert(next[i] == ps[i - closed.len()]);
                    }
                }
                assert(utf8_len(Seq::<char>::empty()) == 0);
                lemma_chunk_lines_fit(rest, max, next, Seq::empty());
            }
        } else {
            lemma_utf8_len_concat(current, with_nl);
            lemma_chunk_lines_fit(rest, max, chunks, current + with_nl);
        }
    }
}

/// Every chunk of the HTML is at most `max_len` bytes and, when the HTML
/// does not fit in one, non-empty. (With a limit of zero, forced pieces of
/// one byte exceed it.)
pub proof fn lemma_chunks_within_limit(html: Seq<char>, max: nat)
    requires
        max >= 1,
        chunk_plan(html, max) is Some,
    ensures
        forall|i: int|
            0 <= i < chunk_plan(html, max)->0.len() ==> utf8_len(#[trigger] chunk_plan(html, max)->0[i])
                <= max,
        utf8_len(html) > max ==> chunks_fit(chunk_plan(html, max)->0, max),
{
    if utf8_len(html) > max {
        assert(utf8_len(Seq::<char>::empty()) == 0);
        lemma_chunk_lines_fit(split_lines(html), max, Seq::empty(), Seq::empty());
    }
}

/// A character is at most four bytes.
proof fn lemma_char_len_le_4(c: char)
    ensures
        1 <= char_len(c) <= 4,
{
}

/// With a limit of at least four bytes, a line can always be cut.
proof fn lemma_force_split_exists(l: Seq<char>, max: nat)
    requires
        max >= 4,
    ensures
        force_split(l, max) is Some,
    decreases l.len(),
{
    if l.len() > 0 {
        lemma_char_len_le_4(l[0]);
        let c = fit_count(l, max as int) as int;
        lemma_fit_count_fits(l, max as int);
        assert(c >= 1);
        lemma_force_split_exists(l.skip(c), max);
    }
}

proof fn lemma_chunk_lines_exists(
    lines: Seq<Seq<char>>,
    max: nat,
    chunks: Seq<Seq<char>>,
    current: Seq<char>,
)
    requires
        max >= 4,
    ensures
        chunk_lines(lines, max, chunks, current) is Some,
    decreases lines.len(),
{
    if lines.len() > 0 {
        let line = lines[0];
        let rest = lines.drop_first();
        let with_nl = if current.len() == 0 {
            line
        } else {
            seq!['\n'] + line
        };
        let closed = if current.len() > 0 {
            chunks.push(current)
        } else {
            chunks
        };
        lemma_force_split_exists(line, max);
        lemma_chunk_lines_exists(rest, max, closed, line);
        lemma_chunk_lines_exists(rest, max, closed + force_split(line, max)->0, Seq::empty());
        lemma_chunk_lines_exists(rest, max, chunks, current + with_nl);
    }
}

/// With a limit of at least four bytes (the widest character), chunking
/// always succeeds.
pub proof fn lemma_chunk_plan_exists(html: Seq<char>, max: nat)
    requires
        max >= 4,
    ensures
        chunk_plan(html, max) is Some,
{
    lemma_chunk_lines_exists(split_lines(html), max, Seq::empty(), Seq::empty());
}

/// The pieces of a forced split, written one after another, are the line.
proof fn lemma_force_split_joined(l: Seq<char>, max: nat)
    requires
        force_split(l, max) is Some,
    ensures
        joined(force_split(l, max)->0) == l,
    decreases l.len(),
{
    if l.len() > 0 {
        let c = fit_count(l, max as int) as int;
        let n = if c == 0 {
            1
        } else {
            c
        };
        lemma_force_split_joined(l.skip(n), max);
        lemma_joined_prepend(l.take(n), force_split(l.skip(n), max)->0);
        assert(l.take(n) + l.skip(n) =~= l);
    }
}

/// A line break followed by a text, without its line breaks.
proof fn lemma_unbroken_break(a: Seq<char>)
    ensures
        without(seq!['\n'] + a, '\n') == without(a, '\n'),
{
    lemma_without_concat(seq!['\n'], a, '\n');
    assert(seq!['\n'].drop_last() =~= Seq::<char>::empty());
    assert(seq!['\n'].last() == '\n');
    assert(without(Seq::<char>::empty(), '\n') =~= Seq::<char>::empty());
    assert(Seq::<char>::empty() + without(a, '\n') =~= without(a, '\n'));
}

/// The lines of a text, written one after another, are the text without
/// its line breaks.
proof fn lemma_split_lines_unbroken(s: Seq<char>)
    ensures
        without(joined(split_lines(s)), '\n') == without(s, '\n'),
    decreases s.len(),
{
    match find(s, seq!['\n']) {
        Some(k) => {
            if 0 <= k < s.len() {
                lemma_find_some(s, seq!['\n']);
                assert(s.subrange(k, k + 1) =~= seq!['\n']);
                lemma_split_lines_unbroken(s.skip(k + 1));
                lemma_joined_prepend(s.take(k), split_lines(s.skip(k + 1)));
                lemma_without_concat(s.take(k), joined(split_lines(s.skip(k + 1))), '\n');
                assert(s =~= s.take(k) + (seq!['\n'] + s.skip(k + 1)));
                lemma_without_concat(s.take(k), seq!['\n'] + s.skip(k + 1), '\n');
                lemma_unbroken_break(s.skip(k + 1));
            } else {
                lemma_joined_prepend(s, Seq::empty());
                assert(s + Seq::<char>::empty() =~= s);
            }
        },
        None => {
            lemma_joined_prepend(s, Seq::empty());
            assert(s + Seq::<char>::empty() =~= s);
        },
    }
}

/// What packing produces, without line breaks, is the chunks so far, the
/// current chunk and the lines still to pack, in that order.
proof fn lemma_chunk_lines_unbroken(
    lines: Seq<Seq<char>>,
    max: nat,
    chunks: Seq<Seq<char>>,
    current: Seq<char>,
)
    requires
        chunk_lines(lines, max, chunks, current) is Some,
    ensures
        without(joined(chunk_lines(lines, max, chunks, current)->0), '\n') == without(joined(chunks), '\n')
            + without(current, '\n') + without(joined(lines), '\n'),
    decreases lines.len(),
{
    let e = Seq::<char>::empty();
    assert(without(e, '\n') =~= e);
    if lines.len() == 0 {
        if current.len() > 0 {
            lemma_joined_concat(chunks, seq![current]);
            lemma_joined_prepend(current, Seq::empty());
            assert(seq![current] + Seq::<Seq<char>>::empty() =~= seq![current]);
            assert(current + e =~= current);
            assert(chunks.push(current) =~= chunks + seq![current]);
            lemma_without_concat(joined(chunks), current, '\n');
        } else {
            assert(current =~= e);
        }
        assert(without(joined(chunks), '\n') + without(current, '\n') + e =~= without(joined(chunks), '\n')
            + without(current, '\n'));
    } else {
        let line = lines[0];
        let rest = lines.drop_first();
        let with_nl = if current.len() == 0 {
            line
        } else {
            seq!['\n'] + line
        };
        let wc = without(joined(chunks), '\n');
        let wcur = without(current, '\n');
        let wl = without(line, '\n');
        let wr = without(joined(rest), '\n');
        lemma_without_concat(line, joined(rest), '\n');
        if utf8_len(current) + utf8_len(with_nl) > max {
            let closed = if current.len() > 0 {
                chunks.push(current)
            } else {
                chunks
            };
            if current.len() > 0 {
                lemma_joined_concat(chunks, seq![current]);
                lemma_joined_prepend(current, Seq::empty());
                assert(seq![current] + Seq::<Seq<char>>::empty() =~= seq![current]);
                assert(current + e =~= current);
                assert(chunks.push(current) =~= chunks + seq![current]);
                lemma_without_concat(joined(chunks), current, '\n');
            } else {
                assert(current =~= e);
                assert(wc + wcur =~= wc);
            }
            assert(without(joined(closed), '\n') == wc + wcur);
            if utf8_len(line) <= max {
                lemma_chunk_lines_unbroken(rest, max, closed, line);
            } else {
                let ps = force_split(line, max)->0;
                lemma_chunk_lines_unbroken(rest, max, closed + ps, e);
                lemma_force_split_joined(line, max);
                lemma_joined_concat(closed, ps);
                lemma_without_concat(joined(closed), joined(ps), '\n');
            }
            assert(wc + wcur + wl + wr =~= wc + wcur + (wl + wr));
            assert(wc + wcur + wl + e + wr =~= wc + wcur + (wl + wr));
        } else {
            lemma_chunk_lines_unbroken(rest, max, chunks, current + with_nl);
            lemma_without_concat(current, with_nl, '\n');
            if current.len() > 0 {
                lemma_unbroken_break(line);
            }
            assert(wc + (wcur + wl) + wr =~= wc + wcur + (wl + wr));
        }
    }
}

/// Chunking loses nothing and reorders nothing: written one after another
/// and without their line breaks, the chunks are the HTML without its line
/// breaks. (Only line breaks at the cuts, and empty lines, are dropped.)
pub proof fn lemma_chunks_keep_text(html: Seq<char>, max: nat)
    requires
        chunk_plan(html, max) is Some,
    ensures
        without(joined(chunk_plan(html, max)->0), '\n') == without(html, '\n'),
{
    if utf8_len(html) <= max {
        lemma_joined_prepend(html, Seq::empty());
        assert(seq![html] + Seq::<Seq<char>>::empty() =~= seq![html]);
        assert(html + Seq::<char>::empty() =~= html);
    } else {
        lemma_chunk_lines_unbroken(split_lines(html), max, Seq::empty(), Seq::empty());
        lemma_split_lines_unbroken(html);
        assert(joined(Seq::<Seq<char>>::empty()) =~= Seq::<char>::empty());
        assert(without(Seq::<char>::empty(), '\n') =~= Seq::<char>::empty());
        assert(Seq::<char>::empty() + Seq::<char>::empty() + without(joined(split_lines(html)), '\n')
            =~= without(joined(split_lines(html)), '\n'));
    }
}

} // verus!
