//! Character-level text utilities shared by the formatters.
//!
//! Text is handled as a sequence of `char`s; byte lengths (what `str::len`
//! reports) are modelled by `utf8_len`.
use vstd::prelude::*;

verus! {

// ---------------------------------------------------------------------------
// Specifications
// ---------------------------------------------------------------------------

/// The Unicode `White_Space` property, as used by `char::is_whitespace`.
pub open spec fn is_ws(c: char) -> bool {
    ||| c == '\t'
    ||| c == '\n'
    ||| c == '\x0B'
    ||| c == '\x0C'
    ||| c == '\r'
    ||| c == ' '
    ||| c == '\u{85}'
    ||| c == '\u{A0}'
    ||| c == '\u{1680}'
    ||| ('\u{2000}' <= c && c <= '\u{200A}')
    ||| c == '\u{2028}'
    ||| c == '\u{2029}'
    ||| c == '\u{202F}'
    ||| c == '\u{205F}'
    ||| c == '\u{3000}'
}

/// Number of bytes of the UTF-8 encoding of `c`.
pub open spec fn char_len(c: char) -> nat {
    if (c as u32) < 0x80 {
        1
    } else if (c as u32) < 0x800 {
        2
    } else if (c as u32) < 0x10000 {
        3
    } else {
        4
    }
}

/// Number of bytes of the UTF-8 encoding of `s` (what `str::len` returns).
pub open spec fn utf8_len(s: Seq<char>) -> nat
    decreases s.len(),
{
    if s.len() == 0 {
        0
    } else {
        utf8_len(s.drop_last()) + char_len(s.last())
    }
}

/// `s` with its leading whitespace removed (`str::trim_start`).
pub open spec fn trim_start(s: Seq<char>) -> Seq<char>
    decreases s.len(),
{
    if s.len() > 0 && is_ws(s[0]) {
        trim_start(s.drop_first())
    } else {
        s
    }
}

/// `s` with its trailing whitespace removed (`str::trim_end`).
pub open spec fn trim_end(s: Seq<char>) -> Seq<char>
    decreases s.len(),
{
    if s.len() > 0 && is_ws(s.last()) {
        trim_end(s.drop_last())
    } else {
        s
    }
}

/// `s` with leading and trailing whitespace removed (`str::trim`).
pub open spec fn trim(s: Seq<char>) -> Seq<char> {
    trim_start(trim_end(s))
}

/// `p` occurs in `s` starting at index `i`.
pub open spec fn match_at(s: Seq<char>, p: Seq<char>, i: int) -> bool {
    0 <= i && i + p.len() <= s.len() && s.subrange(i, i + p.len()) == p
}

/// `i` is the first index at which `p` occurs in `s`.
pub open spec fn first_match(s: Seq<char>, p: Seq<char>, i: int) -> bool {
    match_at(s, p, i) && forall|j: int| 0 <= j < i ==> !match_at(s, p, j)
}

/// `i` is the last index at which `p` occurs in `s`.
pub open spec fn last_match(s: Seq<char>, p: Seq<char>, i: int) -> bool {
    match_at(s, p, i) && forall|j: int| i < j <= s.len() ==> !match_at(s, p, j)
}

/// Index of the first occurrence of `p` in `s` (`str::find`).
pub open spec fn find(s: Seq<char>, p: Seq<char>) -> Option<int> {
    if exists|i: int| first_match(s, p, i) {
        Some(choose|i: int| first_match(s, p, i))
    } else {
        None
    }
}

/// Index of the last occurrence of `p` in `s` (`str::rfind`).
pub open spec fn rfind(s: Seq<char>, p: Seq<char>) -> Option<int> {
    if exists|i: int| last_match(s, p, i) {
        Some(choose|i: int| last_match(s, p, i))
    } else {
        None
    }
}

/// `p` occurs somewhere in `s` (`str::contains`).
pub open spec fn contains(s: Seq<char>, p: Seq<char>) -> bool {
    exists|i: int| match_at(s, p, i)
}

/// `s` begins with `p` (`str::starts_with`).
pub open spec fn starts_with(s: Seq<char>, p: Seq<char>) -> bool {
    p.len() <= s.len() && s.subrange(0, p.len() as int) == p
}

/// `s` ends with `p` (`str::ends_with`).
pub open spec fn ends_with(s: Seq<char>, p: Seq<char>) -> bool {
    p.len() <= s.len() && s.subrange(s.len() - p.len(), s.len() as int) == p
}

/// The lowercase form of a string, as computed by `str::to_lowercase`
/// (full Unicode case mapping).
pub uninterp spec fn lowercase(s: Seq<char>) -> Seq<char>;

/// Every character of `s` is ASCII.
pub open spec fn all_ascii(s: Seq<char>) -> bool {
    forall|i: int| 0 <= i < s.len() ==> (s[i] as u32) < 128
}

/// The ASCII lowercase form of a character (`char::to_ascii_lowercase`).
pub open spec fn ascii_lower(c: char) -> char {
    if 'A' <= c && c <= 'Z' {
        ((c as u32) + 32) as char
    } else {
        c
    }
}

/// `s` with every ASCII capital letter lowered.
pub open spec fn ascii_lowered(s: Seq<char>) -> Seq<char> {
    s.map_values(|c: char| ascii_lower(c))
}

// ---------------------------------------------------------------------------
// Lemmas
// ---------------------------------------------------------------------------

/// Byte length is additive over concatenation.
pub proof fn lemma_utf8_len_concat(a: Seq<char>, b: Seq<char>)
    ensures
        utf8_len(a + b) == utf8_len(a) + utf8_len(b),
    decreases b.len(),
{
    if b.len() == 0 {
        assert(a + b =~= a);
    } else {
        lemma_utf8_len_concat(a, b.drop_last());
        assert((a + b).drop_last() =~= a + b.drop_last());
        assert((a + b).last() == b.last());
    }
}

/// Every character takes at least one byte.
pub proof fn lemma_utf8_len_ge_len(s: Seq<char>)
    ensures
        utf8_len(s) >= s.len(),
    decreases s.len(),
{
    if s.len() > 0 {
        lemma_utf8_len_ge_len(s.drop_last());
    }
}

/// The byte length of a prefix does not exceed that of the whole.
pub proof fn lemma_utf8_len_prefix(s: Seq<char>, i: int)
    requires
        0 <= i <= s.len(),
    ensures
        utf8_len(s.take(i)) <= utf8_len(s),
        utf8_len(s.take(i)) + utf8_len(s.skip(i)) == utf8_len(s),
{
    assert(s =~= s.take(i) + s.skip(i));
    lemma_utf8_len_concat(s.take(i), s.skip(i));
}

/// Pins down `find` from a first match.
pub proof fn lemma_find_is(s: Seq<char>, p: Seq<char>, k: int)
    requires
        first_match(s, p, k),
    ensures
        find(s, p) == Some(k),
{
    let c = choose|i: int| first_match(s, p, i);
    assert(first_match(s, p, c));
    if c < k {
        assert(!match_at(s, p, c));
    }
    if k < c {
        assert(!match_at(s, p, k));
    }
}

/// `find` is `None` when nothing matches.
pub proof fn lemma_find_none(s: Seq<char>, p: Seq<char>)
    requires
        forall|j: int| !match_at(s, p, j),
    ensures
        find(s, p) is None,
{
}

/// Pins down `rfind` from a last match.
pub proof fn lemma_rfind_is(s: Seq<char>, p: Seq<char>, k: int)
    requires
        last_match(s, p, k),
    ensures
        rfind(s, p) == Some(k),
{
    let c = choose|i: int| last_match(s, p, i);
    assert(last_match(s, p, c));
    if c < k {
        assert(!match_at(s, p, k));
    }
    if k < c {
        assert(!match_at(s, p, c));
    }
}

/// What `find` returns is a first match.
pub proof fn lemma_find_some(s: Seq<char>, p: Seq<char>)
    requires
        find(s, p) is Some,
    ensures
        first_match(s, p, find(s, p)->0),
{
}

// ---------------------------------------------------------------------------
// Trusted std calls
// ---------------------------------------------------------------------------

/// Appends one character to a `String`.
///
/// Trusted: `String::push`, documented as appending the given `char` to the
/// end of the string.
#[verifier::external_body]
pub(crate) fn string_push(s: &mut String, c: char)
    ensures
        final(s)@ == old(s)@.push(c),
{
    s.push(c);
}

/// Lowercases a string.
///
/// Trusted: `str::to_lowercase`. Its result is named (`lowercase`), since
/// the Unicode case tables are not restated here; the one fact stated of it
/// is that on ASCII text it lowers exactly the letters `A`..`Z`.
#[verifier::external_body]
pub(crate) fn to_lowercase(s: &str) -> (r: String)
    ensures
        r@ == lowercase(s@),
        all_ascii(s@) ==> r@ == ascii_lowered(s@),
{
    s.to_lowercase()
}

/// The characters of `s` that are not whitespace, in order: the text a
/// reader sees, whatever the spacing.
pub open spec fn visible(s: Seq<char>) -> Seq<char>
    decreases s.len(),
{
    if s.len() == 0 {
        Seq::empty()
    } else if is_ws(s.last()) {
        visible(s.drop_last())
    } else {
        visible(s.drop_last()).push(s.last())
    }
}

/// Pieces of text written one after another.
pub open spec fn joined(ps: Seq<Seq<char>>) -> Seq<char>
    decreases ps.len(),
{
    if ps.len() == 0 {
        Seq::empty()
    } else {
        ps[0] + joined(ps.drop_first())
    }
}

/// The visible text of two texts written one after the other.
pub proof fn lemma_visible_concat(a: Seq<char>, b: Seq<char>)
    ensures
        visible(a + b) == visible(a) + visible(b),
    decreases b.len(),
{
    if b.len() == 0 {
        assert(a + b =~= a);
        assert(visible(a) + visible(b) =~= visible(a));
    } else {
        lemma_visible_concat(a, b.drop_last());
        assert((a + b).drop_last() =~= a + b.drop_last());
        assert((a + b).last() == b.last());
        if !is_ws(b.last()) {
            assert(visible(a) + visible(b.drop_last()).push(b.last()) =~= (visible(a) + visible(
                b.drop_last(),
            )).push(b.last()));
        }
    }
}

/// `s` with every occurrence of the character `c` removed.
pub open spec fn without(s: Seq<char>, c: char) -> Seq<char>
    decreases s.len(),
{
    if s.len() == 0 {
        Seq::empty()
    } else if s.last() == c {
        without(s.drop_last(), c)
    } else {
        without(s.drop_last(), c).push(s.last())
    }
}

/// Removing a character from two texts written one after the other.
pub proof fn lemma_without_concat(a: Seq<char>, b: Seq<char>, c: char)
    ensures
        without(a + b, c) == without(a, c) + without(b, c),
    decreases b.len(),
{
    if b.len() == 0 {
        assert(a + b =~= a);
        assert(without(a, c) + without(b, c) =~= without(a, c));
    } else {
        lemma_without_concat(a, b.drop_last(), c);
        assert((a + b).drop_last() =~= a + b.drop_last());
        assert((a + b).last() == b.last());
        if b.last() != c {
            assert(without(a, c) + without(b.drop_last(), c).push(b.last()) =~= (without(a, c)
                + without(b.drop_last(), c)).push(b.last()));
        }
    }
}

/// Dropping leading whitespace leaves the visible text as it is.
pub proof fn lemma_visible_trim_start(s: Seq<char>)
    ensures
        visible(trim_start(s)) == visible(s),
    decreases s.len(),
{
    if s.len() > 0 && is_ws(s[0]) {
        lemma_visible_trim_start(s.drop_first());
        lemma_visible_concat(seq![s[0]], s.drop_first());
        assert(seq![s[0]] + s.drop_first() =~= s);
        assert(seq![s[0]].drop_last() =~= Seq::<char>::empty());
        assert(seq![s[0]].last() == s[0]);
        assert(visible(Seq::<char>::empty()) =~= Seq::<char>::empty());
        assert(visible(seq![s[0]]) =~= Seq::<char>::empty());
        assert(Seq::<char>::empty() + visible(s.drop_first()) =~= visible(s.drop_first()));
    }
}

/// Writing one more piece in front.
pub proof fn lemma_joined_prepend(p: Seq<char>, ps: Seq<Seq<char>>)
    ensures
        joined(seq![p] + ps) == p + joined(ps),
{
    assert((seq![p] + ps).drop_first() =~= ps);
    assert((seq![p] + ps)[0] == p);
}

/// Pieces written after other pieces.
pub proof fn lemma_joined_concat(a: Seq<Seq<char>>, b: Seq<Seq<char>>)
    ensures
        joined(a + b) == joined(a) + joined(b),
    decreases a.len(),
{
    if a.len() == 0 {
        assert(a + b =~= b);
        assert(joined(a) + joined(b) =~= joined(b));
    } else {
        lemma_joined_concat(a.drop_first(), b);
        assert((a + b).drop_first() =~= a.drop_first() + b);
        assert((a + b)[0] == a[0]);
        assert(a[0] + (joined(a.drop_first()) + joined(b)) =~= (a[0] + joined(a.drop_first())) + joined(b));
    }
}

/// A byte that percent-encoding leaves as it is: an ASCII letter or digit,
/// or one of `-`, `.`, `_`, `~`.
pub open spec fn is_unreserved_byte(b: u8) -> bool {
    (0x30 <= b && b <= 0x39) || (0x41 <= b && b <= 0x5A) || (0x61 <= b && b <= 0x7A) || b == 0x2D
        || b == 0x2E || b == 0x5F || b == 0x7E
}

/// The upper-case hexadecimal digit of `d`, for `0 <= d < 16`.
pub open spec fn hex_digit(d: int) -> char {
    if d < 10 {
        ('0' as int + d) as char
    } else {
        ('A' as int + d - 10) as char
    }
}

/// The bytes of the UTF-8 encoding of `c`.
pub open spec fn utf8_bytes(c: char) -> Seq<u8> {
    let v = c as u32 as int;
    if v < 0x80 {
        seq![v as u8]
    } else if v < 0x800 {
        seq![(0xC0 + v / 64) as u8, (0x80 + v % 64) as u8]
    } else if v < 0x10000 {
        seq![(0xE0 + v / 4096) as u8, (0x80 + (v / 64) % 64) as u8, (0x80 + v % 64) as u8]
    } else {
        seq![
            (0xF0 + v / 262144) as u8,
            (0x80 + (v / 4096) % 64) as u8,
            (0x80 + (v / 64) % 64) as u8,
            (0x80 + v % 64) as u8,
        ]
    }
}

/// How percent-encoding writes one byte: as itself when unreserved, else
/// as `%` and two upper-case hexadecimal digits.
pub open spec fn percent_byte(b: u8) -> Seq<char> {
    if is_unreserved_byte(b) {
        seq![b as char]
    } else {
        seq!['%', hex_digit(b as int / 16), hex_digit(b as int % 16)]
    }
}

/// The percent-encoding of a byte sequence.
pub open spec fn percent_bytes(bs: Seq<u8>) -> Seq<char>
    decreases bs.len(),
{
    if bs.len() == 0 {
        Seq::empty()
    } else {
        percent_bytes(bs.drop_last()) + percent_byte(bs.last())
    }
}

/// The percent-encoding of a text: each character's UTF-8 bytes, encoded
/// one by one.
pub open spec fn percent_encoded(s: Seq<char>) -> Seq<char>
    decreases s.len(),
{
    if s.len() == 0 {
        Seq::empty()
    } else {
        percent_encoded(s.drop_last()) + percent_bytes(utf8_bytes(s.last()))
    }
}

/// Percent-encodes a text for use in a URL path.
///
/// Trusted: `urlencoding::encode`, which, as its source shows, keeps the
/// unreserved ASCII bytes and writes every other byte of the text's UTF-8
/// encoding as `%` and two upper-case hexadecimal digits.
#[verifier::external_body]
pub(crate) fn url_encode(s: &str) -> (r: String)
    ensures
        r@ == percent_encoded(s@),
{
    urlencoding::encode(s).into_owned()
}

// ---------------------------------------------------------------------------
// Executable helpers
// ---------------------------------------------------------------------------

/// The characters of a string slice, in order.
pub fn chars_of(s: &str) -> (v: Vec<char>)
    ensures
        v@ == s@,
{
    let mut v: Vec<char> = Vec::new();
    for c in it: s.chars()
        invariant
            v@ == it.seq().take(it.index() as int),
            it.seq() == s@,
    {
        v.push(c);
    }
    v
}

/// Builds a `String` from a sequence of characters.
pub fn string_of(v: &Vec<char>) -> (s: String)
    ensures
        s@ == v@,
{
    let mut s = String::new();
    let mut i: usize = 0;
    while i < v.len()
        invariant
            i <= v.len(),
            s@ == v@.take(i as int),
        decreases v.len() - i,
    {
        string_push(&mut s, v[i]);
        assert(v@.take(i + 1) == v@.take(i as int).push(v@[i as int]));
        i += 1;
    }
    assert(v@.take(v.len() as int) == v@);
    s
}

/// Appends the characters of `s` to `out`.
pub fn push_str(out: &mut Vec<char>, s: &str)
    ensures
        final(out)@ == old(out)@ + s@,
{
    for c in it: s.chars()
        invariant
            out@ == old(out)@ + it.seq().take(it.index() as int),
            it.seq() == s@,
    {
        out.push(c);
    }
    assert(s@.take(s@.len() as int) == s@);
}

/// Appends `v[from..to]` to `out`.
pub fn push_range(out: &mut Vec<char>, v: &Vec<char>, from: usize, to: usize)
    requires
        from <= to <= v.len(),
    ensures
        final(out)@ == old(out)@ + v@.subrange(from as int, to as int),
{
    let mut i = from;
    while i < to
        invariant
            from <= i <= to <= v.len(),
            out@ == old(out)@ + v@.subrange(from as int, i as int),
        decreases to - i,
    {
        out.push(v[i]);
        assert(v@.subrange(from as int, i + 1) == v@.subrange(from as int, i as int).push(
            v@[i as int],
        ));
        i += 1;
    }
}

/// Copies `v[from..to]` into a new vector.
pub fn slice_of(v: &Vec<char>, from: usize, to: usize) -> (r: Vec<char>)
    requires
        from <= to <= v.len(),
    ensures
        r@ == v@.subrange(from as int, to as int),
{
    let mut r: Vec<char> = Vec::new();
    push_range(&mut r, v, from, to);
    r
}

/// `char::is_whitespace`.
pub fn char_is_ws(c: char) -> (b: bool)
    ensures
        b == is_ws(c),
{
    c == '\t' || c == '\n' || c == '\x0B' || c == '\x0C' || c == '\r' || c == ' ' || c == '\u{85}'
        || c == '\u{A0}' || c == '\u{1680}' || ('\u{2000}' <= c && c <= '\u{200A}') || c
        == '\u{2028}' || c == '\u{2029}' || c == '\u{202F}' || c == '\u{205F}' || c == '\u{3000}'
}

/// `char::len_utf8`.
pub fn char_len_utf8(c: char) -> (n: usize)
    ensures
        n == char_len(c),
{
    let u = c as u32;
    if u < 0x80 {
        1
    } else if u < 0x800 {
        2
    } else if u < 0x10000 {
        3
    } else {
        4
    }
}

/// Byte length of `v[from..to]`.
pub fn utf8_len_range(v: &Vec<char>, from: usize, to: usize) -> (n: u128)
    requires
        from <= to <= v.len(),
    ensures
        n == utf8_len(v@.subrange(from as int, to as int)),
        n <= 4 * (to - from),
{
    let mut n: u128 = 0;
    let mut i = from;
    while i < to
        invariant
            from <= i <= to <= v.len(),
            n == utf8_len(v@.subrange(from as int, i as int)),
            n <= 4 * (i - from),
        decreases to - i,
    {
        let ghost sub = v@.subrange(from as int, i + 1);
        assert(sub.drop_last() == v@.subrange(from as int, i as int));
        n = n + char_len_utf8(v[i]) as u128;
        i += 1;
    }
    n
}

/// Index of the first whitespace-free position at or after `from` and
/// before `to`, scanning forward (the start of `trim_start(v[from..to])`).
pub fn skip_ws(v: &Vec<char>, from: usize, to: usize) -> (k: usize)
    requires
        from <= to <= v.len(),
    ensures
        from <= k <= to,
        trim_start(v@.subrange(from as int, to as int)) == v@.subrange(k as int, to as int),
{
    let mut k = from;
    while k < to && char_is_ws(v[k])
        invariant
            from <= k <= to <= v.len(),
            trim_start(v@.subrange(from as int, to as int)) == trim_start(
                v@.subrange(k as int, to as int),
            ),
        decreases to - k,
    {
        assert(v@.subrange(k as int, to as int).drop_first() == v@.subrange(k + 1, to as int));
        k += 1;
    }
    k
}

/// End of `trim_end(v[from..to])`, scanning backward.
pub fn skip_ws_back(v: &Vec<char>, from: usize, to: usize) -> (k: usize)
    requires
        from <= to <= v.len(),
    ensures
        from <= k <= to,
        trim_end(v@.subrange(from as int, to as int)) == v@.subrange(from as int, k as int),
{
    let mut k = to;
    while k > from && char_is_ws(v[k - 1])
        invariant
            from <= k <= to <= v.len(),
            trim_end(v@.subrange(from as int, to as int)) == trim_end(
                v@.subrange(from as int, k as int),
            ),
        decreases k - from,
    {
        assert(v@.subrange(from as int, k as int).drop_last() == v@.subrange(
            from as int,
            k - 1,
        ));
        k -= 1;
    }
    k
}

/// Bounds `(a, b)` of `trim(v[from..to])`.
pub fn trim_range(v: &Vec<char>, from: usize, to: usize) -> (r: (usize, usize))
    requires
        from <= to <= v.len(),
    ensures
        from <= r.0 <= r.1 <= to,
        trim(v@.subrange(from as int, to as int)) == v@.subrange(r.0 as int, r.1 as int),
{
    let b = skip_ws_back(v, from, to);
    let a = skip_ws(v, from, b);
    (a, b)
}

/// Whether `p` occurs in `v` at absolute index `i`.
pub fn matches_at(v: &Vec<char>, i: usize, p: &Vec<char>) -> (b: bool)
    ensures
        b == match_at(v@, p@, i as int),
{
    if p.len() > v.len() || i > v.len() - p.len() {
        return false;
    }
    let mut j: usize = 0;
    while j < p.len()
        invariant
            i + p.len() <= v.len(),
            j <= p.len(),
            forall|t: int| 0 <= t < j ==> v@[i + t] == p@[t],
        decreases p.len() - j,
    {
        if v[i + j] != p[j] {
            assert(v@.subrange(i as int, i + p.len())[j as int] != p@[j as int]);
            return false;
        }
        j += 1;
    }
    assert(v@.subrange(i as int, i + p.len()) =~= p@);
    true
}

/// Relative index of the first occurrence of `p` in `v[from..to]`.
pub fn find_in(v: &Vec<char>, from: usize, to: usize, p: &Vec<char>) -> (r: Option<usize>)
    requires
        from <= to <= v.len(),
    ensures
        match r {
            Some(k) => find(v@.subrange(from as int, to as int), p@) == Some(k as int),
            None => find(v@.subrange(from as int, to as int), p@) is None && !contains(
                v@.subrange(from as int, to as int),
                p@,
            ),
        },
{
    let ghost s = v@.subrange(from as int, to as int);
    if p.len() > to - from {
        proof {
            assert forall|j: int| !match_at(s, p@, j) by {}
            lemma_find_none(s, p@);
        }
        return None;
    }
    let last = to - from - p.len();
    let mut k: usize = 0;
    while k < last
        invariant
            from <= to <= v.len(),
            p.len() <= to - from,
            last == to - from - p.len(),
            k <= last,
            s == v@.subrange(from as int, to as int),
            forall|j: int| 0 <= j < k ==> !match_at(s, p@, j),
        decreases last - k,
    {
        let ghost here = matches_at_eq(v, from, to, k, p);
        if matches_at(v, from + k, p) {
            proof {
                lemma_find_is(s, p@, k as int);
            }
            return Some(k);
        }
        k += 1;
    }
    let ghost here = matches_at_eq(v, from, to, k, p);
    if matches_at(v, from + k, p) {
        proof {
            lemma_find_is(s, p@, k as int);
        }
        return Some(k);
    }
    proof {
        assert forall|j: int| !match_at(s, p@, j) by {
            if 0 <= j && j + p@.len() <= s.len() {
                assert(j <= k);
            }
        }
        lemma_find_none(s, p@);
    }
    None
}

/// Relative index of the last occurrence of `p` in `v[from..to]`.
pub fn rfind_in(v: &Vec<char>, from: usize, to: usize, p: &Vec<char>) -> (r: Option<usize>)
    requires
        from <= to <= v.len(),
    ensures
        match r {
            Some(k) => rfind(v@.subrange(from as int, to as int), p@) == Some(k as int),
            None => rfind(v@.subrange(from as int, to as int), p@) is None,
        },
{
    let ghost s = v@.subrange(from as int, to as int);
    if p.len() > to - from {
        proof {
            assert forall|j: int| !match_at(s, p@, j) by {}
        }
        return None;
    }
    let mut k: usize = to - from - p.len();
    while k > 0
        invariant
            from <= to <= v.len(),
            p.len() <= to - from,
            k <= to - from - p.len(),
            s == v@.subrange(from as int, to as int),
            forall|j: int| k < j <= s.len() ==> !match_at(s, p@, j),
        decreases k,
    {
        let ghost here = matches_at_eq(v, from, to, k, p);
        if matches_at(v, from + k, p) {
            proof {
                lemma_rfind_is(s, p@, k as int);
            }
            return Some(k);
        }
        k -= 1;
    }
    let ghost here = matches_at_eq(v, from, to, k, p);
    if matches_at(v, from + k, p) {
        proof {
            lemma_rfind_is(s, p@, k as int);
        }
        return Some(k);
    }
    None
}

/// Relates a match in `v[from..to]` to a match in `v` (proof helper).
proof fn matches_at_eq(v: &Vec<char>, from: usize, to: usize, k: usize, p: &Vec<char>) -> (u: ())
    requires
        from <= to <= v.len(),
        k + p.len() <= to - from,
    ensures
        match_at(v@.subrange(from as int, to as int), p@, k as int) == match_at(
            v@,
            p@,
            from + k,
        ),
{
    let s = v@.subrange(from as int, to as int);
    assert(s.subrange(k as int, k + p.len()) =~= v@.subrange(from + k, from + k + p.len()));
}

/// Whether two string slices hold the same characters (`str` equality).
pub fn str_eq(a: &str, b: &str) -> (r: bool)
    ensures
        r == (a@ == b@),
{
    let x = chars_of(a);
    let y = chars_of(b);
    if x.len() != y.len() {
        return false;
    }
    let mut i: usize = 0;
    while i < x.len()
        invariant
            x.len() == y.len(),
            x@ == a@,
            y@ == b@,
            i <= x.len(),
            forall|j: int| 0 <= j < i ==> x@[j] == y@[j],
        decreases x.len() - i,
    {
        if x[i] != y[i] {
            return false;
        }
        i += 1;
    }
    assert(x@ =~= y@);
    true
}


/// Whether `p` occurs in `s` (`str::contains`).
pub fn contains_str(s: &str, p: &str) -> (b: bool)
    ensures
        b == contains(s@, p@),
{
    let v = chars_of(s);
    let q = chars_of(p);
    assert(v@.subrange(0, v.len() as int) =~= v@);
    match find_in(&v, 0, v.len(), &q) {
        Some(k) => {
            proof {
                lemma_find_some(v@, q@);
            }
            true
        },
        None => false,
    }
}

/// Whether `s` begins with `p` (`str::starts_with`).
pub fn starts_with_str(s: &str, p: &str) -> (b: bool)
    ensures
        b == starts_with(s@, p@),
{
    let v = chars_of(s);
    let q = chars_of(p);
    let b = matches_at(&v, 0, &q);
    assert(b == starts_with(v@, q@));
    b
}


/// `s` with every leading copy of `p` removed (`str::trim_start_matches`).
pub open spec fn strip_leading(s: Seq<char>, p: Seq<char>) -> Seq<char>
    decreases s.len(),
{
    if p.len() > 0 && starts_with(s, p) {
        strip_leading(s.skip(p.len() as int), p)
    } else {
        s
    }
}

/// `s` with every trailing copy of `p` removed (`str::trim_end_matches`).
pub open spec fn strip_trailing(s: Seq<char>, p: Seq<char>) -> Seq<char>
    decreases s.len(),
{
    if p.len() > 0 && ends_with(s, p) {
        strip_trailing(s.take(s.len() - p.len()), p)
    } else {
        s
    }
}

/// Start of `strip_leading(v[from..to], p)`.
pub fn strip_leading_range(v: &Vec<char>, from: usize, to: usize, p: &Vec<char>) -> (k: usize)
    requires
        from <= to <= v.len(),
    ensures
        from <= k <= to,
        strip_leading(v@.subrange(from as int, to as int), p@) == v@.subrange(k as int, to as int),
{
    if p.len() == 0 {
        return from;
    }
    let mut k = from;
    while k <= to && p.len() <= to - k && matches_at(v, k, p)
        invariant
            from <= k <= to <= v.len(),
            p.len() > 0,
            strip_leading(v@.subrange(from as int, to as int), p@) == strip_leading(
                v@.subrange(k as int, to as int),
                p@,
            ),
        decreases to - k,
    {
        let ghost s = v@.subrange(k as int, to as int);
        assert(s.subrange(0, p.len() as int) =~= v@.subrange(k as int, k + p.len()));
        assert(s.skip(p.len() as int) =~= v@.subrange(k + p.len(), to as int));
        k += p.len();
    }
    proof {
        let s = v@.subrange(k as int, to as int);
        if p.len() <= to - k {
            assert(s.subrange(0, p.len() as int) =~= v@.subrange(k as int, k + p.len()));
        }
    }
    k
}

/// End of `strip_trailing(v[from..to], p)`.
pub fn strip_trailing_range(v: &Vec<char>, from: usize, to: usize, p: &Vec<char>) -> (k: usize)
    requires
        from <= to <= v.len(),
    ensures
        from <= k <= to,
        strip_trailing(v@.subrange(from as int, to as int), p@) == v@.subrange(from as int, k as int),
{
    if p.len() == 0 {
        return to;
    }
    let mut k = to;
    while p.len() <= k - from && matches_at(v, k - p.len(), p)
        invariant
            from <= k <= to <= v.len(),
            p.len() > 0,
            strip_trailing(v@.subrange(from as int, to as int), p@) == strip_trailing(
                v@.subrange(from as int, k as int),
                p@,
            ),
        decreases k - from,
    {
        let ghost s = v@.subrange(from as int, k as int);
        assert(s.subrange(s.len() - p.len(), s.len() as int) =~= v@.subrange(
            k - p.len(),
            k as int,
        ));
        assert(s.take(s.len() - p.len()) =~= v@.subrange(from as int, k - p.len()));
        k -= p.len();
    }
    proof {
        let s = v@.subrange(from as int, k as int);
        if p.len() <= k - from {
            assert(s.subrange(s.len() - p.len(), s.len() as int) =~= v@.subrange(
                k - p.len(),
                k as int,
            ));
        }
    }
    k
}

/// The text before the first `sep` in `s`, or all of `s`
/// (`s.split(sep).next()`).
pub open spec fn before_first(s: Seq<char>, sep: Seq<char>) -> Seq<char> {
    match find(s, sep) {
        Some(k) => s.take(k),
        None => s,
    }
}

/// `base` without its trailing slashes, a slash, and `path` without its
/// leading slashes.
pub open spec fn url_join(base: Seq<char>, path: Seq<char>) -> Seq<char> {
    strip_trailing(base, seq!['/']) + seq!['/'] + strip_leading(path, seq!['/'])
}

/// Joins an API base URL and a path with exactly one slash between them.
pub fn join_url(base: &str, path: &str) -> (url: String)
    ensures
        url@ == url_join(base@, path@),
{
    let slash = vec!['/'];
    assert(slash@ =~= seq!['/']);
    let b = chars_of(base);
    let p = chars_of(path);
    assert(b@.subrange(0, b.len() as int) =~= base@);
    assert(p@.subrange(0, p.len() as int) =~= path@);
    let e = strip_trailing_range(&b, 0, b.len(), &slash);
    let s = strip_leading_range(&p, 0, p.len(), &slash);
    let mut out = slice_of(&b, 0, e);
    out.push('/');
    push_range(&mut out, &p, s, p.len());
    assert(out@ =~= url_join(base@, path@));
    string_of(&out)
}

} // verus!
