//! Polling a newest-first message history: what is new since the last
//! poll, and which message is the newest seen.
use vstd::prelude::*;
use crate::message::Message;
use crate::text::str_eq;

verus! {

/// How many leading messages of a newest-first list come before the one
/// with id `seen` (all of them where there is none, or it is absent).
pub open spec fn unseen_count(ms: Seq<Message>, seen: Option<Seq<char>>) -> int {
    match seen {
        Some(s) => if exists|i: int| 0 <= i < ms.len() && ms[i].id@ == s {
            choose|i: int|
                0 <= i < ms.len() && ms[i].id@ == s && forall|j: int| 0 <= j < i ==> ms[j].id@ != s
        } else {
            ms.len() as int
        },
        None => ms.len() as int,
    }
}

/// The index of the first message with id `s`.
fn seen_index(parsed: &Vec<Message>, s: &str) -> (r: Option<usize>)
    ensures
        match r {
            Some(i) => i < parsed@.len() && unseen_count(parsed@, Some(s@)) == i,
            None => unseen_count(parsed@, Some(s@)) == parsed@.len(),
        },
{
    let mut i: usize = 0;
    while i < parsed.len()
        invariant
            i <= parsed@.len(),
            forall|j: int| 0 <= j < i ==> parsed@[j].id@ != s@,
        decreases parsed@.len() - i,
    {
        if str_eq(parsed[i].id.as_str(), s) {
            proof {
                let c = choose|k: int|
                    0 <= k < parsed@.len() && parsed@[k].id@ == s@ && forall|j: int|
                        0 <= j < k ==> parsed@[j].id@ != s@;
                if c < i {
                    assert(parsed@[c].id@ != s@);
                }
                if c > i {
                    assert(parsed@[i as int].id@ != s@);
                }
            }
            return Some(i);
        }
        i += 1;
    }
    None
}

/// The messages of a newest-first list that are newer than the one with id
/// `seen` (all of them without one), oldest first.
pub fn unseen_oldest_first(parsed: Vec<Message>, last_seen: Option<&str>) -> (out: Vec<Message>)
    ensures
        ({
            let n = unseen_count(
                parsed@,
                match last_seen {
                    Some(s) => Some(s@),
                    None => None,
                },
            );
            &&& 0 <= n <= parsed@.len()
            &&& out@.len() == n
            &&& forall|j: int| 0 <= j < n ==> out@[j] == parsed@[n - 1 - j]
        }),
{
    let ghost all = parsed@;
    let ghost seen = match last_seen {
        Some(s) => Some(s@),
        None => None,
    };
    let n = match last_seen {
        Some(s) => match seen_index(&parsed, s) {
            Some(i) => i,
            None => parsed.len(),
        },
        None => parsed.len(),
    };
    assert(n == unseen_count(all, seen));
    let mut parsed = parsed;
    parsed.truncate(n);
    let mut out: Vec<Message> = Vec::new();
    while parsed.len() > 0
        invariant
            n <= all.len(),
            parsed@.len() + out@.len() == n,
            parsed@ == all.subrange(0, parsed@.len() as int),
            forall|j: int| 0 <= j < out@.len() ==> out@[j] == all[n - 1 - j],
        decreases parsed@.len(),
    {
        let m = parsed.pop().unwrap();
        out.push(m);
    }
    out
}

/// Polling the same newest-first list again, after remembering its newest
/// message as the last one seen, finds nothing new: no message is reported
/// twice.
pub proof fn lemma_repoll_finds_nothing(ms: Seq<Message>)
    requires
        ms.len() > 0,
    ensures
        unseen_count(ms, Some(ms[0].id@)) == 0,
{
    let s = ms[0].id@;
    assert(0 <= 0 < ms.len() && ms[0].id@ == s);
    let c = choose|i: int|
        0 <= i < ms.len() && ms[i].id@ == s && forall|j: int| 0 <= j < i ==> ms[j].id@ != s;
    if c > 0 {
        assert(ms[0].id@ != s);
    }
}

/// `a` comes before `b` in the order of their characters' code points
/// (the byte order of their UTF-8 texts, as `String` compares).
pub open spec fn text_less(a: Seq<char>, b: Seq<char>) -> bool
    decreases a.len(),
{
    if a.len() == 0 {
        b.len() > 0
    } else if b.len() == 0 {
        false
    } else if a[0] != b[0] {
        (a[0] as u32) < (b[0] as u32)
    } else {
        text_less(a.drop_first(), b.drop_first())
    }
}

/// Whether `a` comes before `b` (see `text_less`).
pub fn str_less(a: &str, b: &str) -> (r: bool)
    ensures
        r == text_less(a@, b@),
{
    let x = crate::text::chars_of(a);
    let y = crate::text::chars_of(b);
    let mut i: usize = 0;
    assert(x@.skip(0) =~= x@);
    assert(y@.skip(0) =~= y@);
    while i < x.len() && i < y.len() && x[i] == y[i]
        invariant
            i <= x@.len(),
            i <= y@.len(),
            x@ == a@,
            y@ == b@,
            text_less(a@, b@) == text_less(x@.skip(i as int), y@.skip(i as int)),
        decreases x@.len() - i,
    {
        assert(x@.skip(i as int).drop_first() =~= x@.skip(i + 1));
        assert(y@.skip(i as int).drop_first() =~= y@.skip(i + 1));
        i += 1;
    }
    if i == x.len() {
        i < y.len()
    } else if i == y.len() {
        false
    } else {
        assert(x@.skip(i as int)[0] == x@[i as int]);
        assert(y@.skip(i as int)[0] == y@[i as int]);
        (x[i] as u32) < (y[i] as u32)
    }
}

} // verus!
