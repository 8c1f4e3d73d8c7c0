//! Presence and search types shared by all messengers, and the lookup and
//! receive rules of a collection of messengers.
use vstd::prelude::*;
use crate::markdown::string_views;
use crate::message::Message;
use crate::text::str_eq;

verus! {

/// Presence status to advertise on platforms that support it.
#[derive(Debug, Clone, Copy, PartialEq, Eq, Hash, Structural)]
pub enum PresenceStatus {
    Online,
    Away,
    Busy,
    Invisible,
    Offline,
}

/// Parameters for searching message history.
#[derive(Debug, Clone, Default)]
pub struct SearchQuery {
    /// Free-text search string.
    pub text: String,
    /// Restrict to this channel.
    pub channel: Option<String>,
    /// Restrict to messages from this sender.
    pub from: Option<String>,
    /// Maximum number of results.
    pub limit: Option<usize>,
    /// Only messages before this Unix timestamp.
    pub before_timestamp: Option<i64>,
    /// Only messages after this Unix timestamp.
    pub after_timestamp: Option<i64>,
}

/// The index of the first name in `names` equal to `name`.
pub open spec fn first_named(names: Seq<Seq<char>>, name: Seq<char>) -> Option<int> {
    if exists|i: int| 0 <= i < names.len() && names[i] == name {
        Some(
            choose|i: int|
                0 <= i < names.len() && names[i] == name && forall|j: int|
                    0 <= j < i ==> names[j] != name,
        )
    } else {
        None
    }
}

/// Finds the messenger called `name` among messengers named `names`, in
/// insertion order: the first one wins.
pub fn find_by_name(names: &Vec<String>, name: &str) -> (r: Option<usize>)
    ensures
        match r {
            Some(i) => first_named(string_views(names@), name@) == Some(i as int),
            None => first_named(string_views(names@), name@) is None,
        },
{
    let ghost ns = string_views(names@);
    let mut i: usize = 0;
    while i < names.len()
        invariant
            i <= names.len(),
            ns == string_views(names@),
            forall|j: int| 0 <= j < i ==> ns[j] != name@,
        decreases names.len() - i,
    {
        if str_eq(names[i].as_str(), name) {
            proof {
                let c = choose|k: int|
                    0 <= k < ns.len() && ns[k] == name@ && forall|j: int|
                        0 <= j < k ==> ns[j] != name@;
                assert(ns[i as int] == name@);
                if c < i {
                    assert(ns[c] != name@);
                }
                if c > i {
                    assert(ns[i as int] != name@);
                }
            }
            return Some(i);
        }
        i += 1;
    }
    None
}

/// The messages of the successful receives among `results`, in order; a
/// failed receive contributes nothing.
pub open spec fn received<E>(results: Seq<Result<Vec<Message>, E>>) -> Seq<Message>
    decreases results.len(),
{
    if results.len() == 0 {
        Seq::empty()
    } else {
        (match results[0] {
            Ok(v) => v@,
            Err(_) => Seq::empty(),
        }) + received(results.drop_first())
    }
}

/// Combines the receives of several messengers, in order: the messages of
/// each successful one appended, failures skipped.
pub fn gather_received<E>(results: Vec<Result<Vec<Message>, E>>) -> (all: Vec<Message>)
    ensures
        all@ == received(results@),
{
    let ghost orig = results@;
    let mut rest = results;
    let mut all: Vec<Message> = Vec::new();
    while rest.len() > 0
        invariant
            all@ + received(rest@) == received(orig),
        decreases rest.len(),
    {
        let ghost before = rest@;
        let ghost acc = all@;
        let r = rest.remove(0);
        assert(rest@ =~= before.drop_first());
        match r {
            Ok(mut v) => {
                let ghost vs = v@;
                all.append(&mut v);
                assert(all@ + received(rest@) =~= acc + (vs + received(rest@)));
            },
            Err(_) => {
                assert(all@ + received(rest@) =~= acc + (Seq::<Message>::empty() + received(rest@)));
            },
        }
    }
    assert(all@ + received(rest@) =~= all@);
    all
}

} // verus!
