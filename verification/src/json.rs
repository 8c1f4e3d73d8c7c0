//! A JSON document model for the platform payloads the messengers read,
//! with the accessors they use (`get`, `as_str`, `as_i64`, `as_bool`,
//! `as_array`).
use vstd::prelude::*;
use crate::text::str_eq;

verus! {

/// A JSON value.
#[derive(Debug)]
pub enum Json {
    Null,
    Bool(bool),
    /// A number, with its value where it is an integer that fits in `i64`,
    /// and where it is one that fits in `u64`.
    Number(Option<i64>, Option<u64>),
    Str(String),
    Array(Vec<Json>),
    /// An object's members, each key once, in the order the value keeps them.
    Object(Vec<(String, Json)>),
}

/// The index of the member named `key`, the first where several are.
#[verifier::opaque]
pub open spec fn member_index(members: Seq<(String, Json)>, key: Seq<char>) -> Option<int> {
    if exists|i: int| 0 <= i < members.len() && members[i].0@ == key {
        Some(
            choose|i: int|
                0 <= i < members.len() && members[i].0@ == key && forall|j: int|
                    0 <= j < i ==> members[j].0@ != key,
        )
    } else {
        None
    }
}

/// The member `key` of an object (`Value::get` with a string key).
pub open spec fn jget(v: Json, key: Seq<char>) -> Option<Json> {
    match v {
        Json::Object(members) => match member_index(members@, key) {
            Some(i) => Some(members@[i].1),
            None => None,
        },
        _ => None,
    }
}

/// `Option::and_then(|v| v.get(key))`.
pub open spec fn jget_opt(v: Option<Json>, key: Seq<char>) -> Option<Json> {
    match v {
        Some(v) => jget(v, key),
        None => None,
    }
}

/// The text of a string value (`Value::as_str`).
pub open spec fn jstr(v: Option<Json>) -> Option<Seq<char>> {
    match v {
        Some(Json::Str(s)) => Some(s@),
        _ => None,
    }
}

/// The integer of a number value that fits in `i64` (`Value::as_i64`).
pub open spec fn ji64(v: Option<Json>) -> Option<i64> {
    match v {
        Some(Json::Number(n, _)) => n,
        _ => None,
    }
}

/// The integer of a number value that fits in `u64` (`Value::as_u64`).
pub open spec fn ju64(v: Option<Json>) -> Option<u64> {
    match v {
        Some(Json::Number(_, n)) => n,
        _ => None,
    }
}

/// Whether a value is null (`Value::is_null`).
pub open spec fn jnull(v: Option<Json>) -> bool {
    v == Some(Json::Null)
}

/// The truth value of a boolean (`Value::as_bool`).
pub open spec fn jbool(v: Option<Json>) -> Option<bool> {
    match v {
        Some(Json::Bool(b)) => Some(b),
        _ => None,
    }
}

/// The elements of an array (`Value::as_array`).
pub open spec fn jarray(v: Option<Json>) -> Option<Seq<Json>> {
    match v {
        Some(Json::Array(items)) => Some(items@),
        _ => None,
    }
}

impl Json {
    /// The member `key` of an object; `None` for a missing member or a
    /// value that is not an object.
    pub fn get(&self, key: &str) -> (r: Option<&Json>)
        ensures
            match r {
                Some(x) => jget(*self, key@) == Some(*x),
                None => jget(*self, key@) is None,
            },
    {
        match self {
            Json::Object(members) => {
                let mut i: usize = 0;
                while i < members.len()
                    invariant
                        *self == Json::Object(*members),
                        i <= members@.len(),
                        forall|j: int| 0 <= j < i ==> members@[j].0@ != key@,
                    decreases members@.len() - i,
                {
                    if str_eq(members[i].0.as_str(), key) {
                        proof {
                            reveal(member_index);
                            let c = choose|k: int|
                                0 <= k < members@.len() && members@[k].0@ == key@ && forall|
                                    j: int,
                                | 0 <= j < k ==> members@[j].0@ != key@;
                            if c < i {
                                assert(members@[c].0@ != key@);
                            }
                            if c > i {
                                assert(members@[i as int].0@ != key@);
                            }
                            assert(member_index(members@, key@) == Some(i as int));
                        }
                        return Some(&members[i].1);
                    }
                    i += 1;
                }
                proof {
                    reveal(member_index);
                }
                None
            },
            _ => None,
        }
    }

    /// The text of a string value.
    pub fn as_str(&self) -> (r: Option<&str>)
        ensures
            match r {
                Some(s) => jstr(Some(*self)) == Some(s@),
                None => jstr(Some(*self)) is None,
            },
    {
        match self {
            Json::Str(s) => Some(s.as_str()),
            _ => None,
        }
    }

    /// The integer of a number that fits in `i64`.
    pub fn as_i64(&self) -> (r: Option<i64>)
        ensures
            r == ji64(Some(*self)),
    {
        match self {
            Json::Number(n, _) => *n,
            _ => None,
        }
    }

    /// The integer of a number that fits in `u64`.
    pub fn as_u64(&self) -> (r: Option<u64>)
        ensures
            r == ju64(Some(*self)),
    {
        match self {
            Json::Number(_, n) => *n,
            _ => None,
        }
    }

    /// Whether the value is null.
    pub fn is_null(&self) -> (b: bool)
        ensures
            b == jnull(Some(*self)),
    {
        match self {
            Json::Null => true,
            _ => false,
        }
    }

    /// The truth value of a boolean.
    pub fn as_bool(&self) -> (r: Option<bool>)
        ensures
            r == jbool(Some(*self)),
    {
        match self {
            Json::Bool(b) => Some(*b),
            _ => None,
        }
    }

    /// The elements of an array.
    pub fn as_array(&self) -> (r: Option<&Vec<Json>>)
        ensures
            match r {
                Some(items) => jarray(Some(*self)) == Some(items@),
                None => jarray(Some(*self)) is None,
            },
    {
        match self {
            Json::Array(items) => Some(items),
            _ => None,
        }
    }
}

/// `get` on an optional value.
pub fn get_opt<'a>(v: Option<&'a Json>, key: &str) -> (r: Option<&'a Json>)
    ensures
        match r {
            Some(x) => jget_opt(deref_opt(v), key@) == Some(*x),
            None => jget_opt(deref_opt(v), key@) is None,
        },
{
    match v {
        Some(x) => x.get(key),
        None => None,
    }
}

/// The text of an optional string value.
pub fn str_opt<'a>(v: Option<&'a Json>) -> (r: Option<&'a str>)
    ensures
        match r {
            Some(s) => jstr(deref_opt(v)) == Some(s@),
            None => jstr(deref_opt(v)) is None,
        },
{
    match v {
        Some(x) => x.as_str(),
        None => None,
    }
}

/// The integer of an optional number value.
pub fn i64_opt(v: Option<&Json>) -> (r: Option<i64>)
    ensures
        r == ji64(deref_opt(v)),
{
    match v {
        Some(x) => x.as_i64(),
        None => None,
    }
}

/// The spec view of an optional borrowed value.
pub open spec fn deref_opt(v: Option<&Json>) -> Option<Json> {
    match v {
        Some(y) => Some(*y),
        None => None,
    }
}

/// The model of a JSON value: strings as character sequences.
pub ghost enum JsonView {
    Null,
    Bool(bool),
    Number(Option<i64>, Option<u64>),
    Str(Seq<char>),
    Array(Seq<JsonView>),
    Object(Seq<(Seq<char>, JsonView)>),
}

/// The model of a JSON value.
pub open spec fn jview(j: Json) -> JsonView
    decreases j,
{
    match j {
        Json::Null => JsonView::Null,
        Json::Bool(b) => JsonView::Bool(b),
        Json::Number(i, u) => JsonView::Number(i, u),
        Json::Str(s) => JsonView::Str(s@),
        Json::Array(items) => JsonView::Array(items_view(items@)),
        Json::Object(members) => JsonView::Object(members_view(members@)),
    }
}

/// The models of a sequence of values.
pub open spec fn items_view(items: Seq<Json>) -> Seq<JsonView>
    decreases items,
{
    if items.len() == 0 {
        Seq::empty()
    } else {
        items_view(items.drop_last()).push(jview(items.last()))
    }
}

/// The models of a sequence of object members.
pub open spec fn members_view(members: Seq<(String, Json)>) -> Seq<(Seq<char>, JsonView)>
    decreases members,
{
    if members.len() == 0 {
        Seq::empty()
    } else {
        members_view(members.drop_last()).push((members.last().0@, jview(members.last().1)))
    }
}

impl Json {
    /// A deep copy.
    pub fn duplicate(&self) -> (r: Json)
        ensures
            jview(r) == jview(*self),
        decreases self,
    {
        match self {
            Json::Null => Json::Null,
            Json::Bool(b) => Json::Bool(*b),
            Json::Number(i, u) => Json::Number(*i, *u),
            Json::Str(s) => Json::Str(s.clone()),
            Json::Array(items) => {
                let mut out: Vec<Json> = Vec::new();
                let mut k: usize = 0;
                assert(items@.take(0) =~= Seq::<Json>::empty());
                while k < items.len()
                    invariant
                        k <= items@.len(),
                        *self == Json::Array(*items),
                        items_view(out@) == items_view(items@.take(k as int)),
                    decreases items@.len() - k,
                {
                    assert(decreases_to!(*self => (*self)->Array_0));
                    assert(decreases_to!(*items => items@));
                    assert(decreases_to!(items@ => items@[k as int]));
                    assert(decreases_to!(*self => items@[k as int]));
                    let x = items[k].duplicate();
                    let ghost before = out@;
                    out.push(x);
                    assert(out@.drop_last() =~= before);
                    assert(items@.take(k + 1).drop_last() =~= items@.take(k as int));
                    k += 1;
                }
                assert(items@.take(items@.len() as int) =~= items@);
                Json::Array(out)
            },
            Json::Object(members) => {
                let mut out: Vec<(String, Json)> = Vec::new();
                let mut k: usize = 0;
                assert(members@.take(0) =~= Seq::<(String, Json)>::empty());
                while k < members.len()
                    invariant
                        k <= members@.len(),
                        *self == Json::Object(*members),
                        members_view(out@) == members_view(members@.take(k as int)),
                    decreases members@.len() - k,
                {
                    assert(decreases_to!(*self => (*self)->Object_0));
                    assert(decreases_to!(*members => members@));
                    assert(decreases_to!(members@ => members@[k as int]));
                    assert(decreases_to!(members@[k as int] => members@[k as int].1));
                    assert(decreases_to!(*self => members@[k as int].1));
                    let x = members[k].1.duplicate();
                    let key = members[k].0.clone();
                    let ghost before = out@;
                    out.push((key, x));
                    assert(out@.drop_last() =~= before);
                    assert(members@.take(k + 1).drop_last() =~= members@.take(k as int));
                    k += 1;
                }
                assert(members@.take(members@.len() as int) =~= members@);
                Json::Object(out)
            },
        }
    }
}

/// Whether an API response reports success (`"ok": true`).
pub fn response_ok(data: &Json) -> (ok: bool)
    ensures
        ok == (jbool(jget(*data, "ok"@)) == Some(true)),
{
    match data.get("ok") {
        Some(v) => match v.as_bool() {
            Some(b) => b,
            None => false,
        },
        None => false,
    }
}

/// A JSON integer.
pub open spec fn int_view(v: u64) -> JsonView {
    JsonView::Number(Some(v as i64), Some(v))
}

/// A JSON integer value (below 2^63).
pub fn int_value(v: u64) -> (j: Json)
    requires
        v <= i64::MAX,
    ensures
        jview(j) == int_view(v),
{
    Json::Number(Some(v as i64), Some(v))
}

/// A JSON string value.
pub fn str_value(s: &str) -> (j: Json)
    ensures
        jview(j) == JsonView::Str(s@),
{
    Json::Str(s.to_owned())
}

/// The object `obj` with one more member at its end.
pub fn with_member(obj: Json, k: &str, v: Json) -> (j: Json)
    requires
        obj is Object,
    ensures
        jview(j) == JsonView::Object(members_view(obj->Object_0@).push((k@, jview(v)))),
{
    match obj {
        Json::Object(members) => {
            let mut m = members;
            let ghost before = m@;
            m.push((k.to_owned(), v));
            proof {
                assert(m@.drop_last() =~= before);
            }
            Json::Object(m)
        },
        _ => Json::Null,
    }
}

/// Builds an object from its members, in order.
pub fn object2(k1: &str, v1: Json, k2: &str, v2: Json) -> (j: Json)
    ensures
        jview(j) == JsonView::Object(seq![(k1@, jview(v1)), (k2@, jview(v2))]),
{
    let mut m: Vec<(String, Json)> = Vec::new();
    m.push((k1.to_owned(), v1));
    m.push((k2.to_owned(), v2));
    let j = Json::Object(m);
    proof {
        let s = m@;
        let s1 = s.drop_last();
        let s0 = s1.drop_last();
        assert(s0 =~= Seq::<(String, Json)>::empty());
        assert(members_view(s0) == Seq::<(Seq<char>, JsonView)>::empty());
        assert(members_view(s1) =~= seq![(k1@, jview(v1))]);
        assert(members_view(s) =~= seq![(k1@, jview(v1)), (k2@, jview(v2))]);
    }
    j
}

/// Builds an object of three members, in order.
pub fn object3(k1: &str, v1: Json, k2: &str, v2: Json, k3: &str, v3: Json) -> (j: Json)
    ensures
        jview(j) == JsonView::Object(seq![(k1@, jview(v1)), (k2@, jview(v2)), (k3@, jview(v3))]),
{
    let mut m: Vec<(String, Json)> = Vec::new();
    m.push((k1.to_owned(), v1));
    m.push((k2.to_owned(), v2));
    m.push((k3.to_owned(), v3));
    let j = Json::Object(m);
    proof {
        let s = m@;
        let s2 = s.drop_last();
        let s1 = s2.drop_last();
        let s0 = s1.drop_last();
        assert(s0 =~= Seq::<(String, Json)>::empty());
        assert(members_view(s0) == Seq::<(Seq<char>, JsonView)>::empty());
        assert(members_view(s1) =~= seq![(k1@, jview(v1))]);
        assert(members_view(s2) =~= seq![(k1@, jview(v1)), (k2@, jview(v2))]);
        assert(members_view(s) =~= seq![
            (k1@, jview(v1)),
            (k2@, jview(v2)),
            (k3@, jview(v3)),
        ]);
    }
    j
}

/// Builds an object of one member.
pub fn object1(k1: &str, v1: Json) -> (j: Json)
    ensures
        jview(j) == JsonView::Object(seq![(k1@, jview(v1))]),
{
    let mut m: Vec<(String, Json)> = Vec::new();
    m.push((k1.to_owned(), v1));
    let j = Json::Object(m);
    proof {
        let s = m@;
        let s0 = s.drop_last();
        assert(s0 =~= Seq::<(String, Json)>::empty());
        assert(members_view(s0) == Seq::<(Seq<char>, JsonView)>::empty());
        assert(members_view(s) =~= seq![(k1@, jview(v1))]);
    }
    j
}

/// The model of a JSON integer that fits in `i64`.
pub open spec fn i64_view(v: i64) -> JsonView {
    JsonView::Number(
        Some(v),
        if v >= 0 {
            Some(v as u64)
        } else {
            None
        },
    )
}

/// A JSON integer value from an `i64`.
pub fn i64_value(v: i64) -> (j: Json)
    ensures
        jview(j) == i64_view(v),
{
    Json::Number(
        Some(v),
        if v >= 0 {
            Some(v as u64)
        } else {
            None
        },
    )
}

/// Builds an object of four members, in order.
pub fn object4(k1: &str, v1: Json, k2: &str, v2: Json, k3: &str, v3: Json, k4: &str, v4: Json) -> (j: Json)
    ensures
        jview(j) == JsonView::Object(
            seq![(k1@, jview(v1)), (k2@, jview(v2)), (k3@, jview(v3)), (k4@, jview(v4))],
        ),
{
    let mut m: Vec<(String, Json)> = Vec::new();
    m.push((k1.to_owned(), v1));
    m.push((k2.to_owned(), v2));
    m.push((k3.to_owned(), v3));
    m.push((k4.to_owned(), v4));
    let j = Json::Object(m);
    proof {
        let s = m@;
        let s3 = s.drop_last();
        let s2 = s3.drop_last();
        let s1 = s2.drop_last();
        let s0 = s1.drop_last();
        assert(s0 =~= Seq::<(String, Json)>::empty());
        assert(members_view(s0) == Seq::<(Seq<char>, JsonView)>::empty());
        assert(members_view(s1) =~= seq![(k1@, jview(v1))]);
        assert(members_view(s2) =~= seq![(k1@, jview(v1)), (k2@, jview(v2))]);
        assert(members_view(s3) =~= seq![(k1@, jview(v1)), (k2@, jview(v2)), (k3@, jview(v3))]);
        assert(members_view(s) =~= seq![
            (k1@, jview(v1)),
            (k2@, jview(v2)),
            (k3@, jview(v3)),
            (k4@, jview(v4)),
        ]);
    }
    j
}

} // verus!
