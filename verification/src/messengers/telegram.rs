//! Telegram Bot API decisions: the endpoint URLs, the polling offset, and
//! the messages read from a `getUpdates` response.
use vstd::prelude::*;
use crate::json::{
    deref_opt, get_opt, i64_opt, jget, jget_opt, ji64, jstr, jview, object3, str_opt, str_value, Json, JsonView,
};
use crate::message::{opt_str, Message, MessageType};
use crate::number::{decimal_int, i64_to_string};
use crate::text::{strip_trailing, strip_trailing_range, chars_of, slice_of, string_of};

verus! {

/// The Bot API base URL of a bot token.
pub fn bot_api_base(token: &str) -> (url: String)
    ensures
        url@ == "https://api.telegram.org/bot"@ + token@,
{
    let mut url = "https://api.telegram.org/bot".to_owned();
    url.append(token);
    url
}

/// The URL of an API method: the base without trailing slashes, a slash,
/// and the method.
pub fn api_url(base: &str, method: &str) -> (url: String)
    ensures
        url@ == strip_trailing(base@, seq!['/']) + seq!['/'] + method@,
{
    let slash = vec!['/'];
    assert(slash@ =~= seq!['/']);
    let b = chars_of(base);
    assert(b@.subrange(0, b.len() as int) =~= base@);
    let e = strip_trailing_range(&b, 0, b.len(), &slash);
    let mut url = string_of(&slice_of(&b, 0, e));
    url.append("/");
    url.append(method);
    assert("/"@ =~= seq!['/']) by {
        reveal_strlit("/");
    }
    url
}

/// The `getUpdates` URL, from `offset` when one is known.
pub fn get_updates_url(base: &str, offset: Option<i64>) -> (url: String)
    ensures
        url@ == strip_trailing(base@, seq!['/']) + seq!['/'] + "getUpdates"@ + (match offset {
            Some(o) => "?offset="@ + decimal_int(o as int) + "&timeout=0"@,
            None => "?timeout=0"@,
        }),
{
    let mut url = api_url(base, "getUpdates");
    match offset {
        Some(o) => {
            url.append("?offset=");
            url.append(i64_to_string(o).as_str());
            url.append("&timeout=0");
        },
        None => {
            url.append("?timeout=0");
        },
    }
    url
}

/// The offset of the next poll: one past the last update seen.
pub fn next_offset(last_update_id: Option<i64>) -> (o: Option<i64>)
    requires
        last_update_id != Some(i64::MAX),
    ensures
        o == (match last_update_id {
            Some(u) => Some((u + 1) as i64),
            None => None,
        }),
{
    match last_update_id {
        Some(u) => Some(u + 1),
        None => None,
    }
}

/// The id of a sent message (`result.message_id`), or empty.
pub fn sent_message_id(data: &Json) -> (id: String)
    ensures
        id@ == (match ji64(jget_opt(jget(*data, "result"@), "message_id"@)) {
            Some(i) => decimal_int(i as int),
            None => Seq::empty(),
        }),
{
    match i64_opt(get_opt(data.get("result"), "message_id")) {
        Some(i) => i64_to_string(i),
        None => String::new(),
    }
}

/// The message a Telegram `message` object stands for.
pub open spec fn telegram_message_ok(m: Message, msg: Json) -> bool {
    let from = jget(msg, "from"@);
    &&& m.id@ == decimal_int(
        match ji64(jget(msg, "message_id"@)) {
            Some(i) => i as int,
            None => 0,
        },
    )
    &&& m.sender@ == (match jstr(jget_opt(from, "username"@)) {
        Some(u) => u,
        None => match jstr(jget_opt(from, "first_name"@)) {
            Some(f) => f,
            None => "unknown"@,
        },
    })
    &&& m.content@ == (match jstr(jget(msg, "text"@)) {
        Some(t) => t,
        None => Seq::empty(),
    })
    &&& m.timestamp == (match ji64(jget(msg, "date"@)) {
        Some(d) => d,
        None => 0,
    })
    &&& opt_str(m.channel) == (match ji64(jget_opt(jget(msg, "chat"@), "id"@)) {
        Some(c) => Some(decimal_int(c as int)),
        None => None,
    })
    &&& m.reply_to is None
    &&& m.thread_id is None
    &&& m.media is None
    &&& !m.is_direct
    &&& m.message_type == MessageType::Text
    &&& m.edited_timestamp is None
    &&& m.reactions is None
}

/// The messages of a list of updates: one for each update holding a
/// `message`, in order.
pub open spec fn telegram_batch_ok(ms: Seq<Message>, updates: Seq<Json>) -> bool
    decreases updates.len(),
{
    if updates.len() == 0 {
        ms.len() == 0
    } else {
        match jget(updates.last(), "message"@) {
            Some(msg) => {
                &&& ms.len() > 0
                &&& telegram_message_ok(ms.last(), msg)
                &&& telegram_batch_ok(ms.drop_last(), updates.drop_last())
            },
            None => telegram_batch_ok(ms, updates.drop_last()),
        }
    }
}

/// The largest `update_id` among the updates, if any has one.
pub open spec fn max_update_id(updates: Seq<Json>) -> Option<i64>
    decreases updates.len(),
{
    if updates.len() == 0 {
        None
    } else {
        let prev = max_update_id(updates.drop_last());
        match ji64(jget(updates.last(), "update_id"@)) {
            Some(u) => Some(
                match prev {
                    Some(p) => if p >= u {
                        p
                    } else {
                        u
                    },
                    None => u,
                },
            ),
            None => prev,
        }
    }
}

/// The largest update id bounds every update id of the batch, and is one
/// of them; so the next poll, from one past it, skips every update already
/// received.
pub proof fn lemma_max_update_id_bounds(updates: Seq<Json>)
    ensures
        forall|i: int|
            0 <= i < updates.len() && ji64(jget(#[trigger] updates[i], "update_id"@)) is Some ==> {
                &&& max_update_id(updates) is Some
                &&& ji64(jget(updates[i], "update_id"@))->0 <= max_update_id(updates)->0
            },
        max_update_id(updates) is Some ==> exists|i: int|
            0 <= i < updates.len() && ji64(jget(#[trigger] updates[i], "update_id"@)) == max_update_id(
                updates,
            ),
    decreases updates.len(),
{
    if updates.len() > 0 {
        let prev = updates.drop_last();
        lemma_max_update_id_bounds(prev);
        assert forall|i: int|
            0 <= i < updates.len() - 1 implies #[trigger] updates[i] == prev[i] by {}
        let last = updates.len() - 1;
        if max_update_id(updates) is Some {
            if ji64(jget(updates[last], "update_id"@)) is Some && max_update_id(updates) == ji64(
                jget(updates[last], "update_id"@),
            ) {
                assert(ji64(jget(updates[last], "update_id"@)) == max_update_id(updates));
            } else {
                let k = choose|i: int|
                    0 <= i < prev.len() && ji64(jget(#[trigger] prev[i], "update_id"@)) == max_update_id(
                        prev,
                    );
                assert(updates[k] == prev[k]);
            }
        }
    }
}

/// The list of updates in a `getUpdates` response (`result`), if it is one.
pub open spec fn updates_of(data: Json) -> Seq<Json> {
    match jget(data, "result"@) {
        Some(Json::Array(items)) => items@,
        _ => Seq::empty(),
    }
}

/// Reads a Telegram `message` object.
fn telegram_message(msg: &Json) -> (m: Message)
    ensures
        telegram_message_ok(m, *msg),
{
    let id = match i64_opt(msg.get("message_id")) {
        Some(i) => i64_to_string(i),
        None => i64_to_string(0),
    };
    let from = msg.get("from");
    let sender = match str_opt(get_opt(from, "username")) {
        Some(u) => u.to_owned(),
        None => match str_opt(get_opt(from, "first_name")) {
            Some(f) => f.to_owned(),
            None => "unknown".to_owned(),
        },
    };
    let content = match str_opt(msg.get("text")) {
        Some(t) => t.to_owned(),
        None => String::new(),
    };
    let timestamp = match i64_opt(msg.get("date")) {
        Some(d) => d,
        None => 0,
    };
    let channel = match i64_opt(get_opt(msg.get("chat"), "id")) {
        Some(c) => Some(i64_to_string(c)),
        None => None,
    };
    Message::plain(id, sender, content, timestamp, channel, false, MessageType::Text)
}

/// Reads a `getUpdates` response: the messages, in order, and the largest
/// update id seen.
pub fn telegram_updates(data: &Json) -> (r: (Vec<Message>, Option<i64>))
    ensures
        telegram_batch_ok(r.0@, updates_of(*data)),
        r.1 == max_update_id(updates_of(*data)),
{
    let empty: Vec<Json> = Vec::new();
    let updates: &Vec<Json> = match data.get("result") {
        Some(Json::Array(items)) => items,
        _ => &empty,
    };
    assert(updates@ == updates_of(*data));
    let mut out: Vec<Message> = Vec::new();
    let mut max: Option<i64> = None;
    let mut i: usize = 0;
    assert(updates@.take(0) =~= Seq::<Json>::empty());
    while i < updates.len()
        invariant
            i <= updates@.len(),
            telegram_batch_ok(out@, updates@.take(i as int)),
            max == max_update_id(updates@.take(i as int)),
        decreases updates@.len() - i,
    {
        let u = &updates[i];
        assert(updates@.take(i + 1).drop_last() =~= updates@.take(i as int));
        assert(updates@.take(i + 1).last() == *u);
        match i64_opt(u.get("update_id")) {
            Some(id) => {
                max = Some(
                    match max {
                        Some(p) => if p >= id {
                            p
                        } else {
                            id
                        },
                        None => id,
                    },
                );
            },
            None => {},
        }
        match u.get("message") {
            Some(msg) => {
                let ghost before = out@;
                out.push(telegram_message(msg));
                assert(out@.drop_last() =~= before);
            },
            None => {},
        }
        i += 1;
    }
    assert(updates@.take(updates@.len() as int) =~= updates@);
    (out, max)
}

/// The `sendMessage` request: the text goes out as HTML.
pub fn send_message_body(chat_id: &str, text: &str) -> (j: Json)
    ensures
        jview(j) == JsonView::Object(
            seq![
                ("chat_id"@, JsonView::Str(chat_id@)),
                ("text"@, JsonView::Str(text@)),
                ("parse_mode"@, JsonView::Str("HTML"@)),
            ],
        ),
{
    object3("chat_id", str_value(chat_id), "text", str_value(text), "parse_mode", str_value("HTML"))
}

} // verus!
