//! Google Chat decisions: API URLs and paths, the spaces to poll, the
//! payloads sent, and the messages read from a space's message list.
use vstd::prelude::*;
use crate::json::{get_opt, jarray, jget, jget_opt, jstr, jview, object1, str_opt, str_value, Json, JsonView};
use crate::message::{opt_str, Message, MessageType};
use crate::messengers::history::{str_less, text_less};
use crate::number::{decimal_int, i64_to_string};
use crate::text::{join_url, url_join};
use crate::timestamp::{seconds_or_now, time_or_now};

verus! {

/// The default Google Chat API base.
pub fn default_api_base() -> (s: &'static str)
    ensures
        s@ == "https://chat.googleapis.com/v1"@,
{
    "https://chat.googleapis.com/v1"
}

/// The URL of an API path under the base.
pub fn api_url(base: &str, path: &str) -> (url: String)
    ensures
        url@ == url_join(base@, path@),
{
    join_url(base, path)
}

/// The API path of a space.
pub fn space_path(space_id: &str) -> (p: String)
    ensures
        p@ == "spaces/"@ + space_id@,
{
    let mut p = "spaces/".to_owned();
    p.append(space_id);
    p
}

/// The API path of a space's messages.
pub fn space_messages_path(space_id: &str) -> (p: String)
    ensures
        p@ == "spaces/"@ + space_id@ + "/messages"@,
{
    let mut p = "spaces/".to_owned();
    p.append(space_id);
    p.append("/messages");
    p
}

/// The views of a sequence of strings.
pub open spec fn texts(v: Seq<String>) -> Seq<Seq<char>> {
    v.map_values(|s: String| s@)
}

/// The spaces an API-mode messenger polls: its configured list, or its
/// own space when the list is empty.
pub fn api_spaces(space_id: &String, spaces: &Vec<String>) -> (r: Vec<String>)
    ensures
        texts(r@) == (if spaces@.len() == 0 {
            seq![space_id@]
        } else {
            texts(spaces@)
        }),
{
    let mut r: Vec<String> = Vec::new();
    if spaces.len() == 0 {
        r.push(space_id.clone());
        assert(texts(r@) =~= seq![space_id@]);
    } else {
        let mut i: usize = 0;
        while i < spaces.len()
            invariant
                i <= spaces@.len(),
                texts(r@) == texts(spaces@.take(i as int)),
            decreases spaces@.len() - i,
        {
            let ghost before = r@;
            r.push(spaces[i].clone());
            assert(texts(r@) =~= texts(before).push(spaces@[i as int]@));
            assert(texts(spaces@.take(i + 1)) =~= texts(spaces@.take(i as int)).push(
                spaces@[i as int]@,
            ));
            i += 1;
        }
        assert(spaces@.take(spaces@.len() as int) =~= spaces@);
    }
    r
}

/// The space a send goes to: the one given, or the default when none is.
pub fn send_space<'a>(requested: &'a str, default: &'a str) -> (s: &'a str)
    ensures
        s@ == (if requested@.len() == 0 {
            default@
        } else {
            requested@
        }),
{
    if requested.is_empty() {
        default
    } else {
        requested
    }
}

/// The id reported for a webhook post sent at `now_ms`.
pub fn webhook_sent_id(now_ms: i64) -> (id: String)
    ensures
        id@ == "googlechat:"@ + decimal_int(now_ms as int),
{
    let mut id = "googlechat:".to_owned();
    id.append(i64_to_string(now_ms).as_str());
    id
}

/// The name of a message created through the API, or empty.
pub fn created_name(data: &Json) -> (name: String)
    ensures
        name@ == (match jstr(jget(*data, "name"@)) {
            Some(n) => n,
            None => Seq::empty(),
        }),
{
    match str_opt(data.get("name")) {
        Some(n) => n.to_owned(),
        None => String::new(),
    }
}

/// The message body sent to a space or a webhook: `{"text": ...}`.
pub fn text_body(text: &str) -> (j: Json)
    ensures
        jview(j) == JsonView::Object(seq![("text"@, JsonView::Str(text@))]),
{
    object1("text", str_value(text))
}

/// Whether an entry becomes a message: it has a name and non-empty text.
pub open spec fn chat_entry_kept(e: Json) -> bool {
    &&& jstr(jget(e, "name"@)) is Some
    &&& jstr(jget(e, "text"@)) is Some
    &&& jstr(jget(e, "text"@))->0.len() > 0
}

/// The message of a kept entry of `space`.
pub open spec fn chat_message_ok(m: Message, e: Json, space: Seq<char>, now_s: i64) -> bool {
    let sender = jget(e, "sender"@);
    &&& m.id@ == jstr(jget(e, "name"@))->0
    &&& m.sender@ == (match jstr(jget_opt(sender, "displayName"@)) {
        Some(d) => d,
        None => match jstr(jget_opt(sender, "name"@)) {
            Some(n) => n,
            None => "unknown"@,
        },
    })
    &&& m.content@ == jstr(jget(e, "text"@))->0
    &&& m.timestamp == seconds_or_now(jstr(jget(e, "createTime"@)), now_s)
    &&& opt_str(m.channel) == Some(space)
    &&& opt_str(m.reply_to) == jstr(jget_opt(jget(e, "thread"@), "name"@))
    &&& m.thread_id is None
    &&& m.media is None
    &&& m.is_direct == (jstr(jget_opt(jget(e, "space"@), "type"@)) == Some("DM"@))
    &&& m.message_type == MessageType::Text
    &&& m.edited_timestamp is None
    &&& m.reactions is None
}

/// The messages of the kept entries, in the order of the entries.
pub open spec fn chat_batch_ok(ms: Seq<Message>, es: Seq<Json>, space: Seq<char>, now_s: i64) -> bool
    decreases es.len(),
{
    if es.len() == 0 {
        ms.len() == 0
    } else if chat_entry_kept(es.last()) {
        &&& ms.len() > 0
        &&& chat_message_ok(ms.last(), es.last(), space, now_s)
        &&& chat_batch_ok(ms.drop_last(), es.drop_last(), space, now_s)
    } else {
        chat_batch_ok(ms, es.drop_last(), space, now_s)
    }
}

/// The `messages` entries of a list response.
pub open spec fn entries_of(data: Json) -> Seq<Json> {
    match jarray(jget(data, "messages"@)) {
        Some(items) => items,
        None => Seq::empty(),
    }
}

fn chat_message(e: &Json, name: &str, text: &str, space_id: &str, now_s: i64) -> (m: Message)
    requires
        jstr(jget(*e, "name"@)) == Some(name@),
        jstr(jget(*e, "text"@)) == Some(text@),
    ensures
        chat_message_ok(m, *e, space_id@, now_s),
{
    let sender_v = e.get("sender");
    let sender = match str_opt(get_opt(sender_v, "displayName")) {
        Some(d) => d.to_owned(),
        None => match str_opt(get_opt(sender_v, "name")) {
            Some(n) => n.to_owned(),
            None => "unknown".to_owned(),
        },
    };
    let timestamp = time_or_now(str_opt(e.get("createTime")), now_s);
    let is_direct = match str_opt(get_opt(e.get("space"), "type")) {
        Some(t) => crate::text::str_eq(t, "DM"),
        None => false,
    };
    let reply_to = match str_opt(get_opt(e.get("thread"), "name")) {
        Some(r) => Some(r.to_owned()),
        None => None,
    };
    Message {
        id: name.to_owned(),
        sender,
        content: text.to_owned(),
        timestamp,
        channel: Some(space_id.to_owned()),
        reply_to,
        thread_id: None,
        media: None,
        is_direct,
        message_type: MessageType::Text,
        edited_timestamp: None,
        reactions: None,
    }
}

/// Reads a space's message list (newest first), keeping the entries with a
/// name and text, in order; `now_s` stands for a missing or unparsable time.
pub fn chat_messages(data: &Json, space_id: &str, now_s: i64) -> (ms: Vec<Message>)
    ensures
        chat_batch_ok(ms@, entries_of(*data), space_id@, now_s),
{
    let empty: Vec<Json> = Vec::new();
    let entries: &Vec<Json> = match data.get("messages") {
        Some(v) => match v.as_array() {
            Some(items) => items,
            None => &empty,
        },
        None => &empty,
    };
    assert(entries@ == entries_of(*data));
    let mut out: Vec<Message> = Vec::new();
    let mut i: usize = 0;
    assert(entries@.take(0) =~= Seq::<Json>::empty());
    while i < entries.len()
        invariant
            i <= entries@.len(),
            chat_batch_ok(out@, entries@.take(i as int), space_id@, now_s),
        decreases entries@.len() - i,
    {
        let e = &entries[i];
        assert(entries@.take(i + 1).drop_last() =~= entries@.take(i as int));
        assert(entries@.take(i + 1).last() == *e);
        match (str_opt(e.get("name")), str_opt(e.get("text"))) {
            (Some(name), Some(text)) => {
                if !text.is_empty() {
                    let ghost before = out@;
                    out.push(chat_message(e, name, text, space_id, now_s));
                    assert(out@.drop_last() =~= before);
                }
            },
            _ => {},
        }
        i += 1;
    }
    assert(entries@.take(entries@.len() as int) =~= entries@);
    out
}

/// The newest message name after polling a space: the first (newest)
/// parsed name when there was none yet or it sorts after it.
pub fn newer_name(newest: Option<String>, parsed: &Vec<Message>) -> (r: Option<String>)
    ensures
        opt_str(r) == (if parsed@.len() > 0 && (newest is None || text_less(
            newest->0@,
            parsed@[0].id@,
        )) {
            Some(parsed@[0].id@)
        } else {
            opt_str(newest)
        }),
{
    if parsed.len() > 0 {
        let replace = match &newest {
            None => true,
            Some(n) => str_less(n.as_str(), parsed[0].id.as_str()),
        };
        if replace {
            return Some(parsed[0].id.clone());
        }
    }
    newest
}

} // verus!
