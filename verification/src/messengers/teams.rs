//! Microsoft Teams decisions: Graph URLs and paths, the payloads sent, and
//! the messages read from a channel's message list.
use vstd::prelude::*;
use crate::json::{
    get_opt, jarray, jget, jget_opt, jstr, jview, object1, object2, object3, str_opt, str_value,
    Json, JsonView,
};
use crate::message::{opt_str, Message, MessageType};
use crate::number::{decimal_int, i64_to_string};
use crate::text::{join_url, url_join};
use crate::timestamp::{seconds_or_now, time_or_now};

verus! {

/// The default Microsoft Graph base.
pub fn default_graph_base() -> (s: &'static str)
    ensures
        s@ == "https://graph.microsoft.com/v1.0"@,
{
    "https://graph.microsoft.com/v1.0"
}

/// The URL of a Graph path under the base.
pub fn graph_api_url(base: &str, path: &str) -> (url: String)
    ensures
        url@ == url_join(base@, path@),
{
    join_url(base, path)
}

/// The Graph path of a channel's messages.
pub fn graph_messages_path(team_id: &str, channel_id: &str) -> (p: String)
    ensures
        p@ == "teams/"@ + team_id@ + "/channels/"@ + channel_id@ + "/messages"@,
{
    let mut p = "teams/".to_owned();
    p.append(team_id);
    p.append("/channels/");
    p.append(channel_id);
    p.append("/messages");
    p
}

/// The channel a Graph send goes to: the one given, or the configured
/// channel when none is given.
pub fn send_channel<'a>(requested: &'a str, configured: &'a str) -> (c: &'a str)
    ensures
        c@ == (if requested@.len() == 0 {
            configured@
        } else {
            requested@
        }),
{
    if requested.is_empty() {
        configured
    } else {
        requested
    }
}

/// The id reported for a webhook post sent at `now_ms`.
pub fn webhook_sent_id(now_ms: i64) -> (id: String)
    ensures
        id@ == "teams:"@ + decimal_int(now_ms as int),
{
    let mut id = "teams:".to_owned();
    id.append(i64_to_string(now_ms).as_str());
    id
}

/// The id of a message posted through Graph, or empty.
pub fn graph_sent_id(data: &Json) -> (id: String)
    ensures
        id@ == (match jstr(jget(*data, "id"@)) {
            Some(i) => i,
            None => Seq::empty(),
        }),
{
    match str_opt(data.get("id")) {
        Some(i) => i.to_owned(),
        None => String::new(),
    }
}

/// The message a Graph chat message entry stands for (its body not empty).
pub open spec fn teams_message_ok(m: Message, e: Json, channel: Seq<char>, now_s: i64) -> bool {
    let from = jget(e, "from"@);
    &&& m.id@ == (match jstr(jget(e, "id"@)) {
        Some(i) => i,
        None => Seq::empty(),
    })
    &&& m.sender@ == (match jstr(jget_opt(jget_opt(from, "user"@), "displayName"@)) {
        Some(u) => u,
        None => match jstr(jget_opt(jget_opt(from, "application"@), "displayName"@)) {
            Some(a) => a,
            None => "unknown"@,
        },
    })
    &&& m.content@ == jstr(jget_opt(jget(e, "body"@), "content"@))->0
    &&& m.timestamp == seconds_or_now(jstr(jget(e, "createdDateTime"@)), now_s)
    &&& opt_str(m.channel) == Some(channel)
    &&& opt_str(m.reply_to) == jstr(jget(e, "replyToId"@))
    &&& m.thread_id is None
    &&& m.media is None
    &&& !m.is_direct
    &&& m.message_type == MessageType::Text
    &&& m.edited_timestamp is None
    &&& m.reactions is None
}

/// Whether an entry has a non-empty body.
pub open spec fn teams_entry_kept(e: Json) -> bool {
    jstr(jget_opt(jget(e, "body"@), "content"@)) is Some && jstr(
        jget_opt(jget(e, "body"@), "content"@),
    )->0.len() > 0
}

/// The messages of the entries with a body, in the order of the entries.
pub open spec fn teams_batch_ok(ms: Seq<Message>, es: Seq<Json>, channel: Seq<char>, now_s: i64) -> bool
    decreases es.len(),
{
    if es.len() == 0 {
        ms.len() == 0
    } else if teams_entry_kept(es.last()) {
        &&& ms.len() > 0
        &&& teams_message_ok(ms.last(), es.last(), channel, now_s)
        &&& teams_batch_ok(ms.drop_last(), es.drop_last(), channel, now_s)
    } else {
        teams_batch_ok(ms, es.drop_last(), channel, now_s)
    }
}

/// The `value` entries of a Graph list response.
pub open spec fn values_of(data: Json) -> Seq<Json> {
    match jarray(jget(data, "value"@)) {
        Some(items) => items,
        None => Seq::empty(),
    }
}

fn teams_message(e: &Json, content: String, channel_id: &str, now_s: i64) -> (m: Message)
    requires
        jstr(jget_opt(jget(*e, "body"@), "content"@)) == Some(content@),
    ensures
        teams_message_ok(m, *e, channel_id@, now_s),
{
    let id = match str_opt(e.get("id")) {
        Some(i) => i.to_owned(),
        None => String::new(),
    };
    let from = e.get("from");
    let sender = match str_opt(get_opt(get_opt(from, "user"), "displayName")) {
        Some(u) => u.to_owned(),
        None => match str_opt(get_opt(get_opt(from, "application"), "displayName")) {
            Some(a) => a.to_owned(),
            None => "unknown".to_owned(),
        },
    };
    let timestamp = time_or_now(str_opt(e.get("createdDateTime")), now_s);
    let reply_to = match str_opt(e.get("replyToId")) {
        Some(r) => Some(r.to_owned()),
        None => None,
    };
    Message {
        id,
        sender,
        content,
        timestamp,
        channel: Some(channel_id.to_owned()),
        reply_to,
        thread_id: None,
        media: None,
        is_direct: false,
        message_type: MessageType::Text,
        edited_timestamp: None,
        reactions: None,
    }
}

/// Reads a Graph channel message list (newest first), keeping the entries
/// with a body, in order; `now_s` stands for a missing or unparsable time.
pub fn teams_messages(data: &Json, channel_id: &str, now_s: i64) -> (ms: Vec<Message>)
    ensures
        teams_batch_ok(ms@, values_of(*data), channel_id@, now_s),
{
    let empty: Vec<Json> = Vec::new();
    let entries: &Vec<Json> = match data.get("value") {
        Some(v) => match v.as_array() {
            Some(items) => items,
            None => &empty,
        },
        None => &empty,
    };
    assert(entries@ == values_of(*data));
    let mut out: Vec<Message> = Vec::new();
    let mut i: usize = 0;
    assert(entries@.take(0) =~= Seq::<Json>::empty());
    while i < entries.len()
        invariant
            i <= entries@.len(),
            teams_batch_ok(out@, entries@.take(i as int), channel_id@, now_s),
        decreases entries@.len() - i,
    {
        let e = &entries[i];
        assert(entries@.take(i + 1).drop_last() =~= entries@.take(i as int));
        assert(entries@.take(i + 1).last() == *e);
        match str_opt(get_opt(e.get("body"), "content")) {
            Some(c) => {
                if !c.is_empty() {
                    let ghost before = out@;
                    out.push(teams_message(e, c.to_owned(), channel_id, now_s));
                    assert(out@.drop_last() =~= before);
                }
            },
            None => {},
        }
        i += 1;
    }
    assert(entries@.take(entries@.len() as int) =~= entries@);
    out
}

/// The newest message id after a poll: that of the first (newest) parsed
/// message, else the one seen before.
pub fn newest_id(parsed: &Vec<Message>, last_seen: Option<String>) -> (r: Option<String>)
    ensures
        opt_str(r) == (if parsed@.len() > 0 {
            Some(parsed@[0].id@)
        } else {
            opt_str(last_seen)
        }),
{
    if parsed.len() > 0 {
        Some(parsed[0].id.clone())
    } else {
        last_seen
    }
}

/// The incoming-webhook card: a MessageCard with the text.
pub open spec fn webhook_card_view(text: Seq<char>) -> JsonView {
    JsonView::Object(
        seq![
            ("@type"@, JsonView::Str("MessageCard"@)),
            ("@context"@, JsonView::Str("https://schema.org/extensions"@)),
            ("text"@, JsonView::Str(text)),
        ],
    )
}

/// Builds the incoming-webhook card.
pub fn webhook_card(text: &str) -> (j: Json)
    ensures
        jview(j) == webhook_card_view(text@),
{
    object3(
        "@type",
        str_value("MessageCard"),
        "@context",
        str_value("https://schema.org/extensions"),
        "text",
        str_value(text),
    )
}

/// The Graph message body: HTML content.
pub open spec fn graph_body_view(content: Seq<char>) -> JsonView {
    JsonView::Object(
        seq![
            (
                "body"@,
                JsonView::Object(
                    seq![
                        ("contentType"@, JsonView::Str("html"@)),
                        ("content"@, JsonView::Str(content)),
                    ],
                ),
            ),
        ],
    )
}

/// Builds the Graph message body.
pub fn graph_body(content: &str) -> (j: Json)
    ensures
        jview(j) == graph_body_view(content@),
{
    let body = object2("contentType", str_value("html"), "content", str_value(content));
    object1("body", body)
}

} // verus!
