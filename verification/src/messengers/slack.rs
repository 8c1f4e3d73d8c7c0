//! Slack Web API decisions: endpoint paths, the conversations to poll, and
//! the new messages of a channel's history.
use vstd::prelude::*;
use crate::json::{jarray, jget, jget_opt, jstr, jview, object2, str_opt, str_value, Json, JsonView};
use crate::message::{opt_str, Message, MessageType};
use crate::number::{parse_i64, parse_slack_ts};
use crate::text::{before_first, join_url, url_join};

verus! {

/// The default Web API base.
pub fn default_api_base() -> (s: &'static str)
    ensures
        s@ == "https://slack.com/api"@,
{
    "https://slack.com/api"
}

/// The URL of a Web API method under the base.
pub fn api_url(base: &str, path: &str) -> (url: String)
    ensures
        url@ == url_join(base@, path@),
{
    join_url(base, path)
}

/// The `conversations.list` query: every kind of conversation, archived
/// ones excluded.
pub fn conversations_list_path() -> (p: &'static str)
    ensures
        p@ == "conversations.list?types=public_channel,private_channel,im,mpim&exclude_archived=true&limit=1000"@,
{
    "conversations.list?types=public_channel,private_channel,im,mpim&exclude_archived=true&limit=1000"
}

/// The `conversations.history` query of a channel, after `last_seen_ts`
/// when one is known.
pub fn history_path(channel_id: &str, last_seen_ts: Option<&str>) -> (p: String)
    ensures
        p@ == "conversations.history?channel="@ + channel_id@ + "&limit=100"@ + (match last_seen_ts {
            Some(ts) => "&oldest="@ + ts@ + "&inclusive=false"@,
            None => Seq::empty(),
        }),
{
    let mut p = "conversations.history?channel=".to_owned();
    p.append(channel_id);
    p.append("&limit=100");
    match last_seen_ts {
        Some(ts) => {
            p.append("&oldest=");
            p.append(ts);
            p.append("&inclusive=false");
        },
        None => {},
    }
    p
}

/// The ids of the conversations in a `conversations.list` response, in
/// order: those of the `channels` entries that have a string `id`.
pub open spec fn conversation_ids_of(channels: Seq<Json>) -> Seq<Seq<char>>
    decreases channels.len(),
{
    if channels.len() == 0 {
        Seq::empty()
    } else {
        let prev = conversation_ids_of(channels.drop_last());
        match jstr(jget(channels.last(), "id"@)) {
            Some(id) => prev.push(id),
            None => prev,
        }
    }
}

/// The `channels` entries of a response.
pub open spec fn channels_of(data: Json) -> Seq<Json> {
    match jarray(jget(data, "channels"@)) {
        Some(items) => items,
        None => Seq::empty(),
    }
}

/// The views of a sequence of strings.
pub open spec fn texts(v: Seq<String>) -> Seq<Seq<char>> {
    v.map_values(|s: String| s@)
}

/// Reads the conversation ids of a `conversations.list` response.
pub fn conversation_ids(data: &Json) -> (ids: Vec<String>)
    ensures
        texts(ids@) == conversation_ids_of(channels_of(*data)),
{
    let empty: Vec<Json> = Vec::new();
    let channels: &Vec<Json> = match data.get("channels") {
        Some(v) => match v.as_array() {
            Some(items) => items,
            None => &empty,
        },
        None => &empty,
    };
    assert(channels@ == channels_of(*data));
    let mut out: Vec<String> = Vec::new();
    let mut i: usize = 0;
    assert(channels@.take(0) =~= Seq::<Json>::empty());
    while i < channels.len()
        invariant
            i <= channels@.len(),
            texts(out@) == conversation_ids_of(channels@.take(i as int)),
        decreases channels@.len() - i,
    {
        assert(channels@.take(i + 1).drop_last() =~= channels@.take(i as int));
        assert(channels@.take(i + 1).last() == channels@[i as int]);
        match str_opt(channels[i].get("id")) {
            Some(id) => {
                let ghost before = out@;
                out.push(id.to_owned());
                assert(texts(out@) =~= texts(before).push(id@));
            },
            None => {},
        }
        i += 1;
    }
    assert(channels@.take(channels@.len() as int) =~= channels@);
    out
}

/// Whether a history entry becomes a message: it has a string `ts`, and
/// text or files.
pub open spec fn slack_entry_kept(e: Json) -> bool {
    &&& jstr(jget(e, "ts"@)) is Some
    &&& (jstr(jget(e, "text"@)) is Some && jstr(jget(e, "text"@))->0.len() > 0 || jget(
        e,
        "files"@,
    ) is Some)
}

/// The message of a kept history entry of `channel`, with its `ts`.
pub open spec fn slack_message_ok(p: (String, Message), e: Json, channel: Seq<char>) -> bool {
    let ts = jstr(jget(e, "ts"@))->0;
    let m = p.1;
    &&& p.0@ == ts
    &&& m.id@ == ts
    &&& m.sender@ == (match jstr(jget(e, "user"@)) {
        Some(u) => u,
        None => match jstr(jget(e, "bot_id"@)) {
            Some(b) => b,
            None => "unknown"@,
        },
    })
    &&& m.content@ == (match jstr(jget(e, "text"@)) {
        Some(t) => t,
        None => Seq::empty(),
    })
    &&& m.timestamp == (match parse_i64(before_first(ts, seq!['.'])) {
        Some(v) => v,
        None => 0,
    })
    &&& opt_str(m.channel) == Some(channel)
    &&& opt_str(m.reply_to) == (match jstr(jget(e, "thread_ts"@)) {
        Some(t) => if t != ts {
            Some(t)
        } else {
            None
        },
        None => None,
    })
    &&& m.thread_id is None
    &&& m.media is None
    &&& !m.is_direct
    &&& m.message_type == MessageType::Text
    &&& m.edited_timestamp is None
    &&& m.reactions is None
}

/// The messages of history entries (newest first, as Slack sends them),
/// oldest first: `ps` holds the kept entries of `entries`, in reverse.
pub open spec fn slack_batch_ok(ps: Seq<(String, Message)>, entries: Seq<Json>, channel: Seq<char>) -> bool
    decreases entries.len(),
{
    if entries.len() == 0 {
        ps.len() == 0
    } else if slack_entry_kept(entries[0]) {
        &&& ps.len() > 0
        &&& slack_message_ok(ps.last(), entries[0], channel)
        &&& slack_batch_ok(ps.drop_last(), entries.drop_first(), channel)
    } else {
        slack_batch_ok(ps, entries.drop_first(), channel)
    }
}

/// The `messages` entries of a history response.
pub open spec fn messages_of(data: Json) -> Seq<Json> {
    match jarray(jget(data, "messages"@)) {
        Some(items) => items,
        None => Seq::empty(),
    }
}

/// Reads one kept history entry.
fn slack_message(e: &Json, ts: &str, channel_id: &str) -> (p: (String, Message))
    requires
        jstr(jget(*e, "ts"@)) == Some(ts@),
    ensures
        slack_message_ok(p, *e, channel_id@),
{
    let content = match str_opt(e.get("text")) {
        Some(t) => t.to_owned(),
        None => String::new(),
    };
    let sender = match str_opt(e.get("user")) {
        Some(u) => u.to_owned(),
        None => match str_opt(e.get("bot_id")) {
            Some(b) => b.to_owned(),
            None => "unknown".to_owned(),
        },
    };
    let reply_to = match str_opt(e.get("thread_ts")) {
        Some(t) => if crate::text::str_eq(t, ts) {
            None
        } else {
            Some(t.to_owned())
        },
        None => None,
    };
    let m = Message {
        id: ts.to_owned(),
        sender,
        content,
        timestamp: parse_slack_ts(ts),
        channel: Some(channel_id.to_owned()),
        reply_to,
        thread_id: None,
        media: None,
        is_direct: false,
        message_type: MessageType::Text,
        edited_timestamp: None,
        reactions: None,
    };
    (ts.to_owned(), m)
}

/// Reads a `conversations.history` response of `channel_id`: its new
/// messages, oldest first, each with its `ts`.
pub fn channel_messages(data: &Json, channel_id: &str) -> (ps: Vec<(String, Message)>)
    ensures
        slack_batch_ok(ps@, messages_of(*data), channel_id@),
{
    let empty: Vec<Json> = Vec::new();
    let entries: &Vec<Json> = match data.get("messages") {
        Some(v) => match v.as_array() {
            Some(items) => items,
            None => &empty,
        },
        None => &empty,
    };
    assert(entries@ == messages_of(*data));
    let mut out: Vec<(String, Message)> = Vec::new();
    let mut k: usize = entries.len();
    assert(entries@.skip(entries@.len() as int) =~= Seq::<Json>::empty());
    while k > 0
        invariant
            k <= entries@.len(),
            slack_batch_ok(out@, entries@.skip(k as int), channel_id@),
        decreases k,
    {
        let e = &entries[k - 1];
        let ghost rest = entries@.skip(k as int);
        let ghost here = entries@.skip(k - 1);
        assert(here.drop_first() =~= rest);
        assert(here[0] == *e);
        match str_opt(e.get("ts")) {
            Some(ts) => {
                let has_text = match str_opt(e.get("text")) {
                    Some(t) => !t.is_empty(),
                    None => false,
                };
                let has_files = match e.get("files") {
                    Some(_) => true,
                    None => false,
                };
                if has_text || has_files {
                    let ghost before = out@;
                    out.push(slack_message(e, ts, channel_id));
                    assert(out@.drop_last() =~= before);
                }
            },
            None => {},
        }
        k -= 1;
    }
    assert(entries@.skip(0) =~= entries@);
    out
}

/// The `ts` of a posted message, or empty.
pub fn posted_ts(data: &Json) -> (ts: String)
    ensures
        ts@ == (match jstr(jget(*data, "ts"@)) {
            Some(t) => t,
            None => Seq::empty(),
        }),
{
    match str_opt(data.get("ts")) {
        Some(t) => t.to_owned(),
        None => String::new(),
    }
}

/// The `chat.postMessage` request.
pub fn post_message_body(channel: &str, text: &str) -> (j: Json)
    ensures
        jview(j) == JsonView::Object(seq![("channel"@, JsonView::Str(channel@)), ("text"@, JsonView::Str(text@))]),
{
    object2("channel", str_value(channel), "text", str_value(text))
}

} // verus!
