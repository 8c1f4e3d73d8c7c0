//! iMessage messenger decisions: the AppleScript that sends a message, and
//! the messages made from rows of the Messages database.
use vstd::prelude::*;
use crate::message::{Message, MessageType};
use crate::text::{chars_of, string_of};

verus! {

/// The AppleScript string-literal text of a character.
pub open spec fn applescript_char(c: char) -> Seq<char> {
    if c == '\\' {
        seq!['\\', '\\']
    } else if c == '"' {
        seq!['\\', '"']
    } else {
        seq![c]
    }
}

/// `s` escaped for an AppleScript string literal: backslashes doubled,
/// then double quotes preceded by a backslash.
pub open spec fn applescript_escaped(s: Seq<char>) -> Seq<char>
    decreases s.len(),
{
    if s.len() == 0 {
        Seq::empty()
    } else {
        applescript_escaped(s.drop_last()) + applescript_char(s.last())
    }
}

/// Escapes a value for an AppleScript string literal.
pub fn escape_applescript_string(value: &str) -> (r: String)
    ensures
        r@ == applescript_escaped(value@),
{
    let v = chars_of(value);
    let mut out: Vec<char> = Vec::new();
    let mut i: usize = 0;
    while i < v.len()
        invariant
            i <= v.len(),
            out@ == applescript_escaped(v@.take(i as int)),
        decreases v.len() - i,
    {
        let c = v[i];
        if c == '\\' {
            out.push('\\');
            out.push('\\');
        } else if c == '"' {
            out.push('\\');
            out.push('"');
        } else {
            out.push(c);
        }
        assert(v@.take(i + 1).drop_last() =~= v@.take(i as int));
        assert(out@ =~= applescript_escaped(v@.take(i as int)) + applescript_char(c));
        i += 1;
    }
    assert(v@.take(v.len() as int) =~= value@);
    string_of(&out)
}

/// The AppleScript that sends `content` to the buddy `recipient`.
pub open spec fn send_script(recipient: Seq<char>, content: Seq<char>) -> Seq<char> {
    "tell application \"Messages\"\n    set targetService to 1st service whose service type = iMessage\n    set targetBuddy to buddy \""@
        + applescript_escaped(recipient) + "\" of targetService\n    send \""@
        + applescript_escaped(content) + "\" to targetBuddy\nend tell"@
}

/// Builds the AppleScript that sends `content` to `recipient`.
pub fn applescript_send_script(recipient: &str, content: &str) -> (s: String)
    ensures
        s@ == send_script(recipient@, content@),
{
    let mut s = "tell application \"Messages\"\n    set targetService to 1st service whose service type = iMessage\n    set targetBuddy to buddy \"".to_owned();
    s.append(escape_applescript_string(recipient).as_str());
    s.append("\" of targetService\n    send \"");
    s.append(escape_applescript_string(content).as_str());
    s.append("\" to targetBuddy\nend tell");
    s
}

/// One row of the Messages database query.
#[derive(Debug, Clone)]
pub struct IMessageRow {
    pub rowid: i64,
    pub guid: String,
    pub text: String,
    pub sender_handle: String,
    pub channel_id: String,
    pub display_name: String,
    pub is_from_me: i64,
    pub reply_to: String,
    pub unix_ts: i64,
}

/// The message a row stands for: sent by us, by its handle, or by
/// "unknown"; in its chat when it has one; direct when the chat has no
/// display name.
pub open spec fn row_message_ok(m: Message, row: IMessageRow, own_name: Seq<char>) -> bool {
    &&& m.id@ == row.guid@
    &&& m.sender@ == (if row.is_from_me != 0 {
        own_name
    } else if row.sender_handle@.len() == 0 {
        "unknown"@
    } else {
        row.sender_handle@
    })
    &&& m.content@ == row.text@
    &&& m.timestamp == row.unix_ts
    &&& (if row.channel_id@.len() == 0 {
        m.channel is None
    } else {
        m.channel is Some && m.channel->0@ == row.channel_id@
    })
    &&& (if row.reply_to@.len() == 0 {
        m.reply_to is None
    } else {
        m.reply_to is Some && m.reply_to->0@ == row.reply_to@
    })
    &&& m.thread_id is None
    &&& m.media is None
    &&& m.is_direct == (row.display_name@.len() == 0)
    &&& m.message_type == MessageType::Text
    &&& m.edited_timestamp is None
    &&& m.reactions is None
}

/// The message for a database row, received by the account `own_name`.
pub fn row_message(row: IMessageRow, own_name: &str) -> (m: Message)
    ensures
        row_message_ok(m, row, own_name@),
{
    let ghost r = row;
    let sender = if row.is_from_me != 0 {
        own_name.to_owned()
    } else if row.sender_handle.as_str().is_empty() {
        "unknown".to_owned()
    } else {
        row.sender_handle
    };
    let channel = if row.channel_id.as_str().is_empty() {
        None
    } else {
        Some(row.channel_id)
    };
    let reply_to = if row.reply_to.as_str().is_empty() {
        None
    } else {
        Some(row.reply_to)
    };
    let is_direct = row.display_name.as_str().is_empty();
    Message {
        id: row.guid,
        sender,
        content: row.text,
        timestamp: row.unix_ts,
        channel,
        reply_to,
        thread_id: None,
        media: None,
        is_direct,
        message_type: MessageType::Text,
        edited_timestamp: None,
        reactions: None,
    }
}

/// The messages for the rows of one poll, in order, and the row id to
/// resume after (that of the last row), if any row came.
pub fn rows_to_messages(rows: Vec<IMessageRow>, own_name: &str) -> (r: (
    Vec<Message>,
    Option<i64>,
))
    ensures
        r.0@.len() == rows@.len(),
        forall|i: int| 0 <= i < rows@.len() ==> row_message_ok(r.0@[i], rows@[i], own_name@),
        r.1 == (if rows@.len() == 0 {
            None
        } else {
            Some(rows@.last().rowid)
        }),
{
    let ghost all = rows@;
    let mut rows = rows;
    let mut out: Vec<Message> = Vec::new();
    let mut last: Option<i64> = None;
    while rows.len() > 0
        invariant
            out@.len() <= all.len(),
            rows@ == all.subrange(out@.len() as int, all.len() as int),
            forall|i: int| 0 <= i < out@.len() ==> row_message_ok(out@[i], all[i], own_name@),
            last == (if out@.len() == 0 {
                None
            } else {
                Some(all[out@.len() - 1].rowid)
            }),
        decreases rows@.len(),
    {
        let row = rows.remove(0);
        last = Some(row.rowid);
        let m = row_message(row, own_name);
        out.push(m);
    }
    (out, last)
}

} // verus!
