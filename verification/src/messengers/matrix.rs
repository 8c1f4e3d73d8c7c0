//! Matrix client decisions: the configuration check, the payloads sent,
//! and the messages of a sync response's joined-room timelines.
use vstd::prelude::*;
use crate::json::{
    int_value, int_view, jview, object1, object2, object4, str_value, Json, JsonView,
};
use crate::message::{opt_str, Message, MessageType};
use crate::number::{decimal, u64_to_string};
use crate::text::{chars_of, starts_with, trim, trim_range};

verus! {

/// Whether `s` is all whitespace.
fn blank(s: &str) -> (b: bool)
    ensures
        b == (trim(s@).len() == 0),
{
    let v = chars_of(s);
    let (a, b) = trim_range(&v, 0, v.len());
    assert(v@.subrange(0, v.len() as int) =~= s@);
    a == b
}

/// The configuration check before a password login: the homeserver and
/// username must not be blank, and nor must the password unless an access
/// token is already held.
pub open spec fn config_problem(
    homeserver: Seq<char>,
    username: Seq<char>,
    password: Seq<char>,
    has_token: bool,
) -> Option<Seq<char>> {
    if trim(homeserver).len() == 0 {
        Some("Matrix homeserver must not be empty"@)
    } else if trim(username).len() == 0 {
        Some("Matrix username must not be empty"@)
    } else if !has_token && trim(password).len() == 0 {
        Some("Matrix password must not be empty (unless using access_token auth)"@)
    } else {
        None
    }
}

/// Checks the configuration (see `config_problem`).
pub fn validate_config(homeserver: &str, username: &str, password: &str, has_token: bool) -> (r:
    Result<(), &'static str>)
    ensures
        match r {
            Ok(()) => config_problem(homeserver@, username@, password@, has_token) is None,
            Err(e) => config_problem(homeserver@, username@, password@, has_token) == Some(e@),
        },
{
    if blank(homeserver) {
        Err("Matrix homeserver must not be empty")
    } else if blank(username) {
        Err("Matrix username must not be empty")
    } else if !has_token && blank(password) {
        Err("Matrix password must not be empty (unless using access_token auth)")
    } else {
        Ok(())
    }
}

/// Whether a recipient already is a room id (`!…`) rather than an alias
/// that has to be joined first.
pub fn is_room_id(recipient: &str) -> (b: bool)
    ensures
        b == starts_with(recipient@, seq!['!']),
{
    let bang = vec!['!'];
    assert(bang@ =~= seq!['!']);
    let v = chars_of(recipient);
    let b = crate::text::matches_at(&v, 0, &bang);
    assert(b == starts_with(v@, seq!['!'])) by {
        if bang@.len() <= v@.len() {
            assert(v@.subrange(0, 1) =~= v@.subrange(0, bang@.len() as int));
        }
    }
    b
}

/// The transaction id of the `counter`-th send.
pub fn txn_id(counter: u64) -> (id: String)
    ensures
        id@ == decimal(counter as nat),
{
    u64_to_string(counter)
}

/// One timeline event of a sync response.
#[derive(Debug, Clone)]
pub struct MatrixTimelineEvent {
    pub event_type: String,
    pub event_id: String,
    pub sender: String,
    pub origin_server_ts: i64,
    /// The event content's `body` (empty when it has none).
    pub body: String,
    /// The event this one replies to (`m.relates_to.m.in_reply_to`).
    pub in_reply_to: Option<String>,
}

/// A joined room's timeline in a sync response.
#[derive(Debug, Clone)]
pub struct MatrixRoomTimeline {
    pub room_id: String,
    pub events: Vec<MatrixTimelineEvent>,
}

/// Whole seconds of a millisecond time, rounded toward zero.
pub open spec fn millis_to_seconds(ms: i64) -> int {
    if ms >= 0 {
        ms / 1000
    } else {
        -((-ms) / 1000)
    }
}

/// Whether an event becomes a message: a room message with a body.
pub open spec fn event_kept(e: MatrixTimelineEvent) -> bool {
    e.event_type@ == "m.room.message"@ && e.body@.len() > 0
}

/// The message of a kept event of `room`.
pub open spec fn matrix_message_ok(m: Message, e: MatrixTimelineEvent, room: Seq<char>) -> bool {
    &&& m.id@ == e.event_id@
    &&& m.sender@ == e.sender@
    &&& m.content@ == e.body@
    &&& m.timestamp == millis_to_seconds(e.origin_server_ts)
    &&& opt_str(m.channel) == Some(room)
    &&& opt_str(m.reply_to) == opt_str(e.in_reply_to)
    &&& m.thread_id is None
    &&& m.media is None
    &&& !m.is_direct
    &&& m.message_type == MessageType::Text
    &&& m.edited_timestamp is None
    &&& m.reactions is None
}

/// The messages of a room's events, in order.
pub open spec fn room_batch_ok(ms: Seq<Message>, es: Seq<MatrixTimelineEvent>, room: Seq<char>) -> bool
    decreases es.len(),
{
    if es.len() == 0 {
        ms.len() == 0
    } else if event_kept(es.last()) {
        &&& ms.len() > 0
        &&& matrix_message_ok(ms.last(), es.last(), room)
        &&& room_batch_ok(ms.drop_last(), es.drop_last(), room)
    } else {
        room_batch_ok(ms, es.drop_last(), room)
    }
}

/// The messages of the rooms' timelines, room after room.
pub open spec fn sync_batch_ok(ms: Seq<Message>, rooms: Seq<MatrixRoomTimeline>) -> bool
    decreases rooms.len(),
{
    if rooms.len() == 0 {
        ms.len() == 0
    } else {
        exists|k: int|
            0 <= k <= ms.len() && sync_batch_ok(ms.take(k), rooms.drop_last()) && room_batch_ok(
                ms.skip(k),
                rooms.last().events@,
                rooms.last().room_id@,
            )
    }
}

fn matrix_message(e: &MatrixTimelineEvent, room_id: &String) -> (m: Message)
    requires
        event_kept(*e),
    ensures
        matrix_message_ok(m, *e, room_id@),
{
    let ts = e.origin_server_ts;
    let seconds: i64 = if ts >= 0 {
        ts / 1000
    } else {
        -((-(ts as i128) / 1000) as i64)
    };
    let reply_to = match &e.in_reply_to {
        Some(r) => Some(r.clone()),
        None => None,
    };
    Message {
        id: e.event_id.clone(),
        sender: e.sender.clone(),
        content: e.body.clone(),
        timestamp: seconds,
        channel: Some(room_id.clone()),
        reply_to,
        thread_id: None,
        media: None,
        is_direct: false,
        message_type: MessageType::Text,
        edited_timestamp: None,
        reactions: None,
    }
}

/// The messages of a sync response's joined rooms: room messages with a
/// body, room after room, in timeline order.
pub fn sync_messages(rooms: &Vec<MatrixRoomTimeline>) -> (ms: Vec<Message>)
    ensures
        sync_batch_ok(ms@, rooms@),
{
    let mut out: Vec<Message> = Vec::new();
    let mut r: usize = 0;
    assert(rooms@.take(0) =~= Seq::<MatrixRoomTimeline>::empty());
    while r < rooms.len()
        invariant
            r <= rooms@.len(),
            sync_batch_ok(out@, rooms@.take(r as int)),
        decreases rooms@.len() - r,
    {
        let room = &rooms[r];
        let ghost start = out@;
        let ghost k = out@.len() as int;
        let mut i: usize = 0;
        assert(room.events@.take(0) =~= Seq::<MatrixTimelineEvent>::empty());
        assert(out@.skip(k) =~= Seq::<Message>::empty());
        while i < room.events.len()
            invariant
                i <= room.events@.len(),
                k == start.len(),
                out@.take(k) == start,
                k <= out@.len(),
                room_batch_ok(out@.skip(k), room.events@.take(i as int), room.room_id@),
            decreases room.events@.len() - i,
        {
            let e = &room.events[i];
            assert(room.events@.take(i + 1).drop_last() =~= room.events@.take(i as int));
            assert(room.events@.take(i + 1).last() == *e);
            if crate::text::str_eq(e.event_type.as_str(), "m.room.message") && !e.body.as_str().is_empty() {
                let ghost before = out@;
                out.push(matrix_message(e, &room.room_id));
                assert(out@.take(k) =~= before.take(k));
                assert(out@.skip(k).drop_last() =~= before.skip(k));
                assert(out@.skip(k).last() == out@.last());
            }
            i += 1;
        }
        assert(room.events@.take(room.events@.len() as int) =~= room.events@);
        assert(rooms@.take(r + 1).drop_last() =~= rooms@.take(r as int));
        assert(rooms@.take(r + 1).last() == *room);
        assert(sync_batch_ok(out@.take(k), rooms@.take(r as int)));
        r += 1;
    }
    assert(rooms@.take(rooms@.len() as int) =~= rooms@);
    out
}

/// The typing notification: `typing`, with a 30 s timeout while typing.
pub fn typing_payload(typing: bool) -> (j: Json)
    ensures
        jview(j) == (if typing {
            JsonView::Object(seq![("typing"@, JsonView::Bool(true)), ("timeout"@, int_view(30000))])
        } else {
            JsonView::Object(seq![("typing"@, JsonView::Bool(false))])
        }),
{
    if typing {
        object2("typing", Json::Bool(true), "timeout", int_value(30000))
    } else {
        object1("typing", Json::Bool(false))
    }
}

/// A plain text message event's content.
pub fn text_content(body: &str) -> (j: Json)
    ensures
        jview(j) == JsonView::Object(
            seq![("msgtype"@, JsonView::Str("m.text"@)), ("body"@, JsonView::Str(body@))],
        ),
{
    object2("msgtype", str_value("m.text"), "body", str_value(body))
}

/// The password login request.
pub open spec fn login_view(username: Seq<char>, password: Seq<char>, device_name: Seq<char>) -> JsonView {
    JsonView::Object(
        seq![
            ("type"@, JsonView::Str("m.login.password"@)),
            (
                "identifier"@,
                JsonView::Object(
                    seq![("type"@, JsonView::Str("m.id.user"@)), ("user"@, JsonView::Str(username))],
                ),
            ),
            ("password"@, JsonView::Str(password)),
            ("initial_device_display_name"@, JsonView::Str(device_name)),
        ],
    )
}

/// Builds the password login request; the device is named after the
/// messenger.
pub fn login_body(username: &str, password: &str, device_name: &str) -> (j: Json)
    ensures
        jview(j) == login_view(username@, password@, device_name@),
{
    let identifier = object2("type", str_value("m.id.user"), "user", str_value(username));
    object4(
        "type",
        str_value("m.login.password"),
        "identifier",
        identifier,
        "password",
        str_value(password),
        "initial_device_display_name",
        str_value(device_name),
    )
}

} // verus!
