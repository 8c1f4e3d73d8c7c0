//! Matrix decisions of the direct-HTTP client: room allow-lists and DM
//! invites, the messages of a sync response, when the sync token may
//! advance, and the requests it sends.
use vstd::prelude::*;
use crate::json::{
    jarray, jget, jget_opt, jstr, ju64, jview, members_view, object1, object2, object4, str_opt, str_value,
    with_member, Json, JsonView,
};
use crate::md_events::{commonmark_html, markdown_html};
use crate::markdown::string_views;
use crate::message::{opt_str, opt_text, Message, MessageType};
use crate::number::{decimal, u64_to_string};
use crate::text::{
    chars_of, percent_encoded, slice_of, str_eq, string_of, strip_trailing, strip_trailing_range, url_encode,
};

verus! {

/// DM configuration for the Matrix messenger.
#[derive(Debug, Clone, Default)]
pub struct MatrixDmConfig {
    /// Whether DMs are enabled.
    pub enabled: bool,
    /// DM policy: "allowlist", "open", or "pairing".
    pub policy: String,
    /// List of user IDs allowed to send DMs (for allowlist policy).
    pub allow_from: Vec<String>,
}

/// Whether `list` holds a string equal to `s`.
fn holds(list: &Vec<String>, s: &str) -> (b: bool)
    ensures
        b == string_views(list@).contains(s@),
{
    let mut i: usize = 0;
    while i < list.len()
        invariant
            i <= list@.len(),
            forall|j: int| 0 <= j < i ==> list@[j]@ != s@,
        decreases list@.len() - i,
    {
        if str_eq(list[i].as_str(), s) {
            assert(string_views(list@)[i as int] == s@);
            return true;
        }
        i += 1;
    }
    proof {
        if string_views(list@).contains(s@) {
            let j = choose|j: int| 0 <= j < string_views(list@).len() && string_views(list@)[j] == s@;
            assert(list@[j]@ == s@);
        }
    }
    false
}

/// The homeserver URL without trailing slashes.
pub fn trim_homeserver(url: &str) -> (r: String)
    ensures
        r@ == strip_trailing(url@, seq!['/']),
{
    let slash = vec!['/'];
    assert(slash@ =~= seq!['/']);
    let v = chars_of(url);
    assert(v@.subrange(0, v.len() as int) =~= url@);
    let e = strip_trailing_range(&v, 0, v.len(), &slash);
    string_of(&slice_of(&v, 0, e))
}

/// The `Authorization` header: the access token as a bearer token; an
/// error without one.
pub fn auth_header(access_token: Option<&str>) -> (r: Result<String, &'static str>)
    ensures
        match r {
            Ok(h) => access_token is Some && h@ == "Bearer "@ + access_token->0@,
            Err(e) => access_token is None && e@ == "No access token available"@,
        },
{
    match access_token {
        Some(t) => {
            let mut h = "Bearer ".to_owned();
            h.append(t);
            Ok(h)
        },
        None => Err("No access token available"),
    }
}

/// Whether a DM invite from `sender` is accepted: always under the "open"
/// policy, from the listed users under "allowlist", never otherwise.
pub open spec fn accepts_invite(policy: Seq<char>, allow_from: Seq<Seq<char>>, sender: Seq<char>) -> bool {
    if policy == "open"@ {
        true
    } else if policy == "allowlist"@ {
        allow_from.contains(sender)
    } else {
        false
    }
}

/// Decides whether to accept a DM invite from `sender`.
pub fn should_accept_invite(dm: &MatrixDmConfig, sender: &str) -> (b: bool)
    ensures
        b == accepts_invite(dm.policy@, string_views(dm.allow_from@), sender@),
{
    if str_eq(dm.policy.as_str(), "open") {
        true
    } else if str_eq(dm.policy.as_str(), "allowlist") {
        holds(&dm.allow_from, sender)
    } else {
        false
    }
}

/// The senders of the member events of an invite's state, in order.
pub open spec fn invite_senders(events: Seq<Json>) -> Seq<Seq<char>>
    decreases events.len(),
{
    if events.len() == 0 {
        Seq::empty()
    } else {
        let prev = invite_senders(events.drop_last());
        let e = events.last();
        if jstr(jget(e, "type"@)) == Some("m.room.member"@) && jstr(jget(e, "sender"@)) is Some {
            prev.push(jstr(jget(e, "sender"@))->0)
        } else {
            prev
        }
    }
}

/// The `invite_state.events` of an invited room.
pub open spec fn invite_events(invite: Json) -> Seq<Json> {
    match jarray(jget_opt(jget(invite, "invite_state"@), "events"@)) {
        Some(items) => items,
        None => Seq::empty(),
    }
}

/// The senders of an invited room's member events.
pub fn member_event_senders(invite: &Json) -> (senders: Vec<String>)
    ensures
        string_views(senders@) == invite_senders(invite_events(*invite)),
{
    let empty: Vec<Json> = Vec::new();
    let events: &Vec<Json> = match crate::json::get_opt(invite.get("invite_state"), "events") {
        Some(v) => match v.as_array() {
            Some(items) => items,
            None => &empty,
        },
        None => &empty,
    };
    assert(events@ == invite_events(*invite));
    let mut out: Vec<String> = Vec::new();
    let mut i: usize = 0;
    assert(events@.take(0) =~= Seq::<Json>::empty());
    while i < events.len()
        invariant
            i <= events@.len(),
            string_views(out@) == invite_senders(events@.take(i as int)),
        decreases events@.len() - i,
    {
        let e = &events[i];
        assert(events@.take(i + 1).drop_last() =~= events@.take(i as int));
        assert(events@.take(i + 1).last() == *e);
        let is_member = match crate::json::str_opt(e.get("type")) {
            Some(t) => str_eq(t, "m.room.member"),
            None => false,
        };
        if is_member {
            match crate::json::str_opt(e.get("sender")) {
                Some(s) => {
                    let ghost before = out@;
                    out.push(s.to_owned());
                    assert(string_views(out@) =~= string_views(before).push(s@));
                },
                None => {},
            }
        }
        i += 1;
    }
    assert(events@.take(events@.len() as int) =~= events@);
    out
}

/// A room event of a timeline, as the client reads it: type, sender and
/// event id strings, content present, and a non-negative integer
/// `origin_server_ts`.
#[derive(Debug)]
pub struct RoomEvent {
    pub event_type: String,
    pub sender: String,
    pub event_id: String,
    pub origin_server_ts: u64,
    /// The content's `body`, where it is a string.
    pub body: Option<String>,
}

/// The room event a timeline entry is, where it has the required fields.
pub open spec fn room_event_ok(r: Option<RoomEvent>, v: Json) -> bool {
    let t = jstr(jget(v, "type"@));
    let s = jstr(jget(v, "sender"@));
    let c = jget(v, "content"@);
    let i = jstr(jget(v, "event_id"@));
    let ts = ju64(jget(v, "origin_server_ts"@));
    if t is Some && s is Some && c is Some && i is Some && ts is Some {
        match r {
            Some(e) => {
                &&& e.event_type@ == t->0
                &&& e.sender@ == s->0
                &&& e.event_id@ == i->0
                &&& e.origin_server_ts == ts->0
                &&& opt_str(e.body) == jstr(jget_opt(c, "body"@))
            },
            None => false,
        }
    } else {
        r is None
    }
}

/// Reads a timeline entry as a room event.
pub fn room_event(v: &Json) -> (r: Option<RoomEvent>)
    ensures
        room_event_ok(r, *v),
{
    let t = match crate::json::str_opt(v.get("type")) {
        Some(t) => t,
        None => return None,
    };
    let s = match crate::json::str_opt(v.get("sender")) {
        Some(s) => s,
        None => return None,
    };
    let c = match v.get("content") {
        Some(c) => c,
        None => return None,
    };
    let i = match crate::json::str_opt(v.get("event_id")) {
        Some(i) => i,
        None => return None,
    };
    let ts = match v.get("origin_server_ts") {
        Some(x) => match x.as_u64() {
            Some(ts) => ts,
            None => return None,
        },
        None => return None,
    };
    let body = match crate::json::str_opt(c.get("body")) {
        Some(b) => Some(b.to_owned()),
        None => None,
    };
    Some(
        RoomEvent {
            event_type: t.to_owned(),
            sender: s.to_owned(),
            event_id: i.to_owned(),
            origin_server_ts: ts,
            body,
        },
    )
}

/// The `timeline.events` of a joined room.
pub open spec fn timeline_events(room: Json) -> Seq<Json> {
    match jarray(jget_opt(jget(room, "timeline"@), "events"@)) {
        Some(items) => items,
        None => Seq::empty(),
    }
}

/// Whether a timeline entry becomes a message: a well-formed room message
/// with a string body, not sent by the client's own user.
pub open spec fn entry_kept(v: Json, own_user: Seq<char>) -> bool {
    let s = jstr(jget(v, "sender"@));
    &&& jstr(jget(v, "type"@)) == Some("m.room.message"@)
    &&& s is Some
    &&& s->0 != own_user
    &&& jget(v, "content"@) is Some
    &&& jstr(jget(v, "event_id"@)) is Some
    &&& ju64(jget(v, "origin_server_ts"@)) is Some
    &&& jstr(jget_opt(jget(v, "content"@), "body"@)) is Some
}

/// The message of a kept entry of `room`; direct when the room is a DM room.
pub open spec fn cli_message_ok(m: Message, v: Json, room: Seq<char>, is_dm: bool) -> bool {
    &&& m.id@ == jstr(jget(v, "event_id"@))->0
    &&& m.sender@ == jstr(jget(v, "sender"@))->0
    &&& m.content@ == jstr(jget_opt(jget(v, "content"@), "body"@))->0
    &&& m.timestamp == ju64(jget(v, "origin_server_ts"@))->0 / 1000
    &&& opt_str(m.channel) == Some(room)
    &&& m.reply_to is None
    &&& m.thread_id is None
    &&& m.media is None
    &&& m.is_direct == is_dm
    &&& m.message_type == MessageType::Text
    &&& m.edited_timestamp is None
    &&& m.reactions is None
}

/// The messages of a room's timeline entries, in order.
pub open spec fn timeline_batch_ok(
    ms: Seq<Message>,
    vs: Seq<Json>,
    room: Seq<char>,
    is_dm: bool,
    own_user: Seq<char>,
) -> bool
    decreases vs.len(),
{
    if vs.len() == 0 {
        ms.len() == 0
    } else if entry_kept(vs.last(), own_user) {
        &&& ms.len() > 0
        &&& cli_message_ok(ms.last(), vs.last(), room, is_dm)
        &&& timeline_batch_ok(ms.drop_last(), vs.drop_last(), room, is_dm, own_user)
    } else {
        timeline_batch_ok(ms, vs.drop_last(), room, is_dm, own_user)
    }
}

/// Whether a joined room is read: with no allow-list and no DM rooms every
/// room is; otherwise the room must be in one of them.
pub open spec fn room_read(room: Seq<char>, allowed: Seq<Seq<char>>, dm_rooms: Seq<Seq<char>>) -> bool {
    (allowed.len() == 0 && dm_rooms.len() == 0) || allowed.contains(room) || dm_rooms.contains(room)
}

/// The messages of a sync's joined rooms, room after room.
pub open spec fn joined_batch_ok(
    ms: Seq<Message>,
    rooms: Seq<(String, Json)>,
    allowed: Seq<Seq<char>>,
    dm_rooms: Seq<Seq<char>>,
    own_user: Seq<char>,
) -> bool
    decreases rooms.len(),
{
    if rooms.len() == 0 {
        ms.len() == 0
    } else {
        let (id, data) = rooms.last();
        if room_read(id@, allowed, dm_rooms) {
            exists|k: int|
                0 <= k <= ms.len() && joined_batch_ok(
                    ms.take(k),
                    rooms.drop_last(),
                    allowed,
                    dm_rooms,
                    own_user,
                ) && timeline_batch_ok(
                    ms.skip(k),
                    timeline_events(data),
                    id@,
                    dm_rooms.contains(id@),
                    own_user,
                )
        } else {
            joined_batch_ok(ms, rooms.drop_last(), allowed, dm_rooms, own_user)
        }
    }
}

/// Whether some room of the sync is in the allow-list or the DM rooms.
pub open spec fn filtered_room_present(
    rooms: Seq<(String, Json)>,
    allowed: Seq<Seq<char>>,
    dm_rooms: Seq<Seq<char>>,
) -> bool {
    exists|i: int|
        0 <= i < rooms.len() && (allowed.contains(#[trigger] rooms[i].0@) || dm_rooms.contains(
            rooms[i].0@,
        ))
}

/// Whether the sync token may advance: messages were read, or a filtered
/// room took part in the sync, or no filter is configured. (Otherwise the
/// sync held only rooms that are not read, and advancing would skip their
/// later messages.)
pub open spec fn may_advance(
    read_any: bool,
    rooms: Seq<(String, Json)>,
    allowed: Seq<Seq<char>>,
    dm_rooms: Seq<Seq<char>>,
) -> bool {
    let filtered = allowed.len() > 0 || dm_rooms.len() > 0;
    read_any || (filtered && filtered_room_present(rooms, allowed, dm_rooms)) || !filtered
}

fn cli_message(v: &Json, e: RoomEvent, room_id: &String, is_dm: bool) -> (m: Message)
    requires
        room_event_ok(Some(e), *v),
        e.body is Some,
    ensures
        cli_message_ok(m, *v, room_id@, is_dm),
{
    let content = match e.body {
        Some(b) => b,
        None => String::new(),
    };
    Message {
        id: e.event_id,
        sender: e.sender,
        content,
        timestamp: (e.origin_server_ts / 1000) as i64,
        channel: Some(room_id.clone()),
        reply_to: None,
        thread_id: None,
        media: None,
        is_direct: is_dm,
        message_type: MessageType::Text,
        edited_timestamp: None,
        reactions: None,
    }
}

/// Reads a room's timeline entries.
fn timeline_messages(
    room: &Json,
    room_id: &String,
    is_dm: bool,
    own_user: &str,
    out: &mut Vec<Message>,
)
    ensures
        final(out)@.take(old(out)@.len() as int) == old(out)@,
        old(out)@.len() <= final(out)@.len(),
        timeline_batch_ok(
            final(out)@.skip(old(out)@.len() as int),
            timeline_events(*room),
            room_id@,
            is_dm,
            own_user@,
        ),
{
    let ghost start = out@;
    let ghost k = out@.len() as int;
    let empty: Vec<Json> = Vec::new();
    let events: &Vec<Json> = match crate::json::get_opt(room.get("timeline"), "events") {
        Some(v) => match v.as_array() {
            Some(items) => items,
            None => &empty,
        },
        None => &empty,
    };
    assert(events@ == timeline_events(*room));
    let mut i: usize = 0;
    assert(events@.take(0) =~= Seq::<Json>::empty());
    assert(out@.skip(k) =~= Seq::<Message>::empty());
    assert(out@.take(k) =~= start);
    while i < events.len()
        invariant
            i <= events@.len(),
            k == start.len(),
            k <= out@.len(),
            out@.take(k) == start,
            timeline_batch_ok(out@.skip(k), events@.take(i as int), room_id@, is_dm, own_user@),
        decreases events@.len() - i,
    {
        let v = &events[i];
        assert(events@.take(i + 1).drop_last() =~= events@.take(i as int));
        assert(events@.take(i + 1).last() == *v);
        match room_event(v) {
            Some(e) => {
                if !str_eq(e.sender.as_str(), own_user) && str_eq(e.event_type.as_str(), "m.room.message")
                    && e.body.is_some() {
                    let ghost before = out@;
                    let m = cli_message(v, e, room_id, is_dm);
                    out.push(m);
                    assert(out@.take(k) =~= before.take(k));
                    assert(out@.skip(k).drop_last() =~= before.skip(k));
                    assert(out@.skip(k).last() == out@.last());
                }
            },
            None => {},
        }
        i += 1;
    }
    assert(events@.take(events@.len() as int) =~= events@);
}

/// Reads a sync's joined rooms: the messages of the rooms that are read,
/// and whether the sync token may advance.
pub fn sync_messages(
    joined: &Vec<(String, Json)>,
    allowed_chats: &Vec<String>,
    dm_rooms: &Vec<String>,
    own_user: &str,
) -> (r: (Vec<Message>, bool))
    ensures
        joined_batch_ok(
            r.0@,
            joined@,
            string_views(allowed_chats@),
            string_views(dm_rooms@),
            own_user@,
        ),
        r.1 == may_advance(
            r.0@.len() > 0,
            joined@,
            string_views(allowed_chats@),
            string_views(dm_rooms@),
        ),
{
    let ghost allowed = string_views(allowed_chats@);
    let ghost dms = string_views(dm_rooms@);
    let has_filters = allowed_chats.len() > 0 || dm_rooms.len() > 0;
    let mut present = false;
    let mut out: Vec<Message> = Vec::new();
    let mut r: usize = 0;
    assert(joined@.take(0) =~= Seq::<(String, Json)>::empty());
    while r < joined.len()
        invariant
            r <= joined@.len(),
            allowed == string_views(allowed_chats@),
            dms == string_views(dm_rooms@),
            has_filters == (allowed.len() > 0 || dms.len() > 0),
            joined_batch_ok(out@, joined@.take(r as int), allowed, dms, own_user@),
            present == (has_filters && filtered_room_present(joined@.take(r as int), allowed, dms)),
        decreases joined@.len() - r,
    {
        let room_id = &joined[r].0;
        let room = &joined[r].1;
        assert(joined@.take(r + 1).drop_last() =~= joined@.take(r as int));
        assert(joined@.take(r + 1).last() == joined@[r as int]);
        let in_allowed = holds(allowed_chats, room_id.as_str());
        let in_dm = holds(dm_rooms, room_id.as_str());
        proof {
            if filtered_room_present(joined@.take(r as int), allowed, dms) {
                let i = choose|i: int|
                    0 <= i < joined@.take(r as int).len() && (allowed.contains(
                        #[trigger] joined@.take(r as int)[i].0@,
                    ) || dms.contains(joined@.take(r as int)[i].0@));
                assert(joined@.take(r + 1)[i] == joined@.take(r as int)[i]);
            }
            if in_allowed || in_dm {
                assert(joined@.take(r + 1)[r as int] == joined@[r as int]);
            }
            if filtered_room_present(joined@.take(r + 1), allowed, dms) && !(in_allowed || in_dm) {
                let i = choose|i: int|
                    0 <= i < joined@.take(r + 1).len() && (allowed.contains(
                        #[trigger] joined@.take(r + 1)[i].0@,
                    ) || dms.contains(joined@.take(r + 1)[i].0@));
                assert(joined@.take(r as int)[i] == joined@.take(r + 1)[i]);
            }
        }
        if has_filters && !(in_allowed || in_dm) {
            r += 1;
            continue;
        }
        if has_filters {
            present = true;
        }
        let ghost before = out@;
        timeline_messages(room, room_id, in_dm, own_user, &mut out);
        assert(out@.take(before.len() as int) == before);
        r += 1;
    }
    assert(joined@.take(joined@.len() as int) =~= joined@);
    let advance = out.len() > 0 || present || !has_filters;
    (out, advance)
}

proof fn lemma_timeline_batch_senders(
    ms: Seq<Message>,
    vs: Seq<Json>,
    room: Seq<char>,
    is_dm: bool,
    own_user: Seq<char>,
)
    requires
        timeline_batch_ok(ms, vs, room, is_dm, own_user),
    ensures
        forall|i: int|
            0 <= i < ms.len() ==> (#[trigger] ms[i]).sender@ != own_user && opt_str(ms[i].channel)
                == Some(room),
    decreases vs.len(),
{
    if vs.len() > 0 {
        if entry_kept(vs.last(), own_user) {
            lemma_timeline_batch_senders(ms.drop_last(), vs.drop_last(), room, is_dm, own_user);
            assert forall|i: int| 0 <= i < ms.len() implies (#[trigger] ms[i]).sender@ != own_user
                && opt_str(ms[i].channel) == Some(room) by {
                if i < ms.len() - 1 {
                    assert(ms[i] == ms.drop_last()[i]);
                }
            }
        } else {
            lemma_timeline_batch_senders(ms, vs.drop_last(), room, is_dm, own_user);
        }
    }
}

/// A sync never reports the client's own messages, and reports only
/// messages of rooms that are read.
pub proof fn lemma_sync_skips_own_and_unread(
    ms: Seq<Message>,
    rooms: Seq<(String, Json)>,
    allowed: Seq<Seq<char>>,
    dm_rooms: Seq<Seq<char>>,
    own_user: Seq<char>,
)
    requires
        joined_batch_ok(ms, rooms, allowed, dm_rooms, own_user),
    ensures
        forall|i: int|
            0 <= i < ms.len() ==> (#[trigger] ms[i]).sender@ != own_user && opt_str(ms[i].channel)
                is Some && room_read(opt_str(ms[i].channel)->0, allowed, dm_rooms),
    decreases rooms.len(),
{
    if rooms.len() > 0 {
        let (id, data) = rooms.last();
        if room_read(id@, allowed, dm_rooms) {
            let k = choose|k: int|
                0 <= k <= ms.len() && joined_batch_ok(
                    ms.take(k),
                    rooms.drop_last(),
                    allowed,
                    dm_rooms,
                    own_user,
                ) && timeline_batch_ok(
                    ms.skip(k),
                    timeline_events(data),
                    id@,
                    dm_rooms.contains(id@),
                    own_user,
                );
            lemma_sync_skips_own_and_unread(ms.take(k), rooms.drop_last(), allowed, dm_rooms, own_user);
            lemma_timeline_batch_senders(
                ms.skip(k),
                timeline_events(data),
                id@,
                dm_rooms.contains(id@),
                own_user,
            );
            assert forall|i: int| 0 <= i < ms.len() implies (#[trigger] ms[i]).sender@ != own_user
                && opt_str(ms[i].channel) is Some && room_read(
                opt_str(ms[i].channel)->0,
                allowed,
                dm_rooms,
            ) by {
                if i < k {
                    assert(ms[i] == ms.take(k)[i]);
                } else {
                    assert(ms[i] == ms.skip(k)[i - k]);
                }
            }
        } else {
            lemma_sync_skips_own_and_unread(ms, rooms.drop_last(), allowed, dm_rooms, own_user);
        }
    }
}

/// The rooms already joined that are taken as DM rooms when DMs are
/// enabled: those not in the allow-list, in order.
pub open spec fn initial_dm_rooms(joined: Seq<Seq<char>>, allowed: Seq<Seq<char>>) -> Seq<Seq<char>>
    decreases joined.len(),
{
    if joined.len() == 0 {
        Seq::empty()
    } else {
        let prev = initial_dm_rooms(joined.drop_last(), allowed);
        if allowed.contains(joined.last()) {
            prev
        } else {
            prev.push(joined.last())
        }
    }
}

/// Picks the joined rooms that are not in the allow-list.
pub fn dm_rooms_from_joined(joined: &Vec<String>, allowed_chats: &Vec<String>) -> (r: Vec<String>)
    ensures
        string_views(r@) == initial_dm_rooms(string_views(joined@), string_views(allowed_chats@)),
{
    let mut out: Vec<String> = Vec::new();
    let mut i: usize = 0;
    assert(string_views(joined@).take(0) =~= Seq::<Seq<char>>::empty());
    while i < joined.len()
        invariant
            i <= joined@.len(),
            string_views(out@) == initial_dm_rooms(
                string_views(joined@).take(i as int),
                string_views(allowed_chats@),
            ),
        decreases joined@.len() - i,
    {
        let ghost js = string_views(joined@);
        assert(js.take(i + 1).drop_last() =~= js.take(i as int));
        assert(js.take(i + 1).last() == joined@[i as int]@);
        if !holds(allowed_chats, joined[i].as_str()) {
            let ghost before = out@;
            out.push(joined[i].clone());
            assert(string_views(out@) =~= string_views(before).push(joined@[i as int]@));
        }
        i += 1;
    }
    assert(string_views(joined@).take(joined@.len() as int) =~= string_views(joined@));
    out
}

/// The sync URL: `since` the last token and with a `timeout`, where given.
pub fn sync_url(homeserver: &str, since: Option<&str>, timeout_ms: Option<u64>) -> (url: String)
    ensures
        url@ == homeserver@ + "/_matrix/client/v3/sync"@ + (match (since, timeout_ms) {
            (Some(s), Some(t)) => "?since="@ + s@ + "&timeout="@ + decimal(t as nat),
            (Some(s), None) => "?since="@ + s@,
            (None, Some(t)) => "?timeout="@ + decimal(t as nat),
            (None, None) => Seq::empty(),
        }),
{
    let mut url = homeserver.to_owned();
    url.append("/_matrix/client/v3/sync");
    match since {
        Some(s) => {
            url.append("?since=");
            url.append(s);
            match timeout_ms {
                Some(t) => {
                    url.append("&timeout=");
                    url.append(u64_to_string(t).as_str());
                },
                None => {},
            }
        },
        None => match timeout_ms {
            Some(t) => {
                url.append("?timeout=");
                url.append(u64_to_string(t).as_str());
            },
            None => {},
        },
    }
    url
}

/// The room-join URL.
pub fn join_url(homeserver: &str, room_id: &str) -> (url: String)
    ensures
        url@ == homeserver@ + "/_matrix/client/v3/rooms/"@ + percent_encoded(room_id@) + "/join"@,
{
    let mut url = homeserver.to_owned();
    url.append("/_matrix/client/v3/rooms/");
    url.append(url_encode(room_id).as_str());
    url.append("/join");
    url
}

/// The joined-rooms URL.
pub fn joined_rooms_url(homeserver: &str) -> (url: String)
    ensures
        url@ == homeserver@ + "/_matrix/client/v3/joined_rooms"@,
{
    let mut url = homeserver.to_owned();
    url.append("/_matrix/client/v3/joined_rooms");
    url
}

/// The room to look up in the room directory: `Some` URL for an alias
/// (`#...`); `None` where `room` is used as the room ID itself.
pub fn alias_lookup_url(homeserver: &str, room: &str) -> (url: Option<String>)
    ensures
        url is Some <==> (room@.len() > 0 && room@[0] == '#'),
        url is Some ==> url->0@ == homeserver@ + "/_matrix/client/v3/directory/room/"@
            + percent_encoded(room@),
{
    if room.unicode_len() > 0 && room.get_char(0) == '#' {
        let mut url = homeserver.to_owned();
        url.append("/_matrix/client/v3/directory/room/");
        url.append(url_encode(room).as_str());
        Some(url)
    } else {
        None
    }
}

/// The room ID in a room-directory reply.
pub fn directory_room_id(reply: &Json) -> (r: Result<String, &'static str>)
    ensures
        r is Ok <==> jstr(jget(*reply, "room_id"@)) is Some,
        r is Ok ==> r->Ok_0@ == jstr(jget(*reply, "room_id"@))->0,
{
    match str_opt(reply.get("room_id")) {
        Some(id) => Ok(id.to_owned()),
        None => Err("Room ID not found in response"),
    }
}

/// The typing-notification URL of a user in a room.
pub fn typing_url(homeserver: &str, room_id: &str, user_id: &str) -> (url: String)
    ensures
        url@ == homeserver@ + "/_matrix/client/v3/rooms/"@ + percent_encoded(room_id@) + "/typing/"@
            + percent_encoded(user_id@),
{
    let mut url = homeserver.to_owned();
    url.append("/_matrix/client/v3/rooms/");
    url.append(url_encode(room_id).as_str());
    url.append("/typing/");
    url.append(url_encode(user_id).as_str());
    url
}

/// The URL that sends a message event with transaction ID `txn_id`.
pub fn send_url(homeserver: &str, room_id: &str, txn_id: u64) -> (url: String)
    ensures
        url@ == homeserver@ + "/_matrix/client/v3/rooms/"@ + percent_encoded(room_id@)
            + "/send/m.room.message/"@ + decimal(txn_id as nat),
{
    let mut url = homeserver.to_owned();
    url.append("/_matrix/client/v3/rooms/");
    url.append(url_encode(room_id).as_str());
    url.append("/send/m.room.message/");
    url.append(u64_to_string(txn_id).as_str());
    url
}

/// The content of a text message whose HTML form is `html`, replying to an
/// event where given.
pub open spec fn message_content_view(body: Seq<char>, html: Seq<char>, reply_to: Option<Seq<char>>) -> JsonView {
    let base = seq![
        ("msgtype"@, JsonView::Str("m.text"@)),
        ("body"@, JsonView::Str(body)),
        ("format"@, JsonView::Str("org.matrix.custom.html"@)),
        ("formatted_body"@, JsonView::Str(html)),
    ];
    match reply_to {
        Some(e) => JsonView::Object(base.push((
            "m.relates_to"@,
            JsonView::Object(seq![("m.in_reply_to"@, JsonView::Object(seq![("event_id"@, JsonView::Str(e))]))]),
        ))),
        None => JsonView::Object(base),
    }
}

/// The content of a text message, given its HTML form.
pub fn message_content(body: &str, html: &str, reply_to: Option<&str>) -> (j: Json)
    ensures
        jview(j) == message_content_view(body@, html@, opt_text(reply_to)),
{
    let base = object4(
        "msgtype",
        str_value("m.text"),
        "body",
        str_value(body),
        "format",
        str_value("org.matrix.custom.html"),
        "formatted_body",
        str_value(html),
    );
    match reply_to {
        Some(e) => {
            let relates = object1("m.in_reply_to", object1("event_id", str_value(e)));
            let j = with_member(base, "m.relates_to", relates);
            j
        },
        None => base,
    }
}

/// The content of a text message: its Markdown body rendered as HTML.
pub fn formatted_message_content(body: &str, reply_to: Option<&str>) -> (j: Json)
    ensures
        jview(j) == message_content_view(body@, commonmark_html(body@), opt_text(reply_to)),
{
    let html = markdown_html(body);
    message_content(body, html.as_str(), reply_to)
}

/// The password login request of the direct-HTTP client.
pub fn cli_login_body(user_id: &str, password: &str) -> (j: Json)
    ensures
        jview(j) == JsonView::Object(
            seq![
                ("type"@, JsonView::Str("m.login.password"@)),
                ("user"@, JsonView::Str(user_id@)),
                ("password"@, JsonView::Str(password@)),
                ("initial_device_display_name"@, JsonView::Str("chat-system Matrix CLI"@)),
            ],
        ),
{
    object4(
        "type",
        str_value("m.login.password"),
        "user",
        str_value(user_id),
        "password",
        str_value(password),
        "initial_device_display_name",
        str_value("chat-system Matrix CLI"),
    )
}

/// The login URL.
pub fn login_url(homeserver: &str) -> (url: String)
    ensures
        url@ == homeserver@ + "/_matrix/client/v3/login"@,
{
    let mut url = homeserver.to_owned();
    url.append("/_matrix/client/v3/login");
    url
}

/// The logout URL.
pub fn logout_url(homeserver: &str) -> (url: String)
    ensures
        url@ == homeserver@ + "/_matrix/client/v3/logout"@,
{
    let mut url = homeserver.to_owned();
    url.append("/_matrix/client/v3/logout");
    url
}

/// The access token and device ID of a login reply, when it holds both as
/// strings.
pub fn login_reply(reply: &Json) -> (r: Option<(String, String)>)
    ensures
        r is Some <==> (jstr(jget(*reply, "access_token"@)) is Some && jstr(jget(*reply, "device_id"@)) is Some),
        r matches Some((t, d)) ==> t@ == jstr(jget(*reply, "access_token"@))->0 && d@ == jstr(
            jget(*reply, "device_id"@),
        )->0,
{
    match (str_opt(reply.get("access_token")), str_opt(reply.get("device_id"))) {
        (Some(t), Some(d)) => Some((t.to_owned(), d.to_owned())),
        _ => None,
    }
}

/// What `initialize` does about credentials: log in first (`Ok(true)`) when
/// there is no token but a password; go on with the token (`Ok(false)`); or
/// fail when there is neither.
pub fn login_needed(has_token: bool, has_password: bool) -> (r: Result<bool, &'static str>)
    ensures
        has_token ==> r == Ok::<bool, &'static str>(false),
        !has_token && has_password ==> r == Ok::<bool, &'static str>(true),
        r is Err <==> (!has_token && !has_password),
{
    if has_token {
        Ok(false)
    } else if has_password {
        Ok(true)
    } else {
        Err("No access token available and no password provided")
    }
}

/// Whether the messenger counts as connected: initialized and holding an
/// access token.
pub fn connected_with_token(connected: bool, access_token: Option<&str>) -> (b: bool)
    ensures
        b == (connected && access_token is Some),
{
    connected && access_token.is_some()
}

/// The object members of `v`, where it is an object.
pub open spec fn object_members(v: Option<Json>) -> Option<Seq<(String, Json)>> {
    match v {
        Some(Json::Object(ms)) => Some(ms@),
        _ => None,
    }
}

/// The `next_batch` token of a sync response, or why there is none.
pub fn sync_next_batch(body: &Json) -> (r: Result<&str, &'static str>)
    ensures
        match jstr(jget(*body, "next_batch"@)) {
            Some(t) => r matches Ok(x) && x@ == t,
            None => r matches Err(e) && e@ == "Invalid sync response: missing next_batch"@,
        },
{
    match str_opt(body.get("next_batch")) {
        Some(t) => Ok(t),
        None => Err("Invalid sync response: missing next_batch"),
    }
}

/// The rooms of one section (`join`, `invite`) of a sync response: the
/// members of `rooms.<section>`, where that is an object.
pub fn sync_rooms<'a>(body: &'a Json, section: &str) -> (r: Option<&'a Vec<(String, Json)>>)
    ensures
        match r {
            Some(ms) => object_members(jget_opt(jget(*body, "rooms"@), section@)) == Some(ms@),
            None => object_members(jget_opt(jget(*body, "rooms"@), section@)) is None,
        },
{
    match crate::json::get_opt(body.get("rooms"), section) {
        Some(Json::Object(ms)) => Some(ms),
        _ => None,
    }
}

} // verus!
