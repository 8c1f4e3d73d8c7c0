//! Discord decisions: REST URLs and headers, the gateway handshake
//! payloads, and the gateway session that tracks the sequence number and
//! turns dispatched events into messages, heartbeats or a stop.
use vstd::prelude::*;
use crate::json::{
    deref_opt, get_opt, int_value, int_view, jget, jget_opt, jnull, jstr, ju64, jview, object1, object2,
    object3, str_opt, str_value, Json, JsonView,
};
use crate::json_codec::{json_string, json_text, read_json, write_json};
use crate::message::{opt_str, Message, MessageType};
use crate::text::{join_url, url_join};
use crate::timestamp::{seconds_or_now, time_or_now};

verus! {

/// The default REST API base.
pub fn default_api_base() -> (s: &'static str)
    ensures
        s@ == "https://discord.com/api/v10"@,
{
    "https://discord.com/api/v10"
}

/// The URL of a REST path under the API base.
pub fn api_url(base: &str, path: &str) -> (url: String)
    ensures
        url@ == url_join(base@, path@),
{
    join_url(base, path)
}

/// The `Authorization` header of a bot token.
pub fn authorization_header(token: &str) -> (h: String)
    ensures
        h@ == "Bot "@ + token@,
{
    let mut h = "Bot ".to_owned();
    h.append(token);
    h
}

/// The REST path that posts a message to a channel.
pub fn messages_path(channel_id: &str) -> (p: String)
    ensures
        p@ == "channels/"@ + channel_id@ + "/messages"@,
{
    let mut p = "channels/".to_owned();
    p.append(channel_id);
    p.append("/messages");
    p
}

/// The REST path that shows the typing indicator in a channel.
pub fn typing_path(channel_id: &str) -> (p: String)
    ensures
        p@ == "channels/"@ + channel_id@ + "/typing"@,
{
    let mut p = "channels/".to_owned();
    p.append(channel_id);
    p.append("/typing");
    p
}

/// The gateway URL of a `gateway/bot` response, with the protocol version
/// and encoding; an error when it has no `url`.
pub fn gateway_url_of(payload: &Json) -> (r: Result<String, &'static str>)
    ensures
        match r {
            Ok(u) => jstr(jget(*payload, "url"@)) is Some && u@ == jstr(jget(*payload, "url"@))->0
                + "?v=10&encoding=json"@,
            Err(e) => jstr(jget(*payload, "url"@)) is None && e@
                == "Discord gateway response missing url"@,
        },
{
    match str_opt(payload.get("url")) {
        Some(u) => {
            let mut url = u.to_owned();
            url.append("?v=10&encoding=json");
            Ok(url)
        },
        None => Err("Discord gateway response missing url"),
    }
}

/// The heartbeat interval announced by the gateway's HELLO.
pub fn heartbeat_interval(hello: &Json) -> (r: Option<u64>)
    ensures
        r == ju64(jget_opt(jget(*hello, "d"@), "heartbeat_interval"@)),
{
    match get_opt(hello.get("d"), "heartbeat_interval") {
        Some(v) => v.as_u64(),
        None => None,
    }
}

/// What reading a HELLO frame's text gives: its heartbeat interval, or
/// why there is none.
pub open spec fn hello_outcome(text: Seq<char>) -> Result<u64, Seq<char>> {
    match json_text(text) {
        None => Err("Invalid Discord HELLO payload"@),
        Some(h) => match ju64(jget_opt(jget(h, "d"@), "heartbeat_interval"@)) {
            Some(i) => Ok(i),
            None => Err("Discord HELLO missing heartbeat_interval"@),
        },
    }
}

/// Reads the text of the gateway's HELLO frame: the heartbeat interval it
/// announces.
pub fn hello_interval(text: &str) -> (r: Result<u64, &'static str>)
    ensures
        match r {
            Ok(i) => hello_outcome(text@) == Ok::<u64, Seq<char>>(i),
            Err(e) => hello_outcome(text@) == Err::<u64, Seq<char>>(e@),
        },
{
    match read_json(text) {
        None => Err("Invalid Discord HELLO payload"),
        Some(h) => match heartbeat_interval(&h) {
            Some(i) => Ok(i),
            None => Err("Discord HELLO missing heartbeat_interval"),
        },
    }
}

/// The id of a sent message (`id`), or empty.
pub fn sent_message_id(data: &Json) -> (id: String)
    ensures
        id@ == (match jstr(jget(*data, "id"@)) {
            Some(i) => i,
            None => Seq::empty(),
        }),
{
    match str_opt(data.get("id")) {
        Some(i) => i.to_owned(),
        None => String::new(),
    }
}

/// The IDENTIFY payload: the token, the intents (guild messages and
/// guilds) and the client properties, `os` being the running system.
pub open spec fn identify_view(token: Seq<char>, os: Seq<char>) -> JsonView {
    JsonView::Object(
        seq![
            ("op"@, int_view(2)),
            (
                "d"@,
                JsonView::Object(
                    seq![
                        ("token"@, JsonView::Str(token)),
                        ("intents"@, int_view(513)),
                        (
                            "properties"@,
                            JsonView::Object(
                                seq![
                                    ("os"@, JsonView::Str(os)),
                                    ("browser"@, JsonView::Str("chat-system"@)),
                                    ("device"@, JsonView::Str("chat-system"@)),
                                ],
                            ),
                        ),
                    ],
                ),
            ),
        ],
    )
}

/// Builds the IDENTIFY payload.
pub fn identify_payload(token: &str, os: &str) -> (j: Json)
    ensures
        jview(j) == identify_view(token@, os@),
{
    let props = object3(
        "os",
        str_value(os),
        "browser",
        str_value("chat-system"),
        "device",
        str_value("chat-system"),
    );
    let d = object3("token", str_value(token), "intents", int_value(513), "properties", props);
    object2("op", int_value(2), "d", d)
}

/// The text of the IDENTIFY frame.
pub fn identify_frame(token: &str, os: &str) -> (s: String)
    ensures
        s@ == json_string(identify_view(token@, os@)),
{
    write_json(&identify_payload(token, os))
}

/// The heartbeat payload for the last sequence number received: op 1 with
/// that number, or null before any.
pub open spec fn heartbeat_view(last: Option<JsonView>) -> JsonView {
    JsonView::Object(
        seq![
            ("op"@, int_view(1)),
            (
                "d"@,
                match last {
                    Some(s) => s,
                    None => JsonView::Null,
                },
            ),
        ],
    )
}

/// What the gateway loop does after a payload.
#[derive(Debug)]
pub enum GatewayAction {
    /// Queue this message for the next receive.
    Queue(Message),
    /// Send a heartbeat now.
    Heartbeat,
    /// Close the connection (reconnect or invalid session).
    Stop,
    /// Nothing.
    Nothing,
}

/// The message of a MESSAGE_CREATE event's data, read at `now_s` (used
/// when the event carries no parsable timestamp).
pub open spec fn discord_message_ok(m: Message, d: Option<Json>, now_s: i64) -> bool {
    let guild = jget_opt(d, "guild_id"@);
    &&& m.id@ == (match jstr(jget_opt(d, "id"@)) {
        Some(i) => i,
        None => Seq::empty(),
    })
    &&& m.sender@ == (match jstr(jget_opt(jget_opt(d, "author"@), "username"@)) {
        Some(u) => u,
        None => "unknown"@,
    })
    &&& m.content@ == (match jstr(jget_opt(d, "content"@)) {
        Some(c) => c,
        None => Seq::empty(),
    })
    &&& m.timestamp == seconds_or_now(jstr(jget_opt(d, "timestamp"@)), now_s)
    &&& opt_str(m.channel) == jstr(jget_opt(d, "channel_id"@))
    &&& opt_str(m.reply_to) == jstr(jget_opt(jget_opt(d, "message_reference"@), "message_id"@))
    &&& m.thread_id is None
    &&& m.media is None
    &&& m.is_direct == (guild is None || jnull(guild))
    &&& m.message_type == MessageType::Text
    &&& m.edited_timestamp is None
    &&& m.reactions is None
}

/// The sequence number kept after a payload: its `s` when that is not null.
pub open spec fn next_sequence(seq: Option<JsonView>, payload: Json) -> Option<JsonView> {
    match jget(payload, "s"@) {
        Some(s) => if jnull(Some(s)) {
            seq
        } else {
            Some(jview(s))
        },
        None => seq,
    }
}

/// What a gateway payload asks for: a dispatched MESSAGE_CREATE is queued,
/// a heartbeat request (op 1) is answered, a reconnect (op 7) or invalid
/// session (op 9) stops the loop.
pub open spec fn gateway_action_ok(a: GatewayAction, payload: Json, now_s: i64) -> bool {
    match crate::json::ji64(jget(payload, "op"@)) {
        Some(0) => if jstr(jget(payload, "t"@)) == Some("MESSAGE_CREATE"@) {
            a matches GatewayAction::Queue(m) && discord_message_ok(m, jget(payload, "d"@), now_s)
        } else {
            a is Nothing
        },
        Some(1) => a is Heartbeat,
        Some(7) | Some(9) => a is Stop,
        _ => a is Nothing,
    }
}

/// The gateway session state: the last sequence number received.
pub struct GatewaySession {
    sequence: Option<Json>,
}

impl View for GatewaySession {
    type V = Option<JsonView>;

    closed spec fn view(&self) -> Option<JsonView> {
        match self.sequence {
            Some(s) => Some(jview(s)),
            None => None,
        }
    }
}

/// Reads a MESSAGE_CREATE event's data.
fn discord_message(d: Option<&Json>, now_s: i64) -> (m: Message)
    ensures
        discord_message_ok(m, deref_opt(d), now_s),
{
    let id = match str_opt(get_opt(d, "id")) {
        Some(i) => i.to_owned(),
        None => String::new(),
    };
    let sender = match str_opt(get_opt(get_opt(d, "author"), "username")) {
        Some(u) => u.to_owned(),
        None => "unknown".to_owned(),
    };
    let content = match str_opt(get_opt(d, "content")) {
        Some(c) => c.to_owned(),
        None => String::new(),
    };
    let timestamp = time_or_now(str_opt(get_opt(d, "timestamp")), now_s);
    let channel = match str_opt(get_opt(d, "channel_id")) {
        Some(c) => Some(c.to_owned()),
        None => None,
    };
    let reply_to = match str_opt(get_opt(get_opt(d, "message_reference"), "message_id")) {
        Some(r) => Some(r.to_owned()),
        None => None,
    };
    let is_direct = match get_opt(d, "guild_id") {
        Some(g) => g.is_null(),
        None => true,
    };
    Message {
        id,
        sender,
        content,
        timestamp,
        channel,
        reply_to,
        thread_id: None,
        media: None,
        is_direct,
        message_type: MessageType::Text,
        edited_timestamp: None,
        reactions: None,
    }
}

impl GatewaySession {
    /// A session that has received no sequence number.
    pub fn new() -> (s: GatewaySession)
        ensures
            s@ is None,
    {
        GatewaySession { sequence: None }
    }

    /// Reads one gateway payload, received at `now_s`.
    pub fn on_payload(&mut self, payload: &Json, now_s: i64) -> (a: GatewayAction)
        ensures
            final(self)@ == next_sequence(old(self)@, *payload),
            gateway_action_ok(a, *payload, now_s),
    {
        match payload.get("s") {
            Some(s) => {
                if !s.is_null() {
                    self.sequence = Some(s.duplicate());
                }
            },
            None => {},
        }
        match crate::json::i64_opt(payload.get("op")) {
            Some(0) => {
                match str_opt(payload.get("t")) {
                    Some(t) => {
                        if crate::text::str_eq(t, "MESSAGE_CREATE") {
                            return GatewayAction::Queue(discord_message(payload.get("d"), now_s));
                        }
                    },
                    None => {},
                }
                GatewayAction::Nothing
            },
            Some(1) => GatewayAction::Heartbeat,
            Some(7) => GatewayAction::Stop,
            Some(9) => GatewayAction::Stop,
            _ => GatewayAction::Nothing,
        }
    }

    /// Reads the text of one gateway frame, received at `now_s`: what to
    /// do, or `None` (and no change) where the text is not JSON.
    pub fn on_frame(&mut self, text: &str, now_s: i64) -> (a: Option<GatewayAction>)
        ensures
            match json_text(text@) {
                Some(p) => {
                    &&& final(self)@ == next_sequence(old(self)@, p)
                    &&& a matches Some(x) && gateway_action_ok(x, p, now_s)
                },
                None => a is None && final(self)@ == old(self)@,
            },
    {
        match read_json(text) {
            Some(p) => Some(self.on_payload(&p, now_s)),
            None => None,
        }
    }

    /// The text of the heartbeat frame.
    pub fn heartbeat_frame(&self) -> (s: String)
        ensures
            s@ == json_string(heartbeat_view(self@)),
    {
        let j = self.heartbeat_payload();
        write_json(&j)
    }

    /// The heartbeat payload: op 1 with the last sequence number, or null.
    pub fn heartbeat_payload(&self) -> (j: Json)
        ensures
            jview(j) == heartbeat_view(self@),
    {
        let d = match &self.sequence {
            Some(s) => s.duplicate(),
            None => Json::Null,
        };
        let ghost dv = jview(d);
        assert(dv == (match self@ {
            Some(s) => s,
            None => JsonView::Null,
        }));
        let op = int_value(1);
        let ghost ov = jview(op);
        let j = object2("op", op, "d", d);
        assert(jview(j) == JsonView::Object(seq![("op"@, ov), ("d"@, dv)]));
        assert(ov == int_view(1));
        assert(seq![("op"@, ov), ("d"@, dv)] =~= seq![
            ("op"@, int_view(1)),
            (
                "d"@,
                match self@ {
                    Some(s) => s,
                    None => JsonView::Null,
                },
            ),
        ]);
        let ghost hv = heartbeat_view(self@);
        assert(hv matches JsonView::Object(ms) && ms =~= seq![("op"@, ov), ("d"@, dv)]);
        j
    }
}

/// The body of a message sent to a channel.
pub fn message_body(content: &str) -> (j: Json)
    ensures
        jview(j) == JsonView::Object(seq![("content"@, JsonView::Str(content@))]),
{
    object1("content", str_value(content))
}

} // verus!
