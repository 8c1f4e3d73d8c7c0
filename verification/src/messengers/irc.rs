//! IRC client decisions: the settings of a connection, the lines it sends,
//! how it registers (nick collisions, PING), how it reads incoming lines
//! (PRIVMSG, NOTICE, CTCP ACTION and requests) and which CTCP requests it
//! answers.
use vstd::prelude::*;
use crate::message::{Message, MessageType};
use crate::number::{decimal, decimal_int, i64_to_string, u64_to_string};
use crate::text::{
    before_first, chars_of, contains, contains_str, ends_with, find, find_in, matches_at,
    slice_of, starts_with, string_of, strip_leading, strip_leading_range, strip_trailing,
    strip_trailing_range, trim, trim_range,
};

verus! {

/// The CTCP delimiter, as text.
pub open spec fn ctcp_delim() -> Seq<char> {
    seq!['\x01']
}

/// The views of a sequence of strings.
pub open spec fn texts(v: Seq<String>) -> Seq<Seq<char>> {
    v.map_values(|s: String| s@)
}

// ── settings ──────────────────────────────────────────────────────────────────

/// The settings of an IRC client connection.
#[derive(Debug, Clone)]
pub struct IrcSettings {
    pub name: String,
    pub server: String,
    pub port: u16,
    pub nick: String,
    /// Server password, sent with PASS before NICK/USER.
    pub password: Option<String>,
    pub channels: Vec<String>,
    pub use_tls: bool,
    /// Maximum number of nick retries on ERR_NICKNAMEINUSE (433).
    pub nick_retries: u32,
    /// Whether to answer CTCP VERSION / PING / TIME queries.
    pub ctcp_replies: bool,
    /// CTCP VERSION reply string.
    pub ctcp_version: String,
}

impl IrcSettings {
    pub fn new(name: String, server: String, port: u16, nick: String) -> (s: IrcSettings)
        ensures
            s.name == name,
            s.server == server,
            s.port == port,
            s.nick == nick,
            s.password is None,
            s.channels@.len() == 0,
            !s.use_tls,
            s.nick_retries == 3,
            s.ctcp_replies,
            s.ctcp_version@ == "chat-system 0.1.0"@,
    {
        IrcSettings {
            name,
            server,
            port,
            nick,
            password: None,
            channels: Vec::new(),
            use_tls: false,
            nick_retries: 3,
            ctcp_replies: true,
            ctcp_version: "chat-system 0.1.0".to_owned(),
        }
    }

    /// The channels to join after registering.
    pub fn with_channels(self, channels: Vec<String>) -> (s: IrcSettings)
        ensures
            s == (IrcSettings { channels, ..self }),
    {
        IrcSettings { channels, ..self }
    }

    /// Set the server password (sent via PASS command before NICK/USER).
    pub fn with_password(self, password: String) -> (s: IrcSettings)
        ensures
            s == (IrcSettings { password: Some(password), ..self }),
    {
        IrcSettings { password: Some(password), ..self }
    }

    pub fn with_tls(self, tls: bool) -> (s: IrcSettings)
        ensures
            s == (IrcSettings { use_tls: tls, ..self }),
    {
        IrcSettings { use_tls: tls, ..self }
    }

    /// Set the maximum number of nick-retry attempts (each appends `_`).
    pub fn with_nick_retries(self, retries: u32) -> (s: IrcSettings)
        ensures
            s == (IrcSettings { nick_retries: retries, ..self }),
    {
        IrcSettings { nick_retries: retries, ..self }
    }

    /// Enable or disable automatic CTCP replies.
    pub fn with_ctcp_replies(self, enabled: bool) -> (s: IrcSettings)
        ensures
            s == (IrcSettings { ctcp_replies: enabled, ..self }),
    {
        IrcSettings { ctcp_replies: enabled, ..self }
    }

    /// Set the string returned in CTCP VERSION replies.
    pub fn with_ctcp_version(self, version: String) -> (s: IrcSettings)
        ensures
            s == (IrcSettings { ctcp_version: version, ..self }),
    {
        IrcSettings { ctcp_version: version, ..self }
    }

    /// The `host:port` address to connect to.
    pub fn address(&self) -> (a: String)
        ensures
            a@ == self.server@ + ":"@ + decimal(self.port as nat),
    {
        let mut a = self.server.clone();
        a.append(":");
        a.append(u64_to_string(self.port as u64).as_str());
        a
    }

    /// The lines that register the connection: PASS (with a password),
    /// NICK and USER.
    pub fn registration_lines(&self) -> (lines: Vec<String>)
        ensures
            texts(lines@) == (match self.password {
                Some(p) => seq!["PASS "@ + p@],
                None => Seq::empty(),
            }) + seq![
                "NICK "@ + self.nick@,
                "USER "@ + self.nick@ + " 0 * :"@ + self.nick@,
            ],
    {
        let mut lines: Vec<String> = Vec::new();
        match &self.password {
            Some(p) => {
                let mut l = "PASS ".to_owned();
                l.append(p.as_str());
                lines.push(l);
            },
            None => {},
        }
        let mut nick_line = "NICK ".to_owned();
        nick_line.append(self.nick.as_str());
        lines.push(nick_line);
        let mut user_line = "USER ".to_owned();
        user_line.append(self.nick.as_str());
        user_line.append(" 0 * :");
        user_line.append(self.nick.as_str());
        lines.push(user_line);
        assert(texts(lines@) =~= (match self.password {
            Some(p) => seq!["PASS "@ + p@],
            None => Seq::empty(),
        }) + seq!["NICK "@ + self.nick@, "USER "@ + self.nick@ + " 0 * :"@ + self.nick@]);
        lines
    }

    /// One JOIN line per configured channel, in order.
    pub fn join_lines(&self) -> (lines: Vec<String>)
        ensures
            lines@.len() == self.channels@.len(),
            forall|i: int|
                0 <= i < lines@.len() ==> (#[trigger] lines@[i])@ == "JOIN "@
                    + self.channels@[i]@,
    {
        let mut lines: Vec<String> = Vec::new();
        let mut i: usize = 0;
        while i < self.channels.len()
            invariant
                i <= self.channels@.len(),
                lines@.len() == i,
                forall|j: int|
                    0 <= j < i ==> (#[trigger] lines@[j])@ == "JOIN "@ + self.channels@[j]@,
            decreases self.channels@.len() - i,
        {
            let mut l = "JOIN ".to_owned();
            l.append(self.channels[i].as_str());
            lines.push(l);
            i += 1;
        }
        lines
    }
}

// ── outgoing lines ────────────────────────────────────────────────────────────

/// `PRIVMSG <target> :<content>`.
pub fn privmsg_line(target: &str, content: &str) -> (l: String)
    ensures
        l@ == "PRIVMSG "@ + target@ + " :"@ + content@,
{
    let mut l = "PRIVMSG ".to_owned();
    l.append(target);
    l.append(" :");
    l.append(content);
    l
}

/// The id reported for a sent message: `irc:<target>:<content>`.
pub fn sent_id(target: &str, content: &str) -> (id: String)
    ensures
        id@ == "irc:"@ + target@ + ":"@ + content@,
{
    let mut id = "irc:".to_owned();
    id.append(target);
    id.append(":");
    id.append(content);
    id
}

/// A CTCP ACTION (/me): `PRIVMSG <target> :\x01ACTION <action>\x01`.
pub fn action_line(target: &str, action: &str) -> (l: String)
    ensures
        l@ == "PRIVMSG "@ + target@ + " :\x01ACTION "@ + action@ + "\x01"@,
{
    let mut l = "PRIVMSG ".to_owned();
    l.append(target);
    l.append(" :\x01ACTION ");
    l.append(action);
    l.append("\x01");
    l
}

/// The id reported for a sent action: `irc:<target>:ACTION <action>`.
pub fn action_id(target: &str, action: &str) -> (id: String)
    ensures
        id@ == "irc:"@ + target@ + ":ACTION "@ + action@,
{
    let mut id = "irc:".to_owned();
    id.append(target);
    id.append(":ACTION ");
    id.append(action);
    id
}

/// A CTCP VERSION request.
pub fn version_request_line(target: &str) -> (l: String)
    ensures
        l@ == "PRIVMSG "@ + target@ + " :\x01VERSION\x01"@,
{
    let mut l = "PRIVMSG ".to_owned();
    l.append(target);
    l.append(" :\x01VERSION\x01");
    l
}

/// A CTCP PING request carrying the Unix time `ts`.
pub fn ping_request_line(target: &str, ts: i64) -> (l: String)
    ensures
        l@ == "PRIVMSG "@ + target@ + " :\x01PING "@ + decimal_int(ts as int) + "\x01"@,
{
    let mut l = "PRIVMSG ".to_owned();
    l.append(target);
    l.append(" :\x01PING ");
    l.append(i64_to_string(ts).as_str());
    l.append("\x01");
    l
}

/// A CTCP reply: a NOTICE with the `\x01`-delimited command and body.
pub fn ctcp_reply_line(target: &str, command: &str, body: &str) -> (l: String)
    ensures
        l@ == (if body@.len() == 0 {
            "NOTICE "@ + target@ + " :\x01"@ + command@ + "\x01"@
        } else {
            "NOTICE "@ + target@ + " :\x01"@ + command@ + " "@ + body@ + "\x01"@
        }),
{
    let mut l = "NOTICE ".to_owned();
    l.append(target);
    l.append(" :\x01");
    l.append(command);
    if !body.is_empty() {
        l.append(" ");
        l.append(body);
    }
    l.append("\x01");
    l
}

// ── registration ──────────────────────────────────────────────────────────────

/// The nick being registered and the collisions met so far.
#[derive(Debug)]
pub struct Registration {
    pub nick: String,
    pub attempts: u32,
}

/// The answer to a PING: `PONG` with the token after every leading
/// `"PING "`.
pub open spec fn pong_for(t: Seq<char>) -> Seq<char> {
    "PONG "@ + strip_leading(t, "PING "@)
}

/// Whether the PING prefix is at the start of `v[a..b]`.
pub(crate) fn starts_at(v: &Vec<char>, a: usize, b: usize, p: &Vec<char>) -> (r: bool)
    requires
        a <= b <= v.len(),
    ensures
        r == starts_with(v@.subrange(a as int, b as int), p@),
{
    if p.len() > b - a {
        return false;
    }
    let r = matches_at(v, a, p);
    assert(v@.subrange(a as int, b as int).subrange(0, p.len() as int) =~= v@.subrange(
        a as int,
        a + p.len(),
    ));
    r
}

/// `PONG <token>` for a trimmed line `v[a..b]` that starts with "PING ".
pub(crate) fn pong_range(v: &Vec<char>, a: usize, b: usize) -> (l: String)
    requires
        a <= b <= v.len(),
    ensures
        l@ == pong_for(v@.subrange(a as int, b as int)),
{
    let ping = chars_of("PING ");
    let k = strip_leading_range(v, a, b, &ping);
    let token = slice_of(v, k, b);
    let mut l = "PONG ".to_owned();
    l.append(string_of(&token).as_str());
    l
}

impl Registration {
    /// Starts registering `nick`.
    pub fn new(nick: String) -> (r: Registration)
        ensures
            r.nick == nick,
            r.attempts == 0,
    {
        Registration { nick, attempts: 0 }
    }

    /// Reads one server line while waiting for the welcome: returns whether
    /// it is the welcome (001), and the lines to send back. A nick
    /// collision (433) within the retry budget appends `_` to the nick and
    /// sends it again; a PING is answered.
    pub fn on_line(&mut self, line: &str, max_retries: u32) -> (r: (bool, Vec<String>))
        ensures
            ({
                let t = trim(line@);
                let retry = contains(t, " 433 "@) && old(self).attempts < max_retries;
                if contains(t, " 001 "@) {
                    &&& r.0
                    &&& r.1@.len() == 0
                    &&& final(self).nick@ == old(self).nick@
                    &&& final(self).attempts == old(self).attempts
                } else {
                    &&& !r.0
                    &&& final(self).attempts == (if retry {
                        old(self).attempts + 1
                    } else {
                        old(self).attempts as int
                    })
                    &&& final(self).nick@ == (if retry {
                        old(self).nick@.push('_')
                    } else {
                        old(self).nick@
                    })
                    &&& texts(r.1@) == (if retry {
                        seq!["NICK "@ + final(self).nick@]
                    } else {
                        Seq::empty()
                    }) + (if starts_with(t, "PING "@) {
                        seq![pong_for(t)]
                    } else {
                        Seq::empty()
                    })
                }
            }),
    {
        let v = chars_of(line);
        let (a, b) = trim_range(&v, 0, v.len());
        assert(v@.subrange(0, v.len() as int) =~= line@);
        let t = slice_of(&v, a, b);
        let ts = string_of(&t);
        let mut out: Vec<String> = Vec::new();
        if contains_str(ts.as_str(), " 001 ") {
            return (true, out);
        }
        if contains_str(ts.as_str(), " 433 ") && self.attempts < max_retries {
            self.attempts = self.attempts + 1;
            crate::text::string_push(&mut self.nick, '_');
            let mut l = "NICK ".to_owned();
            l.append(self.nick.as_str());
            out.push(l);
        }
        let ghost mid = out@;
        let ping = chars_of("PING ");
        if starts_at(&v, a, b, &ping) {
            out.push(pong_range(&v, a, b));
        }
        assert(texts(out@) =~= texts(mid) + (if starts_with(trim(line@), "PING "@) {
            seq![pong_for(trim(line@))]
        } else {
            Seq::empty()
        }));
        (false, out)
    }
}

// ── incoming lines ────────────────────────────────────────────────────────────

/// The text before the first space of `s` and the text after it.
pub open spec fn split_space(s: Seq<char>) -> Option<(Seq<char>, Seq<char>)> {
    match find(s, seq![' ']) {
        Some(k) => Some((s.take(k), s.skip(k + 1))),
        None => None,
    }
}

/// `s.splitn(4, ' ')` where it gives four parts.
pub open spec fn split4(s: Seq<char>) -> Option<(Seq<char>, Seq<char>, Seq<char>, Seq<char>)> {
    match split_space(s) {
        Some((a, r1)) => match split_space(r1) {
            Some((b, r2)) => match split_space(r2) {
                Some((c, d)) => Some((a, b, c, d)),
                None => None,
            },
            None => None,
        },
        None => None,
    }
}

/// What a line from the server is to the client.
#[derive(Debug)]
pub enum IrcEvent {
    /// A PING: answer with this line.
    Pong(String),
    /// A message to hand to the caller.
    Incoming {
        sender: String,
        channel: String,
        content: String,
        kind: MessageType,
        is_direct: bool,
    },
    /// A CTCP request other than ACTION (answered, never delivered).
    CtcpRequest { sender: String, content: String },
    /// Anything else.
    Ignore,
}

/// The model of an `IrcEvent`.
pub ghost enum IrcEventView {
    Pong(Seq<char>),
    Incoming {
        sender: Seq<char>,
        channel: Seq<char>,
        content: Seq<char>,
        kind: MessageType,
        is_direct: bool,
    },
    CtcpRequest { sender: Seq<char>, content: Seq<char> },
    Ignore,
}

impl View for IrcEvent {
    type V = IrcEventView;

    open spec fn view(&self) -> IrcEventView {
        match self {
            IrcEvent::Pong(l) => IrcEventView::Pong(l@),
            IrcEvent::Incoming { sender, channel, content, kind, is_direct } => {
                IrcEventView::Incoming {
                    sender: sender@,
                    channel: channel@,
                    content: content@,
                    kind: *kind,
                    is_direct: *is_direct,
                }
            },
            IrcEvent::CtcpRequest { sender, content } => IrcEventView::CtcpRequest {
                sender: sender@,
                content: content@,
            },
            IrcEvent::Ignore => IrcEventView::Ignore,
        }
    }
}

/// The text inside a CTCP payload: the delimiters stripped from both ends.
pub open spec fn ctcp_inner(content: Seq<char>) -> Seq<char> {
    strip_trailing(strip_leading(content, ctcp_delim()), ctcp_delim())
}

/// What the client makes of the parts of a server line.
pub open spec fn client_event_of(
    p0: Seq<char>,
    command: Seq<char>,
    channel: Seq<char>,
    rest: Seq<char>,
) -> IrcEventView {
    let sender = before_first(strip_leading(p0, ":"@), "!"@);
    let content = strip_leading(rest, ":"@);
    let direct = !starts_with(channel, "#"@);
    if command == "PRIVMSG"@ {
        if starts_with(content, ctcp_delim()) && ends_with(content, ctcp_delim()) {
            let inner = ctcp_inner(content);
            if starts_with(inner, "ACTION "@) {
                IrcEventView::Incoming {
                    sender,
                    channel,
                    content: inner.skip(7),
                    kind: MessageType::Action,
                    is_direct: direct,
                }
            } else {
                IrcEventView::CtcpRequest { sender, content }
            }
        } else {
            IrcEventView::Incoming {
                sender,
                channel,
                content,
                kind: MessageType::Text,
                is_direct: direct,
            }
        }
    } else if command == "NOTICE"@ {
        if starts_with(content, ctcp_delim()) {
            IrcEventView::Ignore
        } else {
            IrcEventView::Incoming {
                sender,
                channel,
                content,
                kind: MessageType::System,
                is_direct: false,
            }
        }
    } else {
        IrcEventView::Ignore
    }
}

/// What a raw line from the server is to the client: a PING, or a
/// `:nick!user@host COMMAND target :content` line.
pub open spec fn client_event(line: Seq<char>) -> IrcEventView {
    let t = trim(line);
    if starts_with(t, "PING "@) {
        IrcEventView::Pong(pong_for(t))
    } else {
        match split4(t) {
            Some((p0, command, channel, rest)) => client_event_of(p0, command, channel, rest),
            None => IrcEventView::Ignore,
        }
    }
}

/// The part of `v[a..b]` before its first space, and the start of the part
/// after it.
pub(crate) fn split_space_range(v: &Vec<char>, a: usize, b: usize) -> (r: Option<(usize, usize)>)
    requires
        a <= b <= v.len(),
    ensures
        match r {
            Some((e, n)) => {
                &&& a <= e < n <= b
                &&& n == e + 1
                &&& split_space(v@.subrange(a as int, b as int)) == Some(
                    (v@.subrange(a as int, e as int), v@.subrange(n as int, b as int)),
                )
            },
            None => split_space(v@.subrange(a as int, b as int)) is None,
        },
{
    let sp = vec![' '];
    assert(sp@ =~= seq![' ']);
    match find_in(v, a, b, &sp) {
        Some(k) => {
            proof {
                crate::text::lemma_find_some(v@.subrange(a as int, b as int), seq![' ']);
                let s = v@.subrange(a as int, b as int);
                assert(s.take(k as int) =~= v@.subrange(a as int, a + k));
                assert(s.skip(k + 1) =~= v@.subrange(a + k + 1, b as int));
            }
            Some((a + k, a + k + 1))
        },
        None => None,
    }
}

/// Copies `v[a..b]` into a `String`.
pub(crate) fn text_of(v: &Vec<char>, a: usize, b: usize) -> (s: String)
    requires
        a <= b <= v.len(),
    ensures
        s@ == v@.subrange(a as int, b as int),
{
    let piece = slice_of(v, a, b);
    string_of(&piece)
}

/// The event for the parts `v[a0..e0]`, `v[a1..e1]`, `v[a2..e2]`,
/// `v[a3..b]` of a server line.
fn client_event_parts(
    v: &Vec<char>,
    a0: usize,
    e0: usize,
    a1: usize,
    e1: usize,
    a2: usize,
    e2: usize,
    a3: usize,
    b: usize,
) -> (ev: IrcEvent)
    requires
        a0 <= e0 <= a1 <= e1 <= a2 <= e2 <= a3 <= b <= v.len(),
    ensures
        ev@ == client_event_of(
            v@.subrange(a0 as int, e0 as int),
            v@.subrange(a1 as int, e1 as int),
            v@.subrange(a2 as int, e2 as int),
            v@.subrange(a3 as int, b as int),
        ),
{
    let colon = vec![':'];
    let bang = vec!['!'];
    let hash = vec!['#'];
    let delim = vec!['\x01'];
    let action = chars_of("ACTION ");
    assert(action@.len() == 7) by {
        reveal_strlit("ACTION ");
    }
    assert(colon@ =~= ":"@) by {
        reveal_strlit(":");
    }
    assert(bang@ =~= "!"@) by {
        reveal_strlit("!");
    }
    assert(hash@ =~= "#"@) by {
        reveal_strlit("#");
    }
    assert(delim@ =~= ctcp_delim());
    // sender: the nick before '!', after the leading ':'s
    let s0 = strip_leading_range(v, a0, e0, &colon);
    let send_end = match find_in(v, s0, e0, &bang) {
        Some(k) => s0 + k,
        None => e0,
    };
    proof {
        let p = v@.subrange(s0 as int, e0 as int);
        if find(p, "!"@) is Some {
            crate::text::lemma_find_some(p, "!"@);
        }
        assert(before_first(p, "!"@) =~= v@.subrange(s0 as int, send_end as int));
    }
    let sender = text_of(v, s0, send_end);
    let channel = text_of(v, a2, e2);
    let c0 = strip_leading_range(v, a3, b, &colon);
    let content = text_of(v, c0, b);
    let direct = !starts_at(v, a2, e2, &hash);
    let command = text_of(v, a1, e1);
    if crate::text::str_eq(command.as_str(), "PRIVMSG") {
        if starts_at(v, c0, b, &delim) && c0 < b && ends_at(v, c0, b, &delim) {
            let i0 = strip_leading_range(v, c0, b, &delim);
            let i1 = strip_trailing_range(v, i0, b, &delim);
            if starts_at(v, i0, i1, &action) {
                let text = text_of(v, i0 + 7, i1);
                assert(v@.subrange(i0 as int, i1 as int).skip(7) =~= v@.subrange(
                    i0 + 7,
                    i1 as int,
                ));
                return IrcEvent::Incoming {
                    sender,
                    channel,
                    content: text,
                    kind: MessageType::Action,
                    is_direct: direct,
                };
            } else {
                return IrcEvent::CtcpRequest { sender, content };
            }
        }
        proof {
            if c0 == b {
                assert(!starts_with(v@.subrange(c0 as int, b as int), ctcp_delim()));
            }
        }
        IrcEvent::Incoming { sender, channel, content, kind: MessageType::Text, is_direct: direct }
    } else if crate::text::str_eq(command.as_str(), "NOTICE") {
        if starts_at(v, c0, b, &delim) {
            IrcEvent::Ignore
        } else {
            IrcEvent::Incoming {
                sender,
                channel,
                content,
                kind: MessageType::System,
                is_direct: false,
            }
        }
    } else {
        IrcEvent::Ignore
    }
}

/// Whether `v[a..b]` ends with `p`.
pub(crate) fn ends_at(v: &Vec<char>, a: usize, b: usize, p: &Vec<char>) -> (r: bool)
    requires
        a <= b <= v.len(),
    ensures
        r == ends_with(v@.subrange(a as int, b as int), p@),
{
    if p.len() > b - a {
        return false;
    }
    let r = matches_at(v, b - p.len(), p);
    let ghost s = v@.subrange(a as int, b as int);
    assert(s.subrange(s.len() - p.len(), s.len() as int) =~= v@.subrange(
        b - p.len(),
        b as int,
    ));
    r
}

/// Reads one line from the server.
pub fn client_event_for(line: &str) -> (ev: IrcEvent)
    ensures
        ev@ == client_event(line@),
{
    let v = chars_of(line);
    let (a, b) = trim_range(&v, 0, v.len());
    assert(v@.subrange(0, v.len() as int) =~= line@);
    let ping = chars_of("PING ");
    if starts_at(&v, a, b, &ping) {
        return IrcEvent::Pong(pong_range(&v, a, b));
    }
    let (e0, a1) = match split_space_range(&v, a, b) {
        Some(p) => p,
        None => return IrcEvent::Ignore,
    };
    let (e1, a2) = match split_space_range(&v, a1, b) {
        Some(p) => p,
        None => return IrcEvent::Ignore,
    };
    let (e2, a3) = match split_space_range(&v, a2, b) {
        Some(p) => p,
        None => return IrcEvent::Ignore,
    };
    client_event_parts(&v, a, e0, a1, e1, a2, e2, a3, b)
}

/// A message read from IRC at `now_ms` (Unix milliseconds) / `now_s`
/// (Unix seconds).
pub fn irc_message(
    sender: String,
    channel: String,
    content: String,
    kind: MessageType,
    is_direct: bool,
    now_ms: i64,
    now_s: i64,
) -> (m: Message)
    ensures
        m.id@ == "irc-"@ + decimal_int(now_ms as int),
        m.sender == sender,
        m.content == content,
        m.timestamp == now_s,
        m.channel == Some(channel),
        m.reply_to is None,
        m.thread_id is None,
        m.media is None,
        m.is_direct == is_direct,
        m.message_type == kind,
        m.edited_timestamp is None,
        m.reactions is None,
{
    let mut id = "irc-".to_owned();
    id.append(i64_to_string(now_ms).as_str());
    Message::plain(id, sender, content, now_s, Some(channel), is_direct, kind)
}

// ── CTCP requests ─────────────────────────────────────────────────────────────

/// The answer owed to a CTCP request.
#[derive(Debug)]
pub enum CtcpReply {
    /// Reply with the configured version string.
    Version,
    /// Echo the request's arguments.
    Ping(String),
    /// Reply with the current time.
    Time,
}

/// The model of a CTCP decision: whether the content counts as handled
/// CTCP, and the reply owed (if any).
pub ghost enum CtcpReplyView {
    Version,
    Ping(Seq<char>),
    Time,
}

/// How a CTCP request is handled: with replies disabled, it counts as CTCP
/// exactly when it starts with the delimiter and nothing is sent;
/// otherwise VERSION, PING and TIME are answered, ACTION is left to the
/// message path, and other commands are swallowed.
pub open spec fn ctcp_decision(replies: bool, content: Seq<char>) -> (bool, Option<CtcpReplyView>) {
    if !replies {
        (starts_with(content, ctcp_delim()), None)
    } else {
        let t = ctcp_inner(content);
        if t.len() == 0 {
            (false, None)
        } else {
            let (command, args) = match split_space(t) {
                Some((c, a)) => (c, a),
                None => (t, Seq::empty()),
            };
            if command == "VERSION"@ {
                (true, Some(CtcpReplyView::Version))
            } else if command == "PING"@ {
                (true, Some(CtcpReplyView::Ping(args)))
            } else if command == "TIME"@ {
                (true, Some(CtcpReplyView::Time))
            } else if command == "ACTION"@ {
                (false, None)
            } else {
                (true, None)
            }
        }
    }
}

/// The view of an optional reply.
pub open spec fn reply_view(r: Option<CtcpReply>) -> Option<CtcpReplyView> {
    match r {
        Some(CtcpReply::Version) => Some(CtcpReplyView::Version),
        Some(CtcpReply::Ping(a)) => Some(CtcpReplyView::Ping(a@)),
        Some(CtcpReply::Time) => Some(CtcpReplyView::Time),
        None => None,
    }
}

/// Decides how to handle a CTCP request `content` (see `ctcp_decision`).
pub fn handle_ctcp_request(ctcp_replies: bool, content: &str) -> (r: (bool, Option<CtcpReply>))
    ensures
        (r.0, reply_view(r.1)) == ctcp_decision(ctcp_replies, content@),
{
    let v = chars_of(content);
    let n = v.len();
    assert(v@.subrange(0, n as int) =~= content@);
    let delim = vec!['\x01'];
    assert(delim@ =~= ctcp_delim());
    if !ctcp_replies {
        return (starts_at(&v, 0, n, &delim), None);
    }
    let i0 = strip_leading_range(&v, 0, n, &delim);
    let i1 = strip_trailing_range(&v, i0, n, &delim);
    if i0 == i1 {
        return (false, None);
    }
    let (ce, args_start) = match split_space_range(&v, i0, i1) {
        Some(p) => p,
        None => (i1, i1),
    };
    assert(v@.subrange(i1 as int, i1 as int) =~= Seq::<char>::empty());
    let command = text_of(&v, i0, ce);
    let c = command.as_str();
    if crate::text::str_eq(c, "VERSION") {
        (true, Some(CtcpReply::Version))
    } else if crate::text::str_eq(c, "PING") {
        (true, Some(CtcpReply::Ping(text_of(&v, args_start, i1))))
    } else if crate::text::str_eq(c, "TIME") {
        (true, Some(CtcpReply::Time))
    } else if crate::text::str_eq(c, "ACTION") {
        (false, None)
    } else {
        (true, None)
    }
}

} // verus!
