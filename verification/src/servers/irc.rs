//! The IRC server side of one client connection: registration (NICK, USER,
//! the RPL_WELCOME sequence 001–004), PRIVMSG/NOTICE delivery (with CTCP
//! ACTION), PING/PONG, JOIN echo, PART/TOPIC and QUIT.
use vstd::prelude::*;
use crate::message::{Message, MessageType};
use crate::messengers::irc::{
    ctcp_delim, ctcp_inner, ends_at, irc_message, split_space, split_space_range, starts_at,
    text_of, texts,
};
use crate::number::decimal_int;
use crate::text::{
    chars_of, ends_with, find_in, matches_at, slice_of, starts_with, string_of, strip_leading,
    strip_leading_range, strip_trailing_range, trim, trim_range,
};

verus! {

/// The state of one client connection.
pub struct IrcServerSession {
    server_name: String,
    nick: String,
    user_seen: bool,
    registered: bool,
}

/// The model of an `IrcServerSession`.
pub ghost struct SessionState {
    pub server_name: Seq<char>,
    pub nick: Seq<char>,
    pub user_seen: bool,
    pub registered: bool,
}

impl View for IrcServerSession {
    type V = SessionState;

    closed spec fn view(&self) -> SessionState {
        SessionState {
            server_name: self.server_name@,
            nick: self.nick@,
            user_seen: self.user_seen,
            registered: self.registered,
        }
    }
}

/// A message to hand to the server's handler.
#[derive(Debug)]
pub struct Delivery {
    pub sender: String,
    pub target: String,
    pub content: String,
    pub kind: MessageType,
    /// Whether the handler's reply is sent back (PRIVMSG, not NOTICE).
    pub wants_reply: bool,
}

/// The model of a `Delivery`.
pub ghost struct DeliveryView {
    pub sender: Seq<char>,
    pub target: Seq<char>,
    pub content: Seq<char>,
    pub kind: MessageType,
    pub wants_reply: bool,
}

impl View for Delivery {
    type V = DeliveryView;

    open spec fn view(&self) -> DeliveryView {
        DeliveryView {
            sender: self.sender@,
            target: self.target@,
            content: self.content@,
            kind: self.kind,
            wants_reply: self.wants_reply,
        }
    }
}

/// What to do for one line from the client, in this order: write `out`,
/// hand `delivery` to the handler (writing its reply when it wants one),
/// write `welcome`, and close the connection when `quit`.
#[derive(Debug)]
pub struct ServerStep {
    pub out: Vec<String>,
    pub delivery: Option<Delivery>,
    pub welcome: Vec<String>,
    pub quit: bool,
}

/// The model of a `ServerStep`.
pub ghost struct StepView {
    pub out: Seq<Seq<char>>,
    pub delivery: Option<DeliveryView>,
    pub welcome: Seq<Seq<char>>,
    pub quit: bool,
}

impl View for ServerStep {
    type V = StepView;

    open spec fn view(&self) -> StepView {
        StepView {
            out: texts(self.out@),
            delivery: match self.delivery {
                Some(d) => Some(d@),
                None => None,
            },
            welcome: texts(self.welcome@),
            quit: self.quit,
        }
    }
}

/// The RPL_WELCOME sequence (001–004) for `nick`.
pub open spec fn welcome_for(server: Seq<char>, nick: Seq<char>) -> Seq<Seq<char>> {
    seq![
        ":"@ + server + " 001 "@ + nick + " :Welcome to the Internet Relay Network "@ + nick
            + "\r\n"@,
        ":"@ + server + " 002 "@ + nick + " :Your host is "@ + server + ", running chat-system\r\n"@,
        ":"@ + server + " 003 "@ + nick + " :This server was created with chat-system\r\n"@,
        ":"@ + server + " 004 "@ + nick + " "@ + server + " chat-system o o\r\n"@,
    ]
}

/// What a command line does before the registration check: the new
/// state, the lines to write, the delivery, whether the connection ends,
/// and whether the registration check is skipped for this line.
pub open spec fn command_effect(st: SessionState, l: Seq<char>) -> (
    SessionState,
    Seq<Seq<char>>,
    Option<DeliveryView>,
    bool,
    bool,
) {
    let none = (st, Seq::<Seq<char>>::empty(), None::<DeliveryView>, false, false);
    if starts_with(l, "NICK "@) {
        (SessionState { nick: trim(l.skip(5)), ..st }, Seq::empty(), None, false, false)
    } else if starts_with(l, "USER "@) {
        (SessionState { user_seen: true, ..st }, Seq::empty(), None, false, false)
    } else if starts_with(l, "PING "@) {
        (st, seq!["PONG "@ + strip_leading(l, "PING "@) + "\r\n"@], None, false, false)
    } else if starts_with(l, "PRIVMSG "@) {
        match split_space(l.skip(8)) {
            Some((target, c)) => {
                let content = strip_leading(c, ":"@);
                if starts_with(content, ctcp_delim()) && ends_with(content, ctcp_delim()) {
                    let inner = ctcp_inner(content);
                    if starts_with(inner, "ACTION "@) {
                        (
                            st,
                            Seq::empty(),
                            Some(
                                DeliveryView {
                                    sender: st.nick,
                                    target,
                                    content: inner.skip(7),
                                    kind: MessageType::Action,
                                    wants_reply: true,
                                },
                            ),
                            false,
                            false,
                        )
                    } else {
                        (st, Seq::empty(), None, false, true)
                    }
                } else {
                    (
                        st,
                        Seq::empty(),
                        Some(
                            DeliveryView {
                                sender: st.nick,
                                target,
                                content,
                                kind: MessageType::Text,
                                wants_reply: true,
                            },
                        ),
                        false,
                        false,
                    )
                }
            },
            None => none,
        }
    } else if starts_with(l, "NOTICE "@) {
        match split_space(l.skip(7)) {
            Some((target, c)) => (
                st,
                Seq::empty(),
                Some(
                    DeliveryView {
                        sender: st.nick,
                        target,
                        content: strip_leading(c, ":"@),
                        kind: MessageType::System,
                        wants_reply: false,
                    },
                ),
                false,
                false,
            ),
            None => none,
        }
    } else if starts_with(l, "JOIN "@) {
        let channel = strip_leading(trim(l.skip(5)), ":"@);
        (
            st,
            seq![":"@ + st.nick + "!"@ + st.nick + "@"@ + st.server_name + " JOIN "@ + channel + "\r\n"@],
            None,
            false,
            false,
        )
    } else if starts_with(l, "PART "@) || starts_with(l, "TOPIC "@) {
        none
    } else if l == "QUIT"@ || starts_with(l, "QUIT "@) {
        (st, Seq::empty(), None, true, false)
    } else {
        none
    }
}

/// The new state and the actions for one line from the client.
pub open spec fn server_step(st: SessionState, line: Seq<char>) -> (SessionState, StepView) {
    let l = trim(line);
    if l.len() == 0 {
        (st, StepView { out: Seq::empty(), delivery: None, welcome: Seq::empty(), quit: false })
    } else {
        let (st1, out, delivery, quit, skip) = command_effect(st, l);
        if !skip && !quit && !st1.registered && st1.nick.len() > 0 && st1.user_seen {
            (
                SessionState { registered: true, ..st1 },
                StepView { out, delivery, welcome: welcome_for(st1.server_name, st1.nick), quit },
            )
        } else {
            (st1, StepView { out, delivery, welcome: Seq::empty(), quit })
        }
    }
}

/// Builds the RPL_WELCOME sequence for `nick`.
pub fn welcome_lines(server_name: &str, nick: &str) -> (lines: Vec<String>)
    ensures
        texts(lines@) == welcome_for(server_name@, nick@),
{
    let mut l1 = ":".to_owned();
    l1.append(server_name);
    l1.append(" 001 ");
    l1.append(nick);
    l1.append(" :Welcome to the Internet Relay Network ");
    l1.append(nick);
    l1.append("\r\n");
    let mut l2 = ":".to_owned();
    l2.append(server_name);
    l2.append(" 002 ");
    l2.append(nick);
    l2.append(" :Your host is ");
    l2.append(server_name);
    l2.append(", running chat-system\r\n");
    let mut l3 = ":".to_owned();
    l3.append(server_name);
    l3.append(" 003 ");
    l3.append(nick);
    l3.append(" :This server was created with chat-system\r\n");
    let mut l4 = ":".to_owned();
    l4.append(server_name);
    l4.append(" 004 ");
    l4.append(nick);
    l4.append(" ");
    l4.append(server_name);
    l4.append(" chat-system o o\r\n");
    let mut lines: Vec<String> = Vec::new();
    lines.push(l1);
    lines.push(l2);
    lines.push(l3);
    lines.push(l4);
    assert(texts(lines@) =~= welcome_for(server_name@, nick@));
    lines
}

/// The message handed to the handler for a delivery read at `now_ms`
/// (Unix milliseconds) / `now_s` (Unix seconds).
pub fn delivery_message(d: Delivery, now_ms: i64, now_s: i64) -> (m: Message)
    ensures
        m.id@ == "irc-"@ + decimal_int(now_ms as int),
        m.sender@ == d.sender@,
        m.content@ == d.content@,
        m.timestamp == now_s,
        m.channel is Some && m.channel->0@ == d.target@,
        m.reply_to is None,
        m.thread_id is None,
        m.media is None,
        m.is_direct == !starts_with(d.target@, "#"@),
        m.message_type == d.kind,
        m.edited_timestamp is None,
        m.reactions is None,
{
    let hash = vec!['#'];
    assert(hash@ =~= "#"@) by {
        reveal_strlit("#");
    }
    let t = chars_of(d.target.as_str());
    assert(t@.subrange(0, t.len() as int) =~= t@);
    let direct = !starts_at(&t, 0, t.len(), &hash);
    irc_message(d.sender, d.target, d.content, d.kind, direct, now_ms, now_s)
}

impl IrcServerSession {
    /// A fresh connection to the server called `server_name`.
    pub fn new(server_name: String) -> (s: IrcServerSession)
        ensures
            s@ == (SessionState {
                server_name: server_name@,
                nick: Seq::empty(),
                user_seen: false,
                registered: false,
            }),
    {
        IrcServerSession { server_name, nick: String::new(), user_seen: false, registered: false }
    }

    /// Whether the welcome has been sent.
    pub fn is_registered(&self) -> (b: bool)
        ensures
            b == self@.registered,
    {
        self.registered
    }

    /// The nick the client registered (empty before NICK).
    pub fn nick(&self) -> (s: &str)
        ensures
            s@ == self@.nick,
    {
        self.nick.as_str()
    }

    /// Applies one command line `v[a..b]` (trimmed, not empty).
    #[verifier::rlimit(40)]
    fn apply_command(&mut self, v: &Vec<char>, a: usize, b: usize) -> (r: (
        Vec<String>,
        Option<Delivery>,
        bool,
        bool,
    ))
        requires
            a <= b <= v.len(),
        ensures
            ({
                let e = command_effect(old(self)@, v@.subrange(a as int, b as int));
                &&& final(self)@ == e.0
                &&& texts(r.0@) == e.1
                &&& (match r.1 {
                    Some(d) => e.2 == Some(d@),
                    None => e.2 is None,
                })
                &&& r.2 == e.3
                &&& r.3 == e.4
            }),
    {
        let ghost l = v@.subrange(a as int, b as int);
        let mut out: Vec<String> = Vec::new();
        let nick_p = chars_of("NICK ");
        let user_p = chars_of("USER ");
        let ping_p = chars_of("PING ");
        let privmsg_p = chars_of("PRIVMSG ");
        let notice_p = chars_of("NOTICE ");
        let join_p = chars_of("JOIN ");
        let part_p = chars_of("PART ");
        let topic_p = chars_of("TOPIC ");
        let quit_p = chars_of("QUIT ");
        let colon = vec![':'];
        let delim = vec!['\x01'];
        let action = chars_of("ACTION ");
        proof {
            reveal_strlit("NICK ");
            reveal_strlit("PRIVMSG ");
            reveal_strlit("NOTICE ");
            reveal_strlit("JOIN ");
            reveal_strlit("ACTION ");
            reveal_strlit(":");
        }
        assert(colon@ =~= ":"@);
        assert(delim@ =~= ctcp_delim());
        if starts_at(v, a, b, &nick_p) {
            let k = skip_ws_pair(v, a + 5, b);
            assert(l.skip(5) =~= v@.subrange(a + 5, b as int));
            self.nick = text_of(v, k.0, k.1);
            return (out, None, false, false);
        }
        if starts_at(v, a, b, &user_p) {
            self.user_seen = true;
            return (out, None, false, false);
        }
        if starts_at(v, a, b, &ping_p) {
            let mut pong = crate::messengers::irc::pong_range(v, a, b);
            pong.append("\r\n");
            out.push(pong);
            assert(texts(out@) =~= seq![
                "PONG "@ + strip_leading(l, "PING "@) + "\r\n"@,
            ]);
            return (out, None, false, false);
        }
        if starts_at(v, a, b, &privmsg_p) {
            assert(l.skip(8) =~= v@.subrange(a + 8, b as int));
            match split_space_range(v, a + 8, b) {
                Some((e, n)) => {
                    let target = text_of(v, a + 8, e);
                    let c0 = strip_leading_range(v, n, b, &colon);
                    if starts_at(v, c0, b, &delim) && ends_at(v, c0, b, &delim) {
                        let i0 = strip_leading_range(v, c0, b, &delim);
                        let i1 = strip_trailing_range(v, i0, b, &delim);
                        if starts_at(v, i0, i1, &action) {
                            assert(v@.subrange(i0 as int, i1 as int).skip(7) =~= v@.subrange(
                                i0 + 7,
                                i1 as int,
                            ));
                            let d = Delivery {
                                sender: self.nick.clone(),
                                target,
                                content: text_of(v, i0 + 7, i1),
                                kind: MessageType::Action,
                                wants_reply: true,
                            };
                            return (out, Some(d), false, false);
                        } else {
                            return (out, None, false, true);
                        }
                    }
                    let d = Delivery {
                        sender: self.nick.clone(),
                        target,
                        content: text_of(v, c0, b),
                        kind: MessageType::Text,
                        wants_reply: true,
                    };
                    return (out, Some(d), false, false);
                },
                None => {
                    return (out, None, false, false);
                },
            }
        }
        if starts_at(v, a, b, &notice_p) {
            assert(l.skip(7) =~= v@.subrange(a + 7, b as int));
            match split_space_range(v, a + 7, b) {
                Some((e, n)) => {
                    let c0 = strip_leading_range(v, n, b, &colon);
                    let d = Delivery {
                        sender: self.nick.clone(),
                        target: text_of(v, a + 7, e),
                        content: text_of(v, c0, b),
                        kind: MessageType::System,
                        wants_reply: false,
                    };
                    return (out, Some(d), false, false);
                },
                None => {
                    return (out, None, false, false);
                },
            }
        }
        if starts_at(v, a, b, &join_p) {
            assert(l.skip(5) =~= v@.subrange(a + 5, b as int));
            let k = skip_ws_pair(v, a + 5, b);
            let c0 = strip_leading_range(v, k.0, k.1, &colon);
            let mut line = ":".to_owned();
            line.append(self.nick.as_str());
            line.append("!");
            line.append(self.nick.as_str());
            line.append("@");
            line.append(self.server_name.as_str());
            line.append(" JOIN ");
            line.append(text_of(v, c0, k.1).as_str());
            line.append("\r\n");
            out.push(line);
            assert(texts(out@) =~= command_effect(old(self)@, l).1);
            return (out, None, false, false);
        }
        if starts_at(v, a, b, &part_p) || starts_at(v, a, b, &topic_p) {
            return (out, None, false, false);
        }
        let whole = text_of(v, a, b);
        if crate::text::str_eq(whole.as_str(), "QUIT") || starts_at(v, a, b, &quit_p) {
            return (out, None, true, false);
        }
        (out, None, false, false)
    }

    /// Reads one line from the client (see `server_step`).
    pub fn step(&mut self, line: &str) -> (r: ServerStep)
        ensures
            (final(self)@, r@) == server_step(old(self)@, line@),
    {
        let v = chars_of(line);
        let (a, b) = trim_range(&v, 0, v.len());
        assert(v@.subrange(0, v.len() as int) =~= line@);
        if a == b {
            let r = ServerStep {
                out: Vec::new(),
                delivery: None,
                welcome: Vec::new(),
                quit: false,
            };
            assert(r@.out =~= Seq::<Seq<char>>::empty());
            assert(r@.welcome =~= Seq::<Seq<char>>::empty());
            return r;
        }
        let (out, delivery, quit, skip) = self.apply_command(&v, a, b);
        let mut welcome: Vec<String> = Vec::new();
        if !skip && !quit && !self.registered && !self.nick.as_str().is_empty() && self.user_seen {
            welcome = welcome_lines(self.server_name.as_str(), self.nick.as_str());
            self.registered = true;
        }
        let r = ServerStep { out, delivery, welcome, quit };
        assert(r@.welcome =~= server_step(old(self)@, line@).1.welcome);
        r
    }

    /// The line that sends the handler's reply to `target`, from the server.
    pub fn reply_line(&self, target: &str, reply: &str) -> (l: String)
        ensures
            l@ == ":"@ + self@.server_name + "!"@ + self@.server_name + "@"@ + self@.server_name
                + " PRIVMSG "@ + target@ + " :"@ + reply@ + "\r\n"@,
    {
        let mut l = ":".to_owned();
        l.append(self.server_name.as_str());
        l.append("!");
        l.append(self.server_name.as_str());
        l.append("@");
        l.append(self.server_name.as_str());
        l.append(" PRIVMSG ");
        l.append(target);
        l.append(" :");
        l.append(reply);
        l.append("\r\n");
        l
    }
}

/// Once the welcome has been sent, a connection stays registered and the
/// welcome is never sent again.
pub proof fn lemma_welcome_once(st: SessionState, line: Seq<char>)
    requires
        st.registered,
    ensures
        server_step(st, line).0.registered,
        server_step(st, line).1.welcome.len() == 0,
{
}

/// The welcome goes out exactly on the line that registers the connection:
/// the first one after which it has a nick and has sent USER.
pub proof fn lemma_welcome_when_registering(st: SessionState, line: Seq<char>)
    ensures
        (server_step(st, line).1.welcome.len() > 0) <==> (!st.registered && server_step(
            st,
            line,
        ).0.registered),
        !st.registered && server_step(st, line).0.registered ==> server_step(st, line).0.nick.len()
            > 0 && server_step(st, line).0.user_seen,
{
}

/// A PING is answered with a PONG carrying its token, whatever the state.
pub proof fn lemma_ping_answered(st: SessionState, line: Seq<char>)
    requires
        starts_with(trim(line), "PING "@),
    ensures
        server_step(st, line).1.out == seq!["PONG "@ + strip_leading(trim(line), "PING "@) + "\r\n"@],
        server_step(st, line).1.delivery is None,
        !server_step(st, line).1.quit,
{
    let l = trim(line);
    reveal_strlit("PING ");
    reveal_strlit("NICK ");
    reveal_strlit("USER ");
    assert(l.subrange(0, 5)[0] == 'P');
    assert(l[0] == 'P');
}

/// Bounds of `trim(v[from..to])`.
fn skip_ws_pair(v: &Vec<char>, from: usize, to: usize) -> (r: (usize, usize))
    requires
        from <= to <= v.len(),
    ensures
        from <= r.0 <= r.1 <= to,
        trim(v@.subrange(from as int, to as int)) == v@.subrange(r.0 as int, r.1 as int),
{
    trim_range(v, from, to)
}

} // verus!
