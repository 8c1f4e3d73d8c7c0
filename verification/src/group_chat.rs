//! Group chat support with isolation and activation modes.
//!
//! Provides configuration and logic for how the agent behaves in group
//! conversations (as opposed to 1:1 DMs):
//!
//! - **Activation modes**: How the agent decides to respond in a group.
//! - **Isolation modes**: Whether group conversations share state or are
//!   isolated per-group.
use vstd::prelude::*;
use crate::markdown::string_views;
use crate::text::{
    chars_of, contains, contains_str, lowercase, matches_at, skip_ws, starts_with, str_eq,
    to_lowercase, trim_start,
};

verus! {

/// How the agent is activated in a group chat.
#[derive(Debug, Clone, Copy, PartialEq, Eq, Structural)]
pub enum ActivationMode {
    /// Always respond to every message in the group.
    Always,
    /// Only respond when mentioned by name or @-tag.
    Mention,
    /// Only respond when a specific prefix/command is used (e.g., "!claw").
    Prefix,
    /// Never respond in groups (DM only).
    Never,
}

impl Default for ActivationMode {
    fn default() -> (m: Self)
        ensures
            m == ActivationMode::Mention,
    {
        ActivationMode::Mention
    }
}

/// How group conversations are isolated from each other.
#[derive(Debug, Clone, Copy, PartialEq, Eq, Structural)]
pub enum IsolationMode {
    /// Each group gets its own conversation history and context.
    PerGroup,
    /// All groups share the same conversation history.
    Shared,
    /// Each user in each group gets their own context.
    PerUser,
}

impl Default for IsolationMode {
    fn default() -> (m: Self)
        ensures
            m == IsolationMode::PerGroup,
    {
        IsolationMode::PerGroup
    }
}

/// Group chat configuration for a messenger.
#[derive(Debug)]
pub struct GroupChatConfig {
    /// Whether group chat support is enabled.
    pub enabled: bool,
    /// How the agent is activated in groups.
    pub activation: ActivationMode,
    /// Command prefix for Prefix activation mode (e.g., "!claw").
    pub prefix: String,
    /// How conversations are isolated.
    pub isolation: IsolationMode,
    /// Maximum number of messages to keep in group context.
    pub max_context_messages: usize,
    /// Allowed group IDs (empty = all groups allowed).
    pub allowed_groups: Vec<String>,
    /// Blocked group IDs.
    pub blocked_groups: Vec<String>,
    /// Whether to include sender names in the context (helps the model
    /// understand who is speaking).
    pub include_sender_names: bool,
}

/// The default command prefix.
pub fn default_prefix() -> (s: String)
    ensures
        s@ == "!claw"@,
{
    String::from_str("!claw")
}

/// The default number of messages kept in group context.
pub fn default_max_context() -> (n: usize)
    ensures
        n == 50,
{
    50
}

/// The default for flags that are on unless configured otherwise.
pub fn default_true() -> (b: bool)
    ensures
        b,
{
    true
}

impl Default for GroupChatConfig {
    fn default() -> (c: Self)
        ensures
            !c.enabled,
            c.activation == ActivationMode::Mention,
            c.prefix@ == "!claw"@,
            c.isolation == IsolationMode::PerGroup,
            c.max_context_messages == 50,
            c.allowed_groups@.len() == 0,
            c.blocked_groups@.len() == 0,
            c.include_sender_names,
    {
        GroupChatConfig {
            enabled: false,
            activation: ActivationMode::Mention,
            prefix: default_prefix(),
            isolation: IsolationMode::PerGroup,
            max_context_messages: default_max_context(),
            allowed_groups: Vec::new(),
            blocked_groups: Vec::new(),
            include_sender_names: true,
        }
    }
}

/// A group may be used: it is not blocked, and either no allow-list is
/// configured or the group is on it.
pub open spec fn group_allowed(allowed: Seq<Seq<char>>, blocked: Seq<Seq<char>>, group: Seq<char>) -> bool {
    !blocked.contains(group) && (allowed.len() == 0 || allowed.contains(group))
}

/// Whether the agent answers `message` in a group, for a configuration
/// with the given switch, activation mode and prefix.
pub open spec fn responds(
    enabled: bool,
    activation: ActivationMode,
    prefix: Seq<char>,
    message: Seq<char>,
    agent_name: Seq<char>,
) -> bool {
    if !enabled {
        false
    } else {
        match activation {
            ActivationMode::Always => true,
            ActivationMode::Never => false,
            ActivationMode::Mention => {
                let lower = lowercase(message);
                let name = lowercase(agent_name);
                contains(lower, name) || contains(lower, "@"@ + name)
            },
            ActivationMode::Prefix => starts_with(message, prefix),
        }
    }
}

/// The conversation a message belongs to under an isolation mode.
pub open spec fn session_key_of(
    isolation: IsolationMode,
    group: Seq<char>,
    user: Option<Seq<char>>,
) -> Seq<char> {
    match isolation {
        IsolationMode::PerGroup => "group:"@ + group,
        IsolationMode::Shared => "shared"@,
        IsolationMode::PerUser => match user {
            Some(u) => "group:"@ + group + ":user:"@ + u,
            None => "group:"@ + group,
        },
    }
}

/// A message with the command prefix removed (and the whitespace after it),
/// under Prefix activation; otherwise the message as it is.
pub open spec fn stripped(activation: ActivationMode, prefix: Seq<char>, message: Seq<char>) -> Seq<
    char,
> {
    if activation == ActivationMode::Prefix && starts_with(message, prefix) {
        trim_start(message.skip(prefix.len() as int))
    } else {
        message
    }
}

/// Whether `list` holds a string equal to `s`.
fn list_has(list: &Vec<String>, s: &str) -> (b: bool)
    ensures
        b == string_views(list@).contains(s@),
{
    let mut i: usize = 0;
    while i < list.len()
        invariant
            i <= list.len(),
            forall|j: int| 0 <= j < i ==> list@[j]@ != s@,
        decreases list.len() - i,
    {
        if str_eq(list[i].as_str(), s) {
            assert(string_views(list@)[i as int] == s@);
            return true;
        }
        i += 1;
    }
    proof {
        if string_views(list@).contains(s@) {
            let j = choose|j: int| 0 <= j < string_views(list@).len() && string_views(list@)[j] == s@;
            assert(list@[j]@ == s@);
        }
    }
    false
}

impl GroupChatConfig {
    /// Check if a group is allowed.
    pub fn is_group_allowed(&self, group_id: &str) -> (b: bool)
        ensures
            b == group_allowed(
                string_views(self.allowed_groups@),
                string_views(self.blocked_groups@),
                group_id@,
            ),
    {
        if list_has(&self.blocked_groups, group_id) {
            return false;
        }
        if self.allowed_groups.len() == 0 {
            return true;
        }
        list_has(&self.allowed_groups, group_id)
    }

    /// Check if the agent should respond to a message in a group.
    pub fn should_respond(&self, message: &str, agent_name: &str) -> (b: bool)
        ensures
            b == responds(self.enabled, self.activation, self.prefix@, message@, agent_name@),
    {
        if !self.enabled {
            return false;
        }
        match self.activation {
            ActivationMode::Always => true,
            ActivationMode::Never => false,
            ActivationMode::Mention => {
                let lower = to_lowercase(message);
                let name_lower = to_lowercase(agent_name);
                let mut tagged = String::from_str("@");
                tagged.append(name_lower.as_str());
                contains_str(lower.as_str(), name_lower.as_str()) || contains_str(
                    lower.as_str(),
                    tagged.as_str(),
                )
            },
            ActivationMode::Prefix => crate::text::starts_with_str(message, self.prefix.as_str()),
        }
    }

    /// Generate a session key for isolation.
    pub fn session_key(&self, group_id: &str, user_id: Option<&str>) -> (key: String)
        ensures
            key@ == session_key_of(
                self.isolation,
                group_id@,
                match user_id {
                    Some(u) => Some(u@),
                    None => None,
                },
            ),
    {
        match self.isolation {
            IsolationMode::PerGroup => {
                let mut k = String::from_str("group:");
                k.append(group_id);
                k
            },
            IsolationMode::Shared => String::from_str("shared"),
            IsolationMode::PerUser => {
                let mut k = String::from_str("group:");
                k.append(group_id);
                match user_id {
                    Some(uid) => {
                        k.append(":user:");
                        k.append(uid);
                    },
                    None => {},
                }
                k
            },
        }
    }

    /// Strip the prefix from a message (for Prefix activation mode).
    pub fn strip_prefix<'a>(&self, message: &'a str) -> (r: &'a str)
        ensures
            r@ == stripped(self.activation, self.prefix@, message@),
    {
        if self.activation == ActivationMode::Prefix {
            let v = chars_of(message);
            let p = chars_of(self.prefix.as_str());
            if matches_at(&v, 0, &p) {
                let k = skip_ws(&v, p.len(), v.len());
                assert(v@.subrange(p.len() as int, v.len() as int) =~= message@.skip(
                    p.len() as int,
                ));
                let n = message.unicode_len();
                return message.substring_char(k, n);
            }
        }
        message
    }
}

/// Format a group message with sender info for the model context.
pub fn format_group_message(sender_name: &str, message: &str, include_sender: bool) -> (s: String)
    ensures
        s@ == (if include_sender {
            "["@ + sender_name@ + "]: "@ + message@
        } else {
            message@
        }),
{
    if include_sender {
        let mut s = String::from_str("[");
        s.append(sender_name);
        s.append("]: ");
        s.append(message);
        s
    } else {
        message.to_owned()
    }
}

/// Generate a group context key from messenger + group ID.
pub fn group_context_key(messenger_name: &str, group_id: &str) -> (key: String)
    ensures
        key@ == messenger_name@ + ":"@ + group_id@,
{
    let mut k = messenger_name.to_owned();
    k.append(":");
    k.append(group_id);
    k
}

/// A blocked group is never allowed, whatever the allow-list says.
pub proof fn lemma_blocked_never_allowed(
    allowed: Seq<Seq<char>>,
    blocked: Seq<Seq<char>>,
    group: Seq<char>,
)
    requires
        blocked.contains(group),
    ensures
        !group_allowed(allowed, blocked, group),
{
}

/// With no allow-list, every group that is not blocked is allowed.
pub proof fn lemma_empty_allow_list_allows_unblocked(blocked: Seq<Seq<char>>, group: Seq<char>)
    requires
        !blocked.contains(group),
    ensures
        group_allowed(Seq::empty(), blocked, group),
{
}

/// With group chat disabled the agent never responds, in any mode.
pub proof fn lemma_disabled_never_responds(
    activation: ActivationMode,
    prefix: Seq<char>,
    message: Seq<char>,
    agent_name: Seq<char>,
)
    ensures
        !responds(false, activation, prefix, message, agent_name),
{
}

/// Shared isolation gives every group and user the same session.
pub proof fn lemma_shared_session(g1: Seq<char>, u1: Option<Seq<char>>, g2: Seq<char>, u2: Option<Seq<char>>)
    ensures
        session_key_of(IsolationMode::Shared, g1, u1) == session_key_of(IsolationMode::Shared, g2, u2),
{
}

/// Per-group isolation keeps groups apart: two different groups never
/// share a session, whoever speaks; per-user isolation keeps two users of
/// one group apart.
pub proof fn lemma_isolated_sessions_differ(
    g1: Seq<char>,
    u1: Option<Seq<char>>,
    g2: Seq<char>,
    u2: Option<Seq<char>>,
)
    ensures
        g1 != g2 ==> session_key_of(IsolationMode::PerGroup, g1, u1) != session_key_of(
            IsolationMode::PerGroup,
            g2,
            u2,
        ),
        u1 is Some && u2 is Some && u1 != u2 ==> session_key_of(IsolationMode::PerUser, g1, u1)
            != session_key_of(IsolationMode::PerUser, g1, u2),
{
    let p = "group:"@;
    if g1 != g2 && session_key_of(IsolationMode::PerGroup, g1, u1) == session_key_of(
        IsolationMode::PerGroup,
        g2,
        u2,
    ) {
        assert((p + g1).skip(p.len() as int) =~= g1);
        assert((p + g2).skip(p.len() as int) =~= g2);
    }
    if u1 is Some && u2 is Some && u1 != u2 {
        let q = p + g1 + ":user:"@;
        if session_key_of(IsolationMode::PerUser, g1, u1) == session_key_of(IsolationMode::PerUser, g1, u2) {
            assert((q + u1->0).skip(q.len() as int) =~= u1->0);
            assert((q + u2->0).skip(q.len() as int) =~= u2->0);
        }
    }
}

/// Stripping the prefix leaves a suffix of the message.
pub proof fn lemma_stripped_is_suffix(activation: ActivationMode, prefix: Seq<char>, message: Seq<char>)
    ensures
        stripped(activation, prefix, message).len() <= message.len(),
        stripped(activation, prefix, message) == message.skip(
            message.len() - stripped(activation, prefix, message).len(),
        ),
{
    if activation == ActivationMode::Prefix && starts_with(message, prefix) {
        lemma_trim_start_suffix(message.skip(prefix.len() as int));
        let t = trim_start(message.skip(prefix.len() as int));
        assert(message.skip(prefix.len() as int).skip(
            message.skip(prefix.len() as int).len() - t.len(),
        ) =~= message.skip(message.len() - t.len()));
    } else {
        assert(message.skip(0) =~= message);
    }
}

/// `trim_start` keeps a suffix.
proof fn lemma_trim_start_suffix(s: Seq<char>)
    ensures
        trim_start(s).len() <= s.len(),
        trim_start(s) == s.skip(s.len() - trim_start(s).len()),
    decreases s.len(),
{
    if s.len() > 0 && crate::text::is_ws(s[0]) {
        lemma_trim_start_suffix(s.drop_first());
        let t = trim_start(s.drop_first());
        assert(s.drop_first().skip(s.drop_first().len() - t.len()) =~= s.skip(s.len() - t.len()));
    } else {
        assert(s.skip(0) =~= s);
    }
}

} // verus!
