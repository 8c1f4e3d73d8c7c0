//! Channel/platform type definitions and capabilities.
use vstd::prelude::*;
use crate::text::{all_ascii, ascii_lowered, lowercase, str_eq, to_lowercase};
use std::str::FromStr;

verus! {

/// Supported inbound message delivery modes.
#[derive(Debug, Clone, Copy, PartialEq, Eq, Hash, Structural)]
pub enum InboundMode {
    /// No inbound delivery (send-only).
    NoInbound,
    Polling,
    GatewayLoop,
    SocketMode,
    Webhook,
}

/// Capabilities of a particular channel type.
#[derive(Debug, Clone, Copy, PartialEq, Eq, Hash, Structural)]
pub struct ChannelCapabilities {
    pub inbound_mode: InboundMode,
    pub supports_outbound: bool,
    pub supports_streaming: bool,
    pub supports_interactive: bool,
    pub supports_threads: bool,
    pub supports_voice_ingest: bool,
    pub supports_pairing: bool,
    pub supports_otp: bool,
    pub supports_reactions: bool,
    pub supports_location: bool,
}

/// Descriptor combining a channel type with its display name and capabilities.
#[derive(Debug, Clone, Copy)]
pub struct ChannelDescriptor {
    pub channel_type: ChannelType,
    pub display_name: &'static str,
    pub capabilities: ChannelCapabilities,
}

/// All supported chat platform / channel types.
#[derive(Debug, Clone, Copy, PartialEq, Eq, Hash, Structural)]
pub enum ChannelType {
    Telegram,
    Whatsapp,
    MsTeams,
    Discord,
    Slack,
    Irc,
    Matrix,
    Signal,
    GoogleChat,
    IMessage,
    Console,
    Webhook,
}

/// The identifier of a channel type (lowercase, as used in configuration).
pub open spec fn channel_name(ct: ChannelType) -> Seq<char> {
    match ct {
        ChannelType::Telegram => "telegram"@,
        ChannelType::Whatsapp => "whatsapp"@,
        ChannelType::MsTeams => "msteams"@,
        ChannelType::Discord => "discord"@,
        ChannelType::Slack => "slack"@,
        ChannelType::Irc => "irc"@,
        ChannelType::Matrix => "matrix"@,
        ChannelType::Signal => "signal"@,
        ChannelType::GoogleChat => "googlechat"@,
        ChannelType::IMessage => "imessage"@,
        ChannelType::Console => "console"@,
        ChannelType::Webhook => "webhook"@,
    }
}

/// The human-readable name of a channel type.
pub open spec fn channel_display_name(ct: ChannelType) -> Seq<char> {
    match ct {
        ChannelType::Telegram => "Telegram"@,
        ChannelType::Whatsapp => "WhatsApp"@,
        ChannelType::MsTeams => "Microsoft Teams"@,
        ChannelType::Discord => "Discord"@,
        ChannelType::Slack => "Slack"@,
        ChannelType::Irc => "IRC"@,
        ChannelType::Matrix => "Matrix"@,
        ChannelType::Signal => "Signal"@,
        ChannelType::GoogleChat => "Google Chat"@,
        ChannelType::IMessage => "iMessage"@,
        ChannelType::Console => "Console"@,
        ChannelType::Webhook => "Webhook"@,
    }
}

/// The capabilities of a channel type.
pub open spec fn channel_capabilities(ct: ChannelType) -> ChannelCapabilities {
    match ct {
        ChannelType::Telegram => ChannelCapabilities {
            inbound_mode: InboundMode::Polling,
            supports_outbound: true,
            supports_streaming: true,
            supports_interactive: false,
            supports_threads: false,
            supports_voice_ingest: true,
            supports_pairing: false,
            supports_otp: true,
            supports_reactions: false,
            supports_location: true,
        },
        ChannelType::Whatsapp => ChannelCapabilities {
            inbound_mode: InboundMode::GatewayLoop,
            supports_outbound: true,
            supports_streaming: true,
            supports_interactive: false,
            supports_threads: false,
            supports_voice_ingest: true,
            supports_pairing: true,
            supports_otp: true,
            supports_reactions: false,
            supports_location: false,
        },
        ChannelType::MsTeams => ChannelCapabilities {
            inbound_mode: InboundMode::Webhook,
            supports_outbound: true,
            supports_streaming: true,
            supports_interactive: false,
            supports_threads: false,
            supports_voice_ingest: false,
            supports_pairing: false,
            supports_otp: false,
            supports_reactions: false,
            supports_location: true,
        },
        ChannelType::Discord => ChannelCapabilities {
            inbound_mode: InboundMode::GatewayLoop,
            supports_outbound: true,
            supports_streaming: true,
            supports_interactive: true,
            supports_threads: true,
            supports_voice_ingest: false,
            supports_pairing: false,
            supports_otp: false,
            supports_reactions: false,
            supports_location: true,
        },
        ChannelType::Slack => ChannelCapabilities {
            inbound_mode: InboundMode::SocketMode,
            supports_outbound: true,
            supports_streaming: true,
            supports_interactive: true,
            supports_threads: true,
            supports_voice_ingest: false,
            supports_pairing: false,
            supports_otp: false,
            supports_reactions: true,
            supports_location: false,
        },
        ChannelType::Irc => ChannelCapabilities {
            inbound_mode: InboundMode::GatewayLoop,
            supports_outbound: true,
            supports_streaming: false,
            supports_interactive: false,
            supports_threads: false,
            supports_voice_ingest: false,
            supports_pairing: false,
            supports_otp: false,
            supports_reactions: false,
            supports_location: false,
        },
        ChannelType::Matrix => ChannelCapabilities {
            inbound_mode: InboundMode::GatewayLoop,
            supports_outbound: true,
            supports_streaming: true,
            supports_interactive: false,
            supports_threads: true,
            supports_voice_ingest: false,
            supports_pairing: false,
            supports_otp: false,
            supports_reactions: true,
            supports_location: false,
        },
        ChannelType::Signal => ChannelCapabilities {
            inbound_mode: InboundMode::GatewayLoop,
            supports_outbound: true,
            supports_streaming: false,
            supports_interactive: false,
            supports_threads: false,
            supports_voice_ingest: true,
            supports_pairing: false,
            supports_otp: false,
            supports_reactions: false,
            supports_location: false,
        },
        ChannelType::GoogleChat => ChannelCapabilities {
            inbound_mode: InboundMode::Webhook,
            supports_outbound: true,
            supports_streaming: false,
            supports_interactive: false,
            supports_threads: false,
            supports_voice_ingest: false,
            supports_pairing: false,
            supports_otp: false,
            supports_reactions: false,
            supports_location: false,
        },
        ChannelType::IMessage => ChannelCapabilities {
            inbound_mode: InboundMode::Polling,
            supports_outbound: true,
            supports_streaming: false,
            supports_interactive: false,
            supports_threads: false,
            supports_voice_ingest: false,
            supports_pairing: false,
            supports_otp: false,
            supports_reactions: false,
            supports_location: false,
        },
        ChannelType::Console => ChannelCapabilities {
            inbound_mode: InboundMode::NoInbound,
            supports_outbound: true,
            supports_streaming: false,
            supports_interactive: false,
            supports_threads: false,
            supports_voice_ingest: false,
            supports_pairing: false,
            supports_otp: false,
            supports_reactions: false,
            supports_location: false,
        },
        ChannelType::Webhook => ChannelCapabilities {
            inbound_mode: InboundMode::NoInbound,
            supports_outbound: true,
            supports_streaming: false,
            supports_interactive: false,
            supports_threads: false,
            supports_voice_ingest: false,
            supports_pairing: false,
            supports_otp: false,
            supports_reactions: false,
            supports_location: false,
        },
    }
}

/// The channel type that a lowercased name (or alias) denotes.
pub open spec fn channel_named(s: Seq<char>) -> Option<ChannelType> {
    if s == "telegram"@ {
        Some(ChannelType::Telegram)
    } else if s == "whatsapp"@ {
        Some(ChannelType::Whatsapp)
    } else if s == "msteams"@ {
        Some(ChannelType::MsTeams)
    } else if s == "teams"@ {
        Some(ChannelType::MsTeams)
    } else if s == "microsoft teams"@ {
        Some(ChannelType::MsTeams)
    } else if s == "discord"@ {
        Some(ChannelType::Discord)
    } else if s == "slack"@ {
        Some(ChannelType::Slack)
    } else if s == "irc"@ {
        Some(ChannelType::Irc)
    } else if s == "matrix"@ {
        Some(ChannelType::Matrix)
    } else if s == "signal"@ {
        Some(ChannelType::Signal)
    } else if s == "googlechat"@ {
        Some(ChannelType::GoogleChat)
    } else if s == "google chat"@ {
        Some(ChannelType::GoogleChat)
    } else if s == "imessage"@ {
        Some(ChannelType::IMessage)
    } else if s == "console"@ {
        Some(ChannelType::Console)
    } else if s == "webhook"@ {
        Some(ChannelType::Webhook)
    } else {
        None
    }
}

/// A name that denotes no channel type.
#[derive(Debug)]
pub struct UnknownChannelType {
    /// The name, as lowercased for the lookup.
    pub name: String,
}

impl UnknownChannelType {
    /// The error message.
    pub fn message(&self) -> (m: String)
        ensures
            m@ == "unknown channel type: "@ + self.name@,
    {
        let mut m = "unknown channel type: ".to_owned();
        m.append(self.name.as_str());
        m
    }
}

impl ChannelType {
    /// Every channel type, in declaration order.
    pub const ALL: [ChannelType; 12] = [
        ChannelType::Telegram,
        ChannelType::Whatsapp,
        ChannelType::MsTeams,
        ChannelType::Discord,
        ChannelType::Slack,
        ChannelType::Irc,
        ChannelType::Matrix,
        ChannelType::Signal,
        ChannelType::GoogleChat,
        ChannelType::IMessage,
        ChannelType::Console,
        ChannelType::Webhook,
    ];

    pub fn as_str(&self) -> (s: &'static str)
        ensures
            s@ == channel_name(*self),
    {
        match self {
            ChannelType::Telegram => "telegram",
            ChannelType::Whatsapp => "whatsapp",
            ChannelType::MsTeams => "msteams",
            ChannelType::Discord => "discord",
            ChannelType::Slack => "slack",
            ChannelType::Irc => "irc",
            ChannelType::Matrix => "matrix",
            ChannelType::Signal => "signal",
            ChannelType::GoogleChat => "googlechat",
            ChannelType::IMessage => "imessage",
            ChannelType::Console => "console",
            ChannelType::Webhook => "webhook",
        }
    }

    pub fn display_name(&self) -> (s: &'static str)
        ensures
            s@ == channel_display_name(*self),
    {
        match self {
            ChannelType::Telegram => "Telegram",
            ChannelType::Whatsapp => "WhatsApp",
            ChannelType::MsTeams => "Microsoft Teams",
            ChannelType::Discord => "Discord",
            ChannelType::Slack => "Slack",
            ChannelType::Irc => "IRC",
            ChannelType::Matrix => "Matrix",
            ChannelType::Signal => "Signal",
            ChannelType::GoogleChat => "Google Chat",
            ChannelType::IMessage => "iMessage",
            ChannelType::Console => "Console",
            ChannelType::Webhook => "Webhook",
        }
    }

    pub fn descriptor(&self) -> (d: ChannelDescriptor)
        ensures
            d.channel_type == *self,
            d.display_name@ == channel_display_name(*self),
            d.capabilities == channel_capabilities(*self),
    {
        let caps = match self {
            ChannelType::Telegram => ChannelCapabilities {
                inbound_mode: InboundMode::Polling,
                supports_outbound: true,
                supports_streaming: true,
                supports_interactive: false,
                supports_threads: false,
                supports_voice_ingest: true,
                supports_pairing: false,
                supports_otp: true,
                supports_reactions: false,
                supports_location: true,
            },
            ChannelType::Whatsapp => ChannelCapabilities {
                inbound_mode: InboundMode::GatewayLoop,
                supports_outbound: true,
                supports_streaming: true,
                supports_interactive: false,
                supports_threads: false,
                supports_voice_ingest: true,
                supports_pairing: true,
                supports_otp: true,
                supports_reactions: false,
                supports_location: false,
            },
            ChannelType::MsTeams => ChannelCapabilities {
                inbound_mode: InboundMode::Webhook,
                supports_outbound: true,
                supports_streaming: true,
                supports_interactive: false,
                supports_threads: false,
                supports_voice_ingest: false,
                supports_pairing: false,
                supports_otp: false,
                supports_reactions: false,
                supports_location: true,
            },
            ChannelType::Discord => ChannelCapabilities {
                inbound_mode: InboundMode::GatewayLoop,
                supports_outbound: true,
                supports_streaming: true,
                supports_interactive: true,
                supports_threads: true,
                supports_voice_ingest: false,
                supports_pairing: false,
                supports_otp: false,
                supports_reactions: false,
                supports_location: true,
            },
            ChannelType::Slack => ChannelCapabilities {
                inbound_mode: InboundMode::SocketMode,
                supports_outbound: true,
                supports_streaming: true,
                supports_interactive: true,
                supports_threads: true,
                supports_voice_ingest: false,
                supports_pairing: false,
                supports_otp: false,
                supports_reactions: true,
                supports_location: false,
            },
            ChannelType::Irc => ChannelCapabilities {
                inbound_mode: InboundMode::GatewayLoop,
                supports_outbound: true,
                supports_streaming: false,
                supports_interactive: false,
                supports_threads: false,
                supports_voice_ingest: false,
                supports_pairing: false,
                supports_otp: false,
                supports_reactions: false,
                supports_location: false,
            },
            ChannelType::Matrix => ChannelCapabilities {
                inbound_mode: InboundMode::GatewayLoop,
                supports_outbound: true,
                supports_streaming: true,
                supports_interactive: false,
                supports_threads: true,
                supports_voice_ingest: false,
                supports_pairing: false,
                supports_otp: false,
                supports_reactions: true,
                supports_location: false,
            },
            ChannelType::Signal => ChannelCapabilities {
                inbound_mode: InboundMode::GatewayLoop,
                supports_outbound: true,
                supports_streaming: false,
                supports_interactive: false,
                supports_threads: false,
                supports_voice_ingest: true,
                supports_pairing: false,
                supports_otp: false,
                supports_reactions: false,
                supports_location: false,
            },
            ChannelType::GoogleChat => ChannelCapabilities {
                inbound_mode: InboundMode::Webhook,
                supports_outbound: true,
                supports_streaming: false,
                supports_interactive: false,
                supports_threads: false,
                supports_voice_ingest: false,
                supports_pairing: false,
                supports_otp: false,
                supports_reactions: false,
                supports_location: false,
            },
            ChannelType::IMessage => ChannelCapabilities {
                inbound_mode: InboundMode::Polling,
                supports_outbound: true,
                supports_streaming: false,
                supports_interactive: false,
                supports_threads: false,
                supports_voice_ingest: false,
                supports_pairing: false,
                supports_otp: false,
                supports_reactions: false,
                supports_location: false,
            },
            ChannelType::Console => ChannelCapabilities {
                inbound_mode: InboundMode::NoInbound,
                supports_outbound: true,
                supports_streaming: false,
                supports_interactive: false,
                supports_threads: false,
                supports_voice_ingest: false,
                supports_pairing: false,
                supports_otp: false,
                supports_reactions: false,
                supports_location: false,
            },
            ChannelType::Webhook => ChannelCapabilities {
                inbound_mode: InboundMode::NoInbound,
                supports_outbound: true,
                supports_streaming: false,
                supports_interactive: false,
                supports_threads: false,
                supports_voice_ingest: false,
                supports_pairing: false,
                supports_otp: false,
                supports_reactions: false,
                supports_location: false,
            },
        };
        ChannelDescriptor {
            channel_type: *self,
            display_name: self.display_name(),
            capabilities: caps,
        }
    }

    /// The channel type's identifier, as a `String` (what `Display` shows).
    pub fn to_string(&self) -> (s: String)
        ensures
            s@ == channel_name(*self),
    {
        self.as_str().to_owned()
    }

    /// Looks a channel type up by name or alias, ignoring case.
    pub fn from_name(s: &str) -> (r: Result<ChannelType, UnknownChannelType>)
        ensures
            all_ascii(s@) ==> lowercase(s@) == ascii_lowered(s@),
            match r {
                Ok(ct) => channel_named(lowercase(s@)) == Some(ct),
                Err(e) => channel_named(lowercase(s@)) is None && e.name@ == lowercase(s@),
            },
    {
        let lower = to_lowercase(s);
        let l = lower.as_str();
        if str_eq(l, "telegram") {
            Ok(ChannelType::Telegram)
        } else if str_eq(l, "whatsapp") {
            Ok(ChannelType::Whatsapp)
        } else if str_eq(l, "msteams") {
            Ok(ChannelType::MsTeams)
        } else if str_eq(l, "teams") {
            Ok(ChannelType::MsTeams)
        } else if str_eq(l, "microsoft teams") {
            Ok(ChannelType::MsTeams)
        } else if str_eq(l, "discord") {
            Ok(ChannelType::Discord)
        } else if str_eq(l, "slack") {
            Ok(ChannelType::Slack)
        } else if str_eq(l, "irc") {
            Ok(ChannelType::Irc)
        } else if str_eq(l, "matrix") {
            Ok(ChannelType::Matrix)
        } else if str_eq(l, "signal") {
            Ok(ChannelType::Signal)
        } else if str_eq(l, "googlechat") {
            Ok(ChannelType::GoogleChat)
        } else if str_eq(l, "google chat") {
            Ok(ChannelType::GoogleChat)
        } else if str_eq(l, "imessage") {
            Ok(ChannelType::IMessage)
        } else if str_eq(l, "console") {
            Ok(ChannelType::Console)
        } else if str_eq(l, "webhook") {
            Ok(ChannelType::Webhook)
        } else {
            Err(UnknownChannelType { name: lower })
        }
    }
}

impl FromStr for ChannelType {
    type Err = UnknownChannelType;

    fn from_str(s: &str) -> (r: Result<Self, Self::Err>)
        ensures
            all_ascii(s@) ==> lowercase(s@) == ascii_lowered(s@),
            match r {
                Ok(ct) => channel_named(lowercase(s@)) == Some(ct),
                Err(e) => channel_named(lowercase(s@)) is None && e.name@ == lowercase(s@),
            },
    {
        ChannelType::from_name(s)
    }
}

/// Looking up a channel type by its own identifier gives it back: the
/// identifier is ASCII, lowercase, and names that type.
pub proof fn lemma_name_roundtrip(ct: ChannelType)
    ensures
        all_ascii(channel_name(ct)),
        ascii_lowered(channel_name(ct)) == channel_name(ct),
        channel_named(ascii_lowered(channel_name(ct))) == Some(ct),
{
    let s = channel_name(ct);
    reveal_strlit("telegram");
    reveal_strlit("whatsapp");
    reveal_strlit("msteams");
    reveal_strlit("teams");
    reveal_strlit("microsoft teams");
    reveal_strlit("discord");
    reveal_strlit("slack");
    reveal_strlit("irc");
    reveal_strlit("matrix");
    reveal_strlit("signal");
    reveal_strlit("googlechat");
    reveal_strlit("google chat");
    reveal_strlit("imessage");
    reveal_strlit("console");
    reveal_strlit("webhook");
    match ct {
        ChannelType::Telegram => {

        },
        ChannelType::Whatsapp => {
            assert(s[0] != "telegram"@[0]);
        },
        ChannelType::MsTeams => {

        },
        ChannelType::Discord => {
            assert(s[0] != "msteams"@[0]);
        },
        ChannelType::Slack => {
            assert(s[0] != "teams"@[0]);
        },
        ChannelType::Irc => {

        },
        ChannelType::Matrix => {

        },
        ChannelType::Signal => {
            assert(s[0] != "matrix"@[0]);
        },
        ChannelType::GoogleChat => {

        },
        ChannelType::IMessage => {
            assert(s[0] != "telegram"@[0]);
            assert(s[0] != "whatsapp"@[0]);
        },
        ChannelType::Console => {
            assert(s[0] != "msteams"@[0]);
            assert(s[0] != "discord"@[0]);
        },
        ChannelType::Webhook => {
            assert(s[0] != "msteams"@[0]);
            assert(s[0] != "discord"@[0]);
            assert(s[0] != "console"@[0]);
        },
    }
    assert(ascii_lowered(s) =~= s);
}

/// `ChannelType::ALL` lists every channel type, each once.
pub proof fn lemma_all_lists_each_type_once(ct: ChannelType)
    ensures
        ChannelType::ALL@.len() == 12,
        ChannelType::ALL@.contains(ct),
        forall|i: int, j: int|
            0 <= i < j < 12 ==> ChannelType::ALL@[i] != ChannelType::ALL@[j],
{
    let all = ChannelType::ALL@;
    assert(all =~= seq![
        ChannelType::Telegram,
        ChannelType::Whatsapp,
        ChannelType::MsTeams,
        ChannelType::Discord,
        ChannelType::Slack,
        ChannelType::Irc,
        ChannelType::Matrix,
        ChannelType::Signal,
        ChannelType::GoogleChat,
        ChannelType::IMessage,
        ChannelType::Console,
        ChannelType::Webhook,
    ]);
    match ct {
        ChannelType::Telegram => assert(all[0] == ct),
        ChannelType::Whatsapp => assert(all[1] == ct),
        ChannelType::MsTeams => assert(all[2] == ct),
        ChannelType::Discord => assert(all[3] == ct),
        ChannelType::Slack => assert(all[4] == ct),
        ChannelType::Irc => assert(all[5] == ct),
        ChannelType::Matrix => assert(all[6] == ct),
        ChannelType::Signal => assert(all[7] == ct),
        ChannelType::GoogleChat => assert(all[8] == ct),
        ChannelType::IMessage => assert(all[9] == ct),
        ChannelType::Console => assert(all[10] == ct),
        ChannelType::Webhook => assert(all[11] == ct),
    }
}

/// Every channel type supports outbound messages.
pub proof fn lemma_all_support_outbound(ct: ChannelType)
    ensures
        channel_capabilities(ct).supports_outbound,
{
}

} // verus!
