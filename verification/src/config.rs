//! Config-driven messenger and listener descriptions.
//!
//! [`MessengerConfig`] selects a backend by its protocol; each variant holds
//! the per-protocol settings. The choice of backend mode that some
//! protocols make from their settings (Teams, Google Chat) is decided here.
use vstd::prelude::*;

verus! {

// ── per-protocol client config structs ────────────────────────────────────────

/// Configuration for an IRC client connection.
#[derive(Debug, Clone)]
pub struct IrcConfig {
    pub name: String,
    pub server: String,
    pub port: u16,
    pub nick: String,
    pub channels: Vec<String>,
    pub tls: bool,
}

/// The default IRC port.
pub fn default_irc_port() -> (p: u16)
    ensures
        p == 6667,
{
    6667
}

/// Configuration for a Discord bot.
#[derive(Debug, Clone)]
pub struct DiscordConfig {
    pub name: String,
    pub token: String,
}

/// Configuration for a Telegram bot.
#[derive(Debug, Clone)]
pub struct TelegramConfig {
    pub name: String,
    pub token: String,
}

/// Configuration for a Slack bot.
#[derive(Debug, Clone)]
pub struct SlackConfig {
    pub name: String,
    pub token: String,
}

/// Configuration for Microsoft Teams.
///
/// Use `webhook_url` for legacy incoming-webhook mode, or `token` + `team_id`
/// + `channel_id` for Microsoft Graph mode with inbound polling support.
#[derive(Debug, Clone)]
pub struct TeamsConfig {
    pub name: String,
    pub webhook_url: Option<String>,
    pub token: Option<String>,
    pub team_id: Option<String>,
    pub channel_id: Option<String>,
}

/// Configuration for Google Chat.
///
/// Use `webhook_url` for incoming-webhook mode, or `token` + `space_id` for
/// authenticated Google Chat API mode with inbound polling support.
#[derive(Debug, Clone)]
pub struct GoogleChatConfig {
    pub name: String,
    pub webhook_url: Option<String>,
    pub token: Option<String>,
    pub space_id: Option<String>,
}

/// Configuration for the console (stdin/stdout) messenger.
#[derive(Debug, Clone)]
pub struct ConsoleConfig {
    pub name: String,
}

/// Configuration for an outbound HTTP webhook.
#[derive(Debug, Clone)]
pub struct WebhookConfig {
    pub name: String,
    pub url: String,
}

/// Configuration for the iMessage messenger (macOS only).
#[derive(Debug, Clone)]
pub struct IMessageConfig {
    pub name: String,
}

/// Configuration for a Matrix client.
#[derive(Debug, Clone)]
pub struct MatrixConfig {
    pub name: String,
    pub homeserver: String,
    pub username: String,
    pub password: String,
}

/// Configuration for a Signal CLI messenger.
#[derive(Debug, Clone)]
pub struct SignalCliConfig {
    pub name: String,
    pub phone_number: String,
    pub cli_path: String,
}

/// The default signal-cli executable.
pub fn default_signal_cli_path() -> (s: String)
    ensures
        s@ == "signal-cli"@,
{
    "signal-cli".to_owned()
}

/// Configuration for a WhatsApp messenger.
#[derive(Debug, Clone)]
pub struct WhatsAppConfig {
    pub name: String,
    /// Path to the SQLite session database (e.g. `"whatsapp.db"`).
    pub db_path: String,
}

// ── MessengerConfig ────────────────────────────────────────────────────────────

/// Protocol-selecting messenger configuration.
#[derive(Debug, Clone)]
pub enum MessengerConfig {
    Irc(IrcConfig),
    Discord(DiscordConfig),
    Telegram(TelegramConfig),
    Slack(SlackConfig),
    Teams(TeamsConfig),
    GoogleChat(GoogleChatConfig),
    Console(ConsoleConfig),
    Webhook(WebhookConfig),
    IMessage(IMessageConfig),
    Matrix(MatrixConfig),
    SignalCli(SignalCliConfig),
    WhatsApp(WhatsAppConfig),
}

/// The instance name held by a messenger configuration.
pub open spec fn config_name(c: MessengerConfig) -> Seq<char> {
    match c {
        MessengerConfig::Irc(c) => c.name@,
        MessengerConfig::Discord(c) => c.name@,
        MessengerConfig::Telegram(c) => c.name@,
        MessengerConfig::Slack(c) => c.name@,
        MessengerConfig::Teams(c) => c.name@,
        MessengerConfig::GoogleChat(c) => c.name@,
        MessengerConfig::Console(c) => c.name@,
        MessengerConfig::Webhook(c) => c.name@,
        MessengerConfig::IMessage(c) => c.name@,
        MessengerConfig::Matrix(c) => c.name@,
        MessengerConfig::SignalCli(c) => c.name@,
        MessengerConfig::WhatsApp(c) => c.name@,
    }
}

/// The protocol identifier of a messenger configuration (its tag).
pub open spec fn config_protocol(c: MessengerConfig) -> Seq<char> {
    match c {
        MessengerConfig::Irc(_) => "irc"@,
        MessengerConfig::Discord(_) => "discord"@,
        MessengerConfig::Telegram(_) => "telegram"@,
        MessengerConfig::Slack(_) => "slack"@,
        MessengerConfig::Teams(_) => "teams"@,
        MessengerConfig::GoogleChat(_) => "googlechat"@,
        MessengerConfig::Console(_) => "console"@,
        MessengerConfig::Webhook(_) => "webhook"@,
        MessengerConfig::IMessage(_) => "imessage"@,
        MessengerConfig::Matrix(_) => "matrix"@,
        MessengerConfig::SignalCli(_) => "signal"@,
        MessengerConfig::WhatsApp(_) => "whatsapp"@,
    }
}

impl MessengerConfig {
    /// The human-readable name for this messenger instance.
    pub fn name(&self) -> (s: &str)
        ensures
            s@ == config_name(*self),
    {
        match self {
            MessengerConfig::Irc(c) => c.name.as_str(),
            MessengerConfig::Discord(c) => c.name.as_str(),
            MessengerConfig::Telegram(c) => c.name.as_str(),
            MessengerConfig::Slack(c) => c.name.as_str(),
            MessengerConfig::Teams(c) => c.name.as_str(),
            MessengerConfig::GoogleChat(c) => c.name.as_str(),
            MessengerConfig::Console(c) => c.name.as_str(),
            MessengerConfig::Webhook(c) => c.name.as_str(),
            MessengerConfig::IMessage(c) => c.name.as_str(),
            MessengerConfig::Matrix(c) => c.name.as_str(),
            MessengerConfig::SignalCli(c) => c.name.as_str(),
            MessengerConfig::WhatsApp(c) => c.name.as_str(),
        }
    }

    /// The protocol identifier string.
    pub fn protocol_name(&self) -> (s: &'static str)
        ensures
            s@ == config_protocol(*self),
    {
        match self {
            MessengerConfig::Irc(_) => "irc",
            MessengerConfig::Discord(_) => "discord",
            MessengerConfig::Telegram(_) => "telegram",
            MessengerConfig::Slack(_) => "slack",
            MessengerConfig::Teams(_) => "teams",
            MessengerConfig::GoogleChat(_) => "googlechat",
            MessengerConfig::Console(_) => "console",
            MessengerConfig::Webhook(_) => "webhook",
            MessengerConfig::IMessage(_) => "imessage",
            MessengerConfig::Matrix(_) => "matrix",
            MessengerConfig::SignalCli(_) => "signal",
            MessengerConfig::WhatsApp(_) => "whatsapp",
        }
    }
}

/// A configuration that does not name a usable backend mode.
#[derive(Debug, Clone, Copy, PartialEq, Eq, Structural)]
pub enum ConfigError {
    /// Teams needs a webhook URL, or a token with a team and a channel.
    TeamsIncomplete,
    /// Google Chat needs a webhook URL, or a token with a space.
    GoogleChatIncomplete,
}

/// The message of a configuration error.
pub open spec fn config_error_message(e: ConfigError) -> Seq<char> {
    match e {
        ConfigError::TeamsIncomplete => "Teams config requires either webhook_url or token + team_id + channel_id"@,
        ConfigError::GoogleChatIncomplete => "Google Chat config requires either webhook_url or token + space_id"@,
    }
}

impl ConfigError {
    /// The error message.
    pub fn message(&self) -> (s: &'static str)
        ensures
            s@ == config_error_message(*self),
    {
        match self {
            ConfigError::TeamsIncomplete => "Teams config requires either webhook_url or token + team_id + channel_id",
            ConfigError::GoogleChatIncomplete => "Google Chat config requires either webhook_url or token + space_id",
        }
    }
}

/// The mode a Teams messenger is built in.
#[derive(Debug)]
pub enum TeamsMode {
    /// Microsoft Graph with inbound polling.
    Graph { token: String, team_id: String, channel_id: String },
    /// Legacy incoming webhook (send only).
    Webhook { webhook_url: String },
}

/// The mode a Google Chat messenger is built in.
#[derive(Debug)]
pub enum GoogleChatMode {
    /// The Google Chat API with inbound polling.
    Api { token: String, space_id: String },
    /// Incoming webhook (send only).
    Webhook { webhook_url: String },
}

/// The text of an optional string.
pub open spec fn opt_view(o: Option<String>) -> Option<Seq<char>> {
    match o {
        Some(s) => Some(s@),
        None => None,
    }
}

impl TeamsConfig {
    /// The backend mode: Graph when a token, a team and a channel are all
    /// given (whether or not a webhook is), else the webhook, else an error.
    pub fn mode(&self) -> (r: Result<TeamsMode, ConfigError>)
        ensures
            match r {
                Ok(TeamsMode::Graph { token, team_id, channel_id }) => {
                    &&& self.token is Some && self.team_id is Some && self.channel_id is Some
                    &&& token@ == self.token->0@
                    &&& team_id@ == self.team_id->0@
                    &&& channel_id@ == self.channel_id->0@
                },
                Ok(TeamsMode::Webhook { webhook_url }) => {
                    &&& !(self.token is Some && self.team_id is Some && self.channel_id is Some)
                    &&& self.webhook_url is Some
                    &&& webhook_url@ == self.webhook_url->0@
                },
                Err(e) => {
                    &&& !(self.token is Some && self.team_id is Some && self.channel_id is Some)
                    &&& self.webhook_url is None
                    &&& e == ConfigError::TeamsIncomplete
                },
            },
    {
        match (&self.token, &self.team_id, &self.channel_id) {
            (Some(token), Some(team_id), Some(channel_id)) => {
                return Ok(
                    TeamsMode::Graph {
                        token: token.clone(),
                        team_id: team_id.clone(),
                        channel_id: channel_id.clone(),
                    },
                );
            },
            _ => {},
        }
        match &self.webhook_url {
            Some(url) => Ok(TeamsMode::Webhook { webhook_url: url.clone() }),
            None => Err(ConfigError::TeamsIncomplete),
        }
    }
}

impl GoogleChatConfig {
    /// The backend mode: the API when a token and a space are both given
    /// (whether or not a webhook is), else the webhook, else an error.
    pub fn mode(&self) -> (r: Result<GoogleChatMode, ConfigError>)
        ensures
            match r {
                Ok(GoogleChatMode::Api { token, space_id }) => {
                    &&& self.token is Some && self.space_id is Some
                    &&& token@ == self.token->0@
                    &&& space_id@ == self.space_id->0@
                },
                Ok(GoogleChatMode::Webhook { webhook_url }) => {
                    &&& !(self.token is Some && self.space_id is Some)
                    &&& self.webhook_url is Some
                    &&& webhook_url@ == self.webhook_url->0@
                },
                Err(e) => {
                    &&& !(self.token is Some && self.space_id is Some)
                    &&& self.webhook_url is None
                    &&& e == ConfigError::GoogleChatIncomplete
                },
            },
    {
        match (&self.token, &self.space_id) {
            (Some(token), Some(space_id)) => {
                return Ok(GoogleChatMode::Api { token: token.clone(), space_id: space_id.clone() });
            },
            _ => {},
        }
        match &self.webhook_url {
            Some(url) => Ok(GoogleChatMode::Webhook { webhook_url: url.clone() }),
            None => Err(ConfigError::GoogleChatIncomplete),
        }
    }
}

// ── listeners ─────────────────────────────────────────────────────────────────

/// Configuration for an IRC listener: a single TCP address the server will
/// accept IRC connections on.
#[derive(Debug, Clone)]
pub struct IrcListenerConfig {
    /// TCP address to bind (e.g. `"0.0.0.0:6667"`).
    pub address: String,
}

impl IrcListenerConfig {
    /// The wire protocol this listener speaks.
    pub fn protocol(&self) -> (s: &'static str)
        ensures
            s@ == "irc"@,
    {
        "irc"
    }

    /// The address this listener will bind.
    pub fn address(&self) -> (s: &str)
        ensures
            s@ == self.address@,
    {
        self.address.as_str()
    }
}

} // verus!
