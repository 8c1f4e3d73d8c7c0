//! Core message types.
use vstd::prelude::*;

verus! {

/// The kind of a message, allowing callers to distinguish between regular
/// text messages and system events.
#[derive(Debug, Clone, Copy, PartialEq, Eq, Structural)]
pub enum MessageType {
    /// A regular text message.
    Text,
    /// A system/service message (join, leave, topic change, etc.).
    System,
    /// The message was edited (content reflects the latest version).
    Edit,
    /// The message was deleted (content may be empty).
    Delete,
    /// The message contains a media attachment (image, file, etc.).
    Media,
    /// An action / `/me` message (IRC ACTION, Slack `/me`).
    Action,
}

impl Default for MessageType {
    fn default() -> (t: Self)
        ensures
            t == MessageType::Text,
    {
        MessageType::Text
    }
}

/// A single emoji reaction attached to a message, with an aggregate count and
/// the list of user IDs who reacted.
///
/// `user_ids` may be empty on platforms that only expose aggregate counts.
#[derive(Debug, Clone, PartialEq, Eq)]
pub struct Reaction {
    /// The emoji (Unicode character or platform-specific shortcode).
    pub emoji: String,
    /// Number of users who added this reaction.
    pub count: u32,
    /// IDs of the users who reacted (may be empty if the platform does not expose them).
    pub user_ids: Vec<String>,
}

/// A message received from or sent to a chat platform.
#[derive(Debug, Clone)]
pub struct Message {
    pub id: String,
    pub sender: String,
    pub content: String,
    pub timestamp: i64,
    pub channel: Option<String>,
    /// ID of the message this is replying to, if any.
    pub reply_to: Option<String>,
    /// Thread / conversation ID, when the platform distinguishes threads from
    /// the main channel timeline (e.g. Slack, Discord, Matrix).
    pub thread_id: Option<String>,
    pub media: Option<Vec<MediaAttachment>>,
    pub is_direct: bool,
    /// The kind of this message.
    pub message_type: MessageType,
    /// When the message was last edited (Unix timestamp), if applicable.
    pub edited_timestamp: Option<i64>,
    /// Reactions attached to this message (populated when receiving messages on
    /// platforms that expose them; `None` means unknown / not fetched).
    pub reactions: Option<Vec<Reaction>>,
}

/// A media attachment in a message.
#[derive(Debug, Clone)]
pub struct MediaAttachment {
    pub url: Option<String>,
    pub path: Option<String>,
    pub mime_type: Option<String>,
    pub filename: Option<String>,
    /// File size in bytes, when known.
    pub size: Option<u64>,
}

/// Options for sending a message with additional metadata.
#[derive(Debug, Default)]
pub struct SendOptions<'a> {
    pub recipient: &'a str,
    pub content: &'a str,
    pub reply_to: Option<&'a str>,
    /// Thread ID to send into (platforms that support threading).
    pub thread_id: Option<&'a str>,
    pub silent: bool,
    pub media: Option<&'a str>,
}

/// The text of an optional string.
pub open spec fn opt_str(o: Option<String>) -> Option<Seq<char>> {
    match o {
        Some(s) => Some(s@),
        None => None,
    }
}

/// The text of an optional borrowed string.
pub open spec fn opt_text(o: Option<&str>) -> Option<Seq<char>> {
    match o {
        Some(s) => Some(s@),
        None => None,
    }
}

impl Message {
    /// A plain message with every optional field empty.
    pub fn plain(
        id: String,
        sender: String,
        content: String,
        timestamp: i64,
        channel: Option<String>,
        is_direct: bool,
        message_type: MessageType,
    ) -> (m: Message)
        ensures
            m.id == id,
            m.sender == sender,
            m.content == content,
            m.timestamp == timestamp,
            m.channel == channel,
            m.reply_to is None,
            m.thread_id is None,
            m.media is None,
            m.is_direct == is_direct,
            m.message_type == message_type,
            m.edited_timestamp is None,
            m.reactions is None,
    {
        Message {
            id,
            sender,
            content,
            timestamp,
            channel,
            reply_to: None,
            thread_id: None,
            media: None,
            is_direct,
            message_type,
            edited_timestamp: None,
            reactions: None,
        }
    }
}

} // verus!
