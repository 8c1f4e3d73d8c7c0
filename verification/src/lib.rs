//! # chat-system
//!
//! The verified core of a multi-protocol chat crate: the message model,
//! rich text and its renderings for every platform, Markdown conversion
//! and chunking, streaming buffers, group chat rules, channel
//! capabilities, media decisions, configuration, and the protocol logic of
//! every messenger: the requests each one sends and how it reads the
//! replies (Discord's gateway, Telegram, Slack, Teams, Google Chat, Matrix,
//! webhooks, Signal, iMessage, the console), and the IRC client and server
//! sessions.
pub mod channel_type;
pub mod config;
pub mod group_chat;
pub mod json;
pub mod json_codec;
pub mod markdown;
pub mod md_events;
pub mod media;
pub mod message;
pub mod messenger;
pub mod messengers;
pub mod number;
pub mod rich_text;
pub mod servers;
pub mod streaming;
pub mod text;
pub mod timestamp;

pub use channel_type::{ChannelCapabilities, ChannelDescriptor, ChannelType, InboundMode};
pub use config::MessengerConfig;
pub use markdown::{chunk_markdown_html, markdown_to_slack, markdown_to_telegram_html};
pub use message::{MediaAttachment, Message, MessageType, Reaction, SendOptions};
pub use messenger::{PresenceStatus, SearchQuery};
pub use rich_text::{RichText, RichTextNode};
