//! Protocol-specific messenger state and decisions.
pub mod console;
pub mod discord;
pub mod google_chat;
pub mod history;
pub mod imessage;
pub mod matrix;
pub mod matrix_cli;
pub mod irc;
pub mod signal_cli;
pub mod slack;
pub mod teams;
pub mod telegram;
pub mod webhook;
pub mod whatsapp;

pub use console::ConsoleMessenger;
pub use signal_cli::SignalCliMessenger;
pub use whatsapp::WhatsAppMessenger;
