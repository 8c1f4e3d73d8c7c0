//! Server-side protocol sessions.
pub mod irc;

pub use irc::IrcServerSession;
