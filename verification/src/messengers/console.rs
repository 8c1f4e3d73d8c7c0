//! Console messenger — the state of a stdin/stdout test double.
use vstd::prelude::*;
use crate::message::Message;
use crate::number::{decimal_int, i64_to_string};

verus! {

/// A console messenger: a name, a connection flag and a queue of messages
/// that every receive hands out again.
pub struct ConsoleMessenger {
    name: String,
    connected: bool,
    messages: Vec<Message>,
}

/// The model of a `ConsoleMessenger`.
pub ghost struct ConsoleState {
    pub name: Seq<char>,
    pub connected: bool,
    pub messages: Seq<Message>,
}

impl View for ConsoleMessenger {
    type V = ConsoleState;

    closed spec fn view(&self) -> ConsoleState {
        ConsoleState { name: self.name@, connected: self.connected, messages: self.messages@ }
    }
}

impl ConsoleMessenger {
    pub fn new(name: String) -> (m: ConsoleMessenger)
        ensures
            m@ == (ConsoleState { name: name@, connected: false, messages: Seq::empty() }),
    {
        ConsoleMessenger { name, connected: false, messages: Vec::new() }
    }

    /// Queue a message for the next receives.
    pub fn enqueue(&mut self, message: Message)
        ensures
            final(self)@ == (ConsoleState {
                messages: old(self)@.messages.push(message),
                ..old(self)@
            }),
    {
        self.messages.push(message);
    }

    /// The instance name.
    pub fn name(&self) -> (s: &str)
        ensures
            s@ == self@.name,
    {
        self.name.as_str()
    }

    /// The messenger type identifier.
    pub fn messenger_type(&self) -> (s: &'static str)
        ensures
            s@ == "console"@,
    {
        "console"
    }

    /// Whether the messenger has been initialized and not disconnected.
    pub fn is_connected(&self) -> (b: bool)
        ensures
            b == self@.connected,
    {
        self.connected
    }

    /// Marks the messenger connected (on initialize) or not (on disconnect).
    pub fn set_connected(&mut self, connected: bool)
        ensures
            final(self)@ == (ConsoleState { connected, ..old(self)@ }),
    {
        self.connected = connected;
    }

    /// The queued messages, which a receive hands out (and keeps).
    pub fn queued(&self) -> (q: &Vec<Message>)
        ensures
            q@ == self@.messages,
    {
        &self.messages
    }

    /// The id of a message sent at `now_ms` (Unix milliseconds).
    pub fn sent_id(now_ms: i64) -> (id: String)
        ensures
            id@ == "console:"@ + decimal_int(now_ms as int),
    {
        let mut id = "console:".to_owned();
        id.append(i64_to_string(now_ms).as_str());
        id
    }
}

} // verus!
