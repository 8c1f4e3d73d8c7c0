//! WhatsApp messenger stub: a name, a session database path and a
//! connection flag. Sending fails: before `initialize` because the
//! messenger is not initialised, afterwards because no WhatsApp client
//! stands behind it.
use vstd::prelude::*;

verus! {

/// The WhatsApp messenger stub.
pub struct WhatsAppMessenger {
    name: String,
    db_path: String,
    connected: bool,
}

/// The model of a `WhatsAppMessenger`.
pub ghost struct WhatsAppState {
    pub name: Seq<char>,
    pub db_path: Seq<char>,
    pub connected: bool,
}

impl View for WhatsAppMessenger {
    type V = WhatsAppState;

    closed spec fn view(&self) -> WhatsAppState {
        WhatsAppState { name: self.name@, db_path: self.db_path@, connected: self.connected }
    }
}

/// The error a send gets before the messenger is initialised.
pub open spec fn not_initialised_error() -> Seq<char> {
    "WhatsApp messenger not initialised; call initialize() first"@
}

/// The error a send gets once the messenger is initialised.
pub open spec fn stub_error() -> Seq<char> {
    "WhatsApp messenger is a stub."@
}

/// The error of a send in state `st`.
pub open spec fn send_error_for(st: WhatsAppState) -> Seq<char> {
    if st.connected {
        stub_error()
    } else {
        not_initialised_error()
    }
}

impl WhatsAppMessenger {
    /// A messenger named `name` keeping its session in the database at
    /// `db_path`; not connected until initialised.
    pub fn new(name: String, db_path: String) -> (m: WhatsAppMessenger)
        ensures
            m@ == (WhatsAppState { name: name@, db_path: db_path@, connected: false }),
    {
        WhatsAppMessenger { name, db_path, connected: false }
    }

    /// The instance name.
    pub fn name(&self) -> (s: &str)
        ensures
            s@ == self@.name,
    {
        self.name.as_str()
    }

    /// The path of the session database.
    pub fn db_path(&self) -> (s: &str)
        ensures
            s@ == self@.db_path,
    {
        self.db_path.as_str()
    }

    /// The messenger type identifier.
    pub fn messenger_type(&self) -> (s: &'static str)
        ensures
            s@ == "whatsapp"@,
    {
        "whatsapp"
    }

    /// Whether the messenger has been initialized and not disconnected.
    pub fn is_connected(&self) -> (b: bool)
        ensures
            b == self@.connected,
    {
        self.connected
    }

    /// Marks the messenger connected (on initialize) or not (on disconnect).
    pub fn set_connected(&mut self, connected: bool)
        ensures
            final(self)@ == (WhatsAppState { connected, ..old(self)@ }),
    {
        self.connected = connected;
    }

    /// The result of sending `content` to `recipient`: always an error,
    /// which says that the messenger is not initialised when it is not
    /// connected, and that it is a stub otherwise.
    pub fn send_message(&self, recipient: &str, content: &str) -> (r: Result<String, String>)
        ensures
            r is Err,
            r matches Err(e) && e@ == send_error_for(self@),
            !self@.connected ==> (r matches Err(e) && e@ == not_initialised_error()),
    {
        if self.connected {
            Err(String::from_str("WhatsApp messenger is a stub."))
        } else {
            Err(String::from_str("WhatsApp messenger not initialised; call initialize() first"))
        }
    }
}

/// Before initialisation the error of a send mentions that the messenger is
/// not initialised: the text "not initialised" occurs in it.
pub proof fn lemma_not_initialised_error_mentions_it()
    ensures
        not_initialised_error().subrange(19, 34) == "not initialised"@,
{
    reveal_strlit("WhatsApp messenger not initialised; call initialize() first");
    reveal_strlit("not initialised");
    assert(not_initialised_error().subrange(19, 34) =~= "not initialised"@);
}

} // verus!
