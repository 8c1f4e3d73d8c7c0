//! Signal messenger decisions: the signal-cli command lines, and the
//! messages read from its JSON output.
use vstd::prelude::*;
use crate::json::{deref_opt, get_opt, i64_opt, jget, jget_opt, ji64, jstr, str_opt, Json};
use crate::json_codec::{json_text, read_json};
use crate::message::{Message, MessageType};
use crate::number::{decimal_int, i64_to_string};
use crate::text::{chars_of, find_in, string_of, trim, trim_range};

verus! {

/// A Signal messenger driving the signal-cli executable.
pub struct SignalCliMessenger {
    name: String,
    phone_number: String,
    signal_cli_path: String,
    connected: bool,
}

/// The model of a `SignalCliMessenger`.
pub ghost struct SignalState {
    pub name: Seq<char>,
    pub phone_number: Seq<char>,
    pub cli_path: Seq<char>,
    pub connected: bool,
}

impl View for SignalCliMessenger {
    type V = SignalState;

    closed spec fn view(&self) -> SignalState {
        SignalState {
            name: self.name@,
            phone_number: self.phone_number@,
            cli_path: self.signal_cli_path@,
            connected: self.connected,
        }
    }
}

/// The views of a sequence of strings.
pub open spec fn texts(v: Seq<String>) -> Seq<Seq<char>> {
    v.map_values(|s: String| s@)
}

impl SignalCliMessenger {
    pub fn new(name: String, phone_number: String) -> (m: SignalCliMessenger)
        ensures
            m@ == (SignalState {
                name: name@,
                phone_number: phone_number@,
                cli_path: "signal-cli"@,
                connected: false,
            }),
    {
        SignalCliMessenger {
            name,
            phone_number,
            signal_cli_path: "signal-cli".to_owned(),
            connected: false,
        }
    }

    /// Use another signal-cli executable.
    pub fn with_cli_path(self, path: String) -> (m: SignalCliMessenger)
        ensures
            m@ == (SignalState { cli_path: path@, ..self@ }),
    {
        SignalCliMessenger { signal_cli_path: path, ..self }
    }

    /// The instance name.
    pub fn name(&self) -> (s: &str)
        ensures
            s@ == self@.name,
    {
        self.name.as_str()
    }

    /// The messenger type identifier.
    pub fn messenger_type(&self) -> (s: &'static str)
        ensures
            s@ == "signal"@,
    {
        "signal"
    }

    /// The signal-cli executable.
    pub fn cli_path(&self) -> (s: &str)
        ensures
            s@ == self@.cli_path,
    {
        self.signal_cli_path.as_str()
    }

    /// Whether the messenger has been initialized and not disconnected.
    pub fn is_connected(&self) -> (b: bool)
        ensures
            b == self@.connected,
    {
        self.connected
    }

    /// Marks the messenger connected (on initialize) or not (on disconnect).
    pub fn set_connected(&mut self, connected: bool)
        ensures
            final(self)@ == (SignalState { connected, ..old(self)@ }),
    {
        self.connected = connected;
    }

    /// The arguments that check signal-cli is there.
    pub fn version_args() -> (a: Vec<String>)
        ensures
            texts(a@) == seq!["--version"@],
    {
        let mut a: Vec<String> = Vec::new();
        a.push("--version".to_owned());
        assert(texts(a@) =~= seq!["--version"@]);
        a
    }

    /// The arguments that send `content` to `recipient`.
    pub fn send_args(&self, recipient: &str, content: &str) -> (a: Vec<String>)
        ensures
            texts(a@) == seq!["-u"@, self@.phone_number, "send"@, "-m"@, content@, recipient@],
    {
        let mut a: Vec<String> = Vec::new();
        a.push("-u".to_owned());
        a.push(self.phone_number.clone());
        a.push("send".to_owned());
        a.push("-m".to_owned());
        a.push(content.to_owned());
        a.push(recipient.to_owned());
        assert(texts(a@) =~= seq!["-u"@, self@.phone_number, "send"@, "-m"@, content@, recipient@]);
        a
    }

    /// The arguments that fetch pending messages as JSON.
    pub fn receive_args(&self) -> (a: Vec<String>)
        ensures
            texts(a@) == seq![
                "-u"@,
                self@.phone_number,
                "receive"@,
                "--output"@,
                "json"@,
                "--timeout"@,
                "1"@,
            ],
    {
        let mut a: Vec<String> = Vec::new();
        a.push("-u".to_owned());
        a.push(self.phone_number.clone());
        a.push("receive".to_owned());
        a.push("--output".to_owned());
        a.push("json".to_owned());
        a.push("--timeout".to_owned());
        a.push("1".to_owned());
        assert(texts(a@) =~= seq![
            "-u"@,
            self@.phone_number,
            "receive"@,
            "--output"@,
            "json"@,
            "--timeout"@,
            "1"@,
        ]);
        a
    }

    /// The id of a message sent at `now_ms` (Unix milliseconds).
    pub fn sent_id(now_ms: i64) -> (id: String)
        ensures
            id@ == "signal:"@ + decimal_int(now_ms as int),
    {
        let mut id = "signal:".to_owned();
        id.append(i64_to_string(now_ms).as_str());
        id
    }
}

// ── receive output ────────────────────────────────────────────────────────────

/// The pieces of `s` between line breaks (`'\n'`), a final empty piece
/// included.
pub open spec fn split_newlines(s: Seq<char>) -> Seq<Seq<char>>
    decreases s.len(),
{
    if s.len() == 0 {
        seq![Seq::empty()]
    } else {
        let prev = split_newlines(s.drop_last());
        if s.last() == '\n' {
            prev.push(Seq::empty())
        } else {
            prev.update(prev.len() - 1, prev.last().push(s.last()))
        }
    }
}

/// The trimmed, non-empty ones of `pieces`.
pub open spec fn kept_lines(pieces: Seq<Seq<char>>) -> Seq<Seq<char>>
    decreases pieces.len(),
{
    if pieces.len() == 0 {
        Seq::empty()
    } else {
        let rest = kept_lines(pieces.drop_last());
        let t = trim(pieces.last());
        if t.len() > 0 {
            rest.push(t)
        } else {
            rest
        }
    }
}

/// The trimmed, non-empty lines of signal-cli's output: one JSON document
/// each.
pub open spec fn output_lines(s: Seq<char>) -> Seq<Seq<char>> {
    kept_lines(split_newlines(s))
}

/// `split_newlines` never yields an empty list.
proof fn lemma_split_nonempty(s: Seq<char>)
    ensures
        split_newlines(s).len() >= 1,
    decreases s.len(),
{
    if s.len() > 0 {
        lemma_split_nonempty(s.drop_last());
    }
}

/// Within a line that starts at `start`, the pieces of a prefix are the
/// complete lines before `start` and the part of the current line.
proof fn lemma_split_current(s: Seq<char>, start: int, j: int)
    requires
        0 <= start <= j <= s.len(),
        start == 0 || s[start - 1] == '\n',
        forall|k: int| start <= k < j ==> s[k] != '\n',
    ensures
        split_newlines(s.take(j)) == split_newlines(s.take(start)).drop_last().push(
            s.subrange(start, j),
        ),
        split_newlines(s.take(start)).last() == Seq::<char>::empty(),
    decreases j - start,
{
    if start > 0 {
        assert(s.take(start).drop_last() =~= s.take(start - 1));
        assert(s.take(start).last() == s[start - 1]);
        assert(split_newlines(s.take(start)) == split_newlines(s.take(start - 1)).push(
            Seq::empty(),
        ));
    } else {
        assert(s.take(0) =~= Seq::<char>::empty());
        assert(split_newlines(s.take(0)) == seq![Seq::<char>::empty()]);
    }
    assert(split_newlines(s.take(start)).last() == Seq::<char>::empty());
    if j > start {
        lemma_split_current(s, start, j - 1);
        assert(s.take(j).drop_last() =~= s.take(j - 1));
        assert(s.take(j).last() == s[j - 1]);
        lemma_split_nonempty(s.take(j - 1));
        assert(s.subrange(start, j) =~= s.subrange(start, j - 1).push(s[j - 1]));
        assert(split_newlines(s.take(j)) =~= split_newlines(s.take(start)).drop_last().push(
            s.subrange(start, j),
        ));
    } else {
        lemma_split_nonempty(s.take(start));
        assert(s.subrange(start, start) =~= Seq::<char>::empty());
        assert(split_newlines(s.take(start)).drop_last().push(s.subrange(start, start))
            =~= split_newlines(s.take(start)));
    }
}

/// Splits signal-cli's output into its trimmed, non-empty lines.
pub fn output_lines_of(text: &str) -> (lines: Vec<String>)
    ensures
        texts(lines@) == output_lines(text@),
{
    let v = chars_of(text);
    let n = v.len();
    let mut out: Vec<String> = Vec::new();
    let mut start: usize = 0;
    let mut j: usize = 0;
    proof {
        assert(v@.take(0) =~= Seq::<char>::empty());
        assert(kept_lines(split_newlines(v@.take(0)).drop_last()) =~= Seq::<Seq<char>>::empty());
    }
    while j < n
        invariant
            n == v@.len(),
            v@ == text@,
            start <= j <= n,
            start == 0 || v@[start - 1] == '\n',
            forall|k: int| start <= k < j ==> v@[k] != '\n',
            texts(out@) == kept_lines(split_newlines(v@.take(start as int)).drop_last()),
        decreases n - j,
    {
        if v[j] == '\n' {
            let (a, b) = trim_range(&v, start, j);
            let ghost before = out@;
            proof {
                lemma_split_current(v@, start as int, j as int);
                assert(v@.take(j + 1).drop_last() =~= v@.take(j as int));
                assert(v@.take(j + 1).last() == '\n');
                lemma_split_nonempty(v@.take(j as int));
                let p = split_newlines(v@.take(j as int));
                assert(split_newlines(v@.take(j + 1)).drop_last() =~= p);
                assert(p.drop_last() =~= split_newlines(v@.take(start as int)).drop_last());
                assert(p.last() == v@.subrange(start as int, j as int));
            }
            if a < b {
                let piece = crate::text::slice_of(&v, a, b);
                out.push(string_of(&piece));
                assert(texts(out@) =~= texts(before).push(v@.subrange(a as int, b as int)));
            }
            start = j + 1;
        }
        j += 1;
    }
    proof {
        lemma_split_current(v@, start as int, n as int);
        assert(v@.take(n as int) =~= v@);
        lemma_split_nonempty(v@);
    }
    let (a, b) = trim_range(&v, start, n);
    if a < b {
        let ghost before = out@;
        let piece = crate::text::slice_of(&v, a, b);
        out.push(string_of(&piece));
        assert(texts(out@) =~= texts(before).push(v@.subrange(a as int, b as int)));
    }
    proof {
        let p = split_newlines(v@);
        assert(p.drop_last() =~= split_newlines(v@.take(start as int)).drop_last());
    }
    out
}

/// The value under `envelope`, or the whole document.
pub open spec fn envelope_of(v: Json) -> Json {
    match jget(v, "envelope"@) {
        Some(e) => e,
        None => v,
    }
}

/// The data part of an envelope: `dataMessage`, else `syncMessage.sentMessage`.
pub open spec fn data_of(env: Json) -> Option<Json> {
    match jget(env, "dataMessage"@) {
        Some(d) => Some(d),
        None => jget_opt(jget(env, "syncMessage"@), "sentMessage"@),
    }
}

/// Milliseconds beyond ten digits of seconds are turned into seconds.
pub open spec fn seconds_of(raw: i64) -> i64 {
    if raw > 10_000_000_000 {
        (raw / 1000) as i64
    } else {
        raw
    }
}

/// The first integer timestamp of the envelope, then of the data; else 0.
pub open spec fn raw_timestamp_of(env: Json, d: Json) -> i64 {
    match ji64(jget(env, "timestamp"@)) {
        Some(t) => t,
        None => match ji64(jget(d, "timestamp"@)) {
            Some(t) => t,
            None => 0,
        },
    }
}

/// The message id: the first timestamp field present (envelope, then
/// data) as decimal text when it is an integer, else `now_ms`.
pub open spec fn signal_id_of(env: Json, d: Json, now_ms: i64) -> Seq<char> {
    let id_value = match jget(env, "timestamp"@) {
        Some(t) => ji64(Some(t)),
        None => ji64(jget(d, "timestamp"@)),
    };
    match id_value {
        Some(t) => decimal_int(t as int),
        None => decimal_int(now_ms as int),
    }
}

/// The sender: the source name, number or id, the first present; else
/// "unknown".
pub open spec fn signal_sender_of(env: Json) -> Seq<char> {
    match jstr(jget(env, "sourceName"@)) {
        Some(s) => s,
        None => match jstr(jget(env, "sourceNumber"@)) {
            Some(s) => s,
            None => match jstr(jget(env, "source"@)) {
                Some(s) => s,
                None => "unknown"@,
            },
        },
    }
}

/// The group a message went to, if any.
pub open spec fn signal_channel_of(d: Json) -> Option<Seq<char>> {
    jstr(jget_opt(jget(d, "groupInfo"@), "groupId"@))
}

/// The id of the quoted message, if any, as decimal text.
pub open spec fn signal_reply_of(d: Json) -> Option<Seq<char>> {
    match ji64(jget_opt(jget(d, "quote"@), "id"@)) {
        Some(r) => Some(decimal_int(r as int)),
        None => None,
    }
}

/// The message a signal-cli JSON document holds, `None` where it holds no
/// text message; `now_ms` is the id when the document has no timestamp.
#[verifier::opaque]
pub open spec fn signal_message_ok(m: Option<Message>, v: Json, now_ms: i64) -> bool {
    let env = envelope_of(v);
    let data = data_of(env);
    match (data, jstr(jget_opt(data, "message"@))) {
        (Some(d), Some(content)) => match m {
            Some(m) => {
                &&& m.id@ == signal_id_of(env, d, now_ms)
                &&& m.sender@ == signal_sender_of(env)
                &&& m.content@ == content
                &&& m.timestamp == seconds_of(raw_timestamp_of(env, d))
                &&& crate::message::opt_str(m.channel) == signal_channel_of(d)
                &&& crate::message::opt_str(m.reply_to) == signal_reply_of(d)
                &&& m.thread_id is None
                &&& m.media is None
                &&& m.is_direct == (signal_channel_of(d) is None)
                &&& m.message_type == MessageType::Text
                &&& m.edited_timestamp is None
                &&& m.reactions is None
            },
            None => false,
        },
        _ => m is None,
    }
}

fn signal_id(envelope: &Json, data: &Json, now_ms: i64) -> (id: String)
    ensures
        id@ == signal_id_of(*envelope, *data, now_ms),
{
    let id_value = match envelope.get("timestamp") {
        Some(t) => t.as_i64(),
        None => i64_opt(data.get("timestamp")),
    };
    match id_value {
        Some(t) => i64_to_string(t),
        None => i64_to_string(now_ms),
    }
}

fn signal_sender(envelope: &Json) -> (s: String)
    ensures
        s@ == signal_sender_of(*envelope),
{
    match str_opt(envelope.get("sourceName")) {
        Some(s) => s.to_owned(),
        None => match str_opt(envelope.get("sourceNumber")) {
            Some(s) => s.to_owned(),
            None => match str_opt(envelope.get("source")) {
                Some(s) => s.to_owned(),
                None => "unknown".to_owned(),
            },
        },
    }
}

fn signal_timestamp(envelope: &Json, data: &Json) -> (t: i64)
    ensures
        t == seconds_of(raw_timestamp_of(*envelope, *data)),
{
    let raw = match i64_opt(envelope.get("timestamp")) {
        Some(t) => t,
        None => match i64_opt(data.get("timestamp")) {
            Some(t) => t,
            None => 0,
        },
    };
    if raw > 10_000_000_000 {
        raw / 1000
    } else {
        raw
    }
}

fn signal_channel(data: &Json) -> (c: Option<String>)
    ensures
        crate::message::opt_str(c) == signal_channel_of(*data),
{
    match str_opt(get_opt(data.get("groupInfo"), "groupId")) {
        Some(g) => Some(g.to_owned()),
        None => None,
    }
}

fn signal_reply(data: &Json) -> (r: Option<String>)
    ensures
        crate::message::opt_str(r) == signal_reply_of(*data),
{
    match i64_opt(get_opt(data.get("quote"), "id")) {
        Some(r) => Some(i64_to_string(r)),
        None => None,
    }
}

/// Reads one signal-cli JSON document into a message.
pub fn parse_signal_message(value: &Json, now_ms: i64) -> (m: Option<Message>)
    ensures
        signal_message_ok(m, *value, now_ms),
        (m is None) == signal_message_ok(None, *value, now_ms),
{
    reveal(signal_message_ok);
    let envelope = match value.get("envelope") {
        Some(e) => e,
        None => value,
    };
    let data_message = match envelope.get("dataMessage") {
        Some(d) => d,
        None => match get_opt(envelope.get("syncMessage"), "sentMessage") {
            Some(d) => d,
            None => return None,
        },
    };
    let content = match str_opt(data_message.get("message")) {
        Some(c) => c.to_owned(),
        None => return None,
    };
    let channel = signal_channel(data_message);
    let is_direct = channel.is_none();
    Some(
        Message {
            id: signal_id(envelope, data_message, now_ms),
            sender: signal_sender(envelope),
            content,
            timestamp: signal_timestamp(envelope, data_message),
            channel,
            reply_to: signal_reply(data_message),
            thread_id: None,
            media: None,
            is_direct,
            message_type: MessageType::Text,
            edited_timestamp: None,
            reactions: None,
        },
    )
}

/// `ms` are the messages of the documents `vs`, in order, those that hold
/// no text message skipped.
pub open spec fn signal_batch_ok(ms: Seq<Message>, vs: Seq<Json>, now_ms: i64) -> bool
    decreases vs.len(),
{
    if vs.len() == 0 {
        ms.len() == 0
    } else if signal_message_ok(None, vs.last(), now_ms) {
        signal_batch_ok(ms, vs.drop_last(), now_ms)
    } else {
        &&& ms.len() > 0
        &&& signal_message_ok(Some(ms.last()), vs.last(), now_ms)
        &&& signal_batch_ok(ms.drop_last(), vs.drop_last(), now_ms)
    }
}

/// The messages of a batch of signal-cli JSON documents, in order,
/// skipping those that hold no text message.
pub fn parse_signal_messages(values: &Vec<Json>, now_ms: i64) -> (ms: Vec<Message>)
    ensures
        signal_batch_ok(ms@, values@, now_ms),
{
    let mut out: Vec<Message> = Vec::new();
    let mut i: usize = 0;
    assert(values@.take(0) =~= Seq::<Json>::empty());
    while i < values.len()
        invariant
            i <= values@.len(),
            signal_batch_ok(out@, values@.take(i as int), now_ms),
        decreases values@.len() - i,
    {
        let ghost before = out@;
        assert(values@.take(i + 1).drop_last() =~= values@.take(i as int));
        assert(values@.take(i + 1).last() == values@[i as int]);
        match parse_signal_message(&values[i], now_ms) {
            Some(m) => {
                out.push(m);
                assert(out@.drop_last() =~= before);
            },
            None => {},
        }
        i += 1;
    }
    assert(values@.take(values@.len() as int) =~= values@);
    out
}

/// The JSON documents of signal-cli's output lines, in order, or the first
/// line that is not one.
pub open spec fn receive_documents(lines: Seq<Seq<char>>) -> Result<Seq<Json>, Seq<char>>
    decreases lines.len(),
{
    if lines.len() == 0 {
        Ok(Seq::empty())
    } else {
        match receive_documents(lines.drop_last()) {
            Err(l) => Err(l),
            Ok(vs) => match json_text(lines.last()) {
                Some(v) => Ok(vs.push(v)),
                None => Err(lines.last()),
            },
        }
    }
}

/// A failing line stays the first failing line of every longer output.
proof fn lemma_receive_error_persists(lines: Seq<Seq<char>>, k: int)
    requires
        0 <= k <= lines.len(),
        receive_documents(lines.take(k)) is Err,
    ensures
        receive_documents(lines) == receive_documents(lines.take(k)),
    decreases lines.len() - k,
{
    if k < lines.len() {
        assert(lines.take(k + 1).drop_last() =~= lines.take(k));
        lemma_receive_error_persists(lines, k + 1);
    } else {
        assert(lines.take(k) =~= lines);
    }
}

/// The error for an output line that is not JSON.
pub open spec fn invalid_line_error(line: Seq<char>) -> Seq<char> {
    "Invalid signal-cli receive JSON: "@ + line
}

impl SignalCliMessenger {
    /// Reads the text that `signal-cli receive` printed: one JSON document
    /// per non-empty line (lines trimmed), the messages of those documents
    /// in order; an error naming the first line that is not JSON.
    pub fn parse_receive_output(&self, text: &str, now_ms: i64) -> (r: Result<Vec<Message>, String>)
        ensures
            match receive_documents(output_lines(text@)) {
                Ok(vs) => r matches Ok(ms) && signal_batch_ok(ms@, vs, now_ms),
                Err(line) => r matches Err(e) && e@ == invalid_line_error(line),
            },
    {
        let lines = output_lines_of(text);
        let ghost ls = output_lines(text@);
        let mut values: Vec<Json> = Vec::new();
        let mut i: usize = 0;
        proof {
            assert(texts(lines@).len() == lines@.len());
            assert(ls.take(0) =~= Seq::<Seq<char>>::empty());
        }
        while i < lines.len()
            invariant
                ls == texts(lines@),
                ls == output_lines(text@),
                i <= lines.len(),
                receive_documents(ls.take(i as int)) == Ok::<Seq<Json>, Seq<char>>(values@),
            decreases lines.len() - i,
        {
            let ghost before = values@;
            proof {
                assert(ls.take(i + 1).drop_last() =~= ls.take(i as int));
                assert(ls.take(i + 1).last() == ls[i as int]);
                assert(ls[i as int] == lines@[i as int]@);
            }
            match read_json(lines[i].as_str()) {
                Some(v) => {
                    values.push(v);
                    assert(values@ == before.push(v));
                },
                None => {
                    proof {
                        lemma_receive_error_persists(ls, i + 1);
                    }
                    let mut e = String::from_str("Invalid signal-cli receive JSON: ");
                    e.append(lines[i].as_str());
                    return Err(e);
                },
            }
            i += 1;
        }
        proof {
            assert(ls.take(lines.len() as int) =~= ls);
        }
        Ok(parse_signal_messages(&values, now_ms))
    }
}

} // verus!
