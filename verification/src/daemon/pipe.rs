//! The daemon's side of the pipe: bytes become lines, and lines become commands.
//!
//! A message is one line of JSON. A client may close the pipe as soon as it has written it.
use super::types::{word_names_its_mode, words_are_lower_case, DaemonCmd, Event, Mode};
use crate::json::{as_text, json_of, member, parse_json, parsed, Json};
use crate::text::{
    a_piece_ends_at_the_separator, ascii_lower, blank, chars_of, decode_lossy, lossy_text, pieces,
    pieces_hold_no_separator, same, split, string_of, text_without_separator_is_one_piece, texts,
    trim, trimmed, trimming_adds_nothing, trimming_twice_is_trimming_once, Blank,
};
use serde_json::Value;
use vstd::prelude::*;
use vstd::string::StringExecFns;
use vstd::utf8::{decode_utf8, encode_utf8, valid_utf8};

verus! {

/// Where the daemon listens.
pub const PIPE_NAME: &'static str = "\\\\.\\pipe\\cursorlight";

/// The longest that a line may grow before its end has come, so that no client that never ends one
/// fills up the memory.
pub const MAX_MESSAGE_BYTES: usize = 1024 * 1024;

/// How much is read at once.
pub const READ_CHUNK: usize = 16 * 1024;

/// How long a client may be silent.
pub const READ_TIMEOUT_SECS: u64 = 10;

/// How much of a message that cannot be read goes into the log.
pub const LOG_PREVIEW_CHARS: usize = 400;

/// How many instances of the pipe there may be.
pub const MAX_INSTANCES: usize = 4;

/// How often an instance of the pipe is tried to be made.
pub const SPARE_ATTEMPTS: u32 = 5;

/// The pause after an attempt that failed.
pub const SPARE_RETRY_MS: u64 = 200;

/// Whether another attempt follows the failure of the given one. They are counted from one.
pub fn tries_again(attempt: u32) -> (r: bool)
    ensures
        r == (attempt < SPARE_ATTEMPTS),
        r <==> attempt < 5,
{
    attempt < SPARE_ATTEMPTS
}

/// What the pipe server is at.
#[derive(Debug, Clone, Copy, PartialEq, Eq, Structural)]
pub enum ServerPhase {
    /// An instance waits for a client.
    Listening,
    /// A client has connected, and another instance is being made for the next one.
    Sparing,
    /// The client is being served; `spare` says whether another instance listens meanwhile.
    Serving { spare: bool },
    /// There is no instance, and one is being made.
    Replacing,
}

/// What happens to the pipe server.
#[derive(Debug, Clone, Copy, PartialEq, Eq, Structural)]
pub enum ServerEvent {
    /// A client has connected, or that went wrong.
    Client { ok: bool },
    /// An instance has been made, or all attempts at it failed.
    Instance { made: bool },
    /// The client is done, whatever came of it. `open` says whether anyone still takes commands.
    Served { open: bool },
}

/// What the pipe server does next.
#[derive(Debug, Clone, Copy, PartialEq, Eq, Structural)]
pub enum ServerAction {
    /// Let the instance wait for a client.
    Listen,
    /// Make an instance and keep it beside the one that has the client.
    MakeSpare,
    /// Serve the client.
    Serve,
    /// Drop the instance that has been used, and let the spare one wait for a client.
    HandOver,
    /// Drop the instance that has been used or has failed, and make another.
    Replace,
    /// End: nobody takes commands any more.
    Stop,
    /// End: no instance can be made.
    Fail,
}

/// The pipe server after an event, and what it does next. Nothing that a client does ends it.
pub open spec fn server_step(
    phase: ServerPhase,
    event: ServerEvent,
) -> (ServerPhase, ServerAction) {
    match (phase, event) {
        (ServerPhase::Listening, ServerEvent::Client { ok }) => if ok {
            (ServerPhase::Sparing, ServerAction::MakeSpare)
        } else {
            (ServerPhase::Replacing, ServerAction::Replace)
        },
        (ServerPhase::Sparing, ServerEvent::Instance { made }) => (
            ServerPhase::Serving { spare: made },
            ServerAction::Serve,
        ),
        (ServerPhase::Serving { spare }, ServerEvent::Served { open }) => if !open {
            (phase, ServerAction::Stop)
        } else if spare {
            (ServerPhase::Listening, ServerAction::HandOver)
        } else {
            (ServerPhase::Replacing, ServerAction::Replace)
        },
        (ServerPhase::Replacing, ServerEvent::Instance { made }) => if made {
            (ServerPhase::Listening, ServerAction::Listen)
        } else {
            (phase, ServerAction::Fail)
        },
        _ => (phase, ServerAction::Fail),
    }
}

/// Whether an event can happen in a phase.
pub open spec fn is_due(phase: ServerPhase, event: ServerEvent) -> bool {
    match phase {
        ServerPhase::Listening => event is Client,
        ServerPhase::Sparing | ServerPhase::Replacing => event is Instance,
        ServerPhase::Serving { .. } => event is Served,
    }
}

pub fn pipe_server(phase: ServerPhase, event: ServerEvent) -> (r: (ServerPhase, ServerAction))
    requires
        is_due(phase, event),
    ensures
        r == server_step(phase, event),
{
    match (phase, event) {
        (ServerPhase::Listening, ServerEvent::Client { ok }) => if ok {
            (ServerPhase::Sparing, ServerAction::MakeSpare)
        } else {
            (ServerPhase::Replacing, ServerAction::Replace)
        },
        (ServerPhase::Sparing, ServerEvent::Instance { made }) => (
            ServerPhase::Serving { spare: made },
            ServerAction::Serve,
        ),
        (ServerPhase::Serving { spare }, ServerEvent::Served { open }) => if !open {
            (phase, ServerAction::Stop)
        } else if spare {
            (ServerPhase::Listening, ServerAction::HandOver)
        } else {
            (ServerPhase::Replacing, ServerAction::Replace)
        },
        (ServerPhase::Replacing, ServerEvent::Instance { made }) => if made {
            (ServerPhase::Listening, ServerAction::Listen)
        } else {
            (phase, ServerAction::Fail)
        },
        _ => (phase, ServerAction::Fail),
    }
}

/// How much has come of a line whose end has not: the bytes behind the last line feed.
pub open spec fn unfinished(raw: Seq<u8>) -> nat
    decreases raw.len(),
{
    if raw.len() == 0 || raw.last() == 10u8 {
        0
    } else {
        1 + unfinished(raw.drop_last())
    }
}

/// What a client has sent after one more chunk, and whether to stop reading: the client has closed
/// its end, or its last line has grown too long and has been cut. The lines before it stay whole.
pub open spec fn received(raw: Seq<u8>, chunk: Seq<u8>) -> (Seq<u8>, bool) {
    let all = raw + chunk;
    if chunk.len() == 0 {
        (raw, true)
    } else if unfinished(all) > MAX_MESSAGE_BYTES {
        (all.take(all.len() - (unfinished(all) - MAX_MESSAGE_BYTES)), true)
    } else {
        (all, false)
    }
}

/// The bytes from `i` to `j` hold no line feed.
pub open spec fn is_stretch(s: Seq<u8>, i: int, j: int) -> bool {
    0 <= i <= j <= s.len() && forall|k: int| i <= k < j ==> s[k] != 10u8
}

proof fn lemma_unfinished_is_a_stretch(s: Seq<u8>)
    ensures
        unfinished(s) <= s.len(),
        is_stretch(s, s.len() - unfinished(s), s.len() as int),
        unfinished(s) < s.len() ==> s[s.len() - unfinished(s) - 1] == 10u8,
    decreases s.len(),
{
    if s.len() > 0 && s.last() != 10u8 {
        let t = s.drop_last();
        lemma_unfinished_is_a_stretch(t);
        let from = s.len() - unfinished(s);
        assert forall|k: int| from <= k < s.len() implies s[k] != 10u8 by {
            if k < t.len() {
                assert(t[k] == s[k]);
            }
        }
    }
}

proof fn lemma_unfinished_is(s: Seq<u8>, from: int)
    requires
        is_stretch(s, from, s.len() as int),
        from > 0 ==> s[from - 1] == 10u8,
    ensures
        unfinished(s) == s.len() - from,
{
    lemma_unfinished_is_a_stretch(s);
    let other = s.len() - unfinished(s);
    if other < from {
        assert(s[from - 1] != 10u8);
    } else if other > from {
        assert(s[other - 1] == 10u8);
    }
}

fn count_unfinished(v: &Vec<u8>) -> (n: usize)
    ensures
        n == unfinished(v@),
{
    let mut from: usize = v.len();
    while from > 0 && v[from - 1] != 10
        invariant
            is_stretch(v@, from as int, v@.len() as int),
        decreases from,
    {
        from -= 1;
    }
    proof {
        lemma_unfinished_is(v@, from as int);
    }
    v.len() - from
}

/// The texts that are not empty.
pub open spec fn filled(lines: Seq<Seq<char>>) -> Seq<Seq<char>> {
    lines.filter(|line: Seq<char>| line.len() > 0)
}

/// The lines of a text, without the blanks around them and without empty ones.
pub open spec fn lines_of(text: Seq<char>) -> Seq<Seq<char>> {
    filled(pieces(text, '\n').map_values(|line: Seq<char>| trimmed(Blank::Unicode, line)))
}

/// What one client sends.
#[derive(Debug)]
pub struct FrameBuffer {
    raw: Vec<u8>,
}

impl View for FrameBuffer {
    type V = Seq<u8>;

    closed spec fn view(&self) -> Seq<u8> {
        self.raw@
    }
}

impl FrameBuffer {
    pub fn new() -> (b: Self)
        ensures
            b@ == Seq::<u8>::empty(),
    {
        FrameBuffer { raw: Vec::new() }
    }

    /// Takes in a chunk. An empty one says that the client has closed its end.
    pub fn push(&mut self, chunk: &[u8]) -> (stop: bool)
        ensures
            (final(self)@, stop) == received(old(self)@, chunk@),
    {
        if chunk.len() == 0 {
            return true;
        }
        self.raw.extend_from_slice(chunk);
        assert(self.raw@ == old(self).raw@ + chunk@);
        let last: usize = count_unfinished(&self.raw);
        if last > MAX_MESSAGE_BYTES {
            let ghost all = self.raw@;
            proof {
                lemma_unfinished_is_a_stretch(all);
            }
            let kept: usize = self.raw.len() - (last - MAX_MESSAGE_BYTES);
            self.raw.truncate(kept);
            assert(self.raw@ == all.take(kept as int));
            return true;
        }
        false
    }

    /// The messages in what the client has sent.
    pub fn messages(&self) -> (lines: Vec<String>)
        ensures
            texts(lines@) == lines_of(lossy_text(self@)),
            valid_utf8(self@) ==> texts(lines@) == lines_of(decode_utf8(self@)),
    {
        let text = decode_lossy(self.raw.as_slice());
        message_lines(text.as_str())
    }
}

/// The messages in a text.
pub fn message_lines(text: &str) -> (lines: Vec<String>)
    ensures
        texts(lines@) == lines_of(text@),
{
    let parts = split(text, '\n');
    let ghost all = pieces(text@, '\n').map_values(
        |line: Seq<char>| trimmed(Blank::Unicode, line),
    );
    let mut lines: Vec<String> = Vec::new();
    let mut i: usize = 0;
    assert(filled(all.take(0)) == Seq::<Seq<char>>::empty()) by {
        reveal(Seq::filter);
    }
    assert(texts(lines@) == Seq::<Seq<char>>::empty());
    while i < parts.len()
        invariant
            i <= parts@.len(),
            texts(parts@) == pieces(text@, '\n'),
            all == pieces(text@, '\n').map_values(
                |line: Seq<char>| trimmed(Blank::Unicode, line),
            ),
            texts(lines@) == filled(all.take(i as int)),
        decreases parts@.len() - i,
    {
        let line = trim(Blank::Unicode, parts[i].as_str());
        let ghost before = lines@;
        proof {
            assert(texts(parts@)[i as int] == parts@[i as int]@);
            assert(line@ == all[i as int]);
            lemma_filled_push(all.take(i as int), line@);
            assert(all.take(i + 1) == all.take(i as int).push(line@));
        }
        if !line.as_str().is_empty() {
            let ghost text = line@;
            lines.push(line);
            assert(texts(lines@) == texts(before).push(text));
        }
        i += 1;
    }
    assert(all.take(i as int) == all);
    lines
}

proof fn lemma_filled_push(lines: Seq<Seq<char>>, line: Seq<char>)
    ensures
        filled(lines.push(line)) == (if line.len() > 0 {
            filled(lines).push(line)
        } else {
            filled(lines)
        }),
{
    reveal(Seq::filter);
    assert(lines.push(line).drop_last() == lines);
}

/// The start of a message, for the log.
pub open spec fn shortened(msg: Seq<char>) -> Seq<char> {
    if msg.len() <= LOG_PREVIEW_CHARS {
        msg
    } else {
        msg.take(LOG_PREVIEW_CHARS as int) + "...<truncated>"@
    }
}

pub fn preview(msg: &str) -> (s: String)
    ensures
        s@ == shortened(msg@),
{
    let v = chars_of(msg);
    if v.len() <= LOG_PREVIEW_CHARS {
        return msg.to_owned();
    }
    let mut s = string_of(&v, 0, LOG_PREVIEW_CHARS);
    assert(v@.subrange(0, LOG_PREVIEW_CHARS as int) == v@.take(LOG_PREVIEW_CHARS as int));
    s.append("...<truncated>");
    s
}

/// A member of a message.
#[derive(Debug)]
pub enum Field {
    Missing,
    Text(String),
    /// It is there, but no text.
    Other,
}

/// A member of a message, as contracts speak of it.
pub enum FieldView {
    Missing,
    Text(Seq<char>),
    Other,
}

impl View for Field {
    type V = FieldView;

    open spec fn view(&self) -> FieldView {
        match self {
            Field::Missing => FieldView::Missing,
            Field::Text(s) => FieldView::Text(s@),
            Field::Other => FieldView::Other,
        }
    }
}

/// The member of a JSON value with the given key.
pub open spec fn field_in(json: Json, key: Seq<char>) -> FieldView {
    match json {
        Json::Object(members) => if members.contains_key(key) {
            match members[key] {
                Json::Text(s) => FieldView::Text(s),
                _ => FieldView::Other,
            }
        } else {
            FieldView::Missing
        },
        _ => FieldView::Missing,
    }
}

fn read_field(v: &Value, key: &str) -> (f: Field)
    ensures
        f@ == field_in(json_of(*v), key@),
{
    match member(v, key) {
        None => Field::Missing,
        Some(m) => match as_text(m) {
            Some(s) => Field::Text(s.to_owned()),
            None => Field::Other,
        },
    }
}

/// The members that commands are made of.
#[derive(Debug)]
pub struct Fields {
    pub action: Field,
    pub tool_name: Field,
    pub permission_mode: Field,
    pub perm_mode: Field,
    pub status: Field,
    pub text: Field,
    pub path: Field,
    pub failure_type: Field,
    pub session_id: Field,
}

/// The members that commands are made of, as contracts speak of them.
pub struct FieldsView {
    pub action: FieldView,
    pub tool_name: FieldView,
    pub permission_mode: FieldView,
    pub perm_mode: FieldView,
    pub status: FieldView,
    pub text: FieldView,
    pub path: FieldView,
    pub failure_type: FieldView,
    pub session_id: FieldView,
}

impl View for Fields {
    type V = FieldsView;

    open spec fn view(&self) -> FieldsView {
        FieldsView {
            action: self.action@,
            tool_name: self.tool_name@,
            permission_mode: self.permission_mode@,
            perm_mode: self.perm_mode@,
            status: self.status@,
            text: self.text@,
            path: self.path@,
            failure_type: self.failure_type@,
            session_id: self.session_id@,
        }
    }
}

/// Those members of a JSON value.
pub open spec fn fields_in(json: Json) -> FieldsView {
    FieldsView {
        action: field_in(json, "action"@),
        tool_name: field_in(json, "tool_name"@),
        permission_mode: field_in(json, "permission_mode"@),
        perm_mode: field_in(json, "perm_mode"@),
        status: field_in(json, "status"@),
        text: field_in(json, "text"@),
        path: field_in(json, "path"@),
        failure_type: field_in(json, "failure_type"@),
        session_id: field_in(json, "session_id"@),
    }
}

/// A text, or what stands in for one that is missing or no text.
pub open spec fn text_or(f: FieldView, fallback: Seq<char>) -> Seq<char> {
    match f {
        FieldView::Text(s) => s,
        _ => fallback,
    }
}

/// The event that a message stands for. The permission mode has an older name, which counts only
/// where the newer one is missing. The word for a mode that is no event itself asks for that mode.
pub open spec fn event_of(f: FieldsView) -> Option<Event> {
    match f.action {
        FieldView::Text(action) => if action == "thinking"@ {
            Some(Event::Thinking)
        } else if action == "pre_tool"@ {
            Some(
                Event::PreTool {
                    tool_name: text_or(f.tool_name, "unknown"@),
                    perm_mode: text_or(
                        if f.permission_mode is Missing {
                            f.perm_mode
                        } else {
                            f.permission_mode
                        },
                        "default"@,
                    ),
                },
            )
        } else if action == "post_tool"@ {
            Some(Event::PostTool { tool_name: text_or(f.tool_name, "unknown"@) })
        } else if action == "stop"@ {
            Some(Event::Stop { status: text_or(f.status, "unknown"@) })
        } else if action == "idle"@ {
            Some(Event::Idle)
        } else if action == "plan_detect"@ {
            Some(Event::PlanDetect { text: text_or(f.text, ""@) })
        } else if action == "plan_file"@ {
            Some(Event::PlanFile { path: text_or(f.path, ""@) })
        } else if action == "denied"@ {
            Some(Event::Denied { failure_type: text_or(f.failure_type, "unknown"@) })
        } else if action == "build"@ {
            Some(Event::Build)
        } else if action == "alarm"@ {
            Some(Event::Alarm)
        } else if action == "busy"@ {
            Some(Event::Busy)
        } else if action == "error"@ {
            Some(Event::Error)
        } else if action == "ping"@ {
            Some(Event::Ping)
        } else if action == "session_start"@ {
            Some(Event::SessionStart { session_id: text_or(f.session_id, ""@) })
        } else if action == "session_end"@ {
            Some(Event::SessionEnd { session_id: text_or(f.session_id, ""@) })
        } else {
            match Mode::named(action) {
                Some(mode) => Some(Event::Show { mode }),
                None => None,
            }
        },
        _ => None,
    }
}

fn text_of(f: Field, fallback: &str) -> (s: String)
    ensures
        s@ == text_or(f@, fallback@),
{
    match f {
        Field::Text(s) => s,
        _ => fallback.to_owned(),
    }
}

/// The command that the members of a message make.
pub fn command_of(fields: Fields) -> (r: Option<DaemonCmd>)
    ensures
        match r {
            Some(cmd) => event_of(fields@) == Some(cmd@),
            None => event_of(fields@) is None,
        },
{
    let action: String = match fields.action {
        Field::Text(s) => s,
        _ => return None,
    };
    let action: &str = action.as_str();
    if same(action, "thinking") {
        Some(DaemonCmd::Thinking)
    } else if same(action, "pre_tool") {
        let tool_name = text_of(fields.tool_name, "unknown");
        let mode = match fields.permission_mode {
            Field::Missing => fields.perm_mode,
            other => other,
        };
        Some(DaemonCmd::PreTool { tool_name, perm_mode: text_of(mode, "default") })
    } else if same(action, "post_tool") {
        Some(DaemonCmd::PostTool { tool_name: text_of(fields.tool_name, "unknown") })
    } else if same(action, "stop") {
        Some(DaemonCmd::Stop { status: text_of(fields.status, "unknown") })
    } else if same(action, "idle") {
        Some(DaemonCmd::Idle)
    } else if same(action, "plan_detect") {
        Some(DaemonCmd::PlanDetect { text: text_of(fields.text, "") })
    } else if same(action, "plan_file") {
        Some(DaemonCmd::PlanFile { path: text_of(fields.path, "") })
    } else if same(action, "denied") {
        Some(DaemonCmd::Denied { failure_type: text_of(fields.failure_type, "unknown") })
    } else if same(action, "build") {
        Some(DaemonCmd::Build)
    } else if same(action, "alarm") {
        Some(DaemonCmd::Alarm)
    } else if same(action, "busy") {
        Some(DaemonCmd::Busy)
    } else if same(action, "error") {
        Some(DaemonCmd::Error)
    } else if same(action, "ping") {
        Some(DaemonCmd::Ping)
    } else if same(action, "session_start") {
        Some(DaemonCmd::SessionStart { session_id: session_id_of(fields.session_id) })
    } else if same(action, "session_end") {
        Some(DaemonCmd::SessionEnd { session_id: session_id_of(fields.session_id) })
    } else {
        match mode_of(action) {
            Some(mode) => Some(DaemonCmd::Show { mode }),
            None => None,
        }
    }
}

/// The mode that an action is the word for, letter for letter.
fn mode_of(action: &str) -> (r: Option<Mode>)
    ensures
        r == Mode::named(action@),
{
    match Mode::from_str(action) {
        Some(mode) => if same(mode.as_str(), action) {
            proof {
                word_names_its_mode(mode, action@);
            }
            Some(mode)
        } else {
            proof {
                lemma_capitals_name_no_mode(action@);
            }
            None
        },
        None => {
            proof {
                lemma_capitals_name_no_mode(action@);
            }
            None
        },
    }
}

proof fn lemma_capitals_name_no_mode(action: Seq<char>)
    ensures
        Mode::named(action) matches Some(m) ==> Mode::named(ascii_lower(action)) == Some(m)
            && action == m.word(),
{
    if let Some(m) = Mode::named(action) {
        words_are_lower_case(m);
        word_names_its_mode(m, action);
    }
}

/// The identifier of a session, empty where the message has none.
pub fn session_id_of(field: Field) -> (id: String)
    ensures
        id@ == text_or(field@, ""@),
{
    text_of(field, "")
}

/// The event that a line of JSON stands for.
pub open spec fn event_in(line: Seq<char>) -> Option<Event> {
    match parsed(line) {
        Ok(json) => event_of(fields_in(json)),
        Err(_) => None,
    }
}

/// The command in a line of JSON, or nothing where it is no JSON or no known command.
pub fn parse_cmd(json: &str) -> (r: Option<DaemonCmd>)
    ensures
        match r {
            Some(cmd) => event_in(json@) == Some(cmd@),
            None => event_in(json@) is None,
        },
{
    let v: Value = match parse_json(json) {
        Ok(v) => v,
        Err(_) => return None,
    };
    command_of(
        Fields {
            action: read_field(&v, "action"),
            tool_name: read_field(&v, "tool_name"),
            permission_mode: read_field(&v, "permission_mode"),
            perm_mode: read_field(&v, "perm_mode"),
            status: read_field(&v, "status"),
            text: read_field(&v, "text"),
            path: read_field(&v, "path"),
            failure_type: read_field(&v, "failure_type"),
            session_id: read_field(&v, "session_id"),
        },
    )
}

/// What to do with a message.
#[derive(Debug)]
pub enum MessageStep {
    /// It is empty.
    Skip,
    /// It is a command.
    Command(DaemonCmd),
    /// It cannot be read; its start is for the log.
    Unreadable { start: String },
}

pub fn read_message(msg: &str) -> (step: MessageStep)
    ensures
        ({
            let line = trimmed(Blank::Unicode, msg@);
            match step {
                MessageStep::Skip => line.len() == 0,
                MessageStep::Command(cmd) => line.len() > 0 && event_in(line) == Some(cmd@),
                MessageStep::Unreadable { start } => line.len() > 0 && event_in(line) is None
                    && start@ == shortened(line),
            }
        }),
{
    let line = trim(Blank::Unicode, msg);
    if line.as_str().is_empty() {
        return MessageStep::Skip;
    }
    match parse_cmd(line.as_str()) {
        Some(cmd) => MessageStep::Command(cmd),
        None => MessageStep::Unreadable { start: preview(line.as_str()) },
    }
}

/// The server ends only where nobody takes commands or no instance can be made; a client that goes
/// wrong never ends it.
pub proof fn a_client_never_ends_the_server(phase: ServerPhase, event: ServerEvent)
    requires
        is_due(phase, event),
    ensures
        server_step(phase, event).1 == ServerAction::Stop <==> event == (ServerEvent::Served {
            open: false,
        }),
        server_step(phase, event).1 == ServerAction::Fail <==> phase == ServerPhase::Replacing
            && event == (ServerEvent::Instance { made: false }),
{
}

/// No client is served before another instance has been tried for, and a server that listens has
/// an instance: one that was made, or the spare one.
pub proof fn an_instance_is_always_at_hand(phase: ServerPhase, event: ServerEvent)
    requires
        is_due(phase, event),
    ensures
        server_step(phase, event).1 == ServerAction::Serve ==> phase == ServerPhase::Sparing,
        server_step(phase, event).0 == ServerPhase::Listening ==> (event
            == (ServerEvent::Instance { made: true }) || phase == (ServerPhase::Serving {
            spare: true,
        })),
{
}

proof fn lemma_unfinished_grows(s: Seq<u8>, more: Seq<u8>)
    requires
        !more.contains(10u8),
    ensures
        unfinished(s + more) == unfinished(s) + more.len(),
{
    lemma_unfinished_is_a_stretch(s);
    let all = s + more;
    let from = s.len() - unfinished(s);
    assert forall|k: int| from <= k < all.len() implies all[k] != 10u8 by {
        if k >= s.len() {
            assert(more.contains(more[k - s.len()]));
        }
    }
    lemma_unfinished_is(all, from);
}

proof fn lemma_unfinished_of_cut(s: Seq<u8>, keep: nat)
    requires
        keep <= unfinished(s),
    ensures
        unfinished(s) <= s.len(),
        unfinished(s.take(s.len() - (unfinished(s) - keep))) == keep,
{
    lemma_unfinished_is_a_stretch(s);
    let cut = s.take(s.len() - (unfinished(s) - keep));
    lemma_unfinished_is(cut, s.len() - unfinished(s));
}

/// It does not matter where one chunk ends and the next begins, but for a line that is cut before
/// its end comes.
pub proof fn framing_ignores_chunk_borders(raw: Seq<u8>, a: Seq<u8>, b: Seq<u8>)
    requires
        b.len() > 0,
        a.len() > 0 && received(raw, a).1 ==> !b.contains(10u8),
    ensures
        received(received(raw, a).0, b) == received(raw, a + b),
{
    let first = raw + a;
    assert(first + b =~= raw + (a + b));
    if a.len() == 0 {
        assert(a + b == b);
    } else if unfinished(first) > MAX_MESSAGE_BYTES {
        let max = MAX_MESSAGE_BYTES as nat;
        let kept = first.len() - (unfinished(first) - max);
        let cut = first.take(kept);
        lemma_unfinished_of_cut(first, max);
        lemma_unfinished_grows(cut, b);
        lemma_unfinished_grows(first, b);
        assert((cut + b).take(kept) =~= cut);
        assert((raw + (a + b)).take(kept) =~= cut);
    }
}

/// All chunks of a session, one after the other.
pub open spec fn joined(chunks: Seq<Seq<u8>>) -> Seq<u8>
    decreases chunks.len(),
{
    if chunks.len() == 0 {
        Seq::empty()
    } else {
        joined(chunks.drop_last()) + chunks.last()
    }
}

/// What is held of a session after its chunks, and whether reading has stopped by then.
pub open spec fn session(chunks: Seq<Seq<u8>>) -> (Seq<u8>, bool)
    decreases chunks.len(),
{
    if chunks.len() == 0 {
        (Seq::empty(), false)
    } else {
        let (raw, stopped) = session(chunks.drop_last());
        if stopped {
            (raw, true)
        } else {
            received(raw, chunks.last())
        }
    }
}

/// Of a client none of whose lines is longer than the limit, reading goes on to the end of its
/// session, however much it sends, and every line of it is a message, whatever the chunks. Only the
/// end stops the reading.
pub proof fn every_line_of_a_session_arrives(chunks: Seq<Seq<u8>>)
    requires
        forall|i: int| 0 <= i < chunks.len() ==> (#[trigger] chunks[i]).len() > 0,
        forall|i: int, j: int| #[trigger]
            is_stretch(joined(chunks), i, j) ==> j - i <= MAX_MESSAGE_BYTES,
    ensures
        session(chunks) == (joined(chunks), false),
        session(chunks.push(Seq::empty())) == (joined(chunks), true),
        lines_of(lossy_text(session(chunks.push(Seq::empty())).0)) == lines_of(
            lossy_text(joined(chunks)),
        ),
    decreases chunks.len(),
{
    if chunks.len() > 0 {
        let before = chunks.drop_last();
        assert forall|i: int| 0 <= i < before.len() implies (#[trigger] before[i]).len() > 0 by {
            assert(before[i] == chunks[i]);
        }
        let (all, part) = (joined(chunks), joined(before));
        assert forall|i: int, j: int| #[trigger] is_stretch(part, i, j) implies j - i
            <= MAX_MESSAGE_BYTES by {
            assert forall|k: int| i <= k < j implies all[k] != 10u8 by {
                assert(all[k] == part[k]);
            }
            assert(is_stretch(all, i, j));
        }
        every_line_of_a_session_arrives(before);
        assert(chunks[chunks.len() - 1].len() > 0);
        lemma_unfinished_is_a_stretch(all);
    }
    assert(session(chunks) == (joined(chunks), false));
    let all = chunks.push(Seq::empty());
    assert(all.drop_last() == chunks);
    assert(session(all) == received(joined(chunks), all.last()));
}

/// No line that is waited for grows past the limit, and nothing is kept but what was sent.
pub proof fn a_frame_is_bounded(raw: Seq<u8>, chunk: Seq<u8>)
    requires
        unfinished(raw) <= MAX_MESSAGE_BYTES,
    ensures
        unfinished(received(raw, chunk).0) <= MAX_MESSAGE_BYTES,
        received(raw, chunk).0.is_prefix_of(raw + chunk),
{
    let all = raw + chunk;
    lemma_unfinished_is_a_stretch(all);
    if unfinished(all) > MAX_MESSAGE_BYTES {
        lemma_unfinished_of_cut(all, MAX_MESSAGE_BYTES as nat);
    }
    assert(chunk.len() == 0 ==> all =~= raw);
}

/// A message on one line, in braces.
pub open spec fn one_line(s: Seq<char>) -> bool {
    !s.contains('\n') && s.len() >= 2 && s[0] == '{' && s.last() == '}'
}

/// A line in braces, with its end, reaches the daemon as exactly one message.
pub proof fn a_braced_line_is_one_message(line: Seq<char>)
    requires
        one_line(line),
    ensures
        trimmed(Blank::Unicode, line) == line,
        lines_of(decode_utf8(encode_utf8(line.push('\n')))) == seq![line],
{
    assert(!blank(Blank::Unicode, '{'));
    assert(!blank(Blank::Unicode, '}'));
    one_line_is_one_message(line);
    vstd::utf8::encode_utf8_decode_utf8(line.push('\n'));
}

/// A message is not empty, is one line, and has no blanks around it.
pub proof fn messages_are_clean(text: Seq<char>, i: int)
    requires
        0 <= i < lines_of(text).len(),
    ensures
        lines_of(text)[i].len() > 0,
        !lines_of(text)[i].contains('\n'),
        trimmed(Blank::Unicode, lines_of(text)[i]) == lines_of(text)[i],
{
    let parts = pieces(text, '\n');
    let all = parts.map_values(|line: Seq<char>| trimmed(Blank::Unicode, line));
    let keep = |line: Seq<char>| line.len() > 0;
    let line = lines_of(text)[i];
    all.lemma_filter_contains_rev(keep, line);
    let k = choose|k: int| 0 <= k < all.len() && all[k] == line;
    assert(line == trimmed(Blank::Unicode, parts[k]));
    assert(keep(line)) by {
        all.lemma_filter_pred(keep, i);
    }
    pieces_hold_no_separator(text, '\n');
    if line.contains('\n') {
        trimming_adds_nothing(Blank::Unicode, parts[k], '\n');
    }
    trimming_twice_is_trimming_once(Blank::Unicode, parts[k]);
}

/// One line with its end is one message, and so is a line whose end never comes.
pub proof fn one_line_is_one_message(line: Seq<char>)
    requires
        line.len() > 0,
        !line.contains('\n'),
        trimmed(Blank::Unicode, line) == line,
    ensures
        lines_of(line.push('\n')) == seq![line],
        lines_of(line) == seq![line],
{
    text_without_separator_is_one_piece(line, '\n');
    let none = Seq::<char>::empty();
    let f = |line: Seq<char>| trimmed(Blank::Unicode, line);
    assert(trimmed(Blank::Unicode, none) == none);
    assert(seq![line].map_values(f) =~= seq![line]);
    assert(seq![line, none].map_values(f) =~= seq![line, none]);
    lemma_filled_push(Seq::empty(), line);
    lemma_filled_push(seq![line], none);
    reveal(Seq::filter);
    assert(filled(Seq::<Seq<char>>::empty()) == Seq::<Seq<char>>::empty());
    assert(Seq::<Seq<char>>::empty().push(line) =~= seq![line]);
    assert(seq![line].push(none) =~= seq![line, none]);
}

/// A message of which only the action counts is the event of that name; the words of the other
/// modes ask for those modes.
pub proof fn plain_actions_are_read(f: FieldsView, action: Seq<char>)
    requires
        f.action == FieldView::Text(action),
    ensures
        action == "thinking"@ ==> event_of(f) == Some(Event::Thinking),
        action == "idle"@ ==> event_of(f) == Some(Event::Idle),
        action == "build"@ ==> event_of(f) == Some(Event::Build),
        action == "alarm"@ ==> event_of(f) == Some(Event::Alarm),
        action == "busy"@ ==> event_of(f) == Some(Event::Busy),
        action == "error"@ ==> event_of(f) == Some(Event::Error),
        action == "ping"@ ==> event_of(f) == Some(Event::Ping),
        action == "demo"@ ==> event_of(f) == Some(Event::Show { mode: Mode::Demo }),
        action == "ai"@ ==> event_of(f) == Some(Event::Show { mode: Mode::Ai }),
        action == "success"@ ==> event_of(f) == Some(Event::Show { mode: Mode::Success }),
        action == "off"@ ==> event_of(f) == Some(Event::Show { mode: Mode::Off }),
        action == "red"@ ==> event_of(f) == Some(Event::Show { mode: Mode::Red }),
        action == "yellow"@ ==> event_of(f) == Some(Event::Show { mode: Mode::Yellow }),
        action == "green"@ ==> event_of(f) == Some(Event::Show { mode: Mode::Green }),
{
    lemma_actions_differ();
    word_names_its_mode(Mode::Demo, action);
    word_names_its_mode(Mode::Ai, action);
    word_names_its_mode(Mode::Success, action);
    word_names_its_mode(Mode::Off, action);
    word_names_its_mode(Mode::Red, action);
    word_names_its_mode(Mode::Yellow, action);
    word_names_its_mode(Mode::Green, action);
}

/// The other actions carry a text each, which has a stand-in where the message holds none. The
/// permission mode may come under an older name, where the newer one is missing.
pub proof fn actions_carry_their_texts(f: FieldsView, action: Seq<char>)
    requires
        f.action == FieldView::Text(action),
    ensures
        action == "pre_tool"@ ==> (event_of(f) matches Some(Event::PreTool {
            tool_name,
            perm_mode,
        }) && (match f.tool_name {
            FieldView::Text(s) => tool_name == s,
            _ => tool_name == "unknown"@,
        }) && (match (f.permission_mode, f.perm_mode) {
            (FieldView::Text(s), _) => perm_mode == s,
            (FieldView::Missing, FieldView::Text(s)) => perm_mode == s,
            _ => perm_mode == "default"@,
        })),
        action == "post_tool"@ ==> (event_of(f) matches Some(Event::PostTool { tool_name })
            && match f.tool_name {
            FieldView::Text(s) => tool_name == s,
            _ => tool_name == "unknown"@,
        }),
        action == "stop"@ ==> (event_of(f) matches Some(Event::Stop { status })
            && match f.status {
            FieldView::Text(s) => status == s,
            _ => status == "unknown"@,
        }),
        action == "plan_detect"@ ==> (event_of(f) matches Some(Event::PlanDetect { text })
            && match f.text {
            FieldView::Text(s) => text == s,
            _ => text.len() == 0,
        }),
        action == "plan_file"@ ==> (event_of(f) matches Some(Event::PlanFile { path })
            && match f.path {
            FieldView::Text(s) => path == s,
            _ => path.len() == 0,
        }),
        action == "denied"@ ==> (event_of(f) matches Some(Event::Denied { failure_type })
            && match f.failure_type {
            FieldView::Text(s) => failure_type == s,
            _ => failure_type == "unknown"@,
        }),
        action == "session_start"@ ==> (event_of(f) matches Some(Event::SessionStart {
            session_id,
        }) && match f.session_id {
            FieldView::Text(s) => session_id == s,
            _ => session_id.len() == 0,
        }),
        action == "session_end"@ ==> (event_of(f) matches Some(Event::SessionEnd { session_id })
            && match f.session_id {
            FieldView::Text(s) => session_id == s,
            _ => session_id.len() == 0,
        }),
{
    lemma_actions_differ();
    reveal_strlit("");
}

/// A message without an action that is a text, or with one that is none of these words, letter for
/// letter, is no event.
pub proof fn other_actions_are_unknown(f: FieldsView)
    ensures
        !(f.action is Text) ==> event_of(f) is None,
        f.action is Text ==> {
            let a = f.action->Text_0;
            event_of(f) is None <==> !(a == "thinking"@ || a == "pre_tool"@ || a == "post_tool"@
                || a == "stop"@ || a == "idle"@ || a == "plan_detect"@ || a == "plan_file"@ || a
                == "denied"@ || a == "build"@ || a == "alarm"@ || a == "busy"@ || a == "error"@
                || a == "ping"@ || a == "session_start"@ || a == "session_end"@ || a == "demo"@ || a
                == "ai"@ || a == "success"@ || a == "off"@ || a == "red"@ || a == "yellow"@ || a
                == "green"@)
        },
{
    if let FieldView::Text(a) = f.action {
        word_names_its_mode(Mode::Demo, a);
        word_names_its_mode(Mode::Ai, a);
        word_names_its_mode(Mode::Success, a);
        word_names_its_mode(Mode::Off, a);
        word_names_its_mode(Mode::Red, a);
        word_names_its_mode(Mode::Yellow, a);
        word_names_its_mode(Mode::Green, a);
        if let Some(m) = Mode::named(a) {
            word_names_its_mode(m, a);
        }
    }
}

proof fn lemma_actions_differ()
    ensures
        action_number("thinking"@) == 1,
        action_number("pre_tool"@) == 2,
        action_number("post_tool"@) == 3,
        action_number("stop"@) == 4,
        action_number("idle"@) == 5,
        action_number("plan_detect"@) == 6,
        action_number("plan_file"@) == 7,
        action_number("denied"@) == 8,
        action_number("build"@) == 9,
        action_number("alarm"@) == 10,
        action_number("busy"@) == 11,
        action_number("error"@) == 12,
        action_number("ping"@) == 13,
        action_number("session_start"@) == 14,
        action_number("session_end"@) == 15,
        action_number("demo"@) == 16,
        action_number("ai"@) == 17,
        action_number("success"@) == 18,
        action_number("off"@) == 19,
        action_number("red"@) == 20,
        action_number("yellow"@) == 21,
        action_number("green"@) == 22,
{
    reveal_strlit("demo");
    reveal_strlit("thinking");
    reveal_strlit("ai");
    reveal_strlit("busy");
    reveal_strlit("success");
    reveal_strlit("error");
    reveal_strlit("alarm");
    reveal_strlit("off");
    reveal_strlit("red");
    reveal_strlit("yellow");
    reveal_strlit("green");
    reveal_strlit("pre_tool");
    reveal_strlit("post_tool");
    reveal_strlit("stop");
    reveal_strlit("idle");
    reveal_strlit("plan_detect");
    reveal_strlit("plan_file");
    reveal_strlit("denied");
    reveal_strlit("build");
    reveal_strlit("ping");
    reveal_strlit("session_start");
    reveal_strlit("session_end");
}

/// A number for each action, told by its length and its first letters.
spec fn action_number(a: Seq<char>) -> int {
    if a.len() == 8 {
        if a[0] == 't' {
            1
        } else {
            2
        }
    } else if a.len() == 9 {
        if a[1] == 'o' {
            3
        } else {
            7
        }
    } else if a.len() == 4 {
        if a[0] == 's' {
            4
        } else if a[0] == 'i' {
            5
        } else if a[0] == 'b' {
            11
        } else if a[0] == 'p' {
            13
        } else {
            16
        }
    } else if a.len() == 11 {
        if a[0] == 'p' {
            6
        } else {
            15
        }
    } else if a.len() == 6 {
        if a[0] == 'd' {
            8
        } else {
            21
        }
    } else if a.len() == 5 {
        if a[0] == 'b' {
            9
        } else if a[0] == 'a' {
            10
        } else if a[0] == 'e' {
            12
        } else {
            22
        }
    } else if a.len() == 13 {
        14
    } else if a.len() == 2 {
        17
    } else if a.len() == 7 {
        18
    } else if a[0] == 'o' {
        19
    } else {
        20
    }
}

/// A member of a message is read where the message is an object that has it, and is a text where it
/// is a string; each of the members is read from its own key.
pub proof fn members_are_read_by_their_keys(
    members: Map<Seq<char>, Json>,
    key: Seq<char>,
    other: Json,
)
    requires
        !(other is Object),
    ensures
        field_in(other, key) is Missing,
        field_in(Json::Object(members), key) is Missing <==> !members.contains_key(key),
        members.contains_key(key) && members[key] is Text ==> field_in(Json::Object(members), key)
            == FieldView::Text(members[key]->Text_0),
        members.contains_key(key) && !(members[key] is Text) ==> field_in(
            Json::Object(members),
            key,
        ) is Other,
        ({
            let json = Json::Object(members);
            let f = fields_in(json);
            &&& f.action == field_in(json, "action"@)
            &&& f.tool_name == field_in(json, "tool_name"@)
            &&& f.permission_mode == field_in(json, "permission_mode"@)
            &&& f.perm_mode == field_in(json, "perm_mode"@)
            &&& f.status == field_in(json, "status"@)
            &&& f.text == field_in(json, "text"@)
            &&& f.path == field_in(json, "path"@)
            &&& f.failure_type == field_in(json, "failure_type"@)
            &&& f.session_id == field_in(json, "session_id"@)
        }),
{
}

/// A line that is no JSON is no event, and no more is JSON that is not an object.
pub proof fn only_an_object_is_an_event(line: Seq<char>)
    ensures
        event_in(line) is Some ==> parsed(line) is Ok && parsed(line)->Ok_0 is Object,
        parsed(line) is Ok ==> event_in(line) == event_of(fields_in(parsed(line)->Ok_0)),
{
}

/// The start of a message is the whole of it up to 400 characters, and else its first 400 and a
/// mark.
pub proof fn a_long_message_is_cut(msg: Seq<char>)
    ensures
        msg.len() <= 400 ==> shortened(msg) == msg,
        msg.len() > 400 ==> shortened(msg).take(400) == msg.take(400) && shortened(msg).skip(400)
            == "...<truncated>"@,
{
    if msg.len() > 400 {
        assert(shortened(msg).take(400) =~= msg.take(400));
        assert(shortened(msg).skip(400) =~= "...<truncated>"@);
    }
}

/// The bytes that follow the last line feed may come to 1048576. Up to there all that has come is
/// kept and reading goes on; past it they are cut to that many and reading stops. An empty chunk
/// stops it too, and changes nothing.
pub proof fn a_line_is_cut_at_its_limit(raw: Seq<u8>, chunk: Seq<u8>, from: int)
    requires
        0 <= from <= raw.len() + chunk.len(),
        forall|k: int| from <= k < raw.len() + chunk.len() ==> #[trigger] (raw + chunk)[k] != 10u8,
        from > 0 ==> (raw + chunk)[from - 1] == 10u8,
    ensures
        chunk.len() == 0 ==> received(raw, chunk) == (raw, true),
        chunk.len() > 0 && raw.len() + chunk.len() - from <= 1_048_576 ==> received(raw, chunk) == (
            raw + chunk,
            false,
        ),
        chunk.len() > 0 && raw.len() + chunk.len() - from > 1_048_576 ==> received(raw, chunk) == (
            (raw + chunk).take(from + 1_048_576),
            true,
        ),
{
    lemma_unfinished_is(raw + chunk, from);
}

proof fn lemma_filled_first(line: Seq<char>, rest: Seq<Seq<char>>)
    ensures
        filled(seq![line] + rest) == (if line.len() > 0 {
            seq![line] + filled(rest)
        } else {
            filled(rest)
        }),
    decreases rest.len(),
{
    reveal(Seq::filter);
    let all = seq![line] + rest;
    if rest.len() == 0 {
        assert(all =~= Seq::<Seq<char>>::empty().push(line));
        lemma_filled_push(Seq::empty(), line);
        assert(filled(rest) =~= Seq::<Seq<char>>::empty());
    } else {
        let less = rest.drop_last();
        lemma_filled_first(line, less);
        lemma_filled_push(seq![line] + less, rest.last());
        lemma_filled_push(less, rest.last());
        assert(all =~= (seq![line] + less).push(rest.last()));
        assert(rest =~= less.push(rest.last()));
        assert((seq![line] + filled(less)).push(rest.last()) =~= seq![line] + filled(less).push(
            rest.last(),
        ));
    }
}

/// The messages of a text are its lines one by one: a line without the blanks around it is a
/// message where anything is left of it, and then come the messages of what follows its end.
pub proof fn each_line_is_a_message(line: Seq<char>, rest: Seq<char>)
    requires
        !line.contains('\n'),
    ensures
        ({
            let first = trimmed(Blank::Unicode, line);
            &&& first.len() > 0 ==> lines_of(line.push('\n') + rest) == seq![first] + lines_of(rest)
            &&& first.len() == 0 ==> lines_of(line.push('\n') + rest) == lines_of(rest)
            &&& first.len() > 0 ==> lines_of(line) == seq![first]
            &&& first.len() == 0 ==> lines_of(line) == Seq::<Seq<char>>::empty()
        }),
{
    let first = trimmed(Blank::Unicode, line);
    let f = |line: Seq<char>| trimmed(Blank::Unicode, line);
    a_piece_ends_at_the_separator(line, rest, '\n');
    text_without_separator_is_one_piece(line, '\n');
    let parts = pieces(rest, '\n');
    assert((seq![line] + parts).map_values(f) =~= seq![first] + parts.map_values(f));
    lemma_filled_first(first, parts.map_values(f));
    assert(seq![line].map_values(f) =~= seq![first] + Seq::<Seq<char>>::empty());
    lemma_filled_first(first, Seq::empty());
    reveal(Seq::filter);
    assert(filled(Seq::<Seq<char>>::empty()) =~= Seq::<Seq<char>>::empty());
    assert(seq![first] + Seq::<Seq<char>>::empty() =~= seq![first]);
}

/// The server's round: a client that connects has a spare instance made behind it and is served,
/// whether that could be made or not; then the spare one listens, or a new one is made. A client
/// that fails to connect costs its instance.
pub proof fn the_server_goes_round(spare: bool)
    ensures
        server_step(ServerPhase::Listening, ServerEvent::Client { ok: true }) == (
            ServerPhase::Sparing,
            ServerAction::MakeSpare,
        ),
        server_step(ServerPhase::Listening, ServerEvent::Client { ok: false }) == (
            ServerPhase::Replacing,
            ServerAction::Replace,
        ),
        server_step(ServerPhase::Sparing, ServerEvent::Instance { made: spare }) == (
            (ServerPhase::Serving { spare }),
            ServerAction::Serve,
        ),
        server_step(ServerPhase::Serving { spare: true }, ServerEvent::Served { open: true }) == (
            ServerPhase::Listening,
            ServerAction::HandOver,
        ),
        server_step(ServerPhase::Serving { spare: false }, ServerEvent::Served { open: true }) == (
            ServerPhase::Replacing,
            ServerAction::Replace,
        ),
        server_step(ServerPhase::Serving { spare }, ServerEvent::Served { open: false }).1
            == ServerAction::Stop,
        server_step(ServerPhase::Replacing, ServerEvent::Instance { made: true }) == (
            ServerPhase::Listening,
            ServerAction::Listen,
        ),
        server_step(ServerPhase::Replacing, ServerEvent::Instance { made: false }).1
            == ServerAction::Fail,
{
}

} // verus!
