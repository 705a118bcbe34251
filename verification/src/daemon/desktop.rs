//! What the daemon tells others: the state file for the desktop light, and messages to a running
//! daemon.
use super::pipe::{
    a_braced_line_is_one_message, event_in, field_in, lines_of, one_line, FieldView,
};
use super::state::shown;
use super::types::{word_names_its_mode, DaemonCmd, Event, Mode, State, TurnPhase};
use crate::json::{empty_object, parsed, print_json, set_member, Json, Scalar};
use crate::text::{
    ascii_lower, blank, blanks_around_do_not_count, chars_of, decimal, decimals_are_read_back,
    number_of, parse_u32, string_of, trim, trimmed, Blank,
};
use vstd::prelude::*;
use vstd::utf8::{decode_utf8, encode_utf8};

verus! {

/// The message that ends a running daemon.
pub const STOP_MESSAGE: &'static str = "{\"action\":\"stop\",\"status\":\"stop\"}\n";

/// The word for a phase.
pub open spec fn phase_word(phase: TurnPhase) -> Seq<char> {
    match phase {
        TurnPhase::Idle => "idle"@,
        TurnPhase::Thinking => "thinking"@,
        TurnPhase::Busy => "busy"@,
        TurnPhase::PendingAuth => "pending_auth"@,
        TurnPhase::AwaitingUser => "awaiting_user"@,
    }
}

pub fn phase_str(phase: TurnPhase) -> (s: &'static str)
    ensures
        s@ == phase_word(phase),
{
    match phase {
        TurnPhase::Idle => "idle",
        TurnPhase::Thinking => "thinking",
        TurnPhase::Busy => "busy",
        TurnPhase::PendingAuth => "pending_auth",
        TurnPhase::AwaitingUser => "awaiting_user",
    }
}

/// The start of a session's identifier, for the log.
pub open spec fn short(id: Seq<char>) -> Seq<char> {
    if id.len() <= 8 {
        id
    } else {
        id.take(8)
    }
}

pub fn short_id(id: &str) -> (s: String)
    ensures
        s@ == short(id@),
{
    let v = chars_of(id);
    if v.len() <= 8 {
        id.to_owned()
    } else {
        assert(v@.subrange(0, 8) == v@.take(8));
        string_of(&v, 0, 8)
    }
}

/// The members of the state file.
pub open spec fn state_members(state: State, mode: Mode) -> Map<Seq<char>, Json> {
    Map::empty()
        .insert("last_mode"@, Json::Text(mode.word()))
        .insert("turn_phase"@, Json::Text(phase_word(state.turn_phase)))
        .insert("awaiting_build"@, Json::Flag(state.awaiting_build))
        .insert("build_started"@, Json::Flag(state.build_started))
        .insert("plan_touched"@, Json::Flag(state.plan_touched))
        .insert("last_ts"@, Json::Count(state.last_ts))
        .insert("turn_started_ms"@, Json::Count(state.turn_started_ms))
        .insert("pending_since"@, Json::Count(state.pending_since))
        .insert("force_green_until"@, Json::Count(state.force_green_until))
}

/// The text of the state file, with the mode that is shown.
pub fn state_json(state: &State, mode: Mode) -> (text: String)
    ensures
        parsed(text@) == Ok::<Json, Seq<char>>(Json::Object(state_members(*state, mode))),
{
    let mut v = empty_object();
    set_member(&mut v, "last_mode", Scalar::Text(mode.as_str().to_owned()));
    set_member(&mut v, "turn_phase", Scalar::Text(phase_str(state.turn_phase).to_owned()));
    set_member(&mut v, "awaiting_build", Scalar::Flag(state.awaiting_build));
    set_member(&mut v, "build_started", Scalar::Flag(state.build_started));
    set_member(&mut v, "plan_touched", Scalar::Flag(state.plan_touched));
    set_member(&mut v, "last_ts", Scalar::Count(state.last_ts));
    set_member(&mut v, "turn_started_ms", Scalar::Count(state.turn_started_ms));
    set_member(&mut v, "pending_since", Scalar::Count(state.pending_since));
    set_member(&mut v, "force_green_until", Scalar::Count(state.force_green_until));
    match print_json(&v) {
        Ok(text) => text,
        Err(_) => String::new(),
    }
}

/// The message that asks a running daemon for a mode, or nothing where the mode is unknown.
pub fn send_message(mode: &str) -> (r: Option<String>)
    ensures
        match Mode::named(ascii_lower(mode@)) {
            None => r is None,
            Some(m) => r matches Some(msg) && {
                &&& msg@.len() > 0
                &&& msg@.last() == '\n'
                &&& one_line(msg@.drop_last())
                &&& parsed(msg@.drop_last()) == Ok::<Json, Seq<char>>(asking_for(m))
                &&& event_in(msg@.drop_last()) == Some(sent_event(m))
            },
        },
{
    let m: Mode = match Mode::from_str(mode) {
        Some(m) => m,
        None => return None,
    };
    let mut v = empty_object();
    set_member(&mut v, "action", Scalar::Text(m.as_str().to_owned()));
    match print_json(&v) {
        Ok(mut text) => {
            let ghost line = text@;
            text.push('\n');
            assert(text@.drop_last() == line);
            proof {
                every_mode_can_be_sent(m, line);
            }
            Some(text)
        },
        Err(_) => None,
    }
}

/// The process in a file that should hold the number of one.
pub fn parse_pid(text: &str) -> (pid: Option<u32>)
    ensures
        pid == number_of(trimmed(Blank::Unicode, text@)),
{
    let text = trim(Blank::Unicode, text);
    parse_u32(text.as_str())
}

/// The state file holds every part of the state, each under a name of its own.
pub proof fn the_state_file_is_complete(state: State, mode: Mode)
    ensures
        ({
            let members = state_members(state, mode);
            &&& members["last_mode"@] == Json::Text(mode.word())
            &&& members["turn_phase"@] == Json::Text(phase_word(state.turn_phase))
            &&& members["awaiting_build"@] == Json::Flag(state.awaiting_build)
            &&& members["build_started"@] == Json::Flag(state.build_started)
            &&& members["plan_touched"@] == Json::Flag(state.plan_touched)
            &&& members["last_ts"@] == Json::Count(state.last_ts)
            &&& members["turn_started_ms"@] == Json::Count(state.turn_started_ms)
            &&& members["pending_since"@] == Json::Count(state.pending_since)
            &&& members["force_green_until"@] == Json::Count(state.force_green_until)
            &&& forall|key: Seq<char>| #[trigger]
                members.contains_key(key) <==> (key == "last_mode"@
                || key == "turn_phase"@
                || key == "awaiting_build"@
                || key == "build_started"@
                || key == "plan_touched"@
                || key == "last_ts"@
                || key == "turn_started_ms"@
                || key == "pending_since"@
                || key == "force_green_until"@)
        }),
{
    reveal_strlit("last_mode");
    reveal_strlit("turn_phase");
    reveal_strlit("awaiting_build");
    reveal_strlit("build_started");
    reveal_strlit("plan_touched");
    reveal_strlit("last_ts");
    reveal_strlit("turn_started_ms");
    reveal_strlit("pending_since");
    reveal_strlit("force_green_until");
    assert("build_started"@[0] != "pending_since"@[0]);
    assert("last_mode"@.len() == 9 && "turn_phase"@.len() == 10 && "awaiting_build"@.len() == 14);
    assert("build_started"@.len() == 13 && "plan_touched"@.len() == 12 && "last_ts"@.len() == 7);
    assert("turn_started_ms"@.len() == 15 && "pending_since"@.len() == 13);
    assert("force_green_until"@.len() == 17);
}

/// The members of a message that asks for a mode.
pub open spec fn asking_for(m: Mode) -> Json {
    Json::Object(Map::empty().insert("action"@, Json::Text(m.word())))
}

/// The command that a mode sent by hand becomes. Four of the words are events of their own.
pub open spec fn sent_event(m: Mode) -> Event {
    match m {
        Mode::Thinking => Event::Thinking,
        Mode::Busy => Event::Busy,
        Mode::Error => Event::Error,
        Mode::Alarm => Event::Alarm,
        _ => Event::Show { mode: m },
    }
}

/// A daemon understands every mode that is sent by hand.
pub proof fn every_mode_can_be_sent(m: Mode, line: Seq<char>)
    requires
        parsed(line) == Ok::<Json, Seq<char>>(asking_for(m)),
    ensures
        event_in(line) == Some(sent_event(m)),
{
    let json = asking_for(m);
    assert(field_in(json, "action"@) == FieldView::Text(m.word()));
    word_names_its_mode(m, m.word());
    reveal_strlit("demo");
    reveal_strlit("thinking");
    reveal_strlit("ai");
    reveal_strlit("busy");
    reveal_strlit("success");
    reveal_strlit("error");
    reveal_strlit("alarm");
    reveal_strlit("off");
    reveal_strlit("red");
    reveal_strlit("yellow");
    reveal_strlit("green");
    reveal_strlit("pre_tool");
    reveal_strlit("post_tool");
    reveal_strlit("stop");
    reveal_strlit("idle");
    reveal_strlit("plan_detect");
    reveal_strlit("plan_file");
    reveal_strlit("denied");
    reveal_strlit("build");
    reveal_strlit("ping");
    reveal_strlit("session_start");
    reveal_strlit("session_end");
    let w = m.word();
    assert(m == Mode::Thinking || w.len() != "thinking"@.len() || w[0] != "thinking"@[0]);
    assert(w.len() != "pre_tool"@.len() || w[0] != "pre_tool"@[0]);
    assert(w.len() != "post_tool"@.len() || w[0] != "post_tool"@[0]);
    assert(w.len() != "stop"@.len() || w[0] != "stop"@[0]);
    assert(w.len() != "idle"@.len() || w[0] != "idle"@[0]);
    assert(w.len() != "plan_detect"@.len() || w[0] != "plan_detect"@[0]);
    assert(w.len() != "plan_file"@.len() || w[0] != "plan_file"@[0]);
    assert(w.len() != "denied"@.len() || w[0] != "denied"@[0]);
    assert(w.len() != "build"@.len() || w[0] != "build"@[0]);
    assert(m == Mode::Alarm || w.len() != "alarm"@.len() || w[0] != "alarm"@[0]);
    assert(m == Mode::Busy || w.len() != "busy"@.len() || w[0] != "busy"@[0]);
    assert(m == Mode::Error || w.len() != "error"@.len() || w[0] != "error"@[0]);
    assert(w.len() != "ping"@.len() || w[0] != "ping"@[0]);
    assert(w.len() != "session_start"@.len() || w[0] != "session_start"@[0]);
    assert(w.len() != "session_end"@.len() || w[0] != "session_end"@[0]);
}

/// A mode that is sent by hand reaches the daemon as exactly one message, the one that asks for it.
pub proof fn a_sent_mode_is_one_message(m: Mode, msg: Seq<char>)
    requires
        msg.len() > 0,
        msg.last() == '\n',
        one_line(msg.drop_last()),
        parsed(msg.drop_last()) == Ok::<Json, Seq<char>>(asking_for(m)),
    ensures
        lines_of(decode_utf8(encode_utf8(msg))) == seq![msg.drop_last()],
        event_in(msg.drop_last()) == Some(sent_event(m)),
{
    a_braced_line_is_one_message(msg.drop_last());
    assert(msg.drop_last().push('\n') == msg);
    every_mode_can_be_sent(m, msg.drop_last());
}

/// A mode that is sent by hand is the one that is shown. Only work does not hide an alarm.
pub proof fn a_mode_sent_by_hand_is_shown(m: Mode, cmd: DaemonCmd, state: State, now_ms: u64)
    requires
        cmd@ == sent_event(m),
    ensures
        shown(state, cmd, now_ms) == Some(
            if m == Mode::Busy && state.last_mode == Mode::Alarm {
                Mode::Alarm
            } else {
                m
            },
        ),
{
}

/// What to do about the desktop light and the file that should hold its process.
#[derive(Debug, Clone, Copy, PartialEq, Eq, Structural)]
pub enum DotsStep {
    /// There is no such file, or it cannot be read.
    Nothing,
    /// End the process, and keep the file: the desktop light removes it itself.
    Kill { pid: u32 },
    /// The file holds no process, and goes.
    RemoveFile,
}

/// What the content of that file calls for.
pub open spec fn dots_action(content: Option<Seq<char>>) -> DotsStep {
    match content {
        None => DotsStep::Nothing,
        Some(text) => match number_of(trimmed(Blank::Unicode, text)) {
            Some(pid) => DotsStep::Kill { pid },
            None => DotsStep::RemoveFile,
        },
    }
}

pub fn dots_step(content: Option<&str>) -> (s: DotsStep)
    ensures
        s == dots_action(
            match content {
                None => None,
                Some(text) => Some(text@),
            },
        ),
        s == match content {
            None => DotsStep::Nothing,
            Some(text) => match number_of(trimmed(Blank::Unicode, text@)) {
                Some(pid) => DotsStep::Kill { pid },
                None => DotsStep::RemoveFile,
            },
        },
{
    match content {
        None => DotsStep::Nothing,
        Some(text) => match parse_pid(text) {
            Some(pid) => DotsStep::Kill { pid },
            None => DotsStep::RemoveFile,
        },
    }
}

/// Each phase has its own word.
pub proof fn each_phase_has_its_word()
    ensures
        phase_word(TurnPhase::Idle) == "idle"@,
        phase_word(TurnPhase::Thinking) == "thinking"@,
        phase_word(TurnPhase::Busy) == "busy"@,
        phase_word(TurnPhase::PendingAuth) == "pending_auth"@,
        phase_word(TurnPhase::AwaitingUser) == "awaiting_user"@,
{
}

/// An identifier is shortened to its first eight characters, and a shorter one stays whole.
pub proof fn an_identifier_is_cut_at_eight(id: Seq<char>)
    ensures
        short(id).is_prefix_of(id),
        id.len() <= 8 ==> short(id).len() == id.len(),
        id.len() > 8 ==> short(id).len() == 8,
{
}

/// A message that asks for a mode has one member, the action, which is the mode's word. Four of the
/// words are events, and the others ask for their mode.
pub proof fn a_mode_is_asked_for_by_its_word(m: Mode, key: Seq<char>)
    ensures
        asking_for(m) is Object,
        asking_for(m)->Object_0.contains_key(key) <==> key == "action"@,
        asking_for(m)->Object_0["action"@] == Json::Text(m.word()),
        m == Mode::Thinking ==> sent_event(m) == Event::Thinking,
        m == Mode::Busy ==> sent_event(m) == Event::Busy,
        m == Mode::Error ==> sent_event(m) == Event::Error,
        m == Mode::Alarm ==> sent_event(m) == Event::Alarm,
        m != Mode::Thinking && m != Mode::Busy && m != Mode::Error && m != Mode::Alarm
            ==> sent_event(m) == (Event::Show { mode: m }),
{
}

/// The desktop light is ended by the number of its process, which may stand among blanks. A file
/// that holds anything else is removed, and nothing is done where there is none.
pub proof fn a_process_is_ended_by_its_number(a: Seq<char>, pid: u32, b: Seq<char>)
    requires
        forall|i: int| 0 <= i < a.len() ==> blank(Blank::Unicode, #[trigger] a[i]),
        forall|i: int| 0 <= i < b.len() ==> blank(Blank::Unicode, #[trigger] b[i]),
    ensures
        dots_action(None) == DotsStep::Nothing,
        dots_action(Some(a + decimal(pid as nat) + b)) == (DotsStep::Kill { pid }),
        dots_action(Some(a)) == DotsStep::RemoveFile,
        forall|text: Seq<char>| #[trigger]
            dots_action(Some(text)) == DotsStep::RemoveFile <==> number_of(
                trimmed(Blank::Unicode, text),
            ) is None,
{
    let digits = decimal(pid as nat);
    decimals_are_read_back(pid as nat);
    assert('0' <= digits[0] <= '9' && '0' <= digits.last() <= '9');
    blanks_around_do_not_count(Blank::Unicode, a, digits, b);
    let none = Seq::<char>::empty();
    blanks_around_do_not_count(Blank::Unicode, a, none, none);
    assert(a + none + none =~= a);
}

} // verus!
