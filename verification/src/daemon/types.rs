//! The values that the daemon's parts exchange.
use crate::text::{ascii_lower, same, to_lower};
use vstd::prelude::*;

verus! {

/// The light effect that the daemon asks for.
#[derive(Debug, Clone, Copy, PartialEq, Eq, Structural)]
pub enum Mode {
    Demo,
    Thinking,
    Ai,
    Busy,
    Success,
    Error,
    Alarm,
    Off,
    Red,
    Yellow,
    Green,
}

impl Mode {
    /// The word for a mode.
    pub open spec fn word(self) -> Seq<char> {
        match self {
            Mode::Demo => "demo"@,
            Mode::Thinking => "thinking"@,
            Mode::Ai => "ai"@,
            Mode::Busy => "busy"@,
            Mode::Success => "success"@,
            Mode::Error => "error"@,
            Mode::Alarm => "alarm"@,
            Mode::Off => "off"@,
            Mode::Red => "red"@,
            Mode::Yellow => "yellow"@,
            Mode::Green => "green"@,
        }
    }

    /// The mode with the given word, where there is one.
    pub open spec fn named(s: Seq<char>) -> Option<Mode> {
        if exists|m: Mode| #[trigger] m.word() == s {
            Some(choose|m: Mode| #[trigger] m.word() == s)
        } else {
            None
        }
    }

    /// The mode that `s` is the word for, in capitals or not.
    pub fn from_str(s: &str) -> (r: Option<Mode>)
        ensures
            r == Self::named(ascii_lower(s@)),
            match r {
                Some(m) => ascii_lower(s@) == m.word(),
                None => forall|m: Mode| ascii_lower(s@) != #[trigger] m.word(),
            },
    {
        let low = to_lower(s);
        let r = if same(low.as_str(), "demo") {
            Some(Mode::Demo)
        } else if same(low.as_str(), "thinking") {
            Some(Mode::Thinking)
        } else if same(low.as_str(), "ai") {
            Some(Mode::Ai)
        } else if same(low.as_str(), "busy") {
            Some(Mode::Busy)
        } else if same(low.as_str(), "success") {
            Some(Mode::Success)
        } else if same(low.as_str(), "error") {
            Some(Mode::Error)
        } else if same(low.as_str(), "alarm") {
            Some(Mode::Alarm)
        } else if same(low.as_str(), "off") {
            Some(Mode::Off)
        } else if same(low.as_str(), "red") {
            Some(Mode::Red)
        } else if same(low.as_str(), "yellow") {
            Some(Mode::Yellow)
        } else if same(low.as_str(), "green") {
            Some(Mode::Green)
        } else {
            None
        };
        proof {
            if r is Some {
                word_names_its_mode(r->0, ascii_lower(s@));
            }
        }
        r
    }

    pub fn as_str(&self) -> (s: &'static str)
        ensures
            s@ == self.word(),
    {
        match self {
            Mode::Demo => "demo",
            Mode::Thinking => "thinking",
            Mode::Ai => "ai",
            Mode::Busy => "busy",
            Mode::Success => "success",
            Mode::Error => "error",
            Mode::Alarm => "alarm",
            Mode::Off => "off",
            Mode::Red => "red",
            Mode::Yellow => "yellow",
            Mode::Green => "green",
        }
    }
}

/// No two modes share a word.
pub proof fn words_are_distinct(a: Mode, b: Mode)
    requires
        a.word() == b.word(),
    ensures
        a == b,
{
    reveal_strlit("demo");
    reveal_strlit("thinking");
    reveal_strlit("ai");
    reveal_strlit("busy");
    reveal_strlit("success");
    reveal_strlit("error");
    reveal_strlit("alarm");
    reveal_strlit("off");
    reveal_strlit("red");
    reveal_strlit("yellow");
    reveal_strlit("green");
    let (x, y) = (a.word(), b.word());
    assert(x.len() == y.len() && x[0] == y[0] && x[1] == y[1]);
}

/// A mode is found again from its word, and under no other text.
pub proof fn word_names_its_mode(m: Mode, s: Seq<char>)
    ensures
        Mode::named(s) == Some(m) <==> s == m.word(),
{
    assert forall|x: Mode| #[trigger] x.word() == m.word() implies x == m by {
        words_are_distinct(x, m);
    }
}

/// The word of a mode is in lower case, so that reading it back finds the mode.
pub proof fn words_are_lower_case(m: Mode)
    ensures
        ascii_lower(m.word()) == m.word(),
{
    reveal_strlit("demo");
    reveal_strlit("thinking");
    reveal_strlit("ai");
    reveal_strlit("busy");
    reveal_strlit("success");
    reveal_strlit("error");
    reveal_strlit("alarm");
    reveal_strlit("off");
    reveal_strlit("red");
    reveal_strlit("yellow");
    reveal_strlit("green");
    assert(ascii_lower(m.word()) =~= m.word());
}

/// How far the assistant's turn has come.
#[derive(Debug, Clone, Copy, PartialEq, Eq, Structural)]
pub enum TurnPhase {
    Idle,
    Thinking,
    Busy,
    /// A tool waits for permission.
    PendingAuth,
    /// A question waits for the user's answer.
    AwaitingUser,
}

/// What the daemon remembers of the assistant. Times are in milliseconds since the epoch.
#[derive(Debug, Clone, Copy, PartialEq, Eq, Structural)]
pub struct State {
    pub last_mode: Mode,
    pub turn_phase: TurnPhase,
    pub last_ts: u64,
    pub turn_started_ms: u64,
    pub pending_since: u64,
    /// The end of the window in which an interrupted turn stays green.
    pub force_green_until: u64,
    pub awaiting_build: bool,
    pub build_started: bool,
    pub plan_touched: bool,
}

impl State {
    /// The state of a daemon that has seen nothing yet.
    pub open spec fn initial() -> State {
        State {
            last_mode: Mode::Off,
            turn_phase: TurnPhase::Idle,
            last_ts: 0,
            turn_started_ms: 0,
            pending_since: 0,
            force_green_until: 0,
            awaiting_build: false,
            build_started: false,
            plan_touched: false,
        }
    }
}

impl Default for State {
    fn default() -> (s: Self)
        ensures
            s == State::initial(),
    {
        State {
            last_mode: Mode::Off,
            turn_phase: TurnPhase::Idle,
            last_ts: 0,
            turn_started_ms: 0,
            pending_since: 0,
            force_green_until: 0,
            awaiting_build: false,
            build_started: false,
            plan_touched: false,
        }
    }
}

/// A hook event, as it comes through the pipe.
#[derive(Debug, Clone)]
pub enum DaemonCmd {
    /// The user sent a prompt.
    Thinking,
    /// A tool is about to run.
    PreTool { tool_name: String, perm_mode: String },
    /// A tool has run.
    PostTool { tool_name: String },
    /// The turn ended: `completed`, `error`, or anything else for an interruption.
    Stop { status: String },
    /// The session went idle.
    Idle,
    /// Text that may announce a plan.
    PlanDetect { text: String },
    /// The path of a file that may hold a plan.
    PlanFile { path: String },
    /// A permission was denied.
    Denied { failure_type: String },
    /// A build began.
    Build,
    /// The light should alarm.
    Alarm,
    /// The light should show work.
    Busy,
    /// A tool failed.
    Error,
    /// A liveness probe.
    Ping,
    /// A session opened.
    SessionStart { session_id: String },
    /// A session closed.
    SessionEnd { session_id: String },
    /// A mode was sent by hand.
    Show { mode: Mode },
}

/// A hook event, as contracts speak of it.
pub enum Event {
    Thinking,
    PreTool { tool_name: Seq<char>, perm_mode: Seq<char> },
    PostTool { tool_name: Seq<char> },
    Stop { status: Seq<char> },
    Idle,
    PlanDetect { text: Seq<char> },
    PlanFile { path: Seq<char> },
    Denied { failure_type: Seq<char> },
    Build,
    Alarm,
    Busy,
    Error,
    Ping,
    SessionStart { session_id: Seq<char> },
    SessionEnd { session_id: Seq<char> },
    Show { mode: Mode },
}

impl View for DaemonCmd {
    type V = Event;

    open spec fn view(&self) -> Event {
        match self {
            DaemonCmd::Thinking => Event::Thinking,
            DaemonCmd::PreTool { tool_name, perm_mode } => Event::PreTool {
                tool_name: tool_name@,
                perm_mode: perm_mode@,
            },
            DaemonCmd::PostTool { tool_name } => Event::PostTool { tool_name: tool_name@ },
            DaemonCmd::Stop { status } => Event::Stop { status: status@ },
            DaemonCmd::Idle => Event::Idle,
            DaemonCmd::PlanDetect { text } => Event::PlanDetect { text: text@ },
            DaemonCmd::PlanFile { path } => Event::PlanFile { path: path@ },
            DaemonCmd::Denied { failure_type } => Event::Denied { failure_type: failure_type@ },
            DaemonCmd::Build => Event::Build,
            DaemonCmd::Alarm => Event::Alarm,
            DaemonCmd::Busy => Event::Busy,
            DaemonCmd::Error => Event::Error,
            DaemonCmd::Ping => Event::Ping,
            DaemonCmd::SessionStart { session_id } => Event::SessionStart {
                session_id: session_id@,
            },
            DaemonCmd::SessionEnd { session_id } => Event::SessionEnd { session_id: session_id@ },
            DaemonCmd::Show { mode } => Event::Show { mode: *mode },
        }
    }
}

/// What came of a write to the light.
#[derive(Debug)]
pub enum BleResult {
    /// The light has confirmed it.
    Sent,
    Disconnected,
    Error(String),
}

/// Each mode has its own word.
pub proof fn each_mode_has_its_word()
    ensures
        Mode::Demo.word() == "demo"@,
        Mode::Thinking.word() == "thinking"@,
        Mode::Ai.word() == "ai"@,
        Mode::Busy.word() == "busy"@,
        Mode::Success.word() == "success"@,
        Mode::Error.word() == "error"@,
        Mode::Alarm.word() == "alarm"@,
        Mode::Off.word() == "off"@,
        Mode::Red.word() == "red"@,
        Mode::Yellow.word() == "yellow"@,
        Mode::Green.word() == "green"@,
{
}

} // verus!
