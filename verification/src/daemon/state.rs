//! The state machine: what each hook event does to the state and to the light.
use super::types::{DaemonCmd, Mode, State, TurnPhase};
use crate::text::{ascii_lower, contains, ends_with, occurs, same, to_lower};
use vstd::prelude::*;

verus! {

/// How long a permission may be pending before it becomes an alarm.
pub const PENDING_ESCALATE_MS: u64 = 15_000;

/// How long a question may wait for its answer before the light goes back to busy.
pub const ALARM_TIMEOUT_MS: u64 = 30_000;

/// How long the light stays green after an interruption.
pub const FORCE_GREEN_DURATION_MS: u64 = 2_000;

/// Tools that ask the user something as soon as they are called.
pub open spec fn asks_user(tool: Seq<char>) -> bool {
    tool == "AskUserQuestion"@
}

fn is_asking_tool(tool: &str) -> (r: bool)
    ensures
        r == asks_user(tool@),
{
    same(tool, "AskUserQuestion")
}

/// Tools that may not run without the user's permission.
pub open spec fn needs_permission(tool: Seq<char>) -> bool {
    tool == "Bash"@
        || tool == "Write"@
        || tool == "Edit"@
        || tool == "WebFetch"@
        || tool == "WebSearch"@
        || tool == "NotebookEdit"@
        || tool == "Agent"@
        || tool == "Task"@
}

fn is_pending_tool(tool: &str) -> (r: bool)
    ensures
        r == needs_permission(tool@),
{
    same(tool, "Bash")
        || same(tool, "Write")
        || same(tool, "Edit")
        || same(tool, "WebFetch")
        || same(tool, "WebSearch")
        || same(tool, "NotebookEdit")
        || same(tool, "Agent")
        || same(tool, "Task")
}

/// Permission modes in which the assistant asks for no permission, in any case of letters.
pub open spec fn grants_all(perm_mode: Seq<char>) -> bool {
    let low = ascii_lower(perm_mode);
    low == "auto"@
        || low == "bypasspermissions"@
        || low == "bypass_permissions"@
        || low == "acceptedits"@
        || low == "acceptall"@
        || low == "accept_all"@
        || low == "yolo"@
        || low == "dontask"@
        || low == "never"@
}

pub fn is_auto_perm(perm_mode: &str) -> (r: bool)
    ensures
        r == grants_all(perm_mode@),
{
    let lower = to_lower(perm_mode);
    let low = lower.as_str();
    same(low, "auto")
        || same(low, "bypasspermissions")
        || same(low, "bypass_permissions")
        || same(low, "acceptedits")
        || same(low, "acceptall")
        || same(low, "accept_all")
        || same(low, "yolo")
        || same(low, "dontask")
        || same(low, "never")
}

/// Tools that leave a plan waiting for the user.
pub open spec fn opens_plan(tool: Seq<char>) -> bool {
    tool == "CreatePlan"@ || tool == "EnterPlanMode"@
}

fn is_plan_opening_tool(tool: &str) -> (r: bool)
    ensures
        r == opens_plan(tool@),
{
    same(tool, "CreatePlan") || same(tool, "EnterPlanMode")
}

/// Tools that end the planning.
pub open spec fn closes_plan(tool: Seq<char>) -> bool {
    tool == "ExitPlanMode"@
}

fn is_plan_closing_tool(tool: &str) -> (r: bool)
    ensures
        r == closes_plan(tool@),
{
    same(tool, "ExitPlanMode")
}

/// Files that may hold a plan, told by their extension in any case of letters.
pub open spec fn plan_path(path: Seq<char>) -> bool {
    let low = ascii_lower(path);
    ".md"@.is_suffix_of(low) || ".txt"@.is_suffix_of(low) || ".plan"@.is_suffix_of(low)
}

pub fn is_plan_file_path(path: &str) -> (r: bool)
    ensures
        r == plan_path(path@),
{
    let lower = to_lower(path);
    let low = lower.as_str();
    ends_with(low, ".md") || ends_with(low, ".txt") || ends_with(low, ".plan")
}

/// Text that says that a plan waits for approval, in any case of letters.
pub open spec fn plan_text(text: Seq<char>) -> bool {
    let low = ascii_lower(text);
    occurs(low, "waiting for plan"@) || occurs(low, "plan approval"@) || occurs(
        low,
        "plan review"@,
    )
}

pub fn is_plan_waiting_text(text: &str) -> (r: bool)
    ensures
        r == plan_text(text@),
{
    let lower = to_lower(text);
    let low = lower.as_str();
    contains(low, "waiting for plan") || contains(low, "plan approval") || contains(
        low,
        "plan review",
    )
}

/// Whether an interruption keeps the light green.
pub open spec fn green_window(state: State, now_ms: u64) -> bool {
    state.force_green_until > now_ms
}

pub fn is_in_force_green(state: &State, now_ms: u64) -> (r: bool)
    ensures
        r == green_window(*state, now_ms),
{
    state.force_green_until > now_ms
}

pub fn default_state() -> (s: State)
    ensures
        s == State::initial(),
{
    State::default()
}

/// The light for a finished turn. One that is neither completed nor failed was interrupted.
pub open spec fn verdict(state: State, status: Seq<char>) -> Mode {
    if status == "completed"@ {
        if !state.build_started && (state.awaiting_build || state.plan_touched) {
            Mode::Alarm
        } else {
            Mode::Success
        }
    } else if status == "error"@ {
        Mode::Error
    } else {
        Mode::Green
    }
}

/// The light for a tool that is about to run.
pub open spec fn permission_light(tool: Seq<char>, perm_mode: Seq<char>) -> Mode {
    if asks_user(tool) || (needs_permission(tool) && !grants_all(perm_mode)) {
        Mode::Alarm
    } else {
        Mode::Busy
    }
}

/// Whether the end of `tool` answers what the turn is waiting for.
pub open spec fn answers(phase: TurnPhase, tool: Seq<char>) -> bool {
    ||| asks_user(tool) && phase == TurnPhase::AwaitingUser
    ||| needs_permission(tool) && (phase == TurnPhase::AwaitingUser || phase
        == TurnPhase::PendingAuth)
}

/// The light that a command asks for. Nothing, where the command changes no light.
pub open spec fn shown(state: State, cmd: DaemonCmd, now_ms: u64) -> Option<Mode> {
    match cmd {
        DaemonCmd::Thinking => Some(Mode::Thinking),
        DaemonCmd::PreTool { tool_name, perm_mode } => if green_window(state, now_ms) {
            None
        } else {
            Some(permission_light(tool_name@, perm_mode@))
        },
        DaemonCmd::PostTool { tool_name } => if opens_plan(tool_name@) {
            Some(Mode::Alarm)
        } else if closes_plan(tool_name@) || answers(state.turn_phase, tool_name@) {
            Some(Mode::Busy)
        } else {
            Some(state.last_mode)
        },
        DaemonCmd::Stop { status } => Some(verdict(state, status@)),
        DaemonCmd::Idle => Some(Mode::Green),
        DaemonCmd::PlanDetect { text } => Some(
            if plan_text(text@) {
                Mode::Alarm
            } else {
                state.last_mode
            },
        ),
        DaemonCmd::PlanFile { path } => Some(
            if plan_path(path@) {
                Mode::Alarm
            } else {
                state.last_mode
            },
        ),
        DaemonCmd::Denied { failure_type } => Some(
            if failure_type@ == "permission_denied"@ {
                Mode::Thinking
            } else {
                Mode::Error
            },
        ),
        DaemonCmd::Build => Some(Mode::Busy),
        DaemonCmd::Alarm => Some(Mode::Alarm),
        DaemonCmd::Busy => Some(
            if state.last_mode == Mode::Alarm {
                Mode::Alarm
            } else {
                Mode::Busy
            },
        ),
        DaemonCmd::Error => Some(Mode::Error),
        DaemonCmd::Show { mode } => Some(mode),
        DaemonCmd::SessionStart { .. } | DaemonCmd::SessionEnd { .. } | DaemonCmd::Ping => None,
    }
}

/// The phase of the turn after a command.
pub open spec fn phase_after(state: State, cmd: DaemonCmd, now_ms: u64) -> TurnPhase {
    match cmd {
        DaemonCmd::Thinking => TurnPhase::Thinking,
        DaemonCmd::PreTool { tool_name, perm_mode } => if green_window(state, now_ms) {
            state.turn_phase
        } else if asks_user(tool_name@) {
            TurnPhase::AwaitingUser
        } else if permission_light(tool_name@, perm_mode@) == Mode::Alarm {
            TurnPhase::PendingAuth
        } else {
            state.turn_phase
        },
        DaemonCmd::PostTool { tool_name } => if !opens_plan(tool_name@) && !closes_plan(
            tool_name@,
        ) && answers(state.turn_phase, tool_name@) {
            TurnPhase::Busy
        } else {
            state.turn_phase
        },
        DaemonCmd::Stop { .. } | DaemonCmd::Idle => TurnPhase::Idle,
        DaemonCmd::Error => TurnPhase::Busy,
        _ => state.turn_phase,
    }
}

/// Whether a plan waits for the user after a command.
pub open spec fn plan_after(state: State, cmd: DaemonCmd) -> bool {
    match cmd {
        DaemonCmd::Thinking | DaemonCmd::Idle => false,
        DaemonCmd::PostTool { tool_name } => opens_plan(tool_name@) || (state.plan_touched
            && !closes_plan(tool_name@)),
        DaemonCmd::PlanDetect { text } => state.plan_touched || plan_text(text@),
        DaemonCmd::PlanFile { path } => state.plan_touched || plan_path(path@),
        _ => state.plan_touched,
    }
}

/// The end of the green window after a command.
pub open spec fn window_after(state: State, cmd: DaemonCmd, now_ms: u64) -> int {
    match cmd {
        DaemonCmd::Thinking | DaemonCmd::Idle => 0,
        DaemonCmd::Stop { status } => if verdict(state, status@) == Mode::Green {
            now_ms + FORCE_GREEN_DURATION_MS
        } else {
            0
        },
        _ => state.force_green_until as int,
    }
}

/// The state after a command. A probe leaves it as it is.
pub open spec fn after(state: State, cmd: DaemonCmd, now_ms: u64) -> State {
    let fresh = cmd is Thinking || cmd is Idle;
    State {
        last_mode: match shown(state, cmd, now_ms) {
            Some(mode) => mode,
            None => state.last_mode,
        },
        turn_phase: phase_after(state, cmd, now_ms),
        last_ts: if cmd is Ping {
            state.last_ts
        } else {
            now_ms
        },
        turn_started_ms: if cmd is Thinking {
            now_ms
        } else {
            state.turn_started_ms
        },
        pending_since: if fresh {
            0
        } else if cmd is PreTool && shown(state, cmd, now_ms) == Some(Mode::Alarm) {
            now_ms
        } else {
            state.pending_since
        },
        force_green_until: window_after(state, cmd, now_ms) as u64,
        awaiting_build: !fresh && state.awaiting_build,
        build_started: !fresh && (cmd is Build || state.build_started),
        plan_touched: plan_after(state, cmd),
    }
}

/// Applies a command, and returns the light that it asks for. A green window that would end past
/// the last representable millisecond is left out.
pub fn process_cmd(state: &mut State, cmd: DaemonCmd, now_ms: u64) -> (r: Option<Mode>)
    requires
        window_after(*old(state), cmd, now_ms) <= u64::MAX,
    ensures
        r == shown(*old(state), cmd, now_ms),
        *final(state) == after(*old(state), cmd, now_ms),
{
    if !matches!(cmd, DaemonCmd::Ping) {
        state.last_ts = now_ms;
    }
    match cmd {
        DaemonCmd::Thinking => {
            state.turn_phase = TurnPhase::Thinking;
            state.last_mode = Mode::Thinking;
            state.turn_started_ms = now_ms;
            state.force_green_until = 0;
            state.pending_since = 0;
            state.awaiting_build = false;
            state.build_started = false;
            state.plan_touched = false;
            Some(Mode::Thinking)
        },
        DaemonCmd::PreTool { tool_name, perm_mode } => {
            if is_in_force_green(state, now_ms) {
                return None;
            }
            if is_asking_tool(tool_name.as_str()) {
                state.turn_phase = TurnPhase::AwaitingUser;
                state.last_mode = Mode::Alarm;
                state.pending_since = now_ms;
                Some(Mode::Alarm)
            } else if is_pending_tool(tool_name.as_str()) {
                if is_auto_perm(perm_mode.as_str()) {
                    state.last_mode = Mode::Busy;
                    Some(Mode::Busy)
                } else {
                    state.turn_phase = TurnPhase::PendingAuth;
                    state.last_mode = Mode::Alarm;
                    state.pending_since = now_ms;
                    Some(Mode::Alarm)
                }
            } else {
                state.last_mode = Mode::Busy;
                Some(Mode::Busy)
            }
        },
        DaemonCmd::PostTool { tool_name } => {
            let tool = tool_name.as_str();
            if is_plan_opening_tool(tool) {
                state.plan_touched = true;
                state.last_mode = Mode::Alarm;
                Some(Mode::Alarm)
            } else if is_plan_closing_tool(tool) {
                state.plan_touched = false;
                state.last_mode = Mode::Busy;
                Some(Mode::Busy)
            } else if is_asking_tool(tool) {
                if state.turn_phase == TurnPhase::AwaitingUser {
                    state.turn_phase = TurnPhase::Busy;
                    state.last_mode = Mode::Busy;
                    Some(Mode::Busy)
                } else {
                    proof {
                        lemma_asking_tool_needs_no_permission(tool@);
                    }
                    Some(state.last_mode)
                }
            } else if is_pending_tool(tool) {
                if state.turn_phase == TurnPhase::AwaitingUser || state.turn_phase
                    == TurnPhase::PendingAuth {
                    state.turn_phase = TurnPhase::Busy;
                    state.last_mode = Mode::Busy;
                    Some(Mode::Busy)
                } else {
                    Some(state.last_mode)
                }
            } else {
                Some(state.last_mode)
            }
        },
        DaemonCmd::Stop { status } => {
            let mode: Mode = if same(status.as_str(), "completed") {
                if state.build_started {
                    Mode::Success
                } else if state.awaiting_build || state.plan_touched {
                    Mode::Alarm
                } else {
                    Mode::Success
                }
            } else if same(status.as_str(), "error") {
                Mode::Error
            } else {
                Mode::Green
            };
            state.force_green_until =
            if mode == Mode::Green {
                now_ms + FORCE_GREEN_DURATION_MS
            } else {
                0
            };
            state.last_mode = mode;
            state.turn_phase = TurnPhase::Idle;
            Some(mode)
        },
        DaemonCmd::Idle => {
            state.last_mode = Mode::Green;
            state.turn_phase = TurnPhase::Idle;
            state.pending_since = 0;
            state.awaiting_build = false;
            state.build_started = false;
            state.plan_touched = false;
            state.force_green_until = 0;
            Some(Mode::Green)
        },
        DaemonCmd::PlanDetect { text } => {
            if is_plan_waiting_text(text.as_str()) {
                state.plan_touched = true;
                state.last_mode = Mode::Alarm;
                Some(Mode::Alarm)
            } else {
                Some(state.last_mode)
            }
        },
        DaemonCmd::PlanFile { path } => {
            if is_plan_file_path(path.as_str()) {
                state.plan_touched = true;
                state.last_mode = Mode::Alarm;
                Some(Mode::Alarm)
            } else {
                Some(state.last_mode)
            }
        },
        DaemonCmd::Denied { failure_type } => {
            if same(failure_type.as_str(), "permission_denied") {
                state.last_mode = Mode::Thinking;
                Some(Mode::Thinking)
            } else {
                state.last_mode = Mode::Error;
                Some(Mode::Error)
            }
        },
        DaemonCmd::Build => {
            state.build_started = true;
            state.last_mode = Mode::Busy;
            Some(Mode::Busy)
        },
        DaemonCmd::Alarm => {
            state.last_mode = Mode::Alarm;
            Some(Mode::Alarm)
        },
        DaemonCmd::Busy => {
            if state.last_mode != Mode::Alarm {
                state.last_mode = Mode::Busy;
                Some(Mode::Busy)
            } else {
                Some(Mode::Alarm)
            }
        },
        DaemonCmd::Error => {
            state.turn_phase = TurnPhase::Busy;
            state.last_mode = Mode::Error;
            Some(Mode::Error)
        },
        DaemonCmd::Show { mode } => {
            state.last_mode = mode;
            Some(mode)
        },
        DaemonCmd::SessionStart { .. } | DaemonCmd::SessionEnd { .. } | DaemonCmd::Ping => None,
    }
}

proof fn lemma_asking_tool_needs_no_permission(tool: Seq<char>)
    requires
        asks_user(tool),
    ensures
        !needs_permission(tool),
        !opens_plan(tool),
        !closes_plan(tool),
{
    reveal_strlit("AskUserQuestion");
    reveal_strlit("Bash");
    reveal_strlit("Write");
    reveal_strlit("Edit");
    reveal_strlit("WebFetch");
    reveal_strlit("WebSearch");
    reveal_strlit("NotebookEdit");
    reveal_strlit("Agent");
    reveal_strlit("Task");
    reveal_strlit("CreatePlan");
    reveal_strlit("EnterPlanMode");
    reveal_strlit("ExitPlanMode");
    assert(tool.len() == 15 && tool[0] == 'A' && tool[1] == 's');
}

/// Whether something has been waiting for the user for `limit` milliseconds.
pub open spec fn overdue(state: State, now_ms: u64, limit: u64) -> bool {
    state.pending_since > 0 && now_ms - state.pending_since >= limit
}

/// The light that a state calls for at a time.
pub open spec fn resolved(state: State, now_ms: u64) -> Mode {
    if green_window(state, now_ms) {
        Mode::Green
    } else {
        match state.turn_phase {
            TurnPhase::PendingAuth => if overdue(state, now_ms, PENDING_ESCALATE_MS) {
                Mode::Alarm
            } else {
                state.last_mode
            },
            TurnPhase::AwaitingUser => if overdue(state, now_ms, ALARM_TIMEOUT_MS) {
                Mode::Busy
            } else {
                Mode::Alarm
            },
            _ => if state.awaiting_build {
                Mode::Alarm
            } else if state.last_mode == Mode::Off {
                Mode::Green
            } else {
                state.last_mode
            },
        }
    }
}

pub fn resolve_mode(state: &State, now_ms: u64) -> (mode: Mode)
    ensures
        mode == resolved(*state, now_ms),
{
    if state.force_green_until > now_ms {
        return Mode::Green;
    }
    match state.turn_phase {
        TurnPhase::PendingAuth => {
            if state.pending_since > 0 && now_ms.saturating_sub(state.pending_since)
                >= PENDING_ESCALATE_MS {
                Mode::Alarm
            } else {
                state.last_mode
            }
        },
        TurnPhase::AwaitingUser => {
            if state.pending_since > 0 && now_ms.saturating_sub(state.pending_since)
                >= ALARM_TIMEOUT_MS {
                Mode::Busy
            } else {
                Mode::Alarm
            }
        },
        _ => {
            if state.awaiting_build {
                Mode::Alarm
            } else {
                match state.last_mode {
                    Mode::Off => Mode::Green,
                    other => other,
                }
            }
        },
    }
}

/// Whatever light a command asks for is the light that the state remembers.
pub proof fn light_is_remembered(state: State, cmd: DaemonCmd, now_ms: u64)
    ensures
        shown(state, cmd, now_ms) matches Some(mode) ==> after(state, cmd, now_ms).last_mode
            == mode,
        shown(state, cmd, now_ms) is None ==> after(state, cmd, now_ms) == (State {
            last_ts: after(state, cmd, now_ms).last_ts,
            ..state
        }),
        after(state, cmd, now_ms).last_ts == if cmd is Ping {
            state.last_ts
        } else {
            now_ms
        },
{
}

/// A probe changes no state at all.
pub proof fn a_probe_leaves_the_state(state: State, now_ms: u64)
    ensures
        shown(state, DaemonCmd::Ping, now_ms) is None,
        after(state, DaemonCmd::Ping, now_ms) == state,
{
}

/// A mode that is sent by hand is shown at once, and nothing else of the state changes but the time
/// of the event. While nobody is waited for and no window keeps the light green, it stays; a light
/// that is off counts as green there.
pub proof fn a_sent_mode_is_shown(state: State, mode: Mode, now_ms: u64, later_ms: u64)
    ensures
        shown(state, DaemonCmd::Show { mode }, now_ms) == Some(mode),
        after(state, DaemonCmd::Show { mode }, now_ms) == (State {
            last_mode: mode,
            last_ts: now_ms,
            ..state
        }),
        !green_window(state, later_ms) && !state.awaiting_build && state.turn_phase
            != TurnPhase::PendingAuth && state.turn_phase != TurnPhase::AwaitingUser ==> resolved(
            after(state, DaemonCmd::Show { mode }, now_ms),
            later_ms,
        ) == if mode == Mode::Off {
            Mode::Green
        } else {
            mode
        },
{
}

/// Session events and probes change no light.
pub proof fn lifecycle_leaves_the_light(state: State, cmd: DaemonCmd, now_ms: u64)
    requires
        cmd is Ping || cmd is SessionStart || cmd is SessionEnd,
    ensures
        shown(state, cmd, now_ms) is None,
        after(state, cmd, now_ms) == (State {
            last_ts: if cmd is Ping {
                state.last_ts
            } else {
                now_ms
            },
            ..state
        }),
{
}

/// For two seconds after an interruption the light is green, and no tool changes it.
pub proof fn interruption_stays_green(
    state: State,
    stop: DaemonCmd,
    now_ms: u64,
    tool: DaemonCmd,
    later_ms: u64,
)
    requires
        stop matches DaemonCmd::Stop { status } && status@ != "completed"@ && status@ != "error"@,
        tool is PreTool,
        now_ms + FORCE_GREEN_DURATION_MS <= u64::MAX,
        later_ms < now_ms + FORCE_GREEN_DURATION_MS,
    ensures
        shown(state, stop, now_ms) == Some(Mode::Green),
        resolved(after(state, stop, now_ms), later_ms) == Mode::Green,
        shown(after(state, stop, now_ms), tool, later_ms) is None,
        after(after(state, stop, now_ms), tool, later_ms) == (State {
            last_ts: later_ms,
            ..after(state, stop, now_ms)
        }),
{
}

/// The result of a turn that was not interrupted is on the light at every later time, whatever
/// interruption went before it.
pub proof fn results_are_not_overwritten(
    state: State,
    stop: DaemonCmd,
    now_ms: u64,
    later_ms: u64,
)
    requires
        stop matches DaemonCmd::Stop { status } && (status@ == "completed"@ || status@
            == "error"@),
        !state.awaiting_build,
    ensures
        after(state, stop, now_ms).force_green_until == 0,
        Some(resolved(after(state, stop, now_ms), later_ms)) == shown(state, stop, now_ms),
{
    reveal_strlit("completed");
    reveal_strlit("error");
}

/// A turn that ends in an error is red, and stays red.
pub proof fn errors_stay_red(state: State, stop: DaemonCmd, now_ms: u64, later_ms: u64)
    requires
        stop matches DaemonCmd::Stop { status } && status@ == "error"@,
        !state.awaiting_build,
    ensures
        shown(state, stop, now_ms) == Some(Mode::Error),
        resolved(after(state, stop, now_ms), later_ms) == Mode::Error,
{
    reveal_strlit("completed");
    reveal_strlit("error");
    assert("completed"@.len() != "error"@.len());
}

/// A failed tool turns the light red at once, and it stays red once no window keeps it green.
pub proof fn failed_tool_is_red(state: State, now_ms: u64, later_ms: u64)
    requires
        !green_window(state, later_ms),
        !state.awaiting_build,
    ensures
        shown(state, DaemonCmd::Error, now_ms) == Some(Mode::Error),
        resolved(after(state, DaemonCmd::Error, now_ms), later_ms) == Mode::Error,
{
}

/// Going idle turns the light green for good and forgets the turn.
pub proof fn idle_is_green(state: State, now_ms: u64, later_ms: u64)
    ensures
        shown(state, DaemonCmd::Idle, now_ms) == Some(Mode::Green),
        resolved(after(state, DaemonCmd::Idle, now_ms), later_ms) == Mode::Green,
        after(state, DaemonCmd::Idle, now_ms) == (State {
            last_mode: Mode::Green,
            turn_phase: TurnPhase::Idle,
            last_ts: now_ms,
            turn_started_ms: state.turn_started_ms,
            ..State::initial()
        }),
{
}

/// A new prompt closes the green window of an earlier interruption.
pub proof fn prompt_closes_the_window(state: State, now_ms: u64, later_ms: u64)
    ensures
        shown(state, DaemonCmd::Thinking, now_ms) == Some(Mode::Thinking),
        resolved(after(state, DaemonCmd::Thinking, now_ms), later_ms) == Mode::Thinking,
{
}

/// No command makes the state wait for a build, so that a daemon never does.
pub proof fn builds_are_never_awaited(state: State, cmd: DaemonCmd, now_ms: u64)
    ensures
        !State::initial().awaiting_build,
        !state.awaiting_build ==> !after(state, cmd, now_ms).awaiting_build,
{
}

/// A tool that needs no permission and asks nothing never alarms.
pub proof fn harmless_tools_never_alarm(state: State, tool: DaemonCmd, now_ms: u64)
    requires
        tool matches DaemonCmd::PreTool { tool_name, perm_mode } && !asks_user(tool_name@)
            && !needs_permission(tool_name@),
    ensures
        shown(state, tool, now_ms) != Some(Mode::Alarm),
        !green_window(state, now_ms) ==> shown(state, tool, now_ms) == Some(Mode::Busy),
        after(state, tool, now_ms).turn_phase == state.turn_phase,
{
}

/// Reading is harmless.
pub proof fn reading_tools_are_harmless(tool: Seq<char>)
    requires
        tool == "Read"@ || tool == "Glob"@ || tool == "Grep"@,
    ensures
        !asks_user(tool),
        !needs_permission(tool),
{
    reveal_strlit("Read");
    reveal_strlit("Glob");
    reveal_strlit("Grep");
    reveal_strlit("AskUserQuestion");
    reveal_strlit("Bash");
    reveal_strlit("Write");
    reveal_strlit("Edit");
    reveal_strlit("WebFetch");
    reveal_strlit("WebSearch");
    reveal_strlit("NotebookEdit");
    reveal_strlit("Agent");
    reveal_strlit("Task");
    assert(tool.len() == 4 && (tool[0] == 'R' || tool[0] == 'G'));
}

/// A permission granted beforehand raises no alarm.
pub proof fn granted_tools_never_alarm(state: State, tool: DaemonCmd, now_ms: u64)
    requires
        tool matches DaemonCmd::PreTool { tool_name, perm_mode } && !asks_user(tool_name@)
            && grants_all(perm_mode@),
    ensures
        shown(state, tool, now_ms) != Some(Mode::Alarm),
        !green_window(state, now_ms) ==> shown(state, tool, now_ms) == Some(Mode::Busy),
{
}

/// A pending permission alarms until something else happens.
pub proof fn pending_permission_alarms(
    state: State,
    tool: DaemonCmd,
    now_ms: u64,
    later_ms: u64,
)
    requires
        tool matches DaemonCmd::PreTool { tool_name, perm_mode } && needs_permission(tool_name@)
            && !asks_user(tool_name@) && !grants_all(perm_mode@),
        !green_window(state, now_ms),
        now_ms <= later_ms,
    ensures
        shown(state, tool, now_ms) == Some(Mode::Alarm),
        resolved(after(state, tool, now_ms), later_ms) == Mode::Alarm,
{
}

/// A question alarms for thirty seconds, after which the light shows work again. A question asked
/// in the first millisecond of the epoch alarms without end.
pub proof fn question_alarms_for_a_while(
    state: State,
    tool: DaemonCmd,
    now_ms: u64,
    later_ms: u64,
)
    requires
        tool matches DaemonCmd::PreTool { tool_name, perm_mode } && asks_user(tool_name@),
        !green_window(state, now_ms),
        0 < now_ms <= later_ms,
    ensures
        shown(state, tool, now_ms) == Some(Mode::Alarm),
        resolved(after(state, tool, now_ms), later_ms) == (if later_ms - now_ms
            >= ALARM_TIMEOUT_MS {
            Mode::Busy
        } else {
            Mode::Alarm
        }),
{
}

/// The end of the tool that raised an alarm ends the alarm.
pub proof fn finished_tool_ends_its_alarm(
    state: State,
    pre: DaemonCmd,
    now_ms: u64,
    post: DaemonCmd,
    later_ms: u64,
)
    requires
        pre is PreTool,
        post is PostTool,
        pre->PreTool_tool_name@ == post->PostTool_tool_name@,
        shown(state, pre, now_ms) == Some(Mode::Alarm),
    ensures
        shown(after(state, pre, now_ms), post, later_ms) == Some(Mode::Busy),
        after(after(state, pre, now_ms), post, later_ms).turn_phase == TurnPhase::Busy,
{
    let tool = pre->PreTool_tool_name@;
    if asks_user(tool) {
        lemma_asking_tool_needs_no_permission(tool);
    } else {
        lemma_permission_tools_do_not_plan(tool);
    }
}

proof fn lemma_permission_tools_do_not_plan(tool: Seq<char>)
    requires
        needs_permission(tool),
    ensures
        !opens_plan(tool),
        !closes_plan(tool),
{
    reveal_strlit("Bash");
    reveal_strlit("Write");
    reveal_strlit("Edit");
    reveal_strlit("WebFetch");
    reveal_strlit("WebSearch");
    reveal_strlit("NotebookEdit");
    reveal_strlit("Agent");
    reveal_strlit("Task");
    reveal_strlit("CreatePlan");
    reveal_strlit("EnterPlanMode");
    reveal_strlit("ExitPlanMode");
    assert(tool[0] != 'C' && (tool[0] == 'E' ==> tool.len() == 4));
}

/// A request to show work leaves an alarm standing.
pub proof fn work_does_not_hide_an_alarm(state: State, now_ms: u64)
    requires
        state.last_mode == Mode::Alarm,
    ensures
        shown(state, DaemonCmd::Busy, now_ms) == Some(Mode::Alarm),
{
}

/// A plan that waits for the user turns the end of the turn into an alarm, unless a build ran.
pub proof fn open_plan_alarms_at_the_end(state: State, stop: DaemonCmd, now_ms: u64)
    requires
        stop matches DaemonCmd::Stop { status } && status@ == "completed"@,
        state.plan_touched,
    ensures
        shown(state, stop, now_ms) == Some(
            if state.build_started {
                Mode::Success
            } else {
                Mode::Alarm
            },
        ),
{
}

/// A tool that was refused by the user leaves the assistant thinking; one that failed in any other
/// way turns the light red. Neither depends on what went before, and nothing but the light and the
/// time of the event changes.
pub proof fn a_refusal_is_no_failure(state: State, denied: DaemonCmd, now_ms: u64)
    requires
        denied is Denied,
    ensures
        denied->failure_type@ == "permission_denied"@ ==> shown(state, denied, now_ms) == Some(
            Mode::Thinking,
        ) && after(state, denied, now_ms).last_mode == Mode::Thinking,
        denied->failure_type@ != "permission_denied"@ ==> shown(state, denied, now_ms) == Some(
            Mode::Error,
        ) && after(state, denied, now_ms).last_mode == Mode::Error,
        after(state, denied, now_ms) == (State {
            last_mode: after(state, denied, now_ms).last_mode,
            last_ts: now_ms,
            ..state
        }),
{
}

/// A prompt begins a turn: the light shows thinking, and all that an earlier turn left behind is
/// forgotten.
pub proof fn a_prompt_begins_a_turn(state: State, now_ms: u64)
    ensures
        shown(state, DaemonCmd::Thinking, now_ms) == Some(Mode::Thinking),
        after(state, DaemonCmd::Thinking, now_ms) == (State {
            last_mode: Mode::Thinking,
            turn_phase: TurnPhase::Thinking,
            last_ts: now_ms,
            turn_started_ms: now_ms,
            pending_since: 0,
            force_green_until: 0,
            awaiting_build: false,
            build_started: false,
            plan_touched: false,
        }),
{
}

/// Going idle ends a turn: the light is green, and of the turn only its beginning is remembered.
pub proof fn going_idle_ends_a_turn(state: State, now_ms: u64)
    ensures
        shown(state, DaemonCmd::Idle, now_ms) == Some(Mode::Green),
        after(state, DaemonCmd::Idle, now_ms) == (State {
            last_mode: Mode::Green,
            turn_phase: TurnPhase::Idle,
            last_ts: now_ms,
            turn_started_ms: state.turn_started_ms,
            pending_since: 0,
            force_green_until: 0,
            awaiting_build: false,
            build_started: false,
            plan_touched: false,
        }),
{
}

/// Before a tool runs: while a green window is open nothing happens; a question alarms and waits
/// for the user; a tool that takes a permission not given beforehand alarms and waits for that; any
/// other tool is work.
pub proof fn a_tool_alarms_where_the_user_is_asked(state: State, tool: DaemonCmd, now_ms: u64)
    requires
        tool is PreTool,
    ensures
        ({
            let name = tool->PreTool_tool_name@;
            let low = ascii_lower(tool->perm_mode@);
            let question = name == "AskUserQuestion"@;
            let guarded = name == "Bash"@ || name == "Write"@ || name == "Edit"@ || name
                == "WebFetch"@ || name == "WebSearch"@ || name == "NotebookEdit"@ || name
                == "Agent"@ || name == "Task"@;
            let granted = low == "auto"@ || low == "bypasspermissions"@ || low
                == "bypass_permissions"@ || low == "acceptedits"@ || low == "acceptall"@ || low
                == "accept_all"@ || low == "yolo"@ || low == "dontask"@ || low == "never"@;
            let next = after(state, tool, now_ms);
            &&& now_ms < state.force_green_until ==> shown(state, tool, now_ms) is None && next
                == (State { last_ts: now_ms, ..state })
            &&& now_ms >= state.force_green_until && question ==> shown(state, tool, now_ms)
                == Some(Mode::Alarm) && next == (State {
                last_mode: Mode::Alarm,
                turn_phase: TurnPhase::AwaitingUser,
                pending_since: now_ms,
                last_ts: now_ms,
                ..state
            })
            &&& now_ms >= state.force_green_until && !question && guarded && !granted ==> shown(
                state,
                tool,
                now_ms,
            ) == Some(Mode::Alarm) && next == (State {
                last_mode: Mode::Alarm,
                turn_phase: TurnPhase::PendingAuth,
                pending_since: now_ms,
                last_ts: now_ms,
                ..state
            })
            &&& now_ms >= state.force_green_until && !question && (!guarded || granted) ==> shown(
                state,
                tool,
                now_ms,
            ) == Some(Mode::Busy) && next == (State {
                last_mode: Mode::Busy,
                last_ts: now_ms,
                ..state
            })
        }),
{
}

/// After a tool has run: one that made a plan alarms and leaves the plan open; one that ends the
/// planning closes it and shows work; one that answers what the turn waits for goes on working; any
/// other leaves all as it was. A question is answered where one waits, a permission where either
/// waits.
pub proof fn a_finished_tool_answers_its_question(state: State, tool: DaemonCmd, now_ms: u64)
    requires
        tool is PostTool,
    ensures
        ({
            let name = tool->PostTool_tool_name@;
            let guarded = name == "Bash"@ || name == "Write"@ || name == "Edit"@ || name
                == "WebFetch"@ || name == "WebSearch"@ || name == "NotebookEdit"@ || name
                == "Agent"@ || name == "Task"@;
            let asked = state.turn_phase == TurnPhase::AwaitingUser;
            let pending = state.turn_phase == TurnPhase::PendingAuth;
            let planning = name == "CreatePlan"@ || name == "EnterPlanMode"@;
            let planned = name == "ExitPlanMode"@;
            let answered = (name == "AskUserQuestion"@ && asked) || (guarded && (asked || pending));
            let next = after(state, tool, now_ms);
            &&& planning ==> shown(state, tool, now_ms) == Some(Mode::Alarm) && next == (State {
                last_mode: Mode::Alarm,
                plan_touched: true,
                last_ts: now_ms,
                ..state
            })
            &&& planned ==> shown(state, tool, now_ms) == Some(Mode::Busy) && next == (State {
                last_mode: Mode::Busy,
                plan_touched: false,
                last_ts: now_ms,
                ..state
            })
            &&& answered ==> shown(state, tool, now_ms) == Some(Mode::Busy) && next == (State {
                last_mode: Mode::Busy,
                turn_phase: TurnPhase::Busy,
                last_ts: now_ms,
                ..state
            })
            &&& !planning && !planned && !answered ==> shown(state, tool, now_ms) == Some(
                state.last_mode,
            ) && next == (State { last_ts: now_ms, ..state })
        }),
{
    let name = tool->PostTool_tool_name@;
    if asks_user(name) {
        lemma_asking_tool_needs_no_permission(name);
    } else if needs_permission(name) {
        lemma_permission_tools_do_not_plan(name);
    }
    reveal_strlit("CreatePlan");
    reveal_strlit("EnterPlanMode");
    reveal_strlit("ExitPlanMode");
    assert(closes_plan(name) ==> name.len() == 12);
    assert(opens_plan(name) ==> name.len() != 12);
}

/// A completed turn is a success, but for a plan or a build that still waits where no build ran:
/// that is an alarm. A failed turn is an error. Any other end is an interruption, which keeps the
/// light green for two seconds. The turn is over either way, and nothing else is forgotten.
pub proof fn a_turn_ends_as_it_went(state: State, stop: DaemonCmd, now_ms: u64)
    requires
        stop is Stop,
        stop->status@ == "completed"@ || stop->status@ == "error"@ || now_ms + 2_000 <= u64::MAX,
    ensures
        ({
            let status = stop->status@;
            let light = after(state, stop, now_ms).last_mode;
            let waiting = (state.awaiting_build || state.plan_touched) && !state.build_started;
            &&& shown(state, stop, now_ms) == Some(light)
            &&& status == "completed"@ && waiting ==> light == Mode::Alarm
            &&& status == "completed"@ && !waiting ==> light == Mode::Success
            &&& status == "error"@ ==> light == Mode::Error
            &&& status != "completed"@ && status != "error"@ ==> light == Mode::Green
            &&& after(state, stop, now_ms) == (State {
                last_mode: light,
                turn_phase: TurnPhase::Idle,
                last_ts: now_ms,
                force_green_until: if status == "completed"@ || status == "error"@ {
                    0
                } else {
                    (now_ms + 2_000) as u64
                },
                ..state
            })
        }),
{
    reveal_strlit("completed");
    reveal_strlit("error");
    assert("completed"@.len() != "error"@.len());
}

/// A sign of a plan, in a text or in a file's name, alarms and leaves the plan open; without one
/// all stays as it was.
pub proof fn a_plan_alarms(state: State, cmd: DaemonCmd, now_ms: u64)
    requires
        cmd is PlanDetect || cmd is PlanFile,
    ensures
        ({
            let found = if cmd is PlanDetect {
                let low = ascii_lower(cmd->text@);
                occurs(low, "waiting for plan"@) || occurs(low, "plan approval"@) || occurs(
                    low,
                    "plan review"@,
                )
            } else {
                let low = ascii_lower(cmd->path@);
                ".md"@.is_suffix_of(low) || ".txt"@.is_suffix_of(low) || ".plan"@.is_suffix_of(low)
            };
            &&& found ==> shown(state, cmd, now_ms) == Some(Mode::Alarm) && after(
                state,
                cmd,
                now_ms,
            ) == (State {
                last_mode: Mode::Alarm,
                plan_touched: true,
                last_ts: now_ms,
                ..state
            })
            &&& !found ==> shown(state, cmd, now_ms) == Some(state.last_mode) && after(
                state,
                cmd,
                now_ms,
            ) == (State { last_ts: now_ms, ..state })
        }),
{
}

/// A build is work and is remembered; an alarm alarms; work shows work unless an alarm stands; an
/// error is red and ends any waiting.
pub proof fn plain_lights_are_shown(state: State, now_ms: u64)
    ensures
        shown(state, DaemonCmd::Build, now_ms) == Some(Mode::Busy),
        after(state, DaemonCmd::Build, now_ms) == (State {
            last_mode: Mode::Busy,
            build_started: true,
            last_ts: now_ms,
            ..state
        }),
        shown(state, DaemonCmd::Alarm, now_ms) == Some(Mode::Alarm),
        after(state, DaemonCmd::Alarm, now_ms) == (State {
            last_mode: Mode::Alarm,
            last_ts: now_ms,
            ..state
        }),
        state.last_mode != Mode::Alarm ==> shown(state, DaemonCmd::Busy, now_ms) == Some(Mode::Busy)
            && after(state, DaemonCmd::Busy, now_ms) == (State {
            last_mode: Mode::Busy,
            last_ts: now_ms,
            ..state
        }),
        state.last_mode == Mode::Alarm ==> shown(state, DaemonCmd::Busy, now_ms) == Some(
            Mode::Alarm,
        ) && after(state, DaemonCmd::Busy, now_ms) == (State { last_ts: now_ms, ..state }),
        shown(state, DaemonCmd::Error, now_ms) == Some(Mode::Error),
        after(state, DaemonCmd::Error, now_ms) == (State {
            last_mode: Mode::Error,
            turn_phase: TurnPhase::Busy,
            last_ts: now_ms,
            ..state
        }),
{
}

/// The light that a state calls for: green while a window is open; an alarm for a question, until
/// it has waited for thirty seconds, and work from there on; an alarm for a permission that has
/// waited for fifteen seconds, and the remembered light until then; else an alarm where a build is
/// awaited, and the remembered light otherwise, green in place of none.
pub proof fn the_light_follows_the_state(state: State, now_ms: u64)
    ensures
        ({
            let light = resolved(state, now_ms);
            let waited = if state.pending_since > 0 {
                now_ms - state.pending_since
            } else {
                0
            };
            let open = now_ms < state.force_green_until;
            let phase = state.turn_phase;
            &&& open ==> light == Mode::Green
            &&& !open && phase == TurnPhase::AwaitingUser ==> light == if waited >= 30_000 {
                Mode::Busy
            } else {
                Mode::Alarm
            }
            &&& !open && phase == TurnPhase::PendingAuth ==> light == if waited >= 15_000 {
                Mode::Alarm
            } else {
                state.last_mode
            }
            &&& !open && phase != TurnPhase::AwaitingUser && phase != TurnPhase::PendingAuth
                ==> light == if state.awaiting_build {
                Mode::Alarm
            } else if state.last_mode == Mode::Off {
                Mode::Green
            } else {
                state.last_mode
            }
        }),
{
}

/// A daemon begins idle, with no light shown yet and nothing waiting.
pub proof fn a_daemon_begins_idle(now_ms: u64)
    ensures
        State::initial() == (State {
            last_mode: Mode::Off,
            turn_phase: TurnPhase::Idle,
            last_ts: 0,
            turn_started_ms: 0,
            pending_since: 0,
            force_green_until: 0,
            awaiting_build: false,
            build_started: false,
            plan_touched: false,
        }),
        resolved(State::initial(), now_ms) == Mode::Green,
{
}

} // verus!
