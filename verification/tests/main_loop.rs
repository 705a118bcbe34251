use cursorlight::daemon::run::{MainLoop, Reaction, IDLE_EXIT_MS};
use cursorlight::daemon::state::process_cmd;
use cursorlight::daemon::types::{DaemonCmd, Mode, State, TurnPhase};

const NOTHING: Reaction = Reaction { shutdown: false, show: None, close_desktop: false };

fn show(mode: Mode) -> Reaction {
    Reaction { show: Some(mode), ..NOTHING }
}

fn start(id: &str) -> DaemonCmd {
    DaemonCmd::SessionStart { session_id: id.to_string() }
}

fn end(id: &str) -> DaemonCmd {
    DaemonCmd::SessionEnd { session_id: id.to_string() }
}

fn stop(status: &str) -> DaemonCmd {
    DaemonCmd::Stop { status: status.to_string() }
}

#[test]
fn a_new_daemon_shows_green_at_its_first_tick() {
    let mut m = MainLoop::new(1_000);
    assert_eq!(m.state(), State::default());
    assert_eq!(m.on_tick(2_000), show(Mode::Green));
    assert_eq!(m.on_tick(2_000), NOTHING);
    assert_eq!(m.on_tick(3_000), NOTHING);
}

#[test]
fn a_probe_changes_no_light() {
    let mut m = MainLoop::new(0);
    let before = m.state();
    assert_eq!(m.on_command(DaemonCmd::Ping, 10), NOTHING);
    assert_eq!(m.state(), before);
    assert_eq!(m.session_count(), 0);
}

#[test]
fn a_probe_leaves_the_state_machine_alone() {
    let mut state = State::default();
    assert_eq!(process_cmd(&mut state, DaemonCmd::Ping, 5), None);
    assert_eq!(state, State::default());
}

#[test]
fn only_the_stop_of_the_daemon_ends_it() {
    let mut m = MainLoop::new(0);
    assert_eq!(m.on_command(stop("completed"), 10), show(Mode::Success));
    assert_eq!(m.on_command(stop("stop"), 20), Reaction { shutdown: true, ..NOTHING });
}

#[test]
fn sessions_are_counted_by_their_identifier() {
    let mut m = MainLoop::new(0);
    assert_eq!(m.on_command(start("a"), 10), show(Mode::Green));
    assert_eq!(m.on_command(start("a"), 20), NOTHING);
    assert_eq!(m.session_count(), 1);
    assert_eq!(m.on_command(start("b"), 30), NOTHING);
    assert_eq!(m.session_count(), 2);
    let closing = Reaction { close_desktop: true, ..show(Mode::Green) };
    assert_eq!(m.on_command(end("a"), 40), closing);
    assert_eq!(m.session_count(), 1);
    m.on_command(DaemonCmd::Thinking, 45);
    let before = m.state();
    assert_eq!(m.on_command(end("unknown"), 50), NOTHING);
    assert_eq!(m.on_command(end(""), 51), NOTHING);
    assert_eq!(m.on_command(end("a"), 52), NOTHING);
    assert_eq!(m.state(), before);
    assert_eq!(m.session_count(), 1);
    assert_eq!(m.on_command(end("b"), 60), closing);
    assert_eq!(m.session_count(), 0);
    // The next session is a first one again.
    assert_eq!(m.on_command(start("c"), 70), show(Mode::Green));
}

#[test]
fn sessions_without_identifier_are_counted_too() {
    let mut m = MainLoop::new(0);
    assert_eq!(m.on_command(start(""), 10), show(Mode::Green));
    assert_eq!(m.on_command(start(""), 20), NOTHING);
    m.on_command(end(""), 30);
    // One is still open: the next is not a first one, and time does not end the daemon.
    assert_eq!(m.on_command(start("x"), 40), NOTHING);
    assert!(!m.on_tick(40 + IDLE_EXIT_MS + 1).shutdown);
}

#[test]
fn a_stray_end_is_ignored() {
    let mut m = MainLoop::new(0);
    m.on_command(DaemonCmd::Thinking, 5);
    assert_eq!(m.on_command(end("a"), 10), NOTHING);
    assert_eq!(m.state().last_mode, Mode::Thinking);
}

#[test]
fn a_session_resets_the_light() {
    let mut m = MainLoop::new(0);
    m.on_command(DaemonCmd::Error, 5);
    assert_eq!(m.state().last_mode, Mode::Error);
    m.on_command(start("a"), 10);
    assert_eq!(m.state().last_mode, Mode::Green);
    assert_eq!(m.state().turn_phase, TurnPhase::Idle);
    assert_eq!(m.on_tick(20), NOTHING);
}

#[test]
fn going_idle_closes_the_desktop_light() {
    let mut m = MainLoop::new(0);
    assert_eq!(
        m.on_command(DaemonCmd::Idle, 10),
        Reaction { close_desktop: true, ..show(Mode::Green) }
    );
}

#[test]
fn time_changes_the_light() {
    let mut m = MainLoop::new(0);
    m.on_command(start("a"), 1_000);
    let ask = DaemonCmd::PreTool {
        tool_name: "AskUserQuestion".to_string(),
        perm_mode: "default".to_string(),
    };
    assert_eq!(m.on_command(ask, 2_000), show(Mode::Alarm));
    assert_eq!(m.on_tick(31_999), NOTHING);
    assert_eq!(m.on_tick(32_000), show(Mode::Busy));
    assert_eq!(m.state().last_mode, Mode::Busy);
    assert_eq!(m.on_tick(33_000), NOTHING);
}

#[test]
fn a_green_window_mutes_commands() {
    let mut m = MainLoop::new(0);
    assert_eq!(m.on_command(stop("aborted"), 1_000), show(Mode::Green));
    let tool = DaemonCmd::PreTool {
        tool_name: "Bash".to_string(),
        perm_mode: "default".to_string(),
    };
    assert_eq!(m.on_command(tool, 2_000), NOTHING);
    assert_eq!(m.on_tick(2_500), NOTHING);
}

#[test]
fn a_forgotten_daemon_ends() {
    let mut m = MainLoop::new(1_000);
    assert!(!m.on_tick(1_000 + IDLE_EXIT_MS).shutdown);
    assert_eq!(
        m.on_tick(1_001 + IDLE_EXIT_MS),
        Reaction { shutdown: true, ..NOTHING }
    );
    // A clock that goes back does not end it.
    assert!(!m.on_tick(0).shutdown);
    m.on_command(DaemonCmd::Ping, 5_000);
    assert!(!m.on_tick(5_000 + IDLE_EXIT_MS).shutdown);
}
