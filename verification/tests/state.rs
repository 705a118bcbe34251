use cursorlight::daemon::state::{process_cmd, resolve_mode};
use cursorlight::daemon::types::{DaemonCmd, Mode, State, TurnPhase};


fn fresh() -> State {
    State::default()
}

#[test]
fn stop_completed_does_not_open_green_window() {
    let mut st = fresh();
    let m = process_cmd(
        &mut st,
        DaemonCmd::Stop {
            status: "completed".into(),
        },
        1_000,
    )
    .unwrap();
    assert_eq!(m, Mode::Success);
    assert_eq!(st.force_green_until, 0);
    assert_eq!(resolve_mode(&st, 2_000), Mode::Success);
}

#[test]
fn stop_error_keeps_error() {
    let mut st = fresh();
    process_cmd(
        &mut st,
        DaemonCmd::Stop {
            status: "error".into(),
        },
        1_000,
    );
    assert_eq!(resolve_mode(&st, 5_000), Mode::Error);
}

#[test]
fn stop_aborted_opens_green_window() {
    let mut st = fresh();
    let m = process_cmd(
        &mut st,
        DaemonCmd::Stop {
            status: "aborted".into(),
        },
        1_000,
    )
    .unwrap();
    assert_eq!(m, Mode::Green);
    assert!(st.force_green_until > 1_000);
    assert_eq!(resolve_mode(&st, 1_500), Mode::Green);
    assert!(process_cmd(
        &mut st,
        DaemonCmd::PreTool {
            tool_name: "Bash".into(),
            perm_mode: "default".into(),
        },
        1_600
    )
    .is_none());
}

#[test]
fn new_result_clears_stale_green_window() {
    let mut st = fresh();
    process_cmd(
        &mut st,
        DaemonCmd::Stop {
            status: "aborted".into(),
        },
        1_000,
    );
    process_cmd(
        &mut st,
        DaemonCmd::Stop {
            status: "completed".into(),
        },
        1_200,
    );
    assert_eq!(st.force_green_until, 0);
    assert_eq!(resolve_mode(&st, 1_500), Mode::Success);
}

#[test]
fn auto_permission_modes_are_busy_not_alarm() {
    let mut st = fresh();
    for perm in ["auto", "acceptEdits", "bypassPermissions"] {
        let m = process_cmd(
            &mut st,
            DaemonCmd::PreTool {
                tool_name: "Bash".into(),
                perm_mode: perm.into(),
            },
            0,
        )
        .unwrap();
        assert_eq!(m, Mode::Busy, "perm={}", perm);
    }
}

#[test]
fn read_only_tools_never_alarm() {
    let mut st = fresh();
    for tool in ["Read", "Glob", "Grep"] {
        let m = process_cmd(
            &mut st,
            DaemonCmd::PreTool {
                tool_name: tool.into(),
                perm_mode: "default".into(),
            },
            0,
        )
        .unwrap();
        assert_eq!(m, Mode::Busy, "tool={}", tool);
    }
    let m = process_cmd(
        &mut st,
        DaemonCmd::PreTool {
            tool_name: "Bash".into(),
            perm_mode: "default".into(),
        },
        0,
    )
    .unwrap();
    assert_eq!(m, Mode::Alarm);
}

#[test]
fn error_action_is_red() {
    let mut st = fresh();
    let m = process_cmd(&mut st, DaemonCmd::Error, 0).unwrap();
    assert_eq!(m, Mode::Error);
    assert_eq!(resolve_mode(&st, 10), Mode::Error);
}

#[test]
fn idle_resets_to_green() {
    let mut st = fresh();
    process_cmd(&mut st, DaemonCmd::Alarm, 0);
    let m = process_cmd(&mut st, DaemonCmd::Idle, 1).unwrap();
    assert_eq!(m, Mode::Green);
    assert_eq!(st.turn_phase, TurnPhase::Idle);
    assert_eq!(st.force_green_until, 0);
}

#[test]
fn session_and_ping_commands_are_ignored_by_state_machine() {
    let mut st = fresh();
    assert!(process_cmd(&mut st, DaemonCmd::Ping, 0).is_none());
    assert!(process_cmd(
        &mut st,
        DaemonCmd::SessionStart {
            session_id: "x".into()
        },
        0
    )
    .is_none());
    assert!(process_cmd(
        &mut st,
        DaemonCmd::SessionEnd {
            session_id: "x".into()
        },
        0
    )
    .is_none());
}
