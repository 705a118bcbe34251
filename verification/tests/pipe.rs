use cursorlight::daemon::pipe::{parse_cmd, preview};
use cursorlight::daemon::types::DaemonCmd;

#[test]
fn parse_thinking() {
    let cmd = parse_cmd(r#"{"action":"thinking"}"#).unwrap();
    assert!(matches!(cmd, DaemonCmd::Thinking));
}

#[test]
fn parse_pre_tool_legacy_perm_mode() {
    let cmd =
        parse_cmd(r#"{"action":"pre_tool","tool_name":"Bash","perm_mode":"auto"}"#).unwrap();
    match cmd {
        DaemonCmd::PreTool {
            tool_name,
            perm_mode,
        } => {
            assert_eq!(tool_name, "Bash");
            assert_eq!(perm_mode, "auto");
        }
        _ => panic!("expected PreTool"),
    }
}

#[test]
fn parse_pre_tool_permission_mode() {
    let cmd = parse_cmd(
        r#"{"action":"pre_tool","tool_name":"Write","permission_mode":"acceptEdits"}"#,
    )
    .unwrap();
    match cmd {
        DaemonCmd::PreTool { perm_mode, .. } => assert_eq!(perm_mode, "acceptEdits"),
        _ => panic!("expected PreTool"),
    }
}

#[test]
fn parse_post_tool() {
    let cmd = parse_cmd(r#"{"action":"post_tool","tool_name":"Write"}"#).unwrap();
    match cmd {
        DaemonCmd::PostTool { tool_name } => assert_eq!(tool_name, "Write"),
        _ => panic!("expected PostTool"),
    }
}

#[test]
fn parse_post_tool_with_large_payload() {
    // A message longer than any read buffer is read whole.
    let big = "x".repeat(64 * 1024);
    let json = format!(
        r#"{{"action":"post_tool","tool_name":"Edit","tool_input":{{"new_string":"{}"}}}}"#,
        big
    );
    let cmd = parse_cmd(&json).unwrap();
    match cmd {
        DaemonCmd::PostTool { tool_name } => assert_eq!(tool_name, "Edit"),
        _ => panic!("expected PostTool"),
    }
}

#[test]
fn parse_stop() {
    let cmd = parse_cmd(r#"{"action":"stop","status":"completed"}"#).unwrap();
    match cmd {
        DaemonCmd::Stop { status } => assert_eq!(status, "completed"),
        _ => panic!("expected Stop"),
    }
}

#[test]
fn parse_idle() {
    let cmd = parse_cmd(r#"{"action":"idle"}"#).unwrap();
    assert!(matches!(cmd, DaemonCmd::Idle));
}

#[test]
fn parse_ping() {
    let cmd = parse_cmd(r#"{"action":"ping"}"#).unwrap();
    assert!(matches!(cmd, DaemonCmd::Ping));
}

#[test]
fn parse_error() {
    let cmd = parse_cmd(r#"{"action":"error"}"#).unwrap();
    assert!(matches!(cmd, DaemonCmd::Error));
}

#[test]
fn parse_plan_detect() {
    let cmd = parse_cmd(r#"{"action":"plan_detect","text":"step 1: ..."}"#).unwrap();
    match cmd {
        DaemonCmd::PlanDetect { text } => assert_eq!(text, "step 1: ..."),
        _ => panic!("expected PlanDetect"),
    }
}

#[test]
fn parse_denied() {
    let cmd = parse_cmd(r#"{"action":"denied","failure_type":"permission_denied"}"#).unwrap();
    match cmd {
        DaemonCmd::Denied { failure_type } => assert_eq!(failure_type, "permission_denied"),
        _ => panic!("expected Denied"),
    }
}

#[test]
fn parse_build() {
    let cmd = parse_cmd(r#"{"action":"build"}"#).unwrap();
    assert!(matches!(cmd, DaemonCmd::Build));
}

#[test]
fn parse_alarm() {
    let cmd = parse_cmd(r#"{"action":"alarm"}"#).unwrap();
    assert!(matches!(cmd, DaemonCmd::Alarm));
}

#[test]
fn parse_busy() {
    let cmd = parse_cmd(r#"{"action":"busy"}"#).unwrap();
    assert!(matches!(cmd, DaemonCmd::Busy));
}

#[test]
fn parse_session_lifecycle() {
    match parse_cmd(r#"{"action":"session_start","session_id":"abc"}"#).unwrap() {
        DaemonCmd::SessionStart { session_id } => assert_eq!(session_id, "abc"),
        _ => panic!("expected SessionStart"),
    }
    match parse_cmd(r#"{"action":"session_end","session_id":"abc"}"#).unwrap() {
        DaemonCmd::SessionEnd { session_id } => assert_eq!(session_id, "abc"),
        _ => panic!("expected SessionEnd"),
    }
    // A session without an identifier is read too.
    match parse_cmd(r#"{"action":"session_start"}"#).unwrap() {
        DaemonCmd::SessionStart { session_id } => assert!(session_id.is_empty()),
        _ => panic!("expected SessionStart"),
    }
}

#[test]
fn parse_unknown_action() {
    assert!(parse_cmd(r#"{"action":"foobar"}"#).is_none());
}

#[test]
fn parse_invalid_json() {
    assert!(parse_cmd("not json").is_none());
}

#[test]
fn parse_missing_action() {
    assert!(parse_cmd(r#"{"foo":"bar"}"#).is_none());
}

#[test]
fn parse_empty_string() {
    assert!(parse_cmd("").is_none());
}

#[test]
fn preview_truncates_long_payload() {
    let long = "y".repeat(5000);
    let p = preview(&long);
    assert!(p.len() < long.len());
    assert!(p.ends_with("<truncated>"));
}
