use cursorlight::client::{
    build_payload, inject_field, next_send_step, parse_args, reads_stdin, ClientError, Invocation,
    Options, SendStep,
};
use cursorlight::daemon::desktop::{
    dots_step, parse_pid, phase_str, send_message, short_id, state_json, DotsStep, STOP_MESSAGE,
};
use cursorlight::daemon::instance::{acquire, startup, InstanceGuard, Startup};
use cursorlight::daemon::log::{error, info, log, warn};
use cursorlight::daemon::pipe::{
    command_of, message_lines, parse_cmd, preview, read_message, session_id_of, tries_again, Field,
    Fields, FrameBuffer, MessageStep, MAX_MESSAGE_BYTES,
};
use cursorlight::daemon::state::process_cmd;
use cursorlight::daemon::types::{DaemonCmd, Mode, State, TurnPhase};

fn args(list: &[&str]) -> Vec<String> {
    list.iter().map(|s| s.to_string()).collect()
}

fn run(list: &[&str]) -> Options {
    match parse_args(&args(list)) {
        Invocation::Run(options) => options,
        _ => panic!("expected a run"),
    }
}

fn no_fields() -> Fields {
    Fields {
        action: Field::Missing,
        tool_name: Field::Missing,
        permission_mode: Field::Missing,
        perm_mode: Field::Missing,
        status: Field::Missing,
        text: Field::Missing,
        path: Field::Missing,
        failure_type: Field::Missing,
        session_id: Field::Missing,
    }
}

fn text(s: &str) -> Field {
    Field::Text(s.to_string())
}

#[test]
fn every_line_of_a_client_arrives() {
    let mut b = FrameBuffer::new();
    assert!(!b.push(b"{\"action\":"));
    assert!(!b.push(b"\"ping\"}\n"));
    assert!(!b.push(b"second\nthi"));
    assert!(!b.push(b"rd\n"));
    assert!(b.push(b""));
    assert_eq!(b.messages(), vec!["{\"action\":\"ping\"}", "second", "third"]);
}

#[test]
fn a_frame_ends_with_the_client() {
    let mut b = FrameBuffer::new();
    assert!(!b.push(b"  one "));
    assert!(b.push(b""));
    assert_eq!(b.messages(), vec!["one"]);
    assert!(FrameBuffer::new().messages().is_empty());
}

#[test]
fn a_frame_is_cut_at_its_limit() {
    let mut b = FrameBuffer::new();
    let chunk = vec![b'a'; 16 * 1024];
    let mut n = 0;
    while !b.push(&chunk) {
        n += 1;
    }
    assert_eq!(n, 64);
    let messages = b.messages();
    assert_eq!(messages.len(), 1);
    assert_eq!(messages[0].len(), MAX_MESSAGE_BYTES);
}

#[test]
fn the_limit_is_on_one_line() {
    let mut b = FrameBuffer::new();
    let long = vec![b'a'; MAX_MESSAGE_BYTES];
    assert!(!b.push(&long));
    assert!(!b.push(b"\nshort\nlast"));
    assert!(!b.push(&vec![b'b'; MAX_MESSAGE_BYTES - 4]));
    assert!(b.push(b"cc"));
    let messages = b.messages();
    assert_eq!(messages.len(), 3);
    assert_eq!(messages[0].len(), MAX_MESSAGE_BYTES);
    assert_eq!(messages[1], "short");
    assert_eq!(messages[2].len(), MAX_MESSAGE_BYTES);
    assert!(messages[2].starts_with("lastb") && messages[2].ends_with("b"));
}

#[test]
fn lines_are_trimmed_and_empty_ones_dropped() {
    assert_eq!(message_lines("\r\n a \n\n\u{3000}b\t\n \n"), vec!["a", "b"]);
    let mut b = FrameBuffer::new();
    b.push(&[b'x', 0xFF, b'\n']);
    assert_eq!(b.messages(), vec!["x\u{FFFD}"]);
}

#[test]
fn a_message_is_read_or_shown() {
    assert!(matches!(read_message("  "), MessageStep::Skip));
    assert!(matches!(
        read_message(" {\"action\":\"idle\"} "),
        MessageStep::Command(DaemonCmd::Idle)
    ));
    match read_message("no json") {
        MessageStep::Unreadable { start } => assert_eq!(start, "no json"),
        _ => panic!("expected an unreadable message"),
    }
    assert_eq!(preview(&"z".repeat(400)), "z".repeat(400));
    assert_eq!(preview(&"z".repeat(401)), format!("{}...<truncated>", "z".repeat(400)));
}

#[test]
fn commands_are_made_of_fields() {
    assert!(command_of(no_fields()).is_none());
    assert!(command_of(Fields { action: Field::Other, ..no_fields() }).is_none());
    match command_of(Fields { action: text("pre_tool"), ..no_fields() }) {
        Some(DaemonCmd::PreTool { tool_name, perm_mode }) => {
            assert_eq!((tool_name.as_str(), perm_mode.as_str()), ("unknown", "default"));
        }
        _ => panic!("expected PreTool"),
    }
    // A newer name that is no text hides the older one.
    let f = Fields {
        action: text("pre_tool"),
        permission_mode: Field::Other,
        perm_mode: text("auto"),
        ..no_fields()
    };
    match command_of(f) {
        Some(DaemonCmd::PreTool { perm_mode, .. }) => assert_eq!(perm_mode, "default"),
        _ => panic!("expected PreTool"),
    }
    match command_of(Fields { action: text("stop"), ..no_fields() }) {
        Some(DaemonCmd::Stop { status }) => assert_eq!(status, "unknown"),
        _ => panic!("expected Stop"),
    }
    match command_of(Fields { action: text("plan_file"), path: text("p.md"), ..no_fields() }) {
        Some(DaemonCmd::PlanFile { path }) => assert_eq!(path, "p.md"),
        _ => panic!("expected PlanFile"),
    }
    assert_eq!(session_id_of(Field::Other), "");
}

#[test]
fn json_that_is_no_object_is_no_command() {
    assert!(parse_cmd("[\"action\"]").is_none());
    assert!(parse_cmd("\"thinking\"").is_none());
    assert!(parse_cmd("{\"action\":1}").is_none());
    assert!(parse_cmd(&"[".repeat(200)).is_none());
}

#[test]
fn an_instance_of_the_pipe_is_tried_five_times() {
    let tries = (1..10u32).take_while(|n| *n == 1 || tries_again(*n - 1)).count();
    assert_eq!(tries, 5);
}

#[test]
fn options_are_read_in_any_order() {
    let o = run(&["pipe-client", "--status", "completed", "--stdin", "--action", "stop"]);
    assert!(o.use_stdin && !o.ping && !o.timing);
    assert_eq!(o.action.as_deref(), Some("stop"));
    assert_eq!(o.status.as_deref(), Some("completed"));
    assert!(reads_stdin(&o));
    let o = run(&["pipe-client", "{}", "--timing", "x"]);
    assert_eq!(o.positional, vec!["{}", "x"]);
    assert!(o.timing && !reads_stdin(&o));
    assert!(!reads_stdin(&run(&["pipe-client", "--stdin", "--ping"])));
    assert!(run(&[]).positional.is_empty());
}

#[test]
fn odd_options_end_the_reading() {
    assert!(matches!(parse_args(&args(&["c", "-h", "--nope"])), Invocation::Help));
    assert!(matches!(parse_args(&args(&["c", "--help"])), Invocation::Help));
    assert!(matches!(parse_args(&args(&["c", "-V"])), Invocation::Version));
    assert!(matches!(parse_args(&args(&["c", "--version"])), Invocation::Version));
    match parse_args(&args(&["c", "--action"])) {
        Invocation::MissingValue(option) => assert_eq!(option, "--action"),
        _ => panic!("expected a missing value"),
    }
    match parse_args(&args(&["c", "--stdin", "--status"])) {
        Invocation::MissingValue(option) => assert_eq!(option, "--status"),
        _ => panic!("expected a missing value"),
    }
    match parse_args(&args(&["c", "--nope", "--help"])) {
        Invocation::Unknown(option) => assert_eq!(option, "--nope"),
        _ => panic!("expected an unknown option"),
    }
    // The value of an option is taken as it stands.
    assert_eq!(run(&["c", "--action", "--help"]).action.as_deref(), Some("--help"));
    assert_eq!(run(&["c", "-x"]).positional, vec!["-x"]);
}

#[test]
fn payloads_are_one_line() {
    let o = run(&["c", "--ping"]);
    assert_eq!(build_payload(&o, "ignored").unwrap(), "{\"action\":\"ping\"}\n");
    let o = run(&["c", "--stdin"]);
    assert_eq!(build_payload(&o, "  \n").unwrap(), "{}\n");
    assert_eq!(build_payload(&o, " {\"a\":1}\n").unwrap(), "{\"a\":1}\n");
    let o = run(&["c", "{\"action\":\"idle\"}", "more"]);
    assert_eq!(build_payload(&o, "").unwrap(), "{\"action\":\"idle\"}\n");
    assert!(matches!(build_payload(&run(&["c"]), ""), Err(ClientError::Usage)));
}

#[test]
fn an_injected_action_reaches_the_daemon() {
    let o = run(&["c", "--stdin", "--action", "stop", "--status", "com\"pl\neted"]);
    let input = "{\n  \"action\": \"busy\",\n  \"deep\": {\"x\": [1, 2.5, null]}\n}\n";
    let payload = build_payload(&o, input).unwrap();
    assert_eq!(payload.matches('\n').count(), 1);
    let mut b = FrameBuffer::new();
    assert!(!b.push(payload.as_bytes()));
    assert!(b.push(b""));
    let messages = b.messages();
    assert_eq!(messages.len(), 1);
    match parse_cmd(&messages[0]).unwrap() {
        DaemonCmd::Stop { status } => assert_eq!(status, "com\"pl\neted"),
        _ => panic!("expected Stop"),
    }
}

#[test]
fn a_field_is_put_into_an_object_only() {
    assert_eq!(inject_field("{}", "action", "idle").unwrap(), "{\"action\":\"idle\"}");
    assert_eq!(
        inject_field("{\"action\":1,\"z\":true}", "action", "idle").unwrap(),
        "{\"action\":\"idle\",\"z\":true}"
    );
    assert_eq!(
        inject_field("{\"l\":[1,-2,[null,{\"m\":\"x\"}]],\"n\":null}", "a", "b").unwrap(),
        "{\"a\":\"b\",\"l\":[1,-2,[null,{\"m\":\"x\"}]],\"n\":null}"
    );
    match inject_field("[]", "action", "idle") {
        Err(e) => assert_eq!(e.text(), "JSON payload is not an object"),
        Ok(_) => panic!("expected an error"),
    }
    match inject_field("{", "action", "idle") {
        Err(ClientError::Invalid(reason)) => {
            assert_eq!(reason, "EOF while parsing an object at line 1 column 1");
            assert_eq!(
                ClientError::Invalid(reason).text(),
                "Invalid JSON: EOF while parsing an object at line 1 column 1"
            );
        }
        _ => panic!("expected an error"),
    }
    let o = run(&["c", "--stdin", "--action", "idle"]);
    assert!(matches!(build_payload(&o, "7"), Err(ClientError::NotAnObject)));
}

#[test]
fn the_client_starts_the_daemon_before_it_gives_up() {
    let mut failures = 0;
    let mut started = false;
    let mut starts = 0;
    loop {
        match next_send_step(failures, started) {
            SendStep::Try => failures += 1,
            SendStep::StartDaemon => {
                assert_eq!(failures, 4);
                started = true;
                starts += 1;
            }
            SendStep::GiveUp => break,
        }
    }
    assert_eq!((failures, starts), (39, 1));
}

#[test]
fn the_state_file_holds_the_state() {
    let state = State {
        turn_phase: TurnPhase::PendingAuth,
        last_ts: 1,
        turn_started_ms: u64::MAX,
        pending_since: 3,
        force_green_until: 4,
        build_started: true,
        ..State::default()
    };
    assert_eq!(
        state_json(&state, Mode::Alarm),
        "{\"awaiting_build\":false,\"build_started\":true,\"force_green_until\":4,\
         \"last_mode\":\"alarm\",\"last_ts\":1,\"pending_since\":3,\"plan_touched\":false,\
         \"turn_phase\":\"pending_auth\",\"turn_started_ms\":18446744073709551615}"
    );
    assert_eq!(phase_str(TurnPhase::Idle), "idle");
    assert_eq!(phase_str(TurnPhase::Thinking), "thinking");
    assert_eq!(phase_str(TurnPhase::Busy), "busy");
    assert_eq!(phase_str(TurnPhase::AwaitingUser), "awaiting_user");
}

#[test]
fn a_mode_can_be_sent_by_hand() {
    assert_eq!(send_message("Busy").unwrap(), "{\"action\":\"busy\"}\n");
    assert!(send_message("purple").is_none());
    let modes = [
        Mode::Demo,
        Mode::Thinking,
        Mode::Ai,
        Mode::Busy,
        Mode::Success,
        Mode::Error,
        Mode::Alarm,
        Mode::Off,
        Mode::Red,
        Mode::Yellow,
        Mode::Green,
    ];
    for mode in modes {
        let line = send_message(mode.as_str()).unwrap();
        assert_eq!(message_lines(&line), vec![line.trim()]);
        let cmd = parse_cmd(line.trim()).unwrap();
        let mut state = State::default();
        assert_eq!(process_cmd(&mut state, cmd, 7), Some(mode));
        assert_eq!(state.last_mode, mode);
    }
    assert!(parse_cmd("{\"action\":\"Green\"}").is_none());
    match parse_cmd(STOP_MESSAGE.trim()) {
        Some(DaemonCmd::Stop { status }) => assert_eq!(status, "stop"),
        _ => panic!("expected Stop"),
    }
}

#[test]
fn a_process_number_is_read() {
    assert_eq!(parse_pid(" 1234\r\n"), Some(1234));
    assert_eq!(parse_pid("+7"), Some(7));
    assert_eq!(parse_pid("4294967295"), Some(u32::MAX));
    assert_eq!(parse_pid("4294967296"), None);
    assert_eq!(parse_pid("-1"), None);
    assert_eq!(parse_pid(""), None);
    assert_eq!(parse_pid("12 34"), None);
}

#[test]
fn the_file_of_the_desktop_light_decides() {
    assert_eq!(dots_step(None), DotsStep::Nothing);
    assert_eq!(dots_step(Some(" 1234\n")), DotsStep::Kill { pid: 1234 });
    assert_eq!(dots_step(Some("")), DotsStep::RemoveFile);
    assert_eq!(dots_step(Some("12x")), DotsStep::RemoveFile);
}

#[test]
fn identifiers_are_shortened_for_the_log() {
    assert_eq!(short_id("12345678"), "12345678");
    assert_eq!(short_id("123456789"), "12345678");
    assert_eq!(short_id(""), "");
}

#[test]
fn the_mutex_tells_whether_a_daemon_runs() {
    match acquire(77, 0) {
        InstanceGuard::Acquired(guard) => assert_eq!(guard.handle(), 77),
        _ => panic!("expected the mutex"),
    }
    assert_eq!(acquire(77, 183), InstanceGuard::AlreadyRunning);
    assert_eq!(acquire(0, 5), InstanceGuard::Unavailable(5));
    assert_eq!(acquire(0, 183), InstanceGuard::Unavailable(183));
    assert_eq!(startup(&acquire(77, 0)), Startup::Run);
    assert_eq!(startup(&acquire(77, 183)), Startup::Exit);
    assert_eq!(startup(&acquire(0, 5)), Startup::RunUnguarded);
}

#[test]
fn log_lines_are_stamped() {
    let l = warn("2026-09-12 14:30:00", "odd");
    assert_eq!(l.text, "[2026-09-12 14:30:00] WARN: odd");
    assert!(l.to_stderr);
    let l = error("t", "bad");
    assert_eq!(l.text, "[t] ERROR: bad");
    assert!(l.to_stderr);
    assert_eq!(info("t", "fine").text, "[t] fine");
    assert!(!log("t", "fine").to_stderr);
}
