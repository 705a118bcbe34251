use cursorlight::daemon::ble::{mode_char_uuid, named_mode, Seen, WriteOutcome};
use cursorlight::daemon::link::{
    scans_on, ConnectAction, Connector, LinkTask, Linked, Phase, TaskAction,
};
use cursorlight::daemon::pipe::{pipe_server, ServerAction, ServerEvent, ServerPhase};
use cursorlight::daemon::types::Mode;
use cursorlight::firmware::ota::{judge, Verdict};

fn devices(addresses: &[u64]) -> Vec<Seen> {
    addresses.iter().map(|a| Seen { name: None, address: Some(*a) }).collect()
}

#[test]
fn a_connection_comes_up_in_steps() {
    let mut c = Connector::new(7);
    assert_eq!(c.on_devices(Some(&devices(&[5, 7, 7]))), ConnectAction::Connect { index: 1 });
    assert_eq!(c.on_connected(true), ConnectAction::Discover);
    assert_eq!(c.on_characteristics(Some(&vec![1, mode_char_uuid()])), ConnectAction::Connected);
    assert_eq!(c.attempt, 0);
}

#[test]
fn a_connection_fails_at_the_second_attempt() {
    let mut c = Connector::new(7);
    assert_eq!(c.on_devices(None), ConnectAction::Again { disconnect: false, wait_ms: 0 });
    assert_eq!(c.on_devices(Some(&devices(&[5]))), ConnectAction::Failed { disconnect: false });
    let mut c = Connector::new(7);
    assert_eq!(
        c.on_devices(Some(&devices(&[]))),
        ConnectAction::Again { disconnect: false, wait_ms: 1000 }
    );
    assert_eq!(c.on_connected(false), ConnectAction::Failed { disconnect: false });
    let mut c = Connector::new(7);
    assert_eq!(
        c.on_characteristics(None),
        ConnectAction::Again { disconnect: true, wait_ms: 500 }
    );
    assert_eq!(
        c.on_characteristics(Some(&vec![1])),
        ConnectAction::Failed { disconnect: true }
    );
}

#[test]
fn a_scan_takes_eight_seconds() {
    assert!(scans_on(0));
    assert!(scans_on(7_999));
    assert!(!scans_on(8_000));
}

#[test]
fn the_link_sends_what_is_wanted() {
    let mut t = LinkTask::new(Mode::Green);
    t.on_address(7);
    assert_eq!(t.on_linked(Linked::Connected, 1_000), TaskAction::Await { ms: 1000 });
    assert_eq!(
        t.on_woken(Mode::Busy, 2_000),
        TaskAction::Write { mode: Mode::Busy, after_ms: 0 }
    );
    assert_eq!(t.on_written(WriteOutcome::Confirmed, 2_100), TaskAction::Await { ms: 1000 });
    assert_eq!(t.ble.last_sent_ts, 2_000);
    assert_eq!(t.on_woken(Mode::Busy, 2_200), TaskAction::Await { ms: 1000 });
    assert_eq!(
        t.on_woken(Mode::Red, 2_020),
        TaskAction::Write { mode: Mode::Red, after_ms: 40 }
    );
}

#[test]
fn a_lost_link_comes_back_with_its_mode() {
    let mut t = LinkTask::new(Mode::Green);
    t.on_address(7);
    t.on_linked(Linked::Connected, 1_000);
    t.on_woken(Mode::Busy, 2_000);
    t.on_written(WriteOutcome::Confirmed, 2_100);
    t.on_woken(Mode::Alarm, 3_000);
    // The write fails: the link is down, and waits as briefly as it may.
    assert_eq!(t.on_written(WriteOutcome::TimedOut, 3_100), TaskAction::Await { ms: 20 });
    assert_eq!(t.ble.consecutive_failures, 1);
    assert_eq!(t.on_woken(Mode::Busy, 3_200), TaskAction::Direct { address: 7 });
    assert_eq!(t.ble.reconnect_cooldown, 7_200);
    assert_eq!(t.on_linked(Linked::Failed, 4_200), TaskAction::Await { ms: 1000 });
    assert_eq!(t.on_woken(Mode::Busy, 6_900), TaskAction::Await { ms: 300 });
    assert_eq!(t.on_woken(Mode::Busy, 7_200), TaskAction::Direct { address: 7 });
    assert_eq!(t.on_linked(Linked::Connected, 8_000), TaskAction::ReadBack);
    assert_eq!(t.phase, Phase::Checking);
    // The light was sent this mode before, and gets it all the same.
    assert_eq!(t.on_checked(8_100), TaskAction::Write { mode: Mode::Busy, after_ms: 0 });
}

#[test]
fn an_unknown_light_is_scanned_for() {
    let mut t = LinkTask::new(Mode::Green);
    assert_eq!(t.on_linked(Linked::NotTried, 1_000), TaskAction::Await { ms: 20 });
    assert_eq!(t.on_woken(Mode::Green, 1_020), TaskAction::Scan);
    assert_eq!(t.on_linked(Linked::NotTried, 9_020), TaskAction::Await { ms: 1000 });
    assert_eq!(t.ble.reconnect_cooldown, 21_020);
    assert_eq!(t.on_woken(Mode::Green, 21_020), TaskAction::Scan);
    t.on_address(9);
    assert_eq!(t.on_linked(Linked::Connected, 22_000), TaskAction::ReadBack);
}

#[test]
fn the_pipe_server_keeps_an_instance() {
    let (p, a) = pipe_server(ServerPhase::Listening, ServerEvent::Client { ok: true });
    assert_eq!(a, ServerAction::MakeSpare);
    let (p, a) = pipe_server(p, ServerEvent::Instance { made: true });
    assert_eq!(a, ServerAction::Serve);
    let (p, a) = pipe_server(p, ServerEvent::Served { open: true });
    assert_eq!((p, a), (ServerPhase::Listening, ServerAction::HandOver));
    let (p, a) = pipe_server(p, ServerEvent::Client { ok: false });
    assert_eq!(a, ServerAction::Replace);
    assert_eq!(pipe_server(p, ServerEvent::Instance { made: false }).1, ServerAction::Fail);
    let (p, a) = pipe_server(p, ServerEvent::Instance { made: true });
    assert_eq!((p, a), (ServerPhase::Listening, ServerAction::Listen));
    let (p, _) = pipe_server(p, ServerEvent::Client { ok: true });
    let (p, a) = pipe_server(p, ServerEvent::Instance { made: false });
    assert_eq!(a, ServerAction::Serve);
    assert_eq!(pipe_server(p, ServerEvent::Served { open: false }).1, ServerAction::Stop);
    assert_eq!(pipe_server(p, ServerEvent::Served { open: true }).1, ServerAction::Replace);
}

#[test]
fn an_image_is_judged() {
    let (a, b) = ([1u8; 32], [2u8; 32]);
    assert_eq!(judge(false, 1, 1, &a, &a), Verdict::NoRoom);
    assert_eq!(judge(true, 1, 2, &a, &b), Verdict::WrongLength);
    assert_eq!(judge(true, 2, 2, &a, &b), Verdict::WrongDigest);
    assert_eq!(judge(true, 2, 2, &a, &a), Verdict::Whole);
}

#[test]
fn a_text_names_a_mode() {
    assert_eq!(named_mode("\tALARM \n"), Some(Mode::Alarm));
    assert_eq!(named_mode(""), None);
}
