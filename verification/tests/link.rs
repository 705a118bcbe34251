use cursorlight::daemon::ble::{
    after_attempt, backoff_ms, debounce_ms, find_address, find_light, find_mode_characteristic,
    mode_char_uuid, service_uuid, Attempt, BleDaemon, ConnectStep, LinkStep, Seen, SendPlan,
    WriteOutcome,
};
use cursorlight::daemon::types::{BleResult, Mode};

fn seen(name: Option<&str>, address: Option<u64>) -> Seen {
    Seen { name: name.map(|n| n.to_string()), address }
}

#[test]
fn pauses_depend_on_the_mode() {
    assert_eq!(debounce_ms(Mode::Alarm), 0);
    assert_eq!(debounce_ms(Mode::Red), 60);
    assert_eq!(debounce_ms(Mode::Yellow), 60);
    assert_eq!(debounce_ms(Mode::Green), 120);
    assert_eq!(debounce_ms(Mode::Off), 120);
    assert_eq!(debounce_ms(Mode::Thinking), 90);
}

#[test]
fn the_backoff_doubles_up_to_its_limit() {
    let delays: Vec<u64> = [0u32, 1, 2, 3, 4, 20, 21, u32::MAX].iter().map(|f| backoff_ms(*f)).collect();
    assert_eq!(delays, vec![2000, 4000, 8000, 15000, 15000, 15000, 15000, 15000]);
}

#[test]
fn identifiers_are_read_as_numbers() {
    assert_eq!(service_uuid(), 0xb8b7e001_7a6b_4f4f_9a8b_11c0ffee0001);
    assert_eq!(mode_char_uuid(), 0xb8b7e002_7a6b_4f4f_9a8b_11c0ffee0001);
}

#[test]
fn the_first_light_is_taken() {
    let devices = vec![
        seen(None, Some(1)),
        seen(Some("Other"), Some(2)),
        seen(Some("CursorLight"), Some(3)),
        seen(Some("CursorLight"), Some(4)),
    ];
    assert_eq!(find_light(&devices), Some(3));
    assert_eq!(find_light(&vec![seen(Some("cursorlight"), Some(5))]), None);
    assert_eq!(find_address(&devices, 4), Some(3));
    assert_eq!(find_address(&devices, 5), None);
    assert_eq!(find_mode_characteristic(&vec![7, mode_char_uuid(), 8]), Some(1));
    assert_eq!(find_mode_characteristic(&vec![7]), None);
}

#[test]
fn a_connection_is_tried_twice() {
    assert_eq!(after_attempt(0, Attempt::Ready), ConnectStep::Connected);
    assert_eq!(
        after_attempt(0, Attempt::NoListing),
        ConnectStep::Retry { disconnect: false, wait_ms: 0 }
    );
    assert_eq!(
        after_attempt(0, Attempt::NotFound),
        ConnectStep::Retry { disconnect: false, wait_ms: 1000 }
    );
    assert_eq!(
        after_attempt(0, Attempt::NotConnected),
        ConnectStep::Retry { disconnect: false, wait_ms: 1000 }
    );
    assert_eq!(
        after_attempt(0, Attempt::NoModeCharacteristic),
        ConnectStep::Retry { disconnect: true, wait_ms: 500 }
    );
    assert_eq!(
        after_attempt(1, Attempt::NoServices),
        ConnectStep::GiveUp { disconnect: true }
    );
    assert_eq!(
        after_attempt(1, Attempt::NotFound),
        ConnectStep::GiveUp { disconnect: false }
    );
}

#[test]
fn only_changes_are_sent() {
    let mut b = BleDaemon::new();
    b.on_address(7);
    b.on_connect(true);
    assert_eq!(b.plan_send(Mode::Busy, 10_000), SendPlan::After { wait_ms: 0 });
    let r = b.write_mode(WriteOutcome::Confirmed);
    assert!(matches!(r, BleResult::Sent));
    assert!(b.on_sent(Mode::Busy, 10_000, &r));
    assert_eq!(b.plan_send(Mode::Busy, 10_001), SendPlan::Skip);
    assert_eq!(b.plan_send(Mode::Green, 10_020), SendPlan::After { wait_ms: 100 });
    assert_eq!(b.plan_send(Mode::Alarm, 10_020), SendPlan::After { wait_ms: 0 });
    assert_eq!(b.plan_send(Mode::Green, 9_000), SendPlan::After { wait_ms: 120 });
}

#[test]
fn an_alarm_makes_nobody_wait() {
    let mut b = BleDaemon::new();
    b.on_connect(true);
    let r = b.write_mode(WriteOutcome::Confirmed);
    b.on_sent(Mode::Alarm, 10_000, &r);
    assert_eq!(b.plan_send(Mode::Green, 10_000), SendPlan::After { wait_ms: 0 });
}

#[test]
fn a_failed_write_cuts_the_connection() {
    let mut b = BleDaemon::new();
    assert!(matches!(b.write_mode(WriteOutcome::Confirmed), BleResult::Disconnected));
    b.on_connect(true);
    match b.write_mode(WriteOutcome::NoCharacteristic) {
        BleResult::Error(reason) => assert_eq!(reason, "Mode characteristic not found"),
        _ => panic!("expected an error"),
    }
    assert!(b.is_connected());
    match b.write_mode(WriteOutcome::TimedOut) {
        BleResult::Error(reason) => assert_eq!(reason, "Write timeout"),
        _ => panic!("expected an error"),
    }
    assert!(!b.is_connected());
    b.on_connect(true);
    let r = b.write_mode(WriteOutcome::Failed("gone".to_string()));
    match &r {
        BleResult::Error(reason) => assert_eq!(reason, "gone"),
        _ => panic!("expected an error"),
    }
    assert!(!b.is_connected());
    assert!(!b.on_sent(Mode::Busy, 1, &r));
    assert_eq!(b.consecutive_failures(), 1);
}

#[test]
fn a_lost_light_is_tried_and_then_scanned_for() {
    let mut b = BleDaemon::new();
    b.on_address(7);
    let mut now = 100_000;
    let mut pauses = Vec::new();
    for _ in 0..3 {
        assert_eq!(b.next_link_step(now), LinkStep::Direct { address: 7 });
        pauses.push(b.reconnect_cooldown - now);
        b.on_connect(false);
        b.on_direct(false);
        assert_eq!(b.next_link_step(now + 1), LinkStep::Wait);
        now = b.reconnect_cooldown;
    }
    assert_eq!(pauses, vec![2000, 4000, 8000]);
    assert_eq!(b.cached_address(), None);
    assert_eq!(b.next_link_step(now), LinkStep::Scan);
    assert_eq!(b.reconnect_cooldown, now + 20_000);
    b.on_scan(false);
    assert_eq!(b.next_link_step(now + 19_999), LinkStep::Wait);
}

#[test]
fn a_reconnected_light_gets_its_mode_again() {
    let mut b = BleDaemon::new();
    b.on_address(7);
    b.on_connect(true);
    let r = b.write_mode(WriteOutcome::Confirmed);
    b.on_sent(Mode::Busy, 50_000, &r);
    b.disconnect();
    assert_eq!(b.next_link_step(60_000), LinkStep::Direct { address: 7 });
    b.on_connect(true);
    b.on_direct(true);
    assert_eq!(b.next_link_step(60_001), LinkStep::Stay);
    assert_eq!(b.plan_send(Mode::Busy, 60_001), SendPlan::After { wait_ms: 0 });
    b.clear_cached_address();
    b.disconnect();
    b.on_address(8);
    b.on_connect(true);
    b.on_scan(true);
    assert_eq!(b.plan_send(Mode::Busy, 60_002), SendPlan::After { wait_ms: 0 });
}

#[test]
fn waits_are_neither_tight_nor_long() {
    let mut b = BleDaemon::new();
    assert_eq!(b.wait_ms(5_000), 20);
    b.reconnect_cooldown = 5_500;
    assert_eq!(b.wait_ms(5_000), 500);
    assert_eq!(b.wait_ms(5_490), 20);
    assert_eq!(b.wait_ms(1_000), 1000);
    b.on_connect(true);
    assert_eq!(b.wait_ms(5_000), 1000);
}

#[test]
fn the_light_tells_its_mode() {
    let mut b = BleDaemon::new();
    assert_eq!(b.read_mode(Some(b"green")), None);
    b.on_connect(true);
    assert_eq!(b.read_mode(Some(b" Green\n")), Some(Mode::Green));
    assert_eq!(b.read_mode(Some(b"purple")), None);
    assert_eq!(b.read_mode(Some(&[0x67, 0xFF])), None);
    assert_eq!(b.read_mode(None), None);
}
