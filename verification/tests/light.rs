use cursorlight::daemon::ble::service_uuid;
use cursorlight::daemon::types::Mode as Wanted;
use cursorlight::firmware::ble::{
    advertising_data, gatt_events, handle_ctrl_outcome, handle_disconnect, handle_tick, mode_after,
    scan_response, status_text, target_of, written_mode, GattInput, GattStep, Handles, Reaction,
    Target,
    BLE_DEVICE_NAME, RESTART_DELAY_MS,
};
use cursorlight::firmware::led::{duties, Animator, Duties, Fade, LedCmd};
use cursorlight::firmware::ota::{CtrlOutcome, CtrlStep, OtaMachine, Partitions, Slot};
use cursorlight::light_core::effects::Rgb;
use cursorlight::light_core::modes::Mode;

const MS: u64 = 1_000;

#[test]
fn lamps_are_driven_inverted_and_limited() {
    assert_eq!(duties(Rgb::off()), Duties { red: 255, yellow: 255, green: 255 });
    assert_eq!(duties(Rgb::new(255, 255, 255)), Duties { red: 0, yellow: 35, green: 35 });
    assert_eq!(duties(Rgb::new(100, 220, 1)), Duties { red: 155, yellow: 35, green: 254 });
}

#[test]
fn a_fade_takes_twelve_steps_of_seven_milliseconds() {
    let target = Rgb::new(255, 0, 0);
    let mut f = Fade::new(target, 0);
    assert_eq!(f.tick(6_999), Rgb::off());
    assert_eq!(f.tick(7_000), Rgb::new(21, 0, 0));
    assert_eq!(f.tick(7_001), Rgb::new(21, 0, 0));
    let mut now = 7_000;
    for _ in 0..11 {
        assert!(!f.done());
        now += 7_000;
        f.tick(now);
    }
    assert!(f.done());
    assert_eq!(f.tick(now + 1), target);
    // A late tick is one step all the same.
    let mut g = Fade::new(target, 0);
    assert_eq!(g.tick(1_000_000), Rgb::new(21, 0, 0));
}

#[test]
fn a_device_starts_with_the_demonstration() {
    let mut a = Animator::new(5);
    assert_eq!(a.mode, Mode::Demo);
    assert_eq!(a.frame(5), Some(Rgb::off()));
    assert_eq!(a.frame(5 + 600 * MS), Some(Rgb::new(0, 0, 220)));
}

#[test]
fn plain_colours_are_faded_in() {
    let mut a = Animator::new(0);
    a.on_cmd(LedCmd::Mode(Mode::Yellow), 0);
    let mut last = 0;
    for t in 0..40u64 {
        let light = a.frame(t * 5 * MS).unwrap();
        assert_eq!((light.red, light.green), (0, 0));
        assert!(light.yellow >= last);
        last = light.yellow;
    }
    assert_eq!(last, 220);
    assert!(a.fade.is_none());
}

#[test]
fn ten_quiet_minutes_turn_the_lamps_off() {
    let mut a = Animator::new(0);
    a.on_cmd(LedCmd::Mode(Mode::Busy), 0);
    let end = 10 * 60 * 1000 * MS;
    assert_eq!(a.frame(end - 1), Some(Rgb::new(0, 220, 0)));
    assert_eq!(a.frame(end), Some(Rgb::off()));
    assert_eq!(a.mode, Mode::Off);
    a.on_cmd(LedCmd::Mode(Mode::Success), end + 1);
    assert_eq!(a.frame(end + 2), Some(Rgb::new(0, 0, 220)));
}

#[test]
fn a_download_suspends_the_animation() {
    let mut a = Animator::new(0);
    a.on_cmd(LedCmd::Mode(Mode::Busy), 0);
    a.on_cmd(LedCmd::OtaSuspend, 1);
    assert_eq!(a.frame(2), None);
    a.on_cmd(LedCmd::Mode(Mode::Success), 3);
    assert_eq!(a.frame(4), None);
    a.on_cmd(LedCmd::OtaResume, 5);
    assert_eq!(a.frame(6), Some(Rgb::new(0, 0, 220)));
}

#[test]
fn the_light_advertises_its_service_and_name() {
    let mut expected = vec![2, 1, 6, 17, 7];
    expected.extend_from_slice(&[
        0x01, 0x00, 0xee, 0xff, 0xc0, 0x11, 0x8b, 0x9a, 0x4f, 0x4f, 0x6b, 0x7a, 0x01, 0xe0, 0xb7,
        0xb8,
    ]);
    assert_eq!(advertising_data(), expected);
    assert_eq!(&advertising_data()[5..], &service_uuid().to_le_bytes());
    let mut expected = vec![12, 9];
    expected.extend_from_slice(b"CursorLight");
    assert_eq!(scan_response(), expected);
    assert_eq!(BLE_DEVICE_NAME, cursorlight::daemon::ble::DEVICE_NAME);
}

#[test]
fn writes_are_told_apart_by_their_handle() {
    let handles = Handles { mode: 3, ctrl: 7, data: 9 };
    assert_eq!(target_of(3, handles), Target::Mode);
    assert_eq!(target_of(7, handles), Target::OtaCtrl);
    assert_eq!(target_of(9, handles), Target::OtaData);
    assert_eq!(target_of(8, handles), Target::Other);
}

#[test]
fn a_written_word_is_a_mode() {
    for mode in Mode::ALL {
        assert_eq!(written_mode(mode.as_str().as_bytes()), Some(mode));
    }
    assert_eq!(written_mode(b"Alarm"), None);
    assert_eq!(written_mode(b""), None);
    assert_eq!(written_mode(&[0xFF]), None);
    assert_eq!(written_mode(b"alarm and some more"), None);
    assert_eq!(written_mode(b"0123456789abcdef"), None);
}

#[test]
fn the_light_understands_every_mode_of_the_daemon() {
    let wanted = [
        Wanted::Demo,
        Wanted::Thinking,
        Wanted::Ai,
        Wanted::Busy,
        Wanted::Success,
        Wanted::Error,
        Wanted::Alarm,
        Wanted::Off,
        Wanted::Red,
        Wanted::Yellow,
        Wanted::Green,
    ];
    for (w, m) in wanted.iter().zip(Mode::ALL) {
        assert_eq!(written_mode(w.as_str().as_bytes()), Some(m));
        assert_eq!(Wanted::from_str(m.as_str()), Some(*w));
    }
}

#[test]
fn a_dropped_command_leaves_the_mode() {
    assert_eq!(mode_after(Mode::Demo, Mode::Busy, true), Mode::Busy);
    assert_eq!(mode_after(Mode::Demo, Mode::Busy, false), Mode::Demo);
}

#[test]
fn outcomes_have_their_reactions() {
    assert_eq!(
        handle_ctrl_outcome(CtrlOutcome::Started),
        vec![Reaction::Led(LedCmd::OtaSuspend), Reaction::NotifyStatus]
    );
    assert_eq!(
        handle_ctrl_outcome(CtrlOutcome::Committed),
        vec![Reaction::NotifyStatus, Reaction::Restart { after_ms: RESTART_DELAY_MS }]
    );
    for outcome in [CtrlOutcome::Aborted, CtrlOutcome::Rejected] {
        assert_eq!(
            handle_ctrl_outcome(outcome),
            vec![Reaction::Led(LedCmd::OtaResume), Reaction::NotifyStatus]
        );
    }
    assert_eq!(
        handle_tick(true),
        vec![Reaction::NotifyStatus, Reaction::Led(LedCmd::OtaResume)]
    );
    assert!(handle_tick(false).is_empty());
}

#[test]
fn a_lost_connection_cancels_the_download() {
    let mut m = OtaMachine::new(0);
    assert!(handle_disconnect(&mut m).is_empty());
    assert_eq!(m.status(), b"");
    let text = format!("start:4:{}:cursorlight-ota", "00".repeat(32));
    let r = match m.on_ctrl(text.as_bytes()) {
        CtrlStep::ReadTable(r) => r,
        _ => panic!("expected a start request"),
    };
    let slot = |offset: u32| Some(Slot { offset, len: 4096 });
    let t = Partitions { booted_offset: Some(0), ota0: slot(0), ota1: slot(4096) };
    assert_eq!(m.start(r, Some(t), 0), CtrlOutcome::Started);
    assert_eq!(handle_disconnect(&mut m), vec![Reaction::Led(LedCmd::OtaResume)]);
    assert!(!m.is_active());
    assert_eq!(status_text(m.status()), "cancelled");
    assert_eq!(status_text(&[0xC0]), "error:utf8");
}

#[test]
fn events_have_their_steps() {
    assert_eq!(
        gatt_events(GattInput::Write(Target::Mode), b"busy"),
        vec![
            GattStep::Reply,
            GattStep::Offer(Mode::Busy),
            GattStep::NotifyMode(Mode::Busy)
        ]
    );
    assert_eq!(gatt_events(GattInput::Write(Target::Mode), b"BUSY"), vec![GattStep::Reply]);
    assert_eq!(
        gatt_events(GattInput::Write(Target::OtaCtrl), b"commit"),
        vec![GattStep::Command, GattStep::Reply, GattStep::ReportCommand]
    );
    assert_eq!(
        gatt_events(GattInput::Write(Target::OtaData), b"x"),
        vec![GattStep::Chunk, GattStep::Reply, GattStep::ReportChunk]
    );
    assert_eq!(gatt_events(GattInput::Write(Target::Other), b""), vec![GattStep::Reply]);
    assert_eq!(gatt_events(GattInput::Request, b""), vec![GattStep::Reply]);
    assert!(gatt_events(GattInput::Notice, b"").is_empty());
    assert_eq!(gatt_events(GattInput::Silence, b""), vec![GattStep::Tick]);
    assert_eq!(gatt_events(GattInput::Disconnected, b""), vec![GattStep::Leave]);
}
