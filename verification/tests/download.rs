use cursorlight::firmware::boot::switch_slot;
use cursorlight::firmware::flash::{FlashOp, SECTOR_SIZE};
use cursorlight::firmware::ota::{
    hex_to_32, select_target_slot, trim_ascii, CommitReport, CtrlOutcome, CtrlStep, OtaMachine,
    Partitions, Slot, StartRequest,
};
use cursorlight::light_core::otadata::OtaSelectEntry;
use sha2::{Digest, Sha256};

const SLOT0: Slot = Slot { offset: 0x1_0000, len: 0x8000 };
const SLOT1: Slot = Slot { offset: 0x1_8000, len: 0x8000 };

fn table() -> Partitions {
    Partitions { booted_offset: Some(SLOT0.offset), ota0: Some(SLOT0), ota1: Some(SLOT1) }
}

fn image(n: usize) -> Vec<u8> {
    (0..n).map(|i| (i * 7 + i / 256) as u8).collect()
}

fn hex(bytes: &[u8]) -> String {
    bytes.iter().map(|b| format!("{:02x}", b)).collect::<Vec<_>>().join("")
}

fn digest(data: &[u8]) -> [u8; 32] {
    let mut out = [0u8; 32];
    out.copy_from_slice(&Sha256::digest(data));
    out
}

fn start_text(size: usize, digest: &[u8; 32]) -> String {
    format!("start:{}:{}:cursorlight-ota", size, hex(digest))
}

fn perform(flash: &mut [u8], ops: &[FlashOp]) {
    for op in ops {
        match op {
            FlashOp::Erase { from, to } => {
                for b in &mut flash[*from as usize..*to as usize] {
                    *b = 0xFF;
                }
            }
            FlashOp::Write { addr, bytes } => {
                let at = *addr as usize;
                flash[at..at + bytes.len()].copy_from_slice(bytes);
            }
        }
    }
}

fn request(m: &mut OtaMachine, text: &str) -> StartRequest {
    match m.on_ctrl(text.as_bytes()) {
        CtrlStep::ReadTable(r) => r,
        _ => panic!("expected a start request"),
    }
}

fn rejected(m: &mut OtaMachine, command: &[u8], status: &str) {
    match m.on_ctrl(command) {
        CtrlStep::Finished(outcome) => assert_eq!(outcome, CtrlOutcome::Rejected),
        _ => panic!("expected a refusal"),
    }
    assert_eq!(m.status(), status.as_bytes());
}

/// Sends `data` in chunks of the given size, up to the step that the commit calls for.
fn download(m: &mut OtaMachine, flash: &mut [u8], data: &[u8], chunk: usize) -> CtrlStep {
    let r = request(m, &start_text(data.len(), &digest(data)));
    assert_eq!(r.size as usize, data.len());
    assert_eq!(m.start(r, Some(table()), 0), CtrlOutcome::Started);
    assert_eq!(m.status(), b"ready:512");
    for part in data.chunks(chunk) {
        let plan = m.on_data(part, 5);
        perform(flash, &plan.ops);
        assert!(m.is_active());
    }
    m.on_ctrl(b"commit")
}

#[test]
fn a_download_fills_the_other_slot() {
    for chunk in [1usize, 3, 4, 7, 512] {
        let data = image(9_001);
        let mut flash = vec![0x5Au8; 0x2_0000];
        let mut m = OtaMachine::new(0);
        match download(&mut m, &mut flash, &data, chunk) {
            CtrlStep::Flush { ops, switch_to } => {
                perform(&mut flash, &ops);
                assert_eq!(switch_to, Some(1));
            }
            _ => panic!("expected a flush"),
        }
        let at = SLOT1.offset as usize;
        assert_eq!(&flash[at..at + data.len()], &data[..]);
        assert!(flash[..at].iter().all(|b| *b == 0x5A));
        assert!(!m.is_active());
        assert_eq!(m.status(), b"done");
        assert_eq!(m.finish_commit(CommitReport::Switched), CtrlOutcome::Committed);
        assert_eq!(m.status(), b"done");
    }
}

#[test]
fn sectors_are_erased_as_they_are_reached() {
    let data = image(5_000);
    let mut m = OtaMachine::new(0);
    let r = request(&mut m, &start_text(data.len(), &digest(&data)));
    m.start(r, Some(table()), 0);
    let first = m.on_data(&data[..6], 1);
    assert_eq!(first.ops.len(), 2);
    match &first.ops[0] {
        FlashOp::Erase { from, to } => {
            assert_eq!((*from, *to), (SLOT1.offset, SLOT1.offset + SECTOR_SIZE));
        }
        _ => panic!("expected an erasure"),
    }
    match &first.ops[1] {
        FlashOp::Write { addr, bytes } => {
            assert_eq!(*addr, SLOT1.offset);
            assert_eq!(&bytes[..], &data[..4]);
        }
        _ => panic!("expected a write"),
    }
    // Two bytes were left over; they go out with the next two.
    let second = m.on_data(&data[6..8], 2);
    assert_eq!(second.ops.len(), 1);
    match &second.ops[0] {
        FlashOp::Write { addr, bytes } => {
            assert_eq!(*addr, SLOT1.offset + 4);
            assert_eq!(&bytes[..], &data[4..8]);
        }
        _ => panic!("expected a write"),
    }
}

#[test]
fn progress_is_reported_every_32_kib() {
    let big = Slot { offset: 0, len: 0x2_0000 };
    let other = Slot { offset: 0x2_0000, len: 0x2_0000 };
    let t = Partitions { booted_offset: Some(0), ota0: Some(big), ota1: Some(other) };
    let data = image(70_000);
    let mut m = OtaMachine::new(0);
    let r = request(&mut m, &start_text(data.len(), &digest(&data)));
    assert_eq!(m.start(r, Some(t), 0), CtrlOutcome::Started);
    let mut reports = Vec::new();
    for part in data.chunks(512) {
        if m.on_data(part, 0).notify {
            reports.push(String::from_utf8(m.status().to_vec()).unwrap());
        }
    }
    assert_eq!(reports, vec!["progress:32768:70000", "progress:65536:70000"]);
}

#[test]
fn a_wrong_length_is_not_switched_to() {
    let data = image(100);
    let mut m = OtaMachine::new(0);
    let r = request(&mut m, &start_text(101, &digest(&data)));
    m.start(r, Some(table()), 0);
    m.on_data(&data, 0);
    match m.on_ctrl(b"commit") {
        CtrlStep::Flush { switch_to, .. } => assert_eq!(switch_to, None),
        _ => panic!("expected a flush"),
    }
    assert_eq!(m.status(), b"error:size");
    assert_eq!(m.finish_commit(CommitReport::NotSwitched), CtrlOutcome::Aborted);
    assert_eq!(m.status(), b"error:size");
}

#[test]
fn a_wrong_digest_is_not_switched_to() {
    let data = image(100);
    let mut m = OtaMachine::new(0);
    let r = request(&mut m, &start_text(100, &digest(b"something else")));
    m.start(r, Some(table()), 0);
    m.on_data(&data, 0);
    match m.on_ctrl(b"commit") {
        CtrlStep::Flush { switch_to, .. } => assert_eq!(switch_to, None),
        _ => panic!("expected a flush"),
    }
    assert_eq!(m.status(), b"error:hash");
}

#[test]
fn commands_are_refused_with_a_reason() {
    let mut m = OtaMachine::new(0);
    let sum = hex(&digest(b"x"));
    rejected(&mut m, &[0xFF, 0xFE], "error:utf8");
    rejected(&mut m, b"reboot", "error:cmd");
    rejected(&mut m, b"commit", "error:idle");
    rejected(&mut m, b"start:", "error:size");
    rejected(&mut m, b"start:many:00:x", "error:size");
    rejected(&mut m, b"start:4294967296:00:x", "error:size");
    rejected(&mut m, b"start:10", "error:sha");
    rejected(&mut m, b"start:10:00", "error:sha");
    rejected(&mut m, format!("start:10:{}", sum).as_bytes(), "error:auth");
    rejected(&mut m, format!("start:10:{}:guess", sum).as_bytes(), "error:auth");
    assert!(!m.is_active());
}

#[test]
fn a_start_needs_a_table_a_slot_and_room() {
    let mut m = OtaMachine::new(0);
    let text = start_text(10, &digest(b"x"));
    let r = request(&mut m, &text);
    assert_eq!(m.start(r, None, 0), CtrlOutcome::Rejected);
    assert_eq!(m.status(), b"error:table");
    let r = request(&mut m, &text);
    let none = Partitions { booted_offset: None, ..table() };
    assert_eq!(m.start(r, Some(none), 0), CtrlOutcome::Rejected);
    assert_eq!(m.status(), b"error:slot");
    let r = request(&mut m, &start_text(0x8001, &digest(b"x")));
    assert_eq!(m.start(r, Some(table()), 0), CtrlOutcome::Rejected);
    assert_eq!(m.status(), b"error:toolarge");
    let r = request(&mut m, &start_text(0, &digest(b"x")));
    assert_eq!(m.start(r, Some(table()), 0), CtrlOutcome::Rejected);
    assert_eq!(m.status(), b"error:toolarge");
}

#[test]
fn a_refused_command_keeps_a_running_download() {
    let data = image(64);
    let mut m = OtaMachine::new(0);
    let r = request(&mut m, &start_text(64, &digest(&data)));
    m.start(r, Some(table()), 0);
    m.on_data(&data[..10], 0);
    rejected(&mut m, b"nonsense", "error:cmd");
    assert!(m.is_active());
    m.on_data(&data[10..], 0);
    match m.on_ctrl(b"commit") {
        CtrlStep::Flush { switch_to, .. } => assert_eq!(switch_to, Some(1)),
        _ => panic!("expected a flush"),
    }
}

#[test]
fn a_download_can_be_cancelled() {
    let mut m = OtaMachine::new(0);
    let r = request(&mut m, &start_text(64, &digest(b"x")));
    m.start(r, Some(table()), 0);
    match m.on_ctrl(b"  cancel\r\n") {
        CtrlStep::Finished(outcome) => assert_eq!(outcome, CtrlOutcome::Aborted),
        _ => panic!("expected an end"),
    }
    assert_eq!(m.status(), b"cancelled");
    assert!(!m.is_active());
    // Chunks that nobody asked for are ignored.
    let plan = m.on_data(b"late", 1);
    assert!(plan.ops.is_empty());
    assert!(!plan.notify);
}

#[test]
fn silence_ends_a_download_after_ten_seconds() {
    let mut m = OtaMachine::new(0);
    assert!(!m.on_tick(u64::MAX));
    let r = request(&mut m, &start_text(64, &digest(b"x")));
    m.start(r, Some(table()), 1_000);
    assert!(!m.on_tick(10_000_999));
    assert!(m.on_tick(10_001_000));
    assert_eq!(m.status(), b"error:timeout");
    assert!(!m.is_active());
}

#[test]
fn a_failing_flash_ends_a_download() {
    let mut m = OtaMachine::new(0);
    let r = request(&mut m, &start_text(64, &digest(b"x")));
    m.start(r, Some(table()), 0);
    m.on_data(&[1, 2, 3, 4], 0);
    assert!(m.on_flash_error());
    assert_eq!(m.status(), b"error:flash");
    assert!(!m.is_active());
    let mut m = OtaMachine::new(0);
    assert_eq!(m.finish_commit(CommitReport::FlushFailed), CtrlOutcome::Aborted);
    assert_eq!(m.status(), b"error:flash");
    assert_eq!(m.finish_commit(CommitReport::SwitchFailed), CtrlOutcome::Aborted);
    assert_eq!(m.status(), b"error:otadata");
}

#[test]
fn more_than_the_slot_holds_is_refused() {
    let mut m = OtaMachine::new(0);
    let r = request(&mut m, &start_text(64, &digest(b"x")));
    m.start(r, Some(table()), 0);
    let plan = m.on_data(&vec![0u8; 0x8004], 0);
    assert!(plan.notify);
    assert!(plan.ops.is_empty());
    assert_eq!(m.status(), b"error:flash");
    assert!(!m.is_active());
}

#[test]
fn the_running_slot_is_never_the_target() {
    assert_eq!(select_target_slot(&table()), Some((SLOT1, 1)));
    let t = Partitions { booted_offset: Some(SLOT1.offset), ..table() };
    assert_eq!(select_target_slot(&t), Some((SLOT0, 0)));
    let t = Partitions { ota1: None, ..table() };
    assert_eq!(select_target_slot(&t), None);
    let t = Partitions { ota0: None, booted_offset: Some(0), ..table() };
    assert_eq!(select_target_slot(&t), None);
}

#[test]
fn digests_are_read_in_either_case() {
    let d = digest(b"abc");
    assert_eq!(
        hex(&d),
        "ba7816bf8f01cfea414140de5dae2223b00361a396177a9cb410ff61f20015ad"
    );
    assert_eq!(hex_to_32(&hex(&d)), Some(d));
    assert_eq!(hex_to_32(&hex(&d).to_uppercase()), Some(d));
    assert_eq!(hex_to_32(&hex(&d)[..63]), None);
    assert_eq!(hex_to_32(&hex(&d).replace("b", "g")), None);
}

#[test]
fn commands_are_trimmed_of_ascii_blanks_only() {
    assert_eq!(trim_ascii(" \t\r\ncommit\x0c "), "commit");
    assert_eq!(trim_ascii("\u{a0}commit"), "\u{a0}commit");
    assert_eq!(trim_ascii("   "), "");
}

fn record(first: Option<u32>, second: Option<u32>) -> [u8; 64] {
    let mut raw = [0xFFu8; 64];
    if let Some(seq) = first {
        raw[..32].copy_from_slice(&OtaSelectEntry::new(seq).to_bytes());
    }
    if let Some(seq) = second {
        raw[32..].copy_from_slice(&OtaSelectEntry::new(seq).to_bytes());
    }
    raw
}

fn switched(index: usize, raw: &[u8; 64]) -> (Option<u32>, Option<u32>) {
    let ops = switch_slot(index, 0x9000, raw);
    let mut flash = vec![0u8; 0xB000];
    perform(&mut flash, &ops);
    assert_eq!(ops.len(), 2);
    let seq = |at: usize| {
        let mut buf = [0u8; 32];
        buf.copy_from_slice(&flash[at..at + 32]);
        OtaSelectEntry::from_bytes(&buf).map(|e| e.ota_seq)
    };
    assert!(flash[0x9040..0xA000].iter().all(|b| *b == 0xFF));
    (seq(0x9000), seq(0x9020))
}

#[test]
fn a_switch_gives_the_slot_the_highest_number() {
    assert_eq!(switched(0, &record(None, None)), (Some(1), None));
    assert_eq!(switched(1, &record(Some(5), None)), (Some(5), Some(6)));
    assert_eq!(switched(1, &record(Some(5), Some(4))), (Some(5), Some(6)));
    assert_eq!(switched(0, &record(Some(5), Some(9))), (Some(10), Some(9)));
}

#[test]
fn the_count_starts_again_before_the_empty_mark() {
    assert_eq!(switched(0, &record(Some(3), Some(u32::MAX - 2))).0, Some(u32::MAX - 1));
    assert_eq!(switched(0, &record(Some(3), Some(u32::MAX - 1))).0, Some(1));
    assert_eq!(switched(0, &record(Some(3), Some(u32::MAX))).0, Some(1));
}

#[test]
fn a_damaged_entry_does_not_count() {
    let mut raw = record(Some(7), Some(40));
    raw[33] ^= 1;
    assert_eq!(switched(0, &raw), (Some(8), None));
}

#[test]
fn the_flash_does_not_depend_on_the_pieces() {
    let data = image(6_002);
    let mut results = Vec::new();
    for chunk in [1usize, 5, 4096, 6_002] {
        let mut flash = vec![0x5Au8; 0x2_0000];
        let mut m = OtaMachine::new(0);
        let r = request(&mut m, &start_text(data.len(), &digest(&data)));
        m.start(r, Some(table()), 0);
        for part in data.chunks(chunk) {
            perform(&mut flash, &m.on_data(part, 0).ops);
        }
        let at = SLOT1.offset as usize;
        assert_eq!(&flash[at..at + 6_000], &data[..6_000]);
        assert!(flash[at + 6_000..at + 8_192].iter().all(|b| *b == 0xFF));
        assert!(flash[at + 8_192..].iter().all(|b| *b == 0x5A));
        results.push(flash);
    }
    assert!(results.iter().all(|f| *f == results[0]));
}
