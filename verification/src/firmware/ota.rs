//! Firmware downloads: chunks go to the slot that is not running, are checked against a SHA-256
//! digest, and then the boot record is switched.
//!
//! The machine below decides; whoever drives it reads and writes the flash. It hands out plans of
//! flash operations as if each of them will succeed, and is told where one did not.
use super::digest::{absorb, absorbed, finish, new_hasher, sha256};
use super::flash::{
    append_plan, erasures, sector_end, steps, FlashOp, Step, SECTOR_SIZE, WRITE_ALIGN,
};
use super::status::{clear_status, empty_status, push_status, status_chars, status_str, StatusText};
use crate::text::{
    chars_of, decimal, number_of, parse_u32, pieces, push_decimal, same, split, starts_with,
    string_of, texts, trim, trimmed, utf8_text, Blank,
};
use sha2::Sha256;
use vstd::prelude::*;
use vstd::string::{StringExecFns, StringSliceAdditionalSpecFns};
use vstd::utf8::{decode_utf8, encode_utf8, is_ascii_chars, valid_utf8};

verus! {

/// How long a download may stand still.
pub const IDLE_TIMEOUT_MS: u64 = 10_000;

/// How many bytes lie between two reports of progress.
pub const PROGRESS_STEP: u32 = 32 * 1024;

/// What a download must present before it may start.
pub const OTA_PASSWORD: &'static str = "cursorlight-ota";

/// What came of a control command.
#[derive(Debug, Clone, Copy, PartialEq, Eq, Structural)]
pub enum CtrlOutcome {
    Started,
    Committed,
    Aborted,
    Rejected,
}

/// A partition that can hold a firmware.
#[derive(Debug, Clone, Copy, PartialEq, Eq, Structural)]
pub struct Slot {
    pub offset: u32,
    pub len: u32,
}

/// What the partition table says about firmwares: where the running one lies, and the two slots.
#[derive(Debug, Clone, Copy, PartialEq, Eq, Structural)]
pub struct Partitions {
    pub booted_offset: Option<u32>,
    pub ota0: Option<Slot>,
    pub ota1: Option<Slot>,
}

/// A slot whose last byte has a 32-bit address.
pub open spec fn addressable(slot: Option<Slot>) -> bool {
    slot matches Some(s) ==> s.offset + s.len <= u32::MAX
}

impl Partitions {
    pub open spec fn wf(&self) -> bool {
        addressable(self.ota0) && addressable(self.ota1)
    }
}

/// The slot to write to, with its number: the first that is not running. A table without the
/// running firmware, or without a slot that has to be looked at, has none.
pub open spec fn target_slot(table: Partitions) -> Option<(Slot, usize)> {
    match (table.booted_offset, table.ota0, table.ota1) {
        (Some(booted), Some(s0), other) => if s0.offset != booted {
            Some((s0, 0))
        } else {
            match other {
                Some(s1) if s1.offset != booted => Some((s1, 1)),
                _ => None,
            }
        },
        _ => None,
    }
}

pub fn select_target_slot(table: &Partitions) -> (r: Option<(Slot, usize)>)
    ensures
        r == target_slot(*table),
{
    let booted: u32 = match table.booted_offset {
        Some(b) => b,
        None => return None,
    };
    let s0: Slot = match table.ota0 {
        Some(s) => s,
        None => return None,
    };
    if s0.offset != booted {
        return Some((s0, 0));
    }
    let s1: Slot = match table.ota1 {
        Some(s) => s,
        None => return None,
    };
    if s1.offset != booted {
        return Some((s1, 1));
    }
    None
}

/// The running firmware is never the target of a download.
pub proof fn target_is_not_running(table: Partitions)
    ensures
        target_slot(table) matches Some((slot, index)) ==> Some(slot.offset)
            != table.booted_offset && index < 2,
{
}

pub fn trim_ascii(s: &str) -> (r: String)
    ensures
        r@ == trimmed(Blank::Ascii, s@),
{
    trim(Blank::Ascii, s)
}

/// The value of a hexadecimal digit.
pub open spec fn hex_value(b: u8) -> Option<u8> {
    if 48 <= b <= 57 {
        Some((b - 48) as u8)
    } else if 97 <= b <= 102 {
        Some((b - 87) as u8)
    } else if 65 <= b <= 70 {
        Some((b - 55) as u8)
    } else {
        None
    }
}

fn hex_digit(b: u8) -> (r: Option<u8>)
    ensures
        r == hex_value(b),
        r matches Some(v) ==> v < 16,
{
    if 48 <= b && b <= 57 {
        Some(b - 48)
    } else if 97 <= b && b <= 102 {
        Some(b - 87)
    } else if 65 <= b && b <= 70 {
        Some(b - 55)
    } else {
        None
    }
}

/// Whether `bytes` are 64 hexadecimal digits.
pub open spec fn is_hex_32(bytes: Seq<u8>) -> bool {
    bytes.len() == 64 && forall|i: int| 0 <= i < 64 ==> #[trigger] hex_value(bytes[i]) is Some
}

/// The 32 bytes that 64 hexadecimal digits write down.
pub open spec fn unhex_32(bytes: Seq<u8>) -> Seq<u8> {
    Seq::new(
        32,
        |i: int| (16 * hex_value(bytes[2 * i])->0 + hex_value(bytes[2 * i + 1])->0) as u8,
    )
}

pub fn hex_to_32(s: &str) -> (r: Option<[u8; 32]>)
    ensures
        r is Some <==> is_hex_32(s.spec_bytes()),
        r matches Some(out) ==> out@ == unhex_32(s.spec_bytes()),
{
    let bytes = s.as_bytes();
    if bytes.len() != 64 {
        return None;
    }
    let mut out: [u8; 32] = [0u8; 32];
    let mut i: usize = 0;
    while i < 32
        invariant
            i <= 32,
            bytes@ == s.spec_bytes(),
            bytes@.len() == 64,
            out@.len() == 32,
            forall|j: int| 0 <= j < 2 * i ==> #[trigger] hex_value(bytes@[j]) is Some,
            forall|j: int| 0 <= j < i ==> out@[j] == unhex_32(bytes@)[j],
        decreases 32 - i,
    {
        let hi: u8 = match hex_digit(bytes[2 * i]) {
            Some(v) => v,
            None => return None,
        };
        let lo: u8 = match hex_digit(bytes[2 * i + 1]) {
            Some(v) => v,
            None => return None,
        };
        out[i] = 16 * hi + lo;
        i += 1;
    }
    assert(out@ =~= unhex_32(bytes@));
    Some(out)
}

/// What a `start` command asks for.
#[derive(Debug, Clone, Copy)]
pub struct StartRequest {
    pub size: u32,
    pub expected: [u8; 32],
}

/// Whether a password opens the download service. An empty password would leave it open.
pub open spec fn password_opens(given: Seq<char>) -> bool {
    OTA_PASSWORD@.len() == 0 || given == OTA_PASSWORD@
}

/// The size and the digest in `<size>:<digest>:<password>`, or the status that says what is wrong.
pub open spec fn start_args(rest: Seq<char>) -> Result<(u32, Seq<u8>), Seq<char>> {
    let parts = pieces(rest, ':');
    match number_of(parts[0]) {
        None => Err("error:size"@),
        Some(size) => if parts.len() < 2 || !is_hex_32(encode_utf8(parts[1])) {
            Err("error:sha"@)
        } else if !password_opens(
            if parts.len() < 3 {
                Seq::empty()
            } else {
                parts[2]
            },
        ) {
            Err("error:auth"@)
        } else {
            Ok((size, unhex_32(encode_utf8(parts[1]))))
        },
    }
}

fn parse_start(rest: &str) -> (r: Result<StartRequest, &'static str>)
    ensures
        match r {
            Ok(request) => start_args(rest@) == Ok::<(u32, Seq<u8>), Seq<char>>(
                (request.size, request.expected@),
            ),
            Err(status) => start_args(rest@) == Err::<(u32, Seq<u8>), Seq<char>>(status@),
        },
{
    let parts = split(rest, ':');
    let ghost spec_parts = pieces(rest@, ':');
    assert forall|i: int| 0 <= i < parts@.len() implies #[trigger] parts@[i]@ == spec_parts[i] by {
        assert(texts(parts@)[i] == parts@[i]@);
    }
    let size: u32 = match parse_u32(parts[0].as_str()) {
        Some(v) => v,
        None => return Err("error:size"),
    };
    if parts.len() < 2 {
        return Err("error:sha");
    }
    let expected: [u8; 32] = match hex_to_32(parts[1].as_str()) {
        Some(v) => v,
        None => return Err("error:sha"),
    };
    let given = if parts.len() < 3 {
        String::new()
    } else {
        parts[2].clone()
    };
    if !OTA_PASSWORD.is_empty() && !same(given.as_str(), OTA_PASSWORD) {
        return Err("error:auth");
    }
    Ok(StartRequest { size, expected })
}

/// A running download.
#[verifier::ext_equal]
pub struct Download {
    /// Where the slot lies, how large it is, and its number in the boot record.
    pub offset: int,
    pub size: int,
    pub index: int,
    /// The announced length and digest.
    pub total: int,
    pub expected: Seq<u8>,
    /// What has come in so far.
    pub image: Seq<u8>,
    /// How much had come in at the last report.
    pub mark: int,
    /// When something last came in, in microseconds.
    pub seen: int,
}

/// What can be told of the machine from outside.
#[verifier::ext_equal]
pub struct OtaView {
    pub download: Option<Download>,
    pub status: Seq<char>,
}

impl OtaView {
    /// A running download has a slot with 32-bit addresses, and what has been written of it fits.
    pub open spec fn valid(&self) -> bool {
        self.download matches Some(d) ==> {
            &&& 0 <= d.offset && d.offset + d.size <= u32::MAX
            &&& 0 <= d.index < 2
            &&& 0 <= d.total <= u32::MAX
            &&& written(d.image.len() as int) <= d.size
            &&& 0 <= d.mark <= counted(d.image.len() as int)
        }
    }
}

/// A machine never shows a download that is not valid.
pub proof fn machine_shows_a_valid_download(m: OtaMachine)
    requires
        m.wf(),
    ensures
        m@.valid(),
{
}

/// How many of `n` bytes have been written: whole words only.
pub open spec fn written(n: int) -> int {
    n / WRITE_ALIGN as int * WRITE_ALIGN
}

/// The count of received bytes, which stops at the largest 32-bit number.
pub open spec fn counted(n: int) -> int {
    if n > u32::MAX {
        u32::MAX as int
    } else {
        n
    }
}

/// How a chunk reaches the flash: it completes the word that is pending, then come its other whole
/// words; the rest stays pending.
pub open spec fn receive_plan(
    offset: int,
    size: int,
    image: Seq<u8>,
    data: Seq<u8>,
) -> (Seq<Step>, bool) {
    let n = written(image.len() as int);
    let pending = image.skip(n);
    let all = pending + data;
    if pending.len() == 0 {
        append_plan(offset, size, n, data.take(written(data.len() as int)))
    } else if all.len() < WRITE_ALIGN {
        (Seq::empty(), true)
    } else {
        let (word_plan, word_ok) = append_plan(offset, size, n, all.take(WRITE_ALIGN as int));
        let rest = all.skip(WRITE_ALIGN as int);
        let (rest_plan, rest_ok) = append_plan(
            offset,
            size,
            n + WRITE_ALIGN,
            rest.take(written(rest.len() as int)),
        );
        if word_ok {
            (word_plan + rest_plan, rest_ok)
        } else {
            (word_plan, false)
        }
    }
}

/// The report of progress.
pub open spec fn progress_text(received: nat, total: nat) -> Seq<char> {
    "progress:"@ + decimal(received) + ":"@ + decimal(total)
}

/// The machine after a chunk, the plan that writes it, and whether there is something to report.
pub open spec fn after_data(v: OtaView, data: Seq<u8>, now_us: u64) -> (OtaView, Seq<Step>, bool) {
    match v.download {
        Some(d) if data.len() > 0 => {
            let (plan, ok) = receive_plan(d.offset, d.size, d.image, data);
            if ok {
                let image = d.image + data;
                let received = counted(image.len() as int);
                let report = received - d.mark >= PROGRESS_STEP;
                let d2 = Download {
                    image,
                    mark: if report {
                        received
                    } else {
                        d.mark
                    },
                    seen: now_us as int,
                    ..d
                };
                let status = if report {
                    progress_text(received as nat, d.total as nat)
                } else {
                    v.status
                };
                (OtaView { download: Some(d2), status }, plan, report)
            } else {
                (OtaView { download: None, status: "error:flash"@ }, plan, true)
            }
        },
        _ => (v, Seq::empty(), false),
    }
}

/// The machine after a second without news, and whether the download has stood still too long.
pub open spec fn after_tick(v: OtaView, now_us: u64) -> (OtaView, bool) {
    match v.download {
        Some(d) if (now_us - d.seen) / 1000 >= IDLE_TIMEOUT_MS => (
            OtaView { download: None, status: "error:timeout"@ },
            true,
        ),
        _ => (v, false),
    }
}

/// The machine after the answer to a `start` command, once the partition table has been read.
pub open spec fn after_start(
    v: OtaView,
    size: u32,
    expected: Seq<u8>,
    table: Option<Partitions>,
    now_us: u64,
) -> (OtaView, CtrlOutcome) {
    match table {
        None => (OtaView { status: "error:table"@, ..v }, CtrlOutcome::Rejected),
        Some(t) => match target_slot(t) {
            None => (OtaView { status: "error:slot"@, ..v }, CtrlOutcome::Rejected),
            Some((slot, index)) => if size == 0 || size > slot.len {
                (OtaView { status: "error:toolarge"@, ..v }, CtrlOutcome::Rejected)
            } else {
                let d = Download {
                    offset: slot.offset as int,
                    size: slot.len as int,
                    index: index as int,
                    total: size as int,
                    expected,
                    image: Seq::empty(),
                    mark: 0,
                    seen: now_us as int,
                };
                (OtaView { download: Some(d), status: "ready:512"@ }, CtrlOutcome::Started)
            },
        },
    }
}

/// A started word, filled up with erased bytes.
pub open spec fn padded(tail: Seq<u8>) -> Seq<u8> {
    Seq::new(
        WRITE_ALIGN as nat,
        |i: int|
            if i < tail.len() {
                tail[i]
            } else {
                0xFF
            },
    )
}

/// How the last, incomplete word of an image reaches the flash.
pub open spec fn flush_plan(offset: int, size: int, image: Seq<u8>) -> (Seq<Step>, bool) {
    let n = written(image.len() as int);
    if n == image.len() {
        (Seq::empty(), true)
    } else {
        append_plan(offset, size, n, padded(image.skip(n)))
    }
}

/// What a control command calls for.
pub enum Answer {
    /// Nothing more.
    Finished(CtrlOutcome),
    /// The partition table, to start a download.
    ReadTable { size: u32, expected: Seq<u8> },
    /// The last words of the image, and then, where it is whole, a switch to the slot.
    Flush { plan: Seq<Step>, switch_to: Option<int> },
}

/// What is to be said of an image.
#[derive(Debug, Clone, Copy, PartialEq, Eq, Structural)]
pub enum Verdict {
    /// It does not fit the slot.
    NoRoom,
    WrongLength,
    WrongDigest,
    /// It is what was announced.
    Whole,
}

impl Verdict {
    /// The status for a verdict.
    pub open spec fn word(self) -> Seq<char> {
        match self {
            Verdict::NoRoom => "error:flash"@,
            Verdict::WrongLength => "error:size"@,
            Verdict::WrongDigest => "error:hash"@,
            Verdict::Whole => "done"@,
        }
    }

    fn as_str(&self) -> (s: &'static str)
        ensures
            s@ == self.word(),
    {
        match self {
            Verdict::NoRoom => "error:flash",
            Verdict::WrongLength => "error:size",
            Verdict::WrongDigest => "error:hash",
            Verdict::Whole => "done",
        }
    }
}

/// The verdict on an image of which `received` bytes came in and whose digest is `digest`.
pub open spec fn verdict(
    fits: bool,
    received: int,
    total: int,
    digest: Seq<u8>,
    expected: Seq<u8>,
) -> Verdict {
    if !fits {
        Verdict::NoRoom
    } else if received != total {
        Verdict::WrongLength
    } else if digest != expected {
        Verdict::WrongDigest
    } else {
        Verdict::Whole
    }
}

pub fn judge(
    fits: bool,
    received: u32,
    total: u32,
    digest: &[u8; 32],
    expected: &[u8; 32],
) -> (v: Verdict)
    ensures
        v == verdict(fits, received as int, total as int, digest@, expected@),
{
    if !fits {
        Verdict::NoRoom
    } else if received != total {
        Verdict::WrongLength
    } else if !same_bytes(digest, expected) {
        Verdict::WrongDigest
    } else {
        Verdict::Whole
    }
}

/// The machine after `commit`. The image goes to the boot record only where it fits the slot, has
/// the announced length and the announced digest.
pub open spec fn after_commit(v: OtaView) -> (OtaView, Answer) {
    match v.download {
        None => (
            OtaView { status: "error:idle"@, ..v },
            Answer::Finished(CtrlOutcome::Rejected),
        ),
        Some(d) => {
            let (plan, ok) = flush_plan(d.offset, d.size, d.image);
            let v = verdict(
                ok,
                counted(d.image.len() as int),
                d.total,
                sha256(d.image),
                d.expected,
            );
            (
                OtaView { download: None, status: v.word() },
                Answer::Flush {
                    plan,
                    switch_to: if v == Verdict::Whole {
                        Some(d.index)
                    } else {
                        None
                    },
                },
            )
        },
    }
}

/// The machine after a control command, and what the command calls for.
pub open spec fn after_ctrl(v: OtaView, data: Seq<u8>) -> (OtaView, Answer) {
    if !valid_utf8(data) {
        (OtaView { status: "error:utf8"@, ..v }, Answer::Finished(CtrlOutcome::Rejected))
    } else {
        let cmd = trimmed(Blank::Ascii, decode_utf8(data));
        if "start:"@.is_prefix_of(cmd) {
            match start_args(cmd.skip("start:"@.len() as int)) {
                Ok((size, expected)) => (v, Answer::ReadTable { size, expected }),
                Err(status) => (
                    OtaView { status, ..v },
                    Answer::Finished(CtrlOutcome::Rejected),
                ),
            }
        } else if cmd == "commit"@ {
            after_commit(v)
        } else if cmd == "cancel"@ {
            (
                OtaView { download: None, status: "cancelled"@ },
                Answer::Finished(CtrlOutcome::Aborted),
            )
        } else {
            (OtaView { status: "error:cmd"@, ..v }, Answer::Finished(CtrlOutcome::Rejected))
        }
    }
}

/// What is to be done for a control command.
pub enum CtrlStep {
    /// Nothing more.
    Finished(CtrlOutcome),
    /// Read the partition table, then call [`OtaMachine::start`].
    ReadTable(StartRequest),
    /// Perform the operations, switch to the slot if one is named, then call
    /// [`OtaMachine::finish_commit`].
    Flush { ops: Vec<FlashOp>, switch_to: Option<usize> },
}

impl View for CtrlStep {
    type V = Answer;

    open spec fn view(&self) -> Answer {
        match self {
            CtrlStep::Finished(outcome) => Answer::Finished(*outcome),
            CtrlStep::ReadTable(request) => Answer::ReadTable {
                size: request.size,
                expected: request.expected@,
            },
            CtrlStep::Flush { ops, switch_to } => Answer::Flush {
                plan: steps(ops@),
                switch_to: match switch_to {
                    Some(index) => Some(*index as int),
                    None => None,
                },
            },
        }
    }
}

/// How the operations of a commit went.
#[derive(Debug, Clone, Copy, PartialEq, Eq, Structural)]
pub enum CommitReport {
    /// A flash operation failed.
    FlushFailed,
    /// The operations succeeded, and no switch was called for.
    NotSwitched,
    /// The boot record could not be switched.
    SwitchFailed,
    /// The boot record was switched.
    Switched,
}

/// The machine after a commit has been carried out.
pub open spec fn after_report(v: OtaView, report: CommitReport) -> (OtaView, CtrlOutcome) {
    match report {
        CommitReport::FlushFailed => (
            OtaView { download: None, status: "error:flash"@ },
            CtrlOutcome::Aborted,
        ),
        CommitReport::NotSwitched => (OtaView { download: None, ..v }, CtrlOutcome::Aborted),
        CommitReport::SwitchFailed => (
            OtaView { download: None, status: "error:otadata"@ },
            CtrlOutcome::Aborted,
        ),
        CommitReport::Switched => (
            OtaView { download: None, status: "done"@ },
            CtrlOutcome::Committed,
        ),
    }
}

/// What to do for a chunk.
pub struct DataPlan {
    /// The operations to perform, up to the first that fails.
    pub ops: Vec<FlashOp>,
    /// Whether the status is worth a notification.
    pub notify: bool,
}

pub struct OtaMachine {
    active: bool,
    dst_offset: u32,
    dst_size: u32,
    dst_index: usize,
    next_addr: u32,
    erased_upto: u32,
    total: u32,
    received: u32,
    pending: [u8; 4],
    pending_len: usize,
    sha: Sha256,
    expected: [u8; 32],
    status: StatusText,
    last_activity: u64,
    progress_mark: u32,
}

impl View for OtaMachine {
    type V = OtaView;

    closed spec fn view(&self) -> OtaView {
        OtaView {
            download: if self.active {
                Some(
                    Download {
                        offset: self.dst_offset as int,
                        size: self.dst_size as int,
                        index: self.dst_index as int,
                        total: self.total as int,
                        expected: self.expected@,
                        image: absorbed(self.sha),
                        mark: self.progress_mark as int,
                        seen: self.last_activity as int,
                    },
                )
            } else {
                None
            },
            status: status_chars(self.status),
        }
    }
}

impl OtaMachine {
    /// How much of the image is in the flash.
    spec fn done(&self) -> int {
        self.next_addr - self.dst_offset
    }

    /// The slot is addressable, and `done` bytes of it are in use.
    spec fn in_slot(&self) -> bool {
        &&& self.dst_offset + self.dst_size <= u32::MAX
        &&& self.dst_index < 2
        &&& 0 <= self.done() <= self.dst_size
        &&& self.erased_upto == self.dst_offset + sector_end(self.done())
    }

    /// The word that is being filled holds the bytes of `image` that are not yet in the flash.
    spec fn holds(&self, image: Seq<u8>) -> bool {
        &&& self.done() == written(image.len() as int)
        &&& self.pending_len == image.len() - self.done()
        &&& self.pending@.take(self.pending_len as int) == image.skip(self.done())
    }

    pub closed spec fn wf(&self) -> bool {
        self.active ==> {
            &&& self.in_slot()
            &&& self.holds(absorbed(self.sha))
            &&& self.received == counted(absorbed(self.sha).len() as int)
            &&& self.progress_mark <= self.received
        }
    }

    pub fn new(now_us: u64) -> (m: Self)
        ensures
            m.wf(),
            m@ == (OtaView { download: None, status: Seq::empty() }),
    {
        OtaMachine {
            active: false,
            dst_offset: 0,
            dst_size: 0,
            dst_index: 0,
            next_addr: 0,
            erased_upto: 0,
            total: 0,
            received: 0,
            pending: [0u8; 4],
            pending_len: 0,
            sha: new_hasher(),
            expected: [0u8; 32],
            status: empty_status(),
            last_activity: now_us,
            progress_mark: 0,
        }
    }

    pub fn is_active(&self) -> (r: bool)
        ensures
            r == (self@.download is Some),
    {
        self.active
    }

    pub fn status(&self) -> (bytes: &[u8])
        ensures
            bytes@ == encode_utf8(self@.status),
    {
        status_str(&self.status).as_bytes()
    }

    fn set_status(&mut self, s: &str)
        requires
            is_ascii_chars(s@),
            s@.len() <= 64,
        ensures
            final(self).status_is(s@),
            final(self).same_but_status(*old(self)),
    {
        clear_status(&mut self.status);
        push_status(&mut self.status, s);
        proof {
            vstd::utf8::is_ascii_chars_encode_utf8(s@);
            assert(Seq::<char>::empty() + s@ == s@);
        }
    }

    spec fn status_is(&self, s: Seq<char>) -> bool {
        status_chars(self.status) == s
    }

    spec fn same_but_status(&self, other: Self) -> bool {
        *self == (OtaMachine { status: self.status, ..other })
    }

    /// Appends `bytes` to the slot. Nothing of the machine is to be relied on where they do not
    /// fit.
    #[verifier::rlimit(40)]
    fn raw_write(&mut self, bytes: &[u8], ops: &mut Vec<FlashOp>) -> (ok: bool)
        requires
            old(self).in_slot(),
            bytes@.len() <= u32::MAX,
        ensures
            ({
                let (plan, fits) = append_plan(
                    old(self).dst_offset as int,
                    old(self).dst_size as int,
                    old(self).done(),
                    bytes@,
                );
                &&& ok == fits
                &&& steps(final(ops)@) == steps(old(ops)@) + plan
            }),
            ok ==> final(self).in_slot() && final(self).done() == old(self).done() + bytes@.len(),
            *final(self) == (OtaMachine {
                next_addr: final(self).next_addr,
                erased_upto: final(self).erased_upto,
                ..*old(self)
            }),
    {
        if bytes.len() == 0 {
            assert(steps(ops@) + Seq::<Step>::empty() == steps(ops@));
            return true;
        }
        let upto: u64 = self.next_addr as u64 + bytes.len() as u64;
        let end: u64 = self.dst_offset as u64 + self.dst_size as u64;
        if upto > end {
            assert(steps(ops@) + Seq::<Step>::empty() == steps(ops@));
            return false;
        }
        let ghost start = steps(ops@);
        let ghost from = self.erased_upto as int;
        assert(erasures(from, upto as int, end as int).0 == Seq::<Step>::empty() + erasures(
            from,
            upto as int,
            end as int,
        ).0);
        let mut done: Ghost<Seq<Step>> = Ghost(Seq::empty());
        assert(steps(ops@) == start + done@);
        while (self.erased_upto as u64) < upto
            invariant
                end <= u32::MAX,
                upto <= end,
                *self == (OtaMachine { erased_upto: self.erased_upto, ..*old(self) }),
                from == old(self).erased_upto,
                from <= self.erased_upto,
                (self.erased_upto - from) % 4096 == 0,
                self.erased_upto < upto + 4096,
                bytes@.len() > 0,
                upto == old(self).next_addr + bytes@.len(),
                end == old(self).dst_offset + old(self).dst_size,
                from == old(self).dst_offset + sector_end(old(self).done()),
                start == steps(old(ops)@),
                steps(ops@) == start + done@,
                erasures(from, upto as int, end as int).0 == done@ + erasures(
                    self.erased_upto as int,
                    upto as int,
                    end as int,
                ).0,
                erasures(from, upto as int, end as int).1 == erasures(
                    self.erased_upto as int,
                    upto as int,
                    end as int,
                ).1,
            decreases upto + 4096 - self.erased_upto,
        {
            if self.erased_upto as u64 + SECTOR_SIZE as u64 > end {
                assert(done@ + Seq::<Step>::empty() == done@);
                return false;
            }
            let op = FlashOp::Erase { from: self.erased_upto, to: self.erased_upto + SECTOR_SIZE };
            let ghost before = ops@;
            let ghost rest = erasures(
                self.erased_upto as int + SECTOR_SIZE,
                upto as int,
                end as int,
            ).0;
            proof {
                assert(done@ + (seq![op@] + rest) == done@.push(op@) + rest);
                done@ = done@.push(op@);
            }
            ops.push(op);
            assert(steps(ops@) == steps(before).push(op@));
            assert(steps(ops@) == start + done@);
            self.erased_upto = self.erased_upto + SECTOR_SIZE;
        }
        let op = FlashOp::Write { addr: self.next_addr, bytes: vstd::slice::slice_to_vec(bytes) };
        let ghost before = ops@;
        ops.push(op);
        proof {
            assert(steps(ops@) == steps(before).push(op@));
            assert(done@ + Seq::<Step>::empty() == done@);
            assert(start + done@.push(op@) == (start + done@).push(op@));
        }
        self.next_addr = self.next_addr + bytes.len() as u32;
        true
    }

    /// Appends `data` to an image of which `holds` is true. Nothing of the machine is to be relied
    /// on where it does not fit.
    #[verifier::rlimit(40)]
    fn write_bytes(
        &mut self,
        data: &[u8],
        ops: &mut Vec<FlashOp>,
        Ghost(image): Ghost<Seq<u8>>,
    ) -> (ok: bool)
        requires
            old(self).in_slot(),
            old(self).holds(image),
            data@.len() <= u32::MAX,
        ensures
            ({
                let (plan, fits) = receive_plan(
                    old(self).dst_offset as int,
                    old(self).dst_size as int,
                    image,
                    data@,
                );
                &&& ok == fits
                &&& steps(final(ops)@) == steps(old(ops)@) + plan
            }),
            ok ==> final(self).in_slot() && final(self).holds(image + data@),
            *final(self) == (OtaMachine {
                next_addr: final(self).next_addr,
                erased_upto: final(self).erased_upto,
                pending: final(self).pending,
                pending_len: final(self).pending_len,
                ..*old(self)
            }),
    {
        let ghost n = self.done();
        let ghost held = image.skip(n);
        let ghost all = held + data@;
        let ghost start = steps(ops@);
        let mut k: usize = 0;
        assert(held + data@.take(0) == held);
        if self.pending_len > 0 {
            while self.pending_len < 4 && k < data.len()
                invariant
                    k <= data@.len(),
                    self.pending_len <= 4,
                    self.pending@.len() == 4,
                    self.pending_len == held.len() + k,
                    self.pending@.take(self.pending_len as int) == held + data@.take(k as int),
                    *self == (OtaMachine {
                        pending: self.pending,
                        pending_len: self.pending_len,
                        ..*old(self)
                    }),
                decreases data@.len() - k,
            {
                let ghost before = self.pending@;
                self.pending[self.pending_len] = data[k];
                self.pending_len = self.pending_len + 1;
                k += 1;
                assert(self.pending@.take(self.pending_len as int) == before.take(
                    self.pending_len - 1,
                ).push(data@[k - 1]));
                assert(held + data@.take(k as int) == (held + data@.take(k - 1)).push(
                    data@[k - 1],
                ));
            }
            if self.pending_len == 4 {
                let word: [u8; 4] = self.pending;
                assert(word@ == all.take(4)) by {
                    assert(self.pending@.take(4) == self.pending@);
                    assert(held + data@.take(k as int) == all.take(4));
                }
                if !self.raw_write(word.as_slice(), ops) {
                    return false;
                }
                self.pending_len = 0;
            } else {
                assert(data@.take(k as int) == data@);
            }
        }
        let ghost first = if held.len() > 0 && all.len() >= 4 {
            append_plan(self.dst_offset as int, self.dst_size as int, n, all.take(4)).0
        } else {
            Seq::empty()
        };
        assert(start + Seq::<Step>::empty() == start);
        assert(steps(ops@) == start + first);
        let ghost base = self.done();
        let ghost taken = k as int;
        let ghost rest = data@.skip(k as int);
        let aligned: usize = (data.len() - k) / 4 * 4;
        assert(rest.take(aligned as int) == data@.subrange(k as int, k + aligned));
        let ghost second = append_plan(
            self.dst_offset as int,
            self.dst_size as int,
            base,
            rest.take(aligned as int),
        );
        proof {
            lemma_receive_plan(
                self.dst_offset as int,
                self.dst_size as int,
                image,
                data@,
                k as int,
                aligned as int,
            );
        }
        assert((start + first) + second.0 == start + (first + second.0));
        if aligned > 0 {
            if !self.raw_write(vstd::slice::slice_subrange(data, k, k + aligned), ops) {
                return false;
            }
            k = k + aligned;
        } else {
            assert(start + first + Seq::<Step>::empty() == start + first);
        }
        let ghost from = k as int;
        let ghost kept = self.pending@.take(self.pending_len as int);
        proof {
            if self.pending_len == 0 {
                assert(kept == Seq::<u8>::empty());
            }
            lemma_leftover(image, data@, taken, from, kept);
        }
        assert(kept + data@.subrange(from, from) == kept);
        while k < data.len()
            invariant
                0 <= from <= k <= data@.len(),
                kept.len() + data@.len() < from + 4,
                self.pending@.len() == 4,
                self.pending_len == kept.len() + k - from,
                self.pending@.take(self.pending_len as int) == kept + data@.subrange(
                    from,
                    k as int,
                ),
                *self == (OtaMachine {
                    next_addr: self.next_addr,
                    erased_upto: self.erased_upto,
                    pending: self.pending,
                    pending_len: self.pending_len,
                    ..*old(self)
                }),
                self.in_slot(),
                self.done() == base + aligned,
            decreases data@.len() - k,
        {
            if self.pending_len < 4 {
                let ghost before = self.pending@;
                self.pending[self.pending_len] = data[k];
                self.pending_len = self.pending_len + 1;
                assert(self.pending@.take(self.pending_len as int) == before.take(
                    self.pending_len - 1,
                ).push(data@[k as int]));
                assert(kept + data@.subrange(from, k + 1) == (kept + data@.subrange(
                    from,
                    k as int,
                )).push(data@[k as int]));
            }
            k += 1;
        }
        assert(data@.subrange(from, data@.len() as int) == data@.skip(from));
        true
    }

    /// A chunk has come in. Chunks that nobody asked for are ignored.
    pub fn on_data(&mut self, data: &[u8], now_us: u64) -> (plan: DataPlan)
        requires
            old(self).wf(),
            data@.len() <= u32::MAX,
        ensures
            final(self).wf(),
            (final(self)@, steps(plan.ops@), plan.notify) == after_data(old(self)@, data@, now_us),
    {
        let mut ops: Vec<FlashOp> = Vec::new();
        assert(steps(ops@) == Seq::<Step>::empty());
        if !self.active || data.len() == 0 {
            return DataPlan { ops, notify: false };
        }
        let ghost image = absorbed(self.sha);
        self.last_activity = now_us;
        self.received = self.received.saturating_add(data.len() as u32);
        absorb(&mut self.sha, data);
        let ok = self.write_bytes(data, &mut ops, Ghost(image));
        proof {
            lemma_status_words();
            let plan = receive_plan(self.dst_offset as int, self.dst_size as int, image, data@).0;
            assert(Seq::<Step>::empty() + plan == plan);
        }
        if !ok {
            self.active = false;
            self.set_status("error:flash");
            return DataPlan { ops, notify: true };
        }
        if self.received.saturating_sub(self.progress_mark) >= PROGRESS_STEP {
            self.progress_mark = self.received;
            let mut text = String::new();
            text.append("progress:");
            push_decimal(&mut text, self.received);
            text.append(":");
            push_decimal(&mut text, self.total);
            proof {
                assert(text@ == progress_text(self.received as nat, self.total as nat));
                lemma_progress_text(self.received as nat, self.total as nat);
            }
            self.set_status(text.as_str());
            return DataPlan { ops, notify: true };
        }
        DataPlan { ops, notify: false }
    }

    /// An operation of a chunk's plan failed.
    pub fn on_flash_error(&mut self) -> (notify: bool)
        ensures
            final(self).wf(),
            final(self)@ == (OtaView { download: None, status: "error:flash"@ }),
            notify,
    {
        self.active = false;
        proof {
            lemma_status_words();
        }
        self.set_status("error:flash");
        true
    }

    /// Looks whether a download has stood still too long.
    pub fn on_tick(&mut self, now_us: u64) -> (timed_out: bool)
        requires
            old(self).wf(),
            old(self)@.download matches Some(d) ==> d.seen <= now_us,
        ensures
            final(self).wf(),
            (final(self)@, timed_out) == after_tick(old(self)@, now_us),
    {
        if self.active && (now_us - self.last_activity) / 1000 >= IDLE_TIMEOUT_MS {
            self.active = false;
            self.pending_len = 0;
            proof {
                lemma_status_words();
            }
            self.set_status("error:timeout");
            true
        } else {
            false
        }
    }

    /// Answers a `start` command. `None` stands for a partition table that could not be read.
    pub fn start(
        &mut self,
        request: StartRequest,
        table: Option<Partitions>,
        now_us: u64,
    ) -> (outcome: CtrlOutcome)
        requires
            old(self).wf(),
            table matches Some(t) ==> t.wf(),
        ensures
            final(self).wf(),
            (final(self)@, outcome) == after_start(
                old(self)@,
                request.size,
                request.expected@,
                table,
                now_us,
            ),
    {
        proof {
            lemma_status_words();
        }
        let t: Partitions = match table {
            Some(t) => t,
            None => {
                self.set_status("error:table");
                return CtrlOutcome::Rejected;
            },
        };
        let (target, index) = match select_target_slot(&t) {
            Some(v) => v,
            None => {
                self.set_status("error:slot");
                return CtrlOutcome::Rejected;
            },
        };
        if request.size == 0 || request.size > target.len {
            self.set_status("error:toolarge");
            return CtrlOutcome::Rejected;
        }
        self.active = true;
        self.dst_offset = target.offset;
        self.dst_size = target.len;
        self.dst_index = index;
        self.next_addr = target.offset;
        self.erased_upto = target.offset;
        self.total = request.size;
        self.received = 0;
        self.pending_len = 0;
        self.progress_mark = 0;
        self.sha = new_hasher();
        self.expected = request.expected;
        self.last_activity = now_us;
        self.set_status("ready:512");
        proof {
            assert(self.pending@.take(0) == Seq::<u8>::empty().skip(0));
        }
        CtrlOutcome::Started
    }

    fn commit(&mut self) -> (step: CtrlStep)
        requires
            old(self).wf(),
        ensures
            final(self).wf(),
            (final(self)@, step@) == after_commit(old(self)@),
    {
        proof {
            lemma_status_words();
        }
        if !self.active {
            self.set_status("error:idle");
            return CtrlStep::Finished(CtrlOutcome::Rejected);
        }
        let mut ops: Vec<FlashOp> = Vec::new();
        let ghost image = absorbed(self.sha);
        let ghost n = self.done();
        let ghost plan = flush_plan(self.dst_offset as int, self.dst_size as int, image).0;
        assert(steps(ops@) == Seq::<Step>::empty());
        assert(Seq::<Step>::empty() + plan == plan);
        self.active = false;
        let mut fits = true;
        if self.pending_len > 0 {
            let mut i: usize = self.pending_len;
            while i < 4
                invariant
                    self.pending_len <= i <= 4,
                    self.pending@.len() == 4,
                    self.pending@.take(self.pending_len as int) == image.skip(n),
                    self.pending_len == image.skip(n).len(),
                    forall|j: int| self.pending_len <= j < i ==> self.pending@[j] == 0xFF,
                    *self == (OtaMachine { active: false, pending: self.pending, ..*old(self) }),
                decreases 4 - i,
            {
                let ghost before = self.pending@;
                self.pending[i] = 0xFF;
                assert(self.pending@.take(self.pending_len as int) == before.take(
                    self.pending_len as int,
                ));
                i += 1;
            }
            let tail: [u8; 4] = self.pending;
            assert(tail@ == padded(image.skip(n))) by {
                assert forall|j: int| 0 <= j < 4 implies tail@[j] == padded(image.skip(n))[j] by {
                    if j < self.pending_len {
                        assert(self.pending@.take(self.pending_len as int)[j] == tail@[j]);
                    }
                }
            }
            fits = self.raw_write(tail.as_slice(), &mut ops);
            self.pending_len = 0;
        }
        let got: [u8; 32] = finish(&self.sha);
        let v = judge(fits, self.received, self.total, &got, &self.expected);
        self.set_status(v.as_str());
        let switch_to = if v == Verdict::Whole {
            Some(self.dst_index)
        } else {
            None
        };
        CtrlStep::Flush { ops, switch_to }
    }

    /// Tells how the operations of a commit went.
    pub fn finish_commit(&mut self, report: CommitReport) -> (outcome: CtrlOutcome)
        ensures
            final(self).wf(),
            (final(self)@, outcome) == after_report(old(self)@, report),
    {
        proof {
            lemma_status_words();
        }
        self.active = false;
        match report {
            CommitReport::FlushFailed => {
                self.set_status("error:flash");
                CtrlOutcome::Aborted
            },
            CommitReport::NotSwitched => CtrlOutcome::Aborted,
            CommitReport::SwitchFailed => {
                self.set_status("error:otadata");
                CtrlOutcome::Aborted
            },
            CommitReport::Switched => {
                self.set_status("done");
                CtrlOutcome::Committed
            },
        }
    }

    /// Gives a download up.
    pub fn cancel(&mut self)
        ensures
            final(self).wf(),
            final(self)@ == (OtaView { download: None, status: "cancelled"@ }),
    {
        proof {
            lemma_status_words();
        }
        self.active = false;
        self.pending_len = 0;
        self.set_status("cancelled");
    }

    /// A control command has come in: `start:<size>:<digest>:<password>`, `commit` or `cancel`.
    pub fn on_ctrl(&mut self, data: &[u8]) -> (step: CtrlStep)
        requires
            old(self).wf(),
        ensures
            final(self).wf(),
            (final(self)@, step@) == after_ctrl(old(self)@, data@),
    {
        proof {
            lemma_status_words();
        }
        let cmd: String = match utf8_text(data) {
            Some(s) => trim_ascii(s),
            None => {
                self.set_status("error:utf8");
                return CtrlStep::Finished(CtrlOutcome::Rejected);
            },
        };
        if starts_with(cmd.as_str(), "start:") {
            let chars = chars_of(cmd.as_str());
            proof {
                reveal_strlit("start:");
            }
            let rest = string_of(&chars, 6, chars.len());
            assert(rest@ == cmd@.skip(6));
            return match parse_start(rest.as_str()) {
                Ok(request) => CtrlStep::ReadTable(request),
                Err(status) => {
                    self.set_status(status);
                    CtrlStep::Finished(CtrlOutcome::Rejected)
                },
            };
        }
        if same(cmd.as_str(), "commit") {
            self.commit()
        } else if same(cmd.as_str(), "cancel") {
            self.cancel();
            CtrlStep::Finished(CtrlOutcome::Aborted)
        } else {
            self.set_status("error:cmd");
            CtrlStep::Finished(CtrlOutcome::Rejected)
        }
    }
}

fn same_bytes(a: &[u8; 32], b: &[u8; 32]) -> (r: bool)
    ensures
        r == (a@ == b@),
{
    let mut i: usize = 0;
    while i < 32
        invariant
            i <= 32,
            a@.len() == 32,
            b@.len() == 32,
            forall|j: int| 0 <= j < i ==> a@[j] == b@[j],
        decreases 32 - i,
    {
        if a[i] != b[i] {
            return false;
        }
        i += 1;
    }
    assert(a@ =~= b@);
    true
}

/// A status that fits the room for it, one byte per character.
pub open spec fn status_word(s: Seq<char>) -> bool {
    is_ascii_chars(s) && s.len() <= 64
}

proof fn lemma_status_words()
    ensures
        status_word("error:utf8"@),
        status_word("cancelled"@),
        status_word("error:cmd"@),
        status_word("error:flash"@),
        status_word("error:timeout"@),
        status_word("error:size"@),
        status_word("error:sha"@),
        status_word("error:auth"@),
        status_word("error:table"@),
        status_word("error:slot"@),
        status_word("error:toolarge"@),
        status_word("ready:512"@),
        status_word("error:idle"@),
        status_word("error:hash"@),
        status_word("done"@),
        status_word("error:otadata"@),
{
    reveal_strlit("error:utf8");
    reveal_strlit("cancelled");
    reveal_strlit("error:cmd");
    reveal_strlit("error:flash");
    reveal_strlit("error:timeout");
    reveal_strlit("error:size");
    reveal_strlit("error:sha");
    reveal_strlit("error:auth");
    reveal_strlit("error:table");
    reveal_strlit("error:slot");
    reveal_strlit("error:toolarge");
    reveal_strlit("ready:512");
    reveal_strlit("error:idle");
    reveal_strlit("error:hash");
    reveal_strlit("done");
    reveal_strlit("error:otadata");
}

/// No status is ever cut short.
pub proof fn statuses_are_never_cut(
    v: OtaView,
    data: Seq<u8>,
    size: u32,
    expected: Seq<u8>,
    table: Option<Partitions>,
    report: CommitReport,
    now_us: u64,
)
    requires
        v.valid(),
        status_word(v.status),
    ensures
        status_word(after_data(v, data, now_us).0.status),
        status_word(after_tick(v, now_us).0.status),
        status_word(after_ctrl(v, data).0.status),
        status_word(after_start(v, size, expected, table, now_us).0.status),
        status_word(after_report(v, report).0.status),
{
    lemma_status_words();
    if let Some(d) = v.download {
        let received = counted((d.image + data).len() as int);
        lemma_progress_text(received as nat, d.total as nat);
    }
}

spec fn power_of_ten(k: nat) -> nat
    decreases k,
{
    if k == 0 {
        1
    } else {
        10 * power_of_ten((k - 1) as nat)
    }
}

proof fn lemma_decimal_is_short(n: nat, k: nat)
    requires
        0 < k,
        n < power_of_ten(k),
    ensures
        decimal(n).len() <= k,
        is_ascii_chars(decimal(n)),
    decreases k,
{
    if n >= 10 {
        assert(k > 1) by {
            reveal_with_fuel(power_of_ten, 2);
        }
        lemma_decimal_is_short(n / 10, (k - 1) as nat);
    }
}

proof fn lemma_progress_text(received: nat, total: nat)
    requires
        received <= u32::MAX,
        total <= u32::MAX,
    ensures
        status_word(progress_text(received, total)),
{
    reveal_strlit("progress:");
    reveal_strlit(":");
    assert(power_of_ten(10) == 10_000_000_000) by {
        reveal_with_fuel(power_of_ten, 11);
    }
    lemma_decimal_is_short(received, 10);
    lemma_decimal_is_short(total, 10);
}

/// How many bytes of a chunk complete the word that is pending, or stay in it.
spec fn taken_first(image: Seq<u8>, data: Seq<u8>) -> int {
    let room = WRITE_ALIGN - image.len() % WRITE_ALIGN as nat;
    if room == WRITE_ALIGN {
        0
    } else if data.len() < room {
        data.len() as int
    } else {
        room
    }
}

#[verifier::rlimit(40)]
proof fn lemma_receive_plan(
    offset: int,
    size: int,
    image: Seq<u8>,
    data: Seq<u8>,
    k: int,
    aligned: int,
)
    requires
        k == taken_first(image, data),
        aligned == written(data.len() - k),
    ensures
        ({
            let n = written(image.len() as int);
            let all = image.skip(n) + data;
            let whole = image.len() > n && all.len() >= 4;
            let first = if whole {
                append_plan(offset, size, n, all.take(4))
            } else {
                (Seq::empty(), true)
            };
            let second = append_plan(
                offset,
                size,
                if whole {
                    n + 4
                } else {
                    n
                },
                data.skip(k).take(aligned),
            );
            &&& first.1 ==> receive_plan(offset, size, image, data) == (
                first.0 + second.0,
                second.1,
            )
            &&& !first.1 ==> receive_plan(offset, size, image, data) == first
        }),
{
    let n = written(image.len() as int);
    let held = image.skip(n);
    let all = held + data;
    if held.len() == 0 {
        assert(data.skip(k) == data);
        let second = append_plan(offset, size, n, data.take(written(data.len() as int)));
        assert(Seq::<Step>::empty() + second.0 == second.0);
    } else if all.len() < 4 {
        assert(data.skip(k).take(aligned) == Seq::<u8>::empty());
        assert(Seq::<Step>::empty() + Seq::<Step>::empty() == Seq::<Step>::empty());
    } else {
        assert(all.skip(4) == data.skip(k));
    }
}

#[verifier::rlimit(40)]
proof fn lemma_leftover(image: Seq<u8>, data: Seq<u8>, k: int, from: int, kept: Seq<u8>)
    requires
        k == taken_first(image, data),
        from == k + written(data.len() - k),
        ({
            let held = image.skip(written(image.len() as int));
            kept == if held.len() > 0 && held.len() + data.len() < 4 {
                held + data
            } else {
                Seq::empty()
            }
        }),
    ensures
        ({
            let n = written(image.len() as int);
            let held = image.skip(n);
            let base = if held.len() > 0 && held.len() + data.len() >= 4 {
                n + 4
            } else {
                n
            };
            let done = base + from - k;
            &&& done == written((image + data).len() as int)
            &&& kept + data.skip(from) == (image + data).skip(done)
            &&& kept.len() + data.len() - from == image.len() + data.len() - done
            &&& kept.len() + data.len() - from < 4
        }),
{
    let n = written(image.len() as int);
    let held = image.skip(n);
    let base = if held.len() > 0 && held.len() + data.len() >= 4 {
        n + 4
    } else {
        n
    };
    let done = base + from - k;
    whole_words_add_up(image.len() as int, data.len() as int);
    if held.len() > 0 && held.len() + data.len() < 4 {
        assert(k == data.len() && from == k);
        assert(data.skip(from) == Seq::<u8>::empty());
        assert(held + data =~= (image + data).skip(n));
        assert(kept + Seq::<u8>::empty() =~= kept);
    } else {
        assert(done == image.len() + from);
        assert(data.skip(from) =~= (image + data).skip(done));
        assert(Seq::<u8>::empty() + data.skip(from) =~= data.skip(from));
    }
}

/// How the whole words of an image and of a chunk add up.
pub proof fn whole_words_add_up(image: int, data: int)
    requires
        0 <= image,
        0 <= data,
    ensures
        image - written(image) < 4,
        image % 4 == image - written(image),
        image == written(image) ==> written(image + data) == image + written(data),
        image != written(image) && image - written(image) + data < 4 ==> written(image + data)
            == written(image),
        ({
            let room = 4 - image % 4;
            room < 4 && data >= room ==> written(image + data) == image + room + written(
                data - room,
            )
        }),
{
}

} // verus!
