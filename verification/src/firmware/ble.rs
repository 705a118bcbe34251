//! The decisions of the Bluetooth peripheral: what it advertises, what a write means, and what
//! follows from a control command, a silent second or a lost connection.
use super::led::LedCmd;
use super::ota::{CtrlOutcome, OtaMachine, OtaView};
use super::status::bounded_copy;
use crate::light_core::modes::{word_names_its_mode, words_are_short, Mode};
use crate::text::utf8_text;
use trouble_host::prelude::AdStructure;
use vstd::prelude::*;
use vstd::string::StringSliceAdditionalSpecFns;
use vstd::utf8::{decode_utf8, encode_utf8, is_ascii_chars, valid_utf8};

verus! {

pub const BLE_DEVICE_NAME: &'static str = "CursorLight";

/// The identifier of the light service in the order of the advertisement: the lowest byte first.
pub const SERVICE_UUID_128: [u8; 16] = [
    0x01,
    0x00,
    0xee,
    0xff,
    0xc0,
    0x11,
    0x8b,
    0x9a,
    0x4f,
    0x4f,
    0x6b,
    0x7a,
    0x01,
    0xe0,
    0xb7,
    0xb8,
];

/// The random address of the device.
pub const DEVICE_ADDRESS: [u8; 6] = [0x5f, 0x41, 0xc3, 0x01, 0x0e, 0x22];

pub const CONNECTIONS_MAX: usize = 1;

pub const L2CAP_CHANNELS_MAX: usize = 2;

/// The longest values of the characteristics, in bytes.
pub const MODE_VALUE_MAX: usize = 16;

pub const OTA_CTRL_MAX: usize = 96;

pub const OTA_CHUNK_MAX: usize = 512;

pub const OTA_STATUS_MAX: usize = 64;

/// How long the last status may travel before the device restarts.
pub const RESTART_DELAY_MS: u64 = 500;

/// How long an advertisement or a scan response can be.
pub const ADVERTISEMENT_MAX: usize = 31;

/// The advertising flags: discoverable at all times, and Low Energy only.
pub const ADVERTISING_FLAGS: u8 = 0b110;

/// A part of an advertisement.
#[derive(Debug)]
pub enum AdPart {
    Flags(u8),
    ServiceUuid128([u8; 16]),
    CompleteLocalName(Vec<u8>),
}

/// A part on the air: its length, its type, its content.
pub open spec fn part_bytes(part: AdPart) -> Seq<u8> {
    match part {
        AdPart::Flags(flags) => seq![2u8, 0x01u8, flags],
        AdPart::ServiceUuid128(uuid) => seq![17u8, 0x07u8] + uuid@,
        AdPart::CompleteLocalName(name) => seq![(name@.len() + 1) as u8, 0x09u8] + name@,
    }
}

/// Parts on the air, one after the other.
pub open spec fn parts_bytes(parts: Seq<AdPart>) -> Seq<u8>
    decreases parts.len(),
{
    if parts.len() == 0 {
        Seq::empty()
    } else {
        parts_bytes(parts.drop_last()) + part_bytes(parts.last())
    }
}

/// `trouble_host::prelude::AdStructure::encode_slice` into a buffer of [`ADVERTISEMENT_MAX`]
/// bytes: each structure is its length, its type and its content, and there is an error where the
/// buffer is too small for all of them.
#[verifier::external_body]
fn encode_parts(parts: &Vec<AdPart>) -> (r: Option<Vec<u8>>)
    ensures
        r is Some <==> parts_bytes(parts@).len() <= ADVERTISEMENT_MAX,
        r matches Some(bytes) ==> bytes@ == parts_bytes(parts@),
{
    let structures: Vec<AdStructure<'_>> = parts.iter().map(|part| match part {
        AdPart::Flags(flags) => AdStructure::Flags(*flags),
        AdPart::ServiceUuid128(uuid) => {
            AdStructure::CompleteServiceUuids128(core::slice::from_ref(uuid))
        },
        AdPart::CompleteLocalName(name) => AdStructure::CompleteLocalName(name),
    }).collect();
    let mut buffer = [0u8; ADVERTISEMENT_MAX];
    let length = AdStructure::encode_slice(&structures, &mut buffer).ok()?;
    Some(buffer[..length].to_vec())
}

/// What the light advertises: the flags and the light service.
pub open spec fn advertised() -> Seq<u8> {
    seq![2u8, 0x01u8, ADVERTISING_FLAGS] + (seq![17u8, 0x07u8] + SERVICE_UUID_128@)
}

pub fn advertising_data() -> (bytes: Vec<u8>)
    ensures
        bytes@ == advertised(),
        bytes@.len() <= ADVERTISEMENT_MAX,
{
    let mut parts: Vec<AdPart> = Vec::new();
    parts.push(AdPart::Flags(ADVERTISING_FLAGS));
    parts.push(AdPart::ServiceUuid128(SERVICE_UUID_128));
    proof {
        reveal_with_fuel(parts_bytes, 3);
        assert(parts@.drop_last() == seq![parts@[0]]);
        assert(parts@.drop_last().drop_last() == Seq::<AdPart>::empty());
        assert(Seq::<u8>::empty() + part_bytes(parts@[0]) == part_bytes(parts@[0]));
    }
    match encode_parts(&parts) {
        Some(bytes) => bytes,
        None => Vec::new(),
    }
}

/// The scan response: the name of the device.
pub fn scan_response() -> (bytes: Vec<u8>)
    ensures
        bytes@ == seq![12u8, 0x09u8] + encode_utf8(BLE_DEVICE_NAME@),
        bytes@.len() <= ADVERTISEMENT_MAX,
{
    let mut parts: Vec<AdPart> = Vec::new();
    let name = vstd::slice::slice_to_vec(BLE_DEVICE_NAME.as_bytes());
    proof {
        reveal_strlit("CursorLight");
        assert(is_ascii_chars(BLE_DEVICE_NAME@));
        vstd::utf8::is_ascii_chars_encode_utf8(BLE_DEVICE_NAME@);
    }
    parts.push(AdPart::CompleteLocalName(name));
    proof {
        reveal_with_fuel(parts_bytes, 2);
        assert(parts@.drop_last() == Seq::<AdPart>::empty());
        assert(Seq::<u8>::empty() + part_bytes(parts@[0]) == part_bytes(parts@[0]));
    }
    match encode_parts(&parts) {
        Some(bytes) => bytes,
        None => Vec::new(),
    }
}

/// What a write is addressed to.
#[derive(Debug, Clone, Copy, PartialEq, Eq, Structural)]
pub enum Target {
    Mode,
    OtaCtrl,
    OtaData,
    Other,
}

/// The attribute handles of the characteristics that can be written.
#[derive(Debug, Clone, Copy, PartialEq, Eq, Structural)]
pub struct Handles {
    pub mode: u16,
    pub ctrl: u16,
    pub data: u16,
}

/// The characteristic that a handle belongs to.
pub open spec fn target_at(handle: u16, handles: Handles) -> Target {
    if handle == handles.mode {
        Target::Mode
    } else if handle == handles.ctrl {
        Target::OtaCtrl
    } else if handle == handles.data {
        Target::OtaData
    } else {
        Target::Other
    }
}

pub fn target_of(handle: u16, handles: Handles) -> (t: Target)
    ensures
        t == target_at(handle, handles),
        t == (if handle == handles.mode {
            Target::Mode
        } else if handle == handles.ctrl {
            Target::OtaCtrl
        } else if handle == handles.data {
            Target::OtaData
        } else {
            Target::Other
        }),
{
    if handle == handles.mode {
        Target::Mode
    } else if handle == handles.ctrl {
        Target::OtaCtrl
    } else if handle == handles.data {
        Target::OtaData
    } else {
        Target::Other
    }
}

/// The mode that a written value names. A value that is too long names none.
pub open spec fn mode_in(data: Seq<u8>) -> Option<Mode> {
    if data.len() <= MODE_VALUE_MAX && valid_utf8(data) {
        Mode::named(decode_utf8(data))
    } else {
        None
    }
}

pub fn written_mode(data: &[u8]) -> (r: Option<Mode>)
    ensures
        r == mode_in(data@),
{
    let raw = bounded_copy::<MODE_VALUE_MAX>(data);
    match utf8_text(raw.as_slice()) {
        Some(s) => {
            let r = Mode::from_str(s);
            proof {
                if data@.len() > MODE_VALUE_MAX {
                    lemma_empty_text(s);
                    if let Some(m) = r {
                        words_are_short(m);
                    }
                }
            }
            r
        },
        None => None,
    }
}

proof fn lemma_empty_text(s: &str)
    requires
        s.spec_bytes() == Seq::<u8>::empty(),
    ensures
        s@ == Seq::<char>::empty(),
{
    vstd::utf8::encode_utf8_decode_utf8(s@);
    vstd::utf8::encode_utf8_decode_utf8(Seq::<char>::empty());
    assert(encode_utf8(Seq::<char>::empty()) == Seq::<u8>::empty());
}

/// Writing the word of a mode asks for that mode.
pub proof fn every_mode_can_be_written(m: Mode)
    ensures
        mode_in(encode_utf8(m.word())) == Some(m),
{
    words_are_short(m);
    vstd::utf8::is_ascii_chars_encode_utf8(m.word());
    vstd::utf8::encode_utf8_valid_utf8(m.word());
    vstd::utf8::encode_utf8_decode_utf8(m.word());
    word_names_its_mode(m, m.word());
}

/// What happens on a connection.
#[derive(Debug, Clone, Copy, PartialEq, Eq, Structural)]
pub enum GattInput {
    /// The client has written a value.
    Write(Target),
    /// The client asks for something else.
    Request,
    /// Something that calls for no reply.
    Notice,
    /// A second without an event.
    Silence,
    Disconnected,
}

/// What the peripheral does about it.
#[derive(Debug, Clone, Copy, PartialEq, Eq, Structural)]
pub enum GattStep {
    /// Accept the request, and reply.
    Reply,
    /// Offer the mode to the animation.
    Offer(Mode),
    /// Tell the client the mode, whether the animation took it or not.
    NotifyMode(Mode),
    /// Let the download take the value as a command.
    Command,
    /// Let the download take the value as a chunk.
    Chunk,
    /// Tell the client the status, if the chunk gave reason to.
    ReportChunk,
    /// React to the outcome of the command.
    ReportCommand,
    /// Look whether a download has stood still, and react to it.
    Tick,
    /// The connection is over.
    Leave,
}

/// What the peripheral does about an event, in this order. A mode is confirmed before it is looked
/// at; a command or a chunk is carried out before it is confirmed.
pub open spec fn gatt_steps(input: GattInput, data: Seq<u8>) -> Seq<GattStep> {
    match input {
        GattInput::Write(Target::Mode) => match mode_in(data) {
            Some(m) => seq![GattStep::Reply, GattStep::Offer(m), GattStep::NotifyMode(m)],
            None => seq![GattStep::Reply],
        },
        GattInput::Write(Target::OtaCtrl) => seq![
            GattStep::Command,
            GattStep::Reply,
            GattStep::ReportCommand,
        ],
        GattInput::Write(Target::OtaData) => seq![
            GattStep::Chunk,
            GattStep::Reply,
            GattStep::ReportChunk,
        ],
        GattInput::Write(Target::Other) | GattInput::Request => seq![GattStep::Reply],
        GattInput::Notice => Seq::empty(),
        GattInput::Silence => seq![GattStep::Tick],
        GattInput::Disconnected => seq![GattStep::Leave],
    }
}

pub fn gatt_events(input: GattInput, data: &[u8]) -> (r: Vec<GattStep>)
    ensures
        r@ == gatt_steps(input, data@),
{
    let mut r: Vec<GattStep> = Vec::new();
    match input {
        GattInput::Write(Target::Mode) => {
            r.push(GattStep::Reply);
            if let Some(m) = written_mode(data) {
                r.push(GattStep::Offer(m));
                r.push(GattStep::NotifyMode(m));
            }
        },
        GattInput::Write(Target::OtaCtrl) => {
            r.push(GattStep::Command);
            r.push(GattStep::Reply);
            r.push(GattStep::ReportCommand);
        },
        GattInput::Write(Target::OtaData) => {
            r.push(GattStep::Chunk);
            r.push(GattStep::Reply);
            r.push(GattStep::ReportChunk);
        },
        GattInput::Write(Target::Other) | GattInput::Request => {
            r.push(GattStep::Reply);
        },
        GattInput::Notice => {},
        GattInput::Silence => {
            r.push(GattStep::Tick);
        },
        GattInput::Disconnected => {
            r.push(GattStep::Leave);
        },
    }
    assert(r@ =~= gatt_steps(input, data@));
    r
}

/// The current mode after a mode has been handed to the animation: it changes only where the
/// animation had room for the command, so that the two never disagree.
pub fn mode_after(current: Mode, wanted: Mode, accepted: bool) -> (m: Mode)
    ensures
        m == (if accepted {
            wanted
        } else {
            current
        }),
{
    if accepted {
        wanted
    } else {
        current
    }
}

/// The text of a status for a notification.
pub fn status_text<'a>(status: &'a [u8]) -> (s: &'a str)
    ensures
        s@ == (if valid_utf8(status@) {
            decode_utf8(status@)
        } else {
            "error:utf8"@
        }),
{
    match utf8_text(status) {
        Some(s) => s,
        None => "error:utf8",
    }
}

/// What the peripheral does of its own accord.
#[derive(Debug, Clone, Copy, PartialEq, Eq, Structural)]
pub enum Reaction {
    /// Hand a command to the animation, if it has room.
    Led(LedCmd),
    /// Send the status of the download to the client.
    NotifyStatus,
    /// Restart the device after a while.
    Restart { after_ms: u64 },
}

/// What follows from a control command, in this order.
pub open spec fn outcome_reactions(outcome: CtrlOutcome) -> Seq<Reaction> {
    match outcome {
        CtrlOutcome::Started => seq![Reaction::Led(LedCmd::OtaSuspend), Reaction::NotifyStatus],
        CtrlOutcome::Committed => seq![
            Reaction::NotifyStatus,
            Reaction::Restart { after_ms: RESTART_DELAY_MS },
        ],
        CtrlOutcome::Aborted | CtrlOutcome::Rejected => seq![
            Reaction::Led(LedCmd::OtaResume),
            Reaction::NotifyStatus,
        ],
    }
}

pub fn handle_ctrl_outcome(outcome: CtrlOutcome) -> (r: Vec<Reaction>)
    ensures
        r@ == outcome_reactions(outcome),
{
    let mut r: Vec<Reaction> = Vec::new();
    match outcome {
        CtrlOutcome::Started => {
            r.push(Reaction::Led(LedCmd::OtaSuspend));
            r.push(Reaction::NotifyStatus);
        },
        CtrlOutcome::Committed => {
            r.push(Reaction::NotifyStatus);
            r.push(Reaction::Restart { after_ms: RESTART_DELAY_MS });
        },
        CtrlOutcome::Aborted | CtrlOutcome::Rejected => {
            r.push(Reaction::Led(LedCmd::OtaResume));
            r.push(Reaction::NotifyStatus);
        },
    }
    assert(r@ =~= outcome_reactions(outcome));
    r
}

/// What follows from a second without an event, in this order.
pub open spec fn tick_reactions(timed_out: bool) -> Seq<Reaction> {
    if timed_out {
        seq![Reaction::NotifyStatus, Reaction::Led(LedCmd::OtaResume)]
    } else {
        Seq::empty()
    }
}

pub fn handle_tick(timed_out: bool) -> (r: Vec<Reaction>)
    ensures
        r@ == tick_reactions(timed_out),
        r@ == (if timed_out {
            seq![Reaction::NotifyStatus, Reaction::Led(LedCmd::OtaResume)]
        } else {
            Seq::empty()
        }),
{
    let mut r: Vec<Reaction> = Vec::new();
    if timed_out {
        r.push(Reaction::NotifyStatus);
        r.push(Reaction::Led(LedCmd::OtaResume));
    }
    assert(r@ =~= if timed_out {
        seq![Reaction::NotifyStatus, Reaction::Led(LedCmd::OtaResume)]
    } else {
        Seq::empty()
    });
    r
}

/// What follows from a lost connection: the download that was running is cancelled.
pub open spec fn after_disconnect(v: OtaView) -> (OtaView, Seq<Reaction>) {
    if v.download is Some {
        (
            OtaView { download: None, status: "cancelled"@ },
            seq![Reaction::Led(LedCmd::OtaResume)],
        )
    } else {
        (v, Seq::empty())
    }
}

pub fn handle_disconnect(ota: &mut OtaMachine) -> (r: Vec<Reaction>)
    requires
        old(ota).wf(),
    ensures
        final(ota).wf(),
        (final(ota)@, r@) == after_disconnect(old(ota)@),
        old(ota)@.download is Some ==> {
            &&& final(ota)@ == (OtaView { download: None, status: "cancelled"@ })
            &&& r@ == seq![Reaction::Led(LedCmd::OtaResume)]
        },
        old(ota)@.download is None ==> final(ota)@ == old(ota)@ && r@ == Seq::<Reaction>::empty(),
{
    let mut r: Vec<Reaction> = Vec::new();
    if ota.is_active() {
        ota.cancel();
        r.push(Reaction::Led(LedCmd::OtaResume));
        assert(r@ =~= seq![Reaction::Led(LedCmd::OtaResume)]);
    }
    r
}

/// The animation stands still exactly while a download runs: whatever ends or refuses a command
/// lets it go on, and only a start stops it.
pub proof fn only_a_start_stops_the_animation(outcome: CtrlOutcome)
    ensures
        outcome_reactions(outcome).contains(Reaction::Led(LedCmd::OtaSuspend)) <==> outcome
            == CtrlOutcome::Started,
        outcome_reactions(outcome).contains(Reaction::Restart { after_ms: RESTART_DELAY_MS })
            <==> outcome == CtrlOutcome::Committed,
        outcome_reactions(outcome).contains(Reaction::NotifyStatus),
{
    let r = outcome_reactions(outcome);
    assert(r.contains(r[0]));
    assert(r.contains(r[1]));
}

/// A value asks for a mode where it is the mode's word, byte for byte, and for none otherwise.
pub proof fn a_value_is_a_word(data: Seq<u8>, m: Mode)
    ensures
        mode_in(data) == Some(m) <==> data == encode_utf8(m.word()),
        mode_in(data) is None <==> forall|x: Mode| data != encode_utf8(#[trigger] x.word()),
{
    assert forall|x: Mode|
        mode_in(data) == Some(x) <==> data == encode_utf8(#[trigger] x.word()) by {
        every_mode_can_be_written(x);
        if mode_in(data) == Some(x) {
            word_names_its_mode(x, decode_utf8(data));
            vstd::utf8::decode_utf8_encode_utf8(data);
        }
    }
    if let Some(x) = mode_in(data) {
        assert(data == encode_utf8(x.word()));
    }
}

/// Every request and every write gets exactly one reply, and nothing else does.
pub proof fn every_request_is_answered(input: GattInput, data: Seq<u8>)
    ensures
        ({
            let all = gatt_steps(input, data);
            &&& input is Write || input is Request <==> all.contains(GattStep::Reply)
            &&& forall|i: int, j: int|
                0 <= i < all.len() && 0 <= j < all.len() && #[trigger] all[i] == GattStep::Reply
                    && #[trigger] all[j] == GattStep::Reply ==> i == j
        }),
{
    let all = gatt_steps(input, data);
    if all.len() > 0 {
        assert(all.contains(all[0]));
    }
    if all.len() > 1 {
        assert(all.contains(all[1]));
    }
}

/// A written mode is replied to, then offered to the animation, then told to the client; a value
/// that names none is replied to only. A command and a chunk are carried out, replied to, and
/// reported. A silent second is a tick, a lost connection is left, a notice calls for nothing.
pub proof fn each_event_has_its_steps(data: Seq<u8>)
    ensures
        ({
            let all = gatt_steps(GattInput::Write(Target::Mode), data);
            &&& mode_in(data) is Some ==> all.len() == 3 && all[0] == GattStep::Reply && all[1]
                == GattStep::Offer(mode_in(data)->0) && all[2] == GattStep::NotifyMode(
                mode_in(data)->0,
            )
            &&& mode_in(data) is None ==> all.len() == 1 && all[0] == GattStep::Reply
        }),
        ({
            let all = gatt_steps(GattInput::Write(Target::OtaCtrl), data);
            all.len() == 3 && all[0] == GattStep::Command && all[1] == GattStep::Reply && all[2]
                == GattStep::ReportCommand
        }),
        ({
            let all = gatt_steps(GattInput::Write(Target::OtaData), data);
            all.len() == 3 && all[0] == GattStep::Chunk && all[1] == GattStep::Reply && all[2]
                == GattStep::ReportChunk
        }),
        ({
            let other = gatt_steps(GattInput::Write(Target::Other), data);
            let request = gatt_steps(GattInput::Request, data);
            other.len() == 1 && other[0] == GattStep::Reply && request == other
        }),
        gatt_steps(GattInput::Notice, data).len() == 0,
        ({
            let all = gatt_steps(GattInput::Silence, data);
            all.len() == 1 && all[0] == GattStep::Tick
        }),
        ({
            let all = gatt_steps(GattInput::Disconnected, data);
            all.len() == 1 && all[0] == GattStep::Leave
        }),
{
}

/// A started download stops the animation and is told of; a committed one is told of and restarts
/// the device half a second later; anything else lets the animation go on and is told of.
pub proof fn each_outcome_has_its_reactions(outcome: CtrlOutcome)
    ensures
        ({
            let all = outcome_reactions(outcome);
            &&& all.len() == 2
            &&& outcome == CtrlOutcome::Started ==> all[0] == Reaction::Led(LedCmd::OtaSuspend)
                && all[1] == Reaction::NotifyStatus
            &&& outcome == CtrlOutcome::Committed ==> all[0] == Reaction::NotifyStatus && all[1]
                == (Reaction::Restart { after_ms: 500 })
            &&& outcome == CtrlOutcome::Aborted || outcome == CtrlOutcome::Rejected ==> all[0]
                == Reaction::Led(LedCmd::OtaResume) && all[1] == Reaction::NotifyStatus
        }),
{
}

/// An advertisement says that the light can be discovered and offers its one service, whose
/// identifier is sent from its lowest byte on.
pub proof fn an_advertisement_is_laid_out()
    ensures
        advertised() == seq![
            2u8, 1, 6, 17, 7, 0x01, 0x00, 0xee, 0xff, 0xc0, 0x11, 0x8b, 0x9a, 0x4f, 0x4f, 0x6b,
            0x7a, 0x01, 0xe0, 0xb7, 0xb8,
        ],
{
    assert(advertised() =~= seq![
        2u8, 1, 6, 17, 7, 0x01, 0x00, 0xee, 0xff, 0xc0, 0x11, 0x8b, 0x9a, 0x4f, 0x4f, 0x6b, 0x7a,
        0x01, 0xe0, 0xb7, 0xb8,
    ]);
}

/// A handle is that of the characteristic that has it, the first of them where several do, and of
/// no characteristic where none does.
pub proof fn a_handle_has_its_characteristic(handle: u16, handles: Handles)
    ensures
        target_at(handle, handles) is Mode <==> handle == handles.mode,
        target_at(handle, handles) is OtaCtrl <==> handle == handles.ctrl && handle
            != handles.mode,
        target_at(handle, handles) is OtaData <==> handle == handles.data && handle != handles.mode
            && handle != handles.ctrl,
{
}

/// A download that stood still is told of, and then the animation goes on; one whose client is gone
/// is cancelled, and the animation goes on. Without either nothing is done.
pub proof fn the_animation_goes_on_after_a_download(v: OtaView)
    ensures
        tick_reactions(false).len() == 0,
        tick_reactions(true).len() == 2,
        tick_reactions(true)[0] == Reaction::NotifyStatus,
        tick_reactions(true)[1] == Reaction::Led(LedCmd::OtaResume),
        after_disconnect(v).0.download is None,
        v.download is None ==> after_disconnect(v).0 == v && after_disconnect(v).1.len() == 0,
        v.download is Some ==> after_disconnect(v).0.status == "cancelled"@ && after_disconnect(
            v,
        ).1.len() == 1 && after_disconnect(v).1[0] == Reaction::Led(LedCmd::OtaResume),
{
}

} // verus!
