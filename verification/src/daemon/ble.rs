//! The daemon's link to the light: when to connect and how, when to write and what follows from it.
//!
//! The radio is worked elsewhere; here are the decisions. Times are milliseconds since the epoch.
use super::types::{word_names_its_mode, BleResult, Mode};
use crate::text::{
    ascii_lower, blank, blanks_around_do_not_count, decode_lossy, lossy_text, same, trim, trimmed,
    Blank,
};
use vstd::arithmetic::power2::pow2;
use vstd::prelude::*;
use vstd::utf8::{decode_utf8, valid_utf8};

verus! {

/// The name that the light advertises.
pub const DEVICE_NAME: &'static str = "CursorLight";

/// The service of the light.
pub const SERVICE_UUID: &'static str = "b8b7e001-7a6b-4f4f-9a8b-11c0ffee0001";

/// The characteristic that modes are written to.
pub const MODE_CHAR_UUID: &'static str = "b8b7e002-7a6b-4f4f-9a8b-11c0ffee0001";

/// How long one connection may take to come up.
pub const BLE_TIMEOUT_SECS: u64 = 12;

/// The first pause before a new connection.
pub const RECONNECT_DELAY_MIN_MS: u64 = 2000;

/// The longest pause before a new connection.
pub const RECONNECT_DELAY_MAX_MS: u64 = 15000;

/// The pause between two scans for a light that is not there.
pub const SCAN_RETRY_INTERVAL_MS: u64 = 20000;

/// How long a scan takes at most.
pub const SCAN_DURATION_SECS: u64 = 8;

/// How long a write may take.
pub const WRITE_TIMEOUT_SECS: u64 = 3;

/// How long the services of a new connection need.
pub const GATT_READY_DELAY_MS: u64 = 200;

/// How often a connection is tried.
pub const CONNECT_MAX_RETRIES: u32 = 2;

/// After how many failures the address is looked for again.
pub const FORCE_RESCAN_FAILURES: u32 = 3;

/// How long the link waits for a new mode before it looks after itself.
pub const IDLE_WAIT_MS: u64 = 1000;

/// The shortest wait of a link that is down.
pub const MIN_WAIT_MS: u64 = 20;

/// The pause before a link that has ended is taken up again.
pub const RESTART_DELAY_SECS: u64 = 5;

/// The pause before the radio is initialised again.
pub const INIT_RETRY_SECS: u64 = 30;

/// The pause between a mode and the one that replaces an alarm.
pub const ALARM_EXIT_DEBOUNCE_MS: u64 = 0;

/// The pause before a mode.
pub open spec fn debounce_of(mode: Mode) -> u64 {
    match mode {
        Mode::Alarm => 0,
        Mode::Red | Mode::Yellow => 60,
        Mode::Green | Mode::Off => 120,
        _ => 90,
    }
}

pub fn debounce_ms(mode: Mode) -> (ms: u64)
    ensures
        ms == debounce_of(mode),
{
    match mode {
        Mode::Alarm => 0,
        Mode::Red | Mode::Yellow => 60,
        Mode::Green | Mode::Off => 120,
        _ => 90,
    }
}

/// The pause after a number of failures: it doubles with each of them, up to a limit.
pub open spec fn backoff(failures: u32) -> int {
    let delay = RECONNECT_DELAY_MIN_MS * pow2(failures as nat);
    if delay < RECONNECT_DELAY_MAX_MS {
        delay
    } else {
        RECONNECT_DELAY_MAX_MS as int
    }
}

pub fn backoff_ms(failures: u32) -> (ms: u64)
    ensures
        ms == backoff(failures),
{
    let shift: u32 = if failures < 20 {
        failures
    } else {
        20
    };
    proof {
        vstd::arithmetic::power2::lemma2_to64();
        if shift < 20 {
            vstd::arithmetic::power2::lemma_pow2_strictly_increases(shift as nat, 20);
        }
        vstd::bits::lemma_u64_shl_is_mul(1, shift as u64);
        if failures > 20 {
            vstd::arithmetic::power2::lemma_pow2_strictly_increases(20, failures as nat);
        }
    }
    let factor: u64 = 1u64 << (shift as u64);
    assert(factor == pow2(shift as nat));
    assert(factor <= 0x10_0000);
    let delay: u64 = RECONNECT_DELAY_MIN_MS * factor;
    if delay < RECONNECT_DELAY_MAX_MS {
        delay
    } else {
        RECONNECT_DELAY_MAX_MS
    }
}

/// The value of a hexadecimal digit.
pub open spec fn hex_digit(c: char) -> Option<nat> {
    if '0' <= c <= '9' {
        Some((c as nat - '0' as nat) as nat)
    } else if 'a' <= c <= 'f' {
        Some((c as nat - 'a' as nat + 10) as nat)
    } else if 'A' <= c <= 'F' {
        Some((c as nat - 'A' as nat + 10) as nat)
    } else {
        None
    }
}

/// Whether `s` is an identifier in groups of 8, 4, 4, 4 and 12 hexadecimal digits.
pub open spec fn is_hyphenated(s: Seq<char>) -> bool {
    s.len() == 36 && forall|i: int|
        0 <= i < 36 ==> if i == 8 || i == 13 || i == 18 || i == 23 {
            #[trigger] s[i] == '-'
        } else {
            hex_digit(s[i]) is Some
        }
}

/// The number that the hexadecimal digits of `s` write down.
pub open spec fn hex_number(s: Seq<char>) -> nat
    decreases s.len(),
{
    if s.len() == 0 {
        0
    } else {
        match hex_digit(s.last()) {
            Some(d) => hex_number(s.drop_last()) * 16 + d,
            None => hex_number(s.drop_last()),
        }
    }
}

/// What `uuid::Uuid::parse_str` reads from a text.
pub uninterp spec fn uuid_in(text: Seq<char>) -> Option<u128>;

/// `uuid::Uuid::parse_str`: groups of hexadecimal digits are read as one number, the first digit
/// the highest. What else is accepted is left unsaid.
#[verifier::external_body]
fn parse_uuid(text: &str) -> (r: Option<u128>)
    ensures
        r == uuid_in(text@),
        is_hyphenated(text@) ==> r == Some(hex_number(text@) as u128),
{
    uuid::Uuid::parse_str(text).ok().map(|id| id.as_u128())
}

/// The service of the light as a number.
pub open spec fn service_number() -> u128 {
    0xb8b7e001_7a6b_4f4f_9a8b_11c0ffee0001
}

pub fn service_uuid() -> (id: u128)
    ensures
        id == service_number(),
{
    proof {
        reveal_strlit("b8b7e001-7a6b-4f4f-9a8b-11c0ffee0001");
        lemma_hex_number(SERVICE_UUID@, '1');
    }
    match parse_uuid(SERVICE_UUID) {
        Some(id) => id,
        None => 0,
    }
}

/// The characteristic that modes are written to, as a number.
pub fn mode_char_uuid() -> (id: u128)
    ensures
        id == 0xb8b7e002_7a6b_4f4f_9a8b_11c0ffee0001,
{
    proof {
        reveal_strlit("b8b7e002-7a6b-4f4f-9a8b-11c0ffee0001");
        lemma_hex_number(MODE_CHAR_UUID@, '2');
    }
    match parse_uuid(MODE_CHAR_UUID) {
        Some(id) => id,
        None => 0,
    }
}

/// The identifiers of the light differ in one digit.
proof fn lemma_hex_number(s: Seq<char>, c: char)
    requires
        '1' <= c <= '2',
        s =~= seq![
            'b', '8', 'b', '7', 'e', '0', '0', c, '-', '7', 'a', '6', 'b', '-', '4', 'f', '4',
            'f', '-', '9', 'a', '8', 'b', '-', '1', '1', 'c', '0', 'f', 'f', 'e', 'e', '0', '0',
            '0', '1',
        ],
    ensures
        is_hyphenated(s),
        hex_number(s) == 0xb8b7e000_7a6b_4f4f_9a8b_11c0ffee0001 + (c as nat - '0' as nat)
            * 0x1_0000_0000_0000_0000_0000_0000,
{
    let d = (c as nat - '0' as nat) as nat;
    assert(hex_number(s.take(0)) == 0);
    lemma_hex_step(s, 0);
    lemma_hex_step(s, 1);
    assert(hex_number(s.take(2)) == 0xb8);
    lemma_hex_step(s, 2);
    lemma_hex_step(s, 3);
    assert(hex_number(s.take(4)) == 0xb8b7);
    lemma_hex_step(s, 4);
    lemma_hex_step(s, 5);
    assert(hex_number(s.take(6)) == 0xb8b7e0);
    lemma_hex_step(s, 6);
    lemma_hex_step(s, 7);
    assert(hex_number(s.take(8)) == 0xb8b7e000 + d * 0x1);
    lemma_hex_step(s, 8);
    lemma_hex_step(s, 9);
    assert(hex_number(s.take(10)) == 0xb8b7e0007 + d * 0x10);
    lemma_hex_step(s, 10);
    lemma_hex_step(s, 11);
    assert(hex_number(s.take(12)) == 0xb8b7e0007a6 + d * 0x1000);
    lemma_hex_step(s, 12);
    assert(hex_number(s.take(13)) == 0xb8b7e0007a6b + d * 0x10000);
    lemma_hex_step(s, 13);
    assert(hex_number(s.take(14)) == 0xb8b7e0007a6b + d * 0x10000);
    lemma_hex_step(s, 14);
    lemma_hex_step(s, 15);
    assert(hex_number(s.take(16)) == 0xb8b7e0007a6b4f + d * 0x1000000);
    lemma_hex_step(s, 16);
    lemma_hex_step(s, 17);
    assert(hex_number(s.take(18)) == 0xb8b7e0007a6b4f4f + d * 0x100000000);
    lemma_hex_step(s, 18);
    lemma_hex_step(s, 19);
    assert(hex_number(s.take(20)) == 0xb8b7e0007a6b4f4f9 + d * 0x1000000000);
    lemma_hex_step(s, 20);
    lemma_hex_step(s, 21);
    assert(hex_number(s.take(22)) == 0xb8b7e0007a6b4f4f9a8 + d * 0x100000000000);
    lemma_hex_step(s, 22);
    assert(hex_number(s.take(23)) == 0xb8b7e0007a6b4f4f9a8b + d * 0x1000000000000);
    lemma_hex_step(s, 23);
    assert(hex_number(s.take(24)) == 0xb8b7e0007a6b4f4f9a8b + d * 0x1000000000000);
    lemma_hex_step(s, 24);
    lemma_hex_step(s, 25);
    assert(hex_number(s.take(26)) == 0xb8b7e0007a6b4f4f9a8b11 + d * 0x100000000000000);
    lemma_hex_step(s, 26);
    assert(hex_number(s.take(27)) == 0xb8b7e0007a6b4f4f9a8b11c + d * 0x1000000000000000);
    lemma_hex_step(s, 27);
    assert(hex_number(s.take(28)) == 0xb8b7e0007a6b4f4f9a8b11c0 + d * 0x10000000000000000);
    lemma_hex_step(s, 28);
    lemma_hex_step(s, 29);
    assert(hex_number(s.take(30)) == 0xb8b7e0007a6b4f4f9a8b11c0ff + d * 0x1000000000000000000);
    lemma_hex_step(s, 30);
    assert(hex_number(s.take(31)) == 0xb8b7e0007a6b4f4f9a8b11c0ffe + d * 0x10000000000000000000);
    lemma_hex_step(s, 31);
    assert(hex_number(s.take(32)) == 0xb8b7e0007a6b4f4f9a8b11c0ffee + d * 0x100000000000000000000);
    lemma_hex_step(s, 32);
    lemma_hex_step(s, 33);
    assert(hex_number(s.take(34))
        == 0xb8b7e0007a6b4f4f9a8b11c0ffee00 + d * 0x10000000000000000000000);
    lemma_hex_step(s, 34);
    lemma_hex_step(s, 35);
    assert(hex_number(s.take(36))
        == 0xb8b7e0007a6b4f4f9a8b11c0ffee0001 + d * 0x1000000000000000000000000);
    assert(s.take(36) == s);
}

proof fn lemma_hex_step(s: Seq<char>, i: int)
    requires
        0 <= i < s.len(),
    ensures
        hex_number(s.take(i + 1)) == match hex_digit(s[i]) {
            Some(d) => hex_number(s.take(i)) * 16 + d,
            None => hex_number(s.take(i)),
        },
{
    assert(s.take(i + 1).drop_last() == s.take(i));
}

/// A device that a scan has seen. What it did not tell is missing.
#[derive(Debug)]
pub struct Seen {
    pub name: Option<String>,
    pub address: Option<u64>,
}

/// Whether a device is a light that can be connected to.
pub open spec fn is_light(seen: Seen) -> bool {
    seen.address is Some && (seen.name matches Some(name) && name@ == DEVICE_NAME@)
}

/// The first light among the devices.
pub fn find_light(devices: &Vec<Seen>) -> (r: Option<u64>)
    ensures
        match r {
            Some(address) => exists|i: int|
                0 <= i < devices@.len() && #[trigger] is_light(devices@[i]) && devices@[i].address
                    == Some(address) && forall|j: int|
                    0 <= j < i ==> !is_light(#[trigger] devices@[j]),
            None => forall|j: int| 0 <= j < devices@.len() ==> !is_light(#[trigger] devices@[j]),
        },
{
    let mut i: usize = 0;
    while i < devices.len()
        invariant
            i <= devices@.len(),
            forall|j: int| 0 <= j < i ==> !is_light(#[trigger] devices@[j]),
        decreases devices@.len() - i,
    {
        if let Some(name) = &devices[i].name {
            if same(name.as_str(), DEVICE_NAME) {
                if let Some(address) = devices[i].address {
                    assert(is_light(devices@[i as int]));
                    return Some(address);
                }
            }
        }
        i += 1;
    }
    None
}

/// The position of the first device with the given address.
pub fn find_address(devices: &Vec<Seen>, address: u64) -> (r: Option<usize>)
    ensures
        match r {
            Some(i) => i < devices@.len() && devices@[i as int].address == Some(address)
                && forall|j: int| 0 <= j < i ==> (#[trigger] devices@[j]).address != Some(address),
            None => forall|j: int|
                0 <= j < devices@.len() ==> (#[trigger] devices@[j]).address != Some(address),
        },
{
    let mut i: usize = 0;
    while i < devices.len()
        invariant
            i <= devices@.len(),
            forall|j: int| 0 <= j < i ==> (#[trigger] devices@[j]).address != Some(address),
        decreases devices@.len() - i,
    {
        if let Some(a) = devices[i].address {
            if a == address {
                return Some(i);
            }
        }
        i += 1;
    }
    None
}

/// Whether an identifier is that of the characteristic that modes are written to.
pub open spec fn is_mode_uuid(id: u128) -> bool {
    id == 0xb8b7e002_7a6b_4f4f_9a8b_11c0ffee0001
}

/// The position of the first characteristic that modes are written to.
pub fn find_mode_characteristic(uuids: &Vec<u128>) -> (r: Option<usize>)
    ensures
        match r {
            Some(i) => i < uuids@.len() && is_mode_uuid(uuids@[i as int]) && forall|j: int|
                0 <= j < i ==> !is_mode_uuid(#[trigger] uuids@[j]),
            None => forall|j: int| 0 <= j < uuids@.len() ==> !is_mode_uuid(#[trigger] uuids@[j]),
        },
{
    let id: u128 = mode_char_uuid();
    let mut i: usize = 0;
    while i < uuids.len()
        invariant
            i <= uuids@.len(),
            is_mode_uuid(id),
            forall|j: int| 0 <= j < i ==> !is_mode_uuid(#[trigger] uuids@[j]),
        decreases uuids@.len() - i,
    {
        if uuids[i] == id {
            return Some(i);
        }
        i += 1;
    }
    None
}

/// How far an attempt to connect has come.
#[derive(Debug, Clone, Copy, PartialEq, Eq, Structural)]
pub enum Attempt {
    /// The devices could not be listed.
    NoListing,
    /// The light is not among them.
    NotFound,
    /// It did not let itself be connected to, or not in time.
    NotConnected,
    /// Its services could not be read.
    NoServices,
    /// There is nothing to write modes to.
    NoModeCharacteristic,
    /// All is there.
    Ready,
}

/// What follows an attempt to connect.
#[derive(Debug, Clone, Copy, PartialEq, Eq, Structural)]
pub enum ConnectStep {
    Connected,
    /// Cut the half-open connection if there is one, wait, and try again.
    Retry { disconnect: bool, wait_ms: u64 },
    /// Cut the half-open connection if there is one, and report failure.
    GiveUp { disconnect: bool },
}

/// What follows the attempt with the given number, counted from zero.
pub open spec fn connect_step(attempt: u32, outcome: Attempt) -> ConnectStep {
    let disconnect = outcome == Attempt::NoServices || outcome == Attempt::NoModeCharacteristic;
    let wait_ms = match outcome {
        Attempt::NotFound | Attempt::NotConnected => 1000,
        Attempt::NoServices | Attempt::NoModeCharacteristic => 500,
        _ => 0u64,
    };
    if outcome == Attempt::Ready {
        ConnectStep::Connected
    } else if attempt + 1 < CONNECT_MAX_RETRIES {
        ConnectStep::Retry { disconnect, wait_ms }
    } else {
        ConnectStep::GiveUp { disconnect }
    }
}

pub fn after_attempt(attempt: u32, outcome: Attempt) -> (step: ConnectStep)
    ensures
        step == connect_step(attempt, outcome),
{
    let (disconnect, wait_ms) = match outcome {
        Attempt::Ready => return ConnectStep::Connected,
        Attempt::NoListing => (false, 0u64),
        Attempt::NotFound | Attempt::NotConnected => (false, 1000u64),
        Attempt::NoServices | Attempt::NoModeCharacteristic => (true, 500u64),
    };
    if attempt < CONNECT_MAX_RETRIES - 1 {
        ConnectStep::Retry { disconnect, wait_ms }
    } else {
        ConnectStep::GiveUp { disconnect }
    }
}

/// What came of writing to the characteristic.
#[derive(Debug)]
pub enum WriteOutcome {
    /// The light has confirmed the value.
    Confirmed,
    /// There is no characteristic to write to.
    NoCharacteristic,
    Failed(String),
    TimedOut,
}

/// What a write is reported as, as contracts speak of it.
pub enum ResultView {
    Sent,
    Disconnected,
    Error(Seq<char>),
}

impl View for BleResult {
    type V = ResultView;

    open spec fn view(&self) -> ResultView {
        match self {
            BleResult::Sent => ResultView::Sent,
            BleResult::Disconnected => ResultView::Disconnected,
            BleResult::Error(reason) => ResultView::Error(reason@),
        }
    }
}

/// Whether and when a mode is written.
#[derive(Debug, Clone, Copy, PartialEq, Eq, Structural)]
pub enum SendPlan {
    /// The light shows it already.
    Skip,
    /// Write it after a pause.
    After { wait_ms: u64 },
}

/// What to do about the connection.
#[derive(Debug, Clone, Copy, PartialEq, Eq, Structural)]
pub enum LinkStep {
    /// It stands.
    Stay,
    /// It is too early to try again.
    Wait,
    /// Connect to the known address.
    Direct { address: u64 },
    /// Scan for the light.
    Scan,
}

/// What the daemon knows of its link to the light.
#[derive(Debug, Clone, Copy, PartialEq, Eq, Structural)]
pub struct BleDaemon {
    /// Whether a device has been connected to, even if the connection is lost.
    pub has_peripheral: bool,
    /// The 48-bit address of the light, once known.
    pub address: Option<u64>,
    pub connected: bool,
    pub consecutive_failures: u32,
    pub last_sent_mode: Option<Mode>,
    pub last_sent_ts: u64,
    /// When a lost connection may be tried again.
    pub reconnect_cooldown: u64,
}

impl BleDaemon {
    pub fn new() -> (b: Self)
        ensures
            b == (BleDaemon {
                has_peripheral: false,
                address: None,
                connected: false,
                consecutive_failures: 0,
                last_sent_mode: None,
                last_sent_ts: 0,
                reconnect_cooldown: 0,
            }),
    {
        BleDaemon {
            has_peripheral: false,
            address: None,
            connected: false,
            consecutive_failures: 0,
            last_sent_mode: None,
            last_sent_ts: 0,
            reconnect_cooldown: 0,
        }
    }

    /// The light is, or should be, at this address.
    pub fn on_address(&mut self, address: u64)
        ensures
            *final(self) == (BleDaemon { address: Some(address), ..*old(self) }),
    {
        self.address = Some(address);
    }

    /// All attempts to connect are over.
    pub fn on_connect(&mut self, success: bool)
        ensures
            *final(self) == (BleDaemon {
                has_peripheral: old(self).has_peripheral || success,
                connected: success,
                ..*old(self)
            }),
    {
        if success {
            self.has_peripheral = true;
        }
        self.connected = success;
    }

    /// The connection has been given up.
    pub fn disconnect(&mut self)
        ensures
            *final(self) == (BleDaemon {
                has_peripheral: false,
                connected: false,
                ..*old(self)
            }),
    {
        self.connected = false;
        self.has_peripheral = false;
    }

    pub fn is_connected(&self) -> (r: bool)
        ensures
            r == self.connected,
    {
        self.connected
    }

    pub fn cached_address(&self) -> (r: Option<u64>)
        ensures
            r == self.address,
    {
        self.address
    }

    pub fn clear_cached_address(&mut self)
        ensures
            *final(self) == (BleDaemon { address: None, ..*old(self) }),
    {
        self.address = None;
    }

    pub fn consecutive_failures(&self) -> (n: u32)
        ensures
            n == self.consecutive_failures,
    {
        self.consecutive_failures
    }

    /// Whether there is anything to write to.
    pub open spec fn writable(&self) -> bool {
        self.has_peripheral && self.connected
    }

    pub fn can_write(&self) -> (r: bool)
        ensures
            r == self.writable(),
    {
        self.has_peripheral && self.connected
    }

    /// Takes in what came of a write, and reports it. A write that fails or takes too long cuts the
    /// connection, so that none is left half open.
    pub fn write_mode(&mut self, outcome: WriteOutcome) -> (r: BleResult)
        ensures
            !old(self).writable() ==> r@ == ResultView::Disconnected && *final(self)
                == *old(self),
            old(self).writable() ==> {
                let cut = BleDaemon { connected: false, ..*old(self) };
                match outcome {
                    WriteOutcome::Confirmed => r@ == ResultView::Sent && *final(self)
                        == *old(self),
                    WriteOutcome::NoCharacteristic => r@ == ResultView::Error(
                        "Mode characteristic not found"@,
                    ) && *final(self) == *old(self),
                    WriteOutcome::Failed(reason) => r@ == ResultView::Error(reason@)
                        && *final(self) == cut,
                    WriteOutcome::TimedOut => r@ == ResultView::Error("Write timeout"@)
                        && *final(self) == cut,
                }
            },
    {
        if !self.can_write() {
            return BleResult::Disconnected;
        }
        match outcome {
            WriteOutcome::Confirmed => BleResult::Sent,
            WriteOutcome::NoCharacteristic => BleResult::Error(
                "Mode characteristic not found".to_owned(),
            ),
            WriteOutcome::Failed(reason) => {
                self.connected = false;
                BleResult::Error(reason)
            },
            WriteOutcome::TimedOut => {
                self.connected = false;
                BleResult::Error("Write timeout".to_owned())
            },
        }
    }

    /// The pause that a mode needs after the one before it.
    pub open spec fn pause_before(&self, mode: Mode) -> u64 {
        if self.last_sent_mode == Some(Mode::Alarm) && mode != Mode::Alarm {
            ALARM_EXIT_DEBOUNCE_MS
        } else {
            debounce_of(mode)
        }
    }

    /// How long it is since the last mode was sent.
    pub open spec fn since_last(&self, now_ms: u64) -> int {
        if now_ms < self.last_sent_ts {
            0
        } else {
            now_ms - self.last_sent_ts
        }
    }

    /// Whether and when `mode` is written.
    pub open spec fn plan_for(&self, mode: Mode, now_ms: u64) -> SendPlan {
        let pause = self.pause_before(mode);
        let elapsed = self.since_last(now_ms);
        if self.last_sent_mode == Some(mode) {
            SendPlan::Skip
        } else if elapsed < pause {
            SendPlan::After { wait_ms: (pause - elapsed) as u64 }
        } else {
            SendPlan::After { wait_ms: 0 }
        }
    }

    pub fn plan_send(&self, mode: Mode, now_ms: u64) -> (plan: SendPlan)
        ensures
            plan == self.plan_for(mode, now_ms),
    {
        if let Some(last) = self.last_sent_mode {
            if last == mode {
                return SendPlan::Skip;
            }
        }
        let leaving_alarm = match self.last_sent_mode {
            Some(last) => last == Mode::Alarm && mode != Mode::Alarm,
            None => false,
        };
        let pause: u64 = if leaving_alarm {
            ALARM_EXIT_DEBOUNCE_MS
        } else {
            debounce_ms(mode)
        };
        let elapsed: u64 = now_ms.saturating_sub(self.last_sent_ts);
        if elapsed < pause {
            SendPlan::After { wait_ms: pause - elapsed }
        } else {
            SendPlan::After { wait_ms: 0 }
        }
    }

    /// Takes in what came of sending `mode`, which was decided on at `now_ms`.
    pub fn on_sent(&mut self, mode: Mode, now_ms: u64, result: &BleResult) -> (ok: bool)
        requires
            result is Sent || old(self).consecutive_failures < u32::MAX,
        ensures
            ok == (result is Sent),
            *final(self) == if result is Sent {
                BleDaemon {
                    last_sent_ts: now_ms,
                    last_sent_mode: Some(mode),
                    consecutive_failures: 0,
                    ..*old(self)
                }
            } else {
                BleDaemon {
                    consecutive_failures: (old(self).consecutive_failures + 1) as u32,
                    ..*old(self)
                }
            },
    {
        match result {
            BleResult::Sent => {
                self.last_sent_ts = now_ms;
                self.last_sent_mode = Some(mode);
                self.consecutive_failures = 0;
                true
            },
            _ => {
                self.consecutive_failures = self.consecutive_failures + 1;
                false
            },
        }
    }

    /// How long to wait for a new mode.
    pub open spec fn patience(&self, now_ms: u64) -> int {
        if self.connected {
            IDLE_WAIT_MS as int
        } else if self.reconnect_cooldown < now_ms + MIN_WAIT_MS {
            MIN_WAIT_MS as int
        } else if self.reconnect_cooldown > now_ms + IDLE_WAIT_MS {
            IDLE_WAIT_MS as int
        } else {
            self.reconnect_cooldown - now_ms
        }
    }

    pub fn wait_ms(&self, now_ms: u64) -> (ms: u64)
        ensures
            ms == self.patience(now_ms),
    {
        if self.connected {
            return IDLE_WAIT_MS;
        }
        let left: u64 = self.reconnect_cooldown.saturating_sub(now_ms);
        if left < MIN_WAIT_MS {
            MIN_WAIT_MS
        } else if left > IDLE_WAIT_MS {
            IDLE_WAIT_MS
        } else {
            left
        }
    }

    /// What to do about the connection.
    pub open spec fn link_step(&self, now_ms: u64) -> LinkStep {
        if self.connected {
            LinkStep::Stay
        } else if now_ms < self.reconnect_cooldown {
            LinkStep::Wait
        } else {
            match self.address {
                Some(address) => LinkStep::Direct { address },
                None => LinkStep::Scan,
            }
        }
    }

    /// Decides what to do about the connection, and when it may be tried again after that.
    pub fn next_link_step(&mut self, now_ms: u64) -> (step: LinkStep)
        requires
            match old(self).link_step(now_ms) {
                LinkStep::Direct { .. } => now_ms + backoff(old(self).consecutive_failures)
                    <= u64::MAX,
                LinkStep::Scan => now_ms + SCAN_RETRY_INTERVAL_MS <= u64::MAX,
                _ => true,
            },
        ensures
            step == old(self).link_step(now_ms),
            *final(self) == match step {
                LinkStep::Stay | LinkStep::Wait => *old(self),
                LinkStep::Direct { .. } => BleDaemon {
                    reconnect_cooldown: (now_ms + backoff(old(self).consecutive_failures)) as u64,
                    ..*old(self)
                },
                LinkStep::Scan => BleDaemon {
                    reconnect_cooldown: (now_ms + SCAN_RETRY_INTERVAL_MS) as u64,
                    ..*old(self)
                },
            },
    {
        if self.connected {
            return LinkStep::Stay;
        }
        if now_ms < self.reconnect_cooldown {
            return LinkStep::Wait;
        }
        match self.address {
            Some(address) => {
                self.reconnect_cooldown = now_ms + backoff_ms(self.consecutive_failures);
                LinkStep::Direct { address }
            },
            None => {
                self.reconnect_cooldown = now_ms + SCAN_RETRY_INTERVAL_MS;
                LinkStep::Scan
            },
        }
    }

    /// The link after a connection to the known address has been tried. A light that is back gets
    /// its mode again, whatever it was sent before; an address that fails too often is given up.
    pub open spec fn after_direct(self, success: bool) -> BleDaemon {
        if success {
            BleDaemon { consecutive_failures: 0, last_sent_mode: None, last_sent_ts: 0, ..self }
        } else if self.consecutive_failures + 1 >= FORCE_RESCAN_FAILURES {
            BleDaemon { address: None, consecutive_failures: 0, ..self }
        } else {
            BleDaemon { consecutive_failures: (self.consecutive_failures + 1) as u32, ..self }
        }
    }

    pub fn on_direct(&mut self, success: bool)
        requires
            success || old(self).consecutive_failures < u32::MAX,
        ensures
            *final(self) == old(self).after_direct(success),
    {
        if success {
            self.consecutive_failures = 0;
            self.last_sent_mode = None;
            self.last_sent_ts = 0;
        } else {
            self.consecutive_failures = self.consecutive_failures + 1;
            if self.consecutive_failures >= FORCE_RESCAN_FAILURES {
                self.clear_cached_address();
                self.consecutive_failures = 0;
            }
        }
    }

    /// The link after a scan. A light that has been found gets its mode, whatever it was sent
    /// before.
    pub open spec fn after_scan(self, success: bool) -> BleDaemon {
        if success {
            BleDaemon { last_sent_mode: None, last_sent_ts: 0, ..self }
        } else {
            self
        }
    }

    pub fn on_scan(&mut self, success: bool)
        ensures
            *final(self) == old(self).after_scan(success),
    {
        if success {
            self.last_sent_mode = None;
            self.last_sent_ts = 0;
        }
    }

    /// The mode that the light says it shows, given the value that was read from it, if any.
    pub fn read_mode(&self, value: Option<&[u8]>) -> (r: Option<Mode>)
        ensures
            r == match value {
                Some(data) if self.writable() => mode_in(lossy_text(data@)),
                _ => None,
            },
            self.writable() ==> (value matches Some(data) ==> valid_utf8(data@) ==> r == mode_in(
                decode_utf8(data@),
            )),
    {
        if !self.can_write() {
            return None;
        }
        match value {
            Some(data) => {
                let text = decode_lossy(data);
                named_mode(text.as_str())
            },
            None => None,
        }
    }
}

/// The mode that a text names, with blanks around it or not.
pub open spec fn mode_in(text: Seq<char>) -> Option<Mode> {
    Mode::named(ascii_lower(trimmed(Blank::Unicode, text)))
}

pub fn named_mode(text: &str) -> (r: Option<Mode>)
    ensures
        r == mode_in(text@),
{
    let text = trim(Blank::Unicode, text);
    Mode::from_str(text.as_str())
}

/// The pause doubles with each failure until it is as long as it gets.
pub proof fn backoff_doubles_up_to_a_limit(failures: u32)
    requires
        failures < u32::MAX,
    ensures
        backoff(0) == RECONNECT_DELAY_MIN_MS,
        RECONNECT_DELAY_MIN_MS <= backoff(failures) <= RECONNECT_DELAY_MAX_MS,
        backoff((failures + 1) as u32) == if 2 * backoff(failures) < RECONNECT_DELAY_MAX_MS {
            2 * backoff(failures)
        } else {
            RECONNECT_DELAY_MAX_MS as int
        },
{
    vstd::arithmetic::power2::lemma2_to64();
    vstd::arithmetic::power2::lemma_pow2_unfold((failures + 1) as nat);
    vstd::arithmetic::power2::lemma_pow2_pos(failures as nat);
}

/// No mode waits longer than 120 milliseconds, and an alarm neither waits nor makes another wait.
pub proof fn modes_are_sent_soon(b: BleDaemon, mode: Mode, now_ms: u64)
    ensures
        b.plan_for(mode, now_ms) matches SendPlan::After { wait_ms } ==> wait_ms <= 120 && ((mode
            == Mode::Alarm || b.last_sent_mode == Some(Mode::Alarm)) ==> wait_ms == 0),
{
}

/// A mode that the light has confirmed is not sent again, and any other is.
pub proof fn only_a_change_is_sent(b: BleDaemon, mode: Mode, now_ms: u64)
    ensures
        b.plan_for(mode, now_ms) == SendPlan::Skip <==> b.last_sent_mode == Some(mode),
{
}

/// A light that has been connected to again is sent the wanted mode, whatever it was sent before,
/// and at once, on any clock that is past its first moment.
pub proof fn a_reconnected_light_is_sent_its_mode(b: BleDaemon, mode: Mode, now_ms: u64)
    ensures
        b.after_direct(true).plan_for(mode, now_ms) != SendPlan::Skip,
        b.after_scan(true).plan_for(mode, now_ms) != SendPlan::Skip,
        now_ms >= 120 ==> b.after_direct(true).plan_for(mode, now_ms) == (SendPlan::After {
            wait_ms: 0,
        }) && b.after_scan(true).plan_for(mode, now_ms) == (SendPlan::After { wait_ms: 0 }),
{
}

/// Three failures in a row at the known address, and the light is scanned for.
pub proof fn a_failing_address_is_given_up(b: BleDaemon, now_ms: u64)
    requires
        b.consecutive_failures == 0,
        !b.connected,
        b.reconnect_cooldown <= now_ms,
    ensures
        b.after_direct(false).after_direct(false).address == b.address,
        b.after_direct(false).after_direct(false).after_direct(false).link_step(now_ms)
            == LinkStep::Scan,
{
}

/// A link that is down is looked after at least once a second, and never in a tight loop.
pub proof fn a_lost_link_is_looked_after(b: BleDaemon, now_ms: u64)
    ensures
        MIN_WAIT_MS <= b.patience(now_ms) <= IDLE_WAIT_MS,
        !b.connected ==> b.link_step(now_ms) != LinkStep::Stay,
{
}

/// Every mode but the one that the light has confirmed is written, and none but that is skipped. An
/// alarm, and what follows an alarm, waits for nothing; before another mode there are 60 to 120
/// milliseconds since the last one, of which only the rest is waited for.
pub proof fn a_change_waits_for_its_pause(b: BleDaemon, mode: Mode, now_ms: u64)
    ensures
        b.last_sent_mode == Some(mode) ==> b.plan_for(mode, now_ms) is Skip,
        b.last_sent_mode != Some(mode) ==> {
            let passed = if now_ms > b.last_sent_ts {
                now_ms - b.last_sent_ts
            } else {
                0
            };
            let plan = b.plan_for(mode, now_ms);
            &&& plan is After
            &&& plan->wait_ms <= 120
            &&& mode == Mode::Alarm || b.last_sent_mode == Some(Mode::Alarm) ==> plan->wait_ms == 0
            &&& mode != Mode::Alarm && b.last_sent_mode != Some(Mode::Alarm) ==> {
                let whole = if mode == Mode::Red || mode == Mode::Yellow {
                    60int
                } else if mode == Mode::Green || mode == Mode::Off {
                    120
                } else {
                    90
                };
                &&& passed >= whole ==> plan->wait_ms == 0
                &&& passed < whole ==> plan->wait_ms + passed == whole
            }
        },
{
}

/// How long each mode waits after another one.
pub proof fn each_mode_has_its_pause(mode: Mode)
    ensures
        debounce_of(mode) == 0 <==> mode == Mode::Alarm,
        debounce_of(mode) == 60 <==> mode == Mode::Red || mode == Mode::Yellow,
        debounce_of(mode) == 120 <==> mode == Mode::Green || mode == Mode::Off,
        debounce_of(mode) == 90 <==> mode == Mode::Thinking || mode == Mode::Ai || mode
            == Mode::Busy || mode == Mode::Success || mode == Mode::Error || mode == Mode::Demo,
{
}

/// After no failure a connection is tried again in two seconds, after one in four, after two in
/// eight, and after any more in fifteen.
pub proof fn failures_slow_the_link_down(failures: u32)
    ensures
        failures == 0 ==> backoff(failures) == 2_000,
        failures == 1 ==> backoff(failures) == 4_000,
        failures == 2 ==> backoff(failures) == 8_000,
        failures >= 3 ==> backoff(failures) == 15_000,
{
    vstd::arithmetic::power2::lemma2_to64();
    if failures > 3 {
        vstd::arithmetic::power2::lemma_pow2_strictly_increases(3, failures as nat);
    }
}

/// A link that stands waits a second for a new mode; one that is down waits until it may be tried
/// again, but for at least 20 milliseconds and for a second at most.
pub proof fn the_wait_is_bounded(b: BleDaemon, now_ms: u64)
    ensures
        b.connected ==> b.patience(now_ms) == 1_000,
        !b.connected ==> {
            let left = b.reconnect_cooldown - now_ms;
            &&& left <= 20 ==> b.patience(now_ms) == 20
            &&& 20 <= left <= 1_000 ==> b.patience(now_ms) == left
            &&& left >= 1_000 ==> b.patience(now_ms) == 1_000
        },
{
}

/// A link that stands is kept. One that is down is tried again once its pause is over: at the
/// known address, or by a scan where none is known.
pub proof fn a_lost_link_is_tried_again(b: BleDaemon, now_ms: u64)
    ensures
        b.link_step(now_ms) is Stay <==> b.connected,
        b.link_step(now_ms) is Wait <==> !b.connected && now_ms < b.reconnect_cooldown,
        b.link_step(now_ms) is Scan <==> !b.connected && now_ms >= b.reconnect_cooldown && b.address
            is None,
        b.link_step(now_ms) is Direct <==> !b.connected && now_ms >= b.reconnect_cooldown
            && b.address is Some,
        b.link_step(now_ms) is Direct ==> b.address == Some(b.link_step(now_ms)->address),
{
}

/// A connection at the known address forgets the failures and what was sent before it. A failure is
/// counted; the third in a row gives the address up and begins to count anew. Nothing else changes.
pub proof fn a_failure_is_counted(b: BleDaemon)
    ensures
        b.after_direct(true) == (BleDaemon {
            has_peripheral: b.has_peripheral,
            address: b.address,
            connected: b.connected,
            consecutive_failures: 0,
            last_sent_mode: None,
            last_sent_ts: 0,
            reconnect_cooldown: b.reconnect_cooldown,
        }),
        b.consecutive_failures < 2 ==> b.after_direct(false) == (BleDaemon {
            consecutive_failures: (b.consecutive_failures + 1) as u32,
            ..b
        }),
        b.consecutive_failures >= 2 ==> b.after_direct(false) == (BleDaemon {
            consecutive_failures: 0,
            address: None,
            ..b
        }),
        b.after_scan(true) == (BleDaemon { last_sent_mode: None, last_sent_ts: 0, ..b }),
        b.after_scan(false) == b,
{
}

/// An attempt to connect that does not end in a connection is followed by one more, and the second
/// by none. What was half open is cut. Before the second attempt there is a second where the light
/// was not found or did not answer, half a second where it had nothing to offer, and no pause where
/// the devices could not be listed.
pub proof fn a_second_attempt_is_made(attempt: u32, outcome: Attempt)
    ensures
        ({
            let step = connect_step(attempt, outcome);
            let half_open = outcome is NoServices || outcome is NoModeCharacteristic;
            &&& step is Connected <==> outcome is Ready
            &&& step is Retry <==> !(outcome is Ready) && attempt == 0
            &&& step is GiveUp <==> !(outcome is Ready) && attempt >= 1
            &&& step is Retry ==> step->Retry_disconnect == half_open
            &&& step is GiveUp ==> step->GiveUp_disconnect == half_open
            &&& step is Retry && (outcome is NotFound || outcome is NotConnected) ==> step->wait_ms
                == 1_000
            &&& step is Retry && half_open ==> step->wait_ms == 500
            &&& step is Retry && outcome is NoListing ==> step->wait_ms == 0
        }),
{
}

/// A light is told by its name and by the identifier that modes are written to.
pub proof fn a_light_is_told_by_its_name(seen: Seen, id: u128)
    ensures
        is_light(seen) <==> seen.address is Some && seen.name is Some && seen.name->0@
            == "CursorLight"@,
        is_mode_uuid(id) <==> id == 0xb8b7e002_7a6b_4f4f_9a8b_11c0ffee0001u128,
        service_number() == 0xb8b7e001_7a6b_4f4f_9a8b_11c0ffee0001u128,
{
}

/// A light shows a mode where it says the mode's word, in any case of letters and with any blanks
/// around it, and no mode where it says anything else.
pub proof fn a_light_says_its_mode(a: Seq<char>, said: Seq<char>, b: Seq<char>, m: Mode)
    requires
        forall|i: int| 0 <= i < a.len() ==> blank(Blank::Unicode, #[trigger] a[i]),
        forall|i: int| 0 <= i < b.len() ==> blank(Blank::Unicode, #[trigger] b[i]),
        said.len() > 0 ==> !blank(Blank::Unicode, said[0]) && !blank(Blank::Unicode, said.last()),
    ensures
        mode_in(a + said + b) == Some(m) <==> ascii_lower(said) == m.word(),
        mode_in(a + said + b) is None <==> forall|x: Mode| ascii_lower(said) != #[trigger] x.word(),
{
    blanks_around_do_not_count(Blank::Unicode, a, said, b);
    word_names_its_mode(m, ascii_lower(said));
}

} // verus!
