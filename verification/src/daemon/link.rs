//! The link to the light as two machines: one brings a connection up, the other keeps it up and
//! keeps the light at the wanted mode. Each takes an event and says what to do next.
use super::ble::{
    after_attempt, backoff, connect_step, failures_slow_the_link_down, find_address,
    find_mode_characteristic, is_mode_uuid, Attempt, BleDaemon, ConnectStep, LinkStep, Seen,
    SendPlan, WriteOutcome, SCAN_DURATION_SECS, SCAN_RETRY_INTERVAL_MS,
};
use super::types::Mode;
use vstd::prelude::*;

verus! {

/// The pause between two looks at what a scan has seen.
pub const SCAN_POLL_MS: u64 = 500;

/// Whether a scan that has taken so long, without a light, goes on.
pub fn scans_on(elapsed_ms: u64) -> (r: bool)
    ensures
        r == (elapsed_ms < 1000 * SCAN_DURATION_SECS),
        r <==> elapsed_ms < 8_000,
{
    elapsed_ms < 1000 * SCAN_DURATION_SECS
}

/// What to do next on the way to a connection.
#[derive(Debug, Clone, Copy, PartialEq, Eq, Structural)]
pub enum ConnectAction {
    /// Scan for two seconds and list the devices.
    List,
    /// Connect to the device at this position of the list.
    Connect { index: usize },
    /// Let the services settle, and read them.
    Discover,
    /// Cut the connection if there is one, wait, and list the devices again.
    Again { disconnect: bool, wait_ms: u64 },
    /// The connection stands.
    Connected,
    /// Cut the connection if there is one; there will be none.
    Failed { disconnect: bool },
}

/// A connection to a known address in the making.
#[derive(Debug, Clone, Copy, PartialEq, Eq, Structural)]
pub struct Connector {
    pub address: u64,
    /// The number of the attempt, counted from zero.
    pub attempt: u32,
}

/// What follows an attempt that has come to its end.
pub open spec fn ended(c: Connector, outcome: Attempt) -> (Connector, ConnectAction) {
    match connect_step(c.attempt, outcome) {
        ConnectStep::Connected => (c, ConnectAction::Connected),
        ConnectStep::Retry { disconnect, wait_ms } => (
            Connector { attempt: (c.attempt + 1) as u32, ..c },
            ConnectAction::Again { disconnect, wait_ms },
        ),
        ConnectStep::GiveUp { disconnect } => (c, ConnectAction::Failed { disconnect }),
    }
}

/// Whether the device at `i` is the first with the given address.
pub open spec fn first_at(devices: Seq<Seen>, address: u64, i: int) -> bool {
    &&& 0 <= i < devices.len()
    &&& devices[i].address == Some(address)
    &&& forall|j: int| 0 <= j < i ==> (#[trigger] devices[j]).address != Some(address)
}

/// What follows once the device has been connected to, or has not.
pub open spec fn after_connecting(c: Connector, success: bool) -> (Connector, ConnectAction) {
    if success {
        (c, ConnectAction::Discover)
    } else {
        ended(c, Attempt::NotConnected)
    }
}

/// Whether one of the characteristics takes modes.
pub open spec fn takes_modes(uuids: Seq<u128>) -> bool {
    exists|i: int| 0 <= i < uuids.len() && is_mode_uuid(#[trigger] uuids[i])
}

/// What follows once the characteristics of the device have been read, or could not be.
pub open spec fn after_reading(
    c: Connector,
    uuids: Option<Seq<u128>>,
) -> (Connector, ConnectAction) {
    match uuids {
        None => ended(c, Attempt::NoServices),
        Some(list) => if takes_modes(list) {
            ended(c, Attempt::Ready)
        } else {
            ended(c, Attempt::NoModeCharacteristic)
        },
    }
}

impl Connector {
    pub fn new(address: u64) -> (c: Self)
        ensures
            c == (Connector { address, attempt: 0 }),
    {
        Connector { address, attempt: 0 }
    }

    fn end(&mut self, outcome: Attempt) -> (action: ConnectAction)
        ensures
            (*final(self), action) == ended(*old(self), outcome),
    {
        match after_attempt(self.attempt, outcome) {
            ConnectStep::Connected => ConnectAction::Connected,
            ConnectStep::Retry { disconnect, wait_ms } => {
                self.attempt = self.attempt + 1;
                ConnectAction::Again { disconnect, wait_ms }
            },
            ConnectStep::GiveUp { disconnect } => ConnectAction::Failed { disconnect },
        }
    }

    /// The devices have been listed, or could not be.
    pub fn on_devices(&mut self, devices: Option<&Vec<Seen>>) -> (action: ConnectAction)
        ensures
            match devices {
                None => (*final(self), action) == ended(*old(self), Attempt::NoListing),
                Some(list) => {
                    ||| exists|i: int|
                        #[trigger] first_at(list@, old(self).address, i) && action
                            == (ConnectAction::Connect { index: i as usize }) && *final(self)
                            == *old(self)
                    ||| (forall|i: int| !#[trigger] first_at(list@, old(self).address, i)) && (
                    *final(self),
                    action,
                    ) == ended(*old(self), Attempt::NotFound)
                },
            },
    {
        match devices {
            None => self.end(Attempt::NoListing),
            Some(list) => match find_address(list, self.address) {
                Some(index) => {
                    assert(first_at(list@, self.address, index as int));
                    ConnectAction::Connect { index }
                },
                None => {
                    assert forall|i: int| !#[trigger] first_at(list@, self.address, i) by {
                        if 0 <= i < list@.len() {
                            assert(list@[i].address != Some(self.address));
                        }
                    }
                    self.end(Attempt::NotFound)
                },
            },
        }
    }

    /// The device has been connected to, or not, or not in time.
    pub fn on_connected(&mut self, success: bool) -> (action: ConnectAction)
        ensures
            (*final(self), action) == after_connecting(*old(self), success),
            (*final(self), action) == if success {
                (*old(self), ConnectAction::Discover)
            } else {
                ended(*old(self), Attempt::NotConnected)
            },
    {
        if success {
            ConnectAction::Discover
        } else {
            self.end(Attempt::NotConnected)
        }
    }

    /// The characteristics of the device have been read, or could not be.
    pub fn on_characteristics(&mut self, uuids: Option<&Vec<u128>>) -> (action: ConnectAction)
        ensures
            (*final(self), action) == after_reading(
                *old(self),
                match uuids {
                    None => None,
                    Some(list) => Some(list@),
                },
            ),
            (*final(self), action) == ended(
                *old(self),
                match uuids {
                    None => Attempt::NoServices,
                    Some(list) => if exists|i: int|
                        0 <= i < list@.len() && is_mode_uuid(#[trigger] list@[i]) {
                        Attempt::Ready
                    } else {
                        Attempt::NoModeCharacteristic
                    },
                },
            ),
    {
        match uuids {
            None => self.end(Attempt::NoServices),
            Some(list) => match find_mode_characteristic(list) {
                Some(i) => {
                    assert(is_mode_uuid(list@[i as int]));
                    assert(takes_modes(list@));
                    self.end(Attempt::Ready)
                },
                None => self.end(Attempt::NoModeCharacteristic),
            },
        }
    }
}

/// What the link is waiting for.
#[derive(Debug, Clone, Copy, PartialEq, Eq, Structural)]
pub enum Phase {
    /// The first connection.
    Starting,
    /// A new mode, or the end of the wait.
    Waiting,
    /// A connection to the known address.
    Directing,
    /// A connection to a light that has been scanned for.
    Scanning,
    /// The mode that the light shows.
    Checking,
    /// A write that was decided on at the given time.
    Writing { decided_ms: u64 },
}

/// What became of a connection.
#[derive(Debug, Clone, Copy, PartialEq, Eq, Structural)]
pub enum Linked {
    Connected,
    /// All attempts failed.
    Failed,
    /// It did not come to an attempt: there is no adapter, or no light was found.
    NotTried,
}

/// What to do next for the link.
#[derive(Debug, Clone, Copy, PartialEq, Eq, Structural)]
pub enum TaskAction {
    /// Wait for a new mode, at most this long, then tell the wanted mode.
    Await { ms: u64 },
    /// Connect to this address.
    Direct { address: u64 },
    /// Scan for the light and connect to it.
    Scan,
    /// Read the mode that the light shows.
    ReadBack,
    /// Write the wanted mode after a pause.
    Write { mode: Mode, after_ms: u64 },
}

/// The link, and the mode that is wanted.
#[derive(Debug, Clone, Copy, PartialEq, Eq, Structural)]
pub struct LinkTask {
    pub ble: BleDaemon,
    pub phase: Phase,
    pub desired: Mode,
}

impl LinkTask {
    /// The link waits.
    pub open spec fn resting(self, now_ms: u64) -> (LinkTask, TaskAction) {
        (
            LinkTask { phase: Phase::Waiting, ..self },
            TaskAction::Await { ms: self.ble.patience(now_ms) as u64 },
        )
    }

    /// The link turns to the wanted mode.
    pub open spec fn sending(self, now_ms: u64) -> (LinkTask, TaskAction) {
        match self.ble.plan_for(self.desired, now_ms) {
            SendPlan::Skip => self.resting(now_ms),
            SendPlan::After { wait_ms } => (
                LinkTask { phase: Phase::Writing { decided_ms: now_ms }, ..self },
                TaskAction::Write { mode: self.desired, after_ms: wait_ms },
            ),
        }
    }

    /// The link once it is known what became of a connection.
    pub open spec fn linked(self, outcome: Linked) -> BleDaemon {
        match outcome {
            Linked::Connected => BleDaemon { has_peripheral: true, connected: true, ..self.ble },
            Linked::Failed => BleDaemon { connected: false, ..self.ble },
            Linked::NotTried => self.ble,
        }
    }

    /// The link once a new mode is wanted, or the wait is over: a connection that stands is used,
    /// one that is down is looked after first.
    pub open spec fn woken(self, desired: Mode, now_ms: u64) -> (LinkTask, TaskAction) {
        let t = LinkTask { desired, ..self };
        match self.ble.link_step(now_ms) {
            LinkStep::Stay => t.sending(now_ms),
            LinkStep::Wait => t.resting(now_ms),
            LinkStep::Direct { address } => (
                LinkTask {
                    phase: Phase::Directing,
                    ble: BleDaemon {
                        reconnect_cooldown: (now_ms + backoff(
                            self.ble.consecutive_failures,
                        )) as u64,
                        ..self.ble
                    },
                    ..t
                },
                TaskAction::Direct { address },
            ),
            LinkStep::Scan => (
                LinkTask {
                    phase: Phase::Scanning,
                    ble: BleDaemon {
                        reconnect_cooldown: (now_ms + SCAN_RETRY_INTERVAL_MS) as u64,
                        ..self.ble
                    },
                    ..t
                },
                TaskAction::Scan,
            ),
        }
    }

    /// The link after a connection was tried: one that stands is checked.
    pub open spec fn relinked(self, outcome: Linked, now_ms: u64) -> (LinkTask, TaskAction) {
        let again = self.phase == Phase::Directing || self.phase == Phase::Scanning;
        let t = LinkTask {
            ble: match self.phase {
                Phase::Directing => self.linked(outcome).after_direct(outcome == Linked::Connected),
                Phase::Scanning => self.linked(outcome).after_scan(outcome == Linked::Connected),
                _ => self.linked(outcome),
            },
            ..self
        };
        if again && t.ble.connected {
            (LinkTask { phase: Phase::Checking, ..t }, TaskAction::ReadBack)
        } else {
            t.resting(now_ms)
        }
    }

    /// The link after a write: a confirmed mode is remembered, anything else is a failure.
    pub open spec fn written(self, outcome: WriteOutcome, now_ms: u64) -> (LinkTask, TaskAction) {
        let ble = if self.ble.writable() && outcome is Confirmed {
            BleDaemon {
                last_sent_ts: match self.phase {
                    Phase::Writing { decided_ms } => decided_ms,
                    _ => now_ms,
                },
                last_sent_mode: Some(self.desired),
                consecutive_failures: 0,
                ..self.ble
            }
        } else {
            BleDaemon {
                connected: self.ble.connected && !(self.ble.writable() && (outcome is Failed
                    || outcome is TimedOut)),
                consecutive_failures: (self.ble.consecutive_failures + 1) as u32,
                ..self.ble
            }
        };
        (LinkTask { ble, ..self }).resting(now_ms)
    }

    fn rest(&mut self, now_ms: u64) -> (action: TaskAction)
        ensures
            (*final(self), action) == old(self).resting(now_ms),
    {
        self.phase = Phase::Waiting;
        let ms: u64 = self.ble.wait_ms(now_ms);
        TaskAction::Await { ms }
    }

    fn send(&mut self, now_ms: u64) -> (action: TaskAction)
        ensures
            (*final(self), action) == old(self).sending(now_ms),
    {
        match self.ble.plan_send(self.desired, now_ms) {
            SendPlan::Skip => self.rest(now_ms),
            SendPlan::After { wait_ms } => {
                self.phase = Phase::Writing { decided_ms: now_ms };
                TaskAction::Write { mode: self.desired, after_ms: wait_ms }
            },
        }
    }

    /// A link that begins with a scan.
    pub fn new(desired: Mode) -> (t: Self)
        ensures
            t == (LinkTask {
                ble: BleDaemon {
                    has_peripheral: false,
                    address: None,
                    connected: false,
                    consecutive_failures: 0,
                    last_sent_mode: None,
                    last_sent_ts: 0,
                    reconnect_cooldown: 0,
                },
                phase: Phase::Starting,
                desired,
            }),
    {
        LinkTask { ble: BleDaemon::new(), phase: Phase::Starting, desired }
    }

    /// A light has been found at this address, or should be there.
    pub fn on_address(&mut self, address: u64)
        ensures
            *final(self) == (LinkTask {
                ble: BleDaemon { address: Some(address), ..old(self).ble },
                ..*old(self)
            }),
    {
        self.ble.on_address(address);
    }

    /// A new mode is wanted, or the wait is over.
    pub fn on_woken(&mut self, desired: Mode, now_ms: u64) -> (action: TaskAction)
        requires
            match old(self).ble.link_step(now_ms) {
                LinkStep::Direct { .. } => now_ms + backoff(old(self).ble.consecutive_failures)
                    <= u64::MAX,
                LinkStep::Scan => now_ms + SCAN_RETRY_INTERVAL_MS <= u64::MAX,
                _ => true,
            },
        ensures
            (*final(self), action) == old(self).woken(desired, now_ms),
            ({
                let t = LinkTask { desired, ..*old(self) };
                match old(self).ble.link_step(now_ms) {
                    LinkStep::Stay => (*final(self), action) == t.sending(now_ms),
                    LinkStep::Wait => (*final(self), action) == t.resting(now_ms),
                    LinkStep::Direct { address } => {
                        &&& action == (TaskAction::Direct { address })
                        &&& *final(self) == (LinkTask {
                            phase: Phase::Directing,
                            ble: BleDaemon {
                                reconnect_cooldown: (now_ms + backoff(
                                    old(self).ble.consecutive_failures,
                                )) as u64,
                                ..t.ble
                            },
                            ..t
                        })
                    },
                    LinkStep::Scan => {
                        &&& action == TaskAction::Scan
                        &&& *final(self) == (LinkTask {
                            phase: Phase::Scanning,
                            ble: BleDaemon {
                                reconnect_cooldown: (now_ms + SCAN_RETRY_INTERVAL_MS) as u64,
                                ..t.ble
                            },
                            ..t
                        })
                    },
                }
            }),
    {
        self.desired = desired;
        match self.ble.next_link_step(now_ms) {
            LinkStep::Stay => self.send(now_ms),
            LinkStep::Wait => self.rest(now_ms),
            LinkStep::Direct { address } => {
                self.phase = Phase::Directing;
                TaskAction::Direct { address }
            },
            LinkStep::Scan => {
                self.phase = Phase::Scanning;
                TaskAction::Scan
            },
        }
    }

    /// It is known what became of a connection. One that stands is checked; without one, the link
    /// waits.
    pub fn on_linked(&mut self, outcome: Linked, now_ms: u64) -> (action: TaskAction)
        requires
            old(self).phase == Phase::Directing && outcome != Linked::Connected ==> old(
                self,
            ).ble.consecutive_failures < u32::MAX,
        ensures
            (*final(self), action) == old(self).relinked(outcome, now_ms),
            ({
                let ble = old(self).linked(outcome);
                let success = outcome == Linked::Connected;
                let t = LinkTask {
                    ble: match old(self).phase {
                        Phase::Directing => ble.after_direct(success),
                        Phase::Scanning => ble.after_scan(success),
                        _ => ble,
                    },
                    ..*old(self)
                };
                (*final(self), action) == if t.ble.connected && (old(self).phase
                    == Phase::Directing || old(self).phase == Phase::Scanning) {
                    (LinkTask { phase: Phase::Checking, ..t }, TaskAction::ReadBack)
                } else {
                    t.resting(now_ms)
                }
            }),
    {
        let success = match outcome {
            Linked::Connected => {
                self.ble.on_connect(true);
                true
            },
            Linked::Failed => {
                self.ble.on_connect(false);
                false
            },
            Linked::NotTried => false,
        };
        let again = match self.phase {
            Phase::Directing => {
                self.ble.on_direct(success);
                true
            },
            Phase::Scanning => {
                self.ble.on_scan(success);
                true
            },
            _ => false,
        };
        if again && self.ble.is_connected() {
            self.phase = Phase::Checking;
            TaskAction::ReadBack
        } else {
            self.rest(now_ms)
        }
    }

    /// The light has been asked for its mode. Whatever it said, the wanted one is sent.
    pub fn on_checked(&mut self, now_ms: u64) -> (action: TaskAction)
        ensures
            (*final(self), action) == old(self).sending(now_ms),
    {
        self.send(now_ms)
    }

    /// A write has come to its end.
    pub fn on_written(&mut self, outcome: WriteOutcome, now_ms: u64) -> (action: TaskAction)
        requires
            (old(self).ble.writable() && outcome is Confirmed) || old(
                self,
            ).ble.consecutive_failures < u32::MAX,
        ensures
            (*final(self), action) == old(self).written(outcome, now_ms),
            action == (TaskAction::Await { ms: final(self).ble.patience(now_ms) as u64 }),
            final(self).phase == Phase::Waiting,
            final(self).desired == old(self).desired,
            final(self).ble == ({
                let b = old(self).ble;
                let cut = outcome is Failed || outcome is TimedOut;
                if b.writable() && outcome is Confirmed {
                    BleDaemon {
                        last_sent_ts: match old(self).phase {
                            Phase::Writing { decided_ms } => decided_ms,
                            _ => now_ms,
                        },
                        last_sent_mode: Some(old(self).desired),
                        consecutive_failures: 0,
                        ..b
                    }
                } else {
                    BleDaemon {
                        connected: b.connected && !(b.writable() && cut),
                        consecutive_failures: (b.consecutive_failures + 1) as u32,
                        ..b
                    }
                }
            }),
    {
        let decided: u64 = match self.phase {
            Phase::Writing { decided_ms } => decided_ms,
            _ => now_ms,
        };
        let result = self.ble.write_mode(outcome);
        self.ble.on_sent(self.desired, decided, &result);
        self.rest(now_ms)
    }
}

/// An attempt to connect ends in a connection only where there is something to write modes to, and
/// there are two attempts at most.
pub proof fn a_connection_takes_two_attempts_at_most(c: Connector, outcome: Attempt)
    ensures
        ended(c, outcome).1 == ConnectAction::Connected <==> outcome == Attempt::Ready,
        ended(c, outcome).1 is Again ==> c.attempt == 0 && ended(c, outcome).0.attempt == 1,
        c.attempt >= 1 && outcome != Attempt::Ready ==> ended(c, outcome).1 is Failed,
{
}

/// Whatever was sent before a connection was lost, the wanted mode is written once it is back.
pub proof fn a_mode_survives_a_lost_connection(
    lost: LinkTask,
    direct: bool,
    desired: Mode,
    now_ms: u64,
)
    ensures
        ({
            let ble = lost.linked(Linked::Connected);
            let back = LinkTask {
                ble: if direct {
                    ble.after_direct(true)
                } else {
                    ble.after_scan(true)
                },
                desired,
                ..lost
            };
            back.sending(now_ms).1 matches TaskAction::Write { mode, .. } && mode == desired
        }),
{
}

/// A confirmed mode is not written again while it is wanted.
pub proof fn a_confirmed_mode_is_left_alone(t: LinkTask, now_ms: u64)
    requires
        t.ble.last_sent_mode == Some(t.desired),
    ensures
        t.sending(now_ms).1 is Await,
{
}

/// On a link that stands, a wanted mode that is not the last confirmed one, whichever that is, is
/// written, exactly it and within 120 milliseconds, when the link is woken and when the light has
/// been checked. Only a mode that is confirmed already is not.
pub proof fn a_wanted_mode_is_written(t: LinkTask, desired: Mode, now_ms: u64)
    requires
        t.ble.connected,
    ensures
        ({
            let (next, action) = t.woken(desired, now_ms);
            &&& t.ble.last_sent_mode != Some(desired) <==> action is Write
            &&& t.ble.last_sent_mode == Some(desired) <==> action is Await
            &&& action is Write ==> action->mode == desired && action->after_ms <= 120
                && next.phase == (Phase::Writing { decided_ms: now_ms })
            &&& action is Await ==> action->ms == 1_000 && next.phase == Phase::Waiting
            &&& next.desired == desired
            &&& next.ble == t.ble
        }),
        ({
            let (next, action) = t.sending(now_ms);
            &&& t.ble.last_sent_mode != Some(t.desired) <==> action is Write
            &&& t.ble.last_sent_mode == Some(t.desired) <==> action is Await
            &&& action is Write ==> action->mode == t.desired && action->after_ms <= 120
                && next.phase == (Phase::Writing { decided_ms: now_ms })
            &&& action is Await ==> action->ms == 1_000 && next.phase == Phase::Waiting
            &&& next.desired == t.desired
            &&& next.ble == t.ble
        }),
{
}

/// How long a write is put off is what the pauses between modes ask for, and nothing at all for an
/// alarm or for what follows one.
pub proof fn a_write_keeps_its_pause(t: LinkTask, now_ms: u64)
    requires
        t.ble.last_sent_mode != Some(t.desired),
    ensures
        ({
            let after_ms = t.sending(now_ms).1->after_ms;
            let due = if t.desired == Mode::Alarm || t.ble.last_sent_mode == Some(Mode::Alarm) {
                t.ble.last_sent_ts as int
            } else if t.desired == Mode::Red || t.desired == Mode::Yellow {
                t.ble.last_sent_ts + 60
            } else if t.desired == Mode::Green || t.desired == Mode::Off {
                t.ble.last_sent_ts + 120
            } else {
                t.ble.last_sent_ts + 90
            };
            &&& t.sending(now_ms).1 is Write
            &&& now_ms >= due ==> after_ms == 0
            &&& t.ble.last_sent_ts <= now_ms < due ==> now_ms + after_ms == due
            &&& now_ms < t.ble.last_sent_ts ==> t.ble.last_sent_ts + after_ms == due
        }),
{
}

/// A link that is down writes nothing. It waits until its pause is over, for 20 to 1,000
/// milliseconds at a time, and then connects: to the known address, where the next try is put off
/// the longer the more tries failed, or by a scan, where it is put off for twenty seconds.
pub proof fn a_link_that_is_down_connects(t: LinkTask, desired: Mode, now_ms: u64)
    requires
        !t.ble.connected,
        now_ms >= t.ble.reconnect_cooldown ==> now_ms + (if t.ble.address is Some {
            backoff(t.ble.consecutive_failures)
        } else {
            20_000
        }) <= u64::MAX,
    ensures
        ({
            let (next, action) = t.woken(desired, now_ms);
            let early = now_ms < t.ble.reconnect_cooldown;
            let failures = t.ble.consecutive_failures;
            &&& next.desired == desired
            &&& next.ble == (BleDaemon { reconnect_cooldown: next.ble.reconnect_cooldown, ..t.ble })
            &&& early ==> action is Await && next.phase == Phase::Waiting
                && next.ble.reconnect_cooldown == t.ble.reconnect_cooldown && 20 <= action->ms
                <= 1_000 && (action->ms == t.ble.reconnect_cooldown - now_ms || (action->ms == 20
                && t.ble.reconnect_cooldown - now_ms < 20) || (action->ms == 1_000
                && t.ble.reconnect_cooldown - now_ms > 1_000))
            &&& !early && t.ble.address is None ==> action is Scan && next.phase == Phase::Scanning
                && next.ble.reconnect_cooldown == now_ms + 20_000
            &&& !early && t.ble.address is Some ==> action is Direct && Some(action->address)
                == t.ble.address && next.phase == Phase::Directing && next.ble.reconnect_cooldown
                - now_ms == if failures == 0 {
                2_000int
            } else if failures == 1 {
                4_000
            } else if failures == 2 {
                8_000
            } else {
                15_000
            }
        }),
{
    failures_slow_the_link_down(t.ble.consecutive_failures);
}

/// A connection that was tried, at an address or by a scan, and that stands is checked next, and
/// nothing counts as sent on it. Where it does not stand the link waits. A first connection is not
/// checked: the link waits for a mode.
pub proof fn a_new_connection_is_checked(t: LinkTask, outcome: Linked, now_ms: u64)
    requires
        t.phase == Phase::Directing && !(outcome is Connected) ==> t.ble.consecutive_failures
            < u32::MAX,
    ensures
        ({
            let (next, action) = t.relinked(outcome, now_ms);
            let tried = t.phase == Phase::Directing || t.phase == Phase::Scanning;
            let direct = t.phase == Phase::Directing;
            &&& next.desired == t.desired
            &&& next.ble.reconnect_cooldown == t.ble.reconnect_cooldown
            &&& outcome is Connected ==> next.ble.has_peripheral && next.ble.connected
                && next.ble.address == t.ble.address
            &&& outcome is Failed ==> !next.ble.connected && next.ble.has_peripheral
                == t.ble.has_peripheral
            &&& outcome is NotTried ==> next.ble.connected == t.ble.connected
                && next.ble.has_peripheral == t.ble.has_peripheral
            &&& outcome is Connected && tried ==> action is ReadBack && next.phase
                == Phase::Checking && next.ble.last_sent_mode is None && next.ble.last_sent_ts == 0
            &&& outcome is Connected && !tried ==> action == (TaskAction::Await { ms: 1_000 })
            &&& !(outcome is Connected && tried) ==> next.ble.last_sent_mode
                == t.ble.last_sent_mode && next.ble.last_sent_ts == t.ble.last_sent_ts
            &&& !next.ble.connected || !tried ==> action is Await && next.phase == Phase::Waiting
            &&& direct && outcome is Connected ==> next.ble.consecutive_failures == 0
            &&& direct && !(outcome is Connected) && t.ble.consecutive_failures < 2
                ==> next.ble.consecutive_failures == t.ble.consecutive_failures + 1
                && next.ble.address == t.ble.address
            &&& direct && !(outcome is Connected) && t.ble.consecutive_failures >= 2
                ==> next.ble.consecutive_failures == 0 && next.ble.address is None
            &&& !direct ==> next.ble.consecutive_failures == t.ble.consecutive_failures
                && next.ble.address == t.ble.address
        }),
{
}

/// A write that the light confirms makes the wanted mode the last one sent, at the time it was
/// decided on, and forgets the failures. Any other end is one more failure, after which the mode
/// still counts as not sent; a write that fails or takes too long also cuts the connection.
pub proof fn only_a_confirmed_write_counts(t: LinkTask, outcome: WriteOutcome, now_ms: u64)
    requires
        t.ble.writable() && outcome is Confirmed || t.ble.consecutive_failures < u32::MAX,
    ensures
        ({
            let (next, action) = t.written(outcome, now_ms);
            let done = t.ble.has_peripheral && t.ble.connected && outcome is Confirmed;
            &&& action is Await && next.phase == Phase::Waiting && next.desired == t.desired
            &&& next.ble.has_peripheral == t.ble.has_peripheral
            &&& next.ble.address == t.ble.address
            &&& next.ble.reconnect_cooldown == t.ble.reconnect_cooldown
            &&& done ==> next.ble.last_sent_mode == Some(t.desired)
                && next.ble.consecutive_failures == 0 && next.ble.connected
            &&& done && t.phase is Writing ==> next.ble.last_sent_ts == t.phase->decided_ms
            &&& done && !(t.phase is Writing) ==> next.ble.last_sent_ts == now_ms
            &&& !done ==> next.ble.last_sent_mode == t.ble.last_sent_mode && next.ble.last_sent_ts
                == t.ble.last_sent_ts && next.ble.consecutive_failures
                == t.ble.consecutive_failures + 1
            &&& t.ble.has_peripheral && (outcome is Failed || outcome is TimedOut)
                ==> !next.ble.connected
            &&& !t.ble.has_peripheral || outcome is NoCharacteristic || outcome is Confirmed
                ==> next.ble.connected == t.ble.connected
            &&& next.ble.connected ==> action->ms == 1_000
        }),
{
}

/// A confirmed mode is at rest until another is wanted, and that one is written.
pub proof fn a_confirmed_mode_rests(t: LinkTask, now_ms: u64, desired: Mode, later_ms: u64)
    requires
        t.ble.has_peripheral && t.ble.connected,
    ensures
        t.written(WriteOutcome::Confirmed, now_ms).0.woken(desired, later_ms).1 is Await
            <==> desired == t.desired,
        desired != t.desired ==> (t.written(WriteOutcome::Confirmed, now_ms).0.woken(
            desired,
            later_ms,
        ).1 matches TaskAction::Write { mode, .. } && mode == desired),
{
}

/// An attempt that fails is followed by one more, and that by none; the address stays the same.
pub proof fn a_connector_tries_twice(c: Connector, outcome: Attempt)
    ensures
        ({
            let (next, action) = ended(c, outcome);
            let half_open = outcome is NoServices || outcome is NoModeCharacteristic;
            &&& next.address == c.address
            &&& outcome is Ready ==> action is Connected && next == c
            &&& !(outcome is Ready) && c.attempt == 0 ==> next.attempt == 1 && action == (
            ConnectAction::Again {
                disconnect: half_open,
                wait_ms: if half_open {
                    500
                } else if outcome is NoListing {
                    0
                } else {
                    1_000
                },
            })
            &&& !(outcome is Ready) && c.attempt > 0 ==> next == c && action == (
            ConnectAction::Failed { disconnect: half_open })
        }),
{
}

/// A device that has been connected to has its services read next, and counts as connected only
/// where one of them takes modes. Every other end is the end of an attempt.
pub proof fn a_connection_needs_the_mode_characteristic(c: Connector, uuids: Seq<u128>)
    ensures
        after_connecting(c, true) == (c, ConnectAction::Discover),
        !(after_connecting(c, false).1 is Connected),
        !(after_connecting(c, false).1 is Discover),
        !(after_reading(c, None).1 is Connected),
        after_reading(c, Some(uuids)).1 is Connected <==> uuids.contains(
            0xb8b7e002_7a6b_4f4f_9a8b_11c0ffee0001u128,
        ),
        c.attempt == 0 ==> after_connecting(c, false).1 == (ConnectAction::Again {
            disconnect: false,
            wait_ms: 1_000,
        }) && after_reading(c, None).1 == (ConnectAction::Again { disconnect: true, wait_ms: 500 }),
        c.attempt > 0 ==> after_connecting(c, false).1 == (ConnectAction::Failed {
            disconnect: false,
        }) && after_reading(c, None).1 == (ConnectAction::Failed { disconnect: true }),
        !(after_reading(c, Some(uuids)).1 is Connected) ==> after_reading(c, Some(uuids))
            == after_reading(c, None),
{
    if takes_modes(uuids) {
        let k = choose|i: int| 0 <= i < uuids.len() && is_mode_uuid(#[trigger] uuids[i]);
        assert(uuids.contains(uuids[k]));
    }
    if uuids.contains(0xb8b7e002_7a6b_4f4f_9a8b_11c0ffee0001u128) {
        let k = choose|k: int|
            0 <= k < uuids.len() && uuids[k] == 0xb8b7e002_7a6b_4f4f_9a8b_11c0ffee0001u128;
        assert(is_mode_uuid(uuids[k]));
    }
}

/// Where any device has an address, exactly one of them is the first that has it.
pub proof fn one_device_is_the_first(devices: Seq<Seen>, address: u64, i: int, j: int)
    requires
        0 <= i < devices.len(),
        devices[i].address == Some(address),
    ensures
        exists|k: int| k <= i && #[trigger] first_at(devices, address, k),
        first_at(devices, address, j) ==> j <= i,
        first_at(devices, address, i) && first_at(devices, address, j) ==> i == j,
    decreases i,
{
    if exists|k: int| 0 <= k < i && (#[trigger] devices[k]).address == Some(address) {
        let k = choose|k: int| 0 <= k < i && (#[trigger] devices[k]).address == Some(address);
        one_device_is_the_first(devices, address, k, j);
    } else {
        assert(first_at(devices, address, i));
    }
}

} // verus!
