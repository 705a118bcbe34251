//! The daemon's main loop, one event at a time: sessions, commands, the clock.
use super::state::{
    after, default_state, green_window, process_cmd, resolve_mode, resolved, shown, window_after,
};
use super::types::{DaemonCmd, Mode, State};
use crate::text::{same, texts};
use vstd::prelude::*;

verus! {

/// How long a daemon without sessions goes on without an event.
pub const IDLE_EXIT_MS: u64 = 2 * 60 * 60 * 1000;

/// What is to be done after an event.
#[derive(Debug, Clone, Copy, PartialEq, Eq, Structural)]
pub struct Reaction {
    /// End the daemon.
    pub shutdown: bool,
    /// Send this mode to the light, then write the state file with it.
    pub show: Option<Mode>,
    /// End the desktop light.
    pub close_desktop: bool,
}

/// Nothing is to be done.
pub open spec fn nothing() -> Reaction {
    Reaction { shutdown: false, show: None, close_desktop: false }
}

/// What the main loop remembers, as contracts speak of it.
#[verifier::ext_equal]
pub struct LoopView {
    pub state: State,
    /// The identifiers of the open sessions.
    pub sessions: Set<Seq<char>>,
    /// How many sessions without an identifier are open.
    pub anonymous: u32,
    pub saw_session_start: bool,
    pub last_event_ms: u64,
    pub last_resolved: Option<Mode>,
}

impl LoopView {
    /// Whether a session is open.
    pub open spec fn active(self) -> bool {
        self.sessions != Set::<Seq<char>>::empty() || self.anonymous > 0
    }

    /// The loop once the state machine has gone idle, which turns the light green.
    pub open spec fn idled(self, now_ms: u64) -> LoopView {
        LoopView {
            state: after(self.state, DaemonCmd::Idle, now_ms),
            last_resolved: Some(Mode::Green),
            ..self
        }
    }

    /// The loop after a session has opened, and what is to be done: the first one turns the light
    /// green. A session that is open already is not counted again.
    pub open spec fn opened(self, id: Seq<char>, now_ms: u64) -> (LoopView, Reaction) {
        let v = LoopView {
            saw_session_start: true,
            anonymous: if id.len() == 0 && self.anonymous < u32::MAX {
                (self.anonymous + 1) as u32
            } else {
                self.anonymous
            },
            sessions: if id.len() == 0 {
                self.sessions
            } else {
                self.sessions.insert(id)
            },
            ..self
        };
        if self.active() {
            (v, nothing())
        } else {
            (v.idled(now_ms), Reaction { show: Some(Mode::Green), ..nothing() })
        }
    }

    /// Whether a session with this identifier is open; without one, whether any is.
    pub open spec fn knows(self, id: Seq<char>) -> bool {
        if id.len() == 0 {
            self.anonymous > 0
        } else {
            self.sessions.contains(id)
        }
    }

    /// The loop after a session has closed, and what is to be done: the light turns green, and the
    /// desktop light ends. The end of a session that is not open changes nothing.
    pub open spec fn closed(self, id: Seq<char>, now_ms: u64) -> (LoopView, Reaction) {
        if !self.saw_session_start || !self.knows(id) {
            (self, nothing())
        } else {
            let v = LoopView {
                anonymous: if id.len() == 0 {
                    (self.anonymous - 1) as u32
                } else {
                    self.anonymous
                },
                sessions: if id.len() == 0 {
                    self.sessions
                } else {
                    self.sessions.remove(id)
                },
                ..self
            };
            (
                v.idled(now_ms),
                Reaction { show: Some(Mode::Green), close_desktop: true, ..nothing() },
            )
        }
    }

    /// The loop after a command, and what is to be done.
    pub open spec fn commanded(self, cmd: DaemonCmd, now_ms: u64) -> (LoopView, Reaction) {
        let v = LoopView { last_event_ms: now_ms, ..self };
        match cmd {
            DaemonCmd::Stop { status } if status@ == "stop"@ => (
                v,
                Reaction { shutdown: true, ..nothing() },
            ),
            DaemonCmd::Ping => (v, nothing()),
            DaemonCmd::SessionStart { session_id } => v.opened(session_id@, now_ms),
            DaemonCmd::SessionEnd { session_id } => v.closed(session_id@, now_ms),
            _ => {
                let light = shown(v.state, cmd, now_ms);
                (
                    LoopView {
                        state: after(v.state, cmd, now_ms),
                        last_resolved: if light is Some {
                            light
                        } else {
                            v.last_resolved
                        },
                        ..v
                    },
                    Reaction { show: light, close_desktop: cmd is Idle, ..nothing() },
                )
            },
        }
    }

    /// Whether the daemon has been without sessions and without events for too long.
    pub open spec fn forgotten(self, now_ms: u64) -> bool {
        !self.active() && now_ms - self.last_event_ms > IDLE_EXIT_MS
    }

    /// The loop after a tick of the clock, and what is to be done: a light that time has changed is
    /// shown.
    pub open spec fn ticked(self, now_ms: u64) -> (LoopView, Reaction) {
        let mode = resolved(self.state, now_ms);
        if self.forgotten(now_ms) {
            (self, Reaction { shutdown: true, ..nothing() })
        } else if self.last_resolved == Some(mode) {
            (self, nothing())
        } else {
            (
                LoopView {
                    state: State { last_mode: mode, ..self.state },
                    last_resolved: Some(mode),
                    ..self
                },
                Reaction { show: Some(mode), ..nothing() },
            )
        }
    }
}

/// The state of the main loop.
#[derive(Debug)]
pub struct MainLoop {
    state: State,
    sessions: Vec<String>,
    anonymous_sessions: u32,
    saw_session_start: bool,
    last_event_ms: u64,
    last_resolved_mode: Option<Mode>,
}

impl View for MainLoop {
    type V = LoopView;

    closed spec fn view(&self) -> LoopView {
        LoopView {
            state: self.state,
            sessions: texts(self.sessions@).to_set(),
            anonymous: self.anonymous_sessions,
            saw_session_start: self.saw_session_start,
            last_event_ms: self.last_event_ms,
            last_resolved: self.last_resolved_mode,
        }
    }
}

impl MainLoop {
    /// No session is listed twice.
    pub closed spec fn wf(&self) -> bool {
        texts(self.sessions@).no_duplicates()
    }

    pub fn new(now_ms: u64) -> (m: Self)
        ensures
            m.wf(),
            m@ == (LoopView {
                state: State::initial(),
                sessions: Set::empty(),
                anonymous: 0,
                saw_session_start: false,
                last_event_ms: now_ms,
                last_resolved: None,
            }),
    {
        let m = MainLoop {
            state: default_state(),
            sessions: Vec::new(),
            anonymous_sessions: 0,
            saw_session_start: false,
            last_event_ms: now_ms,
            last_resolved_mode: None,
        };
        assert(texts(m.sessions@) =~= Seq::<Seq<char>>::empty());
        assert(texts(m.sessions@).to_set() =~= Set::<Seq<char>>::empty());
        m
    }

    /// The state of the assistant.
    pub fn state(&self) -> (s: State)
        ensures
            s == self@.state,
    {
        self.state
    }

    /// How many sessions with an identifier are open.
    pub fn session_count(&self) -> (n: usize)
        requires
            self.wf(),
        ensures
            self@.sessions.finite(),
            n == self@.sessions.len(),
    {
        proof {
            texts(self.sessions@).unique_seq_to_set();
        }
        self.sessions.len()
    }

    /// The position of a session.
    fn position(&self, id: &str) -> (r: Option<usize>)
        ensures
            match r {
                Some(i) => i < self.sessions@.len() && self.sessions@[i as int]@ == id@,
                None => !self@.sessions.contains(id@),
            },
    {
        let mut i: usize = 0;
        while i < self.sessions.len()
            invariant
                i <= self.sessions@.len(),
                forall|j: int| 0 <= j < i ==> (#[trigger] self.sessions@[j])@ != id@,
            decreases self.sessions@.len() - i,
        {
            if same(self.sessions[i].as_str(), id) {
                return Some(i);
            }
            i += 1;
        }
        proof {
            let t = texts(self.sessions@);
            if t.contains(id@) {
                let k = choose|k: int| 0 <= k < t.len() && t[k] == id@;
                assert(self.sessions@[k]@ == id@);
            }
        }
        None
    }

    fn active(&self) -> (r: bool)
        ensures
            r == self@.active(),
    {
        proof {
            let t = texts(self.sessions@);
            if t.len() == 0 {
                assert(t.to_set() =~= Set::<Seq<char>>::empty());
            } else {
                assert(t.contains(t[0]));
                assert(t.to_set().contains(t[0]));
            }
        }
        self.sessions.len() > 0 || self.anonymous_sessions > 0
    }

    fn go_idle(&mut self, now_ms: u64)
        requires
            old(self).wf(),
        ensures
            final(self).wf(),
            final(self)@ == old(self)@.idled(now_ms),
    {
        let light = process_cmd(&mut self.state, DaemonCmd::Idle, now_ms);
        self.last_resolved_mode = light;
    }

    fn on_session_start(&mut self, id: String, now_ms: u64) -> (r: Reaction)
        requires
            old(self).wf(),
        ensures
            final(self).wf(),
            (final(self)@, r) == old(self)@.opened(id@, now_ms),
    {
        let first = !self.active();
        self.saw_session_start = true;
        if id.as_str().is_empty() {
            self.anonymous_sessions = self.anonymous_sessions.saturating_add(1);
        } else {
            match self.position(id.as_str()) {
                None => {
                    let ghost before = texts(self.sessions@);
                    let ghost key = id@;
                    proof {
                        assert(!before.contains(key)) by {
                            if before.contains(key) {
                                assert(before.to_set().contains(key));
                            }
                        }
                    }
                    self.sessions.push(id);
                    proof {
                        assert(texts(self.sessions@) =~= before.push(key));
                        lemma_set_of_push(before, key);
                    }
                },
                Some(i) => {
                    proof {
                        let t = texts(self.sessions@);
                        assert(t[i as int] == id@);
                        assert(t.to_set().contains(id@));
                        assert(t.to_set().insert(id@) =~= t.to_set());
                    }
                },
            }
        }
        if first {
            self.go_idle(now_ms);
            Reaction { shutdown: false, show: Some(Mode::Green), close_desktop: false }
        } else {
            Reaction { shutdown: false, show: None, close_desktop: false }
        }
    }

    fn on_session_end(&mut self, id: String, now_ms: u64) -> (r: Reaction)
        requires
            old(self).wf(),
        ensures
            final(self).wf(),
            (final(self)@, r) == old(self)@.closed(id@, now_ms),
    {
        if !self.saw_session_start {
            return Reaction { shutdown: false, show: None, close_desktop: false };
        }
        if id.as_str().is_empty() {
            if self.anonymous_sessions == 0 {
                return Reaction { shutdown: false, show: None, close_desktop: false };
            }
            self.anonymous_sessions = self.anonymous_sessions - 1;
        } else {
            match self.position(id.as_str()) {
                Some(i) => {
                    let ghost before = texts(self.sessions@);
                    self.sessions.remove(i);
                    proof {
                        assert(before[i as int] == id@);
                        assert(texts(self.sessions@) =~= before.remove(i as int));
                        lemma_set_of_remove(before, i as int);
                    }
                },
                None => {
                    return Reaction { shutdown: false, show: None, close_desktop: false };
                },
            }
        }
        self.go_idle(now_ms);
        Reaction { shutdown: false, show: Some(Mode::Green), close_desktop: true }
    }

    /// A command has come in. A green window that would end past the last representable
    /// millisecond is left out.
    pub fn on_command(&mut self, cmd: DaemonCmd, now_ms: u64) -> (r: Reaction)
        requires
            old(self).wf(),
            window_after(old(self)@.state, cmd, now_ms) <= u64::MAX,
        ensures
            final(self).wf(),
            (final(self)@, r) == old(self)@.commanded(cmd, now_ms),
    {
        self.last_event_ms = now_ms;
        if let DaemonCmd::Stop { status } = &cmd {
            if same(status.as_str(), "stop") {
                return Reaction { shutdown: true, show: None, close_desktop: false };
            }
        }
        match cmd {
            DaemonCmd::Ping => Reaction { shutdown: false, show: None, close_desktop: false },
            DaemonCmd::SessionStart { session_id } => self.on_session_start(session_id, now_ms),
            DaemonCmd::SessionEnd { session_id } => self.on_session_end(session_id, now_ms),
            other => {
                let close_desktop = matches!(other, DaemonCmd::Idle);
                let show = process_cmd(&mut self.state, other, now_ms);
                if let Some(mode) = show {
                    self.last_resolved_mode = Some(mode);
                }
                Reaction { shutdown: false, show, close_desktop }
            },
        }
    }

    /// A second has passed.
    pub fn on_tick(&mut self, now_ms: u64) -> (r: Reaction)
        requires
            old(self).wf(),
        ensures
            final(self).wf(),
            (final(self)@, r) == old(self)@.ticked(now_ms),
    {
        if !self.active() && now_ms.saturating_sub(self.last_event_ms) > IDLE_EXIT_MS {
            return Reaction { shutdown: true, show: None, close_desktop: false };
        }
        let mode = resolve_mode(&self.state, now_ms);
        let unchanged = match self.last_resolved_mode {
            Some(last) => last == mode,
            None => false,
        };
        if unchanged {
            return Reaction { shutdown: false, show: None, close_desktop: false };
        }
        self.last_resolved_mode = Some(mode);
        self.state.last_mode = mode;
        Reaction { shutdown: false, show: Some(mode), close_desktop: false }
    }
}

proof fn lemma_set_of_push(s: Seq<Seq<char>>, x: Seq<char>)
    requires
        s.no_duplicates(),
        !s.contains(x),
    ensures
        s.push(x).no_duplicates(),
        s.push(x).to_set() == s.to_set().insert(x),
{
    assert forall|y: Seq<char>| s.push(x).to_set().contains(y) == s.to_set().insert(x).contains(
        y,
    ) by {
        if s.contains(y) {
            let k = choose|k: int| 0 <= k < s.len() && s[k] == y;
            assert(s.push(x)[k] == y);
        }
        if y == x {
            assert(s.push(x)[s.len() as int] == x);
        }
        if s.push(x).contains(y) && y != x {
            let k = choose|k: int| 0 <= k < s.push(x).len() && s.push(x)[k] == y;
            assert(s[k] == y);
        }
    }
    assert(s.push(x).to_set() =~= s.to_set().insert(x));
    assert forall|i: int, j: int|
        0 <= i < s.push(x).len() && 0 <= j < s.push(x).len() && i != j implies s.push(x)[i]
        != s.push(x)[j] by {
        if i < s.len() {
            assert(s.contains(s[i]));
        }
        if j < s.len() {
            assert(s.contains(s[j]));
        }
    }
}

proof fn lemma_set_of_remove(s: Seq<Seq<char>>, i: int)
    requires
        s.no_duplicates(),
        0 <= i < s.len(),
    ensures
        s.remove(i).no_duplicates(),
        s.remove(i).to_set() == s.to_set().remove(s[i]),
{
    let t = s.remove(i);
    assert forall|y: Seq<char>| t.to_set().contains(y) == s.to_set().remove(s[i]).contains(y) by {
        if t.contains(y) {
            let k = choose|k: int| 0 <= k < t.len() && t[k] == y;
            let m = if k < i {
                k
            } else {
                k + 1
            };
            assert(s[m] == y);
        }
        if s.contains(y) && y != s[i] {
            let k = choose|k: int| 0 <= k < s.len() && s[k] == y;
            let m = if k < i {
                k
            } else {
                k - 1
            };
            assert(t[m] == y);
        }
    }
    assert(t.to_set() =~= s.to_set().remove(s[i]));
}

/// A probe changes nothing but the time of the last event.
pub proof fn a_probe_changes_nothing(v: LoopView, now_ms: u64)
    ensures
        v.commanded(DaemonCmd::Ping, now_ms) == (
            (LoopView { last_event_ms: now_ms, ..v }),
            nothing(),
        ),
{
}

/// A session that is open already may be announced again: nothing changes by it.
pub proof fn sessions_are_counted_once(v: LoopView, id: Seq<char>, now_ms: u64)
    requires
        id.len() > 0,
        v.sessions.contains(id),
        v.saw_session_start,
    ensures
        v.opened(id, now_ms) == (v, nothing()),
{
    assert(v.sessions.insert(id) =~= v.sessions);
}

/// Opening and closing a session leaves the sessions as they were.
pub proof fn a_closed_session_is_forgotten(v: LoopView, id: Seq<char>, now_ms: u64, later_ms: u64)
    requires
        id.len() > 0 ==> !v.sessions.contains(id),
        v.anonymous < u32::MAX,
    ensures
        v.opened(id, now_ms).0.closed(id, later_ms).0.sessions == v.sessions,
        v.opened(id, now_ms).0.closed(id, later_ms).0.anonymous == v.anonymous,
{
    if id.len() > 0 {
        assert(v.sessions.insert(id).remove(id) =~= v.sessions);
    }
}

/// The end of a session that is not open changes nothing, whatever sessions there have been.
pub proof fn a_stray_end_is_ignored(v: LoopView, id: Seq<char>, now_ms: u64)
    requires
        !v.knows(id),
    ensures
        v.closed(id, now_ms) == (v, nothing()),
{
}

/// The first session that opens turns the light green, and so does every open one that closes.
pub proof fn sessions_begin_and_end_green(v: LoopView, id: Seq<char>, now_ms: u64, later_ms: u64)
    ensures
        !v.active() ==> v.opened(id, now_ms).1.show == Some(Mode::Green) && resolved(
            v.opened(id, now_ms).0.state,
            later_ms,
        ) == Mode::Green,
        v.saw_session_start && v.knows(id) ==> v.closed(id, now_ms).1.show == Some(Mode::Green)
            && resolved(v.closed(id, now_ms).0.state, later_ms) == Mode::Green,
{
}

/// No command but `stop` ends the daemon, and the clock does so only without open sessions.
pub proof fn the_daemon_outlives_its_sessions(v: LoopView, cmd: DaemonCmd, now_ms: u64)
    ensures
        v.commanded(cmd, now_ms).1.shutdown ==> (cmd matches DaemonCmd::Stop { status } && status@
            == "stop"@),
        v.ticked(now_ms).1.shutdown <==> v.forgotten(now_ms),
        v.active() ==> !v.ticked(now_ms).1.shutdown,
{
}

/// The light for the end of a turn stays until the next command, however much time passes, and so
/// does that for a failed tool once no window keeps the light green.
pub proof fn a_result_stays(v: LoopView, cmd: DaemonCmd, now_ms: u64, later_ms: u64)
    requires
        !v.state.awaiting_build,
        (cmd is Error && !green_window(v.state, later_ms)) || (cmd matches DaemonCmd::Stop {
            status,
        } && status@ != "stop"@),
        ({
            let after = v.commanded(cmd, now_ms).0;
            !after.forgotten(later_ms)
        }),
    ensures
        ({
            let (after, r) = v.commanded(cmd, now_ms);
            &&& r.show is Some
            &&& after.ticked(later_ms) == (after, nothing())
        }),
{
}

/// The loop starts without waiting for a build, and nothing makes it wait for one.
pub proof fn the_loop_awaits_no_build(v: LoopView, cmd: DaemonCmd, now_ms: u64)
    requires
        !v.state.awaiting_build,
    ensures
        !v.commanded(cmd, now_ms).0.state.awaiting_build,
        !v.ticked(now_ms).0.state.awaiting_build,
{
}

/// A light that has been shown is not shown again until time or a command changes it.
pub proof fn a_tick_shows_a_light_once(v: LoopView, now_ms: u64)
    requires
        !v.forgotten(now_ms),
    ensures
        v.ticked(now_ms).0.ticked(now_ms) == (v.ticked(now_ms).0, nothing()),
        v.ticked(now_ms).0.last_resolved == Some(resolved(v.state, now_ms)),
{
}

/// What the state machine asks for is what the loop has shown, for every command that reaches it:
/// all but a probe, the sessions' own events and the daemon's stop. The state is the machine's, a
/// light that is asked for is remembered, and only going idle ends the desktop light.
pub proof fn the_loop_shows_what_is_asked_for(v: LoopView, cmd: DaemonCmd, now_ms: u64)
    requires
        !(cmd is Ping || cmd is SessionStart || cmd is SessionEnd),
        !(cmd matches DaemonCmd::Stop { status } && status@ == "stop"@),
    ensures
        ({
            let (next, reaction) = v.commanded(cmd, now_ms);
            let asked = shown(v.state, cmd, now_ms);
            &&& reaction.show == asked
            &&& next.state == after(v.state, cmd, now_ms)
            &&& asked is Some ==> next.last_resolved == asked
            &&& asked is None ==> next.last_resolved == v.last_resolved
            &&& next.last_event_ms == now_ms
            &&& next.sessions == v.sessions
            &&& next.anonymous == v.anonymous
            &&& next.saw_session_start == v.saw_session_start
            &&& !reaction.shutdown
            &&& reaction.close_desktop <==> cmd is Idle
        }),
{
}

/// A light that the loop remembers and did not before is one that it shows, whatever happened: no
/// light is taken for shown that was not. And what it shows it remembers.
pub proof fn a_remembered_light_was_shown(v: LoopView, cmd: DaemonCmd, now_ms: u64)
    ensures
        v.commanded(cmd, now_ms).0.last_resolved != v.last_resolved ==> v.commanded(
            cmd,
            now_ms,
        ).1.show == v.commanded(cmd, now_ms).0.last_resolved,
        v.commanded(cmd, now_ms).1.show is Some ==> v.commanded(cmd, now_ms).0.last_resolved
            == v.commanded(cmd, now_ms).1.show,
        v.ticked(now_ms).0.last_resolved != v.last_resolved ==> v.ticked(now_ms).1.show == v.ticked(
            now_ms,
        ).0.last_resolved,
        v.ticked(now_ms).1.show is Some ==> v.ticked(now_ms).0.last_resolved == v.ticked(
            now_ms,
        ).1.show,
{
}

/// The light that is shown is the light that the state remembers, for a command and for a tick.
pub proof fn the_state_knows_the_light(v: LoopView, cmd: DaemonCmd, now_ms: u64)
    ensures
        v.commanded(cmd, now_ms).1.show matches Some(mode) ==> v.commanded(
            cmd,
            now_ms,
        ).0.state.last_mode == mode,
        v.ticked(now_ms).1.show matches Some(mode) ==> v.ticked(now_ms).0.state.last_mode == mode,
        v.ticked(now_ms).0.state == (State {
            last_mode: v.ticked(now_ms).0.state.last_mode,
            ..v.state
        }),
{
}

/// The word `stop` ends the daemon, whose state and sessions stay as they are; nothing is shown for
/// it, and every command is noted as the last event.
pub proof fn stop_ends_the_daemon(v: LoopView, stop: DaemonCmd, cmd: DaemonCmd, now_ms: u64)
    requires
        stop matches DaemonCmd::Stop { status } && status@ == "stop"@,
    ensures
        v.commanded(stop, now_ms).1 == (Reaction {
            shutdown: true,
            show: None,
            close_desktop: false,
        }),
        v.commanded(stop, now_ms).0 == (LoopView { last_event_ms: now_ms, ..v }),
        v.commanded(cmd, now_ms).0.last_event_ms == now_ms,
{
}

/// A session that opens is counted, by its identifier where it has one. The first of all sessions
/// turns the light green; a further one is no reason to show anything or to touch the state.
pub proof fn a_session_opens(v: LoopView, start: DaemonCmd, now_ms: u64)
    requires
        start is SessionStart,
    ensures
        ({
            let id = start->SessionStart_session_id@;
            let (next, reaction) = v.commanded(start, now_ms);
            let first = v.anonymous == 0 && (forall|s: Seq<char>|
                !#[trigger] v.sessions.contains(s));
            &&& next.saw_session_start
            &&& forall|s: Seq<char>| #[trigger]
                next.sessions.contains(s) <==> v.sessions.contains(s) || (s == id && s.len() > 0)
            &&& id.len() > 0 ==> next.anonymous == v.anonymous
            &&& id.len() == 0 && v.anonymous < 0xFFFF_FFFF ==> next.anonymous == v.anonymous + 1
            &&& id.len() == 0 && v.anonymous == 0xFFFF_FFFF ==> next.anonymous == v.anonymous
            &&& !reaction.shutdown && !reaction.close_desktop
            &&& first ==> reaction.show == Some(Mode::Green) && next.last_resolved == Some(
                Mode::Green,
            ) && next.state == after(v.state, DaemonCmd::Idle, now_ms)
            &&& !first ==> reaction.show is None && next.last_resolved == v.last_resolved
                && next.state == v.state
        }),
{
    assert(v.sessions == Set::<Seq<char>>::empty() <==> forall|s: Seq<char>|
        !#[trigger] v.sessions.contains(s)) by {
        if forall|s: Seq<char>| !#[trigger] v.sessions.contains(s) {
            assert(v.sessions =~= Set::<Seq<char>>::empty());
        }
    }
}

/// A session that closes is no longer counted: the light turns green, and the desktop light ends,
/// though others may be open. The end of one that is not open changes nothing but the time of the
/// last event, and so does any end before the first beginning.
pub proof fn a_session_closes(v: LoopView, end: DaemonCmd, now_ms: u64)
    requires
        end is SessionEnd,
    ensures
        ({
            let id = end->SessionEnd_session_id@;
            let (next, reaction) = v.commanded(end, now_ms);
            let open = v.saw_session_start && (if id.len() == 0 {
                v.anonymous > 0
            } else {
                v.sessions.contains(id)
            });
            &&& !open ==> next == (LoopView { last_event_ms: now_ms, ..v }) && reaction == (
            Reaction { shutdown: false, show: None, close_desktop: false })
            &&& open ==> {
                &&& reaction == (Reaction {
                    shutdown: false,
                    show: Some(Mode::Green),
                    close_desktop: true,
                })
                &&& next.last_resolved == Some(Mode::Green)
                &&& next.state == after(v.state, DaemonCmd::Idle, now_ms)
                &&& next.saw_session_start
                &&& next.anonymous == if id.len() == 0 {
                    v.anonymous - 1
                } else {
                    v.anonymous as int
                }
                &&& forall|s: Seq<char>| #[trigger]
                    next.sessions.contains(s) <==> v.sessions.contains(s) && s != id || (
                    v.sessions.contains(s) && id.len() == 0)
            }
        }),
{
}

/// With each second the light that the state calls for is shown where it is not the last that was,
/// and nothing else happens; but a daemon that has had no session open and no event for more than
/// two hours ends.
pub proof fn the_clock_changes_the_light(v: LoopView, now_ms: u64)
    ensures
        ({
            let (next, reaction) = v.ticked(now_ms);
            let alone = v.anonymous == 0 && (forall|s: Seq<char>|
                !#[trigger] v.sessions.contains(s));
            let over = alone && now_ms > v.last_event_ms + 7_200_000;
            let mode = resolved(v.state, now_ms);
            &&& over ==> next == v && reaction == (Reaction {
                shutdown: true,
                show: None,
                close_desktop: false,
            })
            &&& !over && v.last_resolved == Some(mode) ==> next == v && reaction == (Reaction {
                shutdown: false,
                show: None,
                close_desktop: false,
            })
            &&& !over && v.last_resolved != Some(mode) ==> next == (LoopView {
                state: State { last_mode: mode, ..v.state },
                last_resolved: Some(mode),
                ..v
            }) && reaction == (Reaction { shutdown: false, show: Some(mode), close_desktop: false })
        }),
{
    assert(v.sessions == Set::<Seq<char>>::empty() <==> forall|s: Seq<char>|
        !#[trigger] v.sessions.contains(s)) by {
        if forall|s: Seq<char>| !#[trigger] v.sessions.contains(s) {
            assert(v.sessions =~= Set::<Seq<char>>::empty());
        }
    }
}

} // verus!
