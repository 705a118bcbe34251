//! The light effects and the words that name them on the wire.
use crate::text::same;
use vstd::prelude::*;

verus! {

/// A light effect.
#[derive(Debug, Clone, Copy, PartialEq, Eq, Structural)]
pub enum Mode {
    Demo,
    Thinking,
    Ai,
    Busy,
    Success,
    Error,
    Alarm,
    Off,
    Red,
    Yellow,
    Green,
}

impl Mode {
    pub const ALL: [Mode; 11] = [
        Mode::Demo,
        Mode::Thinking,
        Mode::Ai,
        Mode::Busy,
        Mode::Success,
        Mode::Error,
        Mode::Alarm,
        Mode::Off,
        Mode::Red,
        Mode::Yellow,
        Mode::Green,
    ];

    /// The word for a mode.
    pub open spec fn word(self) -> Seq<char> {
        match self {
            Mode::Demo => "demo"@,
            Mode::Thinking => "thinking"@,
            Mode::Ai => "ai"@,
            Mode::Busy => "busy"@,
            Mode::Success => "success"@,
            Mode::Error => "error"@,
            Mode::Alarm => "alarm"@,
            Mode::Off => "off"@,
            Mode::Red => "red"@,
            Mode::Yellow => "yellow"@,
            Mode::Green => "green"@,
        }
    }

    /// The mode with the given word, where there is one.
    pub open spec fn named(s: Seq<char>) -> Option<Mode> {
        if exists|m: Mode| #[trigger] m.word() == s {
            Some(choose|m: Mode| #[trigger] m.word() == s)
        } else {
            None
        }
    }

    /// The mode that `s` is the word for: letter for letter, with nothing before or after it.
    pub fn from_str(s: &str) -> (r: Option<Mode>)
        ensures
            r == Self::named(s@),
            match r {
                Some(m) => s@ == m.word(),
                None => forall|m: Mode| s@ != #[trigger] m.word(),
            },
    {
        let r = if same(s, "demo") {
            Some(Mode::Demo)
        } else if same(s, "thinking") {
            Some(Mode::Thinking)
        } else if same(s, "ai") {
            Some(Mode::Ai)
        } else if same(s, "busy") {
            Some(Mode::Busy)
        } else if same(s, "success") {
            Some(Mode::Success)
        } else if same(s, "error") {
            Some(Mode::Error)
        } else if same(s, "alarm") {
            Some(Mode::Alarm)
        } else if same(s, "off") {
            Some(Mode::Off)
        } else if same(s, "red") {
            Some(Mode::Red)
        } else if same(s, "yellow") {
            Some(Mode::Yellow)
        } else if same(s, "green") {
            Some(Mode::Green)
        } else {
            None
        };
        proof {
            if r is Some {
                word_names_its_mode(r->0, s@);
            }
        }
        r
    }

    pub fn as_str(self) -> (s: &'static str)
        ensures
            s@ == self.word(),
    {
        match self {
            Mode::Demo => "demo",
            Mode::Thinking => "thinking",
            Mode::Ai => "ai",
            Mode::Busy => "busy",
            Mode::Success => "success",
            Mode::Error => "error",
            Mode::Alarm => "alarm",
            Mode::Off => "off",
            Mode::Red => "red",
            Mode::Yellow => "yellow",
            Mode::Green => "green",
        }
    }
}

/// No two modes share a word, so that a mode read back from its word is the mode itself.
pub proof fn words_are_distinct(a: Mode, b: Mode)
    requires
        a.word() == b.word(),
    ensures
        a == b,
{
    reveal_strlit("demo");
    reveal_strlit("thinking");
    reveal_strlit("ai");
    reveal_strlit("busy");
    reveal_strlit("success");
    reveal_strlit("error");
    reveal_strlit("alarm");
    reveal_strlit("off");
    reveal_strlit("red");
    reveal_strlit("yellow");
    reveal_strlit("green");
    let (x, y) = (a.word(), b.word());
    assert(x.len() == y.len() && x[0] == y[0] && x[1] == y[1]);
}

/// A mode is found again from its word, and under no other text.
pub proof fn word_names_its_mode(m: Mode, s: Seq<char>)
    ensures
        Mode::named(s) == Some(m) <==> s == m.word(),
{
    assert forall|x: Mode| #[trigger] x.word() == m.word() implies x == m by {
        words_are_distinct(x, m);
    }
}

/// The word of a mode has at most eight characters, all of them ASCII.
pub proof fn words_are_short(m: Mode)
    ensures
        2 <= m.word().len() <= 8,
        vstd::utf8::is_ascii_chars(m.word()),
{
    reveal_strlit("demo");
    reveal_strlit("thinking");
    reveal_strlit("ai");
    reveal_strlit("busy");
    reveal_strlit("success");
    reveal_strlit("error");
    reveal_strlit("alarm");
    reveal_strlit("off");
    reveal_strlit("red");
    reveal_strlit("yellow");
    reveal_strlit("green");
}

/// Each mode has its own word.
pub proof fn each_mode_has_its_word()
    ensures
        Mode::Demo.word() == "demo"@,
        Mode::Thinking.word() == "thinking"@,
        Mode::Ai.word() == "ai"@,
        Mode::Busy.word() == "busy"@,
        Mode::Success.word() == "success"@,
        Mode::Error.word() == "error"@,
        Mode::Alarm.word() == "alarm"@,
        Mode::Off.word() == "off"@,
        Mode::Red.word() == "red"@,
        Mode::Yellow.word() == "yellow"@,
        Mode::Green.word() == "green"@,
{
}

/// The list of all modes holds each of them, and each once.
pub proof fn every_mode_is_listed(m: Mode, i: int, j: int)
    ensures
        Mode::ALL@.contains(m),
        0 <= i < 11 && 0 <= j < 11 && Mode::ALL@[i] == Mode::ALL@[j] ==> i == j,
{
    let all = Mode::ALL@;
    assert(all[0] is Demo && all[1] is Thinking && all[2] is Ai && all[3] is Busy);
    assert(all[4] is Success && all[5] is Error && all[6] is Alarm && all[7] is Off);
    assert(all[8] is Red && all[9] is Yellow && all[10] is Green);
}

} // verus!
