//! What the three lamps show from one moment to the next, and the PWM duties that show it.
//!
//! Times are microseconds of one monotonic clock.
use crate::light_core::effects::{effect, effect_at, Rgb, GREEN_MAX, RED_MAX, YELLOW_MAX};
use crate::light_core::modes::Mode;
use vstd::prelude::*;

verus! {

/// The frequency of the PWM signal.
pub const PWM_FREQ_HZ: u32 = 5000;

/// How often a frame is computed.
pub const TICK_MS: u64 = 5;

/// After how long without a command the lamps go dark.
pub const IDLE_TIMEOUT_MS: u64 = 10 * 60 * 1000;

/// The number of steps of a fade.
pub const FADE_STEPS: u32 = 12;

/// The time between two steps of a fade.
pub const FADE_STEP_MS: u64 = 7;

/// The duties of the three PWM channels, out of 255.
#[derive(Debug, Clone, Copy, PartialEq, Eq, Structural)]
pub struct Duties {
    pub red: u32,
    pub yellow: u32,
    pub green: u32,
}

/// The duty of a lamp with a common anode: the brighter the lamp, the shorter the pulse. Each lamp
/// has a limit that is never passed.
pub open spec fn duty_of(brightness: u8, limit: u8) -> int {
    255 - if brightness < limit {
        brightness as int
    } else {
        limit as int
    }
}

fn duty(brightness: u8, limit: u8) -> (d: u32)
    ensures
        d == duty_of(brightness, limit),
{
    let b: u8 = if brightness < limit {
        brightness
    } else {
        limit
    };
    (255 - b) as u32
}

/// The duties that show `rgb`.
pub fn duties(rgb: Rgb) -> (d: Duties)
    ensures
        d.red == duty_of(rgb.red, RED_MAX),
        d.yellow == duty_of(rgb.yellow, YELLOW_MAX),
        d.green == duty_of(rgb.green, GREEN_MAX),
{
    Duties {
        red: duty(rgb.red, RED_MAX),
        yellow: duty(rgb.yellow, YELLOW_MAX),
        green: duty(rgb.green, GREEN_MAX),
    }
}

/// What the animation is told.
#[derive(Debug, Clone, Copy, PartialEq, Eq, Structural)]
pub enum LedCmd {
    /// Show a mode. The idle time starts again.
    Mode(Mode),
    /// Stand still during a firmware download.
    OtaSuspend,
    /// Go on after one.
    OtaResume,
}

/// Whole milliseconds from `from` to `to`.
pub open spec fn ms_between(from: u64, to: u64) -> int {
    (to - from) / 1000
}

fn millis(from: u64, to: u64) -> (ms: u64)
    requires
        from <= to,
    ensures
        ms == ms_between(from, to),
{
    (to - from) / 1000
}

/// What a 32-bit clock shows of a number of milliseconds.
pub open spec fn clock(ms: int) -> u32 {
    (ms % 0x1_0000_0000) as u32
}

fn on_clock(ms: u64) -> (t: u32)
    ensures
        t == clock(ms as int),
{
    (ms % 0x1_0000_0000) as u32
}

/// A rise of one colour from dark to full in steps.
#[derive(Debug, Clone, Copy, PartialEq, Eq, Structural)]
pub struct Fade {
    pub target: Rgb,
    pub step: u32,
    pub last: u64,
}

/// A colour at `step` of the steps of a fade.
pub open spec fn fade_light(target: Rgb, step: int) -> Rgb {
    Rgb {
        red: (target.red * step / FADE_STEPS as int) as u8,
        yellow: (target.yellow * step / FADE_STEPS as int) as u8,
        green: (target.green * step / FADE_STEPS as int) as u8,
    }
}

proof fn lemma_fade_part(b: int, p: int)
    requires
        0 <= b <= 255,
        0 <= p <= FADE_STEPS,
    ensures
        0 <= b * p <= 255 * FADE_STEPS,
        b * p / FADE_STEPS as int <= b,
        b * 0 == 0,
        b * FADE_STEPS / FADE_STEPS as int == b,
{
    assert(0 <= b * p <= b * 12) by (nonlinear_arith)
        requires
            0 <= b,
            0 <= p <= 12,
    ;
}

impl Fade {
    pub open spec fn wf(&self) -> bool {
        self.step <= FADE_STEPS
    }

    /// The fade one moment on: at most one step, and only if the last one is long enough ago.
    pub open spec fn ticked(self, now: u64) -> Fade {
        if self.step < FADE_STEPS && ms_between(self.last, now) >= FADE_STEP_MS {
            Fade { step: (self.step + 1) as u32, last: now, ..self }
        } else {
            self
        }
    }

    pub fn new(target: Rgb, now: u64) -> (f: Self)
        ensures
            f == (Fade { target, step: 0, last: now }),
    {
        Fade { target, step: 0, last: now }
    }

    pub fn tick(&mut self, now: u64) -> (rgb: Rgb)
        requires
            old(self).wf(),
            old(self).last <= now,
        ensures
            *final(self) == old(self).ticked(now),
            rgb == fade_light(final(self).target, final(self).step as int),
    {
        if self.step < FADE_STEPS && millis(self.last, now) >= FADE_STEP_MS {
            self.step = self.step + 1;
            self.last = now;
        }
        let p: u32 = self.step;
        proof {
            lemma_fade_part(self.target.red as int, p as int);
            lemma_fade_part(self.target.yellow as int, p as int);
            lemma_fade_part(self.target.green as int, p as int);
        }
        Rgb::new(
            (self.target.red as u32 * p / FADE_STEPS) as u8,
            (self.target.yellow as u32 * p / FADE_STEPS) as u8,
            (self.target.green as u32 * p / FADE_STEPS) as u8,
        )
    }

    pub fn done(&self) -> (r: bool)
        ensures
            r == (self.step >= FADE_STEPS),
    {
        self.step >= FADE_STEPS
    }
}

/// The full colour of the modes that are faded in.
pub open spec fn faded_colour(mode: Mode) -> Option<Rgb> {
    match mode {
        Mode::Red => Some(Rgb { red: RED_MAX, yellow: 0, green: 0 }),
        Mode::Yellow => Some(Rgb { red: 0, yellow: YELLOW_MAX, green: 0 }),
        Mode::Green => Some(Rgb { red: 0, yellow: 0, green: GREEN_MAX }),
        _ => None,
    }
}

/// The state of the animation.
#[derive(Debug, Clone, Copy, PartialEq, Eq, Structural)]
pub struct Animator {
    pub boot: u64,
    pub mode: Mode,
    pub mode_start: u64,
    pub last_write: u64,
    pub fade: Option<Fade>,
    pub suspended: bool,
}

impl Animator {
    /// A fade belongs to the mode that is shown.
    pub open spec fn wf(&self) -> bool {
        self.fade matches Some(f) ==> f.wf() && faded_colour(self.mode) == Some(f.target)
    }

    /// Nothing that the animation remembers lies after `now`.
    pub open spec fn is_past(&self, now: u64) -> bool {
        &&& self.boot <= now
        &&& self.mode_start <= now
        &&& self.last_write <= now
        &&& self.fade matches Some(f) ==> f.last <= now
    }

    /// The animation after a command.
    pub open spec fn told(self, cmd: LedCmd, now: u64) -> Animator {
        match cmd {
            LedCmd::Mode(mode) => Animator {
                mode,
                mode_start: now,
                last_write: now,
                fade: match faded_colour(mode) {
                    Some(target) => Some(Fade { target, step: 0, last: now }),
                    None => None,
                },
                ..self
            },
            LedCmd::OtaSuspend => Animator { suspended: true, ..self },
            LedCmd::OtaResume => Animator { suspended: false, ..self },
        }
    }

    /// Whether it has been quiet for so long that the lamps go dark.
    pub open spec fn idle(self, now: u64) -> bool {
        self.mode != Mode::Off && ms_between(self.last_write, now) >= IDLE_TIMEOUT_MS
    }

    /// The animation once the idle time has been looked at.
    pub open spec fn rested(self, now: u64) -> Animator {
        if self.idle(now) {
            Animator { mode: Mode::Off, mode_start: now, fade: None, ..self }
        } else {
            self
        }
    }

    /// The animation after a frame, and the light of that frame. None while suspended.
    pub open spec fn framed(self, now: u64) -> (Animator, Option<Rgb>) {
        if self.suspended {
            (self, None)
        } else {
            let a = self.rested(now);
            match a.fade {
                Some(f) => {
                    let g = f.ticked(now);
                    let fade = if g.step >= FADE_STEPS {
                        None
                    } else {
                        Some(g)
                    };
                    (Animator { fade, ..a }, Some(fade_light(g.target, g.step as int)))
                },
                None => (
                    a,
                    Some(
                        effect_at(
                            a.mode,
                            clock(ms_between(a.mode_start, now)),
                            clock(ms_between(a.boot, now)),
                        ),
                    ),
                ),
            }
        }
    }

    /// A device that has just started shows the demonstration.
    pub fn new(boot: u64) -> (a: Self)
        ensures
            a.wf(),
            a.is_past(boot),
            a == (Animator {
                boot,
                mode: Mode::Demo,
                mode_start: boot,
                last_write: boot,
                fade: None,
                suspended: false,
            }),
    {
        Animator {
            boot,
            mode: Mode::Demo,
            mode_start: boot,
            last_write: boot,
            fade: None,
            suspended: false,
        }
    }

    pub fn on_cmd(&mut self, cmd: LedCmd, now: u64)
        ensures
            *final(self) == old(self).told(cmd, now),
            old(self).wf() ==> final(self).wf(),
            old(self).is_past(now) ==> final(self).is_past(now),
    {
        match cmd {
            LedCmd::Mode(m) => {
                self.mode = m;
                self.mode_start = now;
                self.last_write = now;
                self.fade = match m {
                    Mode::Red => Some(Fade::new(Rgb::new(RED_MAX, 0, 0), now)),
                    Mode::Yellow => Some(Fade::new(Rgb::new(0, YELLOW_MAX, 0), now)),
                    Mode::Green => Some(Fade::new(Rgb::new(0, 0, GREEN_MAX), now)),
                    _ => None,
                };
            },
            LedCmd::OtaSuspend => {
                self.suspended = true;
            },
            LedCmd::OtaResume => {
                self.suspended = false;
            },
        }
    }

    pub fn frame(&mut self, now: u64) -> (light: Option<Rgb>)
        requires
            old(self).wf(),
            old(self).is_past(now),
        ensures
            final(self).wf(),
            final(self).is_past(now),
            (*final(self), light) == old(self).framed(now),
            light matches Some(l) ==> l.red <= RED_MAX && l.yellow <= YELLOW_MAX && l.green
                <= GREEN_MAX,
    {
        if self.suspended {
            return None;
        }
        if self.mode != Mode::Off && millis(self.last_write, now) >= IDLE_TIMEOUT_MS {
            self.mode = Mode::Off;
            self.mode_start = now;
            self.fade = None;
        }
        let rgb = match self.fade {
            Some(mut f) => {
                let v = f.tick(now);
                proof {
                    a_fade_ends_at_its_colour(f.target, f.step as int);
                }
                self.fade = if f.done() {
                    None
                } else {
                    Some(f)
                };
                v
            },
            None => {
                let t_rel: u32 = on_clock(millis(self.mode_start, now));
                let uptime: u32 = on_clock(millis(self.boot, now));
                effect(self.mode, t_rel, uptime)
            },
        };
        Some(rgb)
    }
}

/// A dark lamp has the full duty, and a lamp at its limit or past it the least.
pub proof fn duties_are_inverted(brightness: u8, limit: u8)
    ensures
        0 <= duty_of(brightness, limit) <= 255,
        duty_of(0, limit) == 255,
        brightness >= limit ==> duty_of(brightness, limit) == 255 - limit,
{
}

/// A fade starts dark, ends at its colour, and never passes it.
pub proof fn a_fade_ends_at_its_colour(target: Rgb, step: int)
    requires
        0 <= step <= FADE_STEPS,
    ensures
        fade_light(target, 0) == (Rgb { red: 0, yellow: 0, green: 0 }),
        fade_light(target, FADE_STEPS as int) == target,
        fade_light(target, step).red <= target.red,
        fade_light(target, step).yellow <= target.yellow,
        fade_light(target, step).green <= target.green,
{
    lemma_fade_part(target.red as int, step);
    lemma_fade_part(target.yellow as int, step);
    lemma_fade_part(target.green as int, step);
}

proof fn lemma_brightens(b: int, p: int)
    requires
        0 <= b,
        0 <= p,
    ensures
        b * p / FADE_STEPS as int <= b * (p + 1) / FADE_STEPS as int,
{
    assert(b * p <= b * (p + 1)) by (nonlinear_arith)
        requires
            0 <= b,
    ;
}

/// While a fade goes on, no lamp gets darker.
pub proof fn a_fade_only_brightens(f: Fade, now: u64)
    requires
        f.wf(),
    ensures
        f.ticked(now).wf(),
        fade_light(f.target, f.step as int).red <= fade_light(
            f.target,
            f.ticked(now).step as int,
        ).red,
        fade_light(f.target, f.step as int).yellow <= fade_light(
            f.target,
            f.ticked(now).step as int,
        ).yellow,
        fade_light(f.target, f.step as int).green <= fade_light(
            f.target,
            f.ticked(now).step as int,
        ).green,
{
    let p = f.step as int;
    lemma_brightens(f.target.red as int, p);
    lemma_brightens(f.target.yellow as int, p);
    lemma_brightens(f.target.green as int, p);
    if p < FADE_STEPS {
        a_fade_ends_at_its_colour(f.target, p);
        a_fade_ends_at_its_colour(f.target, p + 1);
        lemma_fade_part(f.target.red as int, p);
        lemma_fade_part(f.target.red as int, p + 1);
        lemma_fade_part(f.target.yellow as int, p);
        lemma_fade_part(f.target.yellow as int, p + 1);
        lemma_fade_part(f.target.green as int, p);
        lemma_fade_part(f.target.green as int, p + 1);
    }
}

/// Ten minutes after the last mode command the lamps are dark, and they stay dark: the mode is
/// `off` from then on.
pub proof fn idle_lamps_are_dark(a: Animator, now: u64)
    requires
        a.wf(),
        !a.suspended,
        ms_between(a.last_write, now) >= IDLE_TIMEOUT_MS,
    ensures
        a.framed(now).1 == Some(Rgb { red: 0, yellow: 0, green: 0 }),
        a.framed(now).0.mode == Mode::Off,
        a.framed(now).0.fade is None,
        a.framed(now).0.last_write == a.last_write,
{
}

/// Before that, a frame keeps the mode.
pub proof fn a_frame_keeps_the_mode(a: Animator, now: u64)
    requires
        ms_between(a.last_write, now) < IDLE_TIMEOUT_MS,
    ensures
        a.framed(now).0.mode == a.mode,
{
}

/// A suspended animation stands still; nothing but a command changes that.
pub proof fn a_suspended_animation_stands_still(a: Animator, now: u64, mode: Mode)
    requires
        a.suspended,
    ensures
        a.framed(now) == (a, None::<Rgb>),
        a.told(LedCmd::Mode(mode), now).suspended,
        !a.told(LedCmd::OtaResume, now).suspended,
        a.told(LedCmd::OtaResume, now).mode == a.mode,
{
}

/// In a mode that is faded in, no lamp but the mode's own ever shines, and it ends at full
/// brightness.
pub proof fn a_plain_colour_is_pure(a: Animator, now: u64, colour: Rgb)
    requires
        a.wf(),
        faded_colour(a.mode) == Some(colour),
        !a.suspended,
        !a.idle(now),
    ensures
        a.framed(now).1 matches Some(light) && light.red <= colour.red && light.yellow
            <= colour.yellow && light.green <= colour.green,
        a.fade is None ==> a.framed(now).1 == Some(colour),
        a.framed(now).0.fade is None ==> a.framed(now).1 == Some(colour),
{
    if let Some(f) = a.fade {
        let g = f.ticked(now);
        a_fade_ends_at_its_colour(f.target, g.step as int);
    }
}

/// The duty and the brightness of a lamp, up to its limit, make up 255.
pub proof fn a_duty_is_what_is_left(brightness: u8, limit: u8)
    ensures
        brightness <= limit ==> duty_of(brightness, limit) + brightness == 255,
        brightness >= limit ==> duty_of(brightness, limit) + limit == 255,
{
}

/// Milliseconds are whole thousands of microseconds, and a 32-bit clock begins again at its end.
pub proof fn milliseconds_are_whole(from: u64, to: u64, ms: int)
    requires
        from <= to,
        0 <= ms,
    ensures
        1000 * ms_between(from, to) <= to - from < 1000 * ms_between(from, to) + 1000,
        ms < 0x1_0000_0000 ==> clock(ms) == ms,
        clock(ms + 0x1_0000_0000) == clock(ms),
{
}

/// A fade goes on by one step each time that seven milliseconds have passed since the last, up to
/// the twelfth; until then it stays as it is.
pub proof fn a_fade_takes_twelve_steps(f: Fade, now: u64)
    requires
        f.last <= now,
    ensures
        f.step < 12 && now >= f.last + 7_000 ==> f.ticked(now) == (Fade {
            target: f.target,
            step: (f.step + 1) as u32,
            last: now,
        }),
        f.step >= 12 || now < f.last + 7_000 ==> f.ticked(now) == f,
{
}

proof fn lemma_twelfth(b: int, p: int)
    requires
        0 <= b <= 255,
        0 <= p <= 12,
    ensures
        ({
            let part = (b * p / FADE_STEPS as int) as u8;
            12 * part <= b * p < 12 * part + 12
        }),
{
    lemma_fade_part(b, p);
}

/// Each step of a fade is a twelfth of the colour, rounded down, for each lamp.
pub proof fn a_step_is_a_twelfth(target: Rgb, step: int)
    requires
        0 <= step <= 12,
    ensures
        ({
            let light = fade_light(target, step);
            &&& 12 * light.red <= target.red * step < 12 * light.red + 12
            &&& 12 * light.yellow <= target.yellow * step < 12 * light.yellow + 12
            &&& 12 * light.green <= target.green * step < 12 * light.green + 12
        }),
{
    lemma_twelfth(target.red as int, step);
    lemma_twelfth(target.yellow as int, step);
    lemma_twelfth(target.green as int, step);
}

/// The three plain colours are faded in, each on its own lamp at the lamp's limit, and no other
/// mode is.
pub proof fn plain_colours_are_faded_in(mode: Mode)
    ensures
        faded_colour(mode) is Some <==> mode == Mode::Red || mode == Mode::Yellow || mode
            == Mode::Green,
        mode == Mode::Red ==> faded_colour(mode) == Some(Rgb { red: 255, yellow: 0, green: 0 }),
        mode == Mode::Yellow ==> faded_colour(mode) == Some(Rgb { red: 0, yellow: 220, green: 0 }),
        mode == Mode::Green ==> faded_colour(mode) == Some(Rgb { red: 0, yellow: 0, green: 220 }),
{
}

/// A mode begins anew each time it is asked for, and its clock with it; a plain colour begins
/// dark. A suspended animation stays suspended by that. Suspending and going on change nothing
/// else.
pub proof fn a_mode_begins_anew(a: Animator, mode: Mode, now: u64)
    ensures
        ({
            let next = a.told(LedCmd::Mode(mode), now);
            &&& next.mode == mode && next.mode_start == now && next.last_write == now
            &&& next.boot == a.boot && next.suspended == a.suspended
            &&& mode == Mode::Red || mode == Mode::Yellow || mode == Mode::Green ==> next.fade
                == Some(
                Fade {
                    target: Rgb {
                        red: if mode == Mode::Red {
                            255
                        } else {
                            0
                        },
                        yellow: if mode == Mode::Yellow {
                            220
                        } else {
                            0
                        },
                        green: if mode == Mode::Green {
                            220
                        } else {
                            0
                        },
                    },
                    step: 0,
                    last: now,
                },
            )
            &&& mode != Mode::Red && mode != Mode::Yellow && mode != Mode::Green ==> next.fade
                is None
        }),
        a.told(LedCmd::OtaSuspend, now) == (Animator { suspended: true, ..a }),
        a.told(LedCmd::OtaResume, now) == (Animator { suspended: false, ..a }),
{
}

/// A frame of an animation that is neither suspended nor idle shows the fade where one is going
/// on, and else the mode's effect at the time since the mode began and since the device did. The
/// fade is over with its last step. Nothing but the fade changes.
pub proof fn a_frame_shows_the_mode(a: Animator, now: u64)
    requires
        a.is_past(now),
        !a.suspended,
        a.mode == Mode::Off || now < a.last_write + 600_000_000,
    ensures
        ({
            let (next, light) = a.framed(now);
            &&& next == (Animator { fade: next.fade, ..a })
            &&& a.fade is None ==> next.fade is None && light == Some(
                effect_at(
                    a.mode,
                    ((now - a.mode_start) / 1000 % 0x1_0000_0000) as u32,
                    ((now - a.boot) / 1000 % 0x1_0000_0000) as u32,
                ),
            )
            &&& a.fade is Some ==> {
                let f = a.fade->0;
                let step = if f.step < 12 && now >= f.last + 7_000 {
                    f.step + 1
                } else {
                    f.step as int
                };
                &&& light == Some(fade_light(f.target, step))
                &&& step >= 12 <==> next.fade is None
                &&& step < 12 ==> next.fade == Some(
                    Fade {
                        target: f.target,
                        step: step as u32,
                        last: if step == f.step {
                            f.last
                        } else {
                            now
                        },
                    },
                )
            }
        }),
{
}

/// Six hundred seconds after the last mode command, whatever mode is shown gives way to darkness.
pub proof fn lamps_go_dark_after_ten_minutes(a: Animator, now: u64)
    requires
        a.is_past(now),
        !a.suspended,
        a.mode != Mode::Off,
    ensures
        now >= a.last_write + 600_000_000 ==> a.framed(now) == (
            (Animator { mode: Mode::Off, mode_start: now, fade: None, ..a }),
            Some(Rgb { red: 0, yellow: 0, green: 0 }),
        ),
        now < a.last_write + 600_000_000 ==> a.framed(now).0.mode == a.mode,
{
}

} // verus!
