//! The brightness of the three lamps as a function of the mode and of time.
use super::modes::Mode;
use vstd::prelude::*;

verus! {

/// Brightness limit of the red lamp.
pub const RED_MAX: u8 = 255;

/// Brightness limit of the yellow lamp.
pub const YELLOW_MAX: u8 = 220;

/// Brightness limit of the green lamp.
pub const GREEN_MAX: u8 = 220;

/// The brightness of the three lamps.
#[derive(Debug, Clone, Copy, PartialEq, Eq, Structural)]
pub struct Rgb {
    pub red: u8,
    pub yellow: u8,
    pub green: u8,
}

impl Rgb {
    /// All three lamps dark.
    pub fn off() -> (rgb: Self)
        ensures
            rgb == (Rgb { red: 0, yellow: 0, green: 0 }),
    {
        Rgb { red: 0, yellow: 0, green: 0 }
    }

    pub fn new(red: u8, yellow: u8, green: u8) -> (rgb: Self)
        ensures
            rgb == (Rgb { red, yellow, green }),
    {
        Rgb { red, yellow, green }
    }
}

/// The quotient of two integers, rounded toward zero.
pub open spec fn quotient(a: int, b: int) -> int {
    if a >= 0 {
        a / b
    } else {
        -(-a / b)
    }
}

/// The image of `x` under the line through `(in_min, out_min)` and `(in_max, out_max)`.
pub open spec fn on_line(x: int, in_min: int, in_max: int, out_min: int, out_max: int) -> int {
    quotient((x - in_min) * (out_max - out_min), in_max - in_min) + out_min
}

pub open spec fn fits_i64(v: int) -> bool {
    i64::MIN <= v <= i64::MAX
}

/// Linear interpolation, the distance from `out_min` rounded toward zero.
pub fn map(x: i64, in_min: i64, in_max: i64, out_min: i64, out_max: i64) -> (y: i64)
    requires
        in_min != in_max,
        fits_i64(x - in_min),
        fits_i64(out_max - out_min),
        fits_i64(in_max - in_min),
        fits_i64((x - in_min) * (out_max - out_min)),
        fits_i64(quotient((x - in_min) * (out_max - out_min), in_max - in_min)),
        fits_i64(on_line(x as int, in_min as int, in_max as int, out_min as int, out_max as int)),
    ensures
        y == on_line(x as int, in_min as int, in_max as int, out_min as int, out_max as int),
{
    let scaled: i64 = (x - in_min) * (out_max - out_min);
    let span: i64 = in_max - in_min;
    let steps: i64 = scaled / span;
    assert(steps == quotient(scaled as int, span as int));
    steps + out_min
}

/// The nearest brightness that a lamp can take.
pub fn clamp_255(v: i64) -> (b: u8)
    ensures
        b == (if v < 0 {
            0
        } else if v > 255 {
            255
        } else {
            v as int
        }),
{
    if v < 0 {
        0
    } else if v > 255 {
        255
    } else {
        v as u8
    }
}

/// The brightness after `x` of the `span` time units of a rise from dark to `max`.
pub open spec fn rise(x: int, span: int, max: int) -> int {
    x * max / span
}

/// The brightness after `x` of the `span` time units of a fall from `max` to dark.
pub open spec fn fall(x: int, span: int, max: int) -> int {
    max - x * max / span
}

proof fn lemma_ramp(x: int, span: int, max: int)
    requires
        0 <= x <= span,
        0 < span <= u32::MAX,
        0 <= max <= 255,
    ensures
        0 <= x * max <= 255 * u32::MAX,
        0 <= rise(x, span, max) <= max,
        0 <= fall(x, span, max) <= max,
        x * (0 - max) == -(x * max),
{
    assert(0 <= x * max <= 255 * u32::MAX) by (nonlinear_arith)
        requires
            0 <= x <= u32::MAX,
            0 <= max <= 255,
    ;
    assert(x * max <= max * span) by (nonlinear_arith)
        requires
            0 <= x <= span,
            0 <= max,
    ;
    assert(x * max / span <= max) by (nonlinear_arith)
        requires
            0 < span,
            x * max <= max * span,
    ;
    assert(0 <= x * max / span) by (nonlinear_arith)
        requires
            0 < span,
            0 <= x * max,
    ;
    assert(x * (0 - max) == -(x * max)) by (nonlinear_arith);
}

/// One `span` long rise to `max`, read off at `x`.
fn ramp_up(x: u32, span: u32, max: u8) -> (b: u8)
    requires
        x < span,
    ensures
        b == rise(x as int, span as int, max as int),
        b <= max,
{
    proof {
        lemma_ramp(x as int, span as int, max as int);
    }
    clamp_255(map(x as i64, 0, span as i64, 0, max as i64))
}

/// One fall from `max` between the times `from` and `to`, read off at `x`.
fn ramp_down(x: u32, from: u32, to: u32, max: u8) -> (b: u8)
    requires
        from <= x < to,
    ensures
        b == fall(x - from, to - from, max as int),
        b <= max,
{
    proof {
        lemma_ramp(x - from, to - from, max as int);
    }
    clamp_255(map(x as i64, from as i64, to as i64, max as i64, 0))
}

/// A rise over the first half of each period and a fall over the second.
pub open spec fn tri_wave_at(t: int, period: int, max: int) -> int {
    let x = t % period;
    let half = period / 2;
    if x < half {
        rise(x, half, max)
    } else {
        fall(x - half, period - half, max)
    }
}

pub fn tri_wave(t: u32, period: u32, max: u8) -> (b: u8)
    requires
        period > 0,
    ensures
        b == tri_wave_at(t as int, period as int, max as int),
        b <= max,
{
    let x: u32 = t % period;
    let half: u32 = period / 2;
    if x < half {
        ramp_up(x, half, max)
    } else {
        ramp_down(x, half, period, max)
    }
}

/// A rise, a time at `max`, a fall and a time in the dark, over and over.
pub open spec fn fade_at(
    t: int,
    fade_in: int,
    hold: int,
    fade_out: int,
    off: int,
    max: int,
) -> int {
    let x = t % (fade_in + hold + fade_out + off);
    if x < fade_in {
        rise(x, fade_in, max)
    } else if x < fade_in + hold {
        max
    } else if x < fade_in + hold + fade_out {
        fall(x - fade_in - hold, fade_out, max)
    } else {
        0
    }
}

pub fn fade_in_out(t: u32, fade_in: u32, hold: u32, fade_out: u32, off: u32, max: u8) -> (b: u8)
    requires
        0 < fade_in + hold + fade_out + off <= u32::MAX,
    ensures
        b == fade_at(
            t as int,
            fade_in as int,
            hold as int,
            fade_out as int,
            off as int,
            max as int,
        ),
        b <= max,
{
    let total: u32 = fade_in + hold + fade_out + off;
    let x: u32 = t % total;
    if x < fade_in {
        return ramp_up(x, fade_in, max);
    }
    let x: u32 = x - fade_in;
    if x < hold {
        return max;
    }
    let x: u32 = x - hold;
    if x < fade_out {
        return ramp_down(x, 0, fade_out, max);
    }
    0
}

/// The reading of a 32-bit millisecond clock `d` after it showed `t`.
pub open spec fn later(t: u32, d: int) -> int {
    (t + d) % 0x1_0000_0000
}

fn after(t: u32, d: u32) -> (r: u32)
    ensures
        r == later(t, d as int),
{
    t.wrapping_add(d)
}

/// Green and yellow breathe together.
pub open spec fn thinking_at(t: u32) -> Rgb {
    Rgb {
        red: 0,
        yellow: fade_at(later(t, 1200), 300, 200, 400, 300, YELLOW_MAX as int) as u8,
        green: fade_at(t as int, 300, 200, 400, 300, GREEN_MAX as int) as u8,
    }
}

pub fn thinking(t: u32) -> (rgb: Rgb)
    ensures
        rgb == thinking_at(t),
        rgb.yellow <= YELLOW_MAX,
        rgb.green <= GREEN_MAX,
{
    let period: u32 = 2400;
    let g: u8 = fade_in_out(t, 300, 200, 400, 300, GREEN_MAX);
    let y: u8 = fade_in_out(after(t, period / 2), 300, 200, 400, 300, YELLOW_MAX);
    Rgb::new(0, y, g)
}

/// Red and yellow pulse; green pulses only while red is dark.
pub open spec fn ai_at(t: u32) -> Rgb {
    let red = fade_at(later(t, 1200), 250, 100, 200, 50, 140) as u8;
    Rgb {
        red,
        yellow: fade_at(later(t, 600), 250, 100, 200, 50, 110) as u8,
        green: if red > 0 {
            0
        } else {
            fade_at(t as int, 250, 100, 200, 50, 120) as u8
        },
    }
}

pub fn ai(t: u32) -> (rgb: Rgb)
    ensures
        rgb == ai_at(t),
        rgb.yellow <= YELLOW_MAX,
        rgb.green <= GREEN_MAX,
{
    let slot: u32 = 600;
    let mut g: u8 = fade_in_out(t, 250, 100, 200, 50, 120);
    let y: u8 = fade_in_out(after(t, slot), 250, 100, 200, 50, 110);
    let r: u8 = fade_in_out(after(t, 2 * slot), 250, 100, 200, 50, 140);
    if r > 0 {
        g = 0;
    }
    Rgb::new(r, y, g)
}

/// Red flashes.
pub open spec fn error_at(t: u32) -> Rgb {
    Rgb { red: fade_at(t as int, 40, 180, 80, 180, RED_MAX as int) as u8, yellow: 0, green: 0 }
}

pub fn error(t: u32) -> (rgb: Rgb)
    ensures
        rgb == error_at(t),
{
    let r: u8 = fade_in_out(t, 40, 180, 80, 180, RED_MAX);
    Rgb::new(r, 0, 0)
}

/// The brightness within one flash of the alarm.
pub open spec fn flash_at(inside: int) -> int {
    if inside < 60 {
        rise(inside, 60, 255)
    } else if inside < 180 {
        255
    } else {
        fall(inside - 180, 80, 255)
    }
}

/// Red and yellow flash in turn.
pub open spec fn alarm_at(t: u32) -> Rgb {
    let b = flash_at(t as int % 260);
    if (t as int / 260) % 2 == 0 {
        Rgb { red: b as u8, yellow: 0, green: 0 }
    } else {
        Rgb {
            red: 0,
            yellow: if b < YELLOW_MAX {
                b as u8
            } else {
                YELLOW_MAX
            },
            green: 0,
        }
    }
}

pub fn alarm(t: u32) -> (rgb: Rgb)
    ensures
        rgb == alarm_at(t),
        rgb.yellow <= YELLOW_MAX,
{
    let span: u32 = 260;
    let phase: u32 = (t / span) % 2;
    let inside: u32 = t % span;
    let b: u8 = if inside < 60 {
        ramp_up(inside, 60, 255)
    } else if inside < 180 {
        255
    } else {
        ramp_down(inside, 180, span, 255)
    };
    if phase == 0 {
        Rgb::new(b, 0, 0)
    } else if b < YELLOW_MAX {
        Rgb::new(0, b, 0)
    } else {
        Rgb::new(0, YELLOW_MAX, 0)
    }
}

/// Sixteen seconds that show each lamp, each animated effect and each steady light in turn.
pub open spec fn demo_at(t_rel: u32, uptime: u32) -> Rgb {
    let t = t_rel as int % 16000;
    if t < 1200 {
        Rgb { red: 0, yellow: 0, green: tri_wave_at(t, 1200, GREEN_MAX as int) as u8 }
    } else if t < 2400 {
        Rgb { red: 0, yellow: tri_wave_at(t - 1200, 1200, YELLOW_MAX as int) as u8, green: 0 }
    } else if t < 3600 {
        Rgb { red: tri_wave_at(t - 2400, 1200, RED_MAX as int) as u8, yellow: 0, green: 0 }
    } else if t < 6200 {
        ai_at(uptime)
    } else if t < 8200 {
        thinking_at(uptime)
    } else if t < 10200 {
        Rgb { red: 0, yellow: YELLOW_MAX, green: 0 }
    } else if t < 12200 {
        error_at(uptime)
    } else if t < 14200 {
        alarm_at(uptime)
    } else if t < 14800 {
        Rgb { red: RED_MAX, yellow: 0, green: 0 }
    } else if t < 15400 {
        Rgb { red: 0, yellow: 0, green: GREEN_MAX }
    } else {
        Rgb { red: 0, yellow: YELLOW_MAX, green: 0 }
    }
}

pub fn demo(t_rel: u32, uptime: u32) -> (rgb: Rgb)
    ensures
        rgb == demo_at(t_rel, uptime),
        rgb.yellow <= YELLOW_MAX,
        rgb.green <= GREEN_MAX,
{
    let t: u32 = t_rel % 16000;
    if t < 1200 {
        let g: u8 = tri_wave(t, 1200, GREEN_MAX);
        Rgb::new(0, 0, g)
    } else if t < 2400 {
        let y: u8 = tri_wave(t - 1200, 1200, YELLOW_MAX);
        Rgb::new(0, y, 0)
    } else if t < 3600 {
        let r: u8 = tri_wave(t - 2400, 1200, RED_MAX);
        Rgb::new(r, 0, 0)
    } else if t < 6200 {
        ai(uptime)
    } else if t < 8200 {
        thinking(uptime)
    } else if t < 10200 {
        Rgb::new(0, YELLOW_MAX, 0)
    } else if t < 12200 {
        error(uptime)
    } else if t < 14200 {
        alarm(uptime)
    } else {
        let p: u32 = t - 14200;
        if p < 600 {
            Rgb::new(RED_MAX, 0, 0)
        } else if p < 1200 {
            Rgb::new(0, 0, GREEN_MAX)
        } else {
            Rgb::new(0, YELLOW_MAX, 0)
        }
    }
}

/// The light `t_rel` milliseconds into `mode`, on a device that has run for `uptime` milliseconds.
pub open spec fn effect_at(mode: Mode, t_rel: u32, uptime: u32) -> Rgb {
    match mode {
        Mode::Demo => demo_at(t_rel, uptime),
        Mode::Thinking => thinking_at(t_rel),
        Mode::Ai => ai_at(t_rel),
        Mode::Busy => Rgb { red: 0, yellow: YELLOW_MAX, green: 0 },
        Mode::Success => Rgb { red: 0, yellow: 0, green: GREEN_MAX },
        Mode::Error => error_at(t_rel),
        Mode::Alarm => alarm_at(t_rel),
        Mode::Off => Rgb { red: 0, yellow: 0, green: 0 },
        Mode::Red => Rgb { red: RED_MAX, yellow: 0, green: 0 },
        Mode::Yellow => Rgb { red: 0, yellow: YELLOW_MAX, green: 0 },
        Mode::Green => Rgb { red: 0, yellow: 0, green: GREEN_MAX },
    }
}

/// No effect drives a lamp past its limit.
pub fn effect(mode: Mode, t_rel: u32, uptime: u32) -> (rgb: Rgb)
    ensures
        rgb == effect_at(mode, t_rel, uptime),
        rgb.red <= RED_MAX,
        rgb.yellow <= YELLOW_MAX,
        rgb.green <= GREEN_MAX,
{
    match mode {
        Mode::Demo => demo(t_rel, uptime),
        Mode::Thinking => thinking(t_rel),
        Mode::Ai => ai(t_rel),
        Mode::Busy => Rgb::new(0, YELLOW_MAX, 0),
        Mode::Success => Rgb::new(0, 0, GREEN_MAX),
        Mode::Error => error(t_rel),
        Mode::Alarm => alarm(t_rel),
        Mode::Off => Rgb::off(),
        Mode::Red => Rgb::new(RED_MAX, 0, 0),
        Mode::Yellow => Rgb::new(0, YELLOW_MAX, 0),
        Mode::Green => Rgb::new(0, 0, GREEN_MAX),
    }
}

/// While an assistant thinks, green and yellow are equally bright and red is dark, until the
/// millisecond clock is about to wrap.
pub proof fn thinking_lamps_agree(t: u32)
    requires
        t + 1200 <= u32::MAX,
    ensures
        thinking_at(t).green == thinking_at(t).yellow,
        thinking_at(t).red == 0,
{
    assert((t + 1200) % 1200 == t as int % 1200);
}

/// In the `ai` effect a lit red lamp keeps the green one dark.
pub proof fn ai_red_excludes_green(t: u32)
    ensures
        ai_at(t).red > 0 ==> ai_at(t).green == 0,
{
}

/// The alarm never lights green, and never red and yellow at once.
pub proof fn alarm_lights_one_lamp(t: u32)
    ensures
        alarm_at(t).green == 0,
        alarm_at(t).red == 0 || alarm_at(t).yellow == 0,
{
}

/// The alarm repeats every 520 milliseconds.
pub proof fn alarm_repeats(t: u32)
    requires
        t + 520 <= u32::MAX,
    ensures
        alarm_at((t + 520) as u32) == alarm_at(t),
{
    assert((t + 520) % 260 == t as int % 260);
    assert((t + 520) / 260 == t as int / 260 + 2);
}

/// The demonstration starts over after sixteen seconds.
pub proof fn demo_repeats(t_rel: u32, uptime: u32)
    requires
        t_rel + 16000 <= u32::MAX,
    ensures
        demo_at((t_rel + 16000) as u32, uptime) == demo_at(t_rel, uptime),
{
    assert((t_rel + 16000) % 16000 == t_rel as int % 16000);
}

/// Every animated wave repeats with its period.
pub proof fn fade_repeats(t: int, fade_in: int, hold: int, fade_out: int, off: int, max: int)
    requires
        0 < fade_in + hold + fade_out + off,
    ensures
        fade_at(t + fade_in + hold + fade_out + off, fade_in, hold, fade_out, off, max) == fade_at(
            t,
            fade_in,
            hold,
            fade_out,
            off,
            max,
        ),
{
    let total = fade_in + hold + fade_out + off;
    vstd::arithmetic::div_mod::lemma_mod_add_multiples_vanish(t, total);
    assert(t + fade_in + hold + fade_out + off == total + t);
}

/// A mode with no animation shows the same light at all times.
pub proof fn steady_modes_ignore_time(mode: Mode, t1: u32, up1: u32, t2: u32, up2: u32)
    requires
        mode is Busy || mode is Success || mode is Off || mode is Red || mode is Yellow
            || mode is Green,
    ensures
        effect_at(mode, t1, up1) == effect_at(mode, t2, up2),
{
}

proof fn lemma_rise_is_rounded_down(x: int, span: int, max: int)
    requires
        0 <= x <= span,
        0 < span <= u32::MAX,
        0 <= max <= 255,
    ensures
        0 <= rise(x, span, max) <= max,
        rise(x, span, max) * span <= x * max < (rise(x, span, max) + 1) * span,
        fall(x, span, max) == max - rise(x, span, max),
{
    lemma_ramp(x, span, max);
    let a = x * max;
    let b = rise(x, span, max);
    vstd::arithmetic::div_mod::lemma_fundamental_div_mod(a, span);
    vstd::arithmetic::div_mod::lemma_mod_bound(a, span);
    assert(b * span == span * (a / span)) by (nonlinear_arith)
        requires
            b == a / span,
    ;
    assert((b + 1) * span == b * span + span) by (nonlinear_arith);
}

/// In each of its periods a fading lamp rises in proportion to the time, stays at its brightest,
/// falls in proportion to the time, and is dark until the period ends. Fractions are rounded down
/// on the way up and up on the way down.
pub proof fn a_fade_is_linear(t: int, fade_in: int, hold: int, fade_out: int, off: int, max: int)
    requires
        0 <= fade_in,
        0 <= hold,
        0 <= fade_out,
        0 <= off,
        0 < fade_in + hold + fade_out + off <= u32::MAX,
        0 <= max <= 255,
    ensures
        ({
            let x = t % (fade_in + hold + fade_out + off);
            let b = fade_at(t, fade_in, hold, fade_out, off, max);
            let gone = x - fade_in - hold;
            &&& 0 <= b <= max
            &&& x < fade_in ==> b * fade_in <= x * max < (b + 1) * fade_in
            &&& fade_in <= x < fade_in + hold ==> b == max
            &&& 0 <= gone < fade_out ==> (max - b) * fade_out <= gone * max < (max - b + 1)
                * fade_out
            &&& gone >= fade_out && x >= fade_in + hold ==> b == 0
        }),
{
    let total = fade_in + hold + fade_out + off;
    vstd::arithmetic::div_mod::lemma_mod_bound(t, total);
    let x = t % total;
    if x < fade_in {
        lemma_rise_is_rounded_down(x, fade_in, max);
    } else if x >= fade_in + hold && x < fade_in + hold + fade_out {
        lemma_rise_is_rounded_down(x - fade_in - hold, fade_out, max);
    }
}

/// A triangular wave repeats, rises in proportion to the time over the first half of its period,
/// and falls in proportion to the time over the second.
pub proof fn a_wave_is_linear(t: int, period: int, max: int)
    requires
        0 < period <= u32::MAX,
        0 <= max <= 255,
    ensures
        ({
            let x = t % period;
            let half = period / 2;
            let b = tri_wave_at(t, period, max);
            &&& 0 <= b <= max
            &&& x < half ==> b * half <= x * max < (b + 1) * half
            &&& x >= half ==> (max - b) * (period - half) <= (x - half) * max < (max - b + 1) * (
            period - half)
            &&& tri_wave_at(t + period, period, max) == b
        }),
{
    vstd::arithmetic::div_mod::lemma_mod_bound(t, period);
    vstd::arithmetic::div_mod::lemma_mod_add_multiples_vanish(t, period);
    assert(t + period == period + t);
    let x = t % period;
    let half = period / 2;
    if x < half {
        lemma_rise_is_rounded_down(x, half, max);
    } else {
        lemma_rise_is_rounded_down(x - half, period - half, max);
    }
}

/// Interpolation goes through both points of its line. Anywhere else, between them or beyond, and
/// whichever way the line runs, it errs by less than one, toward the first of them.
pub proof fn interpolation_follows_its_line(
    x: int,
    in_min: int,
    in_max: int,
    out_min: int,
    out_max: int,
)
    requires
        in_min != in_max,
    ensures
        on_line(in_min, in_min, in_max, out_min, out_max) == out_min,
        on_line(in_max, in_min, in_max, out_min, out_max) == out_max,
        ({
            let y = on_line(x, in_min, in_max, out_min, out_max) - out_min;
            let exact = (x - in_min) * (out_max - out_min);
            let span = in_max - in_min;
            let width = if span > 0 {
                span
            } else {
                -span
            };
            &&& exact >= 0 ==> 0 <= y * span <= exact < y * span + width
            &&& exact <= 0 ==> y * span - width < exact <= y * span <= 0
        }),
{
    let rise = out_max - out_min;
    assert((in_min - in_min) * rise == 0);
    lemma_quotient(0, in_max - in_min);
    lemma_quotient((x - in_min) * rise, in_max - in_min);
    lemma_quotient((in_max - in_min) * rise, in_max - in_min);
    lemma_whole_quotient(in_max - in_min, rise);
}

proof fn lemma_quotient(a: int, b: int)
    requires
        b != 0,
    ensures
        ({
            let y = quotient(a, b);
            let width = if b > 0 {
                b
            } else {
                -b
            };
            &&& a >= 0 ==> 0 <= y * b <= a < y * b + width
            &&& a <= 0 ==> y * b - width < a <= y * b <= 0
        }),
{
    let y = quotient(a, b);
    let m = if a >= 0 {
        a
    } else {
        -a
    };
    let q = m / b;
    let r = m % b;
    assert(m == b * q + r && 0 <= r && r < if b > 0 {
        b
    } else {
        -b
    }) by (nonlinear_arith)
        requires
            q == m / b,
            r == m % b,
            b != 0,
    ;
    assert(b * q >= 0) by (nonlinear_arith)
        requires
            m == b * q + r,
            m >= 0,
            b != 0,
            r < if b > 0 {
                b
            } else {
                -b
            },
    ;
    assert(q * b == b * q) by (nonlinear_arith);
    assert((-q) * b == -(b * q)) by (nonlinear_arith);
}

proof fn lemma_whole_quotient(b: int, k: int)
    requires
        b != 0,
    ensures
        quotient(b * k, b) == k,
        quotient(0, b) == 0,
{
    lemma_quotient(b * k, b);
    lemma_quotient(0, b);
    let y = quotient(b * k, b);
    assert(y == k) by (nonlinear_arith)
        requires
            b != 0,
            y * b - b * k < if b > 0 {
                b
            } else {
                -b
            },
            b * k - y * b < if b > 0 {
                b
            } else {
                -b
            },
    ;
    let z = quotient(0, b);
    assert(z == 0) by (nonlinear_arith)
        requires
            b != 0,
            z * b == 0,
    ;
}

/// The error light repeats every 480 milliseconds for as long as it lasts: in each of these red
/// rises for 40, is full until 220, falls until 300 and is dark after that. Nothing else shines.
pub proof fn an_error_flashes_red_again_and_again(t: u32)
    ensures
        ({
            let x = t as int % 480;
            let b = error_at(t).red as int;
            &&& error_at(t).yellow == 0 && error_at(t).green == 0
            &&& x < 40 ==> b * 40 <= x * 255 < (b + 1) * 40
            &&& 40 <= x < 220 ==> b == 255
            &&& 220 <= x < 300 ==> (255 - b) * 80 <= (x - 220) * 255 < (256 - b) * 80
            &&& 300 <= x ==> b == 0
        }),
        t + 480 <= u32::MAX ==> error_at((t + 480) as u32) == error_at(t),
{
    a_fade_is_linear(t as int, 40, 180, 80, 180, 255);
    assert((t + 480) % 480 == t as int % 480);
}

/// The thinking light repeats every 1200 milliseconds: green rises for 300, is full until 500,
/// falls until 900 and is dark after that. Red never shines.
pub proof fn thinking_breathes(t: u32)
    ensures
        ({
            let x = t as int % 1200;
            let b = thinking_at(t).green as int;
            &&& thinking_at(t).red == 0
            &&& x < 300 ==> b * 300 <= x * 220 < (b + 1) * 300
            &&& 300 <= x < 500 ==> b == 220
            &&& 500 <= x < 900 ==> (220 - b) * 400 <= (x - 500) * 220 < (221 - b) * 400
            &&& 900 <= x ==> b == 0
        }),
{
    a_fade_is_linear(t as int, 300, 200, 400, 300, 220);
}

/// While an assistant thinks, yellow shows what green shows 1200 milliseconds later on the 32-bit
/// clock, and green repeats after as long.
pub proof fn thinking_lamps_follow_each_other(t: u32)
    ensures
        thinking_at(t).yellow == thinking_at(((t + 1200) % 0x1_0000_0000) as u32).green,
        t + 1200 <= u32::MAX ==> thinking_at((t + 1200) as u32).green == thinking_at(t).green,
{
    assert((t + 1200) % 1200 == t as int % 1200);
}

/// The light of a working assistant repeats every 600 milliseconds. Red, yellow and green each rise
/// for 250, are full until 350, fall until 550 and are dark after that, to 140, 110 and 120. Yellow
/// is 600 and red 1200 milliseconds ahead on the 32-bit clock; green gives way to red.
pub proof fn a_working_light_pulses(t: u32)
    ensures
        ({
            let x = t as int % 600;
            let y = (t + 600) % 0x1_0000_0000 % 600;
            let z = (t + 1200) % 0x1_0000_0000 % 600;
            let green = ai_at(t).green as int;
            let yellow = ai_at(t).yellow as int;
            let red = ai_at(t).red as int;
            &&& y < 250 ==> yellow * 250 <= y * 110 < (yellow + 1) * 250
            &&& 250 <= y < 350 ==> yellow == 110
            &&& 350 <= y < 550 ==> (110 - yellow) * 200 <= (y - 350) * 110 < (111 - yellow) * 200
            &&& 550 <= y ==> yellow == 0
            &&& z < 250 ==> red * 250 <= z * 140 < (red + 1) * 250
            &&& 250 <= z < 350 ==> red == 140
            &&& 350 <= z < 550 ==> (140 - red) * 200 <= (z - 350) * 140 < (141 - red) * 200
            &&& 550 <= z ==> red == 0
            &&& red > 0 ==> green == 0
            &&& red == 0 && x < 250 ==> green * 250 <= x * 120 < (green + 1) * 250
            &&& red == 0 && 250 <= x < 350 ==> green == 120
            &&& red == 0 && 350 <= x < 550 ==> (120 - green) * 200 <= (x - 350) * 120 < (121
                - green) * 200
            &&& red == 0 && 550 <= x ==> green == 0
        }),
{
    a_fade_is_linear(t as int, 250, 100, 200, 50, 120);
    a_fade_is_linear((t + 600) % 0x1_0000_0000, 250, 100, 200, 50, 110);
    a_fade_is_linear((t + 1200) % 0x1_0000_0000, 250, 100, 200, 50, 140);
}

/// The alarm flashes every 260 milliseconds, in turn red and yellow: the lamp rises for 60, is full
/// until 180 and falls until the next. Yellow stops at its limit.
pub proof fn an_alarm_flashes_in_turn(t: u32)
    ensures
        ({
            let x = t as int % 260;
            let first = t as int / 260 % 2 == 0;
            let red = alarm_at(t).red as int;
            let yellow = alarm_at(t).yellow as int;
            &&& alarm_at(t).green == 0
            &&& first ==> yellow == 0
            &&& !first ==> red == 0 && yellow <= 220
            &&& first && x < 60 ==> red * 60 <= x * 255 < (red + 1) * 60
            &&& first && 60 <= x < 180 ==> red == 255
            &&& first && 180 <= x ==> (255 - red) * 80 <= (x - 180) * 255 < (256 - red) * 80
            &&& !first && x < 60 && yellow < 220 ==> yellow * 60 <= x * 255 < (yellow + 1) * 60
            &&& !first && x < 60 && yellow == 220 ==> 220 * 60 <= x * 255
            &&& !first && 60 <= x < 180 ==> yellow == 220
            &&& !first && 180 <= x && yellow < 220 ==> (255 - yellow) * 80 <= (x - 180) * 255 < (256
                - yellow) * 80
            &&& !first && 180 <= x && yellow == 220 ==> (x - 180) * 255 < 36 * 80
        }),
{
    let x = t as int % 260;
    if x < 60 {
        lemma_rise_is_rounded_down(x, 60, 255);
    } else if x >= 180 {
        lemma_rise_is_rounded_down(x - 180, 80, 255);
    }
}

/// Every sixteen seconds the demonstration begins with each lamp in turn, which comes and goes in
/// 1200 milliseconds: green, yellow, red.
pub proof fn the_demonstration_begins_with_the_lamps(t: u32, up: u32)
    ensures
        ({
            let x = t as int % 16000;
            let b = demo_at(t, up).green as int;
            &&& x < 1200 ==> demo_at(t, up).red == 0 && demo_at(t, up).yellow == 0
            &&& x < 600 ==> b * 600 <= x * 220 < (b + 1) * 600
            &&& 600 <= x < 1200 ==> (220 - b) * 600 <= (x - 600) * 220 < (221 - b) * 600
        }),
        ({
            let x = t as int % 16000;
            let b = demo_at(t, up).yellow as int;
            &&& 1200 <= x < 2400 ==> demo_at(t, up).red == 0 && demo_at(t, up).green == 0
            &&& 1200 <= x < 1800 ==> b * 600 <= (x - 1200) * 220 < (b + 1) * 600
            &&& 1800 <= x < 2400 ==> (220 - b) * 600 <= (x - 1800) * 220 < (221 - b) * 600
        }),
        ({
            let x = t as int % 16000;
            let b = demo_at(t, up).red as int;
            &&& 2400 <= x < 3600 ==> demo_at(t, up).yellow == 0 && demo_at(t, up).green == 0
            &&& 2400 <= x < 3000 ==> b * 600 <= (x - 2400) * 255 < (b + 1) * 600
            &&& 3000 <= x < 3600 ==> (255 - b) * 600 <= (x - 3000) * 255 < (256 - b) * 600
        }),
{
    let x = t as int % 16000;
    if x < 1200 {
        lemma_demo_lamp(x, 220);
    } else if x < 2400 {
        lemma_demo_lamp(x - 1200, 220);
    } else if x < 3600 {
        lemma_demo_lamp(x - 2400, 255);
    }
}

proof fn lemma_demo_lamp(x: int, max: int)
    requires
        0 <= x < 1200,
        0 <= max <= 255,
    ensures
        ({
            let b = tri_wave_at(x, 1200, max);
            &&& 0 <= b <= max
            &&& x < 600 ==> b * 600 <= x * max < (b + 1) * 600
            &&& 600 <= x ==> (max - b) * 600 <= (x - 600) * max < (max - b + 1) * 600
        }),
{
    a_wave_is_linear(x, 1200, max);
    assert(x % 1200 == x) by {
        vstd::arithmetic::div_mod::lemma_small_mod(x as nat, 1200);
    }
}

/// After the lamps the demonstration shows the working, the thinking, the busy, the error and the
/// alarm light as they are at that time of the device, then red, green and yellow.
pub proof fn the_demonstration_shows_the_other_lights(t: u32, up: u32)
    ensures
        ({
            let x = t as int % 16000;
            let d = demo_at(t, up);
            &&& 3600 <= x < 6200 ==> d == ai_at(up)
            &&& 6200 <= x < 8200 ==> d == thinking_at(up)
            &&& 8200 <= x < 10200 ==> d == (Rgb { red: 0, yellow: 220, green: 0 })
            &&& 10200 <= x < 12200 ==> d == error_at(up)
            &&& 12200 <= x < 14200 ==> d == alarm_at(up)
            &&& 14200 <= x < 14800 ==> d == (Rgb { red: 255, yellow: 0, green: 0 })
            &&& 14800 <= x < 15400 ==> d == (Rgb { red: 0, yellow: 0, green: 220 })
            &&& 15400 <= x ==> d == (Rgb { red: 0, yellow: 220, green: 0 })
        }),
{
}

/// Each animated mode shows its own light by the time since it was set, the demonstration also by
/// the time of the device, and each steady one its colour at all times.
pub proof fn each_mode_has_its_light(t: u32, up: u32)
    ensures
        effect_at(Mode::Demo, t, up) == demo_at(t, up),
        effect_at(Mode::Thinking, t, up) == thinking_at(t),
        effect_at(Mode::Ai, t, up) == ai_at(t),
        effect_at(Mode::Error, t, up) == error_at(t),
        effect_at(Mode::Alarm, t, up) == alarm_at(t),
        effect_at(Mode::Busy, t, up) == (Rgb { red: 0, yellow: 220, green: 0 }),
        effect_at(Mode::Success, t, up) == (Rgb { red: 0, yellow: 0, green: 220 }),
        effect_at(Mode::Off, t, up) == (Rgb { red: 0, yellow: 0, green: 0 }),
        effect_at(Mode::Red, t, up) == (Rgb { red: 255, yellow: 0, green: 0 }),
        effect_at(Mode::Yellow, t, up) == (Rgb { red: 0, yellow: 220, green: 0 }),
        effect_at(Mode::Green, t, up) == (Rgb { red: 0, yellow: 0, green: 220 }),
{
}

} // verus!
