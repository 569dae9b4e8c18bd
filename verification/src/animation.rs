//! Colour animation: pure functions from a base colour, the elapsed time and
//! the animation settings to the colour to show.
//!
//! Two of the styles follow a sine wave. The library names the phase of the
//! wave as a fraction of a turn and takes the sine of that phase from the
//! caller, in millionths; everything else is computed here, exactly.

use vstd::prelude::*;

use crate::color::{color_to_rgb, spec_color_to_rgb, Color};
use crate::hsl::{
    hsl_to_rgb, hue_sextants, lemma_bounds_of_rgb, lemma_circle_of_rgb, lemma_hsl_roundtrip,
    lemma_hue_to_rgb_exact, lemma_mul_bounds, max3, min3, rgb_to_hsl, spec_hsl_to_rgb,
    spec_rgb_to_hsl, upper_bound_num, Hsl, Ratio,
};
use crate::style::{AnimationSpeed, AnimationStyle};

verus! {

/// The number that stands for 1 where a fraction is given in millionths.
pub const SCALE: i64 = 1_000_000;

/// A sine in millionths, held to the range from -1 to 1.
pub open spec fn clamp_sine(sine: int) -> int {
    if sine < -SCALE {
        -(SCALE as int)
    } else if sine > SCALE {
        SCALE as int
    } else {
        sine
    }
}

/// A channel times the factor `num / den`, rounded down and capped at 255.
pub open spec fn scale_channel(c: int, num: int, den: int) -> int {
    if (c * num) / den < 255 {
        (c * num) / den
    } else {
        255
    }
}

/// A colour with each channel scaled by the factor `num / den`.
pub open spec fn scale_color(color: Color, num: int, den: int) -> Color {
    let (r, g, b) = spec_color_to_rgb(color);
    Color::Rgb(
        scale_channel(r as int, num, den) as u8,
        scale_channel(g as int, num, den) as u8,
        scale_channel(b as int, num, den) as u8,
    )
}

/// The phase of the brightness pulse, in turns: the part of the current
/// pulse period that has passed.
pub open spec fn spec_pulse_phase(elapsed_ms: u64, speed: AnimationSpeed) -> Ratio {
    Ratio {
        num: (elapsed_ms % speed.spec_pulse_period_ms()) as u128,
        den: speed.spec_pulse_period_ms() as u128,
    }
}

/// The phase of the brightness wave at column `x` of `width`, in turns: the
/// part `x / width` of the line that lies before the column, plus the part
/// of the current wave period that has passed. On an empty line the first
/// part is 0.
pub open spec fn spec_wave_phase(
    elapsed_ms: u64,
    speed: AnimationSpeed,
    x: usize,
    width: usize,
) -> Ratio {
    let period = speed.spec_wave_period_ms();
    let t = elapsed_ms % period;
    if width > 0 {
        Ratio { num: (x * period + t * width) as u128, den: (width * period) as u128 }
    } else {
        Ratio { num: t as u128, den: period as u128 }
    }
}

/// The phase whose sine the style needs, if it needs one.
pub open spec fn spec_animation_phase(
    style: AnimationStyle,
    speed: AnimationSpeed,
    elapsed_ms: u64,
    x: usize,
    width: usize,
) -> Option<Ratio> {
    match style {
        AnimationStyle::Pulsing => Some(spec_pulse_phase(elapsed_ms, speed)),
        AnimationStyle::Wave => Some(spec_wave_phase(elapsed_ms, speed, x, width)),
        _ => None,
    }
}

/// The hue `hue` turned further by the part `t / cycle` of a full turn, and
/// brought back below 360 degrees.
pub open spec fn spec_shift_hue(hue: Ratio, t: int, cycle: int) -> Ratio {
    let num = hue.num * cycle + 360 * t * hue.den;
    let den = hue.den * cycle;
    Ratio {
        num: (if num >= 360 * den {
            num - 360 * den
        } else {
            num
        }) as u128,
        den: den as u128,
    }
}

/// The base colour with its hue turned by the part of the current shift
/// cycle that has passed.
pub open spec fn spec_apply_shifting(color: Color, elapsed_ms: u64, speed: AnimationSpeed) -> Color {
    let (r, g, b) = spec_color_to_rgb(color);
    let hsl = spec_rgb_to_hsl(r, g, b);
    let cycle = speed.spec_shift_cycle_ms();
    let shifted = Hsl {
        hue: spec_shift_hue(hsl.hue, (elapsed_ms % cycle) as int, cycle as int),
        saturation: hsl.saturation,
        lightness: hsl.lightness,
    };
    let (nr, ng, nb) = spec_hsl_to_rgb(shifted);
    Color::Rgb(nr, ng, nb)
}

/// The base colour at the brightness `0.3 + 0.7 * (0.5 + 0.5 * s)`, where `s`
/// is the sine of the pulse phase.
pub open spec fn spec_apply_pulsing(color: Color, sine: i32) -> Color {
    scale_color(color, 13 * SCALE + 7 * clamp_sine(sine as int), 20 * SCALE)
}

/// The base colour at the brightness `0.6 + 0.4 * s`, where `s` is the sine
/// of the wave phase.
pub open spec fn spec_apply_wave(color: Color, sine: i32) -> Color {
    scale_color(color, 3 * SCALE + 2 * clamp_sine(sine as int), 5 * SCALE)
}

/// The base colour at the brightness `1 + stimulus`, each channel capped at
/// 255.
pub open spec fn spec_apply_reactive(color: Color, stimulus: u32) -> Color {
    scale_color(color, SCALE + stimulus, SCALE as int)
}

/// The colour that an animation style makes of a base colour.
pub open spec fn spec_apply_animation(
    base_color: Color,
    style: AnimationStyle,
    speed: AnimationSpeed,
    elapsed_ms: u64,
    stimulus: u32,
    sine: i32,
) -> Color {
    match style {
        AnimationStyle::Off => base_color,
        AnimationStyle::Shifting => spec_apply_shifting(base_color, elapsed_ms, speed),
        AnimationStyle::Pulsing => spec_apply_pulsing(base_color, sine),
        AnimationStyle::Wave => spec_apply_wave(base_color, sine),
        AnimationStyle::Reactive => spec_apply_reactive(base_color, stimulus),
    }
}

/// A channel times `num / den`, rounded down and capped at 255.
fn scaled(c: u8, num: u64, den: u64) -> (v: u8)
    requires
        den > 0,
        num <= 0x1_0000_0000_0000,
    ensures
        v == scale_channel(c as int, num as int, den as int),
{
    assert(c * num <= 255 * 0x1_0000_0000_0000) by (nonlinear_arith)
        requires
            0 <= c <= 255,
            0 <= num <= 0x1_0000_0000_0000,
    ;
    let q: u64 = (c as u64 * num) / den;
    if q < 255 {
        q as u8
    } else {
        255
    }
}

/// A colour with each channel scaled by `num / den`.
fn scaled_color(color: Color, num: u64, den: u64) -> (c: Color)
    requires
        den > 0,
        num <= 0x1_0000_0000_0000,
    ensures
        c == scale_color(color, num as int, den as int),
{
    let (r, g, b) = color_to_rgb(color);
    Color::Rgb(scaled(r, num, den), scaled(g, num, den), scaled(b, num, den))
}

/// A sine in millionths, held to the range from -1 to 1.
fn clamped_sine(sine: i32) -> (s: i64)
    ensures
        s == clamp_sine(sine as int),
{
    if (sine as i64) < -SCALE {
        -SCALE
    } else if (sine as i64) > SCALE {
        SCALE
    } else {
        sine as i64
    }
}

/// The phase of the brightness pulse, as a fraction of a turn.
pub fn pulse_phase(elapsed_ms: u64, speed: AnimationSpeed) -> (phase: Ratio)
    ensures
        phase == spec_pulse_phase(elapsed_ms, speed),
        phase.num < phase.den,
{
    let period = speed.pulse_period_ms();
    Ratio { num: (elapsed_ms % period) as u128, den: period as u128 }
}

/// The phase of the brightness wave at column `x` of `width`, as a fraction
/// of a turn.
pub fn wave_phase(elapsed_ms: u64, speed: AnimationSpeed, x: usize, width: usize) -> (phase: Ratio)
    ensures
        phase == spec_wave_phase(elapsed_ms, speed, x, width),
        phase.den > 0,
{
    let period = speed.wave_period_ms() as u128;
    let t = (elapsed_ms % speed.wave_period_ms()) as u128;
    if width > 0 {
        let w = width as u128;
        let xx = x as u128;
        proof {
            lemma_mul_bounds(xx as int, period as int, 0xFFFF_FFFF_FFFF_FFFF, 4000);
            lemma_mul_bounds(t as int, w as int, 4000, 0xFFFF_FFFF_FFFF_FFFF);
            lemma_mul_bounds(w as int, period as int, 0xFFFF_FFFF_FFFF_FFFF, 4000);
            assert(w * period > 0) by (nonlinear_arith)
                requires
                    w > 0,
                    period > 0,
            ;
        }
        Ratio { num: xx * period + t * w, den: w * period }
    } else {
        Ratio { num: t, den: period }
    }
}

/// The phase whose sine `apply_animation` needs for the style, as a fraction
/// of a turn; `None` for a style that follows no sine.
pub fn animation_phase(
    style: AnimationStyle,
    speed: AnimationSpeed,
    elapsed_ms: u64,
    x: usize,
    width: usize,
) -> (phase: Option<Ratio>)
    ensures
        phase == spec_animation_phase(style, speed, elapsed_ms, x, width),
        phase is Some ==> phase->0.den > 0,
{
    match style {
        AnimationStyle::Pulsing => Some(pulse_phase(elapsed_ms, speed)),
        AnimationStyle::Wave => Some(wave_phase(elapsed_ms, speed, x, width)),
        _ => None,
    }
}

/// Shift hue over time.
pub fn apply_shifting(color: Color, elapsed_ms: u64, speed: AnimationSpeed) -> (c: Color)
    ensures
        c == spec_apply_shifting(color, elapsed_ms, speed),
{
    let (r, g, b) = color_to_rgb(color);
    let hsl = rgb_to_hsl(r, g, b);
    let cycle = speed.shift_cycle_ms() as u128;
    let t = (elapsed_ms % speed.shift_cycle_ms()) as u128;
    let hn = hsl.hue.num;
    let hd = hsl.hue.den;
    proof {
        assert(hd <= 255);
        lemma_mul_bounds(hn as int, cycle as int, 91800, 30000);
        lemma_mul_bounds((360 * t) as int, hd as int, 10800000, 255);
        lemma_mul_bounds(hd as int, cycle as int, 255, 30000);
        assert(hd * cycle > 0) by (nonlinear_arith)
            requires
                hd > 0,
                cycle > 0,
        ;
        assert(hn * cycle + 360 * t * hd < 720 * (hd * cycle)) by (nonlinear_arith)
            requires
                hn < 360 * hd,
                t < cycle,
                hd > 0,
                cycle > 0,
        ;
    }
    let num = hn * cycle + 360 * t * hd;
    let den = hd * cycle;
    let shifted = Hsl {
        hue: Ratio {
            num: if num >= 360 * den {
                num - 360 * den
            } else {
                num
            },
            den,
        },
        saturation: hsl.saturation,
        lightness: hsl.lightness,
    };
    let (nr, ng, nb) = hsl_to_rgb(shifted);
    Color::Rgb(nr, ng, nb)
}

/// Pulse brightness using a sine wave. `sine` is the sine of the pulse
/// phase, in millionths.
pub fn apply_pulsing(color: Color, sine: i32) -> (c: Color)
    ensures
        c == spec_apply_pulsing(color, sine),
{
    let s = clamped_sine(sine);
    scaled_color(color, (13 * SCALE + 7 * s) as u64, (20 * SCALE) as u64)
}

/// Wave pattern flowing horizontally. `sine` is the sine of the wave phase,
/// in millionths.
pub fn apply_wave(color: Color, sine: i32) -> (c: Color)
    ensures
        c == spec_apply_wave(color, sine),
{
    let s = clamped_sine(sine);
    scaled_color(color, (3 * SCALE + 2 * s) as u64, (5 * SCALE) as u64)
}

/// Apply flash intensity for reactive animation. `stimulus` is the flash
/// intensity in millionths.
pub fn apply_reactive(color: Color, stimulus: u32) -> (c: Color)
    ensures
        c == spec_apply_reactive(color, stimulus),
{
    scaled_color(color, SCALE as u64 + stimulus as u64, SCALE as u64)
}

/// Apply animation transformations to a color.
///
/// `stimulus` is the flash intensity, from 0 to 1, in millionths. `sine` is
/// the sine, in millionths, of the phase that `animation_phase` gives for
/// the same style, speed, time and position; a style without a phase does
/// not read it.
pub fn apply_animation(
    base_color: Color,
    animation_style: AnimationStyle,
    speed: AnimationSpeed,
    elapsed_ms: u64,
    x: usize,
    width: usize,
    stimulus: u32,
    sine: i32,
) -> (c: Color)
    ensures
        c == spec_apply_animation(base_color, animation_style, speed, elapsed_ms, stimulus, sine),
{
    match animation_style {
        AnimationStyle::Off => base_color,
        AnimationStyle::Shifting => apply_shifting(base_color, elapsed_ms, speed),
        AnimationStyle::Pulsing => apply_pulsing(base_color, sine),
        AnimationStyle::Wave => apply_wave(base_color, sine),
        AnimationStyle::Reactive => apply_reactive(base_color, stimulus),
    }
}

/// Check if colon should be visible in the blink cycle.
/// Returns true during the "on" phase (first 500ms of each second).
pub fn is_colon_visible(elapsed_ms: u64) -> (visible: bool)
    ensures
        visible == (elapsed_ms % 1000 < 500),
{
    elapsed_ms % 1000 < 500
}

/// The colour as a 24-bit colour with the same channels.
pub open spec fn as_rgb(color: Color) -> Color {
    let (r, g, b) = spec_color_to_rgb(color);
    Color::Rgb(r, g, b)
}

/// After a whole number of shift cycles the shifting animation shows the
/// base colour.
pub proof fn lemma_shifting_whole_cycles(color: Color, elapsed_ms: u64, speed: AnimationSpeed)
    requires
        elapsed_ms % speed.spec_shift_cycle_ms() == 0,
    ensures
        spec_apply_shifting(color, elapsed_ms, speed) == as_rgb(color),
{
    let (r, g, b) = spec_color_to_rgb(color);
    let hsl = spec_rgb_to_hsl(r, g, b);
    let c = speed.spec_shift_cycle_ms() as int;
    let max = max3(r as int, g as int, b as int);
    let min = min3(r as int, g as int, b as int);
    let d = max - min;
    let shifted = Hsl {
        hue: spec_shift_hue(hsl.hue, 0, c),
        saturation: hsl.saturation,
        lightness: hsl.lightness,
    };
    lemma_hsl_roundtrip(r, g, b);
    if d != 0 {
        let sd = hsl.saturation.den as int;
        let k = hue_sextants(r as int, g as int, b as int);
        let qn = upper_bound_num(max + min, 510, d, sd);
        let pn = 2 * (max + min) * sd - qn;
        let den = 510 * sd;
        lemma_bounds_of_rgb(r, g, b);
        lemma_circle_of_rgb(r, g, b);
        let hn = (60 * k) * c;
        let hh = 60 * (d * c);
        assert(hsl.hue.num * c + 360 * 0 * hsl.hue.den == hn);
        assert(hn < 360 * (d * c)) by (nonlinear_arith)
            requires
                hn == (60 * k) * c,
                k < 6 * d,
                c > 0,
        ;
        assert(0 <= hn) by (nonlinear_arith)
            requires
                hn == (60 * k) * c,
                0 <= k,
                c > 0,
        ;
        assert(0 < d * c <= 255 * 30000) by (nonlinear_arith)
            requires
                0 < d <= 255,
                0 < c <= 30000,
        ;
        assert(shifted.hue.num as int == hn);
        assert(60 * (shifted.hue.den as int) == hh);
        assert(hh == 60 * d * c) by (nonlinear_arith)
            requires
                hh == 60 * (d * c),
        ;
        assert(hn == 60 * k * c);
        assert(hn + 2 * hh == 60 * (k + 2 * d) * c) by (nonlinear_arith)
            requires
                hn == 60 * k * c,
                hh == 60 * d * c,
        ;
        assert(hn - 2 * hh == 60 * (k - 2 * d) * c) by (nonlinear_arith)
            requires
                hn == 60 * k * c,
                hh == 60 * d * c,
        ;
        lemma_hue_to_rgb_exact(min, max, sd, k + 2 * d, c, pn, qn, den, hn + 2 * hh, hh);
        lemma_hue_to_rgb_exact(min, max, sd, k, c, pn, qn, den, hn, hh);
        lemma_hue_to_rgb_exact(min, max, sd, k - 2 * d, c, pn, qn, den, hn - 2 * hh, hh);
    }
}

/// The shifting animation repeats with the shift cycle of its speed.
pub proof fn lemma_shifting_periodic(color: Color, elapsed_ms: u64, speed: AnimationSpeed)
    requires
        elapsed_ms + speed.spec_shift_cycle_ms() <= u64::MAX,
    ensures
        spec_apply_shifting(color, (elapsed_ms + speed.spec_shift_cycle_ms()) as u64, speed)
            == spec_apply_shifting(color, elapsed_ms, speed),
{
    let c = speed.spec_shift_cycle_ms() as int;
    let e = elapsed_ms as int;
    assert((e + c) % c == e % c) by (nonlinear_arith)
        requires
            c > 0,
            e >= 0,
    ;
}

/// Without a stimulus the reactive animation shows the base colour.
pub proof fn lemma_reactive_at_rest(color: Color)
    ensures
        spec_apply_reactive(color, 0) == as_rgb(color),
{
    let (r, g, b) = spec_color_to_rgb(color);
    lemma_scale_by_one(r as int, SCALE as int);
    lemma_scale_by_one(g as int, SCALE as int);
    lemma_scale_by_one(b as int, SCALE as int);
}

/// At the full stimulus the reactive animation doubles each channel and
/// caps it at 255.
pub proof fn lemma_reactive_full(c: u8)
    ensures
        scale_channel(c as int, SCALE + SCALE, SCALE as int) == if 2 * c < 255 {
            2 * c
        } else {
            255
        },
{
    assert((c * (SCALE + SCALE)) / (SCALE as int) == 2 * c) by (nonlinear_arith)
        requires
            SCALE == 1_000_000,
    ;
}

/// The reactive animation never darkens a channel.
pub proof fn lemma_reactive_brightens(c: u8, stimulus: u32)
    ensures
        c <= scale_channel(c as int, SCALE + stimulus, SCALE as int) <= 255,
{
    let num = SCALE + stimulus;
    assert((c * num) / (SCALE as int) >= c) by (nonlinear_arith)
        requires
            num >= SCALE,
            SCALE == 1_000_000,
            c >= 0,
    ;
}

/// A factor of one leaves a channel as it is.
pub proof fn lemma_scale_by_one(c: int, den: int)
    requires
        0 <= c <= 255,
        den > 0,
    ensures
        scale_channel(c, den, den) == c,
{
    assert((c * den) / den == c) by (nonlinear_arith)
        requires
            den > 0,
    ;
}

/// At the crest of the sine the pulsing and the wave animation show the
/// base colour.
pub proof fn lemma_crest_shows_base(color: Color)
    ensures
        spec_apply_pulsing(color, 1_000_000) == as_rgb(color),
        spec_apply_wave(color, 1_000_000) == as_rgb(color),
{
    let (r, g, b) = spec_color_to_rgb(color);
    lemma_scale_by_one(r as int, 20 * SCALE);
    lemma_scale_by_one(g as int, 20 * SCALE);
    lemma_scale_by_one(b as int, 20 * SCALE);
    lemma_scale_by_one(r as int, 5 * SCALE);
    lemma_scale_by_one(g as int, 5 * SCALE);
    lemma_scale_by_one(b as int, 5 * SCALE);
}

} // verus!
