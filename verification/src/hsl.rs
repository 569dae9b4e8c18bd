//! Conversion between RGB and HSL in exact rational arithmetic.
//!
//! Hue, saturation and lightness are fractions with a numerator and a
//! denominator of their own, so converting a colour to HSL loses nothing, and
//! converting it back gives the very same colour.

use vstd::prelude::*;

verus! {

/// A fraction `num / den` that is not negative.
#[derive(Debug, Clone, Copy, PartialEq, Eq, Structural)]
pub struct Ratio {
    pub num: u128,
    pub den: u128,
}

/// The largest denominator of a component of a well-formed `Hsl`.
pub const MAX_DEN: u128 = 0x1_0000_0000;

/// A colour as hue, saturation and lightness.
#[derive(Debug, Clone, Copy, PartialEq, Eq, Structural)]
pub struct Hsl {
    /// Hue in degrees, from 0 up to but not including 360.
    pub hue: Ratio,
    /// Saturation, from 0 to 1.
    pub saturation: Ratio,
    /// Lightness, from 0 to 1.
    pub lightness: Ratio,
}

impl Hsl {
    /// The components are in their ranges and their denominators are
    /// positive and at most `MAX_DEN`.
    pub open spec fn wf(self) -> bool {
        &&& 0 < self.hue.den <= MAX_DEN
        &&& 0 < self.saturation.den <= MAX_DEN
        &&& 0 < self.lightness.den <= MAX_DEN
        &&& self.hue.num < 360 * self.hue.den
        &&& self.saturation.num <= self.saturation.den
        &&& self.lightness.num <= self.lightness.den
    }
}

/// The largest of three channels.
pub open spec fn max3(r: int, g: int, b: int) -> int {
    if r >= g && r >= b {
        r
    } else if g >= b {
        g
    } else {
        b
    }
}

/// The smallest of three channels.
pub open spec fn min3(r: int, g: int, b: int) -> int {
    if r <= g && r <= b {
        r
    } else if g <= b {
        g
    } else {
        b
    }
}

/// The hue of a colour that is not grey, in sixths of a turn, times the
/// spread `d` between its largest and its smallest channel. The sector is
/// chosen by the largest channel: red first, then green, then blue.
pub open spec fn hue_sextants(r: int, g: int, b: int) -> int {
    let max = max3(r, g, b);
    let d = max - min3(r, g, b);
    if max == r {
        if g < b {
            g - b + 6 * d
        } else {
            g - b
        }
    } else if max == g {
        b - r + 2 * d
    } else {
        r - g + 4 * d
    }
}

/// Hue, saturation and lightness of an RGB colour.
///
/// With `max` and `min` the largest and smallest channel, the lightness is
/// `(max + min) / 510`. A grey has hue 0 and saturation 0. Any other colour
/// has saturation `(max - min) / (max + min)` up to lightness 1/2 and
/// `(max - min) / (510 - max - min)` above it.
pub open spec fn spec_rgb_to_hsl(r: u8, g: u8, b: u8) -> Hsl {
    let max = max3(r as int, g as int, b as int);
    let min = min3(r as int, g as int, b as int);
    let sum = max + min;
    let d = max - min;
    if d == 0 {
        Hsl {
            hue: Ratio { num: 0, den: 1 },
            saturation: Ratio { num: 0, den: 1 },
            lightness: Ratio { num: sum as u128, den: 510 },
        }
    } else {
        Hsl {
            hue: Ratio { num: (60 * hue_sextants(r as int, g as int, b as int)) as u128, den: d as u128 },
            saturation: Ratio {
                num: d as u128,
                den: (if sum > 255 {
                    510 - sum
                } else {
                    sum
                }) as u128,
            },
            lightness: Ratio { num: sum as u128, den: 510 },
        }
    }
}

/// One channel of the colour with the lower bound `pn / den` and the upper
/// bound `qn / den` of its channels, at the place `tn / hh` of the hue
/// circle, counted in sixths of a turn: the channel rises from the lower to
/// the upper bound over the first sixth, stays there up to the third, falls
/// back over the fourth and stays at the lower bound for the rest. A place
/// below 0 or above 6 is first moved by one turn. The result is the floor
/// of 255 times the channel.
pub open spec fn spec_hue_to_rgb(pn: int, qn: int, den: int, tn: int, hh: int) -> int {
    let t1 = if tn < 0 {
        tn + 6 * hh
    } else {
        tn
    };
    let t = if t1 > 6 * hh {
        t1 - 6 * hh
    } else {
        t1
    };
    let cn = if t < hh {
        pn * hh + (qn - pn) * t
    } else if t < 3 * hh {
        qn * hh
    } else if t < 4 * hh {
        pn * hh + (qn - pn) * (4 * hh - t)
    } else {
        pn * hh
    };
    (255 * cn) / (den * hh)
}

/// Numerator of the upper bound of the channels, over the denominator
/// `ld * sd`: `l * (1 + s)` for a lightness below 1/2, else `l + s - l * s`.
pub open spec fn upper_bound_num(ln: int, ld: int, sn: int, sd: int) -> int {
    if 2 * ln < ld {
        ln * (sd + sn)
    } else {
        ln * sd + sn * ld - ln * sn
    }
}

/// The RGB colour of a hue, a saturation and a lightness.
///
/// A colour without saturation is the grey of its lightness. For any other,
/// the upper bound `q` of the channels is `l * (1 + s)` for a lightness below
/// 1/2 and `l + s - l * s` from there on, the lower bound `p` is `2 * l - q`,
/// and red, green and blue are read off the hue circle a third of a turn
/// ahead of the hue, at the hue and a third of a turn behind it.
pub open spec fn spec_hsl_to_rgb(hsl: Hsl) -> (u8, u8, u8) {
    let ln = hsl.lightness.num as int;
    let ld = hsl.lightness.den as int;
    let sn = hsl.saturation.num as int;
    let sd = hsl.saturation.den as int;
    let hn = hsl.hue.num as int;
    let hh = 60 * hsl.hue.den as int;
    if sn == 0 {
        let v = ((255 * ln) / ld) as u8;
        (v, v, v)
    } else {
        let den = ld * sd;
        let qn = upper_bound_num(ln, ld, sn, sd);
        let pn = 2 * ln * sd - qn;
        (
            spec_hue_to_rgb(pn, qn, den, hn + 2 * hh, hh) as u8,
            spec_hue_to_rgb(pn, qn, den, hn, hh) as u8,
            spec_hue_to_rgb(pn, qn, den, hn - 2 * hh, hh) as u8,
        )
    }
}

/// Convert RGB to HSL.
pub fn rgb_to_hsl(r: u8, g: u8, b: u8) -> (hsl: Hsl)
    ensures
        hsl == spec_rgb_to_hsl(r, g, b),
        hsl.wf(),
{
    let max: u8 = if r >= g && r >= b {
        r
    } else if g >= b {
        g
    } else {
        b
    };
    let min: u8 = if r <= g && r <= b {
        r
    } else if g <= b {
        g
    } else {
        b
    };
    let sum: u128 = max as u128 + min as u128;
    let d: u128 = (max - min) as u128;
    if d == 0 {
        return Hsl {
            hue: Ratio { num: 0, den: 1 },
            saturation: Ratio { num: 0, den: 1 },
            lightness: Ratio { num: sum, den: 510 },
        };
    }
    let sextants: u128 = if max == r {
        if g < b {
            6 * d - (b - g) as u128
        } else {
            (g - b) as u128
        }
    } else if max == g {
        2 * d + b as u128 - r as u128
    } else {
        4 * d + r as u128 - g as u128
    };
    let sat_den: u128 = if sum > 255 {
        510 - sum
    } else {
        sum
    };
    Hsl {
        hue: Ratio { num: 60 * sextants, den: d },
        saturation: Ratio { num: d, den: sat_den },
        lightness: Ratio { num: sum, den: 510 },
    }
}

/// The bounds of the channels lie between 0 and 1, the lower below the
/// upper.
pub proof fn lemma_channel_bounds(ln: int, ld: int, sn: int, sd: int)
    requires
        0 <= ln <= ld,
        0 <= sn <= sd,
    ensures
        0 <= 2 * ln * sd - upper_bound_num(ln, ld, sn, sd) <= upper_bound_num(ln, ld, sn, sd),
        upper_bound_num(ln, ld, sn, sd) <= ld * sd,
{
    let a = ln * sd;
    let b = ln * sn;
    let c = sn * ld;
    let e = ld * sd;
    assert(2 * ln * sd == 2 * a) by (nonlinear_arith)
        requires
            a == ln * sd,
    ;
    assert(0 <= b <= a) by (nonlinear_arith)
        requires
            a == ln * sd,
            b == ln * sn,
            0 <= ln,
            0 <= sn <= sd,
    ;
    assert(b <= c) by (nonlinear_arith)
        requires
            b == ln * sn,
            c == sn * ld,
            0 <= ln <= ld,
            0 <= sn,
    ;
    if 2 * ln < ld {
        assert(ln * (sd + sn) == a + b) by (nonlinear_arith)
            requires
                a == ln * sd,
                b == ln * sn,
        ;
        assert(2 * a <= e) by (nonlinear_arith)
            requires
                a == ln * sd,
                e == ld * sd,
                2 * ln < ld,
                0 <= sd,
        ;
    } else {
        assert(c - b <= e - a) by (nonlinear_arith)
            requires
                a == ln * sd,
                b == ln * sn,
                c == sn * ld,
                e == ld * sd,
                0 <= sn <= sd,
                ln <= ld,
        ;
        assert(e - a <= a) by (nonlinear_arith)
            requires
                a == ln * sd,
                e == ld * sd,
                ld <= 2 * ln,
                0 <= sd,
        ;
    }
}

/// A product of two bounded numbers is bounded by the product of the bounds.
pub proof fn lemma_mul_bounds(a: int, b: int, x: int, y: int)
    requires
        0 <= a <= x,
        0 <= b <= y,
    ensures
        0 <= a * b <= x * y,
{
    assert(0 <= a * b <= x * y) by (nonlinear_arith)
        requires
            0 <= a <= x,
            0 <= b <= y,
    ;
}

/// One channel, as a number from 0 to 255, of the colour whose channels lie
/// between `pn / den` and `qn / den`, at the place `tn / hh` of the hue
/// circle, counted in sixths of a turn.
pub fn hue_to_rgb(pn: i128, qn: i128, den: i128, tn: i128, hh: i128) -> (v: u8)
    requires
        0 <= pn <= qn <= den,
        0 < den <= 0x1_0000_0000_0000_0000,
        0 < hh <= 0x3C_0000_0000,
        -2 * hh <= tn <= 8 * hh,
    ensures
        v == spec_hue_to_rgb(pn as int, qn as int, den as int, tn as int, hh as int),
{
    let t1: i128 = if tn < 0 {
        tn + 6 * hh
    } else {
        tn
    };
    let t: i128 = if t1 > 6 * hh {
        t1 - 6 * hh
    } else {
        t1
    };
    let rise: i128 = if t < hh {
        t
    } else if t < 3 * hh {
        hh
    } else if t < 4 * hh {
        4 * hh - t
    } else {
        0
    };
    proof {
        lemma_mul_bounds(pn as int, hh as int, 0x1_0000_0000_0000_0000, 0x3C_0000_0000);
        lemma_mul_bounds((qn - pn) as int, rise as int, (qn - pn) as int, hh as int);
        lemma_mul_bounds((qn - pn) as int, hh as int, 0x1_0000_0000_0000_0000, 0x3C_0000_0000);
        lemma_mul_bounds(den as int, hh as int, 0x1_0000_0000_0000_0000, 0x3C_0000_0000);
        lemma_mul_bounds(qn as int, hh as int, den as int, hh as int);
        assert(pn * hh + (qn - pn) * hh == qn * hh) by (nonlinear_arith);
        assert((qn - pn) * 0 == 0);
        assert(den * hh > 0) by (nonlinear_arith)
            requires
                den > 0,
                hh > 0,
        ;
    }
    let cn: i128 = pn * hh + (qn - pn) * rise;
    let total: i128 = den * hh;
    assert(0 <= cn <= total);
    let v: i128 = (255 * cn) / total;
    assert(0 <= v <= 255) by (nonlinear_arith)
        requires
            0 <= cn <= total,
            total > 0,
            v == (255 * cn) / (total as int),
    ;
    v as u8
}

/// Convert HSL to RGB.
pub fn hsl_to_rgb(hsl: Hsl) -> (rgb: (u8, u8, u8))
    requires
        hsl.wf(),
    ensures
        rgb == spec_hsl_to_rgb(hsl),
{
    let ln: i128 = hsl.lightness.num as i128;
    let ld: i128 = hsl.lightness.den as i128;
    let sn: i128 = hsl.saturation.num as i128;
    let sd: i128 = hsl.saturation.den as i128;
    let hn: i128 = hsl.hue.num as i128;
    let hh: i128 = 60 * (hsl.hue.den as i128);
    if sn == 0 {
        let v: i128 = (255 * ln) / ld;
        assert(0 <= v <= 255) by (nonlinear_arith)
            requires
                0 <= ln <= ld,
                ld > 0,
                v == (255 * ln) / (ld as int),
        ;
        return (v as u8, v as u8, v as u8);
    }
    proof {
        lemma_channel_bounds(ln as int, ld as int, sn as int, sd as int);
        lemma_mul_bounds(ld as int, sd as int, 0x1_0000_0000, 0x1_0000_0000);
        lemma_mul_bounds(ln as int, sd as int, 0x1_0000_0000, 0x1_0000_0000);
        lemma_mul_bounds(ln as int, sn as int, 0x1_0000_0000, 0x1_0000_0000);
        lemma_mul_bounds(sn as int, ld as int, 0x1_0000_0000, 0x1_0000_0000);
        lemma_mul_bounds(ln as int, (sd + sn) as int, 0x1_0000_0000, 0x2_0000_0000);
        assert(ld * sd > 0) by (nonlinear_arith)
            requires
                ld > 0,
                sd > 0,
        ;
    }
    let den: i128 = ld * sd;
    let qn: i128 = if 2 * ln < ld {
        ln * (sd + sn)
    } else {
        ln * sd + sn * ld - ln * sn
    };
    let pn: i128 = 2 * ln * sd - qn;
    (
        hue_to_rgb(pn, qn, den, hn + 2 * hh, hh),
        hue_to_rgb(pn, qn, den, hn, hh),
        hue_to_rgb(pn, qn, den, hn - 2 * hh, hh),
    )
}

/// The channel that the hue circle gives at the place `m / d`, counted in
/// sixths of a turn, where the channels lie between `min` and `max` and `d`
/// is `max - min`: as `spec_hue_to_rgb`, in whole channel values.
pub open spec fn circle_value(min: int, max: int, m: int) -> int {
    let d = max - min;
    let m1 = if m < 0 {
        m + 6 * d
    } else {
        m
    };
    let m2 = if m1 > 6 * d {
        m1 - 6 * d
    } else {
        m1
    };
    if m2 < d {
        min + m2
    } else if m2 < 3 * d {
        max
    } else if m2 < 4 * d {
        min + (4 * d - m2)
    } else {
        min
    }
}

/// Where the bounds of the channels are `min / 255` and `max / 255` and the
/// place on the hue circle is a multiple of `1 / (max - min)`, the channel
/// is a whole number, and `spec_hue_to_rgb` gives just that number. The
/// place and the sixth of a turn may both be given `c` times as large.
pub proof fn lemma_hue_to_rgb_exact(
    min: int,
    max: int,
    sd: int,
    m: int,
    c: int,
    pn: int,
    qn: int,
    den: int,
    tn: int,
    hh: int,
)
    requires
        0 <= min < max <= 255,
        sd > 0,
        c > 0,
        -2 * (max - min) <= m <= 8 * (max - min),
        pn == 2 * min * sd,
        qn == 2 * max * sd,
        den == 510 * sd,
        tn == 60 * m * c,
        hh == 60 * (max - min) * c,
    ensures
        spec_hue_to_rgb(pn, qn, den, tn, hh) == circle_value(min, max, m),
{
    let d = max - min;
    let unit = 120 * sd * d * c;
    let val = circle_value(min, max, m);
    let m1 = if m < 0 {
        m + 6 * d
    } else {
        m
    };
    let m2 = if m1 > 6 * d {
        m1 - 6 * d
    } else {
        m1
    };
    let t1 = if tn < 0 {
        tn + 6 * hh
    } else {
        tn
    };
    let t = if t1 > 6 * hh {
        t1 - 6 * hh
    } else {
        t1
    };
    let cn = if t < hh {
        pn * hh + (qn - pn) * t
    } else if t < 3 * hh {
        qn * hh
    } else if t < 4 * hh {
        pn * hh + (qn - pn) * (4 * hh - t)
    } else {
        pn * hh
    };
    assert(tn < 0 <==> m < 0) by (nonlinear_arith)
        requires
            tn == 60 * m * c,
            c > 0,
    ;
    assert(t1 == 60 * m1 * c) by (nonlinear_arith)
        requires
            tn == 60 * m * c,
            hh == 60 * d * c,
            t1 == if m < 0 {
                tn + 6 * hh
            } else {
                tn
            },
            m1 == if m < 0 {
                m + 6 * d
            } else {
                m
            },
    ;
    assert(t1 > 6 * hh <==> m1 > 6 * d) by (nonlinear_arith)
        requires
            t1 == 60 * m1 * c,
            hh == 60 * d * c,
            c > 0,
    ;
    assert(t == 60 * m2 * c) by (nonlinear_arith)
        requires
            t1 == 60 * m1 * c,
            hh == 60 * d * c,
            t == if m1 > 6 * d {
                t1 - 6 * hh
            } else {
                t1
            },
            m2 == if m1 > 6 * d {
                m1 - 6 * d
            } else {
                m1
            },
    ;
    assert((t < hh <==> m2 < d) && (t < 3 * hh <==> m2 < 3 * d) && (t < 4 * hh <==> m2 < 4 * d))
        by (nonlinear_arith)
        requires
            t == 60 * m2 * c,
            hh == 60 * d * c,
            c > 0,
    ;
    assert(unit > 0) by (nonlinear_arith)
        requires
            unit == 120 * sd * d * c,
            sd > 0,
            d > 0,
            c > 0,
    ;
    assert(den * hh == 255 * unit) by (nonlinear_arith)
        requires
            den == 510 * sd,
            hh == 60 * d * c,
            unit == 120 * sd * d * c,
    ;
    assert(pn * hh == min * unit) by (nonlinear_arith)
        requires
            pn == 2 * min * sd,
            hh == 60 * d * c,
            unit == 120 * sd * d * c,
    ;
    assert(qn * hh == max * unit) by (nonlinear_arith)
        requires
            qn == 2 * max * sd,
            hh == 60 * d * c,
            unit == 120 * sd * d * c,
    ;
    assert((qn - pn) * t == m2 * unit) by (nonlinear_arith)
        requires
            pn == 2 * min * sd,
            qn == 2 * max * sd,
            d == max - min,
            t == 60 * m2 * c,
            unit == 120 * sd * d * c,
    ;
    assert((qn - pn) * (4 * hh - t) == (4 * d - m2) * unit) by (nonlinear_arith)
        requires
            pn == 2 * min * sd,
            qn == 2 * max * sd,
            d == max - min,
            hh == 60 * d * c,
            t == 60 * m2 * c,
            unit == 120 * sd * d * c,
    ;
    assert(cn == val * unit) by (nonlinear_arith)
        requires
            cn == if m2 < d {
                min * unit + m2 * unit
            } else if m2 < 3 * d {
                max * unit
            } else if m2 < 4 * d {
                min * unit + (4 * d - m2) * unit
            } else {
                min * unit
            },
            val == if m2 < d {
                min + m2
            } else if m2 < 3 * d {
                max
            } else if m2 < 4 * d {
                min + (4 * d - m2)
            } else {
                min
            },
    ;
    assert((255 * cn) / (den * hh) == val) by (nonlinear_arith)
        requires
            cn == val * unit,
            den * hh == 255 * unit,
            unit > 0,
    ;
}

/// The bounds of the channels of the HSL form of a colour that is not grey
/// are its smallest and its largest channel.
pub proof fn lemma_bounds_of_rgb(r: u8, g: u8, b: u8)
    requires
        max3(r as int, g as int, b as int) != min3(r as int, g as int, b as int),
    ensures
        ({
            let hsl = spec_rgb_to_hsl(r, g, b);
            let sd = hsl.saturation.den as int;
            let qn = upper_bound_num(
                hsl.lightness.num as int,
                hsl.lightness.den as int,
                hsl.saturation.num as int,
                sd,
            );
            &&& sd > 0
            &&& qn == 2 * max3(r as int, g as int, b as int) * sd
            &&& 2 * hsl.lightness.num * sd - qn == 2 * min3(r as int, g as int, b as int) * sd
        }),
{
    let hsl = spec_rgb_to_hsl(r, g, b);
    let max = max3(r as int, g as int, b as int);
    let min = min3(r as int, g as int, b as int);
    let sum = max + min;
    let d = max - min;
    let sd = hsl.saturation.den as int;
    let qn = upper_bound_num(sum, 510, d, sd);
    assert(qn == 2 * max * sd) by (nonlinear_arith)
        requires
            qn == if 2 * sum < 510 {
                sum * (sd + d)
            } else {
                sum * sd + d * 510 - sum * d
            },
            sd == if sum > 255 {
                510 - sum
            } else {
                sum
            },
            sum + d == 2 * max,
    ;
    assert(2 * sum * sd - qn == 2 * min * sd) by (nonlinear_arith)
        requires
            qn == 2 * max * sd,
            sum == max + min,
    ;
}

/// The three channels that the hue circle gives for the hue of a colour
/// that is not grey are the colour's own.
pub proof fn lemma_circle_of_rgb(r: u8, g: u8, b: u8)
    requires
        max3(r as int, g as int, b as int) != min3(r as int, g as int, b as int),
    ensures
        ({
            let max = max3(r as int, g as int, b as int);
            let min = min3(r as int, g as int, b as int);
            let k = hue_sextants(r as int, g as int, b as int);
            &&& 0 <= k < 6 * (max - min)
            &&& circle_value(min, max, k + 2 * (max - min)) == r
            &&& circle_value(min, max, k) == g
            &&& circle_value(min, max, k - 2 * (max - min)) == b
        }),
{
}

/// Converting a colour to HSL and back gives the colour itself, in every
/// channel.
pub proof fn lemma_hsl_roundtrip(r: u8, g: u8, b: u8)
    ensures
        spec_hsl_to_rgb(spec_rgb_to_hsl(r, g, b)) == (r, g, b),
{
    let hsl = spec_rgb_to_hsl(r, g, b);
    let max = max3(r as int, g as int, b as int);
    let min = min3(r as int, g as int, b as int);
    let d = max - min;
    if d != 0 {
        let sd = hsl.saturation.den as int;
        let k = hue_sextants(r as int, g as int, b as int);
        let qn = upper_bound_num(max + min, 510, d, sd);
        let pn = 2 * (max + min) * sd - qn;
        let den = 510 * sd;
        let hn = 60 * k;
        let hh = 60 * d;
        lemma_bounds_of_rgb(r, g, b);
        lemma_circle_of_rgb(r, g, b);
        assert(hsl.hue.num as int == hn);
        assert(60 * (hsl.hue.den as int) == hh);
        lemma_hue_to_rgb_exact(min, max, sd, k + 2 * d, 1, pn, qn, den, hn + 2 * hh, hh);
        lemma_hue_to_rgb_exact(min, max, sd, k, 1, pn, qn, den, hn, hh);
        lemma_hue_to_rgb_exact(min, max, sd, k - 2 * d, 1, pn, qn, den, hn - 2 * hh, hh);
    }
}

} // verus!
