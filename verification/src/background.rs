//! Animated backgrounds: a twinkling starfield, falling rain columns and a
//! scrolling gradient wave, one cell of the screen at a time.
//!
//! Nothing here is random: every cell is a function of its position, the
//! elapsed time and, for the rain, the state of its column. The rain keeps
//! the head of each column in steps of 1/3000 of a row, which is fine enough
//! to hold every speed exactly.

use vstd::prelude::*;

use crate::animation::{clamp_sine, SCALE};
use crate::color::Color;
use crate::hsl::{hsl_to_rgb, lemma_mul_bounds, spec_hsl_to_rgb, Hsl, Ratio};
use crate::style::{AnimationSpeed, BackgroundStyle};

verus! {

/// Steps of a rain column's head per row of the screen.
pub const ROW_UNITS: i64 = 3000;

/// What the background shows in one cell of the screen.
#[derive(Debug, Clone, Copy, PartialEq, Eq, Structural)]
pub enum BackgroundCell {
    /// Nothing: the cell stays empty.
    Blank,
    /// A glyph in a colour.
    Glyph(char, Color),
}

/// The glyphs of the starfield.
pub open spec fn star_glyphs() -> Seq<char> {
    seq!['.', '*', '+', '\u{b7}', '\u{2726}', '\u{2727}']
}

/// The glyphs of the rain: twenty katakana and the ten digits.
pub open spec fn matrix_glyphs() -> Seq<char> {
    seq![
        '\u{30a2}',
        '\u{30a4}',
        '\u{30a6}',
        '\u{30a8}',
        '\u{30aa}',
        '\u{30ab}',
        '\u{30ad}',
        '\u{30af}',
        '\u{30b1}',
        '\u{30b3}',
        '\u{30b5}',
        '\u{30b7}',
        '\u{30b9}',
        '\u{30bb}',
        '\u{30bd}',
        '\u{30bf}',
        '\u{30c1}',
        '\u{30c4}',
        '\u{30c6}',
        '\u{30c8}',
        '0',
        '1',
        '2',
        '3',
        '4',
        '5',
        '6',
        '7',
        '8',
        '9',
    ]
}

/// `n` reduced to 64 bits.
pub open spec fn wrap64(n: int) -> int {
    n % 0x1_0000_0000_0000_0000
}

/// The number that decides what the starfield shows in a cell: a hash of
/// the position and of the number of the twinkle frame.
pub open spec fn star_seed(x: u16, y: u16, elapsed_ms: u64, speed: AnimationSpeed) -> int {
    wrap64(x * 31 + y * 17 + elapsed_ms / speed.spec_star_twinkle_period_ms())
}

/// The colour of a star: dim, medium or bright.
pub open spec fn star_color(seed: int) -> Color {
    if seed % 3 == 0 {
        Color::Rgb(60, 60, 80)
    } else if seed % 3 == 1 {
        Color::Rgb(100, 100, 140)
    } else {
        Color::Rgb(150, 150, 200)
    }
}

/// What the starfield shows in a cell: a star in three cells of a hundred.
pub open spec fn spec_starfield_cell(
    x: u16,
    y: u16,
    elapsed_ms: u64,
    speed: AnimationSpeed,
) -> BackgroundCell {
    let seed = star_seed(x, y, elapsed_ms, speed);
    if seed % 100 < 3 {
        BackgroundCell::Glyph(star_glyphs()[seed % 6], star_color(seed))
    } else {
        BackgroundCell::Blank
    }
}

/// State for a single matrix rain column.
#[derive(Debug, Clone, Copy, PartialEq, Eq, Structural)]
pub struct MatrixColumn {
    /// Position of the raindrop head, in steps of 1/3000 of a row.
    pub head: i64,
    /// Speed multiplier for this column, in thirtieths.
    pub speed: u32,
    /// Length of the trail, in rows.
    pub trail_length: u32,
    /// Seed for character generation.
    pub char_seed: u64,
}

/// How many rows above the screen the head of the column of index `x`
/// starts out on a screen of `height` rows: the columns are staggered over
/// twice the height of the screen. On a screen without rows every head
/// starts at the top.
pub open spec fn spec_stagger(x: int, height: int) -> int {
    if height > 0 {
        (x * 7 + 3) % (2 * height)
    } else {
        0
    }
}

/// The column of index `x` on a screen of `height` rows as it starts out:
/// its head above the screen, its speed, trail and seed derived from `x`.
pub open spec fn spec_init_column(x: int, height: int) -> MatrixColumn {
    MatrixColumn {
        head: (-spec_stagger(x, height) * ROW_UNITS) as i64,
        speed: (9 + 2 * ((x * 13) % 10)) as u32,
        trail_length: (4 + (x * 11) % 8) as u32,
        char_seed: (x * 17) as u64,
    }
}

/// A column after `delta_ms` milliseconds at the fall speed `fall` (in
/// halves): its head has moved down by `delta_ms / 50 * fall / 2 * speed /
/// 30` rows. A head that has passed the row `height + trail_length` is back
/// at the row `-trail_length`, and the column has its next seed.
pub open spec fn spec_step_column(
    col: MatrixColumn,
    delta_ms: u64,
    fall: u64,
    height: u16,
) -> MatrixColumn {
    let moved = col.head + delta_ms * fall * col.speed;
    if moved > (height + col.trail_length) * ROW_UNITS {
        MatrixColumn {
            head: (-col.trail_length * ROW_UNITS) as i64,
            speed: col.speed,
            trail_length: col.trail_length,
            char_seed: wrap64(col.char_seed + 1) as u64,
        }
    } else {
        MatrixColumn {
            head: moved as i64,
            speed: col.speed,
            trail_length: col.trail_length,
            char_seed: col.char_seed,
        }
    }
}

/// Index into the rain glyphs of the glyph in row `y` of a column.
pub open spec fn matrix_glyph_index(char_seed: u64, y: u16) -> int {
    wrap64(char_seed + y) % 30
}

/// What the rain shows in a cell of a column: a glyph from the head of the
/// column up to the end of its trail, near-white at the head and a green
/// that darkens from 200 to 80 along the trail; nothing elsewhere.
pub open spec fn spec_column_cell(col: MatrixColumn, y: u16) -> BackgroundCell {
    let distance = col.head - y * ROW_UNITS;
    if 0 <= distance <= col.trail_length * ROW_UNITS {
        BackgroundCell::Glyph(
            matrix_glyphs()[matrix_glyph_index(col.char_seed, y)],
            if distance < ROW_UNITS {
                Color::Rgb(200, 255, 200)
            } else {
                Color::Rgb(
                    0,
                    ((5000 * col.trail_length - distance) / (25 * col.trail_length as int)) as u8,
                    0,
                )
            },
        )
    } else {
        BackgroundCell::Blank
    }
}

/// What the rain shows in a cell, given the columns.
pub open spec fn spec_matrix_cell(columns: Seq<MatrixColumn>, x: u16, y: u16) -> BackgroundCell {
    if x < columns.len() {
        spec_column_cell(columns[x as int], y)
    } else {
        BackgroundCell::Blank
    }
}

/// Glyph `i` of the starfield.
fn star_glyph(i: u64) -> (c: char)
    requires
        i < 6,
    ensures
        c == star_glyphs()[i as int],
{
    if i == 0 {
        '.'
    } else if i == 1 {
        '*'
    } else if i == 2 {
        '+'
    } else if i == 3 {
        '\u{b7}'
    } else if i == 4 {
        '\u{2726}'
    } else {
        '\u{2727}'
    }
}

/// Glyph `i` of the rain.
fn matrix_glyph(i: u64) -> (c: char)
    requires
        i < 30,
    ensures
        c == matrix_glyphs()[i as int],
{
    if i >= 20 {
        let digit: u32 = 0x30 + (i - 20) as u32;
        if digit == 0x30 {
            '0'
        } else if digit == 0x31 {
            '1'
        } else if digit == 0x32 {
            '2'
        } else if digit == 0x33 {
            '3'
        } else if digit == 0x34 {
            '4'
        } else if digit == 0x35 {
            '5'
        } else if digit == 0x36 {
            '6'
        } else if digit == 0x37 {
            '7'
        } else if digit == 0x38 {
            '8'
        } else {
            '9'
        }
    } else if i < 10 {
        if i == 0 {
            '\u{30a2}'
        } else if i == 1 {
            '\u{30a4}'
        } else if i == 2 {
            '\u{30a6}'
        } else if i == 3 {
            '\u{30a8}'
        } else if i == 4 {
            '\u{30aa}'
        } else if i == 5 {
            '\u{30ab}'
        } else if i == 6 {
            '\u{30ad}'
        } else if i == 7 {
            '\u{30af}'
        } else if i == 8 {
            '\u{30b1}'
        } else {
            '\u{30b3}'
        }
    } else {
        if i == 10 {
            '\u{30b5}'
        } else if i == 11 {
            '\u{30b7}'
        } else if i == 12 {
            '\u{30b9}'
        } else if i == 13 {
            '\u{30bb}'
        } else if i == 14 {
            '\u{30bd}'
        } else if i == 15 {
            '\u{30bf}'
        } else if i == 16 {
            '\u{30c1}'
        } else if i == 17 {
            '\u{30c4}'
        } else if i == 18 {
            '\u{30c6}'
        } else {
            '\u{30c8}'
        }
    }
}

/// Render a starfield character using pseudo-random twinkling.
pub fn render_starfield_char(x: u16, y: u16, elapsed_ms: u64, speed: AnimationSpeed) -> (cell:
    BackgroundCell)
    ensures
        cell == spec_starfield_cell(x, y, elapsed_ms, speed),
{
    let period = speed.star_twinkle_period_ms();
    let frame_num: u64 = elapsed_ms / period;
    let position: u64 = x as u64 * 31 + y as u64 * 17;
    let seed: u64 = ((position as u128 + frame_num as u128) % 0x1_0000_0000_0000_0000) as u64;
    if seed % 100 < 3 {
        let color = if seed % 3 == 0 {
            Color::Rgb(60, 60, 80)
        } else if seed % 3 == 1 {
            Color::Rgb(100, 100, 140)
        } else {
            Color::Rgb(150, 150, 200)
        };
        BackgroundCell::Glyph(star_glyph(seed % 6), color)
    } else {
        BackgroundCell::Blank
    }
}

/// The rain column of index `x` on a screen of `height` rows as it starts
/// out.
pub fn init_column(x: u16, height: u16) -> (col: MatrixColumn)
    ensures
        col == spec_init_column(x as int, height as int),
{
    let xx: u64 = x as u64;
    let stagger: u64 = if height > 0 {
        (xx * 7 + 3) % (2 * height as u64)
    } else {
        0
    };
    assert(stagger * 3000 <= 131070 * 3000) by (nonlinear_arith)
        requires
            stagger <= 131070,
    ;
    MatrixColumn {
        head: -((stagger * 3000) as i64),
        speed: (9 + 2 * ((xx * 13) % 10)) as u32,
        trail_length: (4 + (xx * 11) % 8) as u32,
        char_seed: xx * 17,
    }
}

/// Move one rain column on by `delta_ms` milliseconds.
pub fn step_column(col: MatrixColumn, delta_ms: u64, speed: AnimationSpeed, height: u16) -> (next:
    MatrixColumn)
    ensures
        next == spec_step_column(col, delta_ms, speed.spec_matrix_fall_speed(), height),
        next.head <= (height + col.trail_length) * ROW_UNITS,
{
    let fall = speed.matrix_fall_speed() as i128;
    proof {
        lemma_mul_bounds(delta_ms as int, fall as int, 0xFFFF_FFFF_FFFF_FFFF, 4);
        lemma_mul_bounds(
            (delta_ms * fall) as int,
            col.speed as int,
            0x3_FFFF_FFFF_FFFF_FFFC,
            0xFFFF_FFFF,
        );
    }
    let moved: i128 = col.head as i128 + (delta_ms as i128) * fall * (col.speed as i128);
    let limit: i128 = (height as i128 + col.trail_length as i128) * 3000;
    if moved > limit {
        MatrixColumn {
            head: -((col.trail_length as i64) * 3000),
            speed: col.speed,
            trail_length: col.trail_length,
            char_seed: ((col.char_seed as u128 + 1) % 0x1_0000_0000_0000_0000) as u64,
        }
    } else {
        MatrixColumn {
            head: moved as i64,
            speed: col.speed,
            trail_length: col.trail_length,
            char_seed: col.char_seed,
        }
    }
}

/// What the rain shows in row `y` of a column.
pub fn render_column_char(col: MatrixColumn, y: u16) -> (cell: BackgroundCell)
    ensures
        cell == spec_column_cell(col, y),
{
    let row: i128 = y as i128 * 3000;
    let distance: i128 = col.head as i128 - row;
    let trail: i128 = col.trail_length as i128;
    if 0 <= distance && distance <= trail * 3000 {
        let index: u64 = (((col.char_seed as u128 + y as u128) % 0x1_0000_0000_0000_0000) as u64)
            % 30;
        let color = if distance < 3000 {
            Color::Rgb(200, 255, 200)
        } else {
            let g: i128 = (5000 * trail - distance) / (25 * trail);
            assert(80 <= g <= 200) by (nonlinear_arith)
                requires
                    g == (5000 * trail - distance) / (25 * trail),
                    3000 <= distance <= trail * 3000,
                    trail > 0,
            ;
            Color::Rgb(0, g as u8, 0)
        };
        BackgroundCell::Glyph(matrix_glyph(index), color)
    } else {
        BackgroundCell::Blank
    }
}

/// The phase of the gradient wave in a cell, in turns: the part `x / width`
/// of the line before the cell, half the part `y / height` of the rows above
/// it, and the part of the current scroll period that has passed. A width or
/// height of 0 counts as 1.
pub open spec fn spec_gradient_phase(
    x: u16,
    y: u16,
    width: u16,
    height: u16,
    elapsed_ms: u64,
    speed: AnimationSpeed,
) -> Ratio {
    let w = if width > 0 {
        width as int
    } else {
        1
    };
    let h = if height > 0 {
        height as int
    } else {
        1
    };
    let period = speed.spec_gradient_scroll_period_ms() as int;
    let t = (elapsed_ms % speed.spec_gradient_scroll_period_ms()) as int;
    Ratio {
        num: (x * (2 * h) * period + y * w * period + t * (w * (2 * h))) as u128,
        den: (w * (2 * h) * period) as u128,
    }
}

/// The hue of the gradient wave in column `x`, in degrees: 60 degrees across
/// the line, plus a full turn per scroll period, brought back below 360.
pub open spec fn spec_gradient_hue(x: u16, width: u16, elapsed_ms: u64, speed: AnimationSpeed) -> Ratio {
    let w = if width > 0 {
        width as int
    } else {
        1
    };
    let period = speed.spec_gradient_scroll_period_ms() as int;
    let t = (elapsed_ms % speed.spec_gradient_scroll_period_ms()) as int;
    Ratio { num: ((60 * x * period + 360 * t * w) % (360 * (w * period))) as u128, den: (w * period) as u128 }
}

/// The glyph of the gradient wave for a sine `s` in millionths, if it shows
/// one: with the intensity `(s + 1) / 2`, nothing below 1/4, then a light, a
/// medium and, from 3/4 on, a heavy shade.
pub open spec fn spec_gradient_glyph(s: int) -> Option<char> {
    if 2 * s < -SCALE {
        None
    } else if s < 0 {
        Some('\u{2591}')
    } else if 2 * s < SCALE {
        Some('\u{2592}')
    } else {
        Some('\u{2593}')
    }
}

/// The colour of the gradient wave: the hue of the column at the saturation
/// 7/10 and the lightness `0.15 + 0.2 * (s + 1) / 2`.
pub open spec fn spec_gradient_color(hue: Ratio, s: int) -> Color {
    let (r, g, b) = spec_hsl_to_rgb(
        Hsl {
            hue: hue,
            saturation: Ratio { num: 7, den: 10 },
            lightness: Ratio { num: (5 * SCALE + 2 * s) as u128, den: (20 * SCALE) as u128 },
        },
    );
    Color::Rgb(r, g, b)
}

/// What the gradient wave shows in a cell, given the sine of its phase in
/// millionths.
pub open spec fn spec_gradient_cell(
    x: u16,
    width: u16,
    elapsed_ms: u64,
    speed: AnimationSpeed,
    sine: i32,
) -> BackgroundCell {
    let s = clamp_sine(sine as int);
    match spec_gradient_glyph(s) {
        None => BackgroundCell::Blank,
        Some(glyph) => BackgroundCell::Glyph(
            glyph,
            spec_gradient_color(spec_gradient_hue(x, width, elapsed_ms, speed), s),
        ),
    }
}

/// The phase of the gradient wave in a cell, as a fraction of a turn.
pub fn gradient_phase(
    x: u16,
    y: u16,
    width: u16,
    height: u16,
    elapsed_ms: u64,
    speed: AnimationSpeed,
) -> (phase: Ratio)
    ensures
        phase == spec_gradient_phase(x, y, width, height, elapsed_ms, speed),
        phase.den > 0,
{
    let w: u128 = if width > 0 {
        width as u128
    } else {
        1
    };
    let h: u128 = if height > 0 {
        height as u128
    } else {
        1
    };
    let period = speed.gradient_scroll_period_ms() as u128;
    let t = (elapsed_ms % speed.gradient_scroll_period_ms()) as u128;
    proof {
        lemma_mul_bounds(x as int, (2 * h) as int, 65535, 131070);
        lemma_mul_bounds((x * (2 * h)) as int, period as int, 8589672450, 5000);
        lemma_mul_bounds(y as int, w as int, 65535, 65535);
        lemma_mul_bounds((y * w) as int, period as int, 4294836225, 5000);
        lemma_mul_bounds(w as int, (2 * h) as int, 65535, 131070);
        lemma_mul_bounds(t as int, (w * (2 * h)) as int, 5000, 8589672450);
        lemma_mul_bounds((w * (2 * h)) as int, period as int, 8589672450, 5000);
        assert(w * (2 * h) * period > 0) by (nonlinear_arith)
            requires
                w > 0,
                h > 0,
                period > 0,
        ;
    }
    Ratio { num: x as u128 * (2 * h) * period + y as u128 * w * period + t * (w * (2 * h)), den: w * (2 * h) * period }
}

/// Render a gradient wave character. `sine` is the sine, in millionths, of
/// the phase that `gradient_phase` gives for the cell.
pub fn render_gradient_char(
    x: u16,
    y: u16,
    width: u16,
    height: u16,
    elapsed_ms: u64,
    speed: AnimationSpeed,
    sine: i32,
) -> (cell: BackgroundCell)
    ensures
        cell == spec_gradient_cell(x, width, elapsed_ms, speed, sine),
{
    let s: i64 = if (sine as i64) < -SCALE {
        -SCALE
    } else if (sine as i64) > SCALE {
        SCALE
    } else {
        sine as i64
    };
    let glyph = if 2 * s < -SCALE {
        return BackgroundCell::Blank;
    } else if s < 0 {
        '\u{2591}'
    } else if 2 * s < SCALE {
        '\u{2592}'
    } else {
        '\u{2593}'
    };
    let w: u128 = if width > 0 {
        width as u128
    } else {
        1
    };
    let period = speed.gradient_scroll_period_ms() as u128;
    let t = (elapsed_ms % speed.gradient_scroll_period_ms()) as u128;
    proof {
        lemma_mul_bounds((60 * x) as int, period as int, 3932100, 5000);
        lemma_mul_bounds((360 * t) as int, w as int, 1800000, 65535);
        lemma_mul_bounds(w as int, period as int, 65535, 5000);
        assert(w * period > 0) by (nonlinear_arith)
            requires
                w > 0,
                period > 0,
        ;
    }
    let den: u128 = w * period;
    let num: u128 = (60 * (x as u128) * period + 360 * t * w) % (360 * den);
    let hsl = Hsl {
        hue: Ratio { num, den },
        saturation: Ratio { num: 7, den: 10 },
        lightness: Ratio { num: (5 * SCALE + 2 * s) as u128, den: (20 * SCALE) as u128 },
    };
    let (r, g, b) = hsl_to_rgb(hsl);
    BackgroundCell::Glyph(glyph, Color::Rgb(r, g, b))
}

/// What the background shows in a cell. `sine` is read by the gradient wave
/// alone.
pub open spec fn spec_cell(
    columns: Seq<MatrixColumn>,
    x: u16,
    y: u16,
    width: u16,
    style: BackgroundStyle,
    elapsed_ms: u64,
    speed: AnimationSpeed,
    sine: i32,
) -> BackgroundCell {
    match style {
        BackgroundStyle::Off => BackgroundCell::Blank,
        BackgroundStyle::Starfield => spec_starfield_cell(x, y, elapsed_ms, speed),
        BackgroundStyle::MatrixRain => spec_matrix_cell(columns, x, y),
        BackgroundStyle::GradientWave => spec_gradient_cell(x, width, elapsed_ms, speed, sine),
    }
}

/// The rain columns of a screen of `width` columns and `height` rows as
/// they start out.
pub open spec fn spec_init_columns(width: u16, height: u16) -> Seq<MatrixColumn> {
    Seq::new(width as nat, |x: int| spec_init_column(x, height as int))
}

/// Every one of `columns` moved on by `delta_ms` milliseconds.
pub open spec fn spec_step_columns(
    columns: Seq<MatrixColumn>,
    delta_ms: u64,
    fall: u64,
    height: u16,
) -> Seq<MatrixColumn> {
    Seq::new(columns.len(), |i: int| spec_step_column(columns[i], delta_ms, fall, height))
}

/// The sine of the cell in column `x` and row `y`, or 0 where `sines` holds
/// none for it.
pub open spec fn sine_at(sines: Seq<Vec<i32>>, x: int, y: int) -> i32 {
    if 0 <= y < sines.len() && 0 <= x < sines[y]@.len() {
        sines[y]@[x]
    } else {
        0
    }
}

/// Background animation state.
#[derive(Debug)]
pub struct BackgroundState {
    /// Matrix rain column states.
    pub matrix_columns: Vec<MatrixColumn>,
    /// Last known terminal width.
    pub last_width: u16,
    /// Last known terminal height.
    pub last_height: u16,
    /// Last update time in milliseconds.
    pub last_update_ms: u64,
}

impl BackgroundState {
    /// The state holds one rain column for each column of the screen that
    /// the rain last started on. A new state is so, and every frame keeps
    /// it so.
    pub open spec fn wf(&self) -> bool {
        self.matrix_columns@.len() == self.last_width
    }

    /// Whether a frame of the given style and size starts the rain anew:
    /// the rain does so whenever the size of the screen has changed.
    pub open spec fn restarts(&self, width: u16, height: u16, style: BackgroundStyle) -> bool {
        style == BackgroundStyle::MatrixRain && (width != self.last_width || height
            != self.last_height)
    }

    /// The time that the rain falls in a frame at `elapsed_ms`: the time
    /// since the last update, and none where the clock went back.
    pub open spec fn spec_delta_ms(&self, elapsed_ms: u64) -> u64 {
        if elapsed_ms >= self.last_update_ms {
            (elapsed_ms - self.last_update_ms) as u64
        } else {
            0
        }
    }

    /// The rain columns after a frame: for the rain, the columns, started
    /// anew where the size has changed, moved on by the time since the last
    /// update; for any other style, the columns as they were.
    pub open spec fn spec_columns_after(
        &self,
        width: u16,
        height: u16,
        style: BackgroundStyle,
        elapsed_ms: u64,
        speed: AnimationSpeed,
    ) -> Seq<MatrixColumn> {
        if style == BackgroundStyle::MatrixRain {
            spec_step_columns(
                if self.restarts(width, height, style) {
                    spec_init_columns(width, height)
                } else {
                    self.matrix_columns@
                },
                self.spec_delta_ms(elapsed_ms),
                speed.spec_matrix_fall_speed(),
                height,
            )
        } else {
            self.matrix_columns@
        }
    }

    /// Create a new background state.
    pub fn new() -> (state: Self)
        ensures
            state.matrix_columns@.len() == 0,
            state.last_width == 0,
            state.last_height == 0,
            state.last_update_ms == 0,
            state.wf(),
    {
        BackgroundState {
            matrix_columns: Vec::new(),
            last_width: 0,
            last_height: 0,
            last_update_ms: 0,
        }
    }

    /// Initialize or reinitialize matrix columns for the given dimensions.
    pub fn init_matrix_columns(&mut self, width: u16, height: u16)
        ensures
            final(self).matrix_columns@ == spec_init_columns(width, height),
            final(self).last_width == width,
            final(self).last_height == height,
            final(self).last_update_ms == old(self).last_update_ms,
            final(self).wf(),
    {
        let mut columns: Vec<MatrixColumn> = Vec::new();
        let mut x: u16 = 0;
        while x < width
            invariant
                x <= width,
                columns.len() == x,
                forall|i: int|
                    0 <= i < x ==> #[trigger] columns@[i] == spec_init_column(i, height as int),
            decreases width - x,
        {
            columns.push(init_column(x, height));
            x += 1;
        }
        assert(columns@ =~= spec_init_columns(width, height));
        self.matrix_columns = columns;
        self.last_width = width;
        self.last_height = height;
    }

    /// Update matrix column positions.
    pub fn update_matrix(&mut self, elapsed_ms: u64, height: u16, speed: AnimationSpeed)
        ensures
            final(self).matrix_columns@ == spec_step_columns(
                old(self).matrix_columns@,
                old(self).spec_delta_ms(elapsed_ms),
                speed.spec_matrix_fall_speed(),
                height,
            ),
            final(self).last_update_ms == elapsed_ms,
            final(self).last_width == old(self).last_width,
            final(self).last_height == old(self).last_height,
            final(self).matrix_columns@.len() == old(self).matrix_columns@.len(),
            old(self).wf() ==> final(self).wf(),
    {
        let delta_ms: u64 = if elapsed_ms >= self.last_update_ms {
            elapsed_ms - self.last_update_ms
        } else {
            0
        };
        self.last_update_ms = elapsed_ms;
        let ghost before = self.matrix_columns@;
        let n = self.matrix_columns.len();
        let mut i: usize = 0;
        while i < n
            invariant
                i <= n,
                n == self.matrix_columns@.len(),
                n == before.len(),
                self.last_update_ms == elapsed_ms,
                self.last_width == old(self).last_width,
                self.last_height == old(self).last_height,
                forall|k: int|
                    0 <= k < i ==> #[trigger] self.matrix_columns@[k] == spec_step_column(
                        before[k],
                        delta_ms,
                        speed.spec_matrix_fall_speed(),
                        height,
                    ),
                forall|k: int| i <= k < n ==> #[trigger] self.matrix_columns@[k] == before[k],
            decreases n - i,
        {
            let col = self.matrix_columns[i];
            let next = step_column(col, delta_ms, speed, height);
            self.matrix_columns.set(i, next);
            i += 1;
        }
        assert(self.matrix_columns@ =~= spec_step_columns(
            before,
            delta_ms,
            speed.spec_matrix_fall_speed(),
            height,
        ));
    }

    /// Render a single background character at the given position. `sine`
    /// is the sine, in millionths, of the phase that `gradient_phase` gives
    /// for the cell; the gradient wave alone reads it.
    pub fn render_char(
        &self,
        x: u16,
        y: u16,
        width: u16,
        height: u16,
        style: BackgroundStyle,
        elapsed_ms: u64,
        speed: AnimationSpeed,
        sine: i32,
    ) -> (cell: BackgroundCell)
        ensures
            cell == spec_cell(self.matrix_columns@, x, y, width, style, elapsed_ms, speed, sine),
    {
        match style {
            BackgroundStyle::Off => BackgroundCell::Blank,
            BackgroundStyle::Starfield => render_starfield_char(x, y, elapsed_ms, speed),
            BackgroundStyle::MatrixRain => self.render_matrix_char(x, y, height),
            BackgroundStyle::GradientWave => render_gradient_char(
                x,
                y,
                width,
                height,
                elapsed_ms,
                speed,
                sine,
            ),
        }
    }

    /// Render a matrix rain character.
    pub fn render_matrix_char(&self, x: u16, y: u16, _height: u16) -> (cell: BackgroundCell)
        ensures
            cell == spec_matrix_cell(self.matrix_columns@, x, y),
    {
        if x as usize >= self.matrix_columns.len() {
            return BackgroundCell::Blank;
        }
        render_column_char(self.matrix_columns[x as usize], y)
    }

    /// Render one frame of the background: a grid of `height` rows of
    /// `width` cells each, or no rows at all where the background is off.
    ///
    /// `sines` holds, for the gradient wave, the sine in millionths of the
    /// phase that `gradient_phase` gives for each cell, row by row; a cell
    /// for which it holds none is drawn with the sine 0.
    pub fn render(
        &mut self,
        width: u16,
        height: u16,
        style: BackgroundStyle,
        elapsed_ms: u64,
        speed: AnimationSpeed,
        sines: &Vec<Vec<i32>>,
    ) -> (grid: Vec<Vec<BackgroundCell>>)
        ensures
            final(self).matrix_columns@ == old(self).spec_columns_after(
                width,
                height,
                style,
                elapsed_ms,
                speed,
            ),
            final(self).last_width == if old(self).restarts(width, height, style) {
                width
            } else {
                old(self).last_width
            },
            final(self).last_height == if old(self).restarts(width, height, style) {
                height
            } else {
                old(self).last_height
            },
            final(self).last_update_ms == if style == BackgroundStyle::MatrixRain {
                elapsed_ms
            } else {
                old(self).last_update_ms
            },
            old(self).wf() ==> final(self).wf(),
            old(self).restarts(width, height, style) ==> final(self).wf(),
            style == BackgroundStyle::MatrixRain && final(self).wf()
                ==> final(self).matrix_columns@.len() == width,
            grid.len() == if style == BackgroundStyle::Off {
                0
            } else {
                height as int
            },
            forall|y: int| 0 <= y < grid.len() ==> (#[trigger] grid[y]).len() == width,
            forall|y: int, x: int|
                0 <= y < grid.len() && 0 <= x < width ==> #[trigger] grid[y][x] == spec_cell(
                    final(self).matrix_columns@,
                    x as u16,
                    y as u16,
                    width,
                    style,
                    elapsed_ms,
                    speed,
                    sine_at(sines@, x, y),
                ),
    {
        let mut grid: Vec<Vec<BackgroundCell>> = Vec::new();
        match style {
            BackgroundStyle::Off => {
                return grid;
            },
            BackgroundStyle::MatrixRain => {
                if width != self.last_width || height != self.last_height {
                    self.init_matrix_columns(width, height);
                }
                self.update_matrix(elapsed_ms, height, speed);
            },
            _ => {},
        }
        let mut y: u16 = 0;
        while y < height
            invariant
                y <= height,
                grid.len() == y,
                forall|j: int| 0 <= j < grid.len() ==> (#[trigger] grid[j]).len() == width,
                forall|j: int, i: int|
                    0 <= j < grid.len() && 0 <= i < width ==> #[trigger] grid[j][i] == spec_cell(
                        self.matrix_columns@,
                        i as u16,
                        j as u16,
                        width,
                        style,
                        elapsed_ms,
                        speed,
                        sine_at(sines@, i, j),
                    ),
            decreases height - y,
        {
            let mut row: Vec<BackgroundCell> = Vec::new();
            let mut x: u16 = 0;
            while x < width
                invariant
                    x <= width,
                    y < height,
                    row.len() == x,
                    forall|i: int|
                        0 <= i < x ==> #[trigger] row[i] == spec_cell(
                            self.matrix_columns@,
                            i as u16,
                            y as u16,
                            width,
                            style,
                            elapsed_ms,
                            speed,
                            sine_at(sines@, i, y as int),
                        ),
                decreases width - x,
            {
                let sine: i32 = if (y as usize) < sines.len() && (x as usize) < sines[y as usize].len() {
                    sines[y as usize][x as usize]
                } else {
                    0
                };
                row.push(self.render_char(x, y, width, height, style, elapsed_ms, speed, sine));
                x += 1;
            }
            grid.push(row);
            y += 1;
        }
        grid
    }
}

impl Default for BackgroundState {
    fn default() -> (state: Self)
        ensures
            state.matrix_columns@.len() == 0,
            state.last_width == 0,
            state.last_height == 0,
            state.last_update_ms == 0,
            state.wf(),
    {
        BackgroundState::new()
    }
}

/// A column whose head passes the row `height + trail_length` starts again
/// at the row `-trail_length`, with the seed that follows its own; any other
/// column moves on and keeps its seed. Either way its speed and trail stay,
/// and its head is not beyond the row `height + trail_length`.
pub proof fn lemma_column_wrap(col: MatrixColumn, delta_ms: u64, fall: u64, height: u16)
    ensures
        ({
            let next = spec_step_column(col, delta_ms, fall, height);
            let moved = col.head + delta_ms * fall * col.speed;
            &&& next.speed == col.speed
            &&& next.trail_length == col.trail_length
            &&& next.head <= (height + col.trail_length) * ROW_UNITS
            &&& moved > (height + col.trail_length) * ROW_UNITS ==> next.head == -col.trail_length
                * ROW_UNITS && next.char_seed == wrap64(col.char_seed + 1)
            &&& moved <= (height + col.trail_length) * ROW_UNITS ==> next.head == moved
                && next.char_seed == col.char_seed
        }),
{
    assert(delta_ms * fall * col.speed >= 0) by (nonlinear_arith)
        requires
            delta_ms >= 0,
            fall >= 0,
            col.speed >= 0,
    ;
}

/// The glyphs of the rain are thirty different characters.
pub proof fn lemma_matrix_glyphs_distinct(i: int, j: int)
    requires
        0 <= i < 30,
        0 <= j < 30,
        i != j,
    ensures
        matrix_glyphs().len() == 30,
        matrix_glyphs()[i] != matrix_glyphs()[j],
{
    let g = matrix_glyphs();
    assert(forall|k: int| 0 <= k < 20 ==> 0x30a2 <= (#[trigger] g[k]) as u32 <= 0x30c8);
    assert(forall|k: int| 20 <= k < 30 ==> (#[trigger] g[k]) as u32 == 0x30 + (k - 20));
    if i < 20 && j < 20 {
        assert(g[0] as u32 == 0x30a2 && g[1] as u32 == 0x30a4 && g[2] as u32 == 0x30a6 && g[3] as u32
            == 0x30a8 && g[4] as u32 == 0x30aa && g[5] as u32 == 0x30ab && g[6] as u32 == 0x30ad
            && g[7] as u32 == 0x30af && g[8] as u32 == 0x30b1 && g[9] as u32 == 0x30b3);
        assert(g[10] as u32 == 0x30b5 && g[11] as u32 == 0x30b7 && g[12] as u32 == 0x30b9 && g[13] as u32
            == 0x30bb && g[14] as u32 == 0x30bd && g[15] as u32 == 0x30bf && g[16] as u32 == 0x30c1
            && g[17] as u32 == 0x30c4 && g[18] as u32 == 0x30c6 && g[19] as u32 == 0x30c8);
    }
}

/// The glyph in a row of a column is one of the thirty, and with the next
/// seed the row shows another glyph.
pub proof fn lemma_next_seed_changes_glyph(char_seed: u64, y: u16)
    ensures
        0 <= matrix_glyph_index(char_seed, y) < 30,
        0 <= matrix_glyph_index(wrap64(char_seed + 1) as u64, y) < 30,
        matrix_glyphs()[matrix_glyph_index(wrap64(char_seed + 1) as u64, y)]
            != matrix_glyphs()[matrix_glyph_index(char_seed, y)],
{
    let next = wrap64(char_seed + 1) as u64;
    let a = wrap64(char_seed + y);
    let b = wrap64(next + y);
    assert(b == if a + 1 == 0x1_0000_0000_0000_0000 {
        0
    } else {
        a + 1
    });
    assert(a % 30 != b % 30);
    lemma_matrix_glyphs_distinct(a % 30, b % 30);
}

} // verus!
