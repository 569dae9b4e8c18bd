//! Colours and colour themes.
//!
//! A theme is either static (one fixed colour) or dynamic (a colour that
//! depends on where a character stands). Positions are fractions `x / width`
//! and `y / height`; every channel is computed in exact integer arithmetic as
//! the floor of a rational number, so a position always gives the same colour.

use vstd::prelude::*;

verus! {

/// A terminal colour: one of the named palette colours that the themes use,
/// a 24-bit colour, or any other colour of the terminal.
#[derive(Debug, Clone, Copy, PartialEq, Eq, Structural)]
pub enum Color {
    Red,
    Green,
    Blue,
    Yellow,
    Magenta,
    Cyan,
    White,
    Rgb(u8, u8, u8),
    /// Any other colour of the terminal. Where its channels are needed it
    /// counts as the middle grey.
    Other,
}

/// The red, green and blue channels that stand for a colour.
pub open spec fn spec_color_to_rgb(color: Color) -> (u8, u8, u8) {
    match color {
        Color::Rgb(r, g, b) => (r, g, b),
        Color::Red => (255, 0, 0),
        Color::Green => (0, 255, 0),
        Color::Blue => (0, 0, 255),
        Color::Yellow => (255, 255, 0),
        Color::Magenta => (255, 0, 255),
        Color::Cyan => (0, 255, 255),
        Color::White => (255, 255, 255),
        Color::Other => (128, 128, 128),
    }
}

/// Extract RGB values from a colour.
pub fn color_to_rgb(color: Color) -> (rgb: (u8, u8, u8))
    ensures
        rgb == spec_color_to_rgb(color),
{
    match color {
        Color::Rgb(r, g, b) => (r, g, b),
        Color::Red => (255, 0, 0),
        Color::Green => (0, 255, 0),
        Color::Blue => (0, 0, 255),
        Color::Yellow => (255, 255, 0),
        Color::Magenta => (255, 0, 255),
        Color::Cyan => (0, 255, 255),
        Color::White => (255, 255, 255),
        Color::Other => (128, 128, 128),
    }
}

/// Colour `i` of the seven-colour rainbow: red, orange, yellow, green, cyan,
/// blue, magenta.
pub open spec fn rainbow_color(i: int) -> Color {
    if i == 0 {
        Color::Red
    } else if i == 1 {
        Color::Rgb(255, 127, 0)
    } else if i == 2 {
        Color::Yellow
    } else if i == 3 {
        Color::Green
    } else if i == 4 {
        Color::Cyan
    } else if i == 5 {
        Color::Blue
    } else {
        Color::Magenta
    }
}

/// Index into the rainbow of position `pos` on an axis of length `extent`:
/// the axis is cut into seven bands of equal length.
pub open spec fn rainbow_index(pos: int, extent: int) -> int {
    if extent > 0 {
        ((pos * 7) / extent) % 7
    } else {
        0
    }
}

/// The channel value `floor(k * n / d)`, capped at 255.
pub open spec fn ramp(k: int, n: int, d: int) -> int {
    if (k * n) / d < 255 {
        (k * n) / d
    } else {
        255
    }
}

/// `base + step`, capped at 255.
pub open spec fn capped_sum(base: int, step: int) -> int {
    if base + step < 255 {
        base + step
    } else {
        255
    }
}

/// Numerator of the horizontal progress of column `x` on a line of `width`
/// columns. The progress is 0 where the line is empty.
pub open spec fn progress_num(x: int, width: int) -> int {
    if width > 0 {
        x
    } else {
        0
    }
}

/// Denominator of the horizontal progress.
pub open spec fn progress_den(width: int) -> int {
    if width > 0 {
        width
    } else {
        1
    }
}

/// Red over orange to yellow, with the orange at progress 1/2.
pub open spec fn gradient_warm(n: int, d: int) -> Color {
    if 2 * n < d {
        Color::Rgb(255, ramp(254, n, d) as u8, 0)
    } else {
        Color::Rgb(255, capped_sum(127, ramp(128, 2 * n - d, d)) as u8, 0)
    }
}

/// Blue over cyan to green, with the cyan at progress 1/2.
pub open spec fn gradient_cool(n: int, d: int) -> Color {
    if 2 * n < d {
        Color::Rgb(0, ramp(510, n, d) as u8, 255)
    } else {
        Color::Rgb(0, 255, (255 - ramp(255, 2 * n - d, d)) as u8)
    }
}

/// Dark blue over cyan to teal, with the cyan at progress 1/2.
pub open spec fn gradient_ocean(n: int, d: int) -> Color {
    if 2 * n < d {
        Color::Rgb(ramp(200, n, d) as u8, capped_sum(150, ramp(210, n, d)) as u8, 255)
    } else {
        Color::Rgb(100, 255, (255 - ramp(127, 2 * n - d, d)) as u8)
    }
}

/// Magenta to cyan in one linear segment.
pub open spec fn gradient_neon(n: int, d: int) -> Color {
    Color::Rgb((255 - ramp(255, n, d)) as u8, ramp(255, n, d) as u8, 255)
}

/// Dark red to red, red to orange, orange to yellow, with the breakpoints at
/// progress 33/100 and 66/100.
pub open spec fn gradient_fire(n: int, d: int) -> Color {
    if 100 * n < 33 * d {
        Color::Rgb(capped_sum(128, ramp(381, n, d)) as u8, 0, 0)
    } else if 100 * n < 66 * d {
        Color::Rgb(255, ramp(495, 100 * n - 33 * d, 100 * d) as u8, 0)
    } else {
        Color::Rgb(255, capped_sum(165, ramp(270, 100 * n - 66 * d, 100 * d)) as u8, 0)
    }
}

/// Color theme for the clock display.
#[derive(Debug, Clone, Copy, PartialEq, Eq, Structural)]
pub enum ColorTheme {
    Cyan,
    Green,
    White,
    Magenta,
    Yellow,
    Red,
    Blue,
    Rainbow,
    RainbowVertical,
    GradientWarm,
    GradientCool,
    GradientOcean,
    GradientNeon,
    GradientFire,
}

impl ColorTheme {
    /// Number of themes in the cycle.
    pub open spec fn count() -> int {
        14
    }

    /// Position of this theme in the cycle order.
    pub open spec fn index(self) -> int {
        match self {
            ColorTheme::Cyan => 0,
            ColorTheme::Green => 1,
            ColorTheme::Magenta => 2,
            ColorTheme::Yellow => 3,
            ColorTheme::Red => 4,
            ColorTheme::Blue => 5,
            ColorTheme::White => 6,
            ColorTheme::Rainbow => 7,
            ColorTheme::RainbowVertical => 8,
            ColorTheme::GradientWarm => 9,
            ColorTheme::GradientCool => 10,
            ColorTheme::GradientOcean => 11,
            ColorTheme::GradientNeon => 12,
            ColorTheme::GradientFire => 13,
        }
    }

    /// The theme at a position of the cycle order.
    pub open spec fn from_index(i: int) -> ColorTheme {
        if i == 0 {
            ColorTheme::Cyan
        } else if i == 1 {
            ColorTheme::Green
        } else if i == 2 {
            ColorTheme::Magenta
        } else if i == 3 {
            ColorTheme::Yellow
        } else if i == 4 {
            ColorTheme::Red
        } else if i == 5 {
            ColorTheme::Blue
        } else if i == 6 {
            ColorTheme::White
        } else if i == 7 {
            ColorTheme::Rainbow
        } else if i == 8 {
            ColorTheme::RainbowVertical
        } else if i == 9 {
            ColorTheme::GradientWarm
        } else if i == 10 {
            ColorTheme::GradientCool
        } else if i == 11 {
            ColorTheme::GradientOcean
        } else if i == 12 {
            ColorTheme::GradientNeon
        } else {
            ColorTheme::GradientFire
        }
    }

    /// The next one in the cycle order, the first after the last.
    pub open spec fn spec_next(self) -> ColorTheme {
        Self::from_index((self.index() + 1) % Self::count())
    }

    /// The one before in the cycle order, the last before the first.
    pub open spec fn spec_prev(self) -> ColorTheme {
        Self::from_index((self.index() + Self::count() - 1) % Self::count())
    }

    /// The theme reached by `n` steps of `next`.
    pub open spec fn spec_next_n(self, n: nat) -> ColorTheme
        decreases n,
    {
        if n == 0 {
            self
        } else {
            self.spec_next().spec_next_n((n - 1) as nat)
        }
    }

    /// The one colour of a static theme; for a dynamic theme, the named
    /// colour that stands for it where only one colour can be shown.
    pub open spec fn spec_color(self) -> Color {
        match self {
            ColorTheme::Cyan => Color::Cyan,
            ColorTheme::Green => Color::Green,
            ColorTheme::White => Color::White,
            ColorTheme::Magenta => Color::Magenta,
            ColorTheme::Yellow => Color::Yellow,
            ColorTheme::Red => Color::Red,
            ColorTheme::Blue => Color::Blue,
            ColorTheme::Rainbow => Color::Magenta,
            ColorTheme::RainbowVertical => Color::Magenta,
            ColorTheme::GradientNeon => Color::Magenta,
            ColorTheme::GradientWarm => Color::Red,
            ColorTheme::GradientFire => Color::Red,
            ColorTheme::GradientCool => Color::Cyan,
            ColorTheme::GradientOcean => Color::Cyan,
        }
    }

    /// Whether the theme's colour depends on the position.
    pub open spec fn spec_is_dynamic(self) -> bool {
        self.index() >= 7
    }

    /// The colour of the character in column `x` and row `y` of a text that
    /// is `width` columns wide and `height` rows high.
    pub open spec fn spec_color_at_position(self, x: int, y: int, width: int, height: int) -> Color {
        let n = progress_num(x, width);
        let d = progress_den(width);
        match self {
            ColorTheme::Rainbow => rainbow_color(rainbow_index(x, width)),
            ColorTheme::RainbowVertical => rainbow_color(rainbow_index(y, height)),
            ColorTheme::GradientWarm => gradient_warm(n, d),
            ColorTheme::GradientCool => gradient_cool(n, d),
            ColorTheme::GradientOcean => gradient_ocean(n, d),
            ColorTheme::GradientNeon => gradient_neon(n, d),
            ColorTheme::GradientFire => gradient_fire(n, d),
            _ => self.spec_color(),
        }
    }

    /// The name under which the settings show it.
    pub open spec fn spec_display_name(self) -> Seq<char> {
        match self {
            ColorTheme::Cyan => "Cyan"@,
            ColorTheme::Green => "Green"@,
            ColorTheme::White => "White"@,
            ColorTheme::Magenta => "Magenta"@,
            ColorTheme::Yellow => "Yellow"@,
            ColorTheme::Red => "Red"@,
            ColorTheme::Blue => "Blue"@,
            ColorTheme::Rainbow => "Rainbow"@,
            ColorTheme::RainbowVertical => "Rainbow V"@,
            ColorTheme::GradientWarm => "Warm"@,
            ColorTheme::GradientCool => "Cool"@,
            ColorTheme::GradientOcean => "Ocean"@,
            ColorTheme::GradientNeon => "Neon"@,
            ColorTheme::GradientFire => "Fire"@,
        }
    }

    /// Cycle to the next color theme.
    pub fn next(&self) -> (r: Self)
        ensures
            r == self.spec_next(),
    {
        match self {
            ColorTheme::Cyan => ColorTheme::Green,
            ColorTheme::Green => ColorTheme::Magenta,
            ColorTheme::Magenta => ColorTheme::Yellow,
            ColorTheme::Yellow => ColorTheme::Red,
            ColorTheme::Red => ColorTheme::Blue,
            ColorTheme::Blue => ColorTheme::White,
            ColorTheme::White => ColorTheme::Rainbow,
            ColorTheme::Rainbow => ColorTheme::RainbowVertical,
            ColorTheme::RainbowVertical => ColorTheme::GradientWarm,
            ColorTheme::GradientWarm => ColorTheme::GradientCool,
            ColorTheme::GradientCool => ColorTheme::GradientOcean,
            ColorTheme::GradientOcean => ColorTheme::GradientNeon,
            ColorTheme::GradientNeon => ColorTheme::GradientFire,
            ColorTheme::GradientFire => ColorTheme::Cyan,
        }
    }

    /// Cycle to the previous color theme.
    pub fn prev(&self) -> (r: Self)
        ensures
            r == self.spec_prev(),
    {
        match self {
            ColorTheme::Cyan => ColorTheme::GradientFire,
            ColorTheme::Green => ColorTheme::Cyan,
            ColorTheme::Magenta => ColorTheme::Green,
            ColorTheme::Yellow => ColorTheme::Magenta,
            ColorTheme::Red => ColorTheme::Yellow,
            ColorTheme::Blue => ColorTheme::Red,
            ColorTheme::White => ColorTheme::Blue,
            ColorTheme::Rainbow => ColorTheme::White,
            ColorTheme::RainbowVertical => ColorTheme::Rainbow,
            ColorTheme::GradientWarm => ColorTheme::RainbowVertical,
            ColorTheme::GradientCool => ColorTheme::GradientWarm,
            ColorTheme::GradientOcean => ColorTheme::GradientCool,
            ColorTheme::GradientNeon => ColorTheme::GradientOcean,
            ColorTheme::GradientFire => ColorTheme::GradientNeon,
        }
    }

    /// The theme's colour where one colour stands for the whole theme.
    pub fn color(self) -> (c: Color)
        ensures
            c == self.spec_color(),
    {
        match self {
            ColorTheme::Cyan => Color::Cyan,
            ColorTheme::Green => Color::Green,
            ColorTheme::White => Color::White,
            ColorTheme::Magenta => Color::Magenta,
            ColorTheme::Yellow => Color::Yellow,
            ColorTheme::Red => Color::Red,
            ColorTheme::Blue => Color::Blue,
            ColorTheme::Rainbow | ColorTheme::RainbowVertical | ColorTheme::GradientNeon => {
                Color::Magenta
            },
            ColorTheme::GradientWarm | ColorTheme::GradientFire => Color::Red,
            ColorTheme::GradientCool | ColorTheme::GradientOcean => Color::Cyan,
        }
    }

    /// Check if this theme requires per-character coloring.
    pub fn is_dynamic(self) -> (b: bool)
        ensures
            b == self.spec_is_dynamic(),
    {
        match self {
            ColorTheme::Rainbow
            | ColorTheme::RainbowVertical
            | ColorTheme::GradientWarm
            | ColorTheme::GradientCool
            | ColorTheme::GradientOcean
            | ColorTheme::GradientNeon
            | ColorTheme::GradientFire => true,
            _ => false,
        }
    }

    /// Get color at a specific position for dynamic themes.
    /// `x` is the horizontal position (column), `y` is the vertical position (row).
    /// `width` and `height` are the total dimensions for normalization.
    pub fn color_at_position(self, x: usize, y: usize, width: usize, height: usize) -> (c: Color)
        ensures
            c == self.spec_color_at_position(x as int, y as int, width as int, height as int),
            !self.spec_is_dynamic() ==> c == self.spec_color(),
    {
        let n: u128 = if width > 0 {
            x as u128
        } else {
            0
        };
        let d: u128 = if width > 0 {
            width as u128
        } else {
            1
        };
        match self {
            ColorTheme::Rainbow => rainbow_at(x, width),
            ColorTheme::RainbowVertical => rainbow_at(y, height),
            ColorTheme::GradientWarm => {
                if 2 * n < d {
                    Color::Rgb(255, ramp_channel(254, n, d), 0)
                } else {
                    Color::Rgb(255, capped_add(127, ramp_channel(128, 2 * n - d, d)), 0)
                }
            },
            ColorTheme::GradientCool => {
                if 2 * n < d {
                    Color::Rgb(0, ramp_channel(510, n, d), 255)
                } else {
                    Color::Rgb(0, 255, 255 - ramp_channel(255, 2 * n - d, d))
                }
            },
            ColorTheme::GradientOcean => {
                if 2 * n < d {
                    Color::Rgb(
                        ramp_channel(200, n, d),
                        capped_add(150, ramp_channel(210, n, d)),
                        255,
                    )
                } else {
                    Color::Rgb(100, 255, 255 - ramp_channel(127, 2 * n - d, d))
                }
            },
            ColorTheme::GradientNeon => {
                let g = ramp_channel(255, n, d);
                Color::Rgb(255 - g, g, 255)
            },
            ColorTheme::GradientFire => {
                if 100 * n < 33 * d {
                    Color::Rgb(capped_add(128, ramp_channel(381, n, d)), 0, 0)
                } else if 100 * n < 66 * d {
                    Color::Rgb(255, ramp_channel(495, 100 * n - 33 * d, 100 * d), 0)
                } else {
                    Color::Rgb(
                        255,
                        capped_add(165, ramp_channel(270, 100 * n - 66 * d, 100 * d)),
                        0,
                    )
                }
            },
            _ => self.color(),
        }
    }

    /// Get display name for the theme.
    pub fn display_name(self) -> (r: &'static str)
        ensures
            r@ == self.spec_display_name(),
    {
        match self {
            ColorTheme::Cyan => "Cyan",
            ColorTheme::Green => "Green",
            ColorTheme::White => "White",
            ColorTheme::Magenta => "Magenta",
            ColorTheme::Yellow => "Yellow",
            ColorTheme::Red => "Red",
            ColorTheme::Blue => "Blue",
            ColorTheme::Rainbow => "Rainbow",
            ColorTheme::RainbowVertical => "Rainbow V",
            ColorTheme::GradientWarm => "Warm",
            ColorTheme::GradientCool => "Cool",
            ColorTheme::GradientOcean => "Ocean",
            ColorTheme::GradientNeon => "Neon",
            ColorTheme::GradientFire => "Fire",
        }
    }

    /// `index` and `from_index` are inverse to each other on the cycle.
    pub proof fn lemma_index_roundtrip(self)
        ensures
            0 <= self.index() < Self::count(),
            Self::from_index(self.index()) == self,
    {
    }

    /// `next` and `prev` undo each other.
    pub proof fn lemma_next_prev_inverse(self)
        ensures
            self.spec_prev().spec_next() == self,
            self.spec_next().spec_prev() == self,
    {
    }

    /// Stepping `next` once for every theme of the cycle returns to the start.
    pub proof fn lemma_full_cycle(self)
        ensures
            self.spec_next_n(Self::count() as nat) == self,
    {
        self.lemma_next_n_index(Self::count() as nat);
    }

    /// `n` steps of `next` move `n` places forward in the cycle order.
    pub proof fn lemma_next_n_index(self, n: nat)
        ensures
            self.spec_next_n(n) == Self::from_index((self.index() + n) % Self::count()),
        decreases n,
    {
        if n > 0 {
            let m = self.spec_next();
            m.lemma_next_n_index((n - 1) as nat);
            assert(m.index() == (self.index() + 1) % 14);
            assert((m.index() + (n - 1)) % 14 == (self.index() + n) % 14);
        }
    }

    /// A static theme has the same colour at every position.
    pub proof fn lemma_static_ignores_position(self, x: int, y: int, width: int, height: int)
        requires
            !self.spec_is_dynamic(),
        ensures
            self.spec_color_at_position(x, y, width, height) == self.spec_color(),
    {
    }
}

impl Default for ColorTheme {
    fn default() -> (r: Self)
        ensures
            r == ColorTheme::Cyan,
    {
        ColorTheme::Cyan
    }
}

/// The rainbow colour of position `pos` on an axis of length `extent`.
fn rainbow_at(pos: usize, extent: usize) -> (c: Color)
    ensures
        c == rainbow_color(rainbow_index(pos as int, extent as int)),
{
    let idx: u128 = if extent > 0 {
        ((pos as u128) * 7 / (extent as u128)) % 7
    } else {
        0
    };
    if idx == 0 {
        Color::Red
    } else if idx == 1 {
        Color::Rgb(255, 127, 0)
    } else if idx == 2 {
        Color::Yellow
    } else if idx == 3 {
        Color::Green
    } else if idx == 4 {
        Color::Cyan
    } else if idx == 5 {
        Color::Blue
    } else {
        Color::Magenta
    }
}

/// `floor(k * n / d)`, capped at 255.
fn ramp_channel(k: u128, n: u128, d: u128) -> (v: u8)
    requires
        d > 0,
        k <= 1000,
        n <= 0x1_0000_0000_0000_0000_0000,
    ensures
        v == ramp(k as int, n as int, d as int),
{
    assert(k * n <= 1000 * 0x1_0000_0000_0000_0000_0000) by (nonlinear_arith)
        requires
            k <= 1000,
            n <= 0x1_0000_0000_0000_0000_0000,
    ;
    let q: u128 = (k * n) / d;
    if q < 255 {
        q as u8
    } else {
        255
    }
}

/// `base + step`, capped at 255.
fn capped_add(base: u8, step: u8) -> (v: u8)
    ensures
        v == capped_sum(base as int, step as int),
{
    if step < 255 - base {
        base + step
    } else {
        255
    }
}

} // verus!
