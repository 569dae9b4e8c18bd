//! Display settings that are closed enumerations: the clock's time format,
//! the animation style and speed, and the background style.
//!
//! Every enumeration that can be cycled through has a fixed cycle order. The
//! order is given by `index` / `from_index`; `next` and `prev` step through it
//! and wrap around at the ends.

use vstd::prelude::*;

verus! {

/// Time format for the clock display.
#[derive(Debug, Clone, Copy, PartialEq, Eq, Structural)]
pub enum TimeFormat {
    TwentyFourHour,
    TwelveHour,
}

impl TimeFormat {
    /// The other format.
    pub open spec fn spec_toggle(self) -> TimeFormat {
        match self {
            TimeFormat::TwentyFourHour => TimeFormat::TwelveHour,
            TimeFormat::TwelveHour => TimeFormat::TwentyFourHour,
        }
    }

    /// Toggle between 12-hour and 24-hour format.
    pub fn toggle(&self) -> (r: Self)
        ensures
            r == self.spec_toggle(),
            r != *self,
    {
        match self {
            TimeFormat::TwentyFourHour => TimeFormat::TwelveHour,
            TimeFormat::TwelveHour => TimeFormat::TwentyFourHour,
        }
    }

    /// Toggling twice gives the format back.
    pub proof fn lemma_toggle_involution(self)
        ensures
            self.spec_toggle().spec_toggle() == self,
    {
    }
}

impl Default for TimeFormat {
    fn default() -> (r: Self)
        ensures
            r == TimeFormat::TwentyFourHour,
    {
        TimeFormat::TwentyFourHour
    }
}

/// Animation style for color themes.
#[derive(Debug, Clone, Copy, PartialEq, Eq, Structural)]
pub enum AnimationStyle {
    Off,
    Shifting,
    Pulsing,
    Wave,
    Reactive,
}

impl AnimationStyle {
    /// Number of styles in the cycle.
    pub open spec fn count() -> int {
        5
    }

    /// Position of this style in the cycle order.
    pub open spec fn index(self) -> int {
        match self {
            AnimationStyle::Off => 0,
            AnimationStyle::Shifting => 1,
            AnimationStyle::Pulsing => 2,
            AnimationStyle::Wave => 3,
            AnimationStyle::Reactive => 4,
        }
    }

    /// The style at a position of the cycle order.
    pub open spec fn from_index(i: int) -> AnimationStyle {
        if i == 0 {
            AnimationStyle::Off
        } else if i == 1 {
            AnimationStyle::Shifting
        } else if i == 2 {
            AnimationStyle::Pulsing
        } else if i == 3 {
            AnimationStyle::Wave
        } else {
            AnimationStyle::Reactive
        }
    }

    /// The next one in the cycle order, the first after the last.
    pub open spec fn spec_next(self) -> AnimationStyle {
        Self::from_index((self.index() + 1) % Self::count())
    }

    /// The one before in the cycle order, the last before the first.
    pub open spec fn spec_prev(self) -> AnimationStyle {
        Self::from_index((self.index() + Self::count() - 1) % Self::count())
    }

    /// The style reached by `n` steps of `next`.
    pub open spec fn spec_next_n(self, n: nat) -> AnimationStyle
        decreases n,
    {
        if n == 0 {
            self
        } else {
            self.spec_next().spec_next_n((n - 1) as nat)
        }
    }

    /// The name under which the settings show it.
    pub open spec fn spec_display_name(self) -> Seq<char> {
        match self {
            AnimationStyle::Off => "None"@,
            AnimationStyle::Shifting => "Shifting"@,
            AnimationStyle::Pulsing => "Pulsing"@,
            AnimationStyle::Wave => "Wave"@,
            AnimationStyle::Reactive => "Reactive"@,
        }
    }

    /// Cycle to the next animation style.
    pub fn next(&self) -> (r: Self)
        ensures
            r == self.spec_next(),
    {
        match self {
            AnimationStyle::Off => AnimationStyle::Shifting,
            AnimationStyle::Shifting => AnimationStyle::Pulsing,
            AnimationStyle::Pulsing => AnimationStyle::Wave,
            AnimationStyle::Wave => AnimationStyle::Reactive,
            AnimationStyle::Reactive => AnimationStyle::Off,
        }
    }

    /// Cycle to the previous animation style.
    pub fn prev(&self) -> (r: Self)
        ensures
            r == self.spec_prev(),
    {
        match self {
            AnimationStyle::Off => AnimationStyle::Reactive,
            AnimationStyle::Shifting => AnimationStyle::Off,
            AnimationStyle::Pulsing => AnimationStyle::Shifting,
            AnimationStyle::Wave => AnimationStyle::Pulsing,
            AnimationStyle::Reactive => AnimationStyle::Wave,
        }
    }

    /// Get display name for the animation style.
    pub fn display_name(self) -> (r: &'static str)
        ensures
            r@ == self.spec_display_name(),
    {
        match self {
            AnimationStyle::Off => "None",
            AnimationStyle::Shifting => "Shifting",
            AnimationStyle::Pulsing => "Pulsing",
            AnimationStyle::Wave => "Wave",
            AnimationStyle::Reactive => "Reactive",
        }
    }

    /// `index` and `from_index` are inverse to each other on the cycle.
    pub proof fn lemma_index_roundtrip(self)
        ensures
            0 <= self.index() < Self::count(),
            Self::from_index(self.index()) == self,
    {
    }

    /// `next` and `prev` undo each other.
    pub proof fn lemma_next_prev_inverse(self)
        ensures
            self.spec_prev().spec_next() == self,
            self.spec_next().spec_prev() == self,
    {
    }

    /// Stepping `next` once for every style of the cycle returns to the start.
    pub proof fn lemma_full_cycle(self)
        ensures
            self.spec_next_n(Self::count() as nat) == self,
    {
        reveal_with_fuel(AnimationStyle::spec_next_n, 6);
    }
}

impl Default for AnimationStyle {
    fn default() -> (r: Self)
        ensures
            r == AnimationStyle::Off,
    {
        AnimationStyle::Off
    }
}

/// Background animation style for the terminal.
#[derive(Debug, Clone, Copy, PartialEq, Eq, Structural)]
pub enum BackgroundStyle {
    Off,
    Starfield,
    MatrixRain,
    GradientWave,
}

impl BackgroundStyle {
    /// Number of styles in the cycle.
    pub open spec fn count() -> int {
        4
    }

    /// Position of this style in the cycle order.
    pub open spec fn index(self) -> int {
        match self {
            BackgroundStyle::Off => 0,
            BackgroundStyle::Starfield => 1,
            BackgroundStyle::MatrixRain => 2,
            BackgroundStyle::GradientWave => 3,
        }
    }

    /// The style at a position of the cycle order.
    pub open spec fn from_index(i: int) -> BackgroundStyle {
        if i == 0 {
            BackgroundStyle::Off
        } else if i == 1 {
            BackgroundStyle::Starfield
        } else if i == 2 {
            BackgroundStyle::MatrixRain
        } else {
            BackgroundStyle::GradientWave
        }
    }

    /// The next one in the cycle order, the first after the last.
    pub open spec fn spec_next(self) -> BackgroundStyle {
        Self::from_index((self.index() + 1) % Self::count())
    }

    /// The one before in the cycle order, the last before the first.
    pub open spec fn spec_prev(self) -> BackgroundStyle {
        Self::from_index((self.index() + Self::count() - 1) % Self::count())
    }

    /// The style reached by `n` steps of `next`.
    pub open spec fn spec_next_n(self, n: nat) -> BackgroundStyle
        decreases n,
    {
        if n == 0 {
            self
        } else {
            self.spec_next().spec_next_n((n - 1) as nat)
        }
    }

    /// The name under which the settings show it.
    pub open spec fn spec_display_name(self) -> Seq<char> {
        match self {
            BackgroundStyle::Off => "None"@,
            BackgroundStyle::Starfield => "Starfield"@,
            BackgroundStyle::MatrixRain => "Matrix"@,
            BackgroundStyle::GradientWave => "Gradient"@,
        }
    }

    /// Cycle to the next background style.
    pub fn next(&self) -> (r: Self)
        ensures
            r == self.spec_next(),
    {
        match self {
            BackgroundStyle::Off => BackgroundStyle::Starfield,
            BackgroundStyle::Starfield => BackgroundStyle::MatrixRain,
            BackgroundStyle::MatrixRain => BackgroundStyle::GradientWave,
            BackgroundStyle::GradientWave => BackgroundStyle::Off,
        }
    }

    /// Cycle to the previous background style.
    pub fn prev(&self) -> (r: Self)
        ensures
            r == self.spec_prev(),
    {
        match self {
            BackgroundStyle::Off => BackgroundStyle::GradientWave,
            BackgroundStyle::Starfield => BackgroundStyle::Off,
            BackgroundStyle::MatrixRain => BackgroundStyle::Starfield,
            BackgroundStyle::GradientWave => BackgroundStyle::MatrixRain,
        }
    }

    /// Get display name for the background style.
    pub fn display_name(self) -> (r: &'static str)
        ensures
            r@ == self.spec_display_name(),
    {
        match self {
            BackgroundStyle::Off => "None",
            BackgroundStyle::Starfield => "Starfield",
            BackgroundStyle::MatrixRain => "Matrix",
            BackgroundStyle::GradientWave => "Gradient",
        }
    }

    /// `index` and `from_index` are inverse to each other on the cycle.
    pub proof fn lemma_index_roundtrip(self)
        ensures
            0 <= self.index() < Self::count(),
            Self::from_index(self.index()) == self,
    {
    }

    /// `next` and `prev` undo each other.
    pub proof fn lemma_next_prev_inverse(self)
        ensures
            self.spec_prev().spec_next() == self,
            self.spec_next().spec_prev() == self,
    {
    }

    /// Stepping `next` once for every style of the cycle returns to the start.
    pub proof fn lemma_full_cycle(self)
        ensures
            self.spec_next_n(Self::count() as nat) == self,
    {
        reveal_with_fuel(BackgroundStyle::spec_next_n, 5);
    }
}

impl Default for BackgroundStyle {
    fn default() -> (r: Self)
        ensures
            r == BackgroundStyle::Off,
    {
        BackgroundStyle::Off
    }
}

/// Animation speed setting.
#[derive(Debug, Clone, Copy, PartialEq, Eq, Structural)]
pub enum AnimationSpeed {
    Slow,
    Medium,
    Fast,
}

impl AnimationSpeed {
    /// Number of speeds in the cycle.
    pub open spec fn count() -> int {
        3
    }

    /// Position of this speed in the cycle order.
    pub open spec fn index(self) -> int {
        match self {
            AnimationSpeed::Slow => 0,
            AnimationSpeed::Medium => 1,
            AnimationSpeed::Fast => 2,
        }
    }

    /// The speed at a position of the cycle order.
    pub open spec fn from_index(i: int) -> AnimationSpeed {
        if i == 0 {
            AnimationSpeed::Slow
        } else if i == 1 {
            AnimationSpeed::Medium
        } else {
            AnimationSpeed::Fast
        }
    }

    /// The next one in the cycle order, the first after the last.
    pub open spec fn spec_next(self) -> AnimationSpeed {
        Self::from_index((self.index() + 1) % Self::count())
    }

    /// The one before in the cycle order, the last before the first.
    pub open spec fn spec_prev(self) -> AnimationSpeed {
        Self::from_index((self.index() + Self::count() - 1) % Self::count())
    }

    /// The speed reached by `n` steps of `next`.
    pub open spec fn spec_next_n(self, n: nat) -> AnimationSpeed
        decreases n,
    {
        if n == 0 {
            self
        } else {
            self.spec_next().spec_next_n((n - 1) as nat)
        }
    }

    /// The name under which the settings show it.
    pub open spec fn spec_display_name(self) -> Seq<char> {
        match self {
            AnimationSpeed::Slow => "Slow"@,
            AnimationSpeed::Medium => "Medium"@,
            AnimationSpeed::Fast => "Fast"@,
        }
    }

    /// Length in milliseconds of one full hue rotation.
    pub open spec fn spec_shift_cycle_ms(self) -> u64 {
        match self {
            AnimationSpeed::Slow => 30_000,
            AnimationSpeed::Medium => 15_000,
            AnimationSpeed::Fast => 5_000,
        }
    }

    /// Length in milliseconds of one brightness pulse.
    pub open spec fn spec_pulse_period_ms(self) -> u64 {
        match self {
            AnimationSpeed::Slow => 3_000,
            AnimationSpeed::Medium => 1_500,
            AnimationSpeed::Fast => 750,
        }
    }

    /// Time in milliseconds in which the brightness wave travels once across.
    pub open spec fn spec_wave_period_ms(self) -> u64 {
        match self {
            AnimationSpeed::Slow => 4_000,
            AnimationSpeed::Medium => 2_000,
            AnimationSpeed::Fast => 1_000,
        }
    }

    /// Time in milliseconds in which a flash fades out.
    pub open spec fn spec_flash_decay_ms(self) -> u64 {
        match self {
            AnimationSpeed::Slow => 800,
            AnimationSpeed::Medium => 400,
            AnimationSpeed::Fast => 200,
        }
    }

    /// Length in milliseconds of one twinkle frame of the starfield.
    pub open spec fn spec_star_twinkle_period_ms(self) -> u64 {
        match self {
            AnimationSpeed::Slow => 500,
            AnimationSpeed::Medium => 300,
            AnimationSpeed::Fast => 150,
        }
    }

    /// Fall speed of the rain in halves: 1 is half speed, 2 is unit speed.
    pub open spec fn spec_matrix_fall_speed(self) -> u64 {
        match self {
            AnimationSpeed::Slow => 1,
            AnimationSpeed::Medium => 2,
            AnimationSpeed::Fast => 4,
        }
    }

    /// Time in milliseconds in which the gradient wave scrolls once.
    pub open spec fn spec_gradient_scroll_period_ms(self) -> u64 {
        match self {
            AnimationSpeed::Slow => 5000,
            AnimationSpeed::Medium => 3000,
            AnimationSpeed::Fast => 1500,
        }
    }

    /// Cycle to the next speed.
    pub fn next(&self) -> (r: Self)
        ensures
            r == self.spec_next(),
    {
        match self {
            AnimationSpeed::Slow => AnimationSpeed::Medium,
            AnimationSpeed::Medium => AnimationSpeed::Fast,
            AnimationSpeed::Fast => AnimationSpeed::Slow,
        }
    }

    /// Cycle to the previous speed.
    pub fn prev(&self) -> (r: Self)
        ensures
            r == self.spec_prev(),
    {
        match self {
            AnimationSpeed::Slow => AnimationSpeed::Fast,
            AnimationSpeed::Medium => AnimationSpeed::Slow,
            AnimationSpeed::Fast => AnimationSpeed::Medium,
        }
    }

    /// Get display name for the speed.
    pub fn display_name(self) -> (r: &'static str)
        ensures
            r@ == self.spec_display_name(),
    {
        match self {
            AnimationSpeed::Slow => "Slow",
            AnimationSpeed::Medium => "Medium",
            AnimationSpeed::Fast => "Fast",
        }
    }

    /// Get the cycle duration in milliseconds for shifting animation.
    pub fn shift_cycle_ms(self) -> (r: u64)
        ensures
            r == self.spec_shift_cycle_ms(),
    {
        match self {
            AnimationSpeed::Slow => 30_000,
            AnimationSpeed::Medium => 15_000,
            AnimationSpeed::Fast => 5_000,
        }
    }

    /// Get the pulse period in milliseconds.
    pub fn pulse_period_ms(self) -> (r: u64)
        ensures
            r == self.spec_pulse_period_ms(),
    {
        match self {
            AnimationSpeed::Slow => 3_000,
            AnimationSpeed::Medium => 1_500,
            AnimationSpeed::Fast => 750,
        }
    }

    /// Get the wave period in milliseconds.
    pub fn wave_period_ms(self) -> (r: u64)
        ensures
            r == self.spec_wave_period_ms(),
    {
        match self {
            AnimationSpeed::Slow => 4_000,
            AnimationSpeed::Medium => 2_000,
            AnimationSpeed::Fast => 1_000,
        }
    }

    /// Get the flash decay duration in milliseconds for reactive animation.
    pub fn flash_decay_ms(self) -> (r: u64)
        ensures
            r == self.spec_flash_decay_ms(),
    {
        match self {
            AnimationSpeed::Slow => 800,
            AnimationSpeed::Medium => 400,
            AnimationSpeed::Fast => 200,
        }
    }

    /// Get the star twinkle period in milliseconds.
    pub fn star_twinkle_period_ms(self) -> (r: u64)
        ensures
            r == self.spec_star_twinkle_period_ms(),
    {
        match self {
            AnimationSpeed::Slow => 500,
            AnimationSpeed::Medium => 300,
            AnimationSpeed::Fast => 150,
        }
    }

    /// Get the matrix rain fall speed multiplier, counted in halves: slow rain
    /// falls at half speed (1), medium at unit speed (2), fast at double
    /// speed (4).
    pub fn matrix_fall_speed(self) -> (r: u64)
        ensures
            r == self.spec_matrix_fall_speed(),
    {
        match self {
            AnimationSpeed::Slow => 1,
            AnimationSpeed::Medium => 2,
            AnimationSpeed::Fast => 4,
        }
    }

    /// Get the gradient scroll period in milliseconds.
    pub fn gradient_scroll_period_ms(self) -> (r: u64)
        ensures
            r == self.spec_gradient_scroll_period_ms(),
    {
        match self {
            AnimationSpeed::Slow => 5000,
            AnimationSpeed::Medium => 3000,
            AnimationSpeed::Fast => 1500,
        }
    }

    /// `index` and `from_index` are inverse to each other on the cycle.
    pub proof fn lemma_index_roundtrip(self)
        ensures
            0 <= self.index() < Self::count(),
            Self::from_index(self.index()) == self,
    {
    }

    /// `next` and `prev` undo each other.
    pub proof fn lemma_next_prev_inverse(self)
        ensures
            self.spec_prev().spec_next() == self,
            self.spec_next().spec_prev() == self,
    {
    }

    /// Stepping `next` once for every speed of the cycle returns to the start.
    pub proof fn lemma_full_cycle(self)
        ensures
            self.spec_next_n(Self::count() as nat) == self,
    {
        reveal_with_fuel(AnimationSpeed::spec_next_n, 4);
    }
}

impl Default for AnimationSpeed {
    fn default() -> (r: Self)
        ensures
            r == AnimationSpeed::Medium,
    {
        AnimationSpeed::Medium
    }
}

} // verus!
