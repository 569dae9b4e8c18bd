//! Large ASCII-art clock text: bitmap fonts, glyph compositing, colour themes,
//! colour animation and animated backgrounds, all in exact integer arithmetic.

pub mod animation;
pub mod background;
pub mod clock;
pub mod color;
pub mod font;
pub mod hsl;
pub mod parser;
pub mod registry;
pub mod settings;
pub mod style;
pub mod text;

pub use animation::{animation_phase, apply_animation, is_colon_visible, SCALE};
pub use background::{BackgroundCell, BackgroundState, MatrixColumn};
pub use color::{color_to_rgb, Color, ColorTheme};
pub use font::Font;
pub use hsl::{hsl_to_rgb, rgb_to_hsl, Hsl, Ratio};
pub use parser::{parse_flf, FlfHeader, ParseError};
pub use registry::{FontFile, FontRegistry, FontSource};
pub use settings::{SettingsDialog, SettingsField};
pub use style::{AnimationSpeed, AnimationStyle, BackgroundStyle, TimeFormat};
