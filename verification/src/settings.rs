//! The state of the settings dialog: which field is selected, the values
//! being edited, and the values that were current when the dialog was
//! opened, to go back to on cancel.

use vstd::prelude::*;
use vstd::string::*;

use crate::color::ColorTheme;
use crate::registry::names_equal;
use crate::style::{AnimationSpeed, AnimationStyle, BackgroundStyle, TimeFormat};
use crate::text::chars_of;

verus! {

/// The settings field currently being edited.
#[derive(Debug, Clone, Copy, PartialEq, Eq, Structural)]
pub enum SettingsField {
    Font,
    Color,
    TimeFormat,
    Animation,
    Speed,
    Background,
    ColonBlink,
}

impl SettingsField {
    /// Number of fields in the cycle.
    pub open spec fn count() -> int {
        7
    }

    /// Position of this field in the dialog, from the top.
    pub open spec fn index(self) -> int {
        match self {
            SettingsField::Font => 0,
            SettingsField::Color => 1,
            SettingsField::TimeFormat => 2,
            SettingsField::Animation => 3,
            SettingsField::Speed => 4,
            SettingsField::Background => 5,
            SettingsField::ColonBlink => 6,
        }
    }

    /// The field at a position of the dialog.
    pub open spec fn from_index(i: int) -> SettingsField {
        if i == 0 {
            SettingsField::Font
        } else if i == 1 {
            SettingsField::Color
        } else if i == 2 {
            SettingsField::TimeFormat
        } else if i == 3 {
            SettingsField::Animation
        } else if i == 4 {
            SettingsField::Speed
        } else if i == 5 {
            SettingsField::Background
        } else {
            SettingsField::ColonBlink
        }
    }

    /// The next one in the cycle order, the first after the last.
    pub open spec fn spec_next(self) -> SettingsField {
        Self::from_index((self.index() + 1) % Self::count())
    }

    /// The one before in the cycle order, the last before the first.
    pub open spec fn spec_prev(self) -> SettingsField {
        Self::from_index((self.index() + Self::count() - 1) % Self::count())
    }

    /// The field reached by `n` steps of `next`.
    pub open spec fn spec_next_n(self, n: nat) -> SettingsField
        decreases n,
    {
        if n == 0 {
            self
        } else {
            self.spec_next().spec_next_n((n - 1) as nat)
        }
    }

    /// Move to the next field.
    pub fn next(self) -> (r: Self)
        ensures
            r == self.spec_next(),
    {
        match self {
            SettingsField::Font => SettingsField::Color,
            SettingsField::Color => SettingsField::TimeFormat,
            SettingsField::TimeFormat => SettingsField::Animation,
            SettingsField::Animation => SettingsField::Speed,
            SettingsField::Speed => SettingsField::Background,
            SettingsField::Background => SettingsField::ColonBlink,
            SettingsField::ColonBlink => SettingsField::Font,
        }
    }

    /// Move to the previous field.
    pub fn prev(self) -> (r: Self)
        ensures
            r == self.spec_prev(),
    {
        match self {
            SettingsField::Font => SettingsField::ColonBlink,
            SettingsField::Color => SettingsField::Font,
            SettingsField::TimeFormat => SettingsField::Color,
            SettingsField::Animation => SettingsField::TimeFormat,
            SettingsField::Speed => SettingsField::Animation,
            SettingsField::Background => SettingsField::Speed,
            SettingsField::ColonBlink => SettingsField::Background,
        }
    }

    /// `index` and `from_index` are inverse to each other on the cycle.
    pub proof fn lemma_index_roundtrip(self)
        ensures
            0 <= self.index() < Self::count(),
            Self::from_index(self.index()) == self,
    {
    }

    /// `next` and `prev` undo each other.
    pub proof fn lemma_next_prev_inverse(self)
        ensures
            self.spec_prev().spec_next() == self,
            self.spec_next().spec_prev() == self,
    {
    }

    /// Stepping `next` once for every field of the cycle returns to the start.
    pub proof fn lemma_full_cycle(self)
        ensures
            self.spec_next_n(Self::count() as nat) == self,
    {
        reveal_with_fuel(SettingsField::spec_next_n, 8);
    }
}

impl Default for SettingsField {
    fn default() -> (r: Self)
        ensures
            r == SettingsField::Font,
    {
        SettingsField::Font
    }
}

/// Index of the first of `fonts` that is named `name`, or 0 if none is.
pub open spec fn font_position(fonts: Seq<String>, name: Seq<char>) -> int
    decreases fonts.len(),
{
    if fonts.len() == 0 {
        0
    } else if fonts[0]@ == name {
        0
    } else if exists|i: int| 0 <= i < fonts.len() && (#[trigger] fonts[i])@ == name {
        1 + font_position(fonts.drop_first(), name)
    } else {
        0
    }
}

/// Settings dialog state.
#[derive(Debug)]
pub struct SettingsDialog {
    /// Whether the dialog is visible.
    pub visible: bool,
    /// Currently selected field.
    pub selected_field: SettingsField,
    /// Index into available fonts list.
    pub font_index: usize,
    /// List of available font names.
    pub available_fonts: Vec<String>,
    /// Current color theme selection.
    pub color_theme: ColorTheme,
    /// Current time format selection.
    pub time_format: TimeFormat,
    /// Current animation style selection.
    pub animation_style: AnimationStyle,
    /// Current animation speed selection.
    pub animation_speed: AnimationSpeed,
    /// Current background style selection.
    pub background_style: BackgroundStyle,
    /// Current colon blink setting.
    pub colon_blink: bool,
    /// Original font index (for cancel/revert).
    pub original_font_index: usize,
    /// Original color theme (for cancel/revert).
    pub original_color_theme: ColorTheme,
    /// Original time format (for cancel/revert).
    pub original_time_format: TimeFormat,
    /// Original animation style (for cancel/revert).
    pub original_animation_style: AnimationStyle,
    /// Original animation speed (for cancel/revert).
    pub original_animation_speed: AnimationSpeed,
    /// Original background style (for cancel/revert).
    pub original_background_style: BackgroundStyle,
    /// Original colon blink (for cancel/revert).
    pub original_colon_blink: bool,
}

impl SettingsDialog {
    /// The font indices point into the list of fonts, or are 0 where the
    /// list is empty.
    pub open spec fn wf(&self) -> bool {
        &&& self.font_index == 0 || self.font_index < self.available_fonts.len()
        &&& self.original_font_index == 0 || self.original_font_index
            < self.available_fonts.len()
    }

    /// The name of the font at `index`, or `Standard` where the list has
    /// none there.
    pub open spec fn font_name_at(&self, index: usize) -> Seq<char> {
        if index < self.available_fonts.len() {
            self.available_fonts@[index as int]@
        } else {
            "Standard"@
        }
    }

    /// The font index after a step forwards through the fonts.
    pub open spec fn next_font_index(&self) -> usize {
        if self.available_fonts.len() == 0 {
            self.font_index
        } else {
            ((self.font_index + 1) % (self.available_fonts.len() as int)) as usize
        }
    }

    /// The font index after a step backwards through the fonts.
    pub open spec fn prev_font_index(&self) -> usize {
        if self.available_fonts.len() == 0 {
            self.font_index
        } else if self.font_index == 0 {
            (self.available_fonts.len() - 1) as usize
        } else {
            (self.font_index - 1) as usize
        }
    }

    /// Create a new settings dialog.
    pub fn new(available_fonts: Vec<String>) -> (dialog: Self)
        ensures
            dialog.wf(),
            !dialog.visible,
            dialog.selected_field == SettingsField::Font,
            dialog.font_index == 0,
            dialog.available_fonts == available_fonts,
            dialog.color_theme == ColorTheme::Cyan,
            dialog.time_format == TimeFormat::TwentyFourHour,
            dialog.animation_style == AnimationStyle::Off,
            dialog.animation_speed == AnimationSpeed::Medium,
            dialog.background_style == BackgroundStyle::Off,
            !dialog.colon_blink,
            dialog.original_font_index == 0,
            dialog.original_color_theme == ColorTheme::Cyan,
            dialog.original_time_format == TimeFormat::TwentyFourHour,
            dialog.original_animation_style == AnimationStyle::Off,
            dialog.original_animation_speed == AnimationSpeed::Medium,
            dialog.original_background_style == BackgroundStyle::Off,
            !dialog.original_colon_blink,
    {
        SettingsDialog {
            visible: false,
            selected_field: SettingsField::Font,
            font_index: 0,
            available_fonts,
            color_theme: ColorTheme::Cyan,
            time_format: TimeFormat::TwentyFourHour,
            animation_style: AnimationStyle::Off,
            animation_speed: AnimationSpeed::Medium,
            background_style: BackgroundStyle::Off,
            colon_blink: false,
            original_font_index: 0,
            original_color_theme: ColorTheme::Cyan,
            original_time_format: TimeFormat::TwentyFourHour,
            original_animation_style: AnimationStyle::Off,
            original_animation_speed: AnimationSpeed::Medium,
            original_background_style: BackgroundStyle::Off,
            original_colon_blink: false,
        }
    }

    /// Index of the first font of the list that is named `font_name`, or 0
    /// if none is.
    fn position_of(&self, font_name: &str) -> (index: usize)
        ensures
            index == font_position(self.available_fonts@, font_name@),
            index == 0 || index < self.available_fonts.len(),
    {
        let name = chars_of(font_name);
        let n = self.available_fonts.len();
        let mut i: usize = 0;
        assert(self.available_fonts@.skip(0) =~= self.available_fonts@);
        while i < n
            invariant
                i <= n,
                n == self.available_fonts.len(),
                name@ == font_name@,
                forall|k: int| 0 <= k < i ==> (#[trigger] self.available_fonts@[k])@ != name@,
            decreases n - i,
        {
            let current = chars_of(self.available_fonts[i].as_str());
            if names_equal(&current, &name) {
                proof {
                    lemma_font_position(self.available_fonts@, name@, i as int);
                }
                return i;
            }
            i += 1;
        }
        proof {
            lemma_font_position_absent(self.available_fonts@, name@);
        }
        0
    }

    /// Open dialog with current settings.
    pub fn open(
        &mut self,
        font_name: &str,
        color_theme: ColorTheme,
        time_format: TimeFormat,
        animation_style: AnimationStyle,
        animation_speed: AnimationSpeed,
        colon_blink: bool,
        background_style: BackgroundStyle,
    )
        ensures
            final(self).wf(),
            final(self).visible,
            final(self).selected_field == SettingsField::Font,
            final(self).available_fonts == old(self).available_fonts,
            final(self).font_index == font_position(old(self).available_fonts@, font_name@),
            final(self).color_theme == color_theme,
            final(self).time_format == time_format,
            final(self).animation_style == animation_style,
            final(self).animation_speed == animation_speed,
            final(self).background_style == background_style,
            final(self).colon_blink == colon_blink,
            final(self).original_font_index == final(self).font_index,
            final(self).original_color_theme == color_theme,
            final(self).original_time_format == time_format,
            final(self).original_animation_style == animation_style,
            final(self).original_animation_speed == animation_speed,
            final(self).original_background_style == background_style,
            final(self).original_colon_blink == colon_blink,
    {
        self.visible = true;
        self.selected_field = SettingsField::Font;
        self.color_theme = color_theme;
        self.time_format = time_format;
        self.animation_style = animation_style;
        self.animation_speed = animation_speed;
        self.background_style = background_style;
        self.colon_blink = colon_blink;

        self.font_index = self.position_of(font_name);

        self.original_font_index = self.font_index;
        self.original_color_theme = color_theme;
        self.original_time_format = time_format;
        self.original_animation_style = animation_style;
        self.original_animation_speed = animation_speed;
        self.original_background_style = background_style;
        self.original_colon_blink = colon_blink;
    }

    /// Close without saving.
    pub fn close(&mut self)
        ensures
            !final(self).visible,
            *final(self) == (SettingsDialog { visible: false, ..*old(self) }),
    {
        self.visible = false;
    }

    /// Get original font name (for reverting on cancel).
    pub fn original_font(&self) -> (name: &str)
        ensures
            name@ == self.font_name_at(self.original_font_index),
    {
        if self.original_font_index < self.available_fonts.len() {
            self.available_fonts[self.original_font_index].as_str()
        } else {
            "Standard"
        }
    }

    /// Get original color theme (for reverting on cancel).
    pub fn original_color_theme(&self) -> (r: ColorTheme)
        ensures
            r == self.original_color_theme,
    {
        self.original_color_theme
    }

    /// Get original time format (for reverting on cancel).
    pub fn original_time_format(&self) -> (r: TimeFormat)
        ensures
            r == self.original_time_format,
    {
        self.original_time_format
    }

    /// Get original animation style (for reverting on cancel).
    pub fn original_animation_style(&self) -> (r: AnimationStyle)
        ensures
            r == self.original_animation_style,
    {
        self.original_animation_style
    }

    /// Get original animation speed (for reverting on cancel).
    pub fn original_animation_speed(&self) -> (r: AnimationSpeed)
        ensures
            r == self.original_animation_speed,
    {
        self.original_animation_speed
    }

    /// Get original colon blink (for reverting on cancel).
    pub fn original_colon_blink(&self) -> (r: bool)
        ensures
            r == self.original_colon_blink,
    {
        self.original_colon_blink
    }

    /// Get original background style (for reverting on cancel).
    pub fn original_background_style(&self) -> (r: BackgroundStyle)
        ensures
            r == self.original_background_style,
    {
        self.original_background_style
    }

    /// Move to next field.
    pub fn next_field(&mut self)
        ensures
            *final(self) == (SettingsDialog {
                selected_field: old(self).selected_field.spec_next(),
                ..*old(self)
            }),
    {
        self.selected_field = self.selected_field.next();
    }

    /// Move to previous field.
    pub fn prev_field(&mut self)
        ensures
            *final(self) == (SettingsDialog {
                selected_field: old(self).selected_field.spec_prev(),
                ..*old(self)
            }),
    {
        self.selected_field = self.selected_field.prev();
    }

    /// The dialog after the value of the selected field has moved one step
    /// forwards: the selected field has its next value, every other field
    /// is as it was.
    pub open spec fn spec_next_value(self) -> SettingsDialog {
        let field = self.selected_field;
        SettingsDialog {
            font_index: if field == SettingsField::Font {
                self.next_font_index()
            } else {
                self.font_index
            },
            color_theme: if field == SettingsField::Color {
                self.color_theme.spec_next()
            } else {
                self.color_theme
            },
            time_format: if field == SettingsField::TimeFormat {
                self.time_format.spec_toggle()
            } else {
                self.time_format
            },
            animation_style: if field == SettingsField::Animation {
                self.animation_style.spec_next()
            } else {
                self.animation_style
            },
            animation_speed: if field == SettingsField::Speed {
                self.animation_speed.spec_next()
            } else {
                self.animation_speed
            },
            background_style: if field == SettingsField::Background {
                self.background_style.spec_next()
            } else {
                self.background_style
            },
            colon_blink: if field == SettingsField::ColonBlink {
                !self.colon_blink
            } else {
                self.colon_blink
            },
            ..self
        }
    }

    /// The dialog after the value of the selected field has moved one step
    /// backwards: the selected field has its previous value, every other
    /// field is as it was.
    pub open spec fn spec_prev_value(self) -> SettingsDialog {
        let field = self.selected_field;
        SettingsDialog {
            font_index: if field == SettingsField::Font {
                self.prev_font_index()
            } else {
                self.font_index
            },
            color_theme: if field == SettingsField::Color {
                self.color_theme.spec_prev()
            } else {
                self.color_theme
            },
            time_format: if field == SettingsField::TimeFormat {
                self.time_format.spec_toggle()
            } else {
                self.time_format
            },
            animation_style: if field == SettingsField::Animation {
                self.animation_style.spec_prev()
            } else {
                self.animation_style
            },
            animation_speed: if field == SettingsField::Speed {
                self.animation_speed.spec_prev()
            } else {
                self.animation_speed
            },
            background_style: if field == SettingsField::Background {
                self.background_style.spec_prev()
            } else {
                self.background_style
            },
            colon_blink: if field == SettingsField::ColonBlink {
                !self.colon_blink
            } else {
                self.colon_blink
            },
            ..self
        }
    }

    /// Select next value for current field.
    pub fn next_value(&mut self)
        ensures
            *final(self) == old(self).spec_next_value(),
            old(self).wf() ==> final(self).wf(),
    {
        match self.selected_field {
            SettingsField::Font => {
                let n = self.available_fonts.len();
                if n > 0 {
                    proof {
                        vstd::arithmetic::div_mod::lemma_add_mod_noop(
                            self.font_index as int,
                            1,
                            n as int,
                        );
                        if n > 1 {
                            vstd::arithmetic::div_mod::lemma_small_mod(1, n as nat);
                        }
                    }
                    self.font_index = (self.font_index % n + 1) % n;
                }
            },
            SettingsField::Color => {
                self.color_theme = self.color_theme.next();
            },
            SettingsField::TimeFormat => {
                self.time_format = self.time_format.toggle();
            },
            SettingsField::Animation => {
                self.animation_style = self.animation_style.next();
            },
            SettingsField::Speed => {
                self.animation_speed = self.animation_speed.next();
            },
            SettingsField::Background => {
                self.background_style = self.background_style.next();
            },
            SettingsField::ColonBlink => {
                self.colon_blink = !self.colon_blink;
            },
        }
    }

    /// Select previous value for current field.
    pub fn prev_value(&mut self)
        ensures
            *final(self) == old(self).spec_prev_value(),
            old(self).wf() ==> final(self).wf(),
    {
        match self.selected_field {
            SettingsField::Font => {
                let n = self.available_fonts.len();
                if n > 0 {
                    self.font_index = if self.font_index == 0 {
                        n - 1
                    } else {
                        self.font_index - 1
                    };
                }
            },
            SettingsField::Color => {
                self.color_theme = self.color_theme.prev();
            },
            SettingsField::TimeFormat => {
                self.time_format = self.time_format.toggle();
            },
            SettingsField::Animation => {
                self.animation_style = self.animation_style.prev();
            },
            SettingsField::Speed => {
                self.animation_speed = self.animation_speed.prev();
            },
            SettingsField::Background => {
                self.background_style = self.background_style.prev();
            },
            SettingsField::ColonBlink => {
                self.colon_blink = !self.colon_blink;
            },
        }
    }

    /// Get currently selected font name.
    pub fn selected_font(&self) -> (name: &str)
        ensures
            name@ == self.font_name_at(self.font_index),
    {
        if self.font_index < self.available_fonts.len() {
            self.available_fonts[self.font_index].as_str()
        } else {
            "Standard"
        }
    }

    /// Stepping through the fonts forwards and then backwards, or the
    /// other way round, leads back to the font.
    pub proof fn lemma_font_steps_undo(self)
        requires
            self.wf(),
        ensures
            (SettingsDialog { font_index: self.next_font_index(), ..self }).prev_font_index()
                == self.font_index,
            (SettingsDialog { font_index: self.prev_font_index(), ..self }).next_font_index()
                == self.font_index,
    {
        let n = self.available_fonts.len() as int;
        let i = self.font_index as int;
        if n > 0 {
            assert(0 <= i < n);
            assert((i + 1) % n == if i + 1 < n {
                i + 1
            } else {
                0
            }) by (nonlinear_arith)
                requires
                    0 <= i < n,
            ;
            assert(n % n == 0 && (i % n == i)) by (nonlinear_arith)
                requires
                    0 <= i < n,
            ;
            if i == 0 {
                assert((n - 1 + 1) % n == 0);
            } else {
                assert((i - 1 + 1) % n == i);
            }
        }
    }

    /// Stepping a value forwards and then backwards, or the other way
    /// round, leaves the dialog as it was.
    pub proof fn lemma_value_steps_undo(self)
        requires
            self.wf(),
        ensures
            self.spec_next_value().spec_prev_value() == self,
            self.spec_prev_value().spec_next_value() == self,
    {
        self.lemma_font_steps_undo();
        self.color_theme.lemma_next_prev_inverse();
        self.time_format.lemma_toggle_involution();
        self.animation_style.lemma_next_prev_inverse();
        self.animation_speed.lemma_next_prev_inverse();
        self.background_style.lemma_next_prev_inverse();
    }
}

/// The first font of the name stands at the one index that holds the name
/// and has none of that name before it.
pub proof fn lemma_font_position(fonts: Seq<String>, name: Seq<char>, i: int)
    requires
        0 <= i < fonts.len(),
        fonts[i]@ == name,
        forall|k: int| 0 <= k < i ==> (#[trigger] fonts[k])@ != name,
    ensures
        font_position(fonts, name) == i,
    decreases i,
{
    if i > 0 {
        assert(fonts.drop_first()[i - 1] == fonts[i]);
        assert forall|k: int| 0 <= k < i - 1 implies (#[trigger] fonts.drop_first()[k])@
            != name by {
            assert(fonts.drop_first()[k] == fonts[k + 1]);
        }
        lemma_font_position(fonts.drop_first(), name, i - 1);
    }
}

/// Where no font has the name, the position is 0.
pub proof fn lemma_font_position_absent(fonts: Seq<String>, name: Seq<char>)
    requires
        forall|k: int| 0 <= k < fonts.len() ==> (#[trigger] fonts[k])@ != name,
    ensures
        font_position(fonts, name) == 0,
{
}

} // verus!
