use sigye::{
    AnimationSpeed, AnimationStyle, BackgroundStyle, ColorTheme, SettingsDialog, SettingsField,
    TimeFormat,
};

fn fonts() -> Vec<String> {
    vec!["Big".to_string(), "Mini".to_string(), "Standard".to_string(), "Mini".to_string()]
}

fn opened() -> SettingsDialog {
    let mut dialog = SettingsDialog::new(fonts());
    dialog.open(
        "Mini",
        ColorTheme::Rainbow,
        TimeFormat::TwelveHour,
        AnimationStyle::Wave,
        AnimationSpeed::Fast,
        true,
        BackgroundStyle::Starfield,
    );
    dialog
}

#[test]
fn new_dialog_has_the_defaults() {
    let dialog = SettingsDialog::new(fonts());
    assert!(!dialog.visible);
    assert_eq!(dialog.selected_field, SettingsField::Font);
    assert_eq!(dialog.font_index, 0);
    assert_eq!(dialog.available_fonts, fonts());
    assert_eq!(dialog.color_theme, ColorTheme::Cyan);
    assert_eq!(dialog.time_format, TimeFormat::TwentyFourHour);
    assert_eq!(dialog.animation_style, AnimationStyle::Off);
    assert_eq!(dialog.animation_speed, AnimationSpeed::Medium);
    assert_eq!(dialog.background_style, BackgroundStyle::Off);
    assert!(!dialog.colon_blink);
    assert_eq!(dialog.original_font(), "Big");
    assert_eq!(dialog.original_color_theme(), ColorTheme::Cyan);
    assert_eq!(dialog.original_time_format(), TimeFormat::TwentyFourHour);
    assert_eq!(dialog.original_animation_style(), AnimationStyle::Off);
    assert_eq!(dialog.original_animation_speed(), AnimationSpeed::Medium);
    assert_eq!(dialog.original_background_style(), BackgroundStyle::Off);
    assert!(!dialog.original_colon_blink());
    assert_eq!(dialog.selected_font(), "Big");
}

#[test]
fn open_takes_a_snapshot() {
    let mut dialog = opened();
    assert!(dialog.visible);
    assert_eq!(dialog.selected_field, SettingsField::Font);
    assert_eq!(dialog.font_index, 1);
    assert_eq!(dialog.selected_font(), "Mini");
    assert_eq!(dialog.color_theme, ColorTheme::Rainbow);
    assert_eq!(dialog.time_format, TimeFormat::TwelveHour);
    assert_eq!(dialog.animation_style, AnimationStyle::Wave);
    assert_eq!(dialog.animation_speed, AnimationSpeed::Fast);
    assert_eq!(dialog.background_style, BackgroundStyle::Starfield);
    assert!(dialog.colon_blink);

    // edit everything
    for _ in 0..7 {
        dialog.next_value();
        dialog.next_field();
    }
    assert_eq!(dialog.selected_field, SettingsField::Font);
    assert_eq!(dialog.selected_font(), "Standard");
    assert_eq!(dialog.color_theme, ColorTheme::RainbowVertical);
    assert_eq!(dialog.time_format, TimeFormat::TwentyFourHour);
    assert_eq!(dialog.animation_style, AnimationStyle::Reactive);
    assert_eq!(dialog.animation_speed, AnimationSpeed::Slow);
    assert_eq!(dialog.background_style, BackgroundStyle::MatrixRain);
    assert!(!dialog.colon_blink);

    // the snapshot is as it was
    assert_eq!(dialog.original_font(), "Mini");
    assert_eq!(dialog.original_color_theme(), ColorTheme::Rainbow);
    assert_eq!(dialog.original_time_format(), TimeFormat::TwelveHour);
    assert_eq!(dialog.original_animation_style(), AnimationStyle::Wave);
    assert_eq!(dialog.original_animation_speed(), AnimationSpeed::Fast);
    assert_eq!(dialog.original_background_style(), BackgroundStyle::Starfield);
    assert!(dialog.original_colon_blink());

    dialog.close();
    assert!(!dialog.visible);
    assert_eq!(dialog.selected_font(), "Standard");
    assert_eq!(dialog.original_font(), "Mini");
}

#[test]
fn open_with_an_unknown_font_selects_the_first() {
    let mut dialog = opened();
    dialog.next_field();
    dialog.open(
        "No such font",
        ColorTheme::Red,
        TimeFormat::TwentyFourHour,
        AnimationStyle::Off,
        AnimationSpeed::Slow,
        false,
        BackgroundStyle::Off,
    );
    assert_eq!(dialog.selected_field, SettingsField::Font);
    assert_eq!(dialog.font_index, 0);
    assert_eq!(dialog.selected_font(), "Big");
    assert_eq!(dialog.original_font(), "Big");
    assert_eq!(dialog.original_color_theme(), ColorTheme::Red);
}

#[test]
fn fields_cycle() {
    let mut dialog = opened();
    let order = [
        SettingsField::Color,
        SettingsField::TimeFormat,
        SettingsField::Animation,
        SettingsField::Speed,
        SettingsField::Background,
        SettingsField::ColonBlink,
        SettingsField::Font,
    ];
    for field in order {
        dialog.next_field();
        assert_eq!(dialog.selected_field, field);
    }
    for field in order.iter().rev().skip(1) {
        dialog.prev_field();
        assert_eq!(dialog.selected_field, *field);
    }
    dialog.prev_field();
    assert_eq!(dialog.selected_field, SettingsField::Font);
    dialog.prev_field();
    assert_eq!(dialog.selected_field, SettingsField::ColonBlink);
}

#[test]
fn fonts_cycle_and_wrap() {
    let mut dialog = SettingsDialog::new(fonts());
    let seen: Vec<String> = (0..5)
        .map(|_| {
            dialog.next_value();
            dialog.selected_font().to_string()
        })
        .collect();
    assert_eq!(seen, vec!["Mini", "Standard", "Mini", "Big", "Mini"]);
    assert_eq!(dialog.font_index, 1);
    dialog.prev_value();
    assert_eq!(dialog.font_index, 0);
    dialog.prev_value();
    assert_eq!(dialog.font_index, 3);
    dialog.prev_value();
    assert_eq!(dialog.font_index, 2);
}

#[test]
fn values_step_back_and_forth() {
    let mut dialog = opened();
    for _ in 0..7 {
        let before = (
            dialog.font_index,
            dialog.color_theme,
            dialog.time_format,
            dialog.animation_style,
            dialog.animation_speed,
            dialog.background_style,
            dialog.colon_blink,
        );
        dialog.prev_value();
        let stepped = (
            dialog.font_index,
            dialog.color_theme,
            dialog.time_format,
            dialog.animation_style,
            dialog.animation_speed,
            dialog.background_style,
            dialog.colon_blink,
        );
        assert_ne!(stepped, before);
        dialog.next_value();
        let back = (
            dialog.font_index,
            dialog.color_theme,
            dialog.time_format,
            dialog.animation_style,
            dialog.animation_speed,
            dialog.background_style,
            dialog.colon_blink,
        );
        assert_eq!(back, before);
        dialog.next_field();
    }
}

#[test]
fn previous_values() {
    let mut dialog = opened();
    for _ in 0..7 {
        dialog.prev_value();
        dialog.next_field();
    }
    assert_eq!(dialog.selected_font(), "Big");
    assert_eq!(dialog.color_theme, ColorTheme::White);
    assert_eq!(dialog.time_format, TimeFormat::TwentyFourHour);
    assert_eq!(dialog.animation_style, AnimationStyle::Pulsing);
    assert_eq!(dialog.animation_speed, AnimationSpeed::Medium);
    assert_eq!(dialog.background_style, BackgroundStyle::Off);
    assert!(!dialog.colon_blink);
}

#[test]
fn dialog_without_fonts_names_standard() {
    let mut dialog = SettingsDialog::new(Vec::new());
    assert_eq!(dialog.selected_font(), "Standard");
    assert_eq!(dialog.original_font(), "Standard");
    dialog.next_value();
    dialog.prev_value();
    assert_eq!(dialog.font_index, 0);
    dialog.open(
        "Big",
        ColorTheme::Cyan,
        TimeFormat::TwentyFourHour,
        AnimationStyle::Off,
        AnimationSpeed::Medium,
        false,
        BackgroundStyle::Off,
    );
    assert_eq!(dialog.font_index, 0);
    assert_eq!(dialog.selected_font(), "Standard");
}
