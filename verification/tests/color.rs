use sigye::{color_to_rgb, Color, ColorTheme};

#[test]
fn named_colors_have_their_channels() {
    assert_eq!(color_to_rgb(Color::Red), (255, 0, 0));
    assert_eq!(color_to_rgb(Color::Green), (0, 255, 0));
    assert_eq!(color_to_rgb(Color::Blue), (0, 0, 255));
    assert_eq!(color_to_rgb(Color::Yellow), (255, 255, 0));
    assert_eq!(color_to_rgb(Color::Magenta), (255, 0, 255));
    assert_eq!(color_to_rgb(Color::Cyan), (0, 255, 255));
    assert_eq!(color_to_rgb(Color::White), (255, 255, 255));
    assert_eq!(color_to_rgb(Color::Rgb(1, 2, 3)), (1, 2, 3));
    // any other colour of the terminal counts as the middle grey
    assert_eq!(color_to_rgb(Color::Other), (128, 128, 128));
}

#[test]
fn static_themes_have_one_color() {
    let themes = [
        (ColorTheme::Cyan, Color::Cyan, "Cyan"),
        (ColorTheme::Green, Color::Green, "Green"),
        (ColorTheme::White, Color::White, "White"),
        (ColorTheme::Magenta, Color::Magenta, "Magenta"),
        (ColorTheme::Yellow, Color::Yellow, "Yellow"),
        (ColorTheme::Red, Color::Red, "Red"),
        (ColorTheme::Blue, Color::Blue, "Blue"),
    ];
    for (theme, color, name) in themes {
        assert!(!theme.is_dynamic());
        assert_eq!(theme.color(), color);
        assert_eq!(theme.color_at_position(3, 1, 10, 4), color);
        assert_eq!(theme.color_at_position(0, 0, 0, 0), color);
        assert_eq!(theme.display_name(), name);
    }
}

#[test]
fn dynamic_themes_have_a_fallback_color() {
    let themes = [
        (ColorTheme::Rainbow, Color::Magenta, "Rainbow"),
        (ColorTheme::RainbowVertical, Color::Magenta, "Rainbow V"),
        (ColorTheme::GradientNeon, Color::Magenta, "Neon"),
        (ColorTheme::GradientWarm, Color::Red, "Warm"),
        (ColorTheme::GradientFire, Color::Red, "Fire"),
        (ColorTheme::GradientCool, Color::Cyan, "Cool"),
        (ColorTheme::GradientOcean, Color::Cyan, "Ocean"),
    ];
    for (theme, color, name) in themes {
        assert!(theme.is_dynamic());
        assert_eq!(theme.color(), color);
        assert_eq!(theme.display_name(), name);
    }
}

#[test]
fn rainbow_has_seven_even_bands() {
    let bands = [
        Color::Red,
        Color::Rgb(255, 127, 0),
        Color::Yellow,
        Color::Green,
        Color::Cyan,
        Color::Blue,
        Color::Magenta,
    ];
    for x in 0..70 {
        assert_eq!(ColorTheme::Rainbow.color_at_position(x, 5, 70, 9), bands[x / 10]);
        assert_eq!(ColorTheme::RainbowVertical.color_at_position(5, x, 9, 70), bands[x / 10]);
    }
    // index = floor(position * 7 / extent) mod 7
    assert_eq!(ColorTheme::Rainbow.color_at_position(70, 0, 70, 1), Color::Red);
    assert_eq!(ColorTheme::Rainbow.color_at_position(3, 0, 4, 1), Color::Blue);
    assert_eq!(ColorTheme::Rainbow.color_at_position(5, 0, 0, 0), Color::Red);
    assert_eq!(ColorTheme::RainbowVertical.color_at_position(0, 5, 0, 0), Color::Red);
    assert_eq!(
        ColorTheme::Rainbow.color_at_position(usize::MAX, 0, usize::MAX, 1),
        Color::Red
    );
}

#[test]
fn gradient_warm_values() {
    let t = ColorTheme::GradientWarm;
    assert_eq!(t.color_at_position(0, 0, 10, 1), Color::Rgb(255, 0, 0));
    assert_eq!(t.color_at_position(3, 0, 10, 1), Color::Rgb(255, 76, 0));
    assert_eq!(t.color_at_position(5, 0, 10, 1), Color::Rgb(255, 127, 0));
    assert_eq!(t.color_at_position(9, 0, 10, 1), Color::Rgb(255, 229, 0));
    assert_eq!(t.color_at_position(7, 0, 0, 1), Color::Rgb(255, 0, 0));
}

#[test]
fn gradient_cool_values() {
    let t = ColorTheme::GradientCool;
    assert_eq!(t.color_at_position(0, 0, 10, 1), Color::Rgb(0, 0, 255));
    assert_eq!(t.color_at_position(3, 0, 10, 1), Color::Rgb(0, 153, 255));
    assert_eq!(t.color_at_position(5, 0, 10, 1), Color::Rgb(0, 255, 255));
    assert_eq!(t.color_at_position(9, 0, 10, 1), Color::Rgb(0, 255, 51));
    assert_eq!(t.color_at_position(7, 0, 0, 1), Color::Rgb(0, 0, 255));
}

#[test]
fn gradient_ocean_values() {
    let t = ColorTheme::GradientOcean;
    assert_eq!(t.color_at_position(0, 0, 10, 1), Color::Rgb(0, 150, 255));
    assert_eq!(t.color_at_position(3, 0, 10, 1), Color::Rgb(60, 213, 255));
    assert_eq!(t.color_at_position(5, 0, 10, 1), Color::Rgb(100, 255, 255));
    assert_eq!(t.color_at_position(9, 0, 10, 1), Color::Rgb(100, 255, 154));
}

#[test]
fn gradient_neon_values() {
    let t = ColorTheme::GradientNeon;
    assert_eq!(t.color_at_position(0, 0, 10, 1), Color::Rgb(255, 0, 255));
    assert_eq!(t.color_at_position(3, 0, 10, 1), Color::Rgb(179, 76, 255));
    assert_eq!(t.color_at_position(5, 0, 10, 1), Color::Rgb(128, 127, 255));
    assert_eq!(t.color_at_position(9, 0, 10, 1), Color::Rgb(26, 229, 255));
}

#[test]
fn gradient_fire_values() {
    let t = ColorTheme::GradientFire;
    assert_eq!(t.color_at_position(0, 0, 10, 1), Color::Rgb(128, 0, 0));
    assert_eq!(t.color_at_position(3, 0, 10, 1), Color::Rgb(242, 0, 0));
    assert_eq!(t.color_at_position(5, 0, 10, 1), Color::Rgb(255, 84, 0));
    assert_eq!(t.color_at_position(9, 0, 10, 1), Color::Rgb(255, 229, 0));
    // the breakpoints are at 33 and 66 hundredths
    assert_eq!(t.color_at_position(32, 0, 100, 1), Color::Rgb(249, 0, 0));
    assert_eq!(t.color_at_position(33, 0, 100, 1), Color::Rgb(255, 0, 0));
    assert_eq!(t.color_at_position(65, 0, 100, 1), Color::Rgb(255, 158, 0));
    assert_eq!(t.color_at_position(66, 0, 100, 1), Color::Rgb(255, 165, 0));
}

#[test]
fn gradient_channels_are_capped_at_the_far_end() {
    assert_eq!(
        ColorTheme::GradientFire.color_at_position(998, 0, 1000, 1),
        Color::Rgb(255, 255, 0)
    );
    assert_eq!(
        ColorTheme::GradientWarm.color_at_position(1000, 0, 1000, 1),
        Color::Rgb(255, 255, 0)
    );
    assert_eq!(
        ColorTheme::GradientWarm.color_at_position(usize::MAX, 0, 1, 1),
        Color::Rgb(255, 255, 0)
    );
    assert_eq!(
        ColorTheme::GradientNeon.color_at_position(5000, 0, 1000, 1),
        Color::Rgb(0, 255, 255)
    );
    assert_eq!(
        ColorTheme::GradientCool.color_at_position(5000, 0, 1000, 1),
        Color::Rgb(0, 255, 0)
    );
    assert_eq!(
        ColorTheme::GradientOcean.color_at_position(5000, 0, 1000, 1),
        Color::Rgb(100, 255, 0)
    );
}

fn float_channel(v: f32) -> u8 {
    v as u8
}

#[test]
fn gradients_follow_the_piecewise_linear_formulas() {
    // the channels as single-precision arithmetic gives them, to within 1
    for width in [7usize, 40, 80, 123] {
        for x in 0..width {
            let p = x as f32 / width as f32;
            let warm = if p < 0.5 {
                float_channel(127.0 * (p * 2.0))
            } else {
                127 + float_channel(128.0 * ((p - 0.5) * 2.0))
            };
            let neon = float_channel(255.0 * p);
            let fire = if p < 0.33 {
                (128 + float_channel(127.0 * (p * 3.0)), 0)
            } else if p < 0.66 {
                (255, float_channel(165.0 * ((p - 0.33) * 3.0)))
            } else {
                (255, 165 + float_channel(90.0 * ((p - 0.66) * 3.0)))
            };
            match ColorTheme::GradientWarm.color_at_position(x, 0, width, 1) {
                Color::Rgb(255, g, 0) => assert!(g.abs_diff(warm) <= 1),
                other => panic!("{other:?}"),
            }
            match ColorTheme::GradientNeon.color_at_position(x, 0, width, 1) {
                Color::Rgb(r, g, 255) => {
                    assert!(g.abs_diff(neon) <= 1);
                    assert_eq!(r, 255 - g);
                }
                other => panic!("{other:?}"),
            }
            match ColorTheme::GradientFire.color_at_position(x, 0, width, 1) {
                Color::Rgb(r, g, 0) => {
                    assert!(r.abs_diff(fire.0) <= 1);
                    assert!(g.abs_diff(fire.1) <= 1);
                }
                other => panic!("{other:?}"),
            }
        }
    }
}
