use sigye::background::{
    gradient_phase, init_column, render_column_char, render_gradient_char, render_starfield_char,
    step_column, ROW_UNITS,
};
use sigye::{
    AnimationSpeed, BackgroundCell, BackgroundState, BackgroundStyle, Color, MatrixColumn, Ratio,
};

const RAIN: &str = "アイウエオカキクケコサシスセソタチツテト0123456789";
const STARS: &str = ".*+·✦✧";

fn rain(i: usize) -> char {
    RAIN.chars().nth(i).unwrap()
}

fn star(i: usize) -> char {
    STARS.chars().nth(i).unwrap()
}

fn column(head: i64, speed: u32, trail_length: u32, char_seed: u64) -> MatrixColumn {
    MatrixColumn { head, speed, trail_length, char_seed }
}

fn no_sines() -> Vec<Vec<i32>> {
    Vec::new()
}

#[test]
fn row_units() {
    assert_eq!(ROW_UNITS, 3000);
}

#[test]
fn starfield_cells() {
    let s = AnimationSpeed::Medium;
    assert_eq!(
        render_starfield_char(0, 0, 0, s),
        BackgroundCell::Glyph('.', Color::Rgb(60, 60, 80))
    );
    assert_eq!(
        render_starfield_char(7, 5, 0, s),
        BackgroundCell::Glyph('+', Color::Rgb(150, 150, 200))
    );
    assert_eq!(render_starfield_char(1, 0, 0, s), BackgroundCell::Blank);
    // frames 100 to 103 in the corner cell
    assert_eq!(
        render_starfield_char(0, 0, 300 * 100, s),
        BackgroundCell::Glyph(star(4), Color::Rgb(100, 100, 140))
    );
    assert_eq!(
        render_starfield_char(0, 0, 300 * 101, s),
        BackgroundCell::Glyph(star(5), Color::Rgb(150, 150, 200))
    );
    assert_eq!(
        render_starfield_char(0, 0, 300 * 102 + 299, s),
        BackgroundCell::Glyph('.', Color::Rgb(60, 60, 80))
    );
    assert_eq!(render_starfield_char(0, 0, 300 * 103, s), BackgroundCell::Blank);
    assert_eq!(
        render_starfield_char(65535, 65535, u64::MAX, AnimationSpeed::Fast),
        BackgroundCell::Blank
    );
}

#[test]
fn starfield_is_deterministic_and_sparse() {
    let mut stars = 0;
    for y in 0..100u16 {
        for x in 0..100u16 {
            let a = render_starfield_char(x, y, 4242, AnimationSpeed::Slow);
            let b = render_starfield_char(x, y, 4242, AnimationSpeed::Slow);
            assert_eq!(a, b);
            let seed = x as u64 * 31 + y as u64 * 17 + 4242 / 500;
            if seed % 100 < 3 {
                let color = [
                    Color::Rgb(60, 60, 80),
                    Color::Rgb(100, 100, 140),
                    Color::Rgb(150, 150, 200),
                ][(seed % 3) as usize];
                assert_eq!(a, BackgroundCell::Glyph(star((seed % 6) as usize), color));
                stars += 1;
            } else {
                assert_eq!(a, BackgroundCell::Blank);
            }
        }
    }
    assert_eq!(stars, 300);
}

#[test]
fn rain_columns_start_above_the_screen() {
    assert_eq!(init_column(0, 24), column(-9000, 9, 4, 0));
    assert_eq!(init_column(1, 24), column(-30000, 15, 7, 17));
    assert_eq!(init_column(2, 24), column(-51000, 21, 10, 34));
    assert_eq!(init_column(3, 24), column(-72000, 27, 5, 51));
    assert_eq!(init_column(7, 24), column(-12000, 11, 9, 119));
    assert_eq!(init_column(100, 24), column(-93000, 9, 8, 1700));
    // on a screen without rows every head starts at the top
    assert_eq!(init_column(0, 0), column(0, 9, 4, 0));
    assert_eq!(init_column(7, 0), column(0, 11, 9, 119));
    assert_eq!(init_column(65535, 0).head, 0);
    let last = init_column(65535, 65535);
    assert_eq!(last.head, -(((65535i64 * 7 + 3) % 131070) * 3000));
    assert_eq!(last.char_seed, 65535 * 17);
}

#[test]
fn rain_column_falls() {
    // 1000 ms at unit speed are 20 rows; the column falls at half of that
    assert_eq!(
        step_column(column(-30000, 15, 7, 17), 1000, AnimationSpeed::Medium, 24),
        column(0, 15, 7, 17)
    );
    assert_eq!(
        step_column(column(-30000, 15, 7, 17), 1000, AnimationSpeed::Slow, 24),
        column(-15000, 15, 7, 17)
    );
    assert_eq!(
        step_column(column(-30000, 15, 7, 17), 1000, AnimationSpeed::Fast, 24),
        column(30000, 15, 7, 17)
    );
    assert_eq!(
        step_column(column(-9000, 9, 4, 0), 5000, AnimationSpeed::Medium, 24),
        column(81000, 9, 4, 0)
    );
    assert_eq!(
        step_column(column(-9000, 9, 4, 0), 0, AnimationSpeed::Medium, 24),
        column(-9000, 9, 4, 0)
    );
}

#[test]
fn rain_column_wraps_past_the_bottom() {
    // on the last row that the trail still reaches: no wrap
    assert_eq!(
        step_column(column(28 * 3000, 9, 4, 7), 0, AnimationSpeed::Slow, 24),
        column(28 * 3000, 9, 4, 7)
    );
    assert_eq!(
        step_column(column(28 * 3000 - 9, 9, 4, 7), 1, AnimationSpeed::Slow, 24),
        column(28 * 3000, 9, 4, 7)
    );
    // one step further: back above the screen, with the next seed
    assert_eq!(
        step_column(column(28 * 3000, 9, 4, 7), 1, AnimationSpeed::Slow, 24),
        column(-4 * 3000, 9, 4, 8)
    );
    assert_eq!(
        step_column(column(28 * 3000 - 9, 9, 4, u64::MAX), 2, AnimationSpeed::Slow, 24),
        column(-4 * 3000, 9, 4, 0)
    );
    // however long the frame took
    assert_eq!(
        step_column(column(-9000, 27, 11, 5), u64::MAX, AnimationSpeed::Fast, 65535),
        column(-11 * 3000, 27, 11, 6)
    );
}

#[test]
fn rain_glyph_changes_with_the_seed() {
    for seed in [0u64, 7, 29, 30, u64::MAX - 1, u64::MAX] {
        for y in [0u16, 1, 29, 65535] {
            let before = render_column_char(column(y as i64 * 3000, 9, 4, seed), y);
            let after = render_column_char(column(y as i64 * 3000, 9, 4, seed.wrapping_add(1)), y);
            let index = (seed.wrapping_add(y as u64) % 30) as usize;
            assert_eq!(before, BackgroundCell::Glyph(rain(index), Color::Rgb(200, 255, 200)));
            match (before, after) {
                (BackgroundCell::Glyph(a, _), BackgroundCell::Glyph(b, _)) => {
                    assert_ne!(a, b);
                    assert!(RAIN.contains(b));
                }
                other => panic!("{other:?}"),
            }
        }
    }
}

#[test]
fn rain_trail_fades() {
    let col = column(81000, 9, 4, 0);
    for y in 0..23 {
        assert_eq!(render_column_char(col, y), BackgroundCell::Blank);
    }
    assert_eq!(render_column_char(col, 23), BackgroundCell::Glyph(rain(23), Color::Rgb(0, 80, 0)));
    assert_eq!(render_column_char(col, 24), BackgroundCell::Glyph(rain(24), Color::Rgb(0, 110, 0)));
    assert_eq!(render_column_char(col, 25), BackgroundCell::Glyph(rain(25), Color::Rgb(0, 140, 0)));
    assert_eq!(render_column_char(col, 26), BackgroundCell::Glyph(rain(26), Color::Rgb(0, 170, 0)));
    assert_eq!(
        render_column_char(col, 27),
        BackgroundCell::Glyph(rain(27), Color::Rgb(200, 255, 200))
    );
    assert_eq!(render_column_char(col, 28), BackgroundCell::Blank);
    // a head between two rows
    let col = column(81000 + 1500, 9, 4, 3);
    assert_eq!(
        render_column_char(col, 27),
        BackgroundCell::Glyph(rain(0), Color::Rgb(200, 255, 200))
    );
    assert_eq!(render_column_char(col, 26), BackgroundCell::Glyph(rain(29), Color::Rgb(0, 155, 0)));
    assert_eq!(render_column_char(col, 23), BackgroundCell::Blank);
}

#[test]
fn gradient_phases() {
    // x / width + y / (2 * height) + t / period
    assert_eq!(
        gradient_phase(3, 2, 80, 24, 4000, AnimationSpeed::Medium),
        Ratio {
            num: 3 * 48 * 3000 + 2 * 80 * 3000 + 1000 * 80 * 48,
            den: 80 * 48 * 3000
        }
    );
    assert_eq!(
        gradient_phase(3, 2, 0, 0, 4000, AnimationSpeed::Fast),
        Ratio { num: 3 * 2 * 1500 + 2 * 1500 + 1000 * 2, den: 2 * 1500 }
    );
    let big = gradient_phase(65535, 65535, 65535, 65535, u64::MAX, AnimationSpeed::Slow);
    assert_eq!(big.den, 65535 * 131070 * 5000);
}

#[test]
fn gradient_cells() {
    let m = AnimationSpeed::Medium;
    assert_eq!(
        render_gradient_char(0, 0, 80, 24, 0, m, 0),
        BackgroundCell::Glyph('▒', Color::Rgb(108, 19, 19))
    );
    assert_eq!(
        render_gradient_char(40, 3, 80, 24, 1000, m, 1_000_000),
        BackgroundCell::Glyph('▓', Color::Rgb(26, 151, 89))
    );
    assert_eq!(
        render_gradient_char(79, 3, 80, 24, 2999, m, -400_000),
        BackgroundCell::Glyph('░', Color::Rgb(91, 89, 16))
    );
    assert_eq!(
        render_gradient_char(10, 3, 0, 24, 100, AnimationSpeed::Fast, 999_999),
        BackgroundCell::Glyph('▓', Color::Rgb(76, 26, 151))
    );
    assert_eq!(
        render_gradient_char(3, 0, 80, 24, 0, AnimationSpeed::Slow, -500_001),
        BackgroundCell::Blank
    );
    assert_eq!(
        render_gradient_char(3, 0, 80, 24, 0, AnimationSpeed::Slow, -500_000),
        BackgroundCell::Glyph('░', Color::Rgb(86, 17, 15))
    );
    assert_eq!(
        render_gradient_char(3, 0, 80, 24, 0, AnimationSpeed::Slow, i32::MIN),
        BackgroundCell::Blank
    );
}

#[test]
fn gradient_glyph_thresholds() {
    let glyph = |sine: i32| match render_gradient_char(0, 0, 10, 10, 0, AnimationSpeed::Fast, sine) {
        BackgroundCell::Blank => ' ',
        BackgroundCell::Glyph(c, _) => c,
    };
    assert_eq!(glyph(-1_000_000), ' ');
    assert_eq!(glyph(-500_001), ' ');
    assert_eq!(glyph(-500_000), '░');
    assert_eq!(glyph(-1), '░');
    assert_eq!(glyph(0), '▒');
    assert_eq!(glyph(499_999), '▒');
    assert_eq!(glyph(500_000), '▓');
    assert_eq!(glyph(1_000_000), '▓');
    assert_eq!(glyph(i32::MAX), '▓');
}

#[test]
fn new_state_is_empty() {
    let state = BackgroundState::new();
    assert!(state.matrix_columns.is_empty());
    assert_eq!(state.last_width, 0);
    assert_eq!(state.last_height, 0);
    assert_eq!(state.last_update_ms, 0);
}

#[test]
fn no_background_paints_nothing() {
    let mut state = BackgroundState::new();
    let grid = state.render(80, 24, BackgroundStyle::Off, 1000, AnimationSpeed::Fast, &no_sines());
    assert!(grid.is_empty());
    assert!(state.matrix_columns.is_empty());
    assert_eq!((state.last_width, state.last_height, state.last_update_ms), (0, 0, 0));
    assert_eq!(
        state.render_char(1, 1, 80, 24, BackgroundStyle::Off, 0, AnimationSpeed::Fast, 0),
        BackgroundCell::Blank
    );
}

#[test]
fn starfield_frame() {
    let mut state = BackgroundState::new();
    let grid =
        state.render(30, 10, BackgroundStyle::Starfield, 900, AnimationSpeed::Medium, &no_sines());
    assert_eq!(grid.len(), 10);
    for (y, row) in grid.iter().enumerate() {
        assert_eq!(row.len(), 30);
        for (x, cell) in row.iter().enumerate() {
            assert_eq!(
                *cell,
                render_starfield_char(x as u16, y as u16, 900, AnimationSpeed::Medium)
            );
        }
    }
    assert!(state.matrix_columns.is_empty());
    assert_eq!((state.last_width, state.last_height, state.last_update_ms), (0, 0, 0));
}

#[test]
fn rain_frames() {
    let mut state = BackgroundState::new();
    let speed = AnimationSpeed::Medium;
    let grid = state.render(8, 24, BackgroundStyle::MatrixRain, 1000, speed, &no_sines());
    assert_eq!((state.last_width, state.last_height, state.last_update_ms), (8, 24, 1000));
    assert_eq!(state.matrix_columns.len(), 8);
    for x in 0..8u16 {
        let expected = step_column(init_column(x, 24), 1000, speed, 24);
        assert_eq!(state.matrix_columns[x as usize], expected);
        for y in 0..24u16 {
            assert_eq!(grid[y as usize][x as usize], render_column_char(expected, y));
        }
    }
    assert_eq!(state.matrix_columns[1], column(0, 15, 7, 17));
    assert_eq!(grid[0][1], BackgroundCell::Glyph(rain(17), Color::Rgb(200, 255, 200)));

    // the next frame moves the columns on by the time since the last one
    let before = state.matrix_columns.clone();
    let grid = state.render(8, 24, BackgroundStyle::MatrixRain, 1400, speed, &no_sines());
    assert_eq!(state.last_update_ms, 1400);
    for x in 0..8usize {
        assert_eq!(state.matrix_columns[x], step_column(before[x], 400, speed, 24));
    }
    // 400 ms at unit speed are 8 rows; the column falls at half of that
    assert_eq!(state.matrix_columns[1], column(12000, 15, 7, 17));
    assert_eq!(grid[4][1], BackgroundCell::Glyph(rain(21), Color::Rgb(200, 255, 200)));
    assert_eq!(grid[3][1], BackgroundCell::Glyph(rain(20), Color::Rgb(0, 182, 0)));
    assert_eq!(grid[0][1], BackgroundCell::Glyph(rain(17), Color::Rgb(0, 131, 0)));
    assert_eq!(grid[5][1], BackgroundCell::Blank);

    // a clock that went back moves nothing
    let before = state.matrix_columns.clone();
    state.render(8, 24, BackgroundStyle::MatrixRain, 1200, speed, &no_sines());
    assert_eq!(state.matrix_columns, before);
    assert_eq!(state.last_update_ms, 1200);

    // another style leaves the rain alone
    state.render(9, 24, BackgroundStyle::Starfield, 5000, speed, &no_sines());
    assert_eq!(state.matrix_columns, before);
    assert_eq!((state.last_width, state.last_height, state.last_update_ms), (8, 24, 1200));

    // a new size starts the rain anew
    state.render(3, 10, BackgroundStyle::MatrixRain, 1200, speed, &no_sines());
    assert_eq!((state.last_width, state.last_height), (3, 10));
    assert_eq!(
        state.matrix_columns,
        vec![init_column(0, 10), init_column(1, 10), init_column(2, 10)]
    );
}

#[test]
fn rain_cell_outside_the_columns_is_blank() {
    let mut state = BackgroundState::new();
    state.init_matrix_columns(2, 5);
    state.update_matrix(100_000, 5, AnimationSpeed::Fast);
    assert_eq!(state.render_matrix_char(2, 0, 5), BackgroundCell::Blank);
    assert_eq!(
        state.render_char(9, 0, 2, 5, BackgroundStyle::MatrixRain, 0, AnimationSpeed::Fast, 0),
        BackgroundCell::Blank
    );
}

#[test]
fn empty_screens() {
    let mut state = BackgroundState::new();
    let grid = state.render(0, 0, BackgroundStyle::MatrixRain, 10, AnimationSpeed::Fast, &no_sines());
    assert!(grid.is_empty());
    assert_eq!(state.last_update_ms, 10);
    let grid = state.render(0, 3, BackgroundStyle::MatrixRain, 20, AnimationSpeed::Fast, &no_sines());
    assert_eq!(grid, vec![Vec::<BackgroundCell>::new(); 3]);
    let grid = state.render(4, 0, BackgroundStyle::Starfield, 20, AnimationSpeed::Fast, &no_sines());
    assert!(grid.is_empty());
}

#[test]
fn gradient_frame_follows_the_sines() {
    let (width, height) = (20u16, 6u16);
    let speed = AnimationSpeed::Medium;
    let elapsed = 1234;
    let mut sines = Vec::new();
    for y in 0..height {
        let mut row = Vec::new();
        for x in 0..width {
            let phase = gradient_phase(x, y, width, height, elapsed, speed);
            let turns = phase.num as f64 / phase.den as f64;
            row.push(((turns * 2.0 * std::f64::consts::PI).sin() * 1e6).round() as i32);
        }
        sines.push(row);
    }
    let mut state = BackgroundState::new();
    let grid = state.render(width, height, BackgroundStyle::GradientWave, elapsed, speed, &sines);
    assert_eq!(grid.len(), 6);
    let mut glyphs = std::collections::BTreeSet::new();
    for y in 0..height {
        assert_eq!(grid[y as usize].len(), 20);
        for x in 0..width {
            let cell = grid[y as usize][x as usize];
            let sine = sines[y as usize][x as usize];
            assert_eq!(cell, render_gradient_char(x, y, width, height, elapsed, speed, sine));
            // the diagonal wave of the original formulas
            let t = (elapsed % 3000) as f32 / 3000.0;
            let wave = ((x as f32 / width as f32 + y as f32 / height as f32 * 0.5 + t)
                * 2.0
                * std::f32::consts::PI)
                .sin();
            assert!((wave as f64 - sine as f64 / 1e6).abs() < 1e-4);
            match cell {
                BackgroundCell::Blank => {
                    glyphs.insert(' ');
                }
                BackgroundCell::Glyph(c, _) => {
                    glyphs.insert(c);
                }
            }
        }
    }
    assert_eq!(glyphs.len(), 4);
    // a cell without a sine is drawn with the sine 0
    let grid = state.render(2, 1, BackgroundStyle::GradientWave, 0, speed, &no_sines());
    assert_eq!(grid[0][0], render_gradient_char(0, 0, 2, 1, 0, speed, 0));
    assert_eq!(grid[0][1], render_gradient_char(1, 0, 2, 1, 0, speed, 0));
}

#[test]
fn default_state_is_the_new_state() {
    let state = BackgroundState::default();
    assert!(state.matrix_columns.is_empty());
    assert_eq!((state.last_width, state.last_height, state.last_update_ms), (0, 0, 0));
}

#[test]
fn rain_on_a_screen_without_rows() {
    let mut state = BackgroundState::new();
    state.init_matrix_columns(3, 0);
    assert_eq!((state.last_width, state.last_height), (3, 0));
    assert_eq!(
        state.matrix_columns,
        vec![column(0, 9, 4, 0), column(0, 15, 7, 17), column(0, 21, 10, 34)]
    );

    let mut state = BackgroundState::new();
    let grid = state.render(5, 0, BackgroundStyle::MatrixRain, 100, AnimationSpeed::Medium, &no_sines());
    assert!(grid.is_empty());
    assert_eq!((state.last_width, state.last_height, state.last_update_ms), (5, 0, 100));
    assert_eq!(state.matrix_columns.len(), 5);
    for x in 0..5u16 {
        assert_eq!(
            state.matrix_columns[x as usize],
            step_column(init_column(x, 0), 100, AnimationSpeed::Medium, 0)
        );
    }
    // 100 ms at unit speed are 2 rows; column 1 falls at half of that
    assert_eq!(state.matrix_columns[1], column(3000, 15, 7, 17));
}

#[test]
fn the_state_keeps_one_column_for_each_column_of_the_screen() {
    let mut state = BackgroundState::new();
    assert_eq!(state.matrix_columns.len(), state.last_width as usize);
    let frames = [
        (BackgroundStyle::Starfield, 10u16, 4u16),
        (BackgroundStyle::MatrixRain, 10, 4),
        (BackgroundStyle::MatrixRain, 10, 4),
        (BackgroundStyle::GradientWave, 7, 3),
        (BackgroundStyle::MatrixRain, 7, 3),
        (BackgroundStyle::MatrixRain, 7, 0),
        (BackgroundStyle::Off, 2, 2),
        (BackgroundStyle::MatrixRain, 0, 5),
        (BackgroundStyle::MatrixRain, 65535, 1),
    ];
    let mut elapsed = 0;
    for (style, width, height) in frames {
        elapsed += 120;
        let grid = state.render(width, height, style, elapsed, AnimationSpeed::Fast, &no_sines());
        assert_eq!(state.matrix_columns.len(), state.last_width as usize);
        if style == BackgroundStyle::MatrixRain {
            assert_eq!(state.matrix_columns.len(), width as usize);
            assert_eq!(grid.len(), height as usize);
        }
    }
}
