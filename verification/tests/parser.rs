use sigye::parser::{parse_character, parse_flf, parse_header, ParseError};

#[test]
fn test_parse_flf_header() {
    let header = parse_header("flf2a$ 5 4 13 15 10 0 22415").unwrap();
    assert_eq!(header.hardblank, '$');
    assert_eq!(header.height, 5);
    assert_eq!(header.comment_lines, 10);
}

#[test]
fn test_parse_tlf_header() {
    let header = parse_header("tlf2a$ 8 7 16 -1 4 0 0 0").unwrap();
    assert_eq!(header.hardblank, '$');
    assert_eq!(header.height, 8);
    assert_eq!(header.comment_lines, 4);
}

#[test]
fn header_keeps_all_five_fields() {
    let header = parse_header("tlf2a$ 8 7 16 -1 4 0 0 0").unwrap();
    assert_eq!(header.baseline, 7);
    assert_eq!(header.max_length, 16);
    assert_eq!(header.old_layout, -1);
}

#[test]
fn header_without_signature_is_rejected() {
    let err = parse_header("abc2a$ 5 4 13 15 10").unwrap_err();
    assert_eq!(
        err,
        ParseError::InvalidHeader("Missing flf2a or tlf2a signature".to_string())
    );
}

#[test]
fn header_without_hardblank_is_rejected() {
    let err = parse_header("flf2a").unwrap_err();
    assert_eq!(
        err,
        ParseError::InvalidHeader("Missing hardblank character".to_string())
    );
}

#[test]
fn header_with_four_fields_is_rejected() {
    let err = parse_header("flf2a$ 5 4 13 15").unwrap_err();
    assert_eq!(
        err,
        ParseError::InvalidHeader("Not enough header fields".to_string())
    );
}

#[test]
fn header_fields_must_be_numbers() {
    let cases = [
        ("flf2a$ x 4 13 15 10", "Invalid height"),
        ("flf2a$ 5 -4 13 15 10", "Invalid baseline"),
        ("flf2a$ 5 4 1_3 15 10", "Invalid max_length"),
        ("flf2a$ 5 4 13 2147483648 10", "Invalid old_layout"),
        ("flf2a$ 5 4 13 15 99999999999999999999999", "Invalid comment_lines"),
    ];
    for (line, msg) in cases {
        let err = parse_header(line).unwrap_err();
        assert_eq!(err, ParseError::InvalidHeader(msg.to_string()));
    }
}

#[test]
fn header_accepts_signs_and_any_white_space() {
    let header = parse_header("flf2a#\t+5  4\u{3000}13 -2147483648 +0").unwrap();
    assert_eq!(header.hardblank, '#');
    assert_eq!(header.height, 5);
    assert_eq!(header.old_layout, i32::MIN);
    assert_eq!(header.comment_lines, 0);
}

#[test]
fn error_messages() {
    assert_eq!(
        ParseError::InvalidHeader("Invalid height".to_string()).message(),
        "Invalid header: Invalid height"
    );
    assert_eq!(
        ParseError::InvalidCharacter("x".to_string()).message(),
        "Invalid character: x"
    );
    assert_eq!(
        ParseError::UnexpectedEndOfFile.message(),
        "Unexpected end of file"
    );
}

fn chars(lines: &[&str]) -> Vec<Vec<char>> {
    lines.iter().map(|l| l.chars().collect()).collect()
}

#[test]
fn character_lines_are_trimmed_stripped_and_unblanked() {
    let lines = chars(&["skip", " _$_ @  ", "|$@|@@ \t", "@@"]);
    let rows = parse_character(&lines, 1, 3, '$').unwrap();
    assert_eq!(rows, vec![" _ _ ".to_string(), "| @|".to_string(), "".to_string()]);
}

#[test]
fn character_cut_short_is_an_error() {
    let lines = chars(&["a@", "b@@"]);
    assert_eq!(
        parse_character(&lines, 1, 2, '$').unwrap_err(),
        ParseError::UnexpectedEndOfFile
    );
    assert_eq!(
        parse_character(&lines, 3, 0, '$').unwrap_err(),
        ParseError::UnexpectedEndOfFile
    );
    assert_eq!(parse_character(&lines, 2, 0, '$').unwrap(), Vec::<String>::new());
}

/// A font of height 2 in which the glyph of character `c` is the two rows
/// `c#` and `#c`, with `#` as the hardblank.
fn sample_font(comment_lines: usize, glyphs: u32, line_end: &str) -> String {
    let mut s = format!("flf2a# 2 1 4 0 {comment_lines}{line_end}");
    for i in 0..comment_lines {
        s.push_str(&format!("comment {i}{line_end}"));
    }
    for code in 32..32 + glyphs {
        let c = char::from_u32(code).unwrap();
        let c = if c == '@' || c == '#' { 'x' } else { c };
        s.push_str(&format!("{c}#@{line_end}#{c}@@{line_end}"));
    }
    s
}

#[test]
fn font_has_the_95_glyphs() {
    let font = parse_flf("Sample", &sample_font(3, 95, "\n")).unwrap();
    assert_eq!(font.name, "Sample");
    assert_eq!(font.height, 2);
    assert_eq!(font.chars.len(), 95);
    for code in 32u32..=126 {
        assert_eq!(font.chars[&code].len(), 2);
    }
    assert!(!font.chars.contains_key(&31));
    assert!(!font.chars.contains_key(&127));
    assert_eq!(font.chars[&('A' as u32)], vec!["A ".to_string(), " A".to_string()]);
    assert_eq!(font.chars[&(' ' as u32)], vec!["  ".to_string(), "  ".to_string()]);
    assert_eq!(font.chars[&('~' as u32)], vec!["~ ".to_string(), " ~".to_string()]);
}

#[test]
fn font_with_carriage_returns_and_no_final_line_end() {
    let mut text = sample_font(1, 95, "\r\n");
    text.truncate(text.len() - 2);
    let font = parse_flf("Dos", &text).unwrap();
    assert_eq!(font.chars[&('0' as u32)], vec!["0 ".to_string(), " 0".to_string()]);
    assert_eq!(font.chars[&('~' as u32)], vec!["~ ".to_string(), " ~".to_string()]);
}

#[test]
fn font_cut_short_is_an_error() {
    assert_eq!(
        parse_flf("Short", &sample_font(0, 94, "\n")).unwrap_err(),
        ParseError::UnexpectedEndOfFile
    );
    assert_eq!(parse_flf("Empty", "").unwrap_err(), ParseError::UnexpectedEndOfFile);
    assert_eq!(
        parse_flf("Comments", "flf2a$ 1 1 1 0 7\nonly one comment\n").unwrap_err(),
        ParseError::UnexpectedEndOfFile
    );
}

#[test]
fn font_with_bad_header_is_an_error() {
    assert_eq!(
        parse_flf("Bad", "hello\nworld\n").unwrap_err(),
        ParseError::InvalidHeader("Missing flf2a or tlf2a signature".to_string())
    );
}

#[test]
fn font_of_height_zero_has_empty_glyphs() {
    let font = parse_flf("Flat", "tlf2a$ 0 0 0 0 5\n").unwrap();
    assert_eq!(font.height, 0);
    assert_eq!(font.chars.len(), 95);
    assert!(font.chars[&65].is_empty());
    assert_eq!(font.render_text("AB"), Vec::<String>::new());
}
