use sigye::text::{
    char_is_whitespace, chars_of, parse_i32, parse_usize, split_fields, split_lines, string_of,
    trimmed_len,
};

fn chars(s: &str) -> Vec<char> {
    s.chars().collect()
}

fn strings(v: Vec<Vec<char>>) -> Vec<String> {
    v.into_iter().map(|l| l.into_iter().collect()).collect()
}

#[test]
fn chars_and_strings_convert_both_ways() {
    for s in ["", "a", "flf2a$ 5", "é日本\u{1F600}", "\r\n\t "] {
        assert_eq!(chars_of(s), chars(s));
        assert_eq!(string_of(&chars(s)), s);
    }
}

#[test]
fn white_space_is_the_unicode_property() {
    for code in 0..=0x10FFFFu32 {
        if let Some(c) = char::from_u32(code) {
            assert_eq!(char_is_whitespace(c), c.is_whitespace(), "U+{code:04X}");
        }
    }
}

#[test]
fn lines_end_at_line_feeds() {
    let cases: [(&str, &[&str]); 12] = [
        ("", &[]),
        ("a", &["a"]),
        ("a\n", &["a"]),
        ("a\nb", &["a", "b"]),
        ("a\r\nb\r\n", &["a", "b"]),
        ("\n", &[""]),
        ("\n\n", &["", ""]),
        ("a\n\nb", &["a", "", "b"]),
        ("a\rb\n", &["a\rb"]),
        ("a\r\r\n", &["a\r"]),
        ("\r\n", &[""]),
        (" x \n\ty", &[" x ", "\ty"]),
    ];
    for (text, lines) in cases {
        assert_eq!(strings(split_lines(&chars(text))), lines.to_vec(), "{text:?}");
    }
}

#[test]
fn lines_are_those_of_the_standard_library() {
    let texts = [
        "",
        "one",
        "one\ntwo\n",
        "one\r\ntwo\r\nthree",
        "\n\n\n",
        "a\r",
        "a\r\n\r",
        "\r",
        "mixed\rline\r\nnext\n\rlast",
        "flf2a$ 2 1 4 0 1\ncomment\n $@\n $@@\n",
    ];
    for text in texts {
        let expected: Vec<String> = text.lines().map(String::from).collect();
        assert_eq!(strings(split_lines(&chars(text))), expected, "{text:?}");
    }
}

#[test]
fn fields_are_separated_by_white_space() {
    let cases: [(&str, usize, &[&str]); 8] = [
        ("", 0, &[]),
        ("   ", 0, &[]),
        ("a", 0, &["a"]),
        ("  a  bc\td ", 0, &["a", "bc", "d"]),
        ("flf2a$ 5 4 13", 6, &["5", "4", "13"]),
        ("flf2a$5 4", 6, &["5", "4"]),
        ("a\u{3000}b\u{a0}c\u{2028}d", 0, &["a", "b", "c", "d"]),
        ("abc", 3, &[]),
    ];
    for (line, from, fields) in cases {
        assert_eq!(strings(split_fields(&chars(line), from)), fields.to_vec(), "{line:?}");
    }
    let line = " x\u{85}y   z\r";
    let expected: Vec<String> = line.split_whitespace().map(String::from).collect();
    assert_eq!(strings(split_fields(&chars(line), 0)), expected);
}

#[test]
fn trailing_white_space_and_markers_are_cut() {
    let cases = [
        ("", 0),
        ("abc", 3),
        ("abc@", 3),
        ("abc@@", 3),
        ("abc@@  \t", 3),
        ("abc @ @", 6),
        ("a@b@@ \r", 3),
        ("@@", 0),
        ("  ", 0),
        (" @ ", 1),
        ("abc\u{3000}", 3),
    ];
    for (line, len) in cases {
        assert_eq!(trimmed_len(&chars(line), '@'), len, "{line:?}");
        let expected = line.trim_end().trim_end_matches('@');
        assert_eq!(len, expected.chars().count(), "{line:?}");
    }
    assert_eq!(trimmed_len(&chars("abc##"), '#'), 3);
}

#[test]
fn unsigned_numbers() {
    assert_eq!(parse_usize(&chars("0")), Some(0));
    assert_eq!(parse_usize(&chars("5")), Some(5));
    assert_eq!(parse_usize(&chars("+5")), Some(5));
    assert_eq!(parse_usize(&chars("0013")), Some(13));
    assert_eq!(parse_usize(&chars("22415")), Some(22415));
    assert_eq!(parse_usize(&chars(&usize::MAX.to_string())), Some(usize::MAX));
    assert_eq!(parse_usize(&chars(&format!("000{}", usize::MAX))), Some(usize::MAX));
    for bad in ["", "+", "-", "-1", "-0", "++1", "1+", " 1", "1 ", "1_000", "0x10", "1.0", "١", "１"] {
        assert_eq!(parse_usize(&chars(bad)), None, "{bad:?}");
    }
    assert_eq!(parse_usize(&chars(&format!("{}0", usize::MAX))), None);
    assert_eq!(parse_usize(&chars("18446744073709551616")), None);
    assert_eq!(parse_usize(&chars("99999999999999999999999x")), None);
}

#[test]
fn signed_numbers() {
    assert_eq!(parse_i32(&chars("0")), Some(0));
    assert_eq!(parse_i32(&chars("-0")), Some(0));
    assert_eq!(parse_i32(&chars("-1")), Some(-1));
    assert_eq!(parse_i32(&chars("+15")), Some(15));
    assert_eq!(parse_i32(&chars("24463")), Some(24463));
    assert_eq!(parse_i32(&chars("2147483647")), Some(i32::MAX));
    assert_eq!(parse_i32(&chars("-2147483648")), Some(i32::MIN));
    assert_eq!(parse_i32(&chars("-0002147483648")), Some(i32::MIN));
    for bad in ["", "+", "-", "--1", "+-1", "1-", "2147483648", "-2147483649", "99999999999", "1e3"] {
        assert_eq!(parse_i32(&chars(bad)), None, "{bad:?}");
    }
}

#[test]
fn numbers_are_read_as_the_standard_library_reads_them() {
    let texts = [
        "", "0", "7", "+7", "-7", "007", "+", "-", "4294967295", "4294967296", "2147483647",
        "2147483648", "-2147483648", "-2147483649", "18446744073709551615",
        "18446744073709551616", "12a", "a12", "1 2", "+-3", "٣",
    ];
    for text in texts {
        assert_eq!(parse_usize(&chars(text)), text.parse::<usize>().ok(), "{text:?}");
        assert_eq!(parse_i32(&chars(text)), text.parse::<i32>().ok(), "{text:?}");
    }
}
