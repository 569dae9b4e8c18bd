use sigye::registry::{custom_font_name, names_equal, names_less};
use sigye::{FontFile, FontRegistry, FontSource};

/// A font of height 1 in which every glyph is `mark` followed by the
/// character itself.
fn font_text(mark: char) -> String {
    let mut s = String::from("flf2a$ 1 1 2 0 0\n");
    for code in 32u8..=126 {
        let c = code as char;
        let c = if c == '@' || c == '$' { '?' } else { c };
        s.push_str(&format!("{mark}{c}@@\n"));
    }
    s
}

fn source(name: &str, mark: char) -> FontSource {
    FontSource { name: name.to_string(), content: font_text(mark) }
}

fn file(file_name: &str, mark: char) -> FontFile {
    FontFile { file_name: file_name.to_string(), content: font_text(mark) }
}

fn chars(s: &str) -> Vec<char> {
    s.chars().collect()
}

fn bundled() -> FontRegistry {
    FontRegistry::new(&vec![
        source("Standard", 's'),
        source("Big", 'b'),
        FontSource { name: "Broken".to_string(), content: "not a font".to_string() },
        source("ANSI Shadow", 'a'),
        source("3D-ASCII", '3'),
    ])
}

#[test]
fn names_are_ordered_by_code_point() {
    let names = ["", "3D", "A", "AB", "B", "a", "ab", "é", "日本"];
    for (i, a) in names.iter().enumerate() {
        for (j, b) in names.iter().enumerate() {
            assert_eq!(names_less(&chars(a), &chars(b)), i < j);
            assert_eq!(names_less(&chars(a), &chars(b)), a < b);
            assert_eq!(names_equal(&chars(a), &chars(b)), i == j);
        }
    }
}

#[test]
fn font_files_end_in_flf() {
    assert_eq!(custom_font_name("Mine.flf"), Some("Mine".to_string()));
    assert_eq!(custom_font_name("a.b.flf"), Some("a.b".to_string()));
    assert_eq!(custom_font_name("..flf"), Some(".".to_string()));
    assert_eq!(custom_font_name("Größe 9.flf"), Some("Größe 9".to_string()));
    assert_eq!(custom_font_name(".flf"), None);
    assert_eq!(custom_font_name("flf"), None);
    assert_eq!(custom_font_name(""), None);
    assert_eq!(custom_font_name("Mine.FLF"), None);
    assert_eq!(custom_font_name("Mine.tlf"), None);
    assert_eq!(custom_font_name("Mine.flf.bak"), None);
    assert_eq!(custom_font_name("Mine.flf "), None);
    assert_eq!(custom_font_name("Mine flf"), None);
}

#[test]
fn new_registry_holds_the_fonts_that_parse() {
    let registry = bundled();
    assert_eq!(registry.len(), 4);
    assert!(!registry.is_empty());
    assert_eq!(registry.list_fonts(), vec!["3D-ASCII", "ANSI Shadow", "Big", "Standard"]);
    assert!(registry.has_font("Standard"));
    assert!(registry.has_font("Big"));
    assert!(!registry.has_font("Broken"));
    assert!(!registry.has_font("standard"));
    assert!(!registry.has_font(""));
    let big = registry.get("Big").unwrap();
    assert_eq!(big.name, "Big");
    assert_eq!(big.height, 1);
    assert_eq!(big.render_text("hi"), vec!["bhbi".to_string()]);
    assert!(registry.get("Small").is_none());
}

#[test]
fn empty_registry() {
    let registry = FontRegistry::new(&Vec::new());
    assert_eq!(registry.len(), 0);
    assert!(registry.is_empty());
    assert!(registry.list_fonts().is_empty());
    assert!(registry.get("Standard").is_none());
    assert!(!registry.has_font("Standard"));
}

#[test]
fn a_later_built_in_font_replaces_an_earlier_one_of_its_name() {
    let registry = FontRegistry::new(&vec![
        source("Standard", '1'),
        source("Other", 'o'),
        source("Standard", '2'),
        FontSource { name: "Other".to_string(), content: String::new() },
    ]);
    assert_eq!(registry.list_fonts(), vec!["Other", "Standard"]);
    assert_eq!(registry.get("Standard").unwrap().render_text("x"), vec!["2x".to_string()]);
    assert_eq!(registry.get("Other").unwrap().render_text("x"), vec!["ox".to_string()]);
}

#[test]
fn get_or_default_falls_back_to_standard() {
    let registry = bundled();
    assert_eq!(registry.get_or_default("Big").name, "Big");
    assert_eq!(registry.get_or_default("Standard").name, "Standard");
    assert_eq!(registry.get_or_default("No such font").name, "Standard");
    assert_eq!(registry.get_or_default("").render_text("x"), vec!["sx".to_string()]);
}

#[test]
fn custom_fonts_are_added_under_their_stem() {
    let mut registry = bundled();
    registry.load_custom_fonts(&vec![
        file("Mine.flf", 'm'),
        file("notes.txt", 'n'),
        file("Zebra.flf", 'z'),
        FontFile { file_name: "Bad.flf".to_string(), content: "flf2a$ 1 1".to_string() },
        file("Aardvark.flf", 'v'),
        file(".flf", 'h'),
    ]);
    assert_eq!(
        registry.list_fonts(),
        vec!["3D-ASCII", "ANSI Shadow", "Aardvark", "Big", "Mine", "Standard", "Zebra"]
    );
    assert_eq!(registry.len(), 7);
    assert_eq!(registry.get("Mine").unwrap().name, "Mine");
    assert_eq!(registry.get("Mine").unwrap().render_text("x"), vec!["mx".to_string()]);
    assert!(!registry.has_font("Bad"));
    assert!(!registry.has_font("notes"));
    assert!(!registry.has_font(""));
}

#[test]
fn built_in_fonts_win_over_custom_fonts() {
    let mut registry = bundled();
    registry.load_custom_fonts(&vec![
        file("Standard.flf", 'x'),
        file("Mine.flf", '1'),
        file("Mine.flf", '2'),
        FontFile { file_name: "Big.flf".to_string(), content: "broken".to_string() },
    ]);
    assert_eq!(registry.len(), 5);
    assert_eq!(registry.get("Standard").unwrap().render_text("x"), vec!["sx".to_string()]);
    assert_eq!(registry.get("Big").unwrap().render_text("x"), vec!["bx".to_string()]);
    // of two custom fonts of one name the first stays
    assert_eq!(registry.get("Mine").unwrap().render_text("x"), vec!["1x".to_string()]);
}

#[test]
fn loading_no_files_changes_nothing() {
    let mut registry = bundled();
    registry.load_custom_fonts(&Vec::new());
    assert_eq!(registry.list_fonts(), vec!["3D-ASCII", "ANSI Shadow", "Big", "Standard"]);
}
