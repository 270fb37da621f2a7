use easytier_service::text::{
    chars_of, contains_pattern, matches_at, remove_all, spells, string_of,
};

fn chars(s: &str) -> Vec<char> {
    s.chars().collect()
}

#[test]
fn chars_of_gives_the_characters_in_order() {
    assert_eq!(chars_of("a-\u{e9}\u{4e2d}"), vec!['a', '-', '\u{e9}', '\u{4e2d}']);
    assert_eq!(chars_of(""), Vec::<char>::new());
}

#[test]
fn remove_all_takes_out_every_occurrence() {
    assert_eq!(remove_all(&chars("a.exeb.exe"), &chars(".exe")), chars("ab"));
    assert_eq!(remove_all(&chars(".exe"), &chars(".exe")), chars(""));
    assert_eq!(remove_all(&chars("abc"), &chars(".exe")), chars("abc"));
    assert_eq!(remove_all(&chars(""), &chars(".exe")), chars(""));
}

#[test]
fn remove_all_scans_once_from_the_left() {
    assert_eq!(remove_all(&chars(".e.exexe"), &chars(".exe")), chars(".exe"));
    assert_eq!(remove_all(&chars("aaa"), &chars("aa")), chars("a"));
    assert_eq!(remove_all(&chars(".ex"), &chars(".exe")), chars(".ex"));
}

#[test]
fn remove_all_with_an_empty_pattern_changes_nothing() {
    assert_eq!(remove_all(&chars("abc"), &chars("")), chars("abc"));
}

#[test]
fn remove_all_agrees_with_the_standard_replace() {
    let samples = ["x.exe.exe.dll", "..exeexe", "e.exe.e.x.e", "no match", ".dll.exe"];
    for sample in samples {
        let expected = sample.replace(".exe", "");
        assert_eq!(remove_all(&chars(sample), &chars(".exe")), chars(&expected));
    }
}

#[test]
fn contains_pattern_finds_a_run_of_characters() {
    assert!(contains_pattern(&chars("app-linux-x86_64.zip"), &chars("linux")));
    assert!(contains_pattern(&chars("app-linux-x86_64.zip"), &chars("app")));
    assert!(contains_pattern(&chars("app-linux-x86_64.zip"), &chars(".zip")));
    assert!(!contains_pattern(&chars("app-linux-x86_64.zip"), &chars("windows")));
    assert!(!contains_pattern(&chars("lin"), &chars("linux")));
    assert!(!contains_pattern(&chars("l-i-n-u-x"), &chars("linux")));
}

#[test]
fn the_empty_pattern_occurs_everywhere() {
    assert!(contains_pattern(&chars("abc"), &chars("")));
    assert!(contains_pattern(&chars(""), &chars("")));
    assert!(!contains_pattern(&chars(""), &chars("a")));
}

#[test]
fn matches_at_compares_in_place() {
    assert!(matches_at(&chars("abcd"), 1, &chars("bc")));
    assert!(!matches_at(&chars("abcd"), 2, &chars("bc")));
    assert!(!matches_at(&chars("abcd"), 3, &chars("de")));
    assert!(matches_at(&chars("abcd"), 4, &chars("")));
}

#[test]
fn spells_compares_characters_with_a_string() {
    assert!(spells(&chars("packet"), "packet"));
    assert!(!spells(&chars("packet"), "packets"));
    assert!(!spells(&chars("packet"), "pocket"));
    assert!(spells(&chars(""), ""));
}

#[test]
fn string_of_gives_the_text_between_two_positions() {
    let text = chars("easytier-core 1.2.3");
    assert_eq!(string_of(&text, 14, 19), "1.2.3");
    assert_eq!(string_of(&text, 0, 8), "easytier");
    assert_eq!(string_of(&text, 5, 5), "");
    assert_eq!(string_of(&text, 0, 19), "easytier-core 1.2.3");
    assert_eq!(string_of(&chars("\u{4e2d}\u{6587}x"), 1, 3), "\u{6587}x");
}
