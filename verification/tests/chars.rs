use git_diff_loc::chars::{
    chars_of, ends_with, find_last, is_str, lowercase_of, same, starts_with, string_of, trimmed,
};
use git_diff_loc::diff::{is_blank_chars, record_line};
use git_diff_loc::language::{line_type_of, Language, LineType};
use git_diff_loc::path::{ends_in_test, is_test_chars, language_of_chars, spells_test};
use git_diff_loc::stats::{CodeStats, Stats};

fn chars(text: &str) -> Vec<char> {
    text.chars().collect()
}

#[test]
fn strings_to_characters_and_back() {
    assert_eq!(chars_of("aé\u{2500}\n"), vec!['a', 'é', '\u{2500}', '\n']);
    assert!(chars_of("").is_empty());
    assert_eq!(string_of(&['a', 'é', '\u{2500}']), "aé\u{2500}");
    assert_eq!(string_of(&[]), "");
    assert_eq!(string_of(&chars_of("round trip")), "round trip");
}

#[test]
fn lowercase_changes_letters_only() {
    assert_eq!(lowercase_of(&chars("HeLLo.RS")), chars("hello.rs"));
    assert_eq!(lowercase_of(&chars("ÄÖ_Test-1")), chars("äö_test-1"));
    assert_eq!(lowercase_of(&chars("")), chars(""));
}

#[test]
fn lowercase_may_change_the_length() {
    // U+0130 becomes an `i` and a combining dot.
    assert_eq!(lowercase_of(&['\u{0130}']), vec!['i', '\u{0307}']);
}

#[test]
fn equal_runs() {
    assert!(same(&chars("abc"), &chars("abc")));
    assert!(same(&[], &[]));
    assert!(!same(&chars("abc"), &chars("abd")));
    assert!(!same(&chars("abc"), &chars("ab")));
    assert!(!same(&chars("ab"), &chars("abc")));
}

#[test]
fn spelling_a_word() {
    assert!(is_str(&chars("test"), "test"));
    assert!(is_str(&[], ""));
    assert!(!is_str(&chars("test"), "tests"));
    assert!(!is_str(&chars("tests"), "test"));
    assert!(!is_str(&chars("tesT"), "test"));
    assert!(!is_str(&[], "a"));
}

#[test]
fn prefixes() {
    assert!(starts_with(&chars("diff --git a b"), "diff --git "));
    assert!(starts_with(&chars("+++"), "+++"));
    assert!(starts_with(&chars("abc"), ""));
    assert!(starts_with(&[], ""));
    assert!(!starts_with(&chars("++"), "+++"));
    assert!(!starts_with(&chars("diff --git"), "diff --git "));
    assert!(!starts_with(&chars(" //"), "//"));
}

#[test]
fn suffixes() {
    assert!(ends_with(&chars("foo_test"), "_test"));
    assert!(ends_with(&chars("_test"), "_test"));
    assert!(ends_with(&chars("abc"), ""));
    assert!(!ends_with(&chars("test"), "_test"));
    assert!(!ends_with(&chars("foo_test "), "_test"));
    assert!(!ends_with(&[], "a"));
}

#[test]
fn last_occurrence() {
    assert_eq!(find_last(&chars("a.b.c"), '.'), Some(3));
    assert_eq!(find_last(&chars(".abc"), '.'), Some(0));
    assert_eq!(find_last(&chars("abc."), '.'), Some(3));
    assert_eq!(find_last(&chars("abc"), '.'), None);
    assert_eq!(find_last(&[], '.'), None);
}

#[test]
fn trimming() {
    assert_eq!(trimmed(&chars("  let x = 1;\t\r")), &chars("let x = 1;")[..]);
    assert_eq!(trimmed(&chars("a b")), &chars("a b")[..]);
    assert_eq!(trimmed(&chars(" \t \n")), &chars("")[..]);
    assert_eq!(trimmed(&[]), &chars("")[..]);
    assert_eq!(trimmed(&chars("\u{00A0}x\u{3000}")), &chars("x")[..]);
}

#[test]
fn blank_runs() {
    assert!(is_blank_chars(&[]));
    assert!(is_blank_chars(&chars("+-*/ {}")));
    assert!(!is_blank_chars(&chars("+-*/ {x}")));
}

#[test]
fn extensions_in_lower_case() {
    assert_eq!(Language::from_extension(&chars("rs")), Language::Rust);
    assert_eq!(Language::from_extension(&chars("hxx")), Language::CCpp);
    assert_eq!(Language::from_extension(&chars("markdown")), Language::Markdown);
    assert_eq!(Language::from_extension(&chars("RS")), Language::Unknown);
    assert_eq!(Language::from_extension(&chars("")), Language::Unknown);
    assert_eq!(Language::from_extension(&chars("rss")), Language::Unknown);
}

#[test]
fn test_words_and_endings() {
    assert!(spells_test(&chars("test")));
    assert!(spells_test(&chars("tests")));
    assert!(!spells_test(&chars("Test")));
    assert!(!spells_test(&chars("testss")));
    assert!(!spells_test(&chars("")));
    assert!(ends_in_test(&chars("a_test")));
    assert!(ends_in_test(&chars("a_tests")));
    assert!(ends_in_test(&chars("a-test")));
    assert!(ends_in_test(&chars("a-tests")));
    assert!(ends_in_test(&chars("-test")));
    assert!(!ends_in_test(&chars("a.test")));
    assert!(!ends_in_test(&chars("atest")));
    assert!(!ends_in_test(&chars("a_TEST")));
}

#[test]
fn paths_held_as_characters() {
    assert!(is_test_chars(&chars("src/tests/foo.rs")));
    assert!(!is_test_chars(&chars("src/foo.rs")));
    assert_eq!(language_of_chars(&chars("src/foo.rs")), Language::Rust);
    assert_eq!(language_of_chars(&chars("src/")), Language::Unknown);
    assert_eq!(line_type_of(&chars("# x"), Language::Shell), LineType::Comment);
    assert_eq!(line_type_of(&chars("x # y"), Language::Shell), LineType::Code);
}

#[test]
fn a_line_of_known_kind_falls_under_its_counter() {
    let mut code = CodeStats::new();
    let mut comments = Stats::new();
    record_line(&mut code, &mut comments, Language::Go, LineType::Code, false, true);
    record_line(&mut code, &mut comments, Language::Go, LineType::Code, true, false);
    record_line(&mut code, &mut comments, Language::Go, LineType::Comment, true, true);
    record_line(&mut code, &mut comments, Language::Ruby, LineType::Comment, false, false);
    let go = code.get(Language::Go).unwrap();
    assert_eq!((go.added, go.removed, go.test_added, go.test_removed), (1, 0, 0, 1));
    assert_eq!(code.get(Language::Ruby), None);
    assert_eq!(
        (comments.added, comments.removed, comments.test_added, comments.test_removed),
        (0, 1, 1, 0)
    );
}
