use nu_plugin_skim::options::set_string;
use nu_plugin_skim::text::{parse_usize, same_text, split_comma_entries, split_csv_like, trim_text};

fn strings(v: &[&str]) -> Vec<String> {
    v.iter().map(|s| s.to_string()).collect()
}

#[test]
fn split_csv_like_drops_empty_fields() {
    assert_eq!(split_csv_like("a, b  c,,d"), strings(&["a", "b", "c", "d"]));
}

#[test]
fn split_csv_like_of_separators_only_is_empty() {
    assert_eq!(split_csv_like(""), Vec::<String>::new());
    assert_eq!(split_csv_like(" ,, "), Vec::<String>::new());
}

#[test]
fn split_csv_like_keeps_other_characters() {
    assert_eq!(split_csv_like("ctrl-x;y"), strings(&["ctrl-x;y"]));
}

#[test]
fn comma_entries_are_trimmed() {
    assert_eq!(
        split_comma_entries(" ctrl-a:select-all , ctrl-b:abort,,  "),
        strings(&["ctrl-a:select-all", "ctrl-b:abort"])
    );
}

#[test]
fn trim_text_removes_unicode_white_space() {
    assert_eq!(trim_text("  x y \t\n"), "x y");
    assert_eq!(trim_text("\u{3000}z\u{a0}"), "z");
    assert_eq!(trim_text("   "), "");
}

#[test]
fn parse_usize_accepts_digits_and_plus() {
    assert_eq!(parse_usize("42"), Some(42));
    assert_eq!(parse_usize("+7"), Some(7));
    assert_eq!(parse_usize("007"), Some(7));
    assert_eq!(parse_usize(&usize::MAX.to_string()), Some(usize::MAX));
}

#[test]
fn parse_usize_rejects_other_text() {
    assert_eq!(parse_usize(""), None);
    assert_eq!(parse_usize("+"), None);
    assert_eq!(parse_usize("-1"), None);
    assert_eq!(parse_usize("1a"), None);
    assert_eq!(parse_usize(" 1"), None);
    let too_big = format!("{}0", usize::MAX);
    assert_eq!(parse_usize(&too_big), None);
}

#[test]
fn same_text_compares_characters() {
    assert!(same_text("héllo", "héllo"));
    assert!(!same_text("hello", "hellO"));
    assert!(!same_text("a", "ab"));
}

#[test]
fn set_string_prefers_the_attached_value() {
    let words = strings(&["next"]);
    let mut pos = 0;
    assert_eq!(set_string(Some("v".to_string()), &words, &mut pos), Some("v".to_string()));
    assert_eq!(pos, 0);
}

#[test]
fn set_string_uses_up_the_next_word() {
    let words = strings(&["a", "b"]);
    let mut pos = 1;
    assert_eq!(set_string(None, &words, &mut pos), Some("b".to_string()));
    assert_eq!(pos, 2);
    assert_eq!(set_string(None, &words, &mut pos), None);
    assert_eq!(pos, 2);
}
