use minishell::exit_status::parse_status;
use minishell::text::{join_with, same_text, split_fields, split_words, strip_note};

fn strings(items: &[&str]) -> Vec<String> {
    items.iter().map(|s| s.to_string()).collect()
}

#[test]
fn words_split_on_runs_of_whitespace() {
    assert_eq!(split_words("  echo   a\tb \n"), strings(&["echo", "a", "b"]));
}

#[test]
fn blank_line_has_no_words() {
    assert!(split_words("").is_empty());
    assert!(split_words(" \t \r\n").is_empty());
}

#[test]
fn unicode_spaces_separate_words() {
    assert_eq!(split_words("a\u{3000}b\u{a0}c"), strings(&["a", "b", "c"]));
}

#[test]
fn fields_keep_empty_segments() {
    assert_eq!(split_fields(":/bin::/usr/bin:", ':'), strings(&["", "/bin", "", "/usr/bin", ""]));
    assert_eq!(split_fields("", ':'), strings(&[""]));
    assert_eq!(split_fields("/a:/b", ':'), strings(&["/a", "/b"]));
}

#[test]
fn join_puts_one_separator_between_neighbours() {
    assert_eq!(join_with(&strings(&["a", "b", "c"]), " "), "a b c");
    assert_eq!(join_with(&strings(&["a"]), " "), "a");
    assert_eq!(join_with(&Vec::new(), " "), "");
}

#[test]
fn same_text_compares_characters() {
    assert!(same_text("cd", "cd"));
    assert!(!same_text("cd", "cde"));
    assert!(!same_text("cd", "cx"));
    assert!(same_text("", ""));
}

#[test]
fn note_is_cut_from_system_text() {
    assert_eq!(strip_note("No such file or directory (os error 2)"), "No such file or directory");
    assert_eq!(strip_note("Not a directory"), "Not a directory");
    assert_eq!(strip_note("a (b) (c)"), "a");
    assert_eq!(strip_note("x("), "x(");
}

#[test]
fn status_parses_signed_decimals() {
    assert_eq!(parse_status("3"), Some(3));
    assert_eq!(parse_status("0"), Some(0));
    assert_eq!(parse_status("+7"), Some(7));
    assert_eq!(parse_status("-1"), Some(-1));
    assert_eq!(parse_status("007"), Some(7));
    assert_eq!(parse_status("2147483647"), Some(i32::MAX));
    assert_eq!(parse_status("-2147483648"), Some(i32::MIN));
}

#[test]
fn status_rejects_what_is_no_i32() {
    assert_eq!(parse_status(""), None);
    assert_eq!(parse_status("-"), None);
    assert_eq!(parse_status("+"), None);
    assert_eq!(parse_status("3a"), None);
    assert_eq!(parse_status("abc"), None);
    assert_eq!(parse_status(" 3"), None);
    assert_eq!(parse_status("2147483648"), None);
    assert_eq!(parse_status("-2147483649"), None);
    assert_eq!(parse_status("99999999999999999999999"), None);
}
