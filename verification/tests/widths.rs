//! Tests of escape stripping and visible-width measurement, including a
//! cross-check of the stripper against the reference regular expression.

use regex::Regex;

#[test]
fn strip_ansi_removes_escape_sequences() {
    assert_eq!(tabulate::strip_ansi("plain"), "plain");
    assert_eq!(tabulate::strip_ansi("\u{1b}[31mred\u{1b}[0m"), "red");
    assert_eq!(tabulate::strip_ansi("\u{1b}]0;title\u{1b}\\rest"), "rest");
    assert_eq!(tabulate::strip_ansi("\u{1b}[12;34H"), "");
    assert_eq!(tabulate::strip_ansi("a\u{1b}b"), "a\u{1b}b");
    assert_eq!(tabulate::strip_ansi("\u{1b}["), "\u{1b}[");
}

#[test]
fn strip_ansi_matches_the_reference_pattern() {
    let re = Regex::new("\\x1b(?:(?:\\[[0-9;]*[A-Za-z])|(?:\\][^\\x1b]*\\x1b\\\\))").unwrap();
    let samples = [
        "",
        "plain text",
        "\u{1b}[31mred\u{1b}[0m",
        "\u{1b}]0;title\u{1b}\\after",
        "\u{1b}[m",
        "\u{1b}[12;34H",
        "a\u{1b}b",
        "\u{1b}[",
        "\u{1b}]unterminated",
        "mix \u{1b}[1;2;3mbold\u{1b}[0m and \u{1b}]8;;x\u{1b}\\link",
        "\u{1b}[31\u{1b}[32m",
    ];
    for s in samples {
        assert_eq!(
            tabulate::strip_ansi(s),
            re.replace_all(s, "").into_owned(),
            "stripping disagrees on a sample"
        );
    }
}

#[test]
fn visible_width_ignores_escapes_and_counts_wide_characters() {
    assert_eq!(tabulate::visible_width("abc", false), 3);
    assert_eq!(tabulate::visible_width("\u{1b}[31mab\u{1b}[0m", false), 2);
    assert_eq!(tabulate::visible_width("\u{6f22}\u{5b57}", false), 2);
    assert_eq!(tabulate::visible_width("\u{6f22}\u{5b57}", true), 4);
    assert_eq!(tabulate::visible_width("a\u{6f22}", true), 3);
    assert_eq!(
        tabulate::visible_width("\u{6f22}", true),
        unicode_width::UnicodeWidthStr::width("\u{6f22}")
    );
}

#[test]
fn wide_characters_change_wrapping() {
    let narrow = tabulate::wrap_line("\u{6f22}\u{5b57} x", 2, true, true, false);
    assert_eq!(narrow, vec!["\u{6f22}\u{5b57}".to_string(), "x".to_string()]);
    let wide = tabulate::wrap_line("\u{6f22}\u{5b57}", 2, true, true, true);
    assert_eq!(wide, vec!["\u{6f22}".to_string(), "\u{5b57}".to_string()]);
}
