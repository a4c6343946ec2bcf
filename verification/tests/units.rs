//! Unit tests of the alignment, classification, wrapping and formatting
//! building blocks.

use tabulate::{Alignment, CellKind, DecimalLayout};

#[test]
fn parse_alignment_names() {
    assert_eq!(Alignment::parse("left"), Some(Alignment::Left));
    assert_eq!(Alignment::parse("right"), Some(Alignment::Right));
    assert_eq!(Alignment::parse("center"), Some(Alignment::Center));
    assert_eq!(Alignment::parse("decimal"), Some(Alignment::Decimal));
    assert_eq!(Alignment::parse("middle"), None);
}

#[test]
fn align_cell_pads_to_width() {
    let left = tabulate::align_cell("ab", 5, Alignment::Left, '.', None, true, true, false);
    assert_eq!(left, "ab   ");
    let right = tabulate::align_cell("ab", 5, Alignment::Right, '.', None, true, true, false);
    assert_eq!(right, "   ab");
    let center = tabulate::align_cell("ab", 5, Alignment::Center, '.', None, true, true, false);
    assert_eq!(center, " ab  ");
}

#[test]
fn align_cell_decimal_uses_the_layout() {
    let layout = Some(DecimalLayout { integer: 2, fraction: 2 });
    let a = tabulate::align_cell("1.5", 5, Alignment::Decimal, '.', layout, true, true, false);
    let b = tabulate::align_cell("22.25", 5, Alignment::Decimal, '.', layout, true, true, false);
    let c = tabulate::align_cell("3", 5, Alignment::Decimal, '.', layout, true, true, false);
    assert_eq!(a, " 1.5 ");
    assert_eq!(b, "22.25");
    assert_eq!(c, "  3  ");
    assert_eq!(a.find('.'), b.find('.'));
}

#[test]
fn str_eq_compares_characters() {
    assert!(tabulate::str_eq("abc", "abc"));
    assert!(!tabulate::str_eq("abc", "abd"));
    assert!(!tabulate::str_eq("abc", "ab"));
}

#[test]
fn classification_follows_the_grammar() {
    assert!(tabulate::check_int("123"));
    assert!(tabulate::check_int("-7"));
    assert!(!tabulate::check_int("12a"));
    assert!(!tabulate::check_int(""));
    assert!(tabulate::check_float("-4.5e3"));
    assert!(tabulate::check_float(".5"));
    assert!(tabulate::check_float("1."));
    assert!(tabulate::check_float("inf"));
    assert!(tabulate::check_float("NaN"));
    assert!(tabulate::check_float("-Infinity"));
    assert!(!tabulate::check_float("."));
    assert!(!tabulate::check_float("1e"));
    assert!(!tabulate::check_float("e5"));
    assert_eq!(tabulate::classify("42", false), CellKind::Integer);
    assert_eq!(tabulate::classify("42", true), CellKind::Text);
    assert_eq!(tabulate::classify("4.2", false), CellKind::Float);
    assert_eq!(tabulate::classify("hi", false), CellKind::Text);
}

#[test]
fn fixed_precision_formatting() {
    assert_eq!(tabulate::format_float_cell("3.14159", 2), "3.14");
    assert_eq!(tabulate::format_float_cell("9.99", 1), "10.0");
    assert_eq!(tabulate::format_float_cell("2.5", 0), "3");
    assert_eq!(tabulate::format_float_cell("-1.25", 1), "-1.3");
    assert_eq!(tabulate::format_float_cell("1.5", 3), "1.500");
    assert_eq!(tabulate::format_float_cell(".5", 1), "0.5");
    assert_eq!(tabulate::format_float_cell("abc", 2), "abc");
    assert_eq!(tabulate::format_float_cell("1e5", 2), "1e5");
    assert_eq!(tabulate::format_float_cell("inf", 2), "inf");
}

#[test]
fn float_format_strings() {
    assert_eq!(tabulate::parse_float_format(".2f"), Some(2));
    assert_eq!(tabulate::parse_float_format(".0f"), Some(0));
    assert_eq!(tabulate::parse_float_format("d"), None);
    assert_eq!(tabulate::parse_float_format("g"), None);
    assert_eq!(tabulate::parse_float_format(".12345f"), None);
}

#[test]
fn greedy_wrap_fills_lines() {
    let lines = tabulate::wrap_line("aa bb cc", 5, true, true, false);
    assert_eq!(lines, vec!["aa bb".to_string(), "cc".to_string()]);
    let broken = tabulate::wrap_line("co-operate", 5, false, true, false);
    assert_eq!(broken, vec!["co-".to_string(), "operate".to_string()]);
    let kept = tabulate::wrap_line("extraordinarily", 5, false, false, false);
    assert_eq!(kept, vec!["extraordinarily".to_string()]);
    let multi = tabulate::wrap_text("one two\nthree", 7, true, true, false);
    assert_eq!(multi, vec!["one two".to_string(), "three".to_string()]);
}

#[test]
fn vertical_alignment_pads_lines() {
    let row: Vec<String> = vec!["a\nbb".to_string(), "c".to_string()];
    let top = tabulate::valign_row(row.clone(), tabulate::RowAlignment::Top);
    assert_eq!(top, vec!["a\nbb".to_string(), "c\n".to_string()]);
    let bottom = tabulate::valign_row(row.clone(), tabulate::RowAlignment::Bottom);
    assert_eq!(bottom, vec!["a\nbb".to_string(), "\nc".to_string()]);
    let center = tabulate::valign_row(row, tabulate::RowAlignment::Center);
    assert_eq!(center, vec!["a\nbb".to_string(), "c\n".to_string()]);
}

#[test]
fn numparse_can_be_disabled_per_column() {
    let options = tabulate::TabulateOptions::new().disable_numparse_columns(vec![1, 3]);
    assert!(!options.is_numparse_disabled(Some(0)));
    assert!(options.is_numparse_disabled(Some(1)));
    assert!(!options.is_numparse_disabled(Some(2)));
    assert!(!options.is_numparse_disabled(None));
    let all_off = tabulate::TabulateOptions::new().disable_numparse(true);
    assert!(all_off.is_numparse_disabled(Some(0)));
    assert!(all_off.is_numparse_disabled(None));
}

#[test]
fn error_messages_name_the_format() {
    let options = tabulate::TabulateOptions::new().table_format("nope");
    let err = tabulate::tabulate(Vec::new(), &options).unwrap_err();
    assert_eq!(err.message(), "unknown table format: nope");
}

#[test]
fn catalog_lookups() {
    assert!(tabulate::table_format("grid").is_some());
    assert!(tabulate::table_format("simple").is_some());
    assert!(tabulate::table_format("nope").is_none());
    let names = tabulate::tabulate_formats();
    assert_eq!(names.len(), 37);
    assert!(names.iter().any(|n| n == "grid"));
    assert!(names.iter().any(|n| n == "mediawiki"));
    let simple = tabulate::table_format("simple").unwrap();
    assert!(simple.hides("lineabove"));
    assert!(simple.hides("linebelow"));
    assert!(!simple.hides("linebetweenrows"));
}

#[test]
fn cell_widths_count_the_widest_line() {
    assert_eq!(tabulate::cell_width_of("ab\nc", false), 2);
    assert_eq!(tabulate::cell_width_of("", false), 0);
    assert_eq!(tabulate::multiline_widths("ab\nc", false), vec![2, 1]);
}

#[test]
fn integer_format_strings() {
    assert_eq!(tabulate::parse_int_format("d"), Some((false, 0)));
    assert_eq!(tabulate::parse_int_format("5d"), Some((false, 5)));
    assert_eq!(tabulate::parse_int_format("05d"), Some((true, 5)));
    assert_eq!(tabulate::parse_int_format("x"), None);
    assert_eq!(tabulate::parse_int_format("5x"), None);
    assert_eq!(tabulate::parse_int_format(".2f"), None);
    assert_eq!(tabulate::parse_int_format("123456d"), None);
}

#[test]
fn integer_padding_counts_the_sign() {
    assert_eq!(tabulate::int_format_cell("42", false, 5), "   42");
    assert_eq!(tabulate::int_format_cell("-42", false, 5), "  -42");
    assert_eq!(tabulate::int_format_cell("42", true, 5), "00042");
    assert_eq!(tabulate::int_format_cell("-42", true, 5), "-0042");
    assert_eq!(tabulate::int_format_cell("123456", false, 5), "123456");
}

#[test]
fn integer_format_applies_through_the_pipeline() {
    let data: Vec<Vec<String>> = vec![vec!["7".to_string()], vec!["-42".to_string()]];
    let options = tabulate::TabulateOptions::new()
        .table_format("plain")
        .int_format(tabulate::FormatSpec::Fixed("04d".to_string()));
    let out = tabulate::tabulate(data, &options).expect("render succeeds");
    assert_eq!(out, "0007\n-042");
}
