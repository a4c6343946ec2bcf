//! End-to-end tests of the tabulation engine.

use tabulate::{Headers, RowAlignment, ShowIndex, TabulateError, TabulateOptions};

fn rows(data: &[&[&str]]) -> Vec<Vec<String>> {
    data.iter()
        .map(|r| r.iter().map(|c| c.to_string()).collect())
        .collect()
}

#[test]
fn grid_with_first_row_headers() {
    let data = rows(&[
        &["Planet", "Radius"],
        &["Mercury", "2440"],
        &["Venus", "6052"],
    ]);
    let options = TabulateOptions::new()
        .headers(Headers::FirstRow)
        .table_format("grid");
    let out = tabulate::tabulate(data, &options).expect("render succeeds");
    let expected = "+---------+--------+\n\
                    | Planet  | Radius |\n\
                    +=========+========+\n\
                    | Mercury |   2440 |\n\
                    +---------+--------+\n\
                    | Venus   |   6052 |\n\
                    +---------+--------+";
    assert_eq!(out, expected);
}

#[test]
fn unknown_format_name_is_an_error() {
    let data = rows(&[&["a"]]);
    let options = TabulateOptions::new().table_format("not-a-format");
    let result = tabulate::tabulate(data, &options);
    match result {
        Err(TabulateError::UnknownFormat(name)) => {
            assert_eq!(name, "not-a-format");
        }
        _ => panic!("expected an unknown-format error"),
    }
}

#[test]
fn missing_cells_use_the_placeholder() {
    let data = rows(&[&["a", "b", "c"], &["d"]]);
    let options = TabulateOptions::new().table_format("plain").missing_value("-");
    let out = tabulate::tabulate(data, &options).expect("render succeeds");
    assert_eq!(out, "a  b  c\nd  -  -");
}

#[test]
fn capped_column_wraps_a_long_word() {
    let data = rows(&[&["extraordinarily"]]);
    let options = TabulateOptions::new().table_format("plain").max_col_width(5);
    let out = tabulate::tabulate(data, &options).expect("render succeeds");
    assert_eq!(out, "extra\nordin\narily");
    for line in out.split('\n') {
        assert!(line.chars().count() <= 5);
    }
}

#[test]
fn decimal_points_line_up() {
    let data = rows(&[&["1.5"], &["22.25"], &["3"]]);
    let options = TabulateOptions::new().table_format("plain");
    let out = tabulate::tabulate(data, &options).expect("render succeeds");
    let lines: Vec<&str> = out.split('\n').collect();
    assert_eq!(lines, vec![" 1.5 ", "22.25", "  3  "]);
    let dot0 = lines[0].find('.').unwrap();
    let dot1 = lines[1].find('.').unwrap();
    assert_eq!(dot0, dot1);
}

#[test]
fn vertical_center_pads_below_first() {
    let data = rows(&[&["a\nbb", "c"]]);
    let options = TabulateOptions::new()
        .table_format("plain")
        .row_global_align(RowAlignment::Center);
    let out = tabulate::tabulate(data, &options).expect("render succeeds");
    assert_eq!(out, "a   c\nbb   ");
}

#[test]
fn simple_format_without_headers_hides_outer_lines() {
    let data = rows(&[&["1", "2"]]);
    let options = TabulateOptions::new();
    let out = tabulate::tabulate(data, &options).expect("render succeeds");
    assert_eq!(out, "1  2");
}

#[test]
fn simple_format_with_headers_keeps_outer_lines() {
    let data = rows(&[&["a", "b"], &["1", "2"]]);
    let options = TabulateOptions::new().headers(Headers::FirstRow);
    let out = tabulate::tabulate(data, &options).expect("render succeeds");
    assert_eq!(out, "-  -\na  b\n-  -\n1  2\n-  -");
}

#[test]
fn rendered_grid_is_rectangular() {
    let data = rows(&[
        &["alpha", "beta"],
        &["a|b", "c"],
        &["x", "y"],
    ]);
    let options = TabulateOptions::new()
        .headers(Headers::FirstRow)
        .table_format("grid");
    let out = tabulate::tabulate(data, &options).expect("render succeeds");
    let mut boundary_counts: Vec<usize> = Vec::new();
    for line in out.split('\n') {
        if line.starts_with('+') {
            boundary_counts.push(line.matches('+').count());
        }
    }
    assert!(boundary_counts.iter().all(|&n| n == boundary_counts[0]));
}

#[test]
fn round_trip_through_a_bare_delimiter() {
    let data = rows(&[&["ab", "cd"], &["e", "fg"]]);
    let options = TabulateOptions::new()
        .table_format_custom(tabulate::simple_separated_format(","));
    let out = tabulate::tabulate(data, &options).expect("render succeeds");
    let lines: Vec<&str> = out.split('\n').collect();
    assert_eq!(lines.len(), 2);
    let row0: Vec<String> = lines[0].split(',').map(|c| c.trim_end().to_string()).collect();
    let row1: Vec<String> = lines[1].split(',').map(|c| c.trim_end().to_string()).collect();
    assert_eq!(row0, vec!["ab", "cd"]);
    assert_eq!(row1, vec!["e", "fg"]);
}

#[test]
fn explicit_headers_and_index_column() {
    let data = rows(&[&["x"], &["y"]]);
    let mut headers = Vec::new();
    headers.push("col".to_string());
    let options = TabulateOptions::new()
        .headers(Headers::Explicit(headers))
        .table_format("plain")
        .show_index(ShowIndex::Always);
    let out = tabulate::tabulate(data, &options).expect("render succeeds");
    assert_eq!(out, "   col\n0  x  \n1  y  ");
}

#[test]
fn whitespace_is_trimmed_unless_preserved() {
    let data = rows(&[&["  a  "]]);
    let options = TabulateOptions::new().table_format("plain");
    let out = tabulate::tabulate(data, &options).expect("render succeeds");
    assert_eq!(out, "a");
    let data2 = rows(&[&["  a"]]);
    let options2 = TabulateOptions::new().table_format("plain").preserve_whitespace(true);
    let out2 = tabulate::tabulate(data2, &options2).expect("render succeeds");
    assert_eq!(out2, "  a");
}

#[test]
fn float_format_rounds_half_away() {
    let data = rows(&[&["3.14159"], &["9.99"], &["2"]]);
    let options = TabulateOptions::new()
        .table_format("plain")
        .float_format(tabulate::FormatSpec::Fixed(".1f".to_string()));
    let out = tabulate::tabulate(data, &options).expect("render succeeds");
    assert_eq!(out, " 3.1\n10.0\n  2 ");
}

#[test]
fn tsv_format_joins_with_tabs() {
    let data = rows(&[&["a", "b"]]);
    let options = TabulateOptions::new().table_format("tsv");
    let out = tabulate::tabulate(data, &options).expect("render succeeds");
    assert_eq!(out, "a\tb");
}
