//! Concrete checks of the engine's stated properties and of the option
//! fallback rules.

use tabulate::{Alignment, CellKind, HeaderAlignment, Headers, MissingValues, RowAlignment, ShowIndex, TabulateOptions};

fn rows(data: &[&[&str]]) -> Vec<Vec<String>> {
    data.iter()
        .map(|r| r.iter().map(|c| c.to_string()).collect())
        .collect()
}

#[test]
fn normalization_of_a_rectangular_grid_is_a_noop() {
    let data = rows(&[&["a", "b"], &["c", "d"]]);
    let (grid, ncols) = tabulate::pad_rows(data.clone(), 0, &MissingValues::Single(String::new()));
    assert_eq!(ncols, 2);
    assert_eq!(grid, data);
}

#[test]
fn normalization_fills_short_rows_per_column() {
    let data = rows(&[&["a"], &["b", "c"]]);
    let mut placeholders = Vec::new();
    placeholders.push("x".to_string());
    placeholders.push("y".to_string());
    let (grid, ncols) = tabulate::pad_rows(data, 0, &MissingValues::PerColumn(placeholders));
    assert_eq!(ncols, 2);
    assert_eq!(grid, rows(&[&["a", "y"], &["b", "c"]]));
}

#[test]
fn per_column_placeholders_repeat_the_last_entry() {
    let mut placeholders = Vec::new();
    placeholders.push("x".to_string());
    let m = MissingValues::PerColumn(placeholders);
    assert_eq!(tabulate::missing_value_for(&m, 0), "x");
    assert_eq!(tabulate::missing_value_for(&m, 7), "x");
}

#[test]
fn post_wrap_lines_fit_the_effective_column_width() {
    let data = rows(&[
        &["a few words in a cell", "x"],
        &["short", "column two here"],
    ]);
    let options = TabulateOptions::new().table_format("grid").max_col_width(8);
    let out = tabulate::tabulate(data, &options).expect("render succeeds");
    for line in out.split('\n') {
        if line.starts_with('|') {
            for cell in line.split('|').filter(|c| !c.is_empty()) {
                assert!(cell.chars().count() <= 10, "cell overflows: {cell:?}");
            }
        }
    }
}

#[test]
fn header_caps_wrap_only_the_header() {
    let data = rows(&[&["heading one", "h2"], &["a", "b"]]);
    let options = TabulateOptions::new()
        .headers(Headers::FirstRow)
        .table_format("plain")
        .max_header_col_width(7);
    let out = tabulate::tabulate(data, &options).expect("render succeeds");
    let lines: Vec<&str> = out.split('\n').collect();
    assert_eq!(lines, vec!["heading  h2", "one      ", "a        b "]);
}

#[test]
fn index_values_label_the_rows() {
    let data = rows(&[&["x"], &["y"]]);
    let mut labels = Vec::new();
    labels.push("i".to_string());
    labels.push("ii".to_string());
    let options = TabulateOptions::new()
        .table_format("plain")
        .show_index(ShowIndex::Values(labels));
    let out = tabulate::tabulate(data, &options).expect("render succeeds");
    assert_eq!(out, "i   x\nii  y");
}

#[test]
fn mapping_headers_use_the_labels() {
    let data = rows(&[&["1"]]);
    let mut mapping = Vec::new();
    mapping.push(("key".to_string(), "label".to_string()));
    let options = TabulateOptions::new()
        .headers(Headers::Mapping(mapping))
        .table_format("plain");
    let out = tabulate::tabulate(data, &options).expect("render succeeds");
    assert_eq!(out, "label\n    1");
}

#[test]
fn global_column_alignment_overrides_the_kind_default() {
    let data = rows(&[&["1"], &["22"]]);
    let options = TabulateOptions::new()
        .table_format("plain")
        .col_global_align(tabulate::Alignment::Left);
    let out = tabulate::tabulate(data, &options).expect("render succeeds");
    assert_eq!(out, "1 \n22");
}

#[test]
fn disabled_numeric_parsing_keeps_text_alignment() {
    let data = rows(&[&["1"], &["22"]]);
    let options = TabulateOptions::new().table_format("plain").disable_numparse(true);
    let out = tabulate::tabulate(data, &options).expect("render succeeds");
    assert_eq!(out, "1 \n22");
}

#[test]
fn default_numeric_columns_align_on_the_right_edge() {
    let data = rows(&[&["1"], &["22"]]);
    let options = TabulateOptions::new().table_format("plain");
    let out = tabulate::tabulate(data, &options).expect("render succeeds");
    assert_eq!(out, " 1\n22");
}

#[test]
fn wrapping_a_column_keeps_the_other_columns() {
    let grid = rows(&[&["one two three", "keep"]]);
    let wrapped = tabulate::wrap_column(grid, 0, 5, true, true, false);
    assert_eq!(wrapped, rows(&[&["one\ntwo\nthree", "keep"]]));
}

#[test]
fn column_kinds_join_over_the_rows() {
    let ints = rows(&[&["1"], &["2"]]);
    assert_eq!(tabulate::column_kind(&ints, 0, false), tabulate::CellKind::Integer);
    let mixed = rows(&[&["1"], &["2.5"]]);
    assert_eq!(tabulate::column_kind(&mixed, 0, false), tabulate::CellKind::Float);
    let text = rows(&[&["1"], &["x"]]);
    assert_eq!(tabulate::column_kind(&text, 0, false), tabulate::CellKind::Text);
    assert_eq!(tabulate::column_kind(&ints, 0, true), tabulate::CellKind::Text);
}

#[test]
fn alignment_precedence_prefers_the_per_column_override() {
    let base = TabulateOptions::new();
    assert_eq!(tabulate::col_align_for(&base, CellKind::Text, 0), Alignment::Left);
    assert_eq!(tabulate::col_align_for(&base, CellKind::Integer, 0), Alignment::Decimal);
    let global = TabulateOptions::new().col_global_align(Alignment::Center);
    assert_eq!(tabulate::col_align_for(&global, CellKind::Text, 0), Alignment::Center);
    let per_col = TabulateOptions::new()
        .col_global_align(Alignment::Center)
        .col_alignments(vec![Some(Alignment::Right)]);
    assert_eq!(tabulate::col_align_for(&per_col, CellKind::Text, 0), Alignment::Right);
    assert_eq!(tabulate::col_align_for(&per_col, CellKind::Text, 1), Alignment::Center);
}

#[test]
fn row_alignment_precedence_prefers_the_per_row_override() {
    let base = TabulateOptions::new();
    assert_eq!(tabulate::row_align_for(&base, 0), RowAlignment::Top);
    let global = TabulateOptions::new().row_global_align(RowAlignment::Bottom);
    assert_eq!(tabulate::row_align_for(&global, 3), RowAlignment::Bottom);
    let per_row = TabulateOptions::new()
        .row_global_align(RowAlignment::Bottom)
        .row_alignments(vec![Some(RowAlignment::Center)]);
    assert_eq!(tabulate::row_align_for(&per_row, 0), RowAlignment::Center);
    assert_eq!(tabulate::row_align_for(&per_row, 1), RowAlignment::Bottom);
}

#[test]
fn header_alignment_can_copy_the_column() {
    let same = TabulateOptions::new()
        .headers_alignments(vec![Some(HeaderAlignment::SameAsColumn)]);
    assert_eq!(tabulate::header_align_for(&same, Alignment::Right, 0), Alignment::Right);
    let fixed = TabulateOptions::new()
        .headers_alignments(vec![Some(HeaderAlignment::from(Alignment::Center))]);
    assert_eq!(tabulate::header_align_for(&fixed, Alignment::Right, 0), Alignment::Center);
    let global = TabulateOptions::new().headers_global_align(Alignment::Left);
    assert_eq!(tabulate::header_align_for(&global, Alignment::Right, 0), Alignment::Left);
}

#[test]
fn width_caps_extend_by_repeating_the_last_entry() {
    let caps = Some(vec![Some(4usize), None]);
    assert_eq!(tabulate::cap_at(&caps, 0), Some(4));
    assert_eq!(tabulate::cap_at(&caps, 1), None);
    assert_eq!(tabulate::cap_at(&caps, 9), None);
    let single = Some(vec![Some(7usize)]);
    assert_eq!(tabulate::cap_at(&single, 5), Some(7));
    assert_eq!(tabulate::cap_at(&None, 0), None);
}
