//! Tests of the dialect-specific renderers, driven through `tabulate`.

use tabulate::{Headers, TabulateOptions};

fn rows(data: &[&[&str]]) -> Vec<Vec<String>> {
    data.iter()
        .map(|r| r.iter().map(|c| c.to_string()).collect())
        .collect()
}

#[test]
fn pipe_format_encodes_alignments_with_colons() {
    let data = rows(&[&["h1", "h2"], &["a", "42"]]);
    let options = TabulateOptions::new()
        .headers(Headers::FirstRow)
        .table_format("pipe");
    let out = tabulate::tabulate(data, &options).expect("render succeeds");
    let expected = "|:---|---:|\n| h1 | h2 |\n|:---|---:|\n| a  | 42 |";
    assert_eq!(out, expected);
}

#[test]
fn html_format_escapes_cell_content() {
    let data = rows(&[&["<x>", "y"]]);
    let options = TabulateOptions::new().table_format("html");
    let out = tabulate::tabulate(data, &options).expect("render succeeds");
    assert_eq!(out, "<tr><td>&lt;x&gt;</td><td>y</td></tr>\n</tbody>\n</table>");
}

#[test]
fn unsafe_html_format_keeps_cell_content() {
    let data = rows(&[&["<x>"]]);
    let options = TabulateOptions::new().table_format("unsafehtml");
    let out = tabulate::tabulate(data, &options).expect("render succeeds");
    assert_eq!(out, "<tr><td><x></td></tr>\n</tbody>\n</table>");
}

#[test]
fn latex_format_escapes_special_characters() {
    let data = rows(&[&["a_b"]]);
    let options = TabulateOptions::new().table_format("latex");
    let out = tabulate::tabulate(data, &options).expect("render succeeds");
    let expected = "\\begin{tabular}{l}\n\\hline\n a\\_b \\\\\n\\hline\n\\end{tabular}";
    assert_eq!(out, expected);
}

#[test]
fn latex_raw_format_keeps_special_characters() {
    let data = rows(&[&["a_b"]]);
    let options = TabulateOptions::new().table_format("latex_raw");
    let out = tabulate::tabulate(data, &options).expect("render succeeds");
    let expected = "\\begin{tabular}{l}\n\\hline\n a_b \\\\\n\\hline\n\\end{tabular}";
    assert_eq!(out, expected);
}

#[test]
fn mediawiki_format_opens_and_closes_the_table() {
    let data = rows(&[&["x"]]);
    let options = TabulateOptions::new().table_format("mediawiki");
    let out = tabulate::tabulate(data, &options).expect("render succeeds");
    let expected = "{| class=\"wikitable\" style=\"text-align: left;\"\n|+ <!-- caption -->\n|-\n| x\n|}";
    assert_eq!(out, expected);
}

#[test]
fn moinmoin_format_wraps_cells_in_double_pipes() {
    let data = rows(&[&["x"]]);
    let options = TabulateOptions::new().table_format("moinmoin");
    let out = tabulate::tabulate(data, &options).expect("render succeeds");
    assert_eq!(out, "||  x  ||");
}

#[test]
fn asciidoc_format_closes_the_table() {
    let data = rows(&[&["ab"]]);
    let options = TabulateOptions::new().table_format("asciidoc");
    let out = tabulate::tabulate(data, &options).expect("render succeeds");
    assert_eq!(out, "| ab \n|====");
}

#[test]
fn textile_format_prefixes_alignments() {
    let data = rows(&[&["w", "5"]]);
    let options = TabulateOptions::new().table_format("textile");
    let out = tabulate::tabulate(data, &options).expect("render succeeds");
    assert_eq!(out, "|<. w  |>. 5 |");
}

#[test]
fn jira_format_uses_single_pipes_for_data() {
    let data = rows(&[&["a", "b"]]);
    let options = TabulateOptions::new().table_format("jira");
    let out = tabulate::tabulate(data, &options).expect("render succeeds");
    assert_eq!(out, "| a | b |");
}

#[test]
fn rst_format_draws_equal_signs() {
    let data = rows(&[&["ab"]]);
    let options = TabulateOptions::new().table_format("rst");
    let out = tabulate::tabulate(data, &options).expect("render succeeds");
    assert_eq!(out, "==\nab\n==");
}
