//! Table format descriptions: structural lines, row templates, and the
//! catalog of built-in output dialects.

use vstd::prelude::*;

use crate::alignment::Alignment;
use crate::chars::{
    append_char_run, append_spaces, char_run, concat_map, dec_digits, join_char, join_seq,
    join_with, join_with_char, lemma_concat_map_push, lemma_join_seq_snoc, push_char, space_seq,
    str_eq, trim_end_seq, trim_end_str, usize_to_string,
};
use crate::width::{visible_width, vwidth};

verus! {

/// Horizontal line descriptor.
#[derive(Clone, Debug)]
pub struct Line {
    /// Characters printed before the first column.
    pub begin: String,
    /// Characters used to fill the gap above/below a column.
    pub fill: String,
    /// Characters placed between columns.
    pub separator: String,
    /// Characters printed after the last column.
    pub end: String,
}

/// Mathematical content of a [`Line`].
#[verifier::ext_equal]
pub struct LineV {
    /// Characters printed before the first column.
    pub begin: Seq<char>,
    /// Characters used to fill the gap above/below a column.
    pub fill: Seq<char>,
    /// Characters placed between columns.
    pub separator: Seq<char>,
    /// Characters printed after the last column.
    pub end: Seq<char>,
}

impl View for Line {
    type V = LineV;

    open spec fn view(&self) -> LineV {
        LineV {
            begin: self.begin@,
            fill: self.fill@,
            separator: self.separator@,
            end: self.end@,
        }
    }
}

/// Row descriptor.
#[derive(Clone, Debug)]
pub struct DataRow {
    /// Characters printed before the first cell.
    pub begin: String,
    /// Characters printed in-between adjacent cells.
    pub separator: String,
    /// Characters appended after the last cell.
    pub end: String,
}

/// Mathematical content of a [`DataRow`].
#[verifier::ext_equal]
pub struct DataRowV {
    /// Characters printed before the first cell.
    pub begin: Seq<char>,
    /// Characters printed in-between adjacent cells.
    pub separator: Seq<char>,
    /// Characters appended after the last cell.
    pub end: Seq<char>,
}

impl View for DataRow {
    type V = DataRowV;

    open spec fn view(&self) -> DataRowV {
        DataRowV { begin: self.begin@, separator: self.separator@, end: self.end@ }
    }
}

/// The built-in rules that compute a horizontal line from the column widths
/// and alignments.
#[derive(Clone, Copy, Debug, PartialEq, Eq, Structural)]
pub enum DynLine {
    /// A pipe-style separator line whose colons encode the alignments.
    PipeColons,
    /// The opening of an HTML table that has no header.
    HtmlOpenTable,
    /// The opening of a LaTeX `tabular` environment.
    LatexTabular,
    /// The opening of a LaTeX `tabular` environment, booktabs rules.
    LatexTabularBooktabs,
    /// The opening of a LaTeX `longtable` environment.
    LatexTabularLongtable,
    /// The AsciiDoc column-specification line above a headerless table.
    AsciidocAbove,
}

/// The built-in rules that compute a rendered row from the cell values,
/// column widths and alignments.
#[derive(Clone, Copy, Debug, PartialEq, Eq, Structural)]
pub enum DynRow {
    /// A MediaWiki header row with alignment attributes.
    MediawikiHeader,
    /// A MediaWiki data row with alignment attributes.
    MediawikiData,
    /// A MoinMoin header row with alignment attributes.
    MoinHeader,
    /// A MoinMoin data row with alignment attributes.
    MoinData,
    /// An HTML header row with escaped cell content.
    HtmlHeaderSafe,
    /// An HTML data row with escaped cell content.
    HtmlDataSafe,
    /// An HTML header row with raw cell content.
    HtmlHeaderUnsafe,
    /// An HTML data row with raw cell content.
    HtmlDataUnsafe,
    /// A LaTeX row with escaped cell content.
    LatexRow,
    /// A LaTeX row with raw cell content.
    LatexRowRaw,
    /// A Textile row with alignment prefixes.
    TextileRow,
    /// An AsciiDoc header row, preceded by its column-specification line.
    AsciidocHeader,
    /// An AsciiDoc data row.
    AsciidocData,
}

/// The ways a structural line of a table can be rendered.
#[derive(Clone, Debug)]
pub enum LineFormat {
    /// Do not render the line.
    Absent,
    /// Render a static [`Line`].
    Fixed(Line),
    /// Render an inline string as-is.
    Text(String),
    /// Render with a built-in dynamic rule.
    Computed(DynLine),
}

/// Mathematical content of a [`LineFormat`].
#[verifier::ext_equal]
pub enum LineFormatV {
    /// Do not render the line.
    Absent,
    /// Render a static line.
    Fixed(LineV),
    /// Render an inline string as-is.
    Text(Seq<char>),
    /// Render with a built-in dynamic rule.
    Computed(DynLine),
}

impl View for LineFormat {
    type V = LineFormatV;

    open spec fn view(&self) -> LineFormatV {
        match self {
            LineFormat::Absent => LineFormatV::Absent,
            LineFormat::Fixed(l) => LineFormatV::Fixed(l@),
            LineFormat::Text(t) => LineFormatV::Text(t@),
            LineFormat::Computed(d) => LineFormatV::Computed(*d),
        }
    }
}

/// The ways a table row can be rendered.
#[derive(Clone, Debug)]
pub enum RowFormat {
    /// Do not render the row.
    Absent,
    /// Render a static [`DataRow`].
    Fixed(DataRow),
    /// Render with a built-in dynamic rule.
    Computed(DynRow),
}

/// Mathematical content of a [`RowFormat`].
#[verifier::ext_equal]
pub enum RowFormatV {
    /// Do not render the row.
    Absent,
    /// Render a static row.
    Fixed(DataRowV),
    /// Render with a built-in dynamic rule.
    Computed(DynRow),
}

impl View for RowFormat {
    type V = RowFormatV;

    open spec fn view(&self) -> RowFormatV {
        match self {
            RowFormat::Absent => RowFormatV::Absent,
            RowFormat::Fixed(r) => RowFormatV::Fixed(r@),
            RowFormat::Computed(d) => RowFormatV::Computed(*d),
        }
    }
}

/// Table format definition: the four structural lines, the two row
/// templates, the cell padding, and the names of the components that are
/// suppressed when no header row is present.
#[derive(Clone, Debug)]
pub struct TableFormat {
    /// Line printed above the table.
    pub line_above: LineFormat,
    /// Line between headers and data rows.
    pub line_below_header: LineFormat,
    /// Line between consecutive data rows.
    pub line_between_rows: LineFormat,
    /// Line printed after the final row.
    pub line_below: LineFormat,
    /// Header row template.
    pub header_row: RowFormat,
    /// Data row template.
    pub data_row: RowFormat,
    /// Extra padding applied around each cell.
    pub padding: usize,
    /// Table components suppressed when the table has no header.
    pub with_header_hide: Vec<String>,
}

/// Mathematical content of a [`TableFormat`].
#[verifier::ext_equal]
pub struct TableFormatV {
    /// Line printed above the table.
    pub line_above: LineFormatV,
    /// Line between headers and data rows.
    pub line_below_header: LineFormatV,
    /// Line between consecutive data rows.
    pub line_between_rows: LineFormatV,
    /// Line printed after the final row.
    pub line_below: LineFormatV,
    /// Header row template.
    pub header_row: RowFormatV,
    /// Data row template.
    pub data_row: RowFormatV,
    /// Extra padding applied around each cell.
    pub padding: nat,
    /// Table components suppressed when the table has no header.
    pub with_header_hide: Seq<Seq<char>>,
}

impl View for TableFormat {
    type V = TableFormatV;

    open spec fn view(&self) -> TableFormatV {
        TableFormatV {
            line_above: self.line_above@,
            line_below_header: self.line_below_header@,
            line_between_rows: self.line_between_rows@,
            line_below: self.line_below@,
            header_row: self.header_row@,
            data_row: self.data_row@,
            padding: self.padding as nat,
            with_header_hide: self.with_header_hide.deep_view(),
        }
    }
}

impl TableFormat {
    /// Whether this format suppresses the named component on a headerless
    /// table.
    pub fn hides(&self, component: &str) -> (r: bool)
        ensures
            r == self@.with_header_hide.contains(component@),
    {
        let mut i: usize = 0;
        while i < self.with_header_hide.len()
            invariant
                i <= self.with_header_hide.len(),
                forall|k: int| 0 <= k < i ==> self@.with_header_hide[k] != component@,
            decreases self.with_header_hide.len() - i,
        {
            if str_eq(self.with_header_hide[i].as_str(), component) {
                proof {
                    assert(self@.with_header_hide[i as int] == component@);
                }
                return true;
            }
            i = i + 1;
        }
        false
    }
}

/// Build a static line descriptor from its four parts.
pub fn line(begin: &str, fill: &str, separator: &str, end: &str) -> (r: Line)
    ensures
        r@ == (LineV { begin: begin@, fill: fill@, separator: separator@, end: end@ }),
{
    Line {
        begin: String::from_str(begin),
        fill: String::from_str(fill),
        separator: String::from_str(separator),
        end: String::from_str(end),
    }
}

/// Build a static row descriptor from its three parts.
pub fn row(begin: &str, separator: &str, end: &str) -> (r: DataRow)
    ensures
        r@ == (DataRowV { begin: begin@, separator: separator@, end: end@ }),
{
    DataRow {
        begin: String::from_str(begin),
        separator: String::from_str(separator),
        end: String::from_str(end),
    }
}

/// The alignment assigned to column `i`, left when none is given.
pub open spec fn default_align_of(aligns: Seq<Alignment>, i: int) -> Alignment {
    if 0 <= i < aligns.len() {
        aligns[i]
    } else {
        Alignment::Left
    }
}

/// One segment of a pipe separator line: dashes with colons encoding the
/// column's alignment, at least one column wide.
pub open spec fn pipe_segment(align: Alignment, width: nat) -> Seq<char> {
    let w: nat = if width < 1 {
        1
    } else {
        width
    };
    match align {
        Alignment::Right | Alignment::Decimal => char_run('-', (w - 1) as nat) + seq![':'],
        Alignment::Center => if w == 1 {
            seq![':']
        } else if w == 2 {
            seq![':', ':']
        } else {
            seq![':'] + char_run('-', (w - 2) as nat) + seq![':']
        },
        Alignment::Left => seq![':'] + char_run('-', (w - 1) as nat),
    }
}

/// A full pipe separator line; without alignments, plain dash segments.
pub open spec fn pipe_colons_line(widths: Seq<usize>, aligns: Seq<Alignment>) -> Seq<char> {
    if aligns.len() == 0 {
        seq!['|'] + join_char(
            Seq::new(widths.len(), |i: int| char_run('-', widths[i] as nat)),
            '|',
        ) + seq!['|']
    } else {
        seq!['|'] + join_char(
            Seq::new(
                widths.len(),
                |i: int| pipe_segment(default_align_of(aligns, i), widths[i] as nat),
            ),
            '|',
        ) + seq!['|']
    }
}

/// Build one segment of a pipe separator line.
pub fn pipe_segment_with_colons(align: Alignment, width: usize) -> (r: String)
    ensures
        r@ == pipe_segment(align, width as nat),
{
    let w = if width < 1 {
        1
    } else {
        width
    };
    let mut out = String::new();
    match align {
        Alignment::Right | Alignment::Decimal => {
            append_char_run(&mut out, '-', w - 1);
            push_char(&mut out, ':');
            proof {
                assert(out@ =~= char_run('-', (w - 1) as nat) + seq![':']);
            }
        },
        Alignment::Center => {
            if w == 1 {
                push_char(&mut out, ':');
                proof {
                    assert(out@ =~= seq![':']);
                }
            } else if w == 2 {
                push_char(&mut out, ':');
                push_char(&mut out, ':');
                proof {
                    assert(out@ =~= seq![':', ':']);
                }
            } else {
                push_char(&mut out, ':');
                append_char_run(&mut out, '-', w - 2);
                push_char(&mut out, ':');
                proof {
                    assert(out@ =~= seq![':'] + char_run('-', (w - 2) as nat) + seq![':']);
                }
            }
        },
        Alignment::Left => {
            push_char(&mut out, ':');
            append_char_run(&mut out, '-', w - 1);
            proof {
                assert(out@ =~= seq![':'] + char_run('-', (w - 1) as nat));
            }
        },
    }
    out
}

/// Build a full pipe separator line from the column widths and alignments.
pub fn pipe_line_with_colons(col_widths: &Vec<usize>, col_aligns: &Vec<Alignment>) -> (r: String)
    ensures
        r@ == pipe_colons_line(col_widths@, col_aligns@),
{
    let ghost target: Seq<Seq<char>> = if col_aligns@.len() == 0 {
        Seq::new(col_widths@.len(), |i: int| char_run('-', col_widths@[i] as nat))
    } else {
        Seq::new(
            col_widths@.len(),
            |i: int| pipe_segment(default_align_of(col_aligns@, i), col_widths@[i] as nat),
        )
    };
    let no_aligns = col_aligns.len() == 0;
    let mut segments: Vec<String> = Vec::new();
    let mut i: usize = 0;
    while i < col_widths.len()
        invariant
            i <= col_widths.len(),
            segments.deep_view() =~= target.take(i as int),
            target == (if col_aligns@.len() == 0 {
                Seq::new(col_widths@.len(), |k: int| char_run('-', col_widths@[k] as nat))
            } else {
                Seq::new(
                    col_widths@.len(),
                    |k: int| pipe_segment(default_align_of(col_aligns@, k), col_widths@[k] as nat),
                )
            }),
            no_aligns == (col_aligns@.len() == 0),
        decreases col_widths.len() - i,
    {
        let seg: String = if no_aligns {
            let mut d = String::new();
            append_char_run(&mut d, '-', col_widths[i]);
            proof {
                assert(d@ =~= char_run('-', col_widths@[i as int] as nat));
            }
            d
        } else {
            let a = if i < col_aligns.len() {
                col_aligns[i]
            } else {
                Alignment::Left
            };
            pipe_segment_with_colons(a, col_widths[i])
        };
        proof {
            assert(seg@ == target[i as int]);
        }
        let ghost dv_old = segments.deep_view();
        segments.push(seg);
        proof {
            assert(segments.deep_view() =~= dv_old.push(seg@));
            assert(target.take(i + 1) =~= target.take(i as int).push(target[i as int]));
        }
        i = i + 1;
    }
    proof {
        assert(target.take(col_widths.len() as int) =~= target);
    }
    let mut out = String::new();
    push_char(&mut out, '|');
    let joined = join_with_char(&segments, '|');
    out.append(joined.as_str());
    push_char(&mut out, '|');
    proof {
        assert(out@ =~= seq!['|'] + join_char(target, '|') + seq!['|']);
    }
    out
}

/// One MediaWiki cell: an alignment attribute, or a space-wrapped value.
pub open spec fn mw_cell(cell: Seq<char>, align: Alignment) -> Seq<char> {
    match align {
        Alignment::Right | Alignment::Decimal => " align=\"right\"| "@ + cell,
        Alignment::Center => " align=\"center\"| "@ + cell,
        Alignment::Left => seq![' '] + cell + seq![' '],
    }
}

/// A MediaWiki row: cells joined with a doubled separator, prefixed with one
/// separator, trailing whitespace removed.
pub open spec fn mediawiki_row(sep: Seq<char>, cells: Seq<Seq<char>>, aligns: Seq<Alignment>) -> Seq<
    char,
> {
    trim_end_seq(
        sep + join_seq(
            Seq::new(cells.len(), |i: int| mw_cell(cells[i], default_align_of(aligns, i))),
            sep + sep,
        ),
    )
}

/// Build a MediaWiki row with alignment attributes.
pub fn mediawiki_row_with_attrs(
    separator: &str,
    cell_values: &Vec<String>,
    col_aligns: &Vec<Alignment>,
) -> (r: String)
    ensures
        r@ == mediawiki_row(separator@, cell_values.deep_view(), col_aligns@),
{
    let ghost target: Seq<Seq<char>> = Seq::new(
        cell_values.deep_view().len(),
        |i: int| mw_cell(cell_values.deep_view()[i], default_align_of(col_aligns@, i)),
    );
    let mut values: Vec<String> = Vec::new();
    let mut i: usize = 0;
    while i < cell_values.len()
        invariant
            i <= cell_values.len(),
            values.deep_view() =~= target.take(i as int),
            target == Seq::new(
                cell_values.deep_view().len(),
                |k: int| mw_cell(cell_values.deep_view()[k], default_align_of(col_aligns@, k)),
            ),
        decreases cell_values.len() - i,
    {
        let a = if i < col_aligns.len() {
            col_aligns[i]
        } else {
            Alignment::Left
        };
        let mut value = String::new();
        match a {
            Alignment::Right | Alignment::Decimal => {
                value.append(" align=\"right\"| ");
                value.append(cell_values[i].as_str());
            },
            Alignment::Center => {
                value.append(" align=\"center\"| ");
                value.append(cell_values[i].as_str());
            },
            Alignment::Left => {
                push_char(&mut value, ' ');
                value.append(cell_values[i].as_str());
                push_char(&mut value, ' ');
            },
        }
        proof {
            assert(cell_values[i as int]@ == cell_values.deep_view()[i as int]);
            assert(value@ =~= target[i as int]);
        }
        let ghost dv_old = values.deep_view();
        values.push(value);
        proof {
            assert(values.deep_view() =~= dv_old.push(target[i as int]));
            assert(target.take(i + 1) =~= target.take(i as int).push(target[i as int]));
        }
        i = i + 1;
    }
    proof {
        assert(target.take(cell_values.len() as int) =~= target);
    }
    let mut colsep = String::from_str(separator);
    colsep.append(separator);
    let joined = join_with(&values, colsep.as_str());
    let mut out = String::from_str(separator);
    out.append(joined.as_str());
    trim_end_str(out.as_str())
}

/// Build a MediaWiki header row.
pub fn mediawiki_header_row(
    cell_values: &Vec<String>,
    col_widths: &Vec<usize>,
    col_aligns: &Vec<Alignment>,
) -> (r: String)
    ensures
        r@ == mediawiki_row("!"@, cell_values.deep_view(), col_aligns@),
{
    let _ = col_widths;
    mediawiki_row_with_attrs("!", cell_values, col_aligns)
}

/// Build a MediaWiki data row.
pub fn mediawiki_data_row(
    cell_values: &Vec<String>,
    col_widths: &Vec<usize>,
    col_aligns: &Vec<Alignment>,
) -> (r: String)
    ensures
        r@ == mediawiki_row("|"@, cell_values.deep_view(), col_aligns@),
{
    let _ = col_widths;
    mediawiki_row_with_attrs("|", cell_values, col_aligns)
}

/// Width reserved for MoinMoin cell `i`: the configured column width, or the
/// cell's character count when none is configured.
pub open spec fn moin_width_of(widths: Seq<usize>, cell: Seq<char>, i: int) -> nat {
    if 0 <= i < widths.len() {
        widths[i] as nat
    } else {
        cell.len()
    }
}

/// A MoinMoin cell value padded inside its borders: two columns are reserved
/// for the surrounding spaces, and the rest is padded per the alignment.
pub open spec fn moin_padded(cell: Seq<char>, width: nat, align: Alignment) -> Seq<char> {
    let inner: nat = if width >= 2 {
        (width - 2) as nat
    } else {
        0
    };
    let cw = vwidth(cell, false);
    if cw < inner {
        let pad = (inner - cw) as nat;
        match align {
            Alignment::Right | Alignment::Decimal => space_seq(pad) + cell,
            Alignment::Center => space_seq(pad / 2) + cell + space_seq((pad - pad / 2) as nat),
            Alignment::Left => cell + space_seq(pad),
        }
    } else {
        cell
    }
}

/// One full MoinMoin cell: tag, alignment attribute, and the padded value,
/// wrapped in markers for header cells.
pub open spec fn moin_cell(
    celltag: Seq<char>,
    marker: Option<Seq<char>>,
    cell: Seq<char>,
    width: nat,
    align: Alignment,
) -> Seq<char> {
    let attr = match align {
        Alignment::Right | Alignment::Decimal => "<style=\"text-align: right;\">"@,
        Alignment::Center => "<style=\"text-align: center;\">"@,
        Alignment::Left => Seq::<char>::empty(),
    };
    let core = moin_padded(cell, width, align);
    let base = match marker {
        Some(m) => m + core + m,
        None => core,
    };
    celltag + attr + seq![' '] + base + seq![' ']
}

/// A MoinMoin row: the cells concatenated, closed with a double pipe.
pub open spec fn moin_row(
    celltag: Seq<char>,
    marker: Option<Seq<char>>,
    cells: Seq<Seq<char>>,
    widths: Seq<usize>,
    aligns: Seq<Alignment>,
) -> Seq<char> {
    join_seq(
        Seq::new(
            cells.len(),
            |i: int|
                moin_cell(
                    celltag,
                    marker,
                    cells[i],
                    moin_width_of(widths, cells[i], i),
                    default_align_of(aligns, i),
                ),
        ),
        Seq::<char>::empty(),
    ) + "||"@
}

/// The view of an optional marker string.
pub open spec fn opt_str_view(h: Option<&str>) -> Option<Seq<char>> {
    match h {
        Some(m) => Some(m@),
        None => None,
    }
}

/// Build the padded body of one MoinMoin cell.
fn moin_padded_cell(cell: &str, total_width: usize, align: Alignment) -> (r: String)
    ensures
        r@ == moin_padded(cell@, total_width as nat, align),
{
    let inner_width: usize = if total_width >= 2 {
        total_width - 2
    } else {
        0
    };
    let current_width = visible_width(cell, false);
    let mut core = String::from_str(cell);
    if current_width < inner_width {
        let padding = inner_width - current_width;
        match align {
            Alignment::Right | Alignment::Decimal => {
                let mut padded = String::new();
                append_spaces(&mut padded, padding);
                padded.append(core.as_str());
                core = padded;
            },
            Alignment::Center => {
                let left = padding / 2;
                let mut padded = String::new();
                append_spaces(&mut padded, left);
                padded.append(core.as_str());
                append_spaces(&mut padded, padding - left);
                core = padded;
            },
            Alignment::Left => {
                append_spaces(&mut core, padding);
            },
        }
    }
    proof {
        assert(core@ =~= moin_padded(cell@, total_width as nat, align));
    }
    core
}

/// Build one full MoinMoin cell.
fn moin_one_cell(
    celltag: &str,
    header: Option<&str>,
    cell: &str,
    total_width: usize,
    align: Alignment,
) -> (r: String)
    ensures
        r@ == moin_cell(celltag@, opt_str_view(header), cell@, total_width as nat, align),
{
    let core = moin_padded_cell(cell, total_width, align);
    let mut base = String::new();
    if let Some(marker) = header {
        base.append(marker);
    }
    base.append(core.as_str());
    if let Some(marker) = header {
        base.append(marker);
    }
    let mut out = String::from_str(celltag);
    match align {
        Alignment::Right | Alignment::Decimal => {
            out.append("<style=\"text-align: right;\">");
        },
        Alignment::Center => {
            out.append("<style=\"text-align: center;\">");
        },
        Alignment::Left => {},
    }
    push_char(&mut out, ' ');
    out.append(base.as_str());
    push_char(&mut out, ' ');
    proof {
        assert(out@ =~= moin_cell(celltag@, opt_str_view(header), cell@, total_width as nat, align));
    }
    out
}

/// Build a MoinMoin row with alignment attributes.
pub fn moin_row_with_attrs(
    celltag: &str,
    header: Option<&str>,
    cell_values: &Vec<String>,
    col_widths: &Vec<usize>,
    col_aligns: &Vec<Alignment>,
) -> (r: String)
    ensures
        r@ == moin_row(
            celltag@,
            opt_str_view(header),
            cell_values.deep_view(),
            col_widths@,
            col_aligns@,
        ),
{
    let ghost target: Seq<Seq<char>> = Seq::new(
        cell_values.deep_view().len(),
        |i: int|
            moin_cell(
                celltag@,
                opt_str_view(header),
                cell_values.deep_view()[i],
                moin_width_of(col_widths@, cell_values.deep_view()[i], i),
                default_align_of(col_aligns@, i),
            ),
    );
    let mut out = String::new();
    let mut i: usize = 0;
    while i < cell_values.len()
        invariant
            i <= cell_values.len(),
            out@ =~= join_seq(target.take(i as int), Seq::<char>::empty()),
            target == Seq::new(
                cell_values.deep_view().len(),
                |k: int|
                    moin_cell(
                        celltag@,
                        opt_str_view(header),
                        cell_values.deep_view()[k],
                        moin_width_of(col_widths@, cell_values.deep_view()[k], k),
                        default_align_of(col_aligns@, k),
                    ),
            ),
        decreases cell_values.len() - i,
    {
        let a = if i < col_aligns.len() {
            col_aligns[i]
        } else {
            Alignment::Left
        };
        let cell = &cell_values[i];
        proof {
            assert(cell@ == cell_values.deep_view()[i as int]);
        }
        let total_width: usize = if i < col_widths.len() {
            col_widths[i]
        } else {
            cell.as_str().unicode_len()
        };
        let chunk = moin_one_cell(celltag, header, cell.as_str(), total_width, a);
        proof {
            assert(chunk@ == target[i as int]);
        }
        let ghost out_old = out@;
        out.append(chunk.as_str());
        proof {
            lemma_join_seq_snoc(target.take(i as int), Seq::<char>::empty(), target[i as int]);
            assert(target.take(i + 1) =~= target.take(i as int).push(target[i as int]));
            if i > 0 {
                assert(join_seq(target.take(i as int), Seq::<char>::empty()) + Seq::<char>::empty()
                    + target[i as int] =~= join_seq(target.take(i as int), Seq::<char>::empty())
                    + target[i as int]);
            }
            assert(out@ =~= join_seq(target.take(i + 1), Seq::<char>::empty()));
        }
        i = i + 1;
    }
    proof {
        assert(target.take(cell_values.len() as int) =~= target);
    }
    out.append("||");
    out
}

/// Build a MoinMoin header row.
pub fn moin_header_row(
    cell_values: &Vec<String>,
    col_widths: &Vec<usize>,
    col_aligns: &Vec<Alignment>,
) -> (r: String)
    ensures
        r@ == moin_row(
            "||"@,
            Some("'''"@),
            cell_values.deep_view(),
            col_widths@,
            col_aligns@,
        ),
{
    moin_row_with_attrs("||", Some("'''"), cell_values, col_widths, col_aligns)
}

/// Build a MoinMoin data row.
pub fn moin_data_row(
    cell_values: &Vec<String>,
    col_widths: &Vec<usize>,
    col_aligns: &Vec<Alignment>,
) -> (r: String)
    ensures
        r@ == moin_row(
            "||"@,
            None::<Seq<char>>,
            cell_values.deep_view(),
            col_widths@,
            col_aligns@,
        ),
{
    moin_row_with_attrs("||", None, cell_values, col_widths, col_aligns)
}

/// The opening of an HTML table without a header.
pub fn html_begin_table_without_header(
    col_widths: &Vec<usize>,
    col_aligns: &Vec<Alignment>,
) -> (r: String)
    ensures
        r@ == "<table>\n<tbody>"@,
{
    let _ = col_widths;
    let _ = col_aligns;
    String::from_str("<table>\n<tbody>")
}

/// The HTML replacement of one character.
pub open spec fn html_escaped_char(c: char) -> Seq<char> {
    if c == '&' {
        "&amp;"@
    } else if c == '<' {
        "&lt;"@
    } else if c == '>' {
        "&gt;"@
    } else if c == '"' {
        "&quot;"@
    } else if c == '\'' {
        "&#39;"@
    } else {
        seq![c]
    }
}

/// `s` with the HTML special characters replaced by entities.
pub open spec fn html_escaped(s: Seq<char>) -> Seq<char> {
    concat_map(s, |c: char| html_escaped_char(c))
}

/// Escape the HTML special characters of `input`.
pub fn html_escape(input: &str) -> (r: String)
    ensures
        r@ == html_escaped(input@),
{
    let ghost f = |c: char| html_escaped_char(c);
    let len = input.unicode_len();
    let mut out = String::new();
    let mut i: usize = 0;
    while i < len
        invariant
            i <= len,
            len == input@.len(),
            out@ == concat_map(input@.take(i as int), f),
            f == (|c: char| html_escaped_char(c)),
        decreases len - i,
    {
        let c = input.get_char(i);
        let ghost out_old = out@;
        if c == '&' {
            out.append("&amp;");
        } else if c == '<' {
            out.append("&lt;");
        } else if c == '>' {
            out.append("&gt;");
        } else if c == '"' {
            out.append("&quot;");
        } else if c == '\'' {
            out.append("&#39;");
        } else {
            push_char(&mut out, c);
            proof {
                assert(out@ =~= out_old + seq![c]);
            }
        }
        proof {
            assert(input@.take(i + 1) =~= input@.take(i as int).push(c));
            lemma_concat_map_push(input@.take(i as int), c, f);
        }
        i = i + 1;
    }
    proof {
        assert(input@.take(len as int) =~= input@);
    }
    out
}

/// One HTML cell: the tag with an alignment attribute around the content.
pub open spec fn html_cell(
    celltag: Seq<char>,
    unsafe_mode: bool,
    cell: Seq<char>,
    align: Alignment,
) -> Seq<char> {
    let attr = match align {
        Alignment::Right | Alignment::Decimal => " style=\"text-align: right;\""@,
        Alignment::Center => " style=\"text-align: center;\""@,
        Alignment::Left => Seq::<char>::empty(),
    };
    let content = if unsafe_mode {
        cell
    } else {
        html_escaped(cell)
    };
    seq!['<'] + celltag + attr + seq!['>'] + content + "</"@ + celltag + seq!['>']
}

/// An HTML row: the cells concatenated inside a table-row tag; a header row
/// also opens the table and its head.
pub open spec fn html_row(
    celltag: Seq<char>,
    unsafe_mode: bool,
    cells: Seq<Seq<char>>,
    aligns: Seq<Alignment>,
) -> Seq<char> {
    let rowhtml = trim_end_seq(
        "<tr>"@ + join_seq(
            Seq::new(
                cells.len(),
                |i: int| html_cell(celltag, unsafe_mode, cells[i], default_align_of(aligns, i)),
            ),
            Seq::<char>::empty(),
        ) + "</tr>"@,
    );
    if celltag == "th"@ {
        "<table>\n<thead>\n"@ + rowhtml + "\n</thead>\n<tbody>"@
    } else {
        rowhtml
    }
}

/// Build one HTML cell.
fn html_one_cell(celltag: &str, unsafe_mode: bool, cell: &str, align: Alignment) -> (r: String)
    ensures
        r@ == html_cell(celltag@, unsafe_mode, cell@, align),
{
    let mut out = String::new();
    push_char(&mut out, '<');
    out.append(celltag);
    match align {
        Alignment::Right | Alignment::Decimal => {
            out.append(" style=\"text-align: right;\"");
        },
        Alignment::Center => {
            out.append(" style=\"text-align: center;\"");
        },
        Alignment::Left => {},
    }
    push_char(&mut out, '>');
    if unsafe_mode {
        out.append(cell);
    } else {
        let escaped = html_escape(cell);
        out.append(escaped.as_str());
    }
    out.append("</");
    out.append(celltag);
    push_char(&mut out, '>');
    proof {
        assert(out@ =~= html_cell(celltag@, unsafe_mode, cell@, align));
    }
    out
}

/// Build an HTML row with alignment attributes.
pub fn html_row_with_attrs(
    celltag: &str,
    unsafe_mode: bool,
    cell_values: &Vec<String>,
    col_widths: &Vec<usize>,
    col_aligns: &Vec<Alignment>,
) -> (r: String)
    ensures
        r@ == html_row(celltag@, unsafe_mode, cell_values.deep_view(), col_aligns@),
{
    let _ = col_widths;
    let ghost target: Seq<Seq<char>> = Seq::new(
        cell_values.deep_view().len(),
        |i: int|
            html_cell(
                celltag@,
                unsafe_mode,
                cell_values.deep_view()[i],
                default_align_of(col_aligns@, i),
            ),
    );
    let mut body = String::new();
    let mut i: usize = 0;
    while i < cell_values.len()
        invariant
            i <= cell_values.len(),
            body@ =~= join_seq(target.take(i as int), Seq::<char>::empty()),
            target == Seq::new(
                cell_values.deep_view().len(),
                |k: int|
                    html_cell(
                        celltag@,
                        unsafe_mode,
                        cell_values.deep_view()[k],
                        default_align_of(col_aligns@, k),
                    ),
            ),
        decreases cell_values.len() - i,
    {
        let a = if i < col_aligns.len() {
            col_aligns[i]
        } else {
            Alignment::Left
        };
        proof {
            assert(cell_values[i as int]@ == cell_values.deep_view()[i as int]);
        }
        let chunk = html_one_cell(celltag, unsafe_mode, cell_values[i].as_str(), a);
        proof {
            assert(chunk@ == target[i as int]);
        }
        body.append(chunk.as_str());
        proof {
            lemma_join_seq_snoc(target.take(i as int), Seq::<char>::empty(), target[i as int]);
            assert(target.take(i + 1) =~= target.take(i as int).push(target[i as int]));
            if i > 0 {
                assert(join_seq(target.take(i as int), Seq::<char>::empty()) + Seq::<char>::empty()
                    + target[i as int] =~= join_seq(target.take(i as int), Seq::<char>::empty())
                    + target[i as int]);
            }
            assert(body@ =~= join_seq(target.take(i + 1), Seq::<char>::empty()));
        }
        i = i + 1;
    }
    proof {
        assert(target.take(cell_values.len() as int) =~= target);
    }
    let mut rowhtml = String::from_str("<tr>");
    rowhtml.append(body.as_str());
    rowhtml.append("</tr>");
    let trimmed = trim_end_str(rowhtml.as_str());
    if str_eq(celltag, "th") {
        let mut out = String::from_str("<table>\n<thead>\n");
        out.append(trimmed.as_str());
        out.append("\n</thead>\n<tbody>");
        out
    } else {
        trimmed
    }
}

/// Build a safe HTML header row.
pub fn html_header_row_safe(
    cell_values: &Vec<String>,
    col_widths: &Vec<usize>,
    col_aligns: &Vec<Alignment>,
) -> (r: String)
    ensures
        r@ == html_row("th"@, false, cell_values.deep_view(), col_aligns@),
{
    html_row_with_attrs("th", false, cell_values, col_widths, col_aligns)
}

/// Build a safe HTML data row.
pub fn html_data_row_safe(
    cell_values: &Vec<String>,
    col_widths: &Vec<usize>,
    col_aligns: &Vec<Alignment>,
) -> (r: String)
    ensures
        r@ == html_row("td"@, false, cell_values.deep_view(), col_aligns@),
{
    html_row_with_attrs("td", false, cell_values, col_widths, col_aligns)
}

/// Build an HTML header row with raw cell content.
pub fn html_header_row_unsafe(
    cell_values: &Vec<String>,
    col_widths: &Vec<usize>,
    col_aligns: &Vec<Alignment>,
) -> (r: String)
    ensures
        r@ == html_row("th"@, true, cell_values.deep_view(), col_aligns@),
{
    html_row_with_attrs("th", true, cell_values, col_widths, col_aligns)
}

/// Build an HTML data row with raw cell content.
pub fn html_data_row_unsafe(
    cell_values: &Vec<String>,
    col_widths: &Vec<usize>,
    col_aligns: &Vec<Alignment>,
) -> (r: String)
    ensures
        r@ == html_row("td"@, true, cell_values.deep_view(), col_aligns@),
{
    html_row_with_attrs("td", true, cell_values, col_widths, col_aligns)
}

/// The LaTeX column letter for an alignment.
pub open spec fn latex_col_char(a: Alignment) -> char {
    match a {
        Alignment::Right | Alignment::Decimal => 'r',
        Alignment::Center => 'c',
        Alignment::Left => 'l',
    }
}

/// The opening of a LaTeX table environment with its column letters.
pub open spec fn latex_begin(aligns: Seq<Alignment>, booktabs: bool, longtable: bool) -> Seq<char> {
    let cols = Seq::new(aligns.len(), |i: int| latex_col_char(aligns[i]));
    let begin = if longtable {
        "\\begin{longtable}{"@
    } else {
        "\\begin{tabular}{"@
    };
    begin + cols + "}\n"@ + (if booktabs {
        "\\toprule"@
    } else {
        "\\hline"@
    })
}

/// Build the opening of a LaTeX table environment.
pub fn latex_line_begin_tabular_internal(
    col_aligns: &Vec<Alignment>,
    booktabs: bool,
    longtable: bool,
) -> (r: String)
    ensures
        r@ == latex_begin(col_aligns@, booktabs, longtable),
{
    let mut cols = String::new();
    let mut i: usize = 0;
    while i < col_aligns.len()
        invariant
            i <= col_aligns.len(),
            cols@ =~= Seq::new(col_aligns@.len(), |k: int| latex_col_char(col_aligns@[k])).take(
                i as int,
            ),
        decreases col_aligns.len() - i,
    {
        let c = match col_aligns[i] {
            Alignment::Right | Alignment::Decimal => 'r',
            Alignment::Center => 'c',
            Alignment::Left => 'l',
        };
        push_char(&mut cols, c);
        proof {
            let full = Seq::new(col_aligns@.len(), |k: int| latex_col_char(col_aligns@[k]));
            assert(full.take(i + 1) =~= full.take(i as int).push(full[i as int]));
        }
        i = i + 1;
    }
    proof {
        let full = Seq::new(col_aligns@.len(), |k: int| latex_col_char(col_aligns@[k]));
        assert(full.take(col_aligns@.len() as int) =~= full);
    }
    let mut out = if longtable {
        String::from_str("\\begin{longtable}{")
    } else {
        String::from_str("\\begin{tabular}{")
    };
    out.append(cols.as_str());
    out.append("}\n");
    if booktabs {
        out.append("\\toprule");
    } else {
        out.append("\\hline");
    }
    out
}

/// Build the opening of a plain LaTeX `tabular` environment.
pub fn latex_line_begin_tabular(col_widths: &Vec<usize>, col_aligns: &Vec<Alignment>) -> (r: String)
    ensures
        r@ == latex_begin(col_aligns@, false, false),
{
    let _ = col_widths;
    latex_line_begin_tabular_internal(col_aligns, false, false)
}

/// Build the opening of a LaTeX `tabular` environment with booktabs rules.
pub fn latex_line_begin_tabular_booktabs(
    col_widths: &Vec<usize>,
    col_aligns: &Vec<Alignment>,
) -> (r: String)
    ensures
        r@ == latex_begin(col_aligns@, true, false),
{
    let _ = col_widths;
    latex_line_begin_tabular_internal(col_aligns, true, false)
}

/// Build the opening of a LaTeX `longtable` environment.
pub fn latex_line_begin_tabular_longtable(
    col_widths: &Vec<usize>,
    col_aligns: &Vec<Alignment>,
) -> (r: String)
    ensures
        r@ == latex_begin(col_aligns@, false, true),
{
    let _ = col_widths;
    latex_line_begin_tabular_internal(col_aligns, false, true)
}

/// The LaTeX replacement of one character.
pub open spec fn latex_escaped_char(c: char) -> Seq<char> {
    if c == '&' {
        "\\&"@
    } else if c == '%' {
        "\\%"@
    } else if c == '$' {
        "\\$"@
    } else if c == '#' {
        "\\#"@
    } else if c == '_' {
        "\\_"@
    } else if c == '^' {
        "\\^{}"@
    } else if c == '{' {
        "\\{"@
    } else if c == '}' {
        "\\}"@
    } else if c == '~' {
        "\\textasciitilde{}"@
    } else if c == '\\' {
        "\\textbackslash{}"@
    } else if c == '<' {
        "\\ensuremath{<}"@
    } else if c == '>' {
        "\\ensuremath{>}"@
    } else {
        seq![c]
    }
}

/// `s` with the LaTeX special characters escaped, when escaping is on.
pub open spec fn latex_escaped(s: Seq<char>, escape: bool) -> Seq<char> {
    if escape {
        concat_map(s, |c: char| latex_escaped_char(c))
    } else {
        s
    }
}

/// Escape the LaTeX special characters of `value`.
pub fn latex_escape(value: &str, escape: bool) -> (r: String)
    ensures
        r@ == latex_escaped(value@, escape),
{
    if !escape {
        return String::from_str(value);
    }
    let ghost f = |c: char| latex_escaped_char(c);
    let len = value.unicode_len();
    let mut out = String::new();
    let mut i: usize = 0;
    while i < len
        invariant
            i <= len,
            len == value@.len(),
            out@ == concat_map(value@.take(i as int), f),
            f == (|c: char| latex_escaped_char(c)),
        decreases len - i,
    {
        let c = value.get_char(i);
        let ghost out_old = out@;
        if c == '&' {
            out.append("\\&");
        } else if c == '%' {
            out.append("\\%");
        } else if c == '$' {
            out.append("\\$");
        } else if c == '#' {
            out.append("\\#");
        } else if c == '_' {
            out.append("\\_");
        } else if c == '^' {
            out.append("\\^{}");
        } else if c == '{' {
            out.append("\\{");
        } else if c == '}' {
            out.append("\\}");
        } else if c == '~' {
            out.append("\\textasciitilde{}");
        } else if c == '\\' {
            out.append("\\textbackslash{}");
        } else if c == '<' {
            out.append("\\ensuremath{<}");
        } else if c == '>' {
            out.append("\\ensuremath{>}");
        } else {
            push_char(&mut out, c);
            proof {
                assert(out@ =~= out_old + seq![c]);
            }
        }
        proof {
            assert(value@.take(i + 1) =~= value@.take(i as int).push(c));
            lemma_concat_map_push(value@.take(i as int), c, f);
        }
        i = i + 1;
    }
    proof {
        assert(value@.take(len as int) =~= value@);
    }
    out
}

/// A LaTeX row: the escaped cells joined with ampersands, closed with a
/// double backslash.
pub open spec fn latex_row_text(cells: Seq<Seq<char>>, escape: bool) -> Seq<char> {
    join_char(Seq::new(cells.len(), |i: int| latex_escaped(cells[i], escape)), '&') + "\\\\"@
}

/// Build a LaTeX row.
pub fn latex_row_internal(
    cell_values: &Vec<String>,
    col_widths: &Vec<usize>,
    col_aligns: &Vec<Alignment>,
    escape: bool,
) -> (r: String)
    ensures
        r@ == latex_row_text(cell_values.deep_view(), escape),
{
    let _ = col_widths;
    let _ = col_aligns;
    let ghost target: Seq<Seq<char>> = Seq::new(
        cell_values.deep_view().len(),
        |i: int| latex_escaped(cell_values.deep_view()[i], escape),
    );
    let mut escaped: Vec<String> = Vec::new();
    let mut i: usize = 0;
    while i < cell_values.len()
        invariant
            i <= cell_values.len(),
            escaped.deep_view() =~= target.take(i as int),
            target == Seq::new(
                cell_values.deep_view().len(),
                |k: int| latex_escaped(cell_values.deep_view()[k], escape),
            ),
        decreases cell_values.len() - i,
    {
        proof {
            assert(cell_values[i as int]@ == cell_values.deep_view()[i as int]);
        }
        let e = latex_escape(cell_values[i].as_str(), escape);
        let ghost dv_old = escaped.deep_view();
        escaped.push(e);
        proof {
            assert(escaped.deep_view() =~= dv_old.push(target[i as int]));
            assert(target.take(i + 1) =~= target.take(i as int).push(target[i as int]));
        }
        i = i + 1;
    }
    proof {
        assert(target.take(cell_values.len() as int) =~= target);
    }
    let mut out = join_with_char(&escaped, '&');
    out.append("\\\\");
    out
}

/// Build a LaTeX row with escaped cell content.
pub fn latex_row(
    cell_values: &Vec<String>,
    col_widths: &Vec<usize>,
    col_aligns: &Vec<Alignment>,
) -> (r: String)
    ensures
        r@ == latex_row_text(cell_values.deep_view(), true),
{
    latex_row_internal(cell_values, col_widths, col_aligns, true)
}

/// Build a LaTeX row with raw cell content.
pub fn latex_row_raw(
    cell_values: &Vec<String>,
    col_widths: &Vec<usize>,
    col_aligns: &Vec<Alignment>,
) -> (r: String)
    ensures
        r@ == latex_row_text(cell_values.deep_view(), false),
{
    latex_row_internal(cell_values, col_widths, col_aligns, false)
}

/// The Textile alignment prefix of one cell.
pub open spec fn textile_prefix(a: Alignment) -> Seq<char> {
    match a {
        Alignment::Left => "<."@,
        Alignment::Right | Alignment::Decimal => ">."@,
        Alignment::Center => "=."@,
    }
}

/// A Textile row: prefixed cells between pipes; the first cell carries one
/// extra trailing space.
pub open spec fn textile_row_text(cells: Seq<Seq<char>>, aligns: Seq<Alignment>) -> Seq<char> {
    if cells.len() == 0 {
        "||"@
    } else {
        let parts = Seq::new(
            cells.len(),
            |i: int|
                textile_prefix(default_align_of(aligns, i)) + (if i == 0 {
                    cells[0].push(' ')
                } else {
                    cells[i]
                }),
        );
        seq!['|'] + join_char(parts, '|') + seq!['|']
    }
}

/// Build a Textile row with alignment prefixes.
pub fn textile_row_with_attrs(
    cell_values: &Vec<String>,
    col_widths: &Vec<usize>,
    col_aligns: &Vec<Alignment>,
) -> (r: String)
    ensures
        r@ == textile_row_text(cell_values.deep_view(), col_aligns@),
{
    let _ = col_widths;
    if cell_values.len() == 0 {
        return String::from_str("||");
    }
    let ghost target: Seq<Seq<char>> = Seq::new(
        cell_values.deep_view().len(),
        |i: int|
            textile_prefix(default_align_of(col_aligns@, i)) + (if i == 0 {
                cell_values.deep_view()[0].push(' ')
            } else {
                cell_values.deep_view()[i]
            }),
    );
    let mut parts: Vec<String> = Vec::new();
    let mut i: usize = 0;
    while i < cell_values.len()
        invariant
            i <= cell_values.len(),
            cell_values.len() > 0,
            parts.deep_view() =~= target.take(i as int),
            target == Seq::new(
                cell_values.deep_view().len(),
                |k: int|
                    textile_prefix(default_align_of(col_aligns@, k)) + (if k == 0 {
                        cell_values.deep_view()[0].push(' ')
                    } else {
                        cell_values.deep_view()[k]
                    }),
            ),
        decreases cell_values.len() - i,
    {
        let a = if i < col_aligns.len() {
            col_aligns[i]
        } else {
            Alignment::Left
        };
        let mut part = match a {
            Alignment::Left => String::from_str("<."),
            Alignment::Right | Alignment::Decimal => String::from_str(">."),
            Alignment::Center => String::from_str("=."),
        };
        proof {
            assert(cell_values[i as int]@ == cell_values.deep_view()[i as int]);
        }
        part.append(cell_values[i].as_str());
        if i == 0 {
            push_char(&mut part, ' ');
            proof {
                assert(part@ =~= textile_prefix(default_align_of(col_aligns@, 0)) + cell_values.deep_view()[0].push(
                    ' ',
                ));
            }
        }
        proof {
            assert(part@ == target[i as int]);
        }
        let ghost dv_old = parts.deep_view();
        parts.push(part);
        proof {
            assert(parts.deep_view() =~= dv_old.push(target[i as int]));
            assert(target.take(i + 1) =~= target.take(i as int).push(target[i as int]));
        }
        i = i + 1;
    }
    proof {
        assert(target.take(cell_values.len() as int) =~= target);
    }
    let mut out = String::new();
    push_char(&mut out, '|');
    let joined = join_with_char(&parts, '|');
    out.append(joined.as_str());
    push_char(&mut out, '|');
    proof {
        assert(out@ =~= seq!['|'] + join_char(target, '|') + seq!['|']);
    }
    out
}

/// The AsciiDoc alignment letter of one column.
pub open spec fn asciidoc_align_char(a: Alignment) -> char {
    match a {
        Alignment::Left => '<',
        Alignment::Right | Alignment::Decimal => '>',
        Alignment::Center => '^',
    }
}

/// Decide the AsciiDoc alignment letter of one column.
pub fn asciidoc_alignment_code(align: Alignment) -> (c: char)
    ensures
        c == asciidoc_align_char(align),
{
    match align {
        Alignment::Left => '<',
        Alignment::Right | Alignment::Decimal => '>',
        Alignment::Center => '^',
    }
}

/// The AsciiDoc column specification: each column's width in decimal and its
/// alignment letter, comma separated.
pub open spec fn asciidoc_cols(widths: Seq<usize>, aligns: Seq<Alignment>) -> Seq<char> {
    join_char(
        Seq::new(
            widths.len(),
            |i: int| dec_digits(widths[i] as nat).push(asciidoc_align_char(default_align_of(aligns, i))),
        ),
        ',',
    )
}

/// The AsciiDoc table opening: the column specification, header option when
/// a header is present, and the table delimiter line.
pub open spec fn asciidoc_opening(is_header: bool, widths: Seq<usize>, aligns: Seq<Alignment>) -> Seq<
    char,
> {
    let cols_entry = "cols=\""@ + asciidoc_cols(widths, aligns) + seq!['"'];
    let entries = if is_header {
        cols_entry + seq![','] + "options=\"header\""@
    } else {
        cols_entry
    };
    seq!['['] + entries + "]\n|===="@
}

/// Build the AsciiDoc table opening.
pub fn asciidoc_make_header_line(
    is_header: bool,
    col_widths: &Vec<usize>,
    col_aligns: &Vec<Alignment>,
) -> (r: String)
    ensures
        r@ == asciidoc_opening(is_header, col_widths@, col_aligns@),
{
    let ghost target: Seq<Seq<char>> = Seq::new(
        col_widths@.len(),
        |i: int|
            dec_digits(col_widths@[i] as nat).push(
                asciidoc_align_char(default_align_of(col_aligns@, i)),
            ),
    );
    let mut specifiers: Vec<String> = Vec::new();
    let mut i: usize = 0;
    while i < col_widths.len()
        invariant
            i <= col_widths.len(),
            specifiers.deep_view() =~= target.take(i as int),
            target == Seq::new(
                col_widths@.len(),
                |k: int|
                    dec_digits(col_widths@[k] as nat).push(
                        asciidoc_align_char(default_align_of(col_aligns@, k)),
                    ),
            ),
        decreases col_widths.len() - i,
    {
        let a = if i < col_aligns.len() {
            col_aligns[i]
        } else {
            Alignment::Left
        };
        let mut s = usize_to_string(col_widths[i]);
        push_char(&mut s, asciidoc_alignment_code(a));
        proof {
            assert(s@ == target[i as int]);
        }
        let ghost dv_old = specifiers.deep_view();
        specifiers.push(s);
        proof {
            assert(specifiers.deep_view() =~= dv_old.push(target[i as int]));
            assert(target.take(i + 1) =~= target.take(i as int).push(target[i as int]));
        }
        i = i + 1;
    }
    proof {
        assert(target.take(col_widths.len() as int) =~= target);
    }
    let mut out = String::new();
    push_char(&mut out, '[');
    out.append("cols=\"");
    let joined = join_with_char(&specifiers, ',');
    out.append(joined.as_str());
    push_char(&mut out, '"');
    if is_header {
        push_char(&mut out, ',');
        out.append("options=\"header\"");
    }
    out.append("]\n|====");
    proof {
        assert(out@ =~= asciidoc_opening(is_header, col_widths@, col_aligns@));
    }
    out
}

/// Build the AsciiDoc line above a headerless table.
pub fn asciidoc_line_above(col_widths: &Vec<usize>, col_aligns: &Vec<Alignment>) -> (r: String)
    ensures
        r@ == asciidoc_opening(false, col_widths@, col_aligns@),
{
    asciidoc_make_header_line(false, col_widths, col_aligns)
}

/// An AsciiDoc data row: the cells joined and prefixed with pipes.
pub open spec fn asciidoc_row_text(cells: Seq<Seq<char>>) -> Seq<char> {
    seq!['|'] + join_char(cells, '|')
}

/// Build an AsciiDoc data row.
pub fn asciidoc_data_row(
    cell_values: &Vec<String>,
    col_widths: &Vec<usize>,
    col_aligns: &Vec<Alignment>,
) -> (r: String)
    ensures
        r@ == asciidoc_row_text(cell_values.deep_view()),
{
    let _ = col_widths;
    let _ = col_aligns;
    let mut out = String::new();
    push_char(&mut out, '|');
    let joined = join_with_char(cell_values, '|');
    out.append(joined.as_str());
    proof {
        assert(out@ =~= seq!['|'] + join_char(cell_values.deep_view(), '|'));
    }
    out
}

/// Build an AsciiDoc header row: the table opening, then the labels.
pub fn asciidoc_header_row(
    cell_values: &Vec<String>,
    col_widths: &Vec<usize>,
    col_aligns: &Vec<Alignment>,
) -> (r: String)
    ensures
        r@ == asciidoc_opening(true, col_widths@, col_aligns@) + seq!['\n'] + asciidoc_row_text(
            cell_values.deep_view(),
        ),
{
    let mut out = asciidoc_make_header_line(true, col_widths, col_aligns);
    push_char(&mut out, '\n');
    let data = asciidoc_data_row(cell_values, col_widths, col_aligns);
    out.append(data.as_str());
    proof {
        assert(out@ =~= asciidoc_opening(true, col_widths@, col_aligns@) + seq!['\n']
            + asciidoc_row_text(cell_values.deep_view()));
    }
    out
}

fn clone_line(l: &Line) -> (r: Line)
    ensures
        r@ == l@,
{
    Line {
        begin: String::from_str(l.begin.as_str()),
        fill: String::from_str(l.fill.as_str()),
        separator: String::from_str(l.separator.as_str()),
        end: String::from_str(l.end.as_str()),
    }
}

fn clone_data_row(d: &DataRow) -> (r: DataRow)
    ensures
        r@ == d@,
{
    DataRow {
        begin: String::from_str(d.begin.as_str()),
        separator: String::from_str(d.separator.as_str()),
        end: String::from_str(d.end.as_str()),
    }
}

fn clone_line_format(lf: &LineFormat) -> (r: LineFormat)
    ensures
        r@ == lf@,
{
    match lf {
        LineFormat::Absent => LineFormat::Absent,
        LineFormat::Fixed(l) => LineFormat::Fixed(clone_line(l)),
        LineFormat::Text(t) => LineFormat::Text(String::from_str(t.as_str())),
        LineFormat::Computed(d) => LineFormat::Computed(*d),
    }
}

fn clone_row_format(rf: &RowFormat) -> (r: RowFormat)
    ensures
        r@ == rf@,
{
    match rf {
        RowFormat::Absent => RowFormat::Absent,
        RowFormat::Fixed(d) => RowFormat::Fixed(clone_data_row(d)),
        RowFormat::Computed(d) => RowFormat::Computed(*d),
    }
}

/// Copy a table format, keeping its content.
pub fn clone_table_format(f: &TableFormat) -> (r: TableFormat)
    ensures
        r@ == f@,
{
    let r = TableFormat {
        line_above: clone_line_format(&f.line_above),
        line_below_header: clone_line_format(&f.line_below_header),
        line_between_rows: clone_line_format(&f.line_between_rows),
        line_below: clone_line_format(&f.line_below),
        header_row: clone_row_format(&f.header_row),
        data_row: clone_row_format(&f.data_row),
        padding: f.padding,
        with_header_hide: crate::chars::clone_string_vec(&f.with_header_hide),
    };
    proof {
        assert(r@ =~~= f@);
    }
    r
}

/// The text a computed structural line renders to.
pub open spec fn dyn_line_text(d: DynLine, widths: Seq<usize>, aligns: Seq<Alignment>) -> Seq<
    char,
> {
    match d {
        DynLine::PipeColons => pipe_colons_line(widths, aligns),
        DynLine::HtmlOpenTable => "<table>\n<tbody>"@,
        DynLine::LatexTabular => latex_begin(aligns, false, false),
        DynLine::LatexTabularBooktabs => latex_begin(aligns, true, false),
        DynLine::LatexTabularLongtable => latex_begin(aligns, false, true),
        DynLine::AsciidocAbove => asciidoc_opening(false, widths, aligns),
    }
}

/// Render a computed structural line.
pub fn render_dyn_line(d: DynLine, widths: &Vec<usize>, aligns: &Vec<Alignment>) -> (r: String)
    ensures
        r@ == dyn_line_text(d, widths@, aligns@),
{
    match d {
        DynLine::PipeColons => pipe_line_with_colons(widths, aligns),
        DynLine::HtmlOpenTable => html_begin_table_without_header(widths, aligns),
        DynLine::LatexTabular => latex_line_begin_tabular(widths, aligns),
        DynLine::LatexTabularBooktabs => latex_line_begin_tabular_booktabs(widths, aligns),
        DynLine::LatexTabularLongtable => latex_line_begin_tabular_longtable(widths, aligns),
        DynLine::AsciidocAbove => asciidoc_line_above(widths, aligns),
    }
}

/// The text a computed row renders to.
pub open spec fn dyn_row_text(
    d: DynRow,
    cells: Seq<Seq<char>>,
    widths: Seq<usize>,
    aligns: Seq<Alignment>,
) -> Seq<char> {
    match d {
        DynRow::MediawikiHeader => mediawiki_row("!"@, cells, aligns),
        DynRow::MediawikiData => mediawiki_row("|"@, cells, aligns),
        DynRow::MoinHeader => moin_row("||"@, Some("'''"@), cells, widths, aligns),
        DynRow::MoinData => moin_row("||"@, None, cells, widths, aligns),
        DynRow::HtmlHeaderSafe => html_row("th"@, false, cells, aligns),
        DynRow::HtmlDataSafe => html_row("td"@, false, cells, aligns),
        DynRow::HtmlHeaderUnsafe => html_row("th"@, true, cells, aligns),
        DynRow::HtmlDataUnsafe => html_row("td"@, true, cells, aligns),
        DynRow::LatexRow => latex_row_text(cells, true),
        DynRow::LatexRowRaw => latex_row_text(cells, false),
        DynRow::TextileRow => textile_row_text(cells, aligns),
        DynRow::AsciidocHeader => asciidoc_opening(true, widths, aligns) + seq!['\n']
            + asciidoc_row_text(cells),
        DynRow::AsciidocData => asciidoc_row_text(cells),
    }
}

/// Render a computed row.
pub fn render_dyn_row(
    d: DynRow,
    cells: &Vec<String>,
    widths: &Vec<usize>,
    aligns: &Vec<Alignment>,
) -> (r: String)
    ensures
        r@ == dyn_row_text(d, cells.deep_view(), widths@, aligns@),
{
    match d {
        DynRow::MediawikiHeader => mediawiki_header_row(cells, widths, aligns),
        DynRow::MediawikiData => mediawiki_data_row(cells, widths, aligns),
        DynRow::MoinHeader => moin_header_row(cells, widths, aligns),
        DynRow::MoinData => moin_data_row(cells, widths, aligns),
        DynRow::HtmlHeaderSafe => html_header_row_safe(cells, widths, aligns),
        DynRow::HtmlDataSafe => html_data_row_safe(cells, widths, aligns),
        DynRow::HtmlHeaderUnsafe => html_header_row_unsafe(cells, widths, aligns),
        DynRow::HtmlDataUnsafe => html_data_row_unsafe(cells, widths, aligns),
        DynRow::LatexRow => latex_row(cells, widths, aligns),
        DynRow::LatexRowRaw => latex_row_raw(cells, widths, aligns),
        DynRow::TextileRow => textile_row_with_attrs(cells, widths, aligns),
        DynRow::AsciidocHeader => asciidoc_header_row(cells, widths, aligns),
        DynRow::AsciidocData => asciidoc_data_row(cells, widths, aligns),
    }
}

/// Construct a minimal column-separated [`TableFormat`]: no borders, no
/// structural lines, the given separator between cells.
pub fn simple_separated_format(separator: &str) -> (r: TableFormat)
    ensures
        r@.line_above is Absent,
        r@.line_below_header is Absent,
        r@.line_between_rows is Absent,
        r@.line_below is Absent,
        r@.header_row matches RowFormatV::Fixed(h) && h.begin.len() == 0 && h.separator
            == separator@ && h.end.len() == 0,
        r@.data_row matches RowFormatV::Fixed(d) && d.begin.len() == 0 && d.separator == separator@
            && d.end.len() == 0,
        r@.padding == 0,
        r@.with_header_hide.len() == 0,
{
    proof {
        reveal_strlit("");
    }
    TableFormat {
        line_above: LineFormat::Absent,
        line_below_header: LineFormat::Absent,
        line_between_rows: LineFormat::Absent,
        line_below: LineFormat::Absent,
        header_row: RowFormat::Fixed(row("", separator, "")),
        data_row: RowFormat::Fixed(row("", separator, "")),
        padding: 0,
        with_header_hide: Vec::new(),
    }
}

/// The `asciidoc` format.
pub open spec fn fmt_asciidoc_v() -> TableFormatV {
    TableFormatV {
        line_above: LineFormatV::Computed(DynLine::AsciidocAbove),
        line_below_header: LineFormatV::Absent,
        line_between_rows: LineFormatV::Absent,
        line_below: LineFormatV::Fixed(LineV { begin: "|===="@, fill: ""@, separator: ""@, end: ""@ }),
        header_row: RowFormatV::Computed(DynRow::AsciidocHeader),
        data_row: RowFormatV::Computed(DynRow::AsciidocData),
        padding: 1,
        with_header_hide: seq!["lineabove"@],
    }
}

/// The `colon_grid` format.
pub open spec fn fmt_colon_grid_v() -> TableFormatV {
    TableFormatV {
        line_above: LineFormatV::Fixed(LineV { begin: ""@, fill: "-"@, separator: "  "@, end: ""@ }),
        line_below_header: LineFormatV::Fixed(LineV { begin: ""@, fill: "-"@, separator: "  "@, end: ""@ }),
        line_between_rows: LineFormatV::Absent,
        line_below: LineFormatV::Fixed(LineV { begin: ""@, fill: "-"@, separator: "  "@, end: ""@ }),
        header_row: RowFormatV::Fixed(DataRowV { begin: ""@, separator: "  "@, end: ""@ }),
        data_row: RowFormatV::Fixed(DataRowV { begin: ""@, separator: "  "@, end: ""@ }),
        padding: 0,
        with_header_hide: seq!["lineabove"@, "linebelow"@],
    }
}

/// The `double_grid` format.
pub open spec fn fmt_double_grid_v() -> TableFormatV {
    TableFormatV {
        line_above: LineFormatV::Fixed(LineV { begin: "\u{2554}"@, fill: "\u{2550}"@, separator: "\u{2566}"@, end: "\u{2557}"@ }),
        line_below_header: LineFormatV::Fixed(LineV { begin: "\u{2560}"@, fill: "\u{2550}"@, separator: "\u{256c}"@, end: "\u{2563}"@ }),
        line_between_rows: LineFormatV::Fixed(LineV { begin: "\u{2560}"@, fill: "\u{2550}"@, separator: "\u{256c}"@, end: "\u{2563}"@ }),
        line_below: LineFormatV::Fixed(LineV { begin: "\u{255a}"@, fill: "\u{2550}"@, separator: "\u{2569}"@, end: "\u{255d}"@ }),
        header_row: RowFormatV::Fixed(DataRowV { begin: "\u{2551}"@, separator: "\u{2551}"@, end: "\u{2551}"@ }),
        data_row: RowFormatV::Fixed(DataRowV { begin: "\u{2551}"@, separator: "\u{2551}"@, end: "\u{2551}"@ }),
        padding: 1,
        with_header_hide: Seq::<Seq<char>>::empty(),
    }
}

/// The `double_outline` format.
pub open spec fn fmt_double_outline_v() -> TableFormatV {
    TableFormatV {
        line_above: LineFormatV::Fixed(LineV { begin: "\u{2554}"@, fill: "\u{2550}"@, separator: "\u{2566}"@, end: "\u{2557}"@ }),
        line_below_header: LineFormatV::Fixed(LineV { begin: "\u{2560}"@, fill: "\u{2550}"@, separator: "\u{256c}"@, end: "\u{2563}"@ }),
        line_between_rows: LineFormatV::Absent,
        line_below: LineFormatV::Fixed(LineV { begin: "\u{255a}"@, fill: "\u{2550}"@, separator: "\u{2569}"@, end: "\u{255d}"@ }),
        header_row: RowFormatV::Fixed(DataRowV { begin: "\u{2551}"@, separator: "\u{2551}"@, end: "\u{2551}"@ }),
        data_row: RowFormatV::Fixed(DataRowV { begin: "\u{2551}"@, separator: "\u{2551}"@, end: "\u{2551}"@ }),
        padding: 1,
        with_header_hide: Seq::<Seq<char>>::empty(),
    }
}

/// The `fancy_grid` format.
pub open spec fn fmt_fancy_grid_v() -> TableFormatV {
    TableFormatV {
        line_above: LineFormatV::Fixed(LineV { begin: "\u{2552}"@, fill: "\u{2550}"@, separator: "\u{2564}"@, end: "\u{2555}"@ }),
        line_below_header: LineFormatV::Fixed(LineV { begin: "\u{255e}"@, fill: "\u{2550}"@, separator: "\u{256a}"@, end: "\u{2561}"@ }),
        line_between_rows: LineFormatV::Fixed(LineV { begin: "\u{251c}"@, fill: "\u{2500}"@, separator: "\u{253c}"@, end: "\u{2524}"@ }),
        line_below: LineFormatV::Fixed(LineV { begin: "\u{2558}"@, fill: "\u{2550}"@, separator: "\u{2567}"@, end: "\u{255b}"@ }),
        header_row: RowFormatV::Fixed(DataRowV { begin: "\u{2502}"@, separator: "\u{2502}"@, end: "\u{2502}"@ }),
        data_row: RowFormatV::Fixed(DataRowV { begin: "\u{2502}"@, separator: "\u{2502}"@, end: "\u{2502}"@ }),
        padding: 1,
        with_header_hide: Seq::<Seq<char>>::empty(),
    }
}

/// The `fancy_outline` format.
pub open spec fn fmt_fancy_outline_v() -> TableFormatV {
    TableFormatV {
        line_above: LineFormatV::Fixed(LineV { begin: "\u{2552}"@, fill: "\u{2550}"@, separator: "\u{2564}"@, end: "\u{2555}"@ }),
        line_below_header: LineFormatV::Fixed(LineV { begin: "\u{255e}"@, fill: "\u{2550}"@, separator: "\u{256a}"@, end: "\u{2561}"@ }),
        line_between_rows: LineFormatV::Absent,
        line_below: LineFormatV::Fixed(LineV { begin: "\u{2558}"@, fill: "\u{2550}"@, separator: "\u{2567}"@, end: "\u{255b}"@ }),
        header_row: RowFormatV::Fixed(DataRowV { begin: "\u{2502}"@, separator: "\u{2502}"@, end: "\u{2502}"@ }),
        data_row: RowFormatV::Fixed(DataRowV { begin: "\u{2502}"@, separator: "\u{2502}"@, end: "\u{2502}"@ }),
        padding: 1,
        with_header_hide: Seq::<Seq<char>>::empty(),
    }
}

/// The `github` format.
pub open spec fn fmt_github_v() -> TableFormatV {
    TableFormatV {
        line_above: LineFormatV::Fixed(LineV { begin: "|"@, fill: "-"@, separator: "|"@, end: "|"@ }),
        line_below_header: LineFormatV::Fixed(LineV { begin: "|"@, fill: "-"@, separator: "|"@, end: "|"@ }),
        line_between_rows: LineFormatV::Absent,
        line_below: LineFormatV::Absent,
        header_row: RowFormatV::Fixed(DataRowV { begin: "|"@, separator: "|"@, end: "|"@ }),
        data_row: RowFormatV::Fixed(DataRowV { begin: "|"@, separator: "|"@, end: "|"@ }),
        padding: 1,
        with_header_hide: seq!["lineabove"@],
    }
}

/// The `grid` format.
pub open spec fn fmt_grid_v() -> TableFormatV {
    TableFormatV {
        line_above: LineFormatV::Fixed(LineV { begin: "+"@, fill: "-"@, separator: "+"@, end: "+"@ }),
        line_below_header: LineFormatV::Fixed(LineV { begin: "+"@, fill: "="@, separator: "+"@, end: "+"@ }),
        line_between_rows: LineFormatV::Fixed(LineV { begin: "+"@, fill: "-"@, separator: "+"@, end: "+"@ }),
        line_below: LineFormatV::Fixed(LineV { begin: "+"@, fill: "-"@, separator: "+"@, end: "+"@ }),
        header_row: RowFormatV::Fixed(DataRowV { begin: "|"@, separator: "|"@, end: "|"@ }),
        data_row: RowFormatV::Fixed(DataRowV { begin: "|"@, separator: "|"@, end: "|"@ }),
        padding: 1,
        with_header_hide: Seq::<Seq<char>>::empty(),
    }
}

/// The `heavy_grid` format.
pub open spec fn fmt_heavy_grid_v() -> TableFormatV {
    TableFormatV {
        line_above: LineFormatV::Fixed(LineV { begin: "\u{250f}"@, fill: "\u{2501}"@, separator: "\u{2533}"@, end: "\u{2513}"@ }),
        line_below_header: LineFormatV::Fixed(LineV { begin: "\u{2523}"@, fill: "\u{2501}"@, separator: "\u{254b}"@, end: "\u{252b}"@ }),
        line_between_rows: LineFormatV::Fixed(LineV { begin: "\u{2523}"@, fill: "\u{2501}"@, separator: "\u{254b}"@, end: "\u{252b}"@ }),
        line_below: LineFormatV::Fixed(LineV { begin: "\u{2517}"@, fill: "\u{2501}"@, separator: "\u{253b}"@, end: "\u{251b}"@ }),
        header_row: RowFormatV::Fixed(DataRowV { begin: "\u{2503}"@, separator: "\u{2503}"@, end: "\u{2503}"@ }),
        data_row: RowFormatV::Fixed(DataRowV { begin: "\u{2503}"@, separator: "\u{2503}"@, end: "\u{2503}"@ }),
        padding: 1,
        with_header_hide: Seq::<Seq<char>>::empty(),
    }
}

/// The `heavy_outline` format.
pub open spec fn fmt_heavy_outline_v() -> TableFormatV {
    TableFormatV {
        line_above: LineFormatV::Fixed(LineV { begin: "\u{250f}"@, fill: "\u{2501}"@, separator: "\u{2533}"@, end: "\u{2513}"@ }),
        line_below_header: LineFormatV::Fixed(LineV { begin: "\u{2523}"@, fill: "\u{2501}"@, separator: "\u{254b}"@, end: "\u{252b}"@ }),
        line_between_rows: LineFormatV::Absent,
        line_below: LineFormatV::Fixed(LineV { begin: "\u{2517}"@, fill: "\u{2501}"@, separator: "\u{253b}"@, end: "\u{251b}"@ }),
        header_row: RowFormatV::Fixed(DataRowV { begin: "\u{2503}"@, separator: "\u{2503}"@, end: "\u{2503}"@ }),
        data_row: RowFormatV::Fixed(DataRowV { begin: "\u{2503}"@, separator: "\u{2503}"@, end: "\u{2503}"@ }),
        padding: 1,
        with_header_hide: Seq::<Seq<char>>::empty(),
    }
}

/// The `html` format.
pub open spec fn fmt_html_v() -> TableFormatV {
    TableFormatV {
        line_above: LineFormatV::Computed(DynLine::HtmlOpenTable),
        line_below_header: LineFormatV::Text(Seq::<char>::empty()),
        line_between_rows: LineFormatV::Absent,
        line_below: LineFormatV::Fixed(LineV { begin: "</tbody>\n</table>"@, fill: ""@, separator: ""@, end: ""@ }),
        header_row: RowFormatV::Computed(DynRow::HtmlHeaderSafe),
        data_row: RowFormatV::Computed(DynRow::HtmlDataSafe),
        padding: 0,
        with_header_hide: seq!["lineabove"@],
    }
}

/// The `jira` format.
pub open spec fn fmt_jira_v() -> TableFormatV {
    TableFormatV {
        line_above: LineFormatV::Absent,
        line_below_header: LineFormatV::Absent,
        line_between_rows: LineFormatV::Absent,
        line_below: LineFormatV::Absent,
        header_row: RowFormatV::Fixed(DataRowV { begin: "||"@, separator: "||"@, end: "||"@ }),
        data_row: RowFormatV::Fixed(DataRowV { begin: "|"@, separator: "|"@, end: "|"@ }),
        padding: 1,
        with_header_hide: Seq::<Seq<char>>::empty(),
    }
}

/// The `latex` format.
pub open spec fn fmt_latex_v() -> TableFormatV {
    TableFormatV {
        line_above: LineFormatV::Computed(DynLine::LatexTabular),
        line_below_header: LineFormatV::Fixed(LineV { begin: "\\hline"@, fill: ""@, separator: ""@, end: ""@ }),
        line_between_rows: LineFormatV::Absent,
        line_below: LineFormatV::Fixed(LineV { begin: "\\hline\n\\end{tabular}"@, fill: ""@, separator: ""@, end: ""@ }),
        header_row: RowFormatV::Computed(DynRow::LatexRow),
        data_row: RowFormatV::Computed(DynRow::LatexRow),
        padding: 1,
        with_header_hide: Seq::<Seq<char>>::empty(),
    }
}

/// The `latex_booktabs` format.
pub open spec fn fmt_latex_booktabs_v() -> TableFormatV {
    TableFormatV {
        line_above: LineFormatV::Computed(DynLine::LatexTabularBooktabs),
        line_below_header: LineFormatV::Fixed(LineV { begin: "\\midrule"@, fill: ""@, separator: ""@, end: ""@ }),
        line_between_rows: LineFormatV::Absent,
        line_below: LineFormatV::Fixed(LineV { begin: "\\bottomrule\n\\end{tabular}"@, fill: ""@, separator: ""@, end: ""@ }),
        header_row: RowFormatV::Computed(DynRow::LatexRow),
        data_row: RowFormatV::Computed(DynRow::LatexRow),
        padding: 1,
        with_header_hide: Seq::<Seq<char>>::empty(),
    }
}

/// The `latex_longtable` format.
pub open spec fn fmt_latex_longtable_v() -> TableFormatV {
    TableFormatV {
        line_above: LineFormatV::Computed(DynLine::LatexTabularLongtable),
        line_below_header: LineFormatV::Fixed(LineV { begin: "\\hline\n\\endhead"@, fill: ""@, separator: ""@, end: ""@ }),
        line_between_rows: LineFormatV::Absent,
        line_below: LineFormatV::Fixed(LineV { begin: "\\hline\n\\end{longtable}"@, fill: ""@, separator: ""@, end: ""@ }),
        header_row: RowFormatV::Computed(DynRow::LatexRow),
        data_row: RowFormatV::Computed(DynRow::LatexRow),
        padding: 1,
        with_header_hide: Seq::<Seq<char>>::empty(),
    }
}

/// The `latex_raw` format.
pub open spec fn fmt_latex_raw_v() -> TableFormatV {
    TableFormatV {
        line_above: LineFormatV::Computed(DynLine::LatexTabular),
        line_below_header: LineFormatV::Fixed(LineV { begin: "\\hline"@, fill: ""@, separator: ""@, end: ""@ }),
        line_between_rows: LineFormatV::Absent,
        line_below: LineFormatV::Fixed(LineV { begin: "\\hline\n\\end{tabular}"@, fill: ""@, separator: ""@, end: ""@ }),
        header_row: RowFormatV::Computed(DynRow::LatexRowRaw),
        data_row: RowFormatV::Computed(DynRow::LatexRowRaw),
        padding: 1,
        with_header_hide: Seq::<Seq<char>>::empty(),
    }
}

/// The `mediawiki` format.
pub open spec fn fmt_mediawiki_v() -> TableFormatV {
    TableFormatV {
        line_above: LineFormatV::Fixed(LineV { begin: "{| class=\"wikitable\" style=\"text-align: left;\""@, fill: ""@, separator: ""@, end: "\n|+ <!-- caption -->\n|-"@ }),
        line_below_header: LineFormatV::Fixed(LineV { begin: "|-"@, fill: ""@, separator: ""@, end: ""@ }),
        line_between_rows: LineFormatV::Fixed(LineV { begin: "|-"@, fill: ""@, separator: ""@, end: ""@ }),
        line_below: LineFormatV::Fixed(LineV { begin: "|}"@, fill: ""@, separator: ""@, end: ""@ }),
        header_row: RowFormatV::Computed(DynRow::MediawikiHeader),
        data_row: RowFormatV::Computed(DynRow::MediawikiData),
        padding: 0,
        with_header_hide: Seq::<Seq<char>>::empty(),
    }
}

/// The `mixed_grid` format.
pub open spec fn fmt_mixed_grid_v() -> TableFormatV {
    TableFormatV {
        line_above: LineFormatV::Fixed(LineV { begin: "\u{250d}"@, fill: "\u{2501}"@, separator: "\u{252f}"@, end: "\u{2511}"@ }),
        line_below_header: LineFormatV::Fixed(LineV { begin: "\u{251d}"@, fill: "\u{2501}"@, separator: "\u{253f}"@, end: "\u{2525}"@ }),
        line_between_rows: LineFormatV::Fixed(LineV { begin: "\u{251c}"@, fill: "\u{2500}"@, separator: "\u{253c}"@, end: "\u{2524}"@ }),
        line_below: LineFormatV::Fixed(LineV { begin: "\u{2515}"@, fill: "\u{2501}"@, separator: "\u{2537}"@, end: "\u{2519}"@ }),
        header_row: RowFormatV::Fixed(DataRowV { begin: "\u{2502}"@, separator: "\u{2502}"@, end: "\u{2502}"@ }),
        data_row: RowFormatV::Fixed(DataRowV { begin: "\u{2502}"@, separator: "\u{2502}"@, end: "\u{2502}"@ }),
        padding: 1,
        with_header_hide: Seq::<Seq<char>>::empty(),
    }
}

/// The `mixed_outline` format.
pub open spec fn fmt_mixed_outline_v() -> TableFormatV {
    TableFormatV {
        line_above: LineFormatV::Fixed(LineV { begin: "\u{250d}"@, fill: "\u{2501}"@, separator: "\u{252f}"@, end: "\u{2511}"@ }),
        line_below_header: LineFormatV::Fixed(LineV { begin: "\u{251d}"@, fill: "\u{2501}"@, separator: "\u{253f}"@, end: "\u{2525}"@ }),
        line_between_rows: LineFormatV::Absent,
        line_below: LineFormatV::Fixed(LineV { begin: "\u{2515}"@, fill: "\u{2501}"@, separator: "\u{2537}"@, end: "\u{2519}"@ }),
        header_row: RowFormatV::Fixed(DataRowV { begin: "\u{2502}"@, separator: "\u{2502}"@, end: "\u{2502}"@ }),
        data_row: RowFormatV::Fixed(DataRowV { begin: "\u{2502}"@, separator: "\u{2502}"@, end: "\u{2502}"@ }),
        padding: 1,
        with_header_hide: Seq::<Seq<char>>::empty(),
    }
}

/// The `moinmoin` format.
pub open spec fn fmt_moinmoin_v() -> TableFormatV {
    TableFormatV {
        line_above: LineFormatV::Absent,
        line_below_header: LineFormatV::Absent,
        line_between_rows: LineFormatV::Absent,
        line_below: LineFormatV::Absent,
        header_row: RowFormatV::Computed(DynRow::MoinHeader),
        data_row: RowFormatV::Computed(DynRow::MoinData),
        padding: 1,
        with_header_hide: Seq::<Seq<char>>::empty(),
    }
}

/// The `orgtbl` format.
pub open spec fn fmt_orgtbl_v() -> TableFormatV {
    TableFormatV {
        line_above: LineFormatV::Absent,
        line_below_header: LineFormatV::Fixed(LineV { begin: "|"@, fill: "-"@, separator: "+"@, end: "|"@ }),
        line_between_rows: LineFormatV::Absent,
        line_below: LineFormatV::Absent,
        header_row: RowFormatV::Fixed(DataRowV { begin: "|"@, separator: "|"@, end: "|"@ }),
        data_row: RowFormatV::Fixed(DataRowV { begin: "|"@, separator: "|"@, end: "|"@ }),
        padding: 1,
        with_header_hide: Seq::<Seq<char>>::empty(),
    }
}

/// The `outline` format.
pub open spec fn fmt_outline_v() -> TableFormatV {
    TableFormatV {
        line_above: LineFormatV::Fixed(LineV { begin: "+"@, fill: "-"@, separator: "+"@, end: "+"@ }),
        line_below_header: LineFormatV::Fixed(LineV { begin: "+"@, fill: "="@, separator: "+"@, end: "+"@ }),
        line_between_rows: LineFormatV::Absent,
        line_below: LineFormatV::Fixed(LineV { begin: "+"@, fill: "-"@, separator: "+"@, end: "+"@ }),
        header_row: RowFormatV::Fixed(DataRowV { begin: "|"@, separator: "|"@, end: "|"@ }),
        data_row: RowFormatV::Fixed(DataRowV { begin: "|"@, separator: "|"@, end: "|"@ }),
        padding: 1,
        with_header_hide: Seq::<Seq<char>>::empty(),
    }
}

/// The `pipe` format.
pub open spec fn fmt_pipe_v() -> TableFormatV {
    TableFormatV {
        line_above: LineFormatV::Computed(DynLine::PipeColons),
        line_below_header: LineFormatV::Computed(DynLine::PipeColons),
        line_between_rows: LineFormatV::Absent,
        line_below: LineFormatV::Absent,
        header_row: RowFormatV::Fixed(DataRowV { begin: "|"@, separator: "|"@, end: "|"@ }),
        data_row: RowFormatV::Fixed(DataRowV { begin: "|"@, separator: "|"@, end: "|"@ }),
        padding: 1,
        with_header_hide: seq!["lineabove"@],
    }
}

/// The `plain` format.
pub open spec fn fmt_plain_v() -> TableFormatV {
    TableFormatV {
        line_above: LineFormatV::Absent,
        line_below_header: LineFormatV::Absent,
        line_between_rows: LineFormatV::Absent,
        line_below: LineFormatV::Absent,
        header_row: RowFormatV::Fixed(DataRowV { begin: ""@, separator: "  "@, end: ""@ }),
        data_row: RowFormatV::Fixed(DataRowV { begin: ""@, separator: "  "@, end: ""@ }),
        padding: 0,
        with_header_hide: Seq::<Seq<char>>::empty(),
    }
}

/// The `presto` format.
pub open spec fn fmt_presto_v() -> TableFormatV {
    TableFormatV {
        line_above: LineFormatV::Absent,
        line_below_header: LineFormatV::Fixed(LineV { begin: ""@, fill: "-"@, separator: "+"@, end: ""@ }),
        line_between_rows: LineFormatV::Absent,
        line_below: LineFormatV::Absent,
        header_row: RowFormatV::Fixed(DataRowV { begin: ""@, separator: "|"@, end: ""@ }),
        data_row: RowFormatV::Fixed(DataRowV { begin: ""@, separator: "|"@, end: ""@ }),
        padding: 1,
        with_header_hide: Seq::<Seq<char>>::empty(),
    }
}

/// The `pretty` format.
pub open spec fn fmt_pretty_v() -> TableFormatV {
    TableFormatV {
        line_above: LineFormatV::Fixed(LineV { begin: "+"@, fill: "-"@, separator: "+"@, end: "+"@ }),
        line_below_header: LineFormatV::Fixed(LineV { begin: "+"@, fill: "-"@, separator: "+"@, end: "+"@ }),
        line_between_rows: LineFormatV::Absent,
        line_below: LineFormatV::Fixed(LineV { begin: "+"@, fill: "-"@, separator: "+"@, end: "+"@ }),
        header_row: RowFormatV::Fixed(DataRowV { begin: "|"@, separator: "|"@, end: "|"@ }),
        data_row: RowFormatV::Fixed(DataRowV { begin: "|"@, separator: "|"@, end: "|"@ }),
        padding: 1,
        with_header_hide: Seq::<Seq<char>>::empty(),
    }
}

/// The `psql` format.
pub open spec fn fmt_psql_v() -> TableFormatV {
    TableFormatV {
        line_above: LineFormatV::Fixed(LineV { begin: "+"@, fill: "-"@, separator: "+"@, end: "+"@ }),
        line_below_header: LineFormatV::Fixed(LineV { begin: "|"@, fill: "-"@, separator: "+"@, end: "|"@ }),
        line_between_rows: LineFormatV::Absent,
        line_below: LineFormatV::Fixed(LineV { begin: "+"@, fill: "-"@, separator: "+"@, end: "+"@ }),
        header_row: RowFormatV::Fixed(DataRowV { begin: "|"@, separator: "|"@, end: "|"@ }),
        data_row: RowFormatV::Fixed(DataRowV { begin: "|"@, separator: "|"@, end: "|"@ }),
        padding: 1,
        with_header_hide: Seq::<Seq<char>>::empty(),
    }
}

/// The `rounded_grid` format.
pub open spec fn fmt_rounded_grid_v() -> TableFormatV {
    TableFormatV {
        line_above: LineFormatV::Fixed(LineV { begin: "\u{256d}"@, fill: "\u{2500}"@, separator: "\u{252c}"@, end: "\u{256e}"@ }),
        line_below_header: LineFormatV::Fixed(LineV { begin: "\u{251c}"@, fill: "\u{2500}"@, separator: "\u{253c}"@, end: "\u{2524}"@ }),
        line_between_rows: LineFormatV::Fixed(LineV { begin: "\u{251c}"@, fill: "\u{2500}"@, separator: "\u{253c}"@, end: "\u{2524}"@ }),
        line_below: LineFormatV::Fixed(LineV { begin: "\u{2570}"@, fill: "\u{2500}"@, separator: "\u{2534}"@, end: "\u{256f}"@ }),
        header_row: RowFormatV::Fixed(DataRowV { begin: "\u{2502}"@, separator: "\u{2502}"@, end: "\u{2502}"@ }),
        data_row: RowFormatV::Fixed(DataRowV { begin: "\u{2502}"@, separator: "\u{2502}"@, end: "\u{2502}"@ }),
        padding: 1,
        with_header_hide: Seq::<Seq<char>>::empty(),
    }
}

/// The `rounded_outline` format.
pub open spec fn fmt_rounded_outline_v() -> TableFormatV {
    TableFormatV {
        line_above: LineFormatV::Fixed(LineV { begin: "\u{256d}"@, fill: "\u{2500}"@, separator: "\u{252c}"@, end: "\u{256e}"@ }),
        line_below_header: LineFormatV::Fixed(LineV { begin: "\u{251c}"@, fill: "\u{2500}"@, separator: "\u{253c}"@, end: "\u{2524}"@ }),
        line_between_rows: LineFormatV::Absent,
        line_below: LineFormatV::Fixed(LineV { begin: "\u{2570}"@, fill: "\u{2500}"@, separator: "\u{2534}"@, end: "\u{256f}"@ }),
        header_row: RowFormatV::Fixed(DataRowV { begin: "\u{2502}"@, separator: "\u{2502}"@, end: "\u{2502}"@ }),
        data_row: RowFormatV::Fixed(DataRowV { begin: "\u{2502}"@, separator: "\u{2502}"@, end: "\u{2502}"@ }),
        padding: 1,
        with_header_hide: Seq::<Seq<char>>::empty(),
    }
}

/// The `rst` format.
pub open spec fn fmt_rst_v() -> TableFormatV {
    TableFormatV {
        line_above: LineFormatV::Fixed(LineV { begin: ""@, fill: "="@, separator: "  "@, end: ""@ }),
        line_below_header: LineFormatV::Fixed(LineV { begin: ""@, fill: "="@, separator: "  "@, end: ""@ }),
        line_between_rows: LineFormatV::Absent,
        line_below: LineFormatV::Fixed(LineV { begin: ""@, fill: "="@, separator: "  "@, end: ""@ }),
        header_row: RowFormatV::Fixed(DataRowV { begin: ""@, separator: "  "@, end: ""@ }),
        data_row: RowFormatV::Fixed(DataRowV { begin: ""@, separator: "  "@, end: ""@ }),
        padding: 0,
        with_header_hide: Seq::<Seq<char>>::empty(),
    }
}

/// The `simple` format.
pub open spec fn fmt_simple_v() -> TableFormatV {
    TableFormatV {
        line_above: LineFormatV::Fixed(LineV { begin: ""@, fill: "-"@, separator: "  "@, end: ""@ }),
        line_below_header: LineFormatV::Fixed(LineV { begin: ""@, fill: "-"@, separator: "  "@, end: ""@ }),
        line_between_rows: LineFormatV::Absent,
        line_below: LineFormatV::Fixed(LineV { begin: ""@, fill: "-"@, separator: "  "@, end: ""@ }),
        header_row: RowFormatV::Fixed(DataRowV { begin: ""@, separator: "  "@, end: ""@ }),
        data_row: RowFormatV::Fixed(DataRowV { begin: ""@, separator: "  "@, end: ""@ }),
        padding: 0,
        with_header_hide: seq!["lineabove"@, "linebelow"@],
    }
}

/// The `simple_grid` format.
pub open spec fn fmt_simple_grid_v() -> TableFormatV {
    TableFormatV {
        line_above: LineFormatV::Fixed(LineV { begin: "\u{250c}"@, fill: "\u{2500}"@, separator: "\u{252c}"@, end: "\u{2510}"@ }),
        line_below_header: LineFormatV::Fixed(LineV { begin: "\u{251c}"@, fill: "\u{2500}"@, separator: "\u{253c}"@, end: "\u{2524}"@ }),
        line_between_rows: LineFormatV::Fixed(LineV { begin: "\u{251c}"@, fill: "\u{2500}"@, separator: "\u{253c}"@, end: "\u{2524}"@ }),
        line_below: LineFormatV::Fixed(LineV { begin: "\u{2514}"@, fill: "\u{2500}"@, separator: "\u{2534}"@, end: "\u{2518}"@ }),
        header_row: RowFormatV::Fixed(DataRowV { begin: "\u{2502}"@, separator: "\u{2502}"@, end: "\u{2502}"@ }),
        data_row: RowFormatV::Fixed(DataRowV { begin: "\u{2502}"@, separator: "\u{2502}"@, end: "\u{2502}"@ }),
        padding: 1,
        with_header_hide: Seq::<Seq<char>>::empty(),
    }
}

/// The `simple_outline` format.
pub open spec fn fmt_simple_outline_v() -> TableFormatV {
    TableFormatV {
        line_above: LineFormatV::Fixed(LineV { begin: "\u{250c}"@, fill: "\u{2500}"@, separator: "\u{252c}"@, end: "\u{2510}"@ }),
        line_below_header: LineFormatV::Fixed(LineV { begin: "\u{251c}"@, fill: "\u{2500}"@, separator: "\u{253c}"@, end: "\u{2524}"@ }),
        line_between_rows: LineFormatV::Absent,
        line_below: LineFormatV::Fixed(LineV { begin: "\u{2514}"@, fill: "\u{2500}"@, separator: "\u{2534}"@, end: "\u{2518}"@ }),
        header_row: RowFormatV::Fixed(DataRowV { begin: "\u{2502}"@, separator: "\u{2502}"@, end: "\u{2502}"@ }),
        data_row: RowFormatV::Fixed(DataRowV { begin: "\u{2502}"@, separator: "\u{2502}"@, end: "\u{2502}"@ }),
        padding: 1,
        with_header_hide: Seq::<Seq<char>>::empty(),
    }
}

/// The `textile` format.
pub open spec fn fmt_textile_v() -> TableFormatV {
    TableFormatV {
        line_above: LineFormatV::Absent,
        line_below_header: LineFormatV::Absent,
        line_between_rows: LineFormatV::Absent,
        line_below: LineFormatV::Absent,
        header_row: RowFormatV::Fixed(DataRowV { begin: "|_. "@, separator: "|_."@, end: "|"@ }),
        data_row: RowFormatV::Computed(DynRow::TextileRow),
        padding: 1,
        with_header_hide: Seq::<Seq<char>>::empty(),
    }
}

/// The `tsv` format.
pub open spec fn fmt_tsv_v() -> TableFormatV {
    TableFormatV {
        line_above: LineFormatV::Absent,
        line_below_header: LineFormatV::Absent,
        line_between_rows: LineFormatV::Absent,
        line_below: LineFormatV::Absent,
        header_row: RowFormatV::Fixed(DataRowV { begin: ""@, separator: "\t"@, end: ""@ }),
        data_row: RowFormatV::Fixed(DataRowV { begin: ""@, separator: "\t"@, end: ""@ }),
        padding: 0,
        with_header_hide: Seq::<Seq<char>>::empty(),
    }
}

/// The `unsafehtml` format.
pub open spec fn fmt_unsafehtml_v() -> TableFormatV {
    TableFormatV {
        line_above: LineFormatV::Computed(DynLine::HtmlOpenTable),
        line_below_header: LineFormatV::Text(Seq::<char>::empty()),
        line_between_rows: LineFormatV::Absent,
        line_below: LineFormatV::Fixed(LineV { begin: "</tbody>\n</table>"@, fill: ""@, separator: ""@, end: ""@ }),
        header_row: RowFormatV::Computed(DynRow::HtmlHeaderUnsafe),
        data_row: RowFormatV::Computed(DynRow::HtmlDataUnsafe),
        padding: 0,
        with_header_hide: seq!["lineabove"@],
    }
}

/// The `youtrack` format.
pub open spec fn fmt_youtrack_v() -> TableFormatV {
    TableFormatV {
        line_above: LineFormatV::Absent,
        line_below_header: LineFormatV::Absent,
        line_between_rows: LineFormatV::Absent,
        line_below: LineFormatV::Absent,
        header_row: RowFormatV::Fixed(DataRowV { begin: "|| "@, separator: " || "@, end: " || "@ }),
        data_row: RowFormatV::Fixed(DataRowV { begin: "| "@, separator: " | "@, end: " |"@ }),
        padding: 1,
        with_header_hide: Seq::<Seq<char>>::empty(),
    }
}

fn fmt_asciidoc() -> (f: TableFormat)
    ensures
        f@ == fmt_asciidoc_v(),
{
    let mut hidden: Vec<String> = Vec::new();
    hidden.push(String::from_str("lineabove"));
    let f = TableFormat {
        line_above: LineFormat::Computed(DynLine::AsciidocAbove),
        line_below_header: LineFormat::Absent,
        line_between_rows: LineFormat::Absent,
        line_below: LineFormat::Fixed(line("|====", "", "", "")),
        header_row: RowFormat::Computed(DynRow::AsciidocHeader),
        data_row: RowFormat::Computed(DynRow::AsciidocData),
        padding: 1,
        with_header_hide: hidden,
    };
    proof {
        assert(f@ =~~= fmt_asciidoc_v());
    }
    f
}

fn fmt_colon_grid() -> (f: TableFormat)
    ensures
        f@ == fmt_colon_grid_v(),
{
    let mut hidden: Vec<String> = Vec::new();
    hidden.push(String::from_str("lineabove"));
    hidden.push(String::from_str("linebelow"));
    let f = TableFormat {
        line_above: LineFormat::Fixed(line("", "-", "  ", "")),
        line_below_header: LineFormat::Fixed(line("", "-", "  ", "")),
        line_between_rows: LineFormat::Absent,
        line_below: LineFormat::Fixed(line("", "-", "  ", "")),
        header_row: RowFormat::Fixed(row("", "  ", "")),
        data_row: RowFormat::Fixed(row("", "  ", "")),
        padding: 0,
        with_header_hide: hidden,
    };
    proof {
        assert(f@ =~~= fmt_colon_grid_v());
    }
    f
}

fn fmt_double_grid() -> (f: TableFormat)
    ensures
        f@ == fmt_double_grid_v(),
{
    let f = TableFormat {
        line_above: LineFormat::Fixed(line("\u{2554}", "\u{2550}", "\u{2566}", "\u{2557}")),
        line_below_header: LineFormat::Fixed(line("\u{2560}", "\u{2550}", "\u{256c}", "\u{2563}")),
        line_between_rows: LineFormat::Fixed(line("\u{2560}", "\u{2550}", "\u{256c}", "\u{2563}")),
        line_below: LineFormat::Fixed(line("\u{255a}", "\u{2550}", "\u{2569}", "\u{255d}")),
        header_row: RowFormat::Fixed(row("\u{2551}", "\u{2551}", "\u{2551}")),
        data_row: RowFormat::Fixed(row("\u{2551}", "\u{2551}", "\u{2551}")),
        padding: 1,
        with_header_hide: Vec::new(),
    };
    proof {
        assert(f@ =~~= fmt_double_grid_v());
    }
    f
}

fn fmt_double_outline() -> (f: TableFormat)
    ensures
        f@ == fmt_double_outline_v(),
{
    let f = TableFormat {
        line_above: LineFormat::Fixed(line("\u{2554}", "\u{2550}", "\u{2566}", "\u{2557}")),
        line_below_header: LineFormat::Fixed(line("\u{2560}", "\u{2550}", "\u{256c}", "\u{2563}")),
        line_between_rows: LineFormat::Absent,
        line_below: LineFormat::Fixed(line("\u{255a}", "\u{2550}", "\u{2569}", "\u{255d}")),
        header_row: RowFormat::Fixed(row("\u{2551}", "\u{2551}", "\u{2551}")),
        data_row: RowFormat::Fixed(row("\u{2551}", "\u{2551}", "\u{2551}")),
        padding: 1,
        with_header_hide: Vec::new(),
    };
    proof {
        assert(f@ =~~= fmt_double_outline_v());
    }
    f
}

fn fmt_fancy_grid() -> (f: TableFormat)
    ensures
        f@ == fmt_fancy_grid_v(),
{
    let f = TableFormat {
        line_above: LineFormat::Fixed(line("\u{2552}", "\u{2550}", "\u{2564}", "\u{2555}")),
        line_below_header: LineFormat::Fixed(line("\u{255e}", "\u{2550}", "\u{256a}", "\u{2561}")),
        line_between_rows: LineFormat::Fixed(line("\u{251c}", "\u{2500}", "\u{253c}", "\u{2524}")),
        line_below: LineFormat::Fixed(line("\u{2558}", "\u{2550}", "\u{2567}", "\u{255b}")),
        header_row: RowFormat::Fixed(row("\u{2502}", "\u{2502}", "\u{2502}")),
        data_row: RowFormat::Fixed(row("\u{2502}", "\u{2502}", "\u{2502}")),
        padding: 1,
        with_header_hide: Vec::new(),
    };
    proof {
        assert(f@ =~~= fmt_fancy_grid_v());
    }
    f
}

fn fmt_fancy_outline() -> (f: TableFormat)
    ensures
        f@ == fmt_fancy_outline_v(),
{
    let f = TableFormat {
        line_above: LineFormat::Fixed(line("\u{2552}", "\u{2550}", "\u{2564}", "\u{2555}")),
        line_below_header: LineFormat::Fixed(line("\u{255e}", "\u{2550}", "\u{256a}", "\u{2561}")),
        line_between_rows: LineFormat::Absent,
        line_below: LineFormat::Fixed(line("\u{2558}", "\u{2550}", "\u{2567}", "\u{255b}")),
        header_row: RowFormat::Fixed(row("\u{2502}", "\u{2502}", "\u{2502}")),
        data_row: RowFormat::Fixed(row("\u{2502}", "\u{2502}", "\u{2502}")),
        padding: 1,
        with_header_hide: Vec::new(),
    };
    proof {
        assert(f@ =~~= fmt_fancy_outline_v());
    }
    f
}

fn fmt_github() -> (f: TableFormat)
    ensures
        f@ == fmt_github_v(),
{
    let mut hidden: Vec<String> = Vec::new();
    hidden.push(String::from_str("lineabove"));
    let f = TableFormat {
        line_above: LineFormat::Fixed(line("|", "-", "|", "|")),
        line_below_header: LineFormat::Fixed(line("|", "-", "|", "|")),
        line_between_rows: LineFormat::Absent,
        line_below: LineFormat::Absent,
        header_row: RowFormat::Fixed(row("|", "|", "|")),
        data_row: RowFormat::Fixed(row("|", "|", "|")),
        padding: 1,
        with_header_hide: hidden,
    };
    proof {
        assert(f@ =~~= fmt_github_v());
    }
    f
}

fn fmt_grid() -> (f: TableFormat)
    ensures
        f@ == fmt_grid_v(),
{
    let f = TableFormat {
        line_above: LineFormat::Fixed(line("+", "-", "+", "+")),
        line_below_header: LineFormat::Fixed(line("+", "=", "+", "+")),
        line_between_rows: LineFormat::Fixed(line("+", "-", "+", "+")),
        line_below: LineFormat::Fixed(line("+", "-", "+", "+")),
        header_row: RowFormat::Fixed(row("|", "|", "|")),
        data_row: RowFormat::Fixed(row("|", "|", "|")),
        padding: 1,
        with_header_hide: Vec::new(),
    };
    proof {
        assert(f@ =~~= fmt_grid_v());
    }
    f
}

fn fmt_heavy_grid() -> (f: TableFormat)
    ensures
        f@ == fmt_heavy_grid_v(),
{
    let f = TableFormat {
        line_above: LineFormat::Fixed(line("\u{250f}", "\u{2501}", "\u{2533}", "\u{2513}")),
        line_below_header: LineFormat::Fixed(line("\u{2523}", "\u{2501}", "\u{254b}", "\u{252b}")),
        line_between_rows: LineFormat::Fixed(line("\u{2523}", "\u{2501}", "\u{254b}", "\u{252b}")),
        line_below: LineFormat::Fixed(line("\u{2517}", "\u{2501}", "\u{253b}", "\u{251b}")),
        header_row: RowFormat::Fixed(row("\u{2503}", "\u{2503}", "\u{2503}")),
        data_row: RowFormat::Fixed(row("\u{2503}", "\u{2503}", "\u{2503}")),
        padding: 1,
        with_header_hide: Vec::new(),
    };
    proof {
        assert(f@ =~~= fmt_heavy_grid_v());
    }
    f
}

fn fmt_heavy_outline() -> (f: TableFormat)
    ensures
        f@ == fmt_heavy_outline_v(),
{
    let f = TableFormat {
        line_above: LineFormat::Fixed(line("\u{250f}", "\u{2501}", "\u{2533}", "\u{2513}")),
        line_below_header: LineFormat::Fixed(line("\u{2523}", "\u{2501}", "\u{254b}", "\u{252b}")),
        line_between_rows: LineFormat::Absent,
        line_below: LineFormat::Fixed(line("\u{2517}", "\u{2501}", "\u{253b}", "\u{251b}")),
        header_row: RowFormat::Fixed(row("\u{2503}", "\u{2503}", "\u{2503}")),
        data_row: RowFormat::Fixed(row("\u{2503}", "\u{2503}", "\u{2503}")),
        padding: 1,
        with_header_hide: Vec::new(),
    };
    proof {
        assert(f@ =~~= fmt_heavy_outline_v());
    }
    f
}

fn fmt_html() -> (f: TableFormat)
    ensures
        f@ == fmt_html_v(),
{
    let mut hidden: Vec<String> = Vec::new();
    hidden.push(String::from_str("lineabove"));
    let f = TableFormat {
        line_above: LineFormat::Computed(DynLine::HtmlOpenTable),
        line_below_header: LineFormat::Text(String::new()),
        line_between_rows: LineFormat::Absent,
        line_below: LineFormat::Fixed(line("</tbody>\n</table>", "", "", "")),
        header_row: RowFormat::Computed(DynRow::HtmlHeaderSafe),
        data_row: RowFormat::Computed(DynRow::HtmlDataSafe),
        padding: 0,
        with_header_hide: hidden,
    };
    proof {
        assert(f@ =~~= fmt_html_v());
    }
    f
}

fn fmt_jira() -> (f: TableFormat)
    ensures
        f@ == fmt_jira_v(),
{
    let f = TableFormat {
        line_above: LineFormat::Absent,
        line_below_header: LineFormat::Absent,
        line_between_rows: LineFormat::Absent,
        line_below: LineFormat::Absent,
        header_row: RowFormat::Fixed(row("||", "||", "||")),
        data_row: RowFormat::Fixed(row("|", "|", "|")),
        padding: 1,
        with_header_hide: Vec::new(),
    };
    proof {
        assert(f@ =~~= fmt_jira_v());
    }
    f
}

fn fmt_latex() -> (f: TableFormat)
    ensures
        f@ == fmt_latex_v(),
{
    let f = TableFormat {
        line_above: LineFormat::Computed(DynLine::LatexTabular),
        line_below_header: LineFormat::Fixed(line("\\hline", "", "", "")),
        line_between_rows: LineFormat::Absent,
        line_below: LineFormat::Fixed(line("\\hline\n\\end{tabular}", "", "", "")),
        header_row: RowFormat::Computed(DynRow::LatexRow),
        data_row: RowFormat::Computed(DynRow::LatexRow),
        padding: 1,
        with_header_hide: Vec::new(),
    };
    proof {
        assert(f@ =~~= fmt_latex_v());
    }
    f
}

fn fmt_latex_booktabs() -> (f: TableFormat)
    ensures
        f@ == fmt_latex_booktabs_v(),
{
    let f = TableFormat {
        line_above: LineFormat::Computed(DynLine::LatexTabularBooktabs),
        line_below_header: LineFormat::Fixed(line("\\midrule", "", "", "")),
        line_between_rows: LineFormat::Absent,
        line_below: LineFormat::Fixed(line("\\bottomrule\n\\end{tabular}", "", "", "")),
        header_row: RowFormat::Computed(DynRow::LatexRow),
        data_row: RowFormat::Computed(DynRow::LatexRow),
        padding: 1,
        with_header_hide: Vec::new(),
    };
    proof {
        assert(f@ =~~= fmt_latex_booktabs_v());
    }
    f
}

fn fmt_latex_longtable() -> (f: TableFormat)
    ensures
        f@ == fmt_latex_longtable_v(),
{
    let f = TableFormat {
        line_above: LineFormat::Computed(DynLine::LatexTabularLongtable),
        line_below_header: LineFormat::Fixed(line("\\hline\n\\endhead", "", "", "")),
        line_between_rows: LineFormat::Absent,
        line_below: LineFormat::Fixed(line("\\hline\n\\end{longtable}", "", "", "")),
        header_row: RowFormat::Computed(DynRow::LatexRow),
        data_row: RowFormat::Computed(DynRow::LatexRow),
        padding: 1,
        with_header_hide: Vec::new(),
    };
    proof {
        assert(f@ =~~= fmt_latex_longtable_v());
    }
    f
}

fn fmt_latex_raw() -> (f: TableFormat)
    ensures
        f@ == fmt_latex_raw_v(),
{
    let f = TableFormat {
        line_above: LineFormat::Computed(DynLine::LatexTabular),
        line_below_header: LineFormat::Fixed(line("\\hline", "", "", "")),
        line_between_rows: LineFormat::Absent,
        line_below: LineFormat::Fixed(line("\\hline\n\\end{tabular}", "", "", "")),
        header_row: RowFormat::Computed(DynRow::LatexRowRaw),
        data_row: RowFormat::Computed(DynRow::LatexRowRaw),
        padding: 1,
        with_header_hide: Vec::new(),
    };
    proof {
        assert(f@ =~~= fmt_latex_raw_v());
    }
    f
}

fn fmt_mediawiki() -> (f: TableFormat)
    ensures
        f@ == fmt_mediawiki_v(),
{
    let f = TableFormat {
        line_above: LineFormat::Fixed(line("{| class=\"wikitable\" style=\"text-align: left;\"", "", "", "\n|+ <!-- caption -->\n|-")),
        line_below_header: LineFormat::Fixed(line("|-", "", "", "")),
        line_between_rows: LineFormat::Fixed(line("|-", "", "", "")),
        line_below: LineFormat::Fixed(line("|}", "", "", "")),
        header_row: RowFormat::Computed(DynRow::MediawikiHeader),
        data_row: RowFormat::Computed(DynRow::MediawikiData),
        padding: 0,
        with_header_hide: Vec::new(),
    };
    proof {
        assert(f@ =~~= fmt_mediawiki_v());
    }
    f
}

fn fmt_mixed_grid() -> (f: TableFormat)
    ensures
        f@ == fmt_mixed_grid_v(),
{
    let f = TableFormat {
        line_above: LineFormat::Fixed(line("\u{250d}", "\u{2501}", "\u{252f}", "\u{2511}")),
        line_below_header: LineFormat::Fixed(line("\u{251d}", "\u{2501}", "\u{253f}", "\u{2525}")),
        line_between_rows: LineFormat::Fixed(line("\u{251c}", "\u{2500}", "\u{253c}", "\u{2524}")),
        line_below: LineFormat::Fixed(line("\u{2515}", "\u{2501}", "\u{2537}", "\u{2519}")),
        header_row: RowFormat::Fixed(row("\u{2502}", "\u{2502}", "\u{2502}")),
        data_row: RowFormat::Fixed(row("\u{2502}", "\u{2502}", "\u{2502}")),
        padding: 1,
        with_header_hide: Vec::new(),
    };
    proof {
        assert(f@ =~~= fmt_mixed_grid_v());
    }
    f
}

fn fmt_mixed_outline() -> (f: TableFormat)
    ensures
        f@ == fmt_mixed_outline_v(),
{
    let f = TableFormat {
        line_above: LineFormat::Fixed(line("\u{250d}", "\u{2501}", "\u{252f}", "\u{2511}")),
        line_below_header: LineFormat::Fixed(line("\u{251d}", "\u{2501}", "\u{253f}", "\u{2525}")),
        line_between_rows: LineFormat::Absent,
        line_below: LineFormat::Fixed(line("\u{2515}", "\u{2501}", "\u{2537}", "\u{2519}")),
        header_row: RowFormat::Fixed(row("\u{2502}", "\u{2502}", "\u{2502}")),
        data_row: RowFormat::Fixed(row("\u{2502}", "\u{2502}", "\u{2502}")),
        padding: 1,
        with_header_hide: Vec::new(),
    };
    proof {
        assert(f@ =~~= fmt_mixed_outline_v());
    }
    f
}

fn fmt_moinmoin() -> (f: TableFormat)
    ensures
        f@ == fmt_moinmoin_v(),
{
    let f = TableFormat {
        line_above: LineFormat::Absent,
        line_below_header: LineFormat::Absent,
        line_between_rows: LineFormat::Absent,
        line_below: LineFormat::Absent,
        header_row: RowFormat::Computed(DynRow::MoinHeader),
        data_row: RowFormat::Computed(DynRow::MoinData),
        padding: 1,
        with_header_hide: Vec::new(),
    };
    proof {
        assert(f@ =~~= fmt_moinmoin_v());
    }
    f
}

fn fmt_orgtbl() -> (f: TableFormat)
    ensures
        f@ == fmt_orgtbl_v(),
{
    let f = TableFormat {
        line_above: LineFormat::Absent,
        line_below_header: LineFormat::Fixed(line("|", "-", "+", "|")),
        line_between_rows: LineFormat::Absent,
        line_below: LineFormat::Absent,
        header_row: RowFormat::Fixed(row("|", "|", "|")),
        data_row: RowFormat::Fixed(row("|", "|", "|")),
        padding: 1,
        with_header_hide: Vec::new(),
    };
    proof {
        assert(f@ =~~= fmt_orgtbl_v());
    }
    f
}

fn fmt_outline() -> (f: TableFormat)
    ensures
        f@ == fmt_outline_v(),
{
    let f = TableFormat {
        line_above: LineFormat::Fixed(line("+", "-", "+", "+")),
        line_below_header: LineFormat::Fixed(line("+", "=", "+", "+")),
        line_between_rows: LineFormat::Absent,
        line_below: LineFormat::Fixed(line("+", "-", "+", "+")),
        header_row: RowFormat::Fixed(row("|", "|", "|")),
        data_row: RowFormat::Fixed(row("|", "|", "|")),
        padding: 1,
        with_header_hide: Vec::new(),
    };
    proof {
        assert(f@ =~~= fmt_outline_v());
    }
    f
}

fn fmt_pipe() -> (f: TableFormat)
    ensures
        f@ == fmt_pipe_v(),
{
    let mut hidden: Vec<String> = Vec::new();
    hidden.push(String::from_str("lineabove"));
    let f = TableFormat {
        line_above: LineFormat::Computed(DynLine::PipeColons),
        line_below_header: LineFormat::Computed(DynLine::PipeColons),
        line_between_rows: LineFormat::Absent,
        line_below: LineFormat::Absent,
        header_row: RowFormat::Fixed(row("|", "|", "|")),
        data_row: RowFormat::Fixed(row("|", "|", "|")),
        padding: 1,
        with_header_hide: hidden,
    };
    proof {
        assert(f@ =~~= fmt_pipe_v());
    }
    f
}

fn fmt_plain() -> (f: TableFormat)
    ensures
        f@ == fmt_plain_v(),
{
    let f = TableFormat {
        line_above: LineFormat::Absent,
        line_below_header: LineFormat::Absent,
        line_between_rows: LineFormat::Absent,
        line_below: LineFormat::Absent,
        header_row: RowFormat::Fixed(row("", "  ", "")),
        data_row: RowFormat::Fixed(row("", "  ", "")),
        padding: 0,
        with_header_hide: Vec::new(),
    };
    proof {
        assert(f@ =~~= fmt_plain_v());
    }
    f
}

fn fmt_presto() -> (f: TableFormat)
    ensures
        f@ == fmt_presto_v(),
{
    let f = TableFormat {
        line_above: LineFormat::Absent,
        line_below_header: LineFormat::Fixed(line("", "-", "+", "")),
        line_between_rows: LineFormat::Absent,
        line_below: LineFormat::Absent,
        header_row: RowFormat::Fixed(row("", "|", "")),
        data_row: RowFormat::Fixed(row("", "|", "")),
        padding: 1,
        with_header_hide: Vec::new(),
    };
    proof {
        assert(f@ =~~= fmt_presto_v());
    }
    f
}

fn fmt_pretty() -> (f: TableFormat)
    ensures
        f@ == fmt_pretty_v(),
{
    let f = TableFormat {
        line_above: LineFormat::Fixed(line("+", "-", "+", "+")),
        line_below_header: LineFormat::Fixed(line("+", "-", "+", "+")),
        line_between_rows: LineFormat::Absent,
        line_below: LineFormat::Fixed(line("+", "-", "+", "+")),
        header_row: RowFormat::Fixed(row("|", "|", "|")),
        data_row: RowFormat::Fixed(row("|", "|", "|")),
        padding: 1,
        with_header_hide: Vec::new(),
    };
    proof {
        assert(f@ =~~= fmt_pretty_v());
    }
    f
}

fn fmt_psql() -> (f: TableFormat)
    ensures
        f@ == fmt_psql_v(),
{
    let f = TableFormat {
        line_above: LineFormat::Fixed(line("+", "-", "+", "+")),
        line_below_header: LineFormat::Fixed(line("|", "-", "+", "|")),
        line_between_rows: LineFormat::Absent,
        line_below: LineFormat::Fixed(line("+", "-", "+", "+")),
        header_row: RowFormat::Fixed(row("|", "|", "|")),
        data_row: RowFormat::Fixed(row("|", "|", "|")),
        padding: 1,
        with_header_hide: Vec::new(),
    };
    proof {
        assert(f@ =~~= fmt_psql_v());
    }
    f
}

fn fmt_rounded_grid() -> (f: TableFormat)
    ensures
        f@ == fmt_rounded_grid_v(),
{
    let f = TableFormat {
        line_above: LineFormat::Fixed(line("\u{256d}", "\u{2500}", "\u{252c}", "\u{256e}")),
        line_below_header: LineFormat::Fixed(line("\u{251c}", "\u{2500}", "\u{253c}", "\u{2524}")),
        line_between_rows: LineFormat::Fixed(line("\u{251c}", "\u{2500}", "\u{253c}", "\u{2524}")),
        line_below: LineFormat::Fixed(line("\u{2570}", "\u{2500}", "\u{2534}", "\u{256f}")),
        header_row: RowFormat::Fixed(row("\u{2502}", "\u{2502}", "\u{2502}")),
        data_row: RowFormat::Fixed(row("\u{2502}", "\u{2502}", "\u{2502}")),
        padding: 1,
        with_header_hide: Vec::new(),
    };
    proof {
        assert(f@ =~~= fmt_rounded_grid_v());
    }
    f
}

fn fmt_rounded_outline() -> (f: TableFormat)
    ensures
        f@ == fmt_rounded_outline_v(),
{
    let f = TableFormat {
        line_above: LineFormat::Fixed(line("\u{256d}", "\u{2500}", "\u{252c}", "\u{256e}")),
        line_below_header: LineFormat::Fixed(line("\u{251c}", "\u{2500}", "\u{253c}", "\u{2524}")),
        line_between_rows: LineFormat::Absent,
        line_below: LineFormat::Fixed(line("\u{2570}", "\u{2500}", "\u{2534}", "\u{256f}")),
        header_row: RowFormat::Fixed(row("\u{2502}", "\u{2502}", "\u{2502}")),
        data_row: RowFormat::Fixed(row("\u{2502}", "\u{2502}", "\u{2502}")),
        padding: 1,
        with_header_hide: Vec::new(),
    };
    proof {
        assert(f@ =~~= fmt_rounded_outline_v());
    }
    f
}

fn fmt_rst() -> (f: TableFormat)
    ensures
        f@ == fmt_rst_v(),
{
    let f = TableFormat {
        line_above: LineFormat::Fixed(line("", "=", "  ", "")),
        line_below_header: LineFormat::Fixed(line("", "=", "  ", "")),
        line_between_rows: LineFormat::Absent,
        line_below: LineFormat::Fixed(line("", "=", "  ", "")),
        header_row: RowFormat::Fixed(row("", "  ", "")),
        data_row: RowFormat::Fixed(row("", "  ", "")),
        padding: 0,
        with_header_hide: Vec::new(),
    };
    proof {
        assert(f@ =~~= fmt_rst_v());
    }
    f
}

fn fmt_simple() -> (f: TableFormat)
    ensures
        f@ == fmt_simple_v(),
{
    let mut hidden: Vec<String> = Vec::new();
    hidden.push(String::from_str("lineabove"));
    hidden.push(String::from_str("linebelow"));
    let f = TableFormat {
        line_above: LineFormat::Fixed(line("", "-", "  ", "")),
        line_below_header: LineFormat::Fixed(line("", "-", "  ", "")),
        line_between_rows: LineFormat::Absent,
        line_below: LineFormat::Fixed(line("", "-", "  ", "")),
        header_row: RowFormat::Fixed(row("", "  ", "")),
        data_row: RowFormat::Fixed(row("", "  ", "")),
        padding: 0,
        with_header_hide: hidden,
    };
    proof {
        assert(f@ =~~= fmt_simple_v());
    }
    f
}

fn fmt_simple_grid() -> (f: TableFormat)
    ensures
        f@ == fmt_simple_grid_v(),
{
    let f = TableFormat {
        line_above: LineFormat::Fixed(line("\u{250c}", "\u{2500}", "\u{252c}", "\u{2510}")),
        line_below_header: LineFormat::Fixed(line("\u{251c}", "\u{2500}", "\u{253c}", "\u{2524}")),
        line_between_rows: LineFormat::Fixed(line("\u{251c}", "\u{2500}", "\u{253c}", "\u{2524}")),
        line_below: LineFormat::Fixed(line("\u{2514}", "\u{2500}", "\u{2534}", "\u{2518}")),
        header_row: RowFormat::Fixed(row("\u{2502}", "\u{2502}", "\u{2502}")),
        data_row: RowFormat::Fixed(row("\u{2502}", "\u{2502}", "\u{2502}")),
        padding: 1,
        with_header_hide: Vec::new(),
    };
    proof {
        assert(f@ =~~= fmt_simple_grid_v());
    }
    f
}

fn fmt_simple_outline() -> (f: TableFormat)
    ensures
        f@ == fmt_simple_outline_v(),
{
    let f = TableFormat {
        line_above: LineFormat::Fixed(line("\u{250c}", "\u{2500}", "\u{252c}", "\u{2510}")),
        line_below_header: LineFormat::Fixed(line("\u{251c}", "\u{2500}", "\u{253c}", "\u{2524}")),
        line_between_rows: LineFormat::Absent,
        line_below: LineFormat::Fixed(line("\u{2514}", "\u{2500}", "\u{2534}", "\u{2518}")),
        header_row: RowFormat::Fixed(row("\u{2502}", "\u{2502}", "\u{2502}")),
        data_row: RowFormat::Fixed(row("\u{2502}", "\u{2502}", "\u{2502}")),
        padding: 1,
        with_header_hide: Vec::new(),
    };
    proof {
        assert(f@ =~~= fmt_simple_outline_v());
    }
    f
}

fn fmt_textile() -> (f: TableFormat)
    ensures
        f@ == fmt_textile_v(),
{
    let f = TableFormat {
        line_above: LineFormat::Absent,
        line_below_header: LineFormat::Absent,
        line_between_rows: LineFormat::Absent,
        line_below: LineFormat::Absent,
        header_row: RowFormat::Fixed(row("|_. ", "|_.", "|")),
        data_row: RowFormat::Computed(DynRow::TextileRow),
        padding: 1,
        with_header_hide: Vec::new(),
    };
    proof {
        assert(f@ =~~= fmt_textile_v());
    }
    f
}

fn fmt_tsv() -> (f: TableFormat)
    ensures
        f@ == fmt_tsv_v(),
{
    let f = TableFormat {
        line_above: LineFormat::Absent,
        line_below_header: LineFormat::Absent,
        line_between_rows: LineFormat::Absent,
        line_below: LineFormat::Absent,
        header_row: RowFormat::Fixed(row("", "\t", "")),
        data_row: RowFormat::Fixed(row("", "\t", "")),
        padding: 0,
        with_header_hide: Vec::new(),
    };
    proof {
        assert(f@ =~~= fmt_tsv_v());
    }
    f
}

fn fmt_unsafehtml() -> (f: TableFormat)
    ensures
        f@ == fmt_unsafehtml_v(),
{
    let mut hidden: Vec<String> = Vec::new();
    hidden.push(String::from_str("lineabove"));
    let f = TableFormat {
        line_above: LineFormat::Computed(DynLine::HtmlOpenTable),
        line_below_header: LineFormat::Text(String::new()),
        line_between_rows: LineFormat::Absent,
        line_below: LineFormat::Fixed(line("</tbody>\n</table>", "", "", "")),
        header_row: RowFormat::Computed(DynRow::HtmlHeaderUnsafe),
        data_row: RowFormat::Computed(DynRow::HtmlDataUnsafe),
        padding: 0,
        with_header_hide: hidden,
    };
    proof {
        assert(f@ =~~= fmt_unsafehtml_v());
    }
    f
}

fn fmt_youtrack() -> (f: TableFormat)
    ensures
        f@ == fmt_youtrack_v(),
{
    let f = TableFormat {
        line_above: LineFormat::Absent,
        line_below_header: LineFormat::Absent,
        line_between_rows: LineFormat::Absent,
        line_below: LineFormat::Absent,
        header_row: RowFormat::Fixed(row("|| ", " || ", " || ")),
        data_row: RowFormat::Fixed(row("| ", " | ", " |")),
        padding: 1,
        with_header_hide: Vec::new(),
    };
    proof {
        assert(f@ =~~= fmt_youtrack_v());
    }
    f
}

/// The built-in table format bound to each name, tried in catalog order.
pub open spec fn builtin_format(name: Seq<char>) -> Option<TableFormatV> {
    if name == "asciidoc"@ {
        Some(fmt_asciidoc_v())
    } else if name == "colon_grid"@ {
        Some(fmt_colon_grid_v())
    } else if name == "double_grid"@ {
        Some(fmt_double_grid_v())
    } else if name == "double_outline"@ {
        Some(fmt_double_outline_v())
    } else if name == "fancy_grid"@ {
        Some(fmt_fancy_grid_v())
    } else if name == "fancy_outline"@ {
        Some(fmt_fancy_outline_v())
    } else if name == "github"@ {
        Some(fmt_github_v())
    } else if name == "grid"@ {
        Some(fmt_grid_v())
    } else if name == "heavy_grid"@ {
        Some(fmt_heavy_grid_v())
    } else if name == "heavy_outline"@ {
        Some(fmt_heavy_outline_v())
    } else if name == "html"@ {
        Some(fmt_html_v())
    } else if name == "jira"@ {
        Some(fmt_jira_v())
    } else if name == "latex"@ {
        Some(fmt_latex_v())
    } else if name == "latex_booktabs"@ {
        Some(fmt_latex_booktabs_v())
    } else if name == "latex_longtable"@ {
        Some(fmt_latex_longtable_v())
    } else if name == "latex_raw"@ {
        Some(fmt_latex_raw_v())
    } else if name == "mediawiki"@ {
        Some(fmt_mediawiki_v())
    } else if name == "mixed_grid"@ {
        Some(fmt_mixed_grid_v())
    } else if name == "mixed_outline"@ {
        Some(fmt_mixed_outline_v())
    } else if name == "moinmoin"@ {
        Some(fmt_moinmoin_v())
    } else if name == "orgtbl"@ {
        Some(fmt_orgtbl_v())
    } else if name == "outline"@ {
        Some(fmt_outline_v())
    } else if name == "pipe"@ {
        Some(fmt_pipe_v())
    } else if name == "plain"@ {
        Some(fmt_plain_v())
    } else if name == "presto"@ {
        Some(fmt_presto_v())
    } else if name == "pretty"@ {
        Some(fmt_pretty_v())
    } else if name == "psql"@ {
        Some(fmt_psql_v())
    } else if name == "rounded_grid"@ {
        Some(fmt_rounded_grid_v())
    } else if name == "rounded_outline"@ {
        Some(fmt_rounded_outline_v())
    } else if name == "rst"@ {
        Some(fmt_rst_v())
    } else if name == "simple"@ {
        Some(fmt_simple_v())
    } else if name == "simple_grid"@ {
        Some(fmt_simple_grid_v())
    } else if name == "simple_outline"@ {
        Some(fmt_simple_outline_v())
    } else if name == "textile"@ {
        Some(fmt_textile_v())
    } else if name == "tsv"@ {
        Some(fmt_tsv_v())
    } else if name == "unsafehtml"@ {
        Some(fmt_unsafehtml_v())
    } else if name == "youtrack"@ {
        Some(fmt_youtrack_v())
    } else {
        None
    }
}

/// Retrieve a built-in table format by name.
pub fn table_format(name: &str) -> (r: Option<TableFormat>)
    ensures
        match r {
            Some(f) => builtin_format(name@) == Some(f@),
            None => builtin_format(name@) is None,
        },
{
    if str_eq(name, "asciidoc") {
        return Some(fmt_asciidoc());
    }
    if str_eq(name, "colon_grid") {
        return Some(fmt_colon_grid());
    }
    if str_eq(name, "double_grid") {
        return Some(fmt_double_grid());
    }
    if str_eq(name, "double_outline") {
        return Some(fmt_double_outline());
    }
    if str_eq(name, "fancy_grid") {
        return Some(fmt_fancy_grid());
    }
    if str_eq(name, "fancy_outline") {
        return Some(fmt_fancy_outline());
    }
    if str_eq(name, "github") {
        return Some(fmt_github());
    }
    if str_eq(name, "grid") {
        return Some(fmt_grid());
    }
    if str_eq(name, "heavy_grid") {
        return Some(fmt_heavy_grid());
    }
    if str_eq(name, "heavy_outline") {
        return Some(fmt_heavy_outline());
    }
    if str_eq(name, "html") {
        return Some(fmt_html());
    }
    if str_eq(name, "jira") {
        return Some(fmt_jira());
    }
    if str_eq(name, "latex") {
        return Some(fmt_latex());
    }
    if str_eq(name, "latex_booktabs") {
        return Some(fmt_latex_booktabs());
    }
    if str_eq(name, "latex_longtable") {
        return Some(fmt_latex_longtable());
    }
    if str_eq(name, "latex_raw") {
        return Some(fmt_latex_raw());
    }
    if str_eq(name, "mediawiki") {
        return Some(fmt_mediawiki());
    }
    if str_eq(name, "mixed_grid") {
        return Some(fmt_mixed_grid());
    }
    if str_eq(name, "mixed_outline") {
        return Some(fmt_mixed_outline());
    }
    if str_eq(name, "moinmoin") {
        return Some(fmt_moinmoin());
    }
    if str_eq(name, "orgtbl") {
        return Some(fmt_orgtbl());
    }
    if str_eq(name, "outline") {
        return Some(fmt_outline());
    }
    if str_eq(name, "pipe") {
        return Some(fmt_pipe());
    }
    if str_eq(name, "plain") {
        return Some(fmt_plain());
    }
    if str_eq(name, "presto") {
        return Some(fmt_presto());
    }
    if str_eq(name, "pretty") {
        return Some(fmt_pretty());
    }
    if str_eq(name, "psql") {
        return Some(fmt_psql());
    }
    if str_eq(name, "rounded_grid") {
        return Some(fmt_rounded_grid());
    }
    if str_eq(name, "rounded_outline") {
        return Some(fmt_rounded_outline());
    }
    if str_eq(name, "rst") {
        return Some(fmt_rst());
    }
    if str_eq(name, "simple") {
        return Some(fmt_simple());
    }
    if str_eq(name, "simple_grid") {
        return Some(fmt_simple_grid());
    }
    if str_eq(name, "simple_outline") {
        return Some(fmt_simple_outline());
    }
    if str_eq(name, "textile") {
        return Some(fmt_textile());
    }
    if str_eq(name, "tsv") {
        return Some(fmt_tsv());
    }
    if str_eq(name, "unsafehtml") {
        return Some(fmt_unsafehtml());
    }
    if str_eq(name, "youtrack") {
        return Some(fmt_youtrack());
    }
    None
}

/// The catalog's format names, in order.
pub open spec fn builtin_format_names() -> Seq<Seq<char>> {
    seq!["asciidoc"@, "colon_grid"@, "double_grid"@, "double_outline"@, "fancy_grid"@, "fancy_outline"@, "github"@, "grid"@, "heavy_grid"@, "heavy_outline"@, "html"@, "jira"@, "latex"@, "latex_booktabs"@, "latex_longtable"@, "latex_raw"@, "mediawiki"@, "mixed_grid"@, "mixed_outline"@, "moinmoin"@, "orgtbl"@, "outline"@, "pipe"@, "plain"@, "presto"@, "pretty"@, "psql"@, "rounded_grid"@, "rounded_outline"@, "rst"@, "simple"@, "simple_grid"@, "simple_outline"@, "textile"@, "tsv"@, "unsafehtml"@, "youtrack"@]
}

/// List the available table format names.
pub fn tabulate_formats() -> (r: Vec<String>)
    ensures
        r.deep_view() == builtin_format_names(),
{
    let mut out: Vec<String> = Vec::new();
    out.push(String::from_str("asciidoc"));
    out.push(String::from_str("colon_grid"));
    out.push(String::from_str("double_grid"));
    out.push(String::from_str("double_outline"));
    out.push(String::from_str("fancy_grid"));
    out.push(String::from_str("fancy_outline"));
    out.push(String::from_str("github"));
    out.push(String::from_str("grid"));
    out.push(String::from_str("heavy_grid"));
    out.push(String::from_str("heavy_outline"));
    out.push(String::from_str("html"));
    out.push(String::from_str("jira"));
    out.push(String::from_str("latex"));
    out.push(String::from_str("latex_booktabs"));
    out.push(String::from_str("latex_longtable"));
    out.push(String::from_str("latex_raw"));
    out.push(String::from_str("mediawiki"));
    out.push(String::from_str("mixed_grid"));
    out.push(String::from_str("mixed_outline"));
    out.push(String::from_str("moinmoin"));
    out.push(String::from_str("orgtbl"));
    out.push(String::from_str("outline"));
    out.push(String::from_str("pipe"));
    out.push(String::from_str("plain"));
    out.push(String::from_str("presto"));
    out.push(String::from_str("pretty"));
    out.push(String::from_str("psql"));
    out.push(String::from_str("rounded_grid"));
    out.push(String::from_str("rounded_outline"));
    out.push(String::from_str("rst"));
    out.push(String::from_str("simple"));
    out.push(String::from_str("simple_grid"));
    out.push(String::from_str("simple_outline"));
    out.push(String::from_str("textile"));
    out.push(String::from_str("tsv"));
    out.push(String::from_str("unsafehtml"));
    out.push(String::from_str("youtrack"));
    proof {
        assert(out.deep_view() =~= builtin_format_names());
    }
    out
}

} // verus!
