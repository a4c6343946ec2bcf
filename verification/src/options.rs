//! Builder-style configuration for [`tabulate`](crate::tabulate).

use vstd::prelude::*;

use crate::alignment::Alignment;
use crate::format::TableFormat;

verus! {

/// Header specification for the table.
#[derive(Clone, Debug)]
pub enum Headers {
    /// No headers.
    Absent,
    /// Use the first row of the data as a header row.
    FirstRow,
    /// Use the keys/index positions detected in the data source.
    Keys,
    /// Use explicitly provided header labels.
    Explicit(Vec<String>),
    /// Map column keys to header labels for record-like rows.
    Mapping(Vec<(String, String)>),
}

impl Default for Headers {
    /// Tables carry no headers unless asked.
    fn default() -> (r: Self)
        ensures
            r is Absent,
    {
        Headers::Absent
    }
}

/// Format specifier for numeric columns.
#[derive(Clone, Debug)]
pub enum FormatSpec {
    /// Use the standard formatting rules: the value's own text.
    Standard,
    /// Reuse the same format string for all columns.
    Fixed(String),
    /// Set the format on a per-column basis.
    PerColumn(Vec<String>),
}

impl Default for FormatSpec {
    /// The standard formatting rules apply unless asked otherwise.
    fn default() -> (r: Self)
        ensures
            r is Standard,
    {
        FormatSpec::Standard
    }
}

/// Vertical alignment applied when rendering multi-line rows.
#[derive(Clone, Copy, Debug, PartialEq, Eq, Structural)]
pub enum RowAlignment {
    /// Align content to the top (extra blank lines at the bottom).
    Top,
    /// Align content to the centre.
    Center,
    /// Align content to the bottom (extra blank lines at the top).
    Bottom,
}

/// Header alignment specification, including the marker that copies the
/// resolved column alignment.
#[derive(Clone, Copy, Debug, PartialEq, Eq, Structural)]
pub enum HeaderAlignment {
    /// Explicit alignment choice.
    Align(Alignment),
    /// Reuse the column alignment.
    SameAsColumn,
}

impl From<Alignment> for HeaderAlignment {
    /// Wrap an explicit alignment choice.
    fn from(value: Alignment) -> (r: Self)
        ensures
            r == HeaderAlignment::Align(value),
    {
        HeaderAlignment::Align(value)
    }
}

impl vstd::std_specs::convert::FromSpecImpl<Alignment> for HeaderAlignment {
    open spec fn obeys_from_spec() -> bool {
        true
    }

    open spec fn from_spec(value: Alignment) -> Self {
        HeaderAlignment::Align(value)
    }
}

/// Placeholder values for missing entries.
#[derive(Clone, Debug)]
pub enum MissingValues {
    /// Use the same placeholder for each column.
    Single(String),
    /// Per-column placeholders, extended by repeating the last value.
    PerColumn(Vec<String>),
}

impl Default for MissingValues {
    /// Missing cells render as empty text unless asked otherwise.
    fn default() -> (r: Self)
        ensures
            r matches MissingValues::Single(s) && s@ == Seq::<char>::empty(),
    {
        MissingValues::Single(String::new())
    }
}

/// Controls whether an index column is shown.
#[derive(Clone, Debug)]
pub enum ShowIndex {
    /// Show an index only for data sources that naturally provide one; the
    /// engine itself takes no action.
    Auto,
    /// Always show an index column using the implicit row number.
    Always,
    /// Never show an index column.
    Never,
    /// Show an index column with the provided labels.
    Values(Vec<String>),
}

impl Default for ShowIndex {
    /// The index column follows the data source unless asked otherwise.
    fn default() -> (r: Self)
        ensures
            r is Auto,
    {
        ShowIndex::Auto
    }
}

/// Specifies whether to use a named or custom table format.
#[derive(Clone, Debug)]
pub enum TableFormatChoice {
    /// Use one of the built-in formats by name.
    Name(String),
    /// Use a bespoke [`TableFormat`] instance.
    Custom(Box<TableFormat>),
}

/// Builder-style configuration for [`tabulate`](crate::tabulate).
#[derive(Clone, Debug)]
pub struct TabulateOptions {
    /// Header configuration.
    pub headers: Headers,
    /// Table format selection (either a named format or a custom one).
    pub table_format: TableFormatChoice,
    /// Floating point number formatting.
    pub float_format: FormatSpec,
    /// Integer number formatting.
    pub int_format: FormatSpec,
    /// Alignment for numeric columns.
    pub num_align: Option<Alignment>,
    /// Alignment for string columns.
    pub str_align: Option<Alignment>,
    /// Replacement value for missing data.
    pub missing_values: MissingValues,
    /// Index column behaviour.
    pub show_index: ShowIndex,
    /// Disable automatic detection of numeric values.
    pub disable_numparse: bool,
    /// Disable numeric parsing for specific columns (0-indexed).
    pub disable_numparse_columns: Option<Vec<usize>>,
    /// Preserve the original whitespace provided in the data.
    pub preserve_whitespace: bool,
    /// Treat East Asian wide characters using double-width measurements.
    pub enable_widechars: bool,
    /// Maximum column widths (if any).
    pub max_col_widths: Option<Vec<Option<usize>>>,
    /// Maximum header column widths (if any).
    pub max_header_col_widths: Option<Vec<Option<usize>>>,
    /// Alignment override applied to every column.
    pub col_global_align: Option<Alignment>,
    /// Alignment overrides per column.
    pub col_align: Vec<Option<Alignment>>,
    /// Alignment override for the header row.
    pub headers_global_align: Option<Alignment>,
    /// Alignment overrides per-header cell.
    pub headers_align: Vec<Option<HeaderAlignment>>,
    /// Alignment override applied per row.
    pub row_align: Vec<Option<RowAlignment>>,
    /// Alignment override applied to all rows.
    pub row_global_align: Option<RowAlignment>,
    /// Control how long words are wrapped.
    pub break_long_words: bool,
    /// Control whether words can be wrapped on hyphens.
    pub break_on_hyphens: bool,
}

/// The default configuration values, as a predicate over the whole bundle.
pub open spec fn is_default_options(o: TabulateOptions) -> bool {
    &&& o.headers is Absent
    &&& o.table_format matches TableFormatChoice::Name(n) && n@ == "simple"@
    &&& o.float_format is Standard
    &&& o.int_format is Standard
    &&& o.num_align is None
    &&& o.str_align is None
    &&& o.missing_values matches MissingValues::Single(m) && m@ == Seq::<char>::empty()
    &&& o.show_index is Auto
    &&& o.disable_numparse == false
    &&& o.disable_numparse_columns is None
    &&& o.preserve_whitespace == false
    &&& o.enable_widechars == false
    &&& o.max_col_widths is None
    &&& o.max_header_col_widths is None
    &&& o.col_global_align is None
    &&& o.col_align@.len() == 0
    &&& o.headers_global_align is None
    &&& o.headers_align@.len() == 0
    &&& o.row_align@.len() == 0
    &&& o.row_global_align is None
    &&& o.break_long_words == true
    &&& o.break_on_hyphens == true
}

impl Default for TabulateOptions {
    /// The documented default for every option.
    fn default() -> (r: Self)
        ensures
            is_default_options(r),
    {
        TabulateOptions {
            headers: Headers::Absent,
            table_format: TableFormatChoice::Name(String::from_str("simple")),
            float_format: FormatSpec::Standard,
            int_format: FormatSpec::Standard,
            num_align: None,
            str_align: None,
            missing_values: MissingValues::Single(String::new()),
            show_index: ShowIndex::Auto,
            disable_numparse: false,
            disable_numparse_columns: None,
            preserve_whitespace: false,
            enable_widechars: false,
            max_col_widths: None,
            max_header_col_widths: None,
            col_global_align: None,
            col_align: Vec::new(),
            headers_global_align: None,
            headers_align: Vec::new(),
            row_align: Vec::new(),
            row_global_align: None,
            break_long_words: true,
            break_on_hyphens: true,
        }
    }
}

impl TabulateOptions {
    /// Construct a new options builder with default configuration.
    pub fn new() -> (r: Self)
        ensures
            is_default_options(r),
    {
        Self::default()
    }

    /// Set explicit headers.
    pub fn headers(self, headers: Headers) -> (r: Self)
        ensures
            r == (TabulateOptions { headers, ..self }),
    {
        TabulateOptions { headers, ..self }
    }

    /// Set table format by name.
    pub fn table_format(self, format: &str) -> (r: Self)
        ensures
            r.table_format matches TableFormatChoice::Name(n) && n@ == format@,
            r == (TabulateOptions { table_format: r.table_format, ..self }),
    {
        TabulateOptions { table_format: TableFormatChoice::Name(String::from_str(format)), ..self }
    }

    /// Supply a custom [`TableFormat`].
    pub fn table_format_custom(self, format: TableFormat) -> (r: Self)
        ensures
            r.table_format matches TableFormatChoice::Custom(f) && f == format,
            r == (TabulateOptions { table_format: r.table_format, ..self }),
    {
        TabulateOptions { table_format: TableFormatChoice::Custom(Box::new(format)), ..self }
    }

    /// Set floating point format.
    pub fn float_format(self, format: FormatSpec) -> (r: Self)
        ensures
            r == (TabulateOptions { float_format: format, ..self }),
    {
        TabulateOptions { float_format: format, ..self }
    }

    /// Set integer format: `d` keeps the plain decimal form, a width pads
    /// on the left, and a leading zero pads with zeros after the sign. Any
    /// other specification degrades to the raw text.
    pub fn int_format(self, format: FormatSpec) -> (r: Self)
        ensures
            r == (TabulateOptions { int_format: format, ..self }),
    {
        TabulateOptions { int_format: format, ..self }
    }

    /// Set numeric column alignment.
    pub fn num_align(self, align: Alignment) -> (r: Self)
        ensures
            r == (TabulateOptions { num_align: Some(align), ..self }),
    {
        TabulateOptions { num_align: Some(align), ..self }
    }

    /// Override alignment for all columns.
    pub fn col_global_align(self, align: Alignment) -> (r: Self)
        ensures
            r == (TabulateOptions { col_global_align: Some(align), ..self }),
    {
        TabulateOptions { col_global_align: Some(align), ..self }
    }

    /// Set string column alignment.
    pub fn str_align(self, align: Alignment) -> (r: Self)
        ensures
            r == (TabulateOptions { str_align: Some(align), ..self }),
    {
        TabulateOptions { str_align: Some(align), ..self }
    }

    /// Set the placeholder for missing values.
    pub fn missing_value(self, value: &str) -> (r: Self)
        ensures
            r.missing_values matches MissingValues::Single(m) && m@ == value@,
            r == (TabulateOptions { missing_values: r.missing_values, ..self }),
    {
        TabulateOptions { missing_values: MissingValues::Single(String::from_str(value)), ..self }
    }

    /// Set per-column placeholders for missing values.
    pub fn missing_values(self, values: Vec<String>) -> (r: Self)
        ensures
            r == (TabulateOptions { missing_values: MissingValues::PerColumn(values), ..self }),
    {
        TabulateOptions { missing_values: MissingValues::PerColumn(values), ..self }
    }

    /// Control whether tabulate should attempt to parse numeric values.
    pub fn disable_numparse(self, disable: bool) -> (r: Self)
        ensures
            r == (TabulateOptions { disable_numparse: disable, ..self }),
    {
        TabulateOptions { disable_numparse: disable, ..self }
    }

    /// Disable numeric parsing for specific columns (0-indexed).
    pub fn disable_numparse_columns(self, columns: Vec<usize>) -> (r: Self)
        ensures
            r == (TabulateOptions { disable_numparse_columns: Some(columns), ..self }),
    {
        TabulateOptions { disable_numparse_columns: Some(columns), ..self }
    }

    /// Whether numeric parsing is off for the provided column: either the
    /// global switch is set, or the column is listed.
    pub open spec fn numparse_disabled_for(&self, column: Option<usize>) -> bool {
        self.disable_numparse || match column {
            Some(idx) => match self.disable_numparse_columns {
                Some(columns) => columns@.contains(idx),
                None => false,
            },
            None => false,
        }
    }

    /// Returns true if numeric parsing is disabled for the provided column.
    pub fn is_numparse_disabled(&self, column: Option<usize>) -> (r: bool)
        ensures
            r == self.numparse_disabled_for(column),
    {
        if self.disable_numparse {
            return true;
        }
        if let Some(idx) = column {
            if let Some(columns) = &self.disable_numparse_columns {
                let mut i: usize = 0;
                while i < columns.len()
                    invariant
                        i <= columns.len(),
                        forall|k: int| 0 <= k < i ==> columns@[k] != idx,
                        column == Some(idx),
                        self.disable_numparse_columns == Some(*columns),
                    decreases columns.len() - i,
                {
                    if columns[i] == idx {
                        proof {
                            assert(columns@[i as int] == idx);
                            assert(columns@.contains(idx));
                        }
                        return true;
                    }
                    i = i + 1;
                }
                proof {
                    if columns@.contains(idx) {
                        let w = choose|w: int| 0 <= w < columns@.len() && columns@[w] == idx;
                        assert(false);
                    }
                }
                return false;
            }
        }
        false
    }

    /// Control whitespace preservation.
    pub fn preserve_whitespace(self, preserve: bool) -> (r: Self)
        ensures
            r == (TabulateOptions { preserve_whitespace: preserve, ..self }),
    {
        TabulateOptions { preserve_whitespace: preserve, ..self }
    }

    /// Enable width calculations that treat East Asian wide characters as
    /// double width.
    pub fn enable_widechars(self, enable: bool) -> (r: Self)
        ensures
            r == (TabulateOptions { enable_widechars: enable, ..self }),
    {
        TabulateOptions { enable_widechars: enable, ..self }
    }

    /// Configure how the index column is displayed.
    pub fn show_index(self, show_index: ShowIndex) -> (r: Self)
        ensures
            r == (TabulateOptions { show_index, ..self }),
    {
        TabulateOptions { show_index, ..self }
    }

    /// Set per-column maximum widths. Use `None` for columns without limits.
    pub fn max_col_widths(self, widths: Vec<Option<usize>>) -> (r: Self)
        ensures
            r == (TabulateOptions { max_col_widths: Some(widths), ..self }),
    {
        TabulateOptions { max_col_widths: Some(widths), ..self }
    }

    /// Set the same maximum width for all columns.
    pub fn max_col_width(self, width: usize) -> (r: Self)
        ensures
            r.max_col_widths matches Some(w) && w@ == seq![Some(width)],
            r == (TabulateOptions { max_col_widths: r.max_col_widths, ..self }),
    {
        let mut widths: Vec<Option<usize>> = Vec::new();
        widths.push(Some(width));
        proof {
            assert(widths@ =~= seq![Some(width)]);
        }
        TabulateOptions { max_col_widths: Some(widths), ..self }
    }

    /// Set per-column maximum header widths. Use `None` for unlimited
    /// columns.
    pub fn max_header_col_widths(self, widths: Vec<Option<usize>>) -> (r: Self)
        ensures
            r == (TabulateOptions { max_header_col_widths: Some(widths), ..self }),
    {
        TabulateOptions { max_header_col_widths: Some(widths), ..self }
    }

    /// Set the same maximum width for all header columns.
    pub fn max_header_col_width(self, width: usize) -> (r: Self)
        ensures
            r.max_header_col_widths matches Some(w) && w@ == seq![Some(width)],
            r == (TabulateOptions { max_header_col_widths: r.max_header_col_widths, ..self }),
    {
        let mut widths: Vec<Option<usize>> = Vec::new();
        widths.push(Some(width));
        proof {
            assert(widths@ =~= seq![Some(width)]);
        }
        TabulateOptions { max_header_col_widths: Some(widths), ..self }
    }

    /// Provide a mapping from column keys to display headers.
    pub fn headers_mapping(self, mapping: Vec<(String, String)>) -> (r: Self)
        ensures
            r == (TabulateOptions { headers: Headers::Mapping(mapping), ..self }),
    {
        TabulateOptions { headers: Headers::Mapping(mapping), ..self }
    }

    /// Provide per-column alignment overrides.
    pub fn col_alignments(self, aligns: Vec<Option<Alignment>>) -> (r: Self)
        ensures
            r == (TabulateOptions { col_align: aligns, ..self }),
    {
        TabulateOptions { col_align: aligns, ..self }
    }

    /// Override alignment for all headers.
    pub fn headers_global_align(self, align: Alignment) -> (r: Self)
        ensures
            r == (TabulateOptions { headers_global_align: Some(align), ..self }),
    {
        TabulateOptions { headers_global_align: Some(align), ..self }
    }

    /// Provide per-header alignment overrides.
    pub fn headers_alignments(self, aligns: Vec<Option<HeaderAlignment>>) -> (r: Self)
        ensures
            r == (TabulateOptions { headers_align: aligns, ..self }),
    {
        TabulateOptions { headers_align: aligns, ..self }
    }

    /// Override the default alignment for all data rows.
    pub fn row_global_align(self, align: RowAlignment) -> (r: Self)
        ensures
            r == (TabulateOptions { row_global_align: Some(align), ..self }),
    {
        TabulateOptions { row_global_align: Some(align), ..self }
    }

    /// Provide per-row alignment overrides.
    pub fn row_alignments(self, aligns: Vec<Option<RowAlignment>>) -> (r: Self)
        ensures
            r == (TabulateOptions { row_align: aligns, ..self }),
    {
        TabulateOptions { row_align: aligns, ..self }
    }

    /// The chosen format name, when the format is chosen by name.
    pub fn table_format_name(&self) -> (r: Option<&str>)
        ensures
            match r {
                Some(n) => self.table_format matches TableFormatChoice::Name(m) && m@ == n@,
                None => self.table_format is Custom,
            },
    {
        match &self.table_format {
            TableFormatChoice::Name(name) => Some(name.as_str()),
            TableFormatChoice::Custom(_) => None,
        }
    }
}

} // verus!
