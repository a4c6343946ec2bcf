//! Render tabular data as formatted text.
//!
//! The crate normalizes raw rows into a rectangular grid, classifies cells as
//! integers, floats or text, wraps and pads cell content under width caps, and
//! assembles the final text from a pluggable table format description.

mod alignment;
mod chars;
mod fmtnum;
mod format;
pub mod laws;
mod normalize;
mod numeric;
mod options;
mod table;
mod width;
mod wrap;

pub use alignment::{align_cell, Alignment, DecimalLayout};
pub use chars::str_eq;
pub use fmtnum::{format_float_cell, int_format_cell, parse_float_format, parse_int_format};
pub use format::{
    simple_separated_format, table_format, tabulate_formats, DataRow, Line, LineFormat, RowFormat,
    TableFormat,
};
pub use normalize::{apply_index, missing_value_for, pad_rows, resolve_header};
pub use numeric::{check_float, check_int, classify, CellKind};
pub use options::{
    FormatSpec, HeaderAlignment, Headers, MissingValues, RowAlignment, ShowIndex, TableFormatChoice,
    TabulateOptions,
};
pub use table::{
    cap_at, cell_width_of, col_align_for, column_kind, data_col_width, decimal_layout_for,
    header_align_for, render_table, row_align_for, tabulate, valign_row, wrap_column,
    TabulateError,
};
pub use width::{multiline_widths, strip_ansi, visible_width};
pub use wrap::{wrap_line, wrap_text};
