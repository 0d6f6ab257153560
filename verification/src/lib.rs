//! Migrates tabular data from a spreadsheet workbook into a relational
//! database: sheets become tables, the header row becomes the column list,
//! and the remaining rows become INSERT statements.
//!
//! The library holds the whole translation pipeline on plain values: cell
//! values, table models, SQL statement text, and the per-table import state
//! machine. Opening workbook files and talking to the database server are
//! I/O and stay with the caller, which feeds the results back in as plain
//! values.

pub mod error;
pub mod import;
pub mod sql;
pub mod table;
pub mod text;
pub mod workbook;

pub use error::Error;
pub use error::ImportError;
pub use error::ParseError;
pub use import::ImportJob;
pub use import::Opts;
pub use table::CellValue;
pub use table::Table;
pub use text::sanitize_table_name;
pub use workbook::Sheet;
