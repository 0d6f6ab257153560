//! The error taxonomy: a closed union over spreadsheet-parsing failures and
//! database failures, with uniform message rendering.
//!
//! Each variant carries the lower-level failure as plain text, handed in by
//! the caller that performed the file or database operation. The structured
//! "table does not exist" condition keeps its own variant so callers can
//! inspect it; it renders with a fixed sentinel code and state.

use vstd::prelude::*;

verus! {

/// The sentinel error code reported when a target table does not exist.
pub const TABLE_MISSING_CODE: u16 = 99;

/// A spreadsheet-side failure: the workbook could not be opened or decoded,
/// a sheet's range was malformed, or one row did not deserialize.
#[derive(Debug, Clone, PartialEq)]
pub enum ParseError {
    Workbook(String),
    Range(String),
    Row(String),
}

/// A database-side failure: the server reported an error, or the target
/// table does not exist.
#[derive(Debug, Clone, PartialEq)]
pub enum ImportError {
    Database(String),
    TableMissing(String),
}

/// The union of the two failure sources, as surfaced per table.
#[derive(Debug, Clone, PartialEq)]
pub enum Error {
    Parse(ParseError),
    Import(ImportError),
}

/// The rendered text of a parse failure: the wrapped lower-level text.
pub open spec fn parse_message_spec(e: ParseError) -> Seq<char> {
    match e {
        ParseError::Workbook(d) => d@,
        ParseError::Range(d) => d@,
        ParseError::Row(d) => d@,
    }
}

/// The rendered text of a missing-table failure for the given table name.
pub open spec fn table_missing_message_spec(name: Seq<char>) -> Seq<char> {
    "Table '"@ + name + "' doesn't exist"@
}

/// The rendered text of a database failure.
pub open spec fn import_message_spec(e: ImportError) -> Seq<char> {
    match e {
        ImportError::Database(d) => d@,
        ImportError::TableMissing(name) => table_missing_message_spec(name@),
    }
}

/// The rendered text of either failure kind.
pub open spec fn error_message_spec(e: Error) -> Seq<char> {
    match e {
        Error::Parse(p) => parse_message_spec(p),
        Error::Import(i) => import_message_spec(i),
    }
}

impl ParseError {
    /// Renders the failure for display.
    pub fn message(&self) -> (r: String)
        ensures
            r@ == parse_message_spec(*self),
    {
        match self {
            ParseError::Workbook(d) => d.clone(),
            ParseError::Range(d) => d.clone(),
            ParseError::Row(d) => d.clone(),
        }
    }
}

impl ImportError {
    /// The structured "table does not exist" condition for the given name.
    pub fn table_missing(name: &str) -> (r: ImportError)
        ensures
            r matches ImportError::TableMissing(n) && n@ == name@,
            import_message_spec(r) == table_missing_message_spec(name@),
    {
        ImportError::TableMissing(String::from_str(name))
    }

    /// Renders the failure for display.
    pub fn message(&self) -> (r: String)
        ensures
            r@ == import_message_spec(*self),
    {
        match self {
            ImportError::Database(d) => d.clone(),
            ImportError::TableMissing(name) => {
                let mut r = String::from_str("Table '");
                r.append(name.as_str());
                r.append("' doesn't exist");
                r
            },
        }
    }

    /// The sentinel code carried by the missing-table condition; database
    /// failures carry no code of their own here.
    pub fn code(&self) -> (r: Option<u16>)
        ensures
            r == match *self {
                ImportError::TableMissing(_) => Some(TABLE_MISSING_CODE),
                ImportError::Database(_) => None::<u16>,
            },
    {
        match self {
            ImportError::TableMissing(_) => Some(TABLE_MISSING_CODE),
            ImportError::Database(_) => None,
        }
    }
}

impl Error {
    /// Renders the failure for display.
    pub fn message(&self) -> (r: String)
        ensures
            r@ == error_message_spec(*self),
    {
        match self {
            Error::Parse(p) => p.message(),
            Error::Import(i) => i.message(),
        }
    }
}

impl From<ParseError> for Error {
    fn from(e: ParseError) -> (r: Error) {
        Error::Parse(e)
    }
}

impl vstd::std_specs::convert::FromSpecImpl<ParseError> for Error {
    open spec fn obeys_from_spec() -> bool {
        true
    }

    open spec fn from_spec(e: ParseError) -> Error {
        Error::Parse(e)
    }
}

impl From<ImportError> for Error {
    fn from(e: ImportError) -> (r: Error) {
        Error::Import(e)
    }
}

impl vstd::std_specs::convert::FromSpecImpl<ImportError> for Error {
    open spec fn obeys_from_spec() -> bool {
        true
    }

    open spec fn from_spec(e: ImportError) -> Error {
        Error::Import(e)
    }
}

} // verus!
