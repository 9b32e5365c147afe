//! Errors of the library.

use vstd::prelude::*;

verus! {

/// Why an export step failed.
#[derive(Debug, PartialEq, Eq)]
pub enum Error {
    /// The database layer failed; holds the driver's message.
    DatabaseError(String),
    /// The catalog reported a column type that has no data kind.
    UnknownDataType(String),
    /// A requested column is not a column of the table.
    UnknownColumn(String),
}

/// The text that describes an error to a user.
pub open spec fn error_text(e: Error) -> Seq<char> {
    match e {
        Error::DatabaseError(m) => "Database error: "@ + m@,
        Error::UnknownDataType(t) => "Unknown data type: "@ + t@,
        Error::UnknownColumn(c) => "Unknown column: "@ + c@,
    }
}

impl Error {
    /// Describes the error, naming what it is about.
    pub fn message(&self) -> (r: String)
        ensures
            r@ == error_text(*self),
    {
        let (prefix, detail) = match self {
            Error::DatabaseError(m) => ("Database error: ", m),
            Error::UnknownDataType(t) => ("Unknown data type: ", t),
            Error::UnknownColumn(c) => ("Unknown column: ", c),
        };
        let mut text = String::from_str(prefix);
        text.append(detail.as_str());
        proof {
            reveal_strlit("Database error: ");
            reveal_strlit("Unknown data type: ");
            reveal_strlit("Unknown column: ");
        }
        text
    }
}

} // verus!
