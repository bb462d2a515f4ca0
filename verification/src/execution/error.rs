//! The unified error taxonomy of the engine, spanning I/O, parsing, planning,
//! evaluation, and columnar-layer failures.

use vstd::prelude::*;

verus! {

/// Declares sqlparser's error type so it can ride inside [`ExecutionError`].
#[verifier::external_type_specification]
#[verifier::external_body]
pub struct ExParserError(sqlparser::parser::ParserError);

/// Declares arrow's error type so it can ride inside [`ExecutionError`].
#[verifier::external_type_specification]
#[verifier::external_body]
pub struct ExArrowError(arrow::error::ArrowError);

/// Declares std's I/O error type so it can ride inside [`ExecutionError`].
#[verifier::external_type_specification]
#[verifier::external_body]
pub struct ExIoError(std::io::Error);

/// Every failure a fallible engine operation can surface.
#[derive(Debug)]
pub enum ExecutionError {
    /// An underlying read or open failed.
    IoError(std::io::Error),
    /// The SQL text could not be parsed; carries the parser diagnostic.
    ParserError(sqlparser::parser::ParserError),
    /// A general failure described by a message.
    General(String),
    /// A column reference did not resolve; carries the offending name.
    InvalidColumn(String),
    /// A statement shape the planner does not lower yet.
    NotImplemented(String),
    /// An invariant violation inside the engine or a contract violation by a
    /// data source.
    InternalError(String),
    /// A failure propagated from the columnar-array layer.
    ArrowError(arrow::error::ArrowError),
    /// A failure while executing an operator.
    ExecutionError(String),
    /// A registration under a name that is already bound; carries the name.
    DuplicateName(String),
}

impl From<std::io::Error> for ExecutionError {
    fn from(e: std::io::Error) -> (r: Self)
        ensures
            r == ExecutionError::IoError(e),
    {
        ExecutionError::IoError(e)
    }
}

impl vstd::std_specs::convert::FromSpecImpl<std::io::Error> for ExecutionError {
    open spec fn obeys_from_spec() -> bool {
        true
    }

    open spec fn from_spec(e: std::io::Error) -> Self {
        ExecutionError::IoError(e)
    }
}

impl From<String> for ExecutionError {
    fn from(e: String) -> (r: Self)
        ensures
            r == ExecutionError::General(e),
    {
        ExecutionError::General(e)
    }
}

impl vstd::std_specs::convert::FromSpecImpl<String> for ExecutionError {
    open spec fn obeys_from_spec() -> bool {
        true
    }

    open spec fn from_spec(e: String) -> Self {
        ExecutionError::General(e)
    }
}

impl From<&'static str> for ExecutionError {
    fn from(e: &'static str) -> (r: Self)
        ensures
            r matches ExecutionError::General(s) && s@ == e@,
    {
        ExecutionError::General(e.to_owned())
    }
}

impl vstd::std_specs::convert::FromSpecImpl<&'static str> for ExecutionError {
    open spec fn obeys_from_spec() -> bool {
        false
    }

    open spec fn from_spec(e: &'static str) -> Self {
        ExecutionError::General(arbitrary())
    }
}

impl From<arrow::error::ArrowError> for ExecutionError {
    fn from(e: arrow::error::ArrowError) -> (r: Self)
        ensures
            r == ExecutionError::ArrowError(e),
    {
        ExecutionError::ArrowError(e)
    }
}

impl vstd::std_specs::convert::FromSpecImpl<arrow::error::ArrowError> for ExecutionError {
    open spec fn obeys_from_spec() -> bool {
        true
    }

    open spec fn from_spec(e: arrow::error::ArrowError) -> Self {
        ExecutionError::ArrowError(e)
    }
}

impl From<sqlparser::parser::ParserError> for ExecutionError {
    fn from(e: sqlparser::parser::ParserError) -> (r: Self)
        ensures
            r == ExecutionError::ParserError(e),
    {
        ExecutionError::ParserError(e)
    }
}

impl vstd::std_specs::convert::FromSpecImpl<sqlparser::parser::ParserError> for ExecutionError {
    open spec fn obeys_from_spec() -> bool {
        true
    }

    open spec fn from_spec(e: sqlparser::parser::ParserError) -> Self {
        ExecutionError::ParserError(e)
    }
}

/// The result type every fallible engine operation returns.
pub type Result<T> = core::result::Result<T, ExecutionError>;

} // verus!
