//! The single error type every fallible operation of the engine returns.

use vstd::prelude::*;
use vstd::string::StringExecFns;

verus! {

/// What went wrong, with a human-readable description.
#[derive(Debug, PartialEq)]
pub enum ErrorType {
    /// The table could not be read or written.
    InvalidTable(String),
    /// A row or a column list does not fit the table.
    InvalidColumn(String),
    /// The statement is not well formed.
    InvalidSyntax(String),
    /// Any other storage failure.
    Error(String),
}

/// The mathematical value of an [`ErrorType`]: its kind and its description.
pub enum Failure {
    InvalidTable(Seq<char>),
    InvalidColumn(Seq<char>),
    InvalidSyntax(Seq<char>),
    Error(Seq<char>),
}

impl View for ErrorType {
    type V = Failure;

    open spec fn view(&self) -> Failure {
        match self {
            ErrorType::InvalidTable(d) => Failure::InvalidTable(d@),
            ErrorType::InvalidColumn(d) => Failure::InvalidColumn(d@),
            ErrorType::InvalidSyntax(d) => Failure::InvalidSyntax(d@),
            ErrorType::Error(d) => Failure::Error(d@),
        }
    }
}

impl Failure {
    /// The description carried by the failure.
    pub open spec fn descripcion(self) -> Seq<char> {
        match self {
            Failure::InvalidTable(d) => d,
            Failure::InvalidColumn(d) => d,
            Failure::InvalidSyntax(d) => d,
            Failure::Error(d) => d,
        }
    }

    /// The tag that is printed in front of the description.
    pub open spec fn etiqueta(self) -> Seq<char> {
        match self {
            Failure::InvalidTable(_) => "[INVALID_TABLE]: "@,
            Failure::InvalidColumn(_) => "[INVALID_COLUMN]: "@,
            Failure::InvalidSyntax(_) => "[INVALID_SYNTAX]: "@,
            Failure::Error(_) => "[ERROR]: "@,
        }
    }

    /// The printed form: the tag followed by the description.
    pub open spec fn texto(self) -> Seq<char> {
        self.etiqueta() + self.descripcion()
    }
}

impl ErrorType {
    /// The printed form of the error.
    pub fn to_string(&self) -> (r: String)
        ensures
            r@ == self@.texto(),
    {
        match self {
            ErrorType::InvalidTable(d) => String::from_str("[INVALID_TABLE]: ").concat(d.as_str()),
            ErrorType::InvalidColumn(d) => String::from_str("[INVALID_COLUMN]: ").concat(
                d.as_str(),
            ),
            ErrorType::InvalidSyntax(d) => String::from_str("[INVALID_SYNTAX]: ").concat(
                d.as_str(),
            ),
            ErrorType::Error(d) => String::from_str("[ERROR]: ").concat(d.as_str()),
        }
    }
}

/// A syntax error with the given description.
pub fn error_sintaxis(descripcion: &str) -> (e: ErrorType)
    ensures
        e@ == Failure::InvalidSyntax(descripcion@),
{
    ErrorType::InvalidSyntax(String::from_str(descripcion))
}

/// A column error with the given description.
pub fn error_columna(descripcion: &str) -> (e: ErrorType)
    ensures
        e@ == Failure::InvalidColumn(descripcion@),
{
    ErrorType::InvalidColumn(String::from_str(descripcion))
}

} // verus!
