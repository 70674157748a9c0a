//! The failures that a validation can end in.

use vstd::prelude::*;
use vstd::string::StringExecFns;

verus! {

/// Why a validation could not come to a verdict.
#[derive(Debug)]
pub enum Error {
    /// The operator is in the table, but the table gives it no target.
    UnsupportedOperator(String),
    /// The operator at the head of an application is not in the table.
    UnknownOperator(String),
    /// A constant with a bad escape sequence, or of a kind that is not translated.
    MalformedConstant(String),
    /// A term shape that is not translated: a binder, a match, an attributed
    /// term, an indexed identifier, or the folding of a right-associative operator.
    UnsupportedConstruct(String),
    /// The operator table defines one operator in two different ways.
    InvalidSpec(String),
    /// The script parser rejected the input; the text is the parser's own message.
    ParseError(String),
    /// The proof kernel could not be reached or answered out of protocol.
    OracleTransportError(String),
    /// The proof kernel failed without a diagnostic that is recognised.
    OracleTerminalFailure(String),
}

/// The model of an [`Error`]: its kind and the text it carries.
pub enum ErrorView {
    UnsupportedOperator(Seq<char>),
    UnknownOperator(Seq<char>),
    MalformedConstant(Seq<char>),
    UnsupportedConstruct(Seq<char>),
    InvalidSpec(Seq<char>),
    ParseError(Seq<char>),
    OracleTransportError(Seq<char>),
    OracleTerminalFailure(Seq<char>),
}

impl View for Error {
    type V = ErrorView;

    open spec fn view(&self) -> ErrorView {
        match self {
            Error::UnsupportedOperator(s) => ErrorView::UnsupportedOperator(s@),
            Error::UnknownOperator(s) => ErrorView::UnknownOperator(s@),
            Error::MalformedConstant(s) => ErrorView::MalformedConstant(s@),
            Error::UnsupportedConstruct(s) => ErrorView::UnsupportedConstruct(s@),
            Error::InvalidSpec(s) => ErrorView::InvalidSpec(s@),
            Error::ParseError(s) => ErrorView::ParseError(s@),
            Error::OracleTransportError(s) => ErrorView::OracleTransportError(s@),
            Error::OracleTerminalFailure(s) => ErrorView::OracleTerminalFailure(s@),
        }
    }
}

/// The heading under which an error of the given kind is reported; the
/// carried text, if any, follows it.
pub open spec fn heading(e: ErrorView) -> Seq<char> {
    match e {
        ErrorView::UnsupportedOperator(_) => "Unsupported SMT-LIB function: "@,
        ErrorView::UnknownOperator(_) => "Unknown SMT-LIB function: "@,
        ErrorView::MalformedConstant(_) => "Malformed constant: "@,
        ErrorView::UnsupportedConstruct(_) => "Unsupported construct: "@,
        ErrorView::InvalidSpec(_) => "Error: "@,
        ErrorView::ParseError(_) => "Parse error: "@,
        ErrorView::OracleTransportError(_) => "Isabelle could not be reached: "@,
        ErrorView::OracleTerminalFailure(_) => "Isabelle failed to check proof: "@,
    }
}

/// The text that an error carries.
pub open spec fn detail(e: ErrorView) -> Seq<char> {
    match e {
        ErrorView::UnsupportedOperator(s) => s,
        ErrorView::UnknownOperator(s) => s,
        ErrorView::MalformedConstant(s) => s,
        ErrorView::UnsupportedConstruct(s) => s,
        ErrorView::InvalidSpec(s) => s,
        ErrorView::ParseError(s) => s,
        ErrorView::OracleTransportError(s) => s,
        ErrorView::OracleTerminalFailure(s) => s,
    }
}

/// Whether a result is the expected one: the same text, or the same failure.
pub open spec fn agrees(r: Result<String, Error>, expected: Result<Seq<char>, ErrorView>) -> bool {
    match (r, expected) {
        (Ok(s), Ok(t)) => s@ == t,
        (Err(e), Err(f)) => e@ == f,
        _ => false,
    }
}

impl Error {
    /// The message for the user: the heading of the error's kind, then the
    /// text that the error carries.
    pub fn to_string(&self) -> (text: String)
        ensures
            text@ == heading(self@) + detail(self@),
    {
        match self {
            Error::UnsupportedOperator(s) => "Unsupported SMT-LIB function: ".to_owned().concat(
                s.as_str(),
            ),
            Error::UnknownOperator(s) => "Unknown SMT-LIB function: ".to_owned().concat(
                s.as_str(),
            ),
            Error::MalformedConstant(s) => "Malformed constant: ".to_owned().concat(s.as_str()),
            Error::UnsupportedConstruct(s) => "Unsupported construct: ".to_owned().concat(
                s.as_str(),
            ),
            Error::InvalidSpec(s) => "Error: ".to_owned().concat(s.as_str()),
            Error::ParseError(s) => "Parse error: ".to_owned().concat(s.as_str()),
            Error::OracleTransportError(s) => "Isabelle could not be reached: ".to_owned().concat(
                s.as_str(),
            ),
            Error::OracleTerminalFailure(s) => "Isabelle failed to check proof: ".to_owned().concat(
                s.as_str(),
            ),
        }
    }
}

} // verus!
