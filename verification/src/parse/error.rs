//! What can go wrong while a source file is read.
use crate::parse::classic::Identifier;
use crate::parse::IntErrorKind;
use crate::parse::numbers::{decimal, decimal_text, hex, hex_text, pad_zeros, zero_padded};
use vstd::prelude::*;
use vstd::std_specs::convert::FromSpecImpl;
use vstd::string::StringExecFns;

verus! {

/// An error, with the place in the source that it came up at.
#[derive(Debug, Clone)]
pub enum Error {
    /// A file could not be read; the message says why.
    IoError(String),
    OldTfError { fname: String, line: usize, error: OldTfError },
}

/// What is wrong with a statement.
#[derive(Debug, Clone)]
pub enum OldTfError {
    InvalidIdentifier(String),
    InvalidDirective(Identifier),
    InvalidStrPrefix(String),
    IntOutOfRange,
    SyntaxError,
    MissingRequiredDirective(&'static str),
    IncludedDirective,
    UndefinedConstant(Identifier),
    InvalidOpType,
    InvalidArg0Type,
    OOBArg0(i32),
}

/// What an [`OldTfError`] holds.
pub ghost enum Fault {
    InvalidIdentifier(Seq<char>),
    InvalidDirective(Seq<char>),
    InvalidStrPrefix(Seq<char>),
    IntOutOfRange,
    SyntaxError,
    MissingRequiredDirective(Seq<char>),
    IncludedDirective,
    UndefinedConstant(Seq<char>),
    InvalidOpType,
    InvalidArg0Type,
    OOBArg0(i32),
}

/// What an [`Error`] holds.
pub ghost enum Failure {
    IoError(Seq<char>),
    OldTfError { fname: Seq<char>, line: usize, error: Fault },
}

impl View for OldTfError {
    type V = Fault;

    open spec fn view(&self) -> Fault {
        match self {
            OldTfError::InvalidIdentifier(name) => Fault::InvalidIdentifier(name@),
            OldTfError::InvalidDirective(name) => Fault::InvalidDirective(name@),
            OldTfError::InvalidStrPrefix(prefix) => Fault::InvalidStrPrefix(prefix@),
            OldTfError::IntOutOfRange => Fault::IntOutOfRange,
            OldTfError::SyntaxError => Fault::SyntaxError,
            OldTfError::MissingRequiredDirective(name) => Fault::MissingRequiredDirective(name@),
            OldTfError::IncludedDirective => Fault::IncludedDirective,
            OldTfError::UndefinedConstant(name) => Fault::UndefinedConstant(name@),
            OldTfError::InvalidOpType => Fault::InvalidOpType,
            OldTfError::InvalidArg0Type => Fault::InvalidArg0Type,
            OldTfError::OOBArg0(value) => Fault::OOBArg0(*value),
        }
    }
}

impl View for Error {
    type V = Failure;

    open spec fn view(&self) -> Failure {
        match self {
            Error::IoError(message) => Failure::IoError(message@),
            Error::OldTfError { fname, line, error } => Failure::OldTfError {
                fname: fname@,
                line: *line,
                error: error@,
            },
        }
    }
}

impl OldTfError {
    /// The error with the file and the line that it came up at.
    pub fn with_ctx(self, fname: &str, line_num: usize) -> (error: Error)
        ensures
            error@ == (Failure::OldTfError { fname: fname@, line: line_num, error: self@ }),
    {
        Error::OldTfError { error: self, fname: fname.to_owned(), line: line_num }
    }
}

/// What is wrong with a statement, in words.
pub open spec fn fault_text(fault: Fault) -> Seq<char> {
    match fault {
        Fault::InvalidIdentifier(name) => "invalid identifier name \""@ + name + "\""@,
        Fault::InvalidDirective(name) => "unknown directive \"#"@ + name + "\""@,
        Fault::InvalidStrPrefix(prefix) => "invalid string prefix "@ + prefix + "\"\""@,
        Fault::IntOutOfRange => "number out of range (0x00000000-0xFFFFFFFF)"@,
        Fault::SyntaxError => "syntax error"@,
        Fault::MissingRequiredDirective(name) => "missing required directive \"#"@ + name + "\""@,
        Fault::IncludedDirective => "included files cannot have #index, #start, or #assets directives"@,
        Fault::UndefinedConstant(name) => "undefined constant \""@ + name + "\""@,
        Fault::InvalidOpType => "operations can only be applied to integers"@,
        Fault::InvalidArg0Type => "arg0 of any command must be an integer"@,
        Fault::OOBArg0(value) => "arg0 value "@ + zero_padded(hex_text(value), 5)
            + " is out of range (must be 18 bits at most)"@,
    }
}

/// An error in words, with the place that it came up at.
pub open spec fn failure_text(failure: Failure) -> Seq<char> {
    match failure {
        Failure::IoError(message) => "file IO error: "@ + message,
        Failure::OldTfError { fname, line, error } => "tickflow error on "@ + fname + ":"@
            + decimal_text(line as int) + " - "@ + fault_text(error),
    }
}

impl OldTfError {
    /// The error in words.
    pub fn to_string(&self) -> (text: String)
        ensures
            text@ == fault_text(self@),
    {
        match self {
            OldTfError::InvalidIdentifier(name) => {
                let mut text = String::from_str("invalid identifier name \"");
                text.append(name.as_str());
                text.append("\"");
                text
            },
            OldTfError::InvalidDirective(name) => {
                let mut text = String::from_str("unknown directive \"#");
                text.append(name.as_str());
                text.append("\"");
                text
            },
            OldTfError::InvalidStrPrefix(prefix) => {
                let mut text = String::from_str("invalid string prefix ");
                text.append(prefix.as_str());
                text.append("\"\"");
                text
            },
            OldTfError::IntOutOfRange => String::from_str(
                "number out of range (0x00000000-0xFFFFFFFF)",
            ),
            OldTfError::SyntaxError => String::from_str("syntax error"),
            OldTfError::MissingRequiredDirective(name) => {
                let mut text = String::from_str("missing required directive \"#");
                text.append(name);
                text.append("\"");
                text
            },
            OldTfError::IncludedDirective => String::from_str(
                "included files cannot have #index, #start, or #assets directives",
            ),
            OldTfError::UndefinedConstant(name) => {
                let mut text = String::from_str("undefined constant \"");
                text.append(name.as_str());
                text.append("\"");
                text
            },
            OldTfError::InvalidOpType => String::from_str(
                "operations can only be applied to integers",
            ),
            OldTfError::InvalidArg0Type => String::from_str(
                "arg0 of any command must be an integer",
            ),
            OldTfError::OOBArg0(value) => {
                let mut text = String::from_str("arg0 value ");
                text.append(pad_zeros(hex(*value).as_str(), 5).as_str());
                text.append(" is out of range (must be 18 bits at most)");
                text
            },
        }
    }
}

impl Error {
    /// The error in words.
    pub fn to_string(&self) -> (text: String)
        ensures
            text@ == failure_text(self@),
    {
        match self {
            Error::IoError(message) => {
                let mut text = String::from_str("file IO error: ");
                text.append(message.as_str());
                text
            },
            Error::OldTfError { fname, line, error } => {
                let mut text = String::from_str("tickflow error on ");
                text.append(fname.as_str());
                text.append(":");
                text.append(decimal_usize(*line).as_str());
                text.append(" - ");
                text.append(error.to_string().as_str());
                text
            },
        }
    }
}

/// The number of a line in decimal.
fn decimal_usize(value: usize) -> (text: String)
    ensures
        text@ == decimal_text(value as int),
{
    let mut text = String::new();
    crate::parse::numbers::push_digits(&mut text, value as u64, 10);
    assert(text@ =~= decimal_text(value as int));
    text
}

impl From<IntErrorKind> for OldTfError {
    fn from(kind: IntErrorKind) -> (made: Self) {
        Self::IntOutOfRange
    }
}

impl FromSpecImpl<IntErrorKind> for OldTfError {
    open spec fn obeys_from_spec() -> bool {
        true
    }

    open spec fn from_spec(kind: IntErrorKind) -> Self {
        OldTfError::IntOutOfRange
    }
}

} // verus!
