//! The errors that the codecs and conversions report.

use crate::decimal::{decimal, push_decimal};
use crate::strings::{chars_to_string, push_str};
use vstd::prelude::*;

verus! {

/// Every failure of the library is one of these kinds.
#[allow(inconsistent_fields)]
#[derive(Debug, Clone, PartialEq, Eq)]
pub enum ParseError {
    /// Reading or writing the underlying stream failed. `err_source` is the
    /// text of the underlying failure.
    IOError { err_source: String, description: String },
    /// The input holds more bytes than the byte ceiling allows.
    SizeLimitExceeded { actual: usize, limit: usize },
    /// A named field is absent from a field map, or its text does not parse.
    IncorrectField { key: String },
    /// The input breaks the structure of its format at the given place.
    ParseError { message: String, line: usize, column: usize },
    /// A binary frame could not be decoded.
    ParseBinaryError { message: String },
    /// The input is well-formed but holds no record.
    EmptyData,
    /// The data is of another format than the one declared.
    InvalidFormat { expected: String, got: String, err_source: Option<String> },
    /// A number does not fit into the type it is converted to.
    OverflowSize { from: String, to: String, description: String },
    /// The format tag names no supported format.
    UnsupportedFormat { invalid_format: String },
}

/// The mathematical value of a [`ParseError`]: texts are character sequences.
#[allow(inconsistent_fields)]
pub ghost enum ParseErrorView {
    IOError { err_source: Seq<char>, description: Seq<char> },
    SizeLimitExceeded { actual: usize, limit: usize },
    IncorrectField { key: Seq<char> },
    ParseError { message: Seq<char>, line: usize, column: usize },
    ParseBinaryError { message: Seq<char> },
    EmptyData,
    InvalidFormat { expected: Seq<char>, got: Seq<char>, err_source: Option<Seq<char>> },
    OverflowSize { from: Seq<char>, to: Seq<char>, description: Seq<char> },
    UnsupportedFormat { invalid_format: Seq<char> },
}

impl View for ParseError {
    type V = ParseErrorView;

    open spec fn view(&self) -> ParseErrorView {
        match self {
            ParseError::IOError { err_source, description } => ParseErrorView::IOError {
                err_source: err_source@,
                description: description@,
            },
            ParseError::SizeLimitExceeded { actual, limit } => ParseErrorView::SizeLimitExceeded {
                actual: *actual,
                limit: *limit,
            },
            ParseError::IncorrectField { key } => ParseErrorView::IncorrectField { key: key@ },
            ParseError::ParseError { message, line, column } => ParseErrorView::ParseError {
                message: message@,
                line: *line,
                column: *column,
            },
            ParseError::ParseBinaryError { message } => ParseErrorView::ParseBinaryError {
                message: message@,
            },
            ParseError::EmptyData => ParseErrorView::EmptyData,
            ParseError::InvalidFormat { expected, got, err_source } => ParseErrorView::InvalidFormat {
                expected: expected@,
                got: got@,
                err_source: match err_source {
                    Some(e) => Some(e@),
                    None => None,
                },
            },
            ParseError::OverflowSize { from, to, description } => ParseErrorView::OverflowSize {
                from: from@,
                to: to@,
                description: description@,
            },
            ParseError::UnsupportedFormat { invalid_format } => ParseErrorView::UnsupportedFormat {
                invalid_format: invalid_format@,
            },
        }
    }
}

/// The description of an overflow: which value left the range of which type.
pub open spec fn overflow_description(value: Seq<char>, to_type: Seq<char>) -> Seq<char> {
    "value "@ + value + " is out of range for type "@ + to_type
}

impl ParseErrorView {
    /// The text that a user is shown for the error.
    pub open spec fn text(self) -> Seq<char> {
        match self {
            ParseErrorView::IOError { err_source, description } => "read/write error: "@
                + description,
            ParseErrorView::SizeLimitExceeded { actual, limit } => "size limit exceeded: "@
                + decimal(actual as nat) + " bytes, the limit is "@ + decimal(limit as nat),
            ParseErrorView::IncorrectField { key } => "missing or malformed field: "@ + key,
            ParseErrorView::ParseError { message, line, column } => "parse error (line "@
                + decimal(line as nat) + ", column "@ + decimal(column as nat) + "): "@ + message,
            ParseErrorView::ParseBinaryError { message } => "binary decode error: "@ + message,
            ParseErrorView::EmptyData => "the input holds no records"@,
            ParseErrorView::InvalidFormat { expected, got, err_source } => "invalid format: expected "@
                + expected + ", found "@ + got,
            ParseErrorView::OverflowSize { from, to, description } => "overflow: "@ + from
                + " cannot be converted to "@ + to + ": "@ + description,
            ParseErrorView::UnsupportedFormat { invalid_format } => "unsupported format: "@
                + invalid_format,
        }
    }
}

impl ParseError {
    /// An [`ParseError::IOError`] with the text of the underlying failure and
    /// a description of what was attempted.
    pub fn io_error(err_source: &str, description: &str) -> (e: Self)
        ensures
            e@ == (ParseErrorView::IOError { err_source: err_source@, description: description@ }),
    {
        ParseError::IOError {
            err_source: err_source.to_owned(),
            description: description.to_owned(),
        }
    }

    /// A [`ParseError::ParseError`] at the given line and column.
    pub fn parse_error(message: &str, line: usize, column: usize) -> (e: Self)
        ensures
            e@ == (ParseErrorView::ParseError { message: message@, line, column }),
    {
        ParseError::ParseError {
            message: message.to_owned(),
            line,
            column,
        }
    }

    /// A [`ParseError::ParseBinaryError`] with the given message.
    pub fn parse_bin_error(message: &str) -> (e: Self)
        ensures
            e@ == (ParseErrorView::ParseBinaryError { message: message@ }),
    {
        ParseError::ParseBinaryError { message: message.to_owned() }
    }

    /// An [`ParseError::OverflowSize`] for a `value` of type `from_type` that
    /// does not fit into `to_type`.
    pub fn over_flow_size(from_type: &str, to_type: &str, value: &str) -> (e: Self)
        ensures
            e@ == (ParseErrorView::OverflowSize {
                from: from_type@,
                to: to_type@,
                description: overflow_description(value@, to_type@),
            }),
    {
        let mut description: Vec<char> = Vec::new();
        push_str(&mut description, "value ");
        push_str(&mut description, value);
        push_str(&mut description, " is out of range for type ");
        push_str(&mut description, to_type);
        ParseError::OverflowSize {
            from: from_type.to_owned(),
            to: to_type.to_owned(),
            description: chars_to_string(description.as_slice()),
        }
    }

    /// An [`ParseError::InvalidFormat`]: `expected` was declared, `got` was
    /// found, with the text of the cause where there is one.
    pub fn invalid_format(expected: &str, got: &str, err_source: Option<String>) -> (e: Self)
        ensures
            e@ == (ParseErrorView::InvalidFormat {
                expected: expected@,
                got: got@,
                err_source: match err_source {
                    Some(c) => Some(c@),
                    None => None,
                },
            }),
    {
        ParseError::InvalidFormat {
            expected: expected.to_owned(),
            got: got.to_owned(),
            err_source,
        }
    }

    /// The text that a user is shown for the error.
    pub fn to_string(&self) -> (s: String)
        ensures
            s@ == self@.text(),
    {
        let mut out: Vec<char> = Vec::new();
        match self {
            ParseError::IOError { err_source, description } => {
                push_str(&mut out, "read/write error: ");
                push_str(&mut out, description.as_str());
            },
            ParseError::SizeLimitExceeded { actual, limit } => {
                push_str(&mut out, "size limit exceeded: ");
                push_decimal(&mut out, *actual as u64);
                push_str(&mut out, " bytes, the limit is ");
                push_decimal(&mut out, *limit as u64);
            },
            ParseError::IncorrectField { key } => {
                push_str(&mut out, "missing or malformed field: ");
                push_str(&mut out, key.as_str());
            },
            ParseError::ParseError { message, line, column } => {
                push_str(&mut out, "parse error (line ");
                push_decimal(&mut out, *line as u64);
                push_str(&mut out, ", column ");
                push_decimal(&mut out, *column as u64);
                push_str(&mut out, "): ");
                push_str(&mut out, message.as_str());
            },
            ParseError::ParseBinaryError { message } => {
                push_str(&mut out, "binary decode error: ");
                push_str(&mut out, message.as_str());
            },
            ParseError::EmptyData => {
                push_str(&mut out, "the input holds no records");
            },
            ParseError::InvalidFormat { expected, got, err_source } => {
                push_str(&mut out, "invalid format: expected ");
                push_str(&mut out, expected.as_str());
                push_str(&mut out, ", found ");
                push_str(&mut out, got.as_str());
            },
            ParseError::OverflowSize { from, to, description } => {
                push_str(&mut out, "overflow: ");
                push_str(&mut out, from.as_str());
                push_str(&mut out, " cannot be converted to ");
                push_str(&mut out, to.as_str());
                push_str(&mut out, ": ");
                push_str(&mut out, description.as_str());
            },
            ParseError::UnsupportedFormat { invalid_format } => {
                push_str(&mut out, "unsupported format: ");
                push_str(&mut out, invalid_format.as_str());
            },
        }
        chars_to_string(out.as_slice())
    }
}

} // verus!
