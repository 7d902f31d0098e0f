//! The failures of parsing, and the three classes under which they are
//! reported at the boundary.

use vstd::prelude::*;
use vstd::string::StringExecFns;
use crate::format::FileFormat;
use crate::text::{decimal, push_decimal};

verus! {

/// Why a parse failed.
#[derive(Debug)]
pub enum ErrorKind {
    /// The buffer is longer than the configured ceiling.
    SizeLimitExceeded { actual: usize, limit: usize },
    /// The input has no content.
    EmptyInput,
    /// The input could not be read.
    IoFailure { context: String },
    /// The decoder for `format` could not interpret the buffer. The
    /// message is the decoder's own, kept as it came.
    DecodeFailure { format: FileFormat, message: String },
}

/// An [`ErrorKind`] with its texts as character sequences.
pub enum ErrorModel {
    SizeLimitExceeded { actual: nat, limit: nat },
    EmptyInput,
    IoFailure { context: Seq<char> },
    DecodeFailure { format: FileFormat, message: Seq<char> },
}

impl View for ErrorKind {
    type V = ErrorModel;

    open spec fn view(&self) -> ErrorModel {
        match self {
            ErrorKind::SizeLimitExceeded { actual, limit } => ErrorModel::SizeLimitExceeded {
                actual: *actual as nat,
                limit: *limit as nat,
            },
            ErrorKind::EmptyInput => ErrorModel::EmptyInput,
            ErrorKind::IoFailure { context } => ErrorModel::IoFailure { context: context@ },
            ErrorKind::DecodeFailure { format, message } => ErrorModel::DecodeFailure {
                format: *format,
                message: message@,
            },
        }
    }
}

/// A failure as it is reported at the boundary, by class.
#[derive(Debug)]
pub enum ParserError {
    /// The input could not be parsed.
    ParseError(String),
    /// The caller handed over something unusable.
    ConfigError(String),
    /// The input could not be read.
    IoError(String),
}

/// A [`ParserError`] with its message as a character sequence.
pub enum ReportModel {
    ParseError(Seq<char>),
    ConfigError(Seq<char>),
    IoError(Seq<char>),
}

impl View for ParserError {
    type V = ReportModel;

    open spec fn view(&self) -> ReportModel {
        match self {
            ParserError::ParseError(message) => ReportModel::ParseError(message@),
            ParserError::ConfigError(message) => ReportModel::ConfigError(message@),
            ParserError::IoError(message) => ReportModel::IoError(message@),
        }
    }
}

impl ErrorModel {
    /// The message of a failure.
    pub open spec fn message(self) -> Seq<char> {
        match self {
            ErrorModel::SizeLimitExceeded { actual, limit } => "File size exceeds limit: "@
                + decimal(actual) + " bytes exceeds maximum allowed size of "@ + decimal(limit)
                + " bytes"@,
            ErrorModel::EmptyInput => "Input cannot be empty"@,
            ErrorModel::IoFailure { context } => "Failed to read file: "@ + context,
            ErrorModel::DecodeFailure { format, message } => message,
        }
    }

    /// The report of a failure: a buffer over the ceiling and a decoder's
    /// failure are parse errors, missing input is the caller's error, and
    /// a failed read is an I/O error.
    pub open spec fn report(self) -> ReportModel {
        match self {
            ErrorModel::SizeLimitExceeded { .. } => ReportModel::ParseError(self.message()),
            ErrorModel::EmptyInput => ReportModel::ConfigError(self.message()),
            ErrorModel::IoFailure { .. } => ReportModel::IoError(self.message()),
            ErrorModel::DecodeFailure { .. } => ReportModel::ParseError(self.message()),
        }
    }
}

impl ReportModel {
    /// The message of a report.
    pub open spec fn message(self) -> Seq<char> {
        match self {
            ReportModel::ParseError(message) => message,
            ReportModel::ConfigError(message) => message,
            ReportModel::IoError(message) => message,
        }
    }
}

impl ErrorKind {
    /// The message of this failure.
    pub fn message(&self) -> (text: String)
        ensures
            text@ == self@.message(),
    {
        match self {
            ErrorKind::SizeLimitExceeded { actual, limit } => {
                let mut text = String::from_str("File size exceeds limit: ");
                push_decimal(&mut text, *actual);
                text.append(" bytes exceeds maximum allowed size of ");
                push_decimal(&mut text, *limit);
                text.append(" bytes");
                text
            },
            ErrorKind::EmptyInput => String::from_str("Input cannot be empty"),
            ErrorKind::IoFailure { context } => {
                let mut text = String::from_str("Failed to read file: ");
                text.append(context.as_str());
                text
            },
            ErrorKind::DecodeFailure { format, message } => message.clone(),
        }
    }

    /// This failure as it is reported at the boundary.
    pub fn to_parser_error(&self) -> (report: ParserError)
        ensures
            report@ == self@.report(),
    {
        let text = self.message();
        match self {
            ErrorKind::SizeLimitExceeded { .. } => ParserError::ParseError(text),
            ErrorKind::EmptyInput => ParserError::ConfigError(text),
            ErrorKind::IoFailure { .. } => ParserError::IoError(text),
            ErrorKind::DecodeFailure { .. } => ParserError::ParseError(text),
        }
    }
}

impl ParserError {
    /// The message of this report.
    pub fn message(&self) -> (text: String)
        ensures
            text@ == self@.message(),
    {
        match self {
            ParserError::ParseError(message) => message.clone(),
            ParserError::ConfigError(message) => message.clone(),
            ParserError::IoError(message) => message.clone(),
        }
    }
}

} // verus!
