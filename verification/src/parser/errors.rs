//! The error taxonomy: syntax errors from the parse-tree producer and
//! build errors from the AST builder. Every failure is returned to the
//! caller as a typed value; no partial result is ever surfaced.

use vstd::prelude::*;

verus! {

/// A failure of the parse-tree producer.
#[derive(Debug, PartialEq)]
pub enum ParseError {
    /// The input does not conform to the grammar at `position`.
    SyntaxError { position: usize, expected: String },
    /// A closing tag's name differs from its opening tag's name.
    MismatchedClosingTag { opening_name: String, closing_name: String, position: usize },
    /// Element nesting went past the configured bound.
    NestingTooDeep { limit: usize },
}

/// A failure of the AST builder.
#[derive(Debug, PartialEq)]
pub enum BuildError {
    /// A heading's numeric level falls outside 1 through 6.
    InvalidHeadingLevel { level: u8 },
    /// The parse tree holds a shape the builder does not recognize:
    /// a defect of the grammar/builder contract, not a user input error.
    InternalInconsistency,
    /// Node nesting went past the configured bound.
    NestingTooDeep { limit: usize },
}

/// Spec view of a parse error.
pub enum ParseErrorV {
    SyntaxError { position: int, expected: Seq<char> },
    MismatchedClosingTag { opening_name: Seq<char>, closing_name: Seq<char>, position: int },
    NestingTooDeep { limit: int },
}

/// Spec view of a build error.
pub enum BuildErrorV {
    InvalidHeadingLevel { level: u8 },
    InternalInconsistency,
    NestingTooDeep { limit: int },
}

impl View for ParseError {
    type V = ParseErrorV;

    open spec fn view(&self) -> ParseErrorV {
        match self {
            ParseError::SyntaxError { position, expected } => ParseErrorV::SyntaxError {
                position: *position as int,
                expected: expected@,
            },
            ParseError::MismatchedClosingTag { opening_name, closing_name, position } => {
                ParseErrorV::MismatchedClosingTag {
                    opening_name: opening_name@,
                    closing_name: closing_name@,
                    position: *position as int,
                }
            },
            ParseError::NestingTooDeep { limit } => ParseErrorV::NestingTooDeep {
                limit: *limit as int,
            },
        }
    }
}

impl View for BuildError {
    type V = BuildErrorV;

    open spec fn view(&self) -> BuildErrorV {
        match self {
            BuildError::InvalidHeadingLevel { level } => BuildErrorV::InvalidHeadingLevel {
                level: *level,
            },
            BuildError::InternalInconsistency => BuildErrorV::InternalInconsistency,
            BuildError::NestingTooDeep { limit } => BuildErrorV::NestingTooDeep {
                limit: *limit as int,
            },
        }
    }
}

} // verus!
