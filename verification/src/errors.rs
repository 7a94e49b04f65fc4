//! Error taxonomy of the registry parser and resolver.
//!
//! Every parser-level error aborts the entity under construction and
//! propagates up through the assembler: a document either parses and resolves
//! fully, or the whole operation fails with the first error encountered.

use vstd::prelude::*;

verus! {

/// An error raised while parsing the event stream or resolving extensions.
#[derive(Debug)]
pub enum ParseError {
    /// The document ended while an element's scope was still open.
    UnexpectedEOF,
    /// The underlying tokenizer reported a malformed document; the payload is
    /// the tokenizer's message, propagated verbatim.
    MalformedSource(String),
    /// An extension's `supported` pattern did not compile as a matcher; the
    /// payload is the offending pattern.
    MalformedPattern(String),
    /// A schema field was absent where the grammar requires it.
    MissingRequiredAttributeOrChild { element: String, field: String },
    /// An unknown `category`/`type` discriminator value was met where no
    /// forward-compatibility escape exists.
    UnrecognizedCategory(String),
    /// An attribute expected to parse as an integer did not.
    MalformedNumericLiteral { field: String, raw: String },
    /// Enum-extension arithmetic left the machine integer range.
    NumericOverflow { field: String },
    /// An enum-extension requirement names an enum that the registry does not
    /// contain (resolution phase only).
    UnknownEnumTarget { extension: String, target: String },
    /// An Offset-strategy requirement was used by a feature, which has no
    /// extension number to derive values from.
    InvalidStrategyForEntity,
    /// The document ended without a `types` section.
    MissingTypesSection,
}

/// Spec-level value of a [`ParseError`]: the same shape over `Seq<char>`.
pub enum ParseErrorV {
    UnexpectedEOF,
    MalformedSource(Seq<char>),
    MalformedPattern(Seq<char>),
    MissingRequiredAttributeOrChild { element: Seq<char>, field: Seq<char> },
    UnrecognizedCategory(Seq<char>),
    MalformedNumericLiteral { field: Seq<char>, raw: Seq<char> },
    NumericOverflow { field: Seq<char> },
    UnknownEnumTarget { extension: Seq<char>, target: Seq<char> },
    InvalidStrategyForEntity,
    MissingTypesSection,
}

impl View for ParseError {
    type V = ParseErrorV;

    open spec fn view(&self) -> ParseErrorV {
        match self {
            ParseError::UnexpectedEOF => ParseErrorV::UnexpectedEOF,
            ParseError::MalformedSource(m) => ParseErrorV::MalformedSource(m@),
            ParseError::MalformedPattern(p) => ParseErrorV::MalformedPattern(p@),
            ParseError::MissingRequiredAttributeOrChild { element, field } =>
                ParseErrorV::MissingRequiredAttributeOrChild { element: element@, field: field@ },
            ParseError::UnrecognizedCategory(c) => ParseErrorV::UnrecognizedCategory(c@),
            ParseError::MalformedNumericLiteral { field, raw } =>
                ParseErrorV::MalformedNumericLiteral { field: field@, raw: raw@ },
            ParseError::NumericOverflow { field } =>
                ParseErrorV::NumericOverflow { field: field@ },
            ParseError::UnknownEnumTarget { extension, target } =>
                ParseErrorV::UnknownEnumTarget { extension: extension@, target: target@ },
            ParseError::InvalidStrategyForEntity => ParseErrorV::InvalidStrategyForEntity,
            ParseError::MissingTypesSection => ParseErrorV::MissingTypesSection,
        }
    }
}

/// Result alias used by every parsing routine of the library.
pub type ParseResult<T> = Result<T, ParseError>;

} // verus!
