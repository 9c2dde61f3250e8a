//! Structured decode errors.
//!
//! A decode error aborts the telegram being built and carries the offending
//! text, so that the caller can log exactly what was rejected. It never
//! terminates the session: the caller moves on to the next frame.

use vstd::prelude::*;

verus! {

/// Why a line, or a whole frame, was rejected by the decoder.
#[derive(Debug, PartialEq, Eq)]
pub enum DecodeError {
    /// The line holds no `(`, so it has no value part.
    MissingParenthesis { line: Vec<u8> },
    /// The OBIS code does not split into exactly five components.
    ObisWrongArity { code: Vec<u8> },
    /// An OBIS component is not a small decimal number.
    ObisBadComponent { code: Vec<u8> },
    /// The five-component key matches no dispatch rule.
    UnknownObisKey { key: [u8; 5] },
    /// A numeric field does not parse in the target range.
    BadNumber { text: Vec<u8> },
    /// A number-with-unit field carries no `*` separator.
    MissingUnitSeparator { text: Vec<u8> },
    /// The unit token after `*` is not in the known unit set.
    UnknownUnit { text: Vec<u8> },
    /// A hexadecimal payload of odd length.
    OddHexLength { text: Vec<u8> },
    /// A non-hexadecimal digit in a hexadecimal payload.
    BadHexDigit { text: Vec<u8> },
    /// Decoded bytes are not valid UTF-8.
    InvalidUtf8 { bytes: Vec<u8> },
    /// The rule needs a value group the line does not carry.
    MissingValueGroup { index: usize },
    /// A frame with too few lines to carry header and separator.
    FrameTooShort { len: usize },
}

/// The mathematical shape of a [`DecodeError`]: the same variants over
/// byte sequences.
pub enum ErrorModel {
    MissingParenthesis { line: Seq<u8> },
    ObisWrongArity { code: Seq<u8> },
    ObisBadComponent { code: Seq<u8> },
    UnknownObisKey { key: Seq<u8> },
    BadNumber { text: Seq<u8> },
    MissingUnitSeparator { text: Seq<u8> },
    UnknownUnit { text: Seq<u8> },
    OddHexLength { text: Seq<u8> },
    BadHexDigit { text: Seq<u8> },
    InvalidUtf8 { bytes: Seq<u8> },
    MissingValueGroup { index: usize },
    FrameTooShort { len: usize },
}

impl DeepView for DecodeError {
    type V = ErrorModel;

    open spec fn deep_view(&self) -> ErrorModel {
        match self {
            DecodeError::MissingParenthesis { line } => ErrorModel::MissingParenthesis {
                line: line@,
            },
            DecodeError::ObisWrongArity { code } => ErrorModel::ObisWrongArity { code: code@ },
            DecodeError::ObisBadComponent { code } => ErrorModel::ObisBadComponent { code: code@ },
            DecodeError::UnknownObisKey { key } => ErrorModel::UnknownObisKey { key: key@ },
            DecodeError::BadNumber { text } => ErrorModel::BadNumber { text: text@ },
            DecodeError::MissingUnitSeparator { text } => ErrorModel::MissingUnitSeparator {
                text: text@,
            },
            DecodeError::UnknownUnit { text } => ErrorModel::UnknownUnit { text: text@ },
            DecodeError::OddHexLength { text } => ErrorModel::OddHexLength { text: text@ },
            DecodeError::BadHexDigit { text } => ErrorModel::BadHexDigit { text: text@ },
            DecodeError::InvalidUtf8 { bytes } => ErrorModel::InvalidUtf8 { bytes: bytes@ },
            DecodeError::MissingValueGroup { index } => ErrorModel::MissingValueGroup {
                index: *index,
            },
            DecodeError::FrameTooShort { len } => ErrorModel::FrameTooShort { len: *len },
        }
    }
}

} // verus!
