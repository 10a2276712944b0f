//! The failure surface of the two construction paths.

use vstd::prelude::*;

verus! {

/// Why a construction call failed, at the level contracts speak of.
///
/// Variants carry text only where the model itself pins it down; what an
/// outside parser or encoder said is kept in `DecodeError` but not specified.
pub enum DecodeErrorKind {
    /// The document or step text is not valid in its structural format.
    Syntax,
    /// The whole document is not a mapping.
    DocumentNotMapping,
    /// The document lacks the field naming the step sequence.
    MissingTransforms,
    /// The step-sequence field does not hold a sequence.
    TransformsNotSequence,
    /// A step descriptor is not a mapping.
    StepNotMapping,
    /// A step descriptor lacks the identifier field.
    MissingUses,
    /// The identifier field does not hold a string.
    UsesNotString,
    /// A present lookback field does not hold a mapping.
    LookbackNotMapping,
    /// The lookback count is not a non-negative integer in range.
    LastNotInteger,
    /// A present lookback age is not a string token.
    AgeNotString,
    /// The lookback age token does not parse as a duration.
    BadAge(Seq<char>),
    /// A present parameter-mapping field does not hold a mapping.
    WithNotMapping,
    /// A parameter value given as an object could not be re-encoded.
    MapEncode(Seq<char>),
    /// A parameter value given as a sequence could not be re-encoded.
    SeqEncode(Seq<char>),
    /// A parameter value of an inadmissible shape (boolean, number, null).
    UnsupportedShape,
}

/// Why a construction call failed, with the human-readable details.
#[derive(Debug)]
pub enum DecodeError {
    /// The document or step text is not valid in its structural format; the
    /// payload is the parser's message.
    Syntax(String),
    /// The whole document is not a mapping.
    DocumentNotMapping,
    /// The document lacks the field naming the step sequence.
    MissingTransforms,
    /// The step-sequence field does not hold a sequence.
    TransformsNotSequence,
    /// A step descriptor is not a mapping.
    StepNotMapping,
    /// A step descriptor lacks the identifier field.
    MissingUses,
    /// The identifier field does not hold a string.
    UsesNotString,
    /// A present lookback field does not hold a mapping.
    LookbackNotMapping,
    /// The lookback count is not a non-negative integer in range.
    LastNotInteger,
    /// A present lookback age is not a string token.
    AgeNotString,
    /// The lookback age token does not parse as a duration; the payload is
    /// the offending token.
    BadAge(String),
    /// A present parameter-mapping field does not hold a mapping.
    WithNotMapping,
    /// A parameter value given as an object could not be re-encoded; the
    /// payload is the encoder's message.
    MapEncode(String),
    /// A parameter value given as a sequence could not be re-encoded; the
    /// payload is the encoder's message.
    SeqEncode(String),
    /// A parameter value of an inadmissible shape (boolean, number, null).
    UnsupportedShape,
}

impl View for DecodeError {
    type V = DecodeErrorKind;

    open spec fn view(&self) -> DecodeErrorKind {
        match self {
            DecodeError::Syntax(_) => DecodeErrorKind::Syntax,
            DecodeError::DocumentNotMapping => DecodeErrorKind::DocumentNotMapping,
            DecodeError::MissingTransforms => DecodeErrorKind::MissingTransforms,
            DecodeError::TransformsNotSequence => DecodeErrorKind::TransformsNotSequence,
            DecodeError::StepNotMapping => DecodeErrorKind::StepNotMapping,
            DecodeError::MissingUses => DecodeErrorKind::MissingUses,
            DecodeError::UsesNotString => DecodeErrorKind::UsesNotString,
            DecodeError::LookbackNotMapping => DecodeErrorKind::LookbackNotMapping,
            DecodeError::LastNotInteger => DecodeErrorKind::LastNotInteger,
            DecodeError::AgeNotString => DecodeErrorKind::AgeNotString,
            DecodeError::BadAge(t) => DecodeErrorKind::BadAge(t@),
            DecodeError::WithNotMapping => DecodeErrorKind::WithNotMapping,
            DecodeError::MapEncode(m) => DecodeErrorKind::MapEncode(m@),
            DecodeError::SeqEncode(m) => DecodeErrorKind::SeqEncode(m@),
            DecodeError::UnsupportedShape => DecodeErrorKind::UnsupportedShape,
        }
    }
}

impl DecodeError {
    /// The human-readable detail carried by the variant, where one is.
    pub fn detail(&self) -> (r: Option<&String>)
        ensures
            match self {
                DecodeError::Syntax(m) => r == Some(m),
                DecodeError::BadAge(t) => r == Some(t),
                DecodeError::MapEncode(m) => r == Some(m),
                DecodeError::SeqEncode(m) => r == Some(m),
                _ => r is None,
            },
    {
        match self {
            DecodeError::Syntax(m) => Some(m),
            DecodeError::BadAge(t) => Some(t),
            DecodeError::MapEncode(m) => Some(m),
            DecodeError::SeqEncode(m) => Some(m),
            _ => None,
        }
    }
}

} // verus!
