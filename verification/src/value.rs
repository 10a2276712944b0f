//! The canonical encoded form of one parameter value.

use vstd::prelude::*;

use crate::error::{DecodeError, DecodeErrorKind};
use crate::raw::RawNode;

verus! {

/// One parameter value in its canonical encoded textual form.
///
/// A plain-string source value is stored verbatim; a structured source value
/// (object or sequence) is stored as its canonical serialization.
#[derive(Debug, PartialEq, Eq)]
pub struct JsonString(String);

impl Default for JsonString {
    /// The empty encoding.
    fn default() -> (r: Self)
        ensures
            r@ == Seq::<char>::empty(),
    {
        JsonString(String::new())
    }
}

impl Clone for JsonString {
    fn clone(&self) -> (r: Self)
        ensures
            r@ == self@,
    {
        JsonString(self.0.clone())
    }
}

impl View for JsonString {
    type V = Seq<char>;

    closed spec fn view(&self) -> Seq<char> {
        self.0@
    }
}

impl JsonString {
    /// Wraps an already-encoded value verbatim.
    pub fn new(s: String) -> (r: Self)
        ensures
            r@ == s@,
    {
        JsonString(s)
    }

    /// The stored canonical encoding.
    pub fn as_str(&self) -> (r: &str)
        ensures
            r@ == self@,
    {
        self.0.as_str()
    }

    /// Gives the stored canonical encoding up.
    pub fn into_string(self) -> (r: String)
        ensures
            r@ == self@,
    {
        self.0
    }
}

/// What normalizing one parameter value node yields: a string scalar is kept
/// verbatim; a mapping or sequence yields its canonical re-encoding, or the
/// encoder's failure with the node's shape as context; every other shape is
/// inadmissible.
pub open spec fn spec_normalize(n: RawNode) -> Result<Seq<char>, DecodeErrorKind> {
    match n {
        RawNode::Text(s) => Ok(s@),
        RawNode::MapNode(_, enc) => match enc {
            Ok(e) => Ok(e@),
            Err(m) => Err(DecodeErrorKind::MapEncode(m@)),
        },
        RawNode::SeqNode(_, enc) => match enc {
            Ok(e) => Ok(e@),
            Err(m) => Err(DecodeErrorKind::SeqEncode(m@)),
        },
        _ => Err(DecodeErrorKind::UnsupportedShape),
    }
}

/// Normalizes one parameter value node into its canonical encoded form.
pub fn normalize_param(n: &RawNode) -> (r: Result<JsonString, DecodeError>)
    ensures
        match r {
            Ok(v) => spec_normalize(*n) == Ok::<Seq<char>, DecodeErrorKind>(v@),
            Err(e) => spec_normalize(*n) == Err::<Seq<char>, DecodeErrorKind>(e@),
        },
{
    match n {
        RawNode::Text(s) => Ok(JsonString::new(s.clone())),
        RawNode::MapNode(_, enc) => match enc {
            Ok(e) => Ok(JsonString::new(e.clone())),
            Err(m) => Err(DecodeError::MapEncode(m.clone())),
        },
        RawNode::SeqNode(_, enc) => match enc {
            Ok(e) => Ok(JsonString::new(e.clone())),
            Err(m) => Err(DecodeError::SeqEncode(m.clone())),
        },
        _ => Err(DecodeError::UnsupportedShape),
    }
}

} // verus!
