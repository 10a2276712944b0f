//! The trusted boundary: structural parsing, canonical re-encoding, duration
//! tokens, and the execution engine's native lookback type.

use vstd::prelude::*;

use crate::lookback::age_token_bounded;
use crate::raw::RawNode;

use fluvio_smartmodule::dataplane::smartmodule::Lookback as NativeLookback;

verus! {

#[verifier::external_type_specification]
#[verifier::external_body]
pub struct ExValue(serde_json::Value);

#[verifier::external_type_specification]
pub struct ExNativeLookback(NativeLookback);

/// What parsing a self-contained JSON document yields, shape-tagged and with
/// structured nodes re-encoded canonically; absent where the text is not
/// valid JSON.
pub uninterp spec fn parsed_json(s: Seq<char>) -> Option<RawNode>;

/// What parsing a YAML document yields, shape-tagged and with structured
/// nodes re-encoded canonically; absent where the text is not valid YAML
/// with string keys.
pub uninterp spec fn parsed_yaml(s: Seq<char>) -> Option<RawNode>;

/// The seconds and nanoseconds a bounded human-readable duration token
/// denotes; absent where the token is malformed.
pub uninterp spec fn parsed_age(s: Seq<char>) -> Option<(u64, u32)>;

/// Relies on serde_json::Value's variants to tell node shapes apart, and on
/// serde_json::to_string for the canonical deterministic serialization of a
/// mapping or sequence node.  Called only from the two parse functions below.
#[verifier::external_body]
fn raw_of_value(v: &serde_json::Value) -> RawNode {
    let enc = |x: &serde_json::Value| serde_json::to_string(x).map_err(|e| e.to_string());
    match v {
        serde_json::Value::String(s) => RawNode::Text(s.clone()),
        serde_json::Value::Number(n) => n.as_u64().map_or(RawNode::Other, RawNode::Uint),
        serde_json::Value::Object(m) => RawNode::MapNode(
            m.iter().map(|(k, w)| (k.clone(), raw_of_value(w))).collect(),
            enc(v),
        ),
        serde_json::Value::Array(a) => RawNode::SeqNode(
            a.iter().map(raw_of_value).collect(),
            enc(v),
        ),
        serde_json::Value::Null => RawNode::Null,
        serde_json::Value::Bool(_) => RawNode::Other,
    }
}

/// Relies on serde_json::from_str::<serde_json::Value>: parses one
/// self-contained JSON document; the result depends on the text alone.
#[verifier::external_body]
pub(crate) fn parse_json_node(s: &str) -> (r: Result<RawNode, String>)
    ensures
        match r {
            Ok(n) => parsed_json(s@) == Some(n),
            Err(_) => parsed_json(s@) is None,
        },
{
    match serde_json::from_str::<serde_json::Value>(s) {
        Ok(v) => Ok(raw_of_value(&v)),
        Err(e) => Err(e.to_string()),
    }
}

/// Relies on serde_yaml::from_str::<serde_json::Value>: parses one YAML
/// document into a structural value; the result depends on the text alone.
#[verifier::external_body]
pub(crate) fn parse_yaml_node(s: &str) -> (r: Result<RawNode, String>)
    ensures
        match r {
            Ok(n) => parsed_yaml(s@) == Some(n),
            Err(_) => parsed_yaml(s@) is None,
        },
{
    match serde_yaml::from_str::<serde_json::Value>(s) {
        Ok(v) => Ok(raw_of_value(&v)),
        Err(e) => Err(e.to_string()),
    }
}

/// Relies on humantime::parse_duration: parses a human-readable duration
/// token; the result depends on the token alone, and a duration's
/// nanosecond part is below one billion.  The parser's per-span
/// accumulation panics when the running total reaches the largest
/// representable second count together with an exact one-billion
/// nanosecond carry; all its other arithmetic is checked and returns an
/// error.  A bounded token (`age_token_bounded`) cannot reach that total,
/// so the `requires` leaves every panicking input out.
#[verifier::external_body]
pub(crate) fn parse_age_token(s: &str) -> (r: Result<(u64, u32), String>)
    requires
        age_token_bounded(s@),
    ensures
        match r {
            Ok(p) => parsed_age(s@) == Some(p) && p.1 < 1000000000,
            Err(_) => parsed_age(s@) is None,
        },
{
    match humantime::parse_duration(s) {
        Ok(d) => Ok((d.as_secs(), d.subsec_nanos())),
        Err(e) => Err(e.to_string()),
    }
}

/// What core::time::Duration::new builds from a whole-second count and a
/// sub-second nanosecond part below one billion.
pub uninterp spec fn duration_of(secs: u64, nanos: u32) -> core::time::Duration;

/// Relies on core::time::Duration::new, which neither panics nor carries
/// when the nanosecond part is below one billion; its result depends on the
/// two counts alone.
pub assume_specification [ core::time::Duration::new ](secs: u64, nanos: u32) -> (r:
    core::time::Duration)
    requires
        nanos < 1000000000,
    ensures
        r == duration_of(secs, nanos),
;

} // verus!
