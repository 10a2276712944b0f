//! One pipeline stage: the transformation to invoke, an optional lookback
//! window, and its parameters in canonical form.

use vstd::prelude::*;

use crate::error::{DecodeError, DecodeErrorKind};
use crate::lookback::{decode_lookback, spec_lookback, LookView, Lookback};
use crate::outside::{parse_json_node, parsed_json};
use crate::params::{spec_insert, ParamMap};
use crate::raw::{find_field, get_field, RawNode};
use crate::value::{normalize_param, spec_normalize, JsonString};

verus! {

/// One pipeline stage.
///
/// The identifier is an opaque string: this layer does not interpret or
/// validate it.
#[derive(Debug, Clone, PartialEq, Eq)]
pub struct TransformationStep {
    /// The transformation to invoke.
    pub uses: String,
    /// The historical window, where one was requested.
    pub lookback: Option<Lookback>,
    /// Parameter name to canonical value, iterated in ascending key order.
    pub with: ParamMap,
}

/// The mathematical content of one step.
pub struct StepView {
    pub uses: Seq<char>,
    pub lookback: Option<LookView>,
    pub with: Seq<(Seq<char>, Seq<char>)>,
}

impl Default for TransformationStep {
    /// An empty identifier, no lookback window, no parameters.
    fn default() -> (r: Self)
        ensures
            r@.uses == Seq::<char>::empty(),
            r@.lookback is None,
            r@.with == Seq::<(Seq<char>, Seq<char>)>::empty(),
    {
        TransformationStep { uses: String::new(), lookback: Option::None, with: ParamMap::new() }
    }
}

impl View for TransformationStep {
    type V = StepView;

    open spec fn view(&self) -> StepView {
        StepView {
            uses: self.uses@,
            lookback: match self.lookback {
                Some(l) => Some(l@),
                None => None,
            },
            with: self.with@,
        }
    }
}

/// What folding the entries of a parameter mapping into `m` yields: each
/// value is normalized in order and bound to its key, a later equal key
/// overwriting an earlier one; the first failure aborts the whole fold.
pub open spec fn spec_with_entries(
    m: Seq<(Seq<char>, Seq<char>)>,
    entries: Seq<(String, RawNode)>,
) -> Result<Seq<(Seq<char>, Seq<char>)>, DecodeErrorKind>
    decreases entries.len(),
{
    if entries.len() == 0 {
        Ok(m)
    } else {
        match spec_normalize(entries[0].1) {
            Err(k) => Err(k),
            Ok(v) => spec_with_entries(spec_insert(m, entries[0].0@, v), entries.drop_first()),
        }
    }
}

/// What decoding an optional parameter-mapping field yields: absent means
/// the empty mapping; anything but a mapping is refused.
pub open spec fn spec_with(o: Option<RawNode>) -> Result<
    Seq<(Seq<char>, Seq<char>)>,
    DecodeErrorKind,
> {
    match o {
        Option::None => Ok(Seq::empty()),
        Option::Some(RawNode::MapNode(entries, _)) => spec_with_entries(
            Seq::empty(),
            entries@,
        ),
        Option::Some(_) => Err(DecodeErrorKind::WithNotMapping),
    }
}

/// What decoding an optional lookback field yields: absent or null means no
/// window requested.
pub open spec fn spec_opt_lookback(o: Option<RawNode>) -> Result<
    Option<LookView>,
    DecodeErrorKind,
> {
    match o {
        Option::None => Ok(Option::None),
        Option::Some(RawNode::Null) => Ok(Option::None),
        Option::Some(n) => match spec_lookback(n) {
            Ok(lv) => Ok(Option::Some(lv)),
            Err(k) => Err(k),
        },
    }
}

/// What decoding one step descriptor node yields: the identifier field is
/// required and must hold a string; the lookback and parameter-mapping
/// fields are optional; other fields are ignored.
pub open spec fn spec_step(n: RawNode) -> Result<StepView, DecodeErrorKind> {
    match n {
        RawNode::MapNode(entries, _) => match find_field(entries@, "uses"@) {
            Option::None => Err(DecodeErrorKind::MissingUses),
            Option::Some(RawNode::Text(u)) => match spec_opt_lookback(
                find_field(entries@, "lookback"@),
            ) {
                Err(k) => Err(k),
                Ok(lb) => match spec_with(find_field(entries@, "with"@)) {
                    Err(k) => Err(k),
                    Ok(w) => Ok(StepView { uses: u@, lookback: lb, with: w }),
                },
            },
            Option::Some(_) => Err(DecodeErrorKind::UsesNotString),
        },
        _ => Err(DecodeErrorKind::StepNotMapping),
    }
}

/// What decoding one self-contained encoded step descriptor yields.
pub open spec fn spec_step_from_text(t: Seq<char>) -> Result<StepView, DecodeErrorKind> {
    match parsed_json(t) {
        Option::Some(n) => spec_step(n),
        Option::None => Err(DecodeErrorKind::Syntax),
    }
}

/// Decodes one step descriptor node.
pub fn decode_step(n: &RawNode) -> (r: Result<TransformationStep, DecodeError>)
    ensures
        match r {
            Ok(st) => spec_step(*n) == Ok::<StepView, DecodeErrorKind>(st@),
            Err(e) => spec_step(*n) == Err::<StepView, DecodeErrorKind>(e@),
        },
{
    match n {
        RawNode::MapNode(entries, _) => {
            let uses: String = match get_field(entries, "uses") {
                Option::Some(RawNode::Text(u)) => u.clone(),
                Option::Some(_) => {
                    return Err(DecodeError::UsesNotString);
                },
                Option::None => {
                    return Err(DecodeError::MissingUses);
                },
            };
            let lookback: Option<Lookback> = match get_field(entries, "lookback") {
                Option::None => Option::None,
                Option::Some(RawNode::Null) => Option::None,
                Option::Some(ln) => match decode_lookback(ln) {
                    Ok(lb) => Option::Some(lb),
                    Err(e) => {
                        return Err(e);
                    },
                },
            };
            let with: ParamMap = match get_field(entries, "with") {
                Option::None => ParamMap::new(),
                Option::Some(RawNode::MapNode(wentries, _)) => {
                    let mut m = ParamMap::new();
                    let mut i: usize = 0;
                    proof {
                        assert(wentries@.skip(0) =~= wentries@);
                        assert(m@ =~= Seq::<(Seq<char>, Seq<char>)>::empty());
                    }
                    #[verifier::loop_isolation(false)]
                    while i < wentries.len()
                        invariant
                            i <= wentries@.len(),
                            spec_with_entries(m@, wentries@.skip(i as int)) == spec_with_entries(
                                Seq::empty(),
                                wentries@,
                            ),
                        decreases wentries@.len() - i,
                    {
                        proof {
                            assert(wentries@.skip(i as int)[0] == wentries@[i as int]);
                            assert(wentries@.skip(i as int).drop_first() =~= wentries@.skip(
                                i as int + 1,
                            ));
                        }
                        match normalize_param(&wentries[i].1) {
                            Err(e) => {
                                proof {
                                    assert(spec_normalize(wentries@[i as int].1) == Err::<
                                        Seq<char>,
                                        DecodeErrorKind,
                                    >(e@));
                                    assert(spec_with_entries(m@, wentries@.skip(i as int)) == Err::<
                                        Seq<(Seq<char>, Seq<char>)>,
                                        DecodeErrorKind,
                                    >(e@));
                                }
                                return Err(e);
                            },
                            Ok(v) => {
                                m.insert(wentries[i].0.clone(), v);
                            },
                        }
                        i = i + 1;
                    }
                    proof {
                        assert(wentries@.skip(wentries@.len() as int).len() == 0);
                    }
                    m
                },
                Option::Some(_) => {
                    return Err(DecodeError::WithNotMapping);
                },
            };
            Ok(TransformationStep { uses, lookback, with })
        },
        _ => Err(DecodeError::StepNotMapping),
    }
}

impl TransformationStep {
    /// Decodes one step from one self-contained encoded descriptor.
    pub fn try_from_str(s: &str) -> (r: Result<Self, DecodeError>)
        ensures
            match r {
                Ok(st) => spec_step_from_text(s@) == Ok::<StepView, DecodeErrorKind>(st@),
                Err(e) => spec_step_from_text(s@) == Err::<StepView, DecodeErrorKind>(e@),
            },
    {
        match parse_json_node(s) {
            Ok(n) => decode_step(&n),
            Err(m) => Err(DecodeError::Syntax(m)),
        }
    }
}

} // verus!

