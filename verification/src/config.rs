//! The whole pipeline configuration, and its two construction paths.

use vstd::prelude::*;

use crate::error::{DecodeError, DecodeErrorKind};
use crate::outside::{parse_yaml_node, parsed_yaml};
use crate::raw::{find_field, get_field, RawNode};
use crate::step::{decode_step, spec_step, spec_step_from_text, StepView, TransformationStep};

verus! {

/// An ordered sequence of transformation steps, exactly as the source gave
/// them: no reordering, deduplication or cross-step validation.
#[derive(Debug, Clone, PartialEq, Eq)]
pub struct TransformationConfig {
    /// The steps, in source order.
    pub transforms: Vec<TransformationStep>,
}

impl Default for TransformationConfig {
    /// A config with zero steps.
    fn default() -> (r: Self)
        ensures
            r@ == Seq::<StepView>::empty(),
    {
        let r = TransformationConfig { transforms: Vec::new() };
        proof {
            assert(r@ =~= Seq::<StepView>::empty());
        }
        r
    }
}

impl View for TransformationConfig {
    type V = Seq<StepView>;

    open spec fn view(&self) -> Seq<StepView> {
        self.transforms@.map_values(|st: TransformationStep| st@)
    }
}

/// What assembling a sequence of independently-encoded step descriptors
/// yields: each is decoded on its own, in input order; the first failure
/// aborts the whole assembly.
pub open spec fn spec_assemble(texts: Seq<Seq<char>>) -> Result<Seq<StepView>, DecodeErrorKind>
    decreases texts.len(),
{
    if texts.len() == 0 {
        Ok(Seq::empty())
    } else {
        match spec_step_from_text(texts[0]) {
            Err(k) => Err(k),
            Ok(sv) => match spec_assemble(texts.drop_first()) {
                Err(k) => Err(k),
                Ok(rest) => Ok(seq![sv] + rest),
            },
        }
    }
}

/// What decoding a sequence of step descriptor nodes yields, in order; the
/// first failure aborts the whole decode.
pub open spec fn spec_steps_of_nodes(items: Seq<RawNode>) -> Result<
    Seq<StepView>,
    DecodeErrorKind,
>
    decreases items.len(),
{
    if items.len() == 0 {
        Ok(Seq::empty())
    } else {
        match spec_step(items[0]) {
            Err(k) => Err(k),
            Ok(sv) => match spec_steps_of_nodes(items.drop_first()) {
                Err(k) => Err(k),
                Ok(rest) => Ok(seq![sv] + rest),
            },
        }
    }
}

/// What decoding a whole document node yields: the document must be a
/// mapping whose step-sequence field holds a sequence of step descriptors;
/// other document fields are ignored.
pub open spec fn spec_config_of_doc(n: RawNode) -> Result<Seq<StepView>, DecodeErrorKind> {
    match n {
        RawNode::MapNode(entries, _) => match find_field(entries@, "transforms"@) {
            Option::Some(RawNode::SeqNode(items, _)) => spec_steps_of_nodes(items@),
            Option::Some(_) => Err(DecodeErrorKind::TransformsNotSequence),
            Option::None => Err(DecodeErrorKind::MissingTransforms),
        },
        _ => Err(DecodeErrorKind::DocumentNotMapping),
    }
}

/// What decoding a whole document text yields.
pub open spec fn spec_config_from_document(t: Seq<char>) -> Result<Seq<StepView>, DecodeErrorKind> {
    match parsed_yaml(t) {
        Option::Some(n) => spec_config_of_doc(n),
        Option::None => Err(DecodeErrorKind::Syntax),
    }
}

/// Where every entry decodes, the assembly is exactly the decoded steps, in
/// input order.
pub proof fn lemma_assemble_ok(texts: Seq<Seq<char>>, views: Seq<StepView>)
    requires
        texts.len() == views.len(),
        forall|j: int|
            0 <= j < texts.len() ==> spec_step_from_text(texts[j]) == Ok::<
                StepView,
                DecodeErrorKind,
            >(#[trigger] views[j]),
    ensures
        spec_assemble(texts) == Ok::<Seq<StepView>, DecodeErrorKind>(views),
    decreases texts.len(),
{
    if texts.len() == 0 {
        assert(views =~= Seq::<StepView>::empty());
    } else {
        lemma_assemble_ok(texts.drop_first(), views.drop_first());
        assert(seq![views[0]] + views.drop_first() =~= views);
    }
}

/// The first entry that fails to decode aborts the whole assembly with its
/// own error.
pub proof fn lemma_assemble_err(texts: Seq<Seq<char>>, i: int, k: DecodeErrorKind)
    requires
        0 <= i < texts.len(),
        forall|j: int| 0 <= j < i ==> spec_step_from_text(#[trigger] texts[j]) is Ok,
        spec_step_from_text(texts[i]) == Err::<StepView, DecodeErrorKind>(k),
    ensures
        spec_assemble(texts) == Err::<Seq<StepView>, DecodeErrorKind>(k),
    decreases i,
{
    if i > 0 {
        lemma_assemble_err(texts.drop_first(), i - 1, k);
    }
}

/// Where every step node decodes, the document decode is exactly the decoded
/// steps, in declared order.
pub proof fn lemma_steps_ok(items: Seq<RawNode>, views: Seq<StepView>)
    requires
        items.len() == views.len(),
        forall|j: int|
            0 <= j < items.len() ==> spec_step(items[j]) == Ok::<StepView, DecodeErrorKind>(
                #[trigger] views[j],
            ),
    ensures
        spec_steps_of_nodes(items) == Ok::<Seq<StepView>, DecodeErrorKind>(views),
    decreases items.len(),
{
    if items.len() == 0 {
        assert(views =~= Seq::<StepView>::empty());
    } else {
        lemma_steps_ok(items.drop_first(), views.drop_first());
        assert(seq![views[0]] + views.drop_first() =~= views);
    }
}

/// The first step node that fails to decode aborts the whole document decode
/// with its own error.
pub proof fn lemma_steps_err(items: Seq<RawNode>, i: int, k: DecodeErrorKind)
    requires
        0 <= i < items.len(),
        forall|j: int| 0 <= j < i ==> spec_step(#[trigger] items[j]) is Ok,
        spec_step(items[i]) == Err::<StepView, DecodeErrorKind>(k),
    ensures
        spec_steps_of_nodes(items) == Err::<Seq<StepView>, DecodeErrorKind>(k),
    decreases i,
{
    if i > 0 {
        lemma_steps_err(items.drop_first(), i - 1, k);
    }
}

/// A document node that declares an empty step sequence decodes to a config
/// with zero steps, not an error.
pub proof fn lemma_empty_document_zero_steps(
    n: RawNode,
    entries: Vec<(String, RawNode)>,
    enc: Result<String, String>,
    items: Vec<RawNode>,
    enc2: Result<String, String>,
)
    requires
        n == RawNode::MapNode(entries, enc),
        find_field(entries@, "transforms"@) == Some(RawNode::SeqNode(items, enc2)),
        items@.len() == 0,
    ensures
        spec_config_of_doc(n) == Ok::<Seq<StepView>, DecodeErrorKind>(Seq::<StepView>::empty()),
{
}

/// Assembling from an empty sequence of encoded steps yields zero steps, not
/// an error.
pub proof fn lemma_assemble_empty(texts: Seq<Seq<char>>)
    requires
        texts.len() == 0,
    ensures
        spec_assemble(texts) == Ok::<Seq<StepView>, DecodeErrorKind>(Seq::<StepView>::empty()),
{
}

/// Two independently decodable step texts assemble into exactly those two
/// steps, in input order.
pub proof fn lemma_assemble_pair(t0: Seq<char>, t1: Seq<char>, s0: StepView, s1: StepView)
    requires
        spec_step_from_text(t0) == Ok::<StepView, DecodeErrorKind>(s0),
        spec_step_from_text(t1) == Ok::<StepView, DecodeErrorKind>(s1),
    ensures
        spec_assemble(seq![t0, t1]) == Ok::<Seq<StepView>, DecodeErrorKind>(seq![s0, s1]),
{
    let texts = seq![t0, t1];
    assert(texts[0] == t0);
    assert(texts.drop_first() =~= seq![t1]);
    assert(seq![t1][0] == t1);
    assert(seq![t1].drop_first() =~= Seq::<Seq<char>>::empty());
    assert(spec_assemble(Seq::<Seq<char>>::empty()) == Ok::<Seq<StepView>, DecodeErrorKind>(
        Seq::<StepView>::empty(),
    ));
    assert(seq![s1] + Seq::<StepView>::empty() =~= seq![s1]);
    assert(spec_assemble(seq![t1]) == Ok::<Seq<StepView>, DecodeErrorKind>(seq![s1]));
    assert(seq![s0] + seq![s1] =~= seq![s0, s1]);
}

/// An entry that fails to decode leaves no partial result: the whole
/// assembly fails.
pub proof fn lemma_no_partial_assembly(texts: Seq<Seq<char>>, i: int)
    requires
        0 <= i < texts.len(),
        spec_step_from_text(texts[i]) is Err,
    ensures
        spec_assemble(texts) is Err,
    decreases i,
{
    if i > 0 && spec_step_from_text(texts[0]) is Ok {
        lemma_no_partial_assembly(texts.drop_first(), i - 1);
    }
}

/// A step node that fails to decode leaves no partial result: the whole
/// document decode fails.
pub proof fn lemma_no_partial_document(items: Seq<RawNode>, i: int)
    requires
        0 <= i < items.len(),
        spec_step(items[i]) is Err,
    ensures
        spec_steps_of_nodes(items) is Err,
    decreases i,
{
    if i > 0 && spec_step(items[0]) is Ok {
        lemma_no_partial_document(items.drop_first(), i - 1);
    }
}

impl TransformationConfig {
    /// A config holding exactly the one given step.
    pub fn from_step(step: TransformationStep) -> (r: Self)
        ensures
            r@ == seq![step@],
    {
        let mut transforms: Vec<TransformationStep> = Vec::new();
        transforms.push(step);
        let r = TransformationConfig { transforms };
        proof {
            assert(r@ =~= seq![step@]);
        }
        r
    }

    /// Assembles a config from independently-encoded step descriptors, in
    /// input order; the first descriptor that fails to decode aborts the
    /// whole call with its error, leaving no partial config.
    pub fn from_encoded_steps(items: &Vec<String>) -> (r: Result<Self, DecodeError>)
        ensures
            match r {
                Ok(c) => spec_assemble(items@.map_values(|s: String| s@)) == Ok::<
                    Seq<StepView>,
                    DecodeErrorKind,
                >(c@),
                Err(e) => spec_assemble(items@.map_values(|s: String| s@)) == Err::<
                    Seq<StepView>,
                    DecodeErrorKind,
                >(e@),
            },
    {
        let ghost all = items@.map_values(|s: String| s@);
        let mut steps: Vec<TransformationStep> = Vec::new();
        let mut i: usize = 0;
        #[verifier::loop_isolation(false)]
        while i < items.len()
            invariant
                i <= items@.len(),
                steps@.len() == i,
                forall|j: int|
                    0 <= j < i ==> spec_step_from_text(all[j]) == Ok::<
                        StepView,
                        DecodeErrorKind,
                    >(#[trigger] steps@[j]@),
            decreases items@.len() - i,
        {
            match TransformationStep::try_from_str(items[i].as_str()) {
                Ok(st) => {
                    steps.push(st);
                },
                Err(e) => {
                    proof {
                        assert forall|j: int| 0 <= j < i implies spec_step_from_text(
                            #[trigger] all[j],
                        ) is Ok by {
                            assert(spec_step_from_text(all[j]) == Ok::<
                                StepView,
                                DecodeErrorKind,
                            >(steps@[j]@));
                        }
                        lemma_assemble_err(all, i as int, e@);
                    }
                    return Err(e);
                },
            }
            i = i + 1;
        }
        let c = TransformationConfig { transforms: steps };
        proof {
            lemma_assemble_ok(all, c@);
        }
        Ok(c)
    }

    /// Decodes a whole configuration document: a mapping whose `transforms`
    /// field holds the sequence of step descriptors, in declared order.  A
    /// document declaring no steps yields a config with zero steps.
    pub fn from_document(text: &str) -> (r: Result<Self, DecodeError>)
        ensures
            match r {
                Ok(c) => spec_config_from_document(text@) == Ok::<
                    Seq<StepView>,
                    DecodeErrorKind,
                >(c@),
                Err(e) => spec_config_from_document(text@) == Err::<
                    Seq<StepView>,
                    DecodeErrorKind,
                >(e@),
            },
    {
        let node = match parse_yaml_node(text) {
            Ok(n) => n,
            Err(m) => {
                return Err(DecodeError::Syntax(m));
            },
        };
        match &node {
            RawNode::MapNode(entries, _) => match get_field(entries, "transforms") {
                Option::Some(RawNode::SeqNode(items, _)) => {
                    let mut steps: Vec<TransformationStep> = Vec::new();
                    let mut i: usize = 0;
                    #[verifier::loop_isolation(false)]
                    while i < items.len()
                        invariant
                            i <= items@.len(),
                            steps@.len() == i,
                            forall|j: int|
                                0 <= j < i ==> spec_step(items@[j]) == Ok::<
                                    StepView,
                                    DecodeErrorKind,
                                >(#[trigger] steps@[j]@),
                        decreases items@.len() - i,
                    {
                        match decode_step(&items[i]) {
                            Ok(st) => {
                                steps.push(st);
                            },
                            Err(e) => {
                                proof {
                                    assert forall|j: int| 0 <= j < i implies spec_step(
                                        #[trigger] items@[j],
                                    ) is Ok by {
                                        assert(spec_step(items@[j]) == Ok::<
                                            StepView,
                                            DecodeErrorKind,
                                        >(steps@[j]@));
                                    }
                                    lemma_steps_err(items@, i as int, e@);
                                }
                                return Err(e);
                            },
                        }
                        i = i + 1;
                    }
                    let c = TransformationConfig { transforms: steps };
                    proof {
                        lemma_steps_ok(items@, c@);
                    }
                    Ok(c)
                },
                Option::Some(_) => Err(DecodeError::TransformsNotSequence),
                Option::None => Err(DecodeError::MissingTransforms),
            },
            _ => Err(DecodeError::DocumentNotMapping),
        }
    }
}

} // verus!
