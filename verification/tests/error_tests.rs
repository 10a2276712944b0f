use transform_config::{DecodeError, TransformationConfig, TransformationStep};

#[test]
fn test_missing_uses_fails_whole_sequence() {
    let vec: Vec<String> = vec![
        r#"{"uses":"good"}"#.to_string(),
        r#"{"with":{"p":"1"}}"#.to_string(),
    ];
    let r = TransformationConfig::from_encoded_steps(&vec);
    assert!(matches!(r, Err(DecodeError::MissingUses)));
}

#[test]
fn test_missing_uses_fails_whole_document() {
    let doc = "transforms:\n  - uses: good\n  - with:\n      p: \"1\"\n";
    let r = TransformationConfig::from_document(doc);
    assert!(matches!(r, Err(DecodeError::MissingUses)));
}

#[test]
fn test_uses_must_be_string() {
    let r = TransformationStep::try_from_str(r#"{"uses":7}"#);
    assert!(matches!(r, Err(DecodeError::UsesNotString)));
}

#[test]
fn test_empty_uses_is_accepted() {
    let step = TransformationStep::try_from_str(r#"{"uses":""}"#).expect("step");
    assert_eq!(step.uses, "");
}

#[test]
fn test_step_syntax_error() {
    let r = TransformationStep::try_from_str("{not json");
    assert!(matches!(r, Err(DecodeError::Syntax(_))));
}

#[test]
fn test_document_syntax_error() {
    let r = TransformationConfig::from_document("transforms: [unclosed\n  - what:");
    assert!(matches!(r, Err(DecodeError::Syntax(_))));
}

#[test]
fn test_step_must_be_mapping() {
    let r = TransformationConfig::from_document("transforms:\n  - 5\n");
    assert!(matches!(r, Err(DecodeError::StepNotMapping)));
}

#[test]
fn test_with_must_be_mapping() {
    let r = TransformationStep::try_from_str(r#"{"uses":"x","with":["a"]}"#);
    assert!(matches!(r, Err(DecodeError::WithNotMapping)));
}

#[test]
fn test_transforms_field_required() {
    let r = TransformationConfig::from_document("other: 1\n");
    assert!(matches!(r, Err(DecodeError::MissingTransforms)));
}

#[test]
fn test_transforms_must_be_sequence() {
    let r = TransformationConfig::from_document("transforms: 5\n");
    assert!(matches!(r, Err(DecodeError::TransformsNotSequence)));
}

#[test]
fn test_document_must_be_mapping() {
    let r = TransformationConfig::from_document("- just\n- a\n- list\n");
    assert!(matches!(r, Err(DecodeError::DocumentNotMapping)));
}

#[test]
fn test_error_detail_carries_message() {
    let r = TransformationStep::try_from_str("{not json");
    match r {
        Err(e) => assert!(e.detail().is_some()),
        Ok(_) => panic!("expected a syntax error"),
    }
}
