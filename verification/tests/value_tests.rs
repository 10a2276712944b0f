use transform_config::{DecodeError, JsonString, TransformationStep};

#[test]
fn test_object_param_is_canonically_encoded() {
    // An object value is re-encoded into the canonical serialization.
    let step = TransformationStep::try_from_str(r#"{"uses":"x","with":{"p":{"a":1}}}"#)
        .expect("step");
    let entries = step.with.entries();
    assert_eq!(entries.len(), 1);
    assert_eq!(entries[0].0, "p");
    assert_eq!(entries[0].1.as_str(), r#"{"a":1}"#);
}

#[test]
fn test_object_param_whitespace_is_erased() {
    // Authoring-time formatting of a structured value does not survive: the
    // canonical form is produced from the structure, not the spelling.
    let step = TransformationStep::try_from_str(r#"{"uses":"x","with":{"p":{ "b" : 2 , "a" : 1 }}}"#)
        .expect("step");
    assert_eq!(step.with.entries()[0].1.as_str(), r#"{"a":1,"b":2}"#);
}

#[test]
fn test_string_param_is_kept_verbatim() {
    // The canonical string of the same object, given in scalar-string form,
    // is stored exactly as written.
    let step = TransformationStep::try_from_str(r#"{"uses":"x","with":{"p":"{\"a\":1}"}}"#)
        .expect("step");
    assert_eq!(step.with.entries()[0].1.as_str(), r#"{"a":1}"#);
    // Even a non-canonical spelling is trusted, not reparsed.
    let step2 = TransformationStep::try_from_str(r#"{"uses":"x","with":{"p":"{ \"a\": 1 }"}}"#)
        .expect("step");
    assert_eq!(step2.with.entries()[0].1.as_str(), r#"{ "a": 1 }"#);
}

#[test]
fn test_sequence_param_is_canonically_encoded() {
    let step = TransformationStep::try_from_str(r#"{"uses":"x","with":{"p":[1, "two", {"k":3}]}}"#)
        .expect("step");
    assert_eq!(step.with.entries()[0].1.as_str(), r#"[1,"two",{"k":3}]"#);
}

#[test]
fn test_boolean_param_is_rejected() {
    let r = TransformationStep::try_from_str(r#"{"uses":"x","with":{"p":true}}"#);
    assert!(matches!(r, Err(DecodeError::UnsupportedShape)));
}

#[test]
fn test_null_param_is_rejected() {
    let r = TransformationStep::try_from_str(r#"{"uses":"x","with":{"p":null}}"#);
    assert!(matches!(r, Err(DecodeError::UnsupportedShape)));
}

#[test]
fn test_number_param_is_rejected() {
    let r = TransformationStep::try_from_str(r#"{"uses":"x","with":{"p":7}}"#);
    assert!(matches!(r, Err(DecodeError::UnsupportedShape)));
}

#[test]
fn test_json_string_round_trip() {
    let v = JsonString::new("payload".to_string());
    assert_eq!(v.as_str(), "payload");
    assert_eq!(String::from(v.into_string()), "payload".to_string());
}
