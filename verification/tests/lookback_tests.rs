use transform_config::{AgeDuration, DecodeError, Lookback, TransformationConfig, TransformationStep};

#[test]
fn test_lookback_last_only_leaves_age_absent() {
    let step = TransformationStep::try_from_str(r#"{"uses":"x","lookback":{"last":5}}"#)
        .expect("step");
    let lb = step.lookback.expect("lookback");
    assert_eq!(lb.last, 5);
    assert!(lb.age.is_none());
    // The native representation keeps the count and an absent age stays
    // absent, not a zero duration.
    let native = lb.to_native();
    assert_eq!(native.last, 5);
    assert!(native.age.is_none());
}

#[test]
fn test_lookback_age_token_parsed() {
    let step = TransformationStep::try_from_str(r#"{"uses":"x","lookback":{"last":2,"age":"7d"}}"#)
        .expect("step");
    let lb = step.lookback.expect("lookback");
    assert_eq!(lb.last, 2);
    assert_eq!(lb.age, Some(AgeDuration::new(3600 * 24 * 7, 0)));
    let native = lb.to_native();
    assert_eq!(native.age, Some(core::time::Duration::from_secs(3600 * 24 * 7)));
}

#[test]
fn test_lookback_defaults_when_empty() {
    let step = TransformationStep::try_from_str(r#"{"uses":"x","lookback":{}}"#).expect("step");
    let lb = step.lookback.expect("lookback");
    assert_eq!(lb.last, 0);
    assert!(lb.age.is_none());
}

#[test]
fn test_lookback_absent_means_none() {
    let step = TransformationStep::try_from_str(r#"{"uses":"x"}"#).expect("step");
    assert!(step.lookback.is_none());
}

#[test]
fn test_lookback_bad_age_token() {
    let r = TransformationStep::try_from_str(r#"{"uses":"x","lookback":{"age":"sideways"}}"#);
    assert!(matches!(r, Err(DecodeError::BadAge(_))));
}

#[test]
fn test_lookback_age_must_be_string() {
    let r = TransformationStep::try_from_str(r#"{"uses":"x","lookback":{"age":12}}"#);
    assert!(matches!(r, Err(DecodeError::AgeNotString)));
}

#[test]
fn test_lookback_last_must_be_integer() {
    let r = TransformationStep::try_from_str(r#"{"uses":"x","lookback":{"last":"ten"}}"#);
    assert!(matches!(r, Err(DecodeError::LastNotInteger)));
    let r2 = TransformationStep::try_from_str(r#"{"uses":"x","lookback":{"last":-1}}"#);
    assert!(matches!(r2, Err(DecodeError::LastNotInteger)));
}

#[test]
fn test_lookback_must_be_mapping() {
    let r = TransformationStep::try_from_str(r#"{"uses":"x","lookback":"7d"}"#);
    assert!(matches!(r, Err(DecodeError::LookbackNotMapping)));
}

#[test]
fn test_native_conversion_copies_both_fields() {
    let lb = Lookback { last: 9, age: Some(AgeDuration::new(12, 500)) };
    let native = lb.to_native();
    assert_eq!(native.last, 9);
    assert_eq!(native.age, Some(core::time::Duration::new(12, 500)));
    let config = TransformationConfig::from_step(TransformationStep {
        uses: "x".to_string(),
        lookback: Some(lb),
        with: transform_config::ParamMap::new(),
    });
    assert_eq!(config.transforms[0].lookback, Some(lb));
}

#[test]
fn test_age_token_at_numeric_limit_is_error_not_panic() {
    // A token whose spans sum to the largest representable second count with
    // an exact one-billion nanosecond carry must surface as a decode error.
    let r = TransformationStep::try_from_str(
        r#"{"uses":"x","lookback":{"age":"18446744073709551615s 1000000000ns"}}"#,
    );
    assert!(matches!(r, Err(DecodeError::BadAge(_))));
}

#[test]
fn test_age_token_large_but_bounded_still_parses() {
    let step = TransformationStep::try_from_str(
        r#"{"uses":"x","lookback":{"age":"10000000000ns"}}"#,
    )
    .expect("step");
    assert_eq!(step.lookback.expect("lookback").age, Some(AgeDuration::new(10, 0)));
}
