use transform_config::{JsonString, ParamMap, TransformationStep};

#[test]
fn test_entries_ascend_regardless_of_insertion_order() {
    let mut m = ParamMap::new();
    m.insert("c".to_string(), JsonString::new("3".to_string()));
    m.insert("a".to_string(), JsonString::new("1".to_string()));
    m.insert("b".to_string(), JsonString::new("2".to_string()));
    let keys: Vec<&str> = m.entries().iter().map(|p| p.0.as_str()).collect();
    assert_eq!(keys, vec!["a", "b", "c"]);
}

#[test]
fn test_decoded_with_mapping_ascends() {
    let step = TransformationStep::try_from_str(
        r#"{"uses":"x","with":{"zeta":"1","alpha":"2","mid":"3"}}"#,
    )
    .expect("step");
    let keys: Vec<&str> = step.with.entries().iter().map(|p| p.0.as_str()).collect();
    assert_eq!(keys, vec!["alpha", "mid", "zeta"]);
    assert_eq!(step.with.entries()[0].1.as_str(), "2");
    assert_eq!(step.with.entries()[1].1.as_str(), "3");
    assert_eq!(step.with.entries()[2].1.as_str(), "1");
}

#[test]
fn test_last_writer_wins_on_equal_keys() {
    let m = ParamMap::from_pairs(vec![
        ("k".to_string(), JsonString::new("old".to_string())),
        ("k".to_string(), JsonString::new("new".to_string())),
    ]);
    assert_eq!(m.len(), 1);
    assert_eq!(m.entries()[0].1.as_str(), "new");
}

#[test]
fn test_get_finds_bound_value() {
    let mut m = ParamMap::new();
    m.insert("spec".to_string(), JsonString::new("[1]".to_string()));
    m.insert("mapping".to_string(), JsonString::new("{}".to_string()));
    assert_eq!(m.get("spec").map(|v| v.as_str()), Some("[1]"));
    assert_eq!(m.get("mapping").map(|v| v.as_str()), Some("{}"));
    assert!(m.get("absent").is_none());
}

#[test]
fn test_param_map_equality_is_content_equality() {
    let a = ParamMap::from_pairs(vec![
        ("x".to_string(), JsonString::new("1".to_string())),
        ("y".to_string(), JsonString::new("2".to_string())),
    ]);
    let b = ParamMap::from_pairs(vec![
        ("y".to_string(), JsonString::new("2".to_string())),
        ("x".to_string(), JsonString::new("1".to_string())),
    ]);
    assert_eq!(a, b);
}
