use transform_config::{
    AgeDuration, JsonString, Lookback, ParamMap, TransformationConfig, TransformationStep,
};

fn pm(pairs: Vec<(&str, &str)>) -> ParamMap {
    ParamMap::from_pairs(
        pairs
            .into_iter()
            .map(|(k, v)| (k.to_string(), JsonString::new(v.to_string())))
            .collect(),
    )
}

#[test]
fn test_from_empty_vec() {
    //given
    let vec: Vec<String> = vec![];

    //when
    let config = TransformationConfig::from_encoded_steps(&vec).expect("transformation config");

    //then
    assert!(config.transforms.is_empty())
}

#[test]
fn test_from_vec() {
    //given
    let vec: Vec<String> = vec![
        r#"{"uses":"infinyon/jolt@0.4.1","invoke":"insert","with":{"spec":"[{\"operation\":\"remove\",\"spec\":{\"length\":\"\"}}]"}}"#.to_string(),
        r#"{"uses":"infinyon/json-sql@0.2.1","invoke":"insert","with":{"mapping":"{\"table\":\"topic_message_demo\",\"map-columns\":{\"fact\":{\"json-key\":\"fact\",\"value\":{\"type\":\"text\",\"required\":true}},\"record\":{\"json-key\":\"$\",\"value\":{\"type\":\"jsonb\",\"required\":true}}}}"}}"#.to_string(),
    ];

    //when
    let config = TransformationConfig::from_encoded_steps(&vec).expect("transformation config");

    //then
    assert_eq!(config.transforms.len(), 2);
    assert_eq!(config.transforms[0].uses, "infinyon/jolt@0.4.1");
    assert_eq!(
        config.transforms[0].with,
        pm(vec![("spec", "[{\"operation\":\"remove\",\"spec\":{\"length\":\"\"}}]")])
    );

    assert_eq!(config.transforms[1].uses, "infinyon/json-sql@0.2.1");
    assert_eq!(
        config.transforms[1].with,
        pm(vec![("mapping", "{\"table\":\"topic_message_demo\",\"map-columns\":{\"fact\":{\"json-key\":\"fact\",\"value\":{\"type\":\"text\",\"required\":true}},\"record\":{\"json-key\":\"$\",\"value\":{\"type\":\"jsonb\",\"required\":true}}}}")])
    );
}

#[test]
fn test_from_document_empty() {
    let config = TransformationConfig::from_document("transforms: []\n").expect("config file");
    assert!(config.transforms.is_empty())
}

#[test]
fn test_from_document_full() {
    let doc = r#"
transforms:
  - uses: infinyon/jolt@0.4.1
    lookback:
      age: 7d
    with:
      spec:
        - operation: shift
          spec:
            payload:
              device: device
        - operation: default
          spec:
            device:
              type: mobile
  - uses: infinyon/jolt@0.4.1
    lookback:
      last: 1
    with:
      spec:
        - operation: shift
          spec:
            payload:
              device: device
        - operation: default
          spec:
            device:
              type: mobile
  - uses: infinyon/json-sql@0.2.1
    lookback:
      last: 10
      age: 12s
    with:
      mapping:
        map-columns:
          device_id:
            json-key: device.device_id
            value:
              default: "0"
              required: true
              type: int
          record:
            json-key: "$"
            value:
              required: true
              type: jsonb
        table: topic_message_demo
"#;
    let config = TransformationConfig::from_document(doc).expect("config file");
    assert_eq!(config.transforms.len(), 3);
    assert_eq!(
        config,
        TransformationConfig {
            transforms: vec![
                TransformationStep {
                    uses: "infinyon/jolt@0.4.1".to_string(),
                    lookback: Some(Lookback {
                        last: 0,
                        age: Some(AgeDuration::new(3600 * 24 * 7, 0)),
                    }),
                    with: pm(vec![(
                        "spec",
                        "[{\"operation\":\"shift\",\"spec\":{\"payload\":{\"device\":\"device\"}}},{\"operation\":\"default\",\"spec\":{\"device\":{\"type\":\"mobile\"}}}]"
                    )]),
                },
                TransformationStep {
                    uses: "infinyon/jolt@0.4.1".to_string(),
                    lookback: Some(Lookback { last: 1, age: None }),
                    with: pm(vec![(
                        "spec",
                        "[{\"operation\":\"shift\",\"spec\":{\"payload\":{\"device\":\"device\"}}},{\"operation\":\"default\",\"spec\":{\"device\":{\"type\":\"mobile\"}}}]"
                    )]),
                },
                TransformationStep {
                    uses: "infinyon/json-sql@0.2.1".to_string(),
                    lookback: Some(Lookback {
                        last: 10,
                        age: Some(AgeDuration::new(12, 0)),
                    }),
                    with: pm(vec![(
                        "mapping",
                        "{\"map-columns\":{\"device_id\":{\"json-key\":\"device.device_id\",\"value\":{\"default\":\"0\",\"required\":true,\"type\":\"int\"}},\"record\":{\"json-key\":\"$\",\"value\":{\"required\":true,\"type\":\"jsonb\"}}},\"table\":\"topic_message_demo\"}"
                    )]),
                },
            ]
        }
    )
}

#[test]
fn test_from_step_singleton() {
    let step = TransformationStep {
        uses: "infinyon/jolt@0.4.1".to_string(),
        lookback: None,
        with: ParamMap::new(),
    };
    let config = TransformationConfig::from_step(step.clone());
    assert_eq!(config.transforms, vec![step]);
}

#[test]
fn test_two_element_assembly_order() {
    let vec: Vec<String> = vec![
        r#"{"uses":"first","with":{"p":"1"}}"#.to_string(),
        r#"{"uses":"second"}"#.to_string(),
    ];
    let config = TransformationConfig::from_encoded_steps(&vec).expect("transformation config");
    assert_eq!(config.transforms.len(), 2);
    assert_eq!(config.transforms[0].uses, "first");
    assert_eq!(config.transforms[0].with, pm(vec![("p", "1")]));
    assert_eq!(config.transforms[1].uses, "second");
    assert!(config.transforms[1].with.is_empty());
}

#[test]
fn test_defaults_are_empty() {
    let config = TransformationConfig::default();
    assert!(config.transforms.is_empty());
    let step = TransformationStep::default();
    assert_eq!(step.uses, "");
    assert!(step.lookback.is_none());
    assert!(step.with.is_empty());
    assert_eq!(JsonString::default().as_str(), "");
}
