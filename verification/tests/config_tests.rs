use unibundle::config::{get_ts_config, json_merge, ConfigValue, TsConfig};

fn obj(entries: Vec<(&str, ConfigValue)>) -> ConfigValue {
    ConfigValue::Obj(entries.into_iter().map(|(k, v)| (k.to_string(), v)).collect())
}

#[test]
fn test_json_merge() {
    let mut value_a = obj(vec![
        ("a", ConfigValue::Bool(true)),
        ("b", ConfigValue::Str("c".to_string())),
    ]);
    let value_b = obj(vec![
        ("b", ConfigValue::Str("d".to_string())),
        ("e", ConfigValue::Bool(false)),
    ]);
    json_merge(&mut value_a, &value_b);
    assert_eq!(
        value_a,
        obj(vec![
            ("a", ConfigValue::Bool(true)),
            ("b", ConfigValue::Str("d".to_string())),
            ("e", ConfigValue::Bool(false)),
        ])
    );
}

#[test]
fn merge_disjoint_keys_keeps_union() {
    let mut base = obj(vec![("a", ConfigValue::Bool(true))]);
    let over = obj(vec![("e", ConfigValue::Bool(false))]);
    json_merge(&mut base, &over);
    assert_eq!(
        base,
        obj(vec![
            ("a", ConfigValue::Bool(true)),
            ("e", ConfigValue::Bool(false)),
        ])
    );
}

#[test]
fn merge_is_deep_for_nested_objects() {
    let mut base = obj(vec![(
        "jsx",
        obj(vec![("mode", ConfigValue::Str("react".to_string()))]),
    )]);
    let over = obj(vec![(
        "jsx",
        obj(vec![("dev", ConfigValue::Bool(true))]),
    )]);
    json_merge(&mut base, &over);
    assert_eq!(
        base,
        obj(vec![(
            "jsx",
            obj(vec![
                ("mode", ConfigValue::Str("react".to_string())),
                ("dev", ConfigValue::Bool(true)),
            ]),
        )])
    );
}

#[test]
fn merge_overwrites_mismatched_shapes() {
    let mut base = obj(vec![("a", obj(vec![("x", ConfigValue::Bool(true))]))]);
    let over = obj(vec![("a", ConfigValue::Str("flat".to_string()))]);
    json_merge(&mut base, &over);
    assert_eq!(base, obj(vec![("a", ConfigValue::Str("flat".to_string()))]));

    let mut scalar = ConfigValue::Bool(true);
    let replacement = obj(vec![("k", ConfigValue::Null)]);
    json_merge(&mut scalar, &replacement);
    assert_eq!(scalar, obj(vec![("k", ConfigValue::Null)]));
}

#[test]
fn ts_config_merge_applies_override() {
    let mut config = TsConfig::new(obj(vec![("sourceMap", ConfigValue::Bool(false))]));
    let over = obj(vec![("sourceMap", ConfigValue::Bool(true))]);
    config.merge(&over);
    assert_eq!(config.0, obj(vec![("sourceMap", ConfigValue::Bool(true))]));
}

#[test]
fn default_config_document() {
    let config = get_ts_config();
    let expected = obj(vec![
        ("checkJs", ConfigValue::Bool(false)),
        ("emitDecoratorMetadata", ConfigValue::Bool(false)),
        (
            "importsNotUsedAsValues",
            ConfigValue::Str("remove".to_string()),
        ),
        ("inlineSourceMap", ConfigValue::Bool(false)),
        ("inlineSources", ConfigValue::Bool(false)),
        ("sourceMap", ConfigValue::Bool(false)),
        ("jsx", ConfigValue::Str("react".to_string())),
        (
            "jsxFactory",
            ConfigValue::Str("React.createElement".to_string()),
        ),
        (
            "jsxFragmentFactory",
            ConfigValue::Str("React.Fragment".to_string()),
        ),
    ]);
    assert_eq!(config.0, expected);
}
