use unibundle::config::{get_ts_config, ConfigValue, TsConfig};
use unibundle::options::{to_emit_options, ConfigError, ImportsNotUsedAsValues};

fn doc_with(changes: Vec<(&str, ConfigValue)>) -> TsConfig {
    let mut config = get_ts_config();
    let over = ConfigValue::Obj(
        changes
            .into_iter()
            .map(|(k, v)| (k.to_string(), v))
            .collect(),
    );
    config.merge(&over);
    config
}

#[test]
fn default_document_emit_options() {
    let opts = to_emit_options(&get_ts_config()).unwrap();
    assert_eq!(opts.emit_metadata, false);
    assert_eq!(
        opts.imports_not_used_as_values,
        ImportsNotUsedAsValues::Remove
    );
    assert_eq!(opts.inline_source_map, false);
    assert_eq!(opts.inline_sources, false);
    assert_eq!(opts.source_map, false);
    assert_eq!(opts.transform_jsx, true);
    assert_eq!(opts.jsx_automatic, false);
    assert_eq!(opts.jsx_development, false);
    assert_eq!(opts.jsx_factory, "React.createElement");
    assert_eq!(opts.jsx_fragment_factory, "React.Fragment");
    assert_eq!(opts.jsx_import_source, None);
    assert_eq!(opts.var_decl_imports, false);
}

#[test]
fn jsx_mode_react() {
    let opts = to_emit_options(&doc_with(vec![(
        "jsx",
        ConfigValue::Str("react".to_string()),
    )]))
    .unwrap();
    assert_eq!(
        (opts.transform_jsx, opts.jsx_automatic, opts.jsx_development),
        (true, false, false)
    );
}

#[test]
fn jsx_mode_react_jsx() {
    let opts = to_emit_options(&doc_with(vec![(
        "jsx",
        ConfigValue::Str("react-jsx".to_string()),
    )]))
    .unwrap();
    assert_eq!(
        (opts.transform_jsx, opts.jsx_automatic, opts.jsx_development),
        (true, true, false)
    );
}

#[test]
fn jsx_mode_react_jsxdev() {
    let opts = to_emit_options(&doc_with(vec![(
        "jsx",
        ConfigValue::Str("react-jsxdev".to_string()),
    )]))
    .unwrap();
    assert_eq!(
        (opts.transform_jsx, opts.jsx_automatic, opts.jsx_development),
        (true, true, true)
    );
}

#[test]
fn jsx_mode_other_disables_transform() {
    let opts = to_emit_options(&doc_with(vec![(
        "jsx",
        ConfigValue::Str("preact".to_string()),
    )]))
    .unwrap();
    assert_eq!(
        (opts.transform_jsx, opts.jsx_automatic, opts.jsx_development),
        (false, false, false)
    );
}

#[test]
fn imports_not_used_as_values_tristate() {
    let preserve = to_emit_options(&doc_with(vec![(
        "importsNotUsedAsValues",
        ConfigValue::Str("preserve".to_string()),
    )]))
    .unwrap();
    assert_eq!(
        preserve.imports_not_used_as_values,
        ImportsNotUsedAsValues::Preserve
    );
    let error = to_emit_options(&doc_with(vec![(
        "importsNotUsedAsValues",
        ConfigValue::Str("error".to_string()),
    )]))
    .unwrap();
    assert_eq!(
        error.imports_not_used_as_values,
        ImportsNotUsedAsValues::Error
    );
    let other = to_emit_options(&doc_with(vec![(
        "importsNotUsedAsValues",
        ConfigValue::Str("anything".to_string()),
    )]))
    .unwrap();
    assert_eq!(
        other.imports_not_used_as_values,
        ImportsNotUsedAsValues::Remove
    );
}

#[test]
fn jsx_import_source_carries_over() {
    let opts = to_emit_options(&doc_with(vec![(
        "jsxImportSource",
        ConfigValue::Str("preact".to_string()),
    )]))
    .unwrap();
    assert_eq!(opts.jsx_import_source, Some("preact".to_string()));
}

#[test]
fn allow_importing_ts_extensions_is_recognized() {
    let r = to_emit_options(&doc_with(vec![(
        "allowImportingTsExtensions",
        ConfigValue::Bool(true),
    )]));
    assert!(r.is_ok());
    let wrong = to_emit_options(&doc_with(vec![(
        "allowImportingTsExtensions",
        ConfigValue::Str("yes".to_string()),
    )]));
    assert_eq!(wrong, Err(ConfigError::InvalidConfig));
}

#[test]
fn unknown_field_fails() {
    let r = to_emit_options(&doc_with(vec![("target", ConfigValue::Str("es6".to_string()))]));
    assert_eq!(r, Err(ConfigError::InvalidConfig));
}

#[test]
fn missing_field_fails() {
    let partial = TsConfig::new(ConfigValue::Obj(vec![(
        "jsx".to_string(),
        ConfigValue::Str("react".to_string()),
    )]));
    assert_eq!(to_emit_options(&partial), Err(ConfigError::InvalidConfig));
}

#[test]
fn wrongly_typed_field_fails() {
    let r = to_emit_options(&doc_with(vec![("sourceMap", ConfigValue::Str("yes".to_string()))]));
    assert_eq!(r, Err(ConfigError::InvalidConfig));
}

#[test]
fn non_object_document_fails() {
    let r = to_emit_options(&TsConfig::new(ConfigValue::Null));
    assert_eq!(r, Err(ConfigError::InvalidConfig));
}
