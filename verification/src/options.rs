//! Translation of a merged configuration document into the strongly-typed
//! option record the transpiler-facing emit stage consumes.

use vstd::prelude::*;

use crate::config::{
    entries_view, has_skey, lemma_entries_view_at, lemma_entries_view_contains, ConfigValue,
    ConfigView, TsConfig,
};

verus! {

/// Policy for imports that are only used as types.
#[derive(Debug, Clone, Copy, PartialEq, Eq, Structural)]
pub enum ImportsNotUsedAsValues {
    Remove,
    Preserve,
    Error,
}

/// The option record handed to the emit stage.
#[derive(Debug, PartialEq)]
pub struct EmitOptions {
    pub emit_metadata: bool,
    pub imports_not_used_as_values: ImportsNotUsedAsValues,
    pub inline_source_map: bool,
    pub inline_sources: bool,
    pub source_map: bool,
    pub jsx_automatic: bool,
    pub jsx_development: bool,
    pub jsx_factory: String,
    pub jsx_fragment_factory: String,
    pub jsx_import_source: Option<String>,
    pub transform_jsx: bool,
    pub var_decl_imports: bool,
}

/// The import-elision policy named by a configuration string: `preserve` and
/// `error` select themselves, anything else selects `remove`.
pub open spec fn spec_imports(s: Seq<char>) -> ImportsNotUsedAsValues {
    if s == "preserve"@ {
        ImportsNotUsedAsValues::Preserve
    } else if s == "error"@ {
        ImportsNotUsedAsValues::Error
    } else {
        ImportsNotUsedAsValues::Remove
    }
}

/// The (transform, automatic runtime, development) triple derived from a JSX
/// mode string.
pub open spec fn jsx_flags(mode: Seq<char>) -> (bool, bool, bool) {
    if mode == "react"@ {
        (true, false, false)
    } else if mode == "react-jsx"@ {
        (true, true, false)
    } else if mode == "react-jsxdev"@ {
        (true, true, true)
    } else {
        (false, false, false)
    }
}

/// The JSX mode classification is total: each of the three named modes gets
/// its exact triple, and every other string disables the transform.
pub proof fn lemma_jsx_mode_classification(mode: Seq<char>)
    ensures
        mode == "react"@ ==> jsx_flags(mode) == (true, false, false),
        mode == "react-jsx"@ ==> jsx_flags(mode) == (true, true, false),
        mode == "react-jsxdev"@ ==> jsx_flags(mode) == (true, true, true),
        mode != "react"@ && mode != "react-jsx"@ && mode != "react-jsxdev"@ ==> jsx_flags(mode)
            == (false, false, false),
{
    reveal_strlit("react");
    reveal_strlit("react-jsx");
    reveal_strlit("react-jsxdev");
    assert("react"@.len() == 5);
    assert("react-jsx"@.len() == 9);
    assert("react-jsxdev"@.len() == 12);
}

/// A recognized configuration key.
pub open spec fn is_recognized_key(k: Seq<char>) -> bool {
    ||| k == "checkJs"@
    ||| k == "emitDecoratorMetadata"@
    ||| k == "importsNotUsedAsValues"@
    ||| k == "inlineSourceMap"@
    ||| k == "inlineSources"@
    ||| k == "sourceMap"@
    ||| k == "jsx"@
    ||| k == "jsxFactory"@
    ||| k == "jsxFragmentFactory"@
    ||| k == "jsxImportSource"@
    ||| k == "allowImportingTsExtensions"@
}

/// A document that deserializes: every key recognized, every required key
/// present with the right type, the optional keys well-typed where present.
pub open spec fn doc_ok(m: Map<Seq<char>, ConfigView>) -> bool {
    &&& (forall|k: Seq<char>| m.contains_key(k) ==> is_recognized_key(k))
    &&& m.contains_key("checkJs"@) && m["checkJs"@] is Bool
    &&& m.contains_key("emitDecoratorMetadata"@) && m["emitDecoratorMetadata"@] is Bool
    &&& m.contains_key("importsNotUsedAsValues"@) && m["importsNotUsedAsValues"@] is Str
    &&& m.contains_key("inlineSourceMap"@) && m["inlineSourceMap"@] is Bool
    &&& m.contains_key("inlineSources"@) && m["inlineSources"@] is Bool
    &&& m.contains_key("sourceMap"@) && m["sourceMap"@] is Bool
    &&& m.contains_key("jsx"@) && m["jsx"@] is Str
    &&& m.contains_key("jsxFactory"@) && m["jsxFactory"@] is Str
    &&& m.contains_key("jsxFragmentFactory"@) && m["jsxFragmentFactory"@] is Str
    &&& (m.contains_key("jsxImportSource"@) ==> m["jsxImportSource"@] is Str)
    &&& (m.contains_key("allowImportingTsExtensions"@) ==> m["allowImportingTsExtensions"@]
        is Bool)
}

/// The configuration document did not deserialize into the option record.
#[derive(Debug, Clone, Copy, PartialEq, Eq, Structural)]
pub enum ConfigError {
    InvalidConfig,
}

/// Whether `s` spells the same characters as `lit`.
fn str_value_is(s: &String, lit: &str) -> (r: bool)
    ensures
        r == (s@ == lit@),
{
    let other = String::from_str(lit);
    *s == other
}

/// The value at the first entry carrying `key`, if any; the model's value at
/// that key.
fn get_value<'a>(es: &'a Vec<(String, ConfigValue)>, key: &str) -> (r: Option<&'a ConfigValue>)
    ensures
        match r {
            Some(v) => entries_view(es@).contains_key(key@) && v@ == entries_view(es@)[key@],
            None => !entries_view(es@).contains_key(key@),
        },
{
    let mut i: usize = 0;
    while i < es.len()
        invariant
            i <= es@.len(),
            forall|j: int| 0 <= j < i ==> (#[trigger] es@[j]).0@ != key@,
        decreases es@.len() - i,
    {
        if str_value_is(&es[i].0, key) {
            proof {
                lemma_entries_view_at(es@, i as int);
            }
            return Some(&es[i].1);
        }
        i += 1;
    }
    proof {
        lemma_entries_view_contains(es@, key@);
    }
    None
}

/// Deserialize a merged configuration document into the emit option record.
///
/// Fails exactly when the document is not an object, carries an unrecognized
/// key, misses a required key, or types a key wrongly. The JSX mode string
/// becomes the three derived flags; the import-elision string defaults to
/// `remove` for unrecognized values.
pub fn to_emit_options(config: &TsConfig) -> (r: Result<EmitOptions, ConfigError>)
    ensures
        r is Ok <==> config.0@ is Obj && doc_ok(config.0@->Obj_0),
        r is Err ==> r == Result::<EmitOptions, ConfigError>::Err(ConfigError::InvalidConfig),
        r is Ok ==> {
            let m = config.0@->Obj_0;
            let opts = r->Ok_0;
            &&& opts.emit_metadata == m["emitDecoratorMetadata"@]->Bool_0
            &&& opts.imports_not_used_as_values == spec_imports(
                m["importsNotUsedAsValues"@]->Str_0,
            )
            &&& opts.inline_source_map == m["inlineSourceMap"@]->Bool_0
            &&& opts.inline_sources == m["inlineSources"@]->Bool_0
            &&& opts.source_map == m["sourceMap"@]->Bool_0
            &&& opts.transform_jsx == jsx_flags(m["jsx"@]->Str_0).0
            &&& opts.jsx_automatic == jsx_flags(m["jsx"@]->Str_0).1
            &&& opts.jsx_development == jsx_flags(m["jsx"@]->Str_0).2
            &&& opts.jsx_factory@ == m["jsxFactory"@]->Str_0
            &&& opts.jsx_fragment_factory@ == m["jsxFragmentFactory"@]->Str_0
            &&& match opts.jsx_import_source {
                Some(s) => m.contains_key("jsxImportSource"@) && s@
                    == m["jsxImportSource"@]->Str_0,
                None => !m.contains_key("jsxImportSource"@),
            }
            &&& opts.var_decl_imports == false
        },
{
    let es = match &config.0 {
        ConfigValue::Obj(es) => es,
        _ => {
            return Err(ConfigError::InvalidConfig);
        },
    };
    let mut i: usize = 0;
    while i < es.len()
        invariant
            config.0 is Obj,
            es == config.0->Obj_0,
            i <= es@.len(),
            forall|j: int| 0 <= j < i ==> is_recognized_key((#[trigger] es@[j]).0@),
        decreases es@.len() - i,
    {
        let k = &es[i].0;
        let known = str_value_is(k, "checkJs") || str_value_is(k, "emitDecoratorMetadata")
            || str_value_is(k, "importsNotUsedAsValues") || str_value_is(k, "inlineSourceMap")
            || str_value_is(k, "inlineSources") || str_value_is(k, "sourceMap") || str_value_is(
            k,
            "jsx",
        ) || str_value_is(k, "jsxFactory") || str_value_is(k, "jsxFragmentFactory")
            || str_value_is(k, "jsxImportSource") || str_value_is(k, "allowImportingTsExtensions");
        if !known {
            proof {
                assert(!is_recognized_key(es@[i as int].0@));
                assert(has_skey(es@, es@[i as int].0@));
                lemma_entries_view_contains(es@, es@[i as int].0@);
                assert(entries_view(es@).contains_key(es@[i as int].0@));
                assert(config.0@->Obj_0 == entries_view(es@));
                assert(!doc_ok(config.0@->Obj_0));
            }
            return Err(ConfigError::InvalidConfig);
        }
        i += 1;
    }
    proof {
        assert forall|k: Seq<char>| entries_view(es@).contains_key(k) implies is_recognized_key(
            k,
        ) by {
            lemma_entries_view_contains(es@, k);
            let j = choose|j: int| 0 <= j < es@.len() && (#[trigger] es@[j]).0@ == k;
        }
    }
    match get_value(es, "checkJs") {
        Some(ConfigValue::Bool(_)) => (),
        _ => {
            return Err(ConfigError::InvalidConfig);
        },
    };
    let emit_metadata = match get_value(es, "emitDecoratorMetadata") {
        Some(ConfigValue::Bool(b)) => *b,
        _ => {
            return Err(ConfigError::InvalidConfig);
        },
    };
    let imports_str = match get_value(es, "importsNotUsedAsValues") {
        Some(ConfigValue::Str(s)) => s,
        _ => {
            return Err(ConfigError::InvalidConfig);
        },
    };
    let inline_source_map = match get_value(es, "inlineSourceMap") {
        Some(ConfigValue::Bool(b)) => *b,
        _ => {
            return Err(ConfigError::InvalidConfig);
        },
    };
    let inline_sources = match get_value(es, "inlineSources") {
        Some(ConfigValue::Bool(b)) => *b,
        _ => {
            return Err(ConfigError::InvalidConfig);
        },
    };
    let source_map = match get_value(es, "sourceMap") {
        Some(ConfigValue::Bool(b)) => *b,
        _ => {
            return Err(ConfigError::InvalidConfig);
        },
    };
    let jsx_str = match get_value(es, "jsx") {
        Some(ConfigValue::Str(s)) => s,
        _ => {
            return Err(ConfigError::InvalidConfig);
        },
    };
    let jsx_factory = match get_value(es, "jsxFactory") {
        Some(ConfigValue::Str(s)) => s.clone(),
        _ => {
            return Err(ConfigError::InvalidConfig);
        },
    };
    let jsx_fragment_factory = match get_value(es, "jsxFragmentFactory") {
        Some(ConfigValue::Str(s)) => s.clone(),
        _ => {
            return Err(ConfigError::InvalidConfig);
        },
    };
    let jsx_import_source = match get_value(es, "jsxImportSource") {
        Some(ConfigValue::Str(s)) => Some(s.clone()),
        Some(_) => {
            return Err(ConfigError::InvalidConfig);
        },
        None => None,
    };
    match get_value(es, "allowImportingTsExtensions") {
        Some(ConfigValue::Bool(_)) => (),
        Some(_) => {
            return Err(ConfigError::InvalidConfig);
        },
        None => (),
    };
    let imports_not_used_as_values = if str_value_is(imports_str, "preserve") {
        ImportsNotUsedAsValues::Preserve
    } else if str_value_is(imports_str, "error") {
        ImportsNotUsedAsValues::Error
    } else {
        ImportsNotUsedAsValues::Remove
    };
    let (transform_jsx, jsx_automatic, jsx_development) = if str_value_is(jsx_str, "react") {
        (true, false, false)
    } else if str_value_is(jsx_str, "react-jsx") {
        (true, true, false)
    } else if str_value_is(jsx_str, "react-jsxdev") {
        (true, true, true)
    } else {
        (false, false, false)
    };
    Ok(
        EmitOptions {
            emit_metadata,
            imports_not_used_as_values,
            inline_source_map,
            inline_sources,
            source_map,
            jsx_automatic,
            jsx_development,
            jsx_factory,
            jsx_fragment_factory,
            jsx_import_source,
            transform_jsx,
            var_decl_imports: false,
        },
    )
}

} // verus!
