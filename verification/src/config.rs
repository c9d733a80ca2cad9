//! Transpilation configuration documents and the deep-merge facility.
//!
//! A configuration is a nested key-value document ([`ConfigValue`]). A base
//! document is merged with caller overrides: the merge is deep for nested
//! objects and overwrite-wins for everything else ([`json_merge`]).

use vstd::prelude::*;

verus! {

/// A nested key-value configuration document (the shape of a JSON value,
/// without numbers, which no recognized configuration key uses).
#[derive(Debug, PartialEq)]
pub enum ConfigValue {
    Null,
    Bool(bool),
    Str(String),
    Arr(Vec<ConfigValue>),
    Obj(Vec<(String, ConfigValue)>),
}

/// The mathematical model of a document: objects become maps from key to
/// value model, so that two documents are the same exactly when every lookup
/// agrees.
#[verifier::ext_equal]
pub enum ConfigView {
    Null,
    Bool(bool),
    Str(Seq<char>),
    Arr(Seq<ConfigView>),
    Obj(Map<Seq<char>, ConfigView>),
}

/// Model of an entry list: a map in which the first occurrence of a key wins,
/// matching the lookup order of the executable code.
pub open spec fn entries_view(es: Seq<(String, ConfigValue)>) -> Map<Seq<char>, ConfigView>
    decreases es,
{
    if es.len() == 0 {
        Map::empty()
    } else {
        proof {
            assert(decreases_to!(es => es[0]));
        }
        entries_view(es.drop_first()).insert(es[0].0@, view_of(es[0].1))
    }
}

/// Model of a document value.
pub open spec fn view_of(v: ConfigValue) -> ConfigView
    decreases v,
{
    match v {
        ConfigValue::Null => ConfigView::Null,
        ConfigValue::Bool(b) => ConfigView::Bool(b),
        ConfigValue::Str(s) => ConfigView::Str(s@),
        ConfigValue::Arr(items) => {
            proof {
                assert(decreases_to!(v => items));
                assert(decreases_to!(items => items@));
            }
            ConfigView::Arr(
                Seq::new(
                    items@.len(),
                    |i: int|
                        if 0 <= i < items@.len() {
                            view_of(items@[i])
                        } else {
                            ConfigView::Null
                        },
                ),
            )
        },
        ConfigValue::Obj(entries) => {
            proof {
                assert(decreases_to!(v => entries));
                assert(decreases_to!(entries => entries@));
            }
            ConfigView::Obj(entries_view(entries@))
        },
    }
}

impl View for ConfigValue {
    type V = ConfigView;

    open spec fn view(&self) -> ConfigView {
        view_of(*self)
    }
}

/// No key occurs twice in the entry list.
pub open spec fn unique_keys(es: Seq<(String, ConfigValue)>) -> bool {
    forall|i: int, j: int| 0 <= i < j < es.len() ==> es[i].0@ != es[j].0@
}

/// A well-formed document: every object, at every depth, has unique keys.
pub open spec fn wf(v: ConfigValue) -> bool
    decreases v,
{
    match v {
        ConfigValue::Arr(items) => forall|i: int|
            0 <= i < items@.len() ==> wf(#[trigger] items@[i]),
        ConfigValue::Obj(entries) => unique_keys(entries@) && forall|i: int|
            0 <= i < entries@.len() ==> wf(#[trigger] entries@[i].1),
        _ => true,
    }
}

/// Some entry carries the key `k`.
pub open spec fn has_skey(es: Seq<(String, ConfigValue)>, k: Seq<char>) -> bool {
    exists|j: int| 0 <= j < es.len() && es[j].0@ == k
}

/// The merge of two object models: the union of the domains; on shared keys
/// the values are merged recursively, otherwise the single present value is
/// kept.
pub open spec fn merged_obj(
    ma: Map<Seq<char>, ConfigView>,
    mb: Map<Seq<char>, ConfigView>,
) -> Map<Seq<char>, ConfigView> {
    Map::new(
        |k: Seq<char>| ma.contains_key(k) || mb.contains_key(k),
        |k: Seq<char>|
            if mb.contains_key(k) {
                if ma.contains_key(k) {
                    spec_merge(ma[k], mb[k])
                } else {
                    mb[k]
                }
            } else {
                ma[k]
            },
    )
}

/// The merge of two document models: deep for two objects, otherwise the
/// override replaces the base entirely.
pub open spec fn spec_merge(a: ConfigView, b: ConfigView) -> ConfigView
    decreases b,
{
    if a is Obj && b is Obj {
        let ma = a->Obj_0;
        let mb = b->Obj_0;
        ConfigView::Obj(
            Map::new(
                |k: Seq<char>| ma.contains_key(k) || mb.contains_key(k),
                |k: Seq<char>|
                    if mb.contains_key(k) {
                        if ma.contains_key(k) {
                            spec_merge(ma[k], mb[k])
                        } else {
                            mb[k]
                        }
                    } else {
                        ma[k]
                    },
            ),
        )
    } else {
        b
    }
}

/// On two objects, the merge is exactly the merged object model.
pub proof fn lemma_spec_merge_obj(a: ConfigView, b: ConfigView)
    requires
        a is Obj,
        b is Obj,
    ensures
        spec_merge(a, b) == ConfigView::Obj(merged_obj(a->Obj_0, b->Obj_0)),
{
    assert(spec_merge(a, b)->Obj_0 =~= merged_obj(a->Obj_0, b->Obj_0));
}

impl Clone for ConfigValue {
    /// Deep copy with the same model.
    fn clone(&self) -> (r: Self)
        ensures
            r@ == self@,
        decreases *self,
    {
        match self {
            ConfigValue::Null => ConfigValue::Null,
            ConfigValue::Bool(b) => ConfigValue::Bool(*b),
            ConfigValue::Str(s) => ConfigValue::Str(s.clone()),
            ConfigValue::Arr(items) => {
                let mut out: Vec<ConfigValue> = Vec::new();
                let mut i: usize = 0;
                while i < items.len()
                    invariant
                        *self == ConfigValue::Arr(*items),
                        i <= items@.len(),
                        out@.len() == i,
                        forall|j: int| 0 <= j < i ==> out@[j]@ == items@[j]@,
                    decreases items@.len() - i,
                {
                    proof {
                        assert(*items == (*self)->Arr_0);
                        assert(decreases_to!(*self => (*self)->Arr_0));
                        assert(decreases_to!(*items => items@));
                        assert(decreases_to!(items@ => items@[i as int]));
                    }
                    out.push(items[i].clone());
                    i += 1;
                }
                let r = ConfigValue::Arr(out);
                proof {
                    assert(r@ is Arr && self@ is Arr);
                    assert(r@->Arr_0 =~= self@->Arr_0);
                }
                r
            },
            ConfigValue::Obj(entries) => {
                let mut out: Vec<(String, ConfigValue)> = Vec::new();
                let mut i: usize = 0;
                while i < entries.len()
                    invariant
                        *self == ConfigValue::Obj(*entries),
                        i <= entries@.len(),
                        out@.len() == i,
                        forall|j: int|
                            0 <= j < i ==> out@[j].0@ == entries@[j].0@ && out@[j].1@
                                == entries@[j].1@,
                    decreases entries@.len() - i,
                {
                    proof {
                        assert(*entries == (*self)->Obj_0);
                        assert(decreases_to!(*self => (*self)->Obj_0));
                        assert(decreases_to!(*entries => entries@));
                        assert(decreases_to!(entries@ => entries@[i as int]));
                        assert(decreases_to!(entries@[i as int] => entries@[i as int].1));
                    }
                    let k = entries[i].0.clone();
                    let v = entries[i].1.clone();
                    out.push((k, v));
                    i += 1;
                }
                let r = ConfigValue::Obj(out);
                proof {
                    lemma_entries_view_congruence(r->Obj_0@, entries@);
                }
                r
            },
        }
    }
}

/// Entry lists that agree key-for-key and model-for-model have the same model.
proof fn lemma_entries_view_congruence(
    es1: Seq<(String, ConfigValue)>,
    es2: Seq<(String, ConfigValue)>,
)
    requires
        es1.len() == es2.len(),
        forall|i: int|
            0 <= i < es1.len() ==> (#[trigger] es1[i]).0@ == (#[trigger] es2[i]).0@ && es1[i].1@
                == es2[i].1@,
    ensures
        entries_view(es1) == entries_view(es2),
    decreases es1.len(),
{
    if es1.len() == 0 {
    } else {
        let d1 = es1.drop_first();
        let d2 = es2.drop_first();
        assert forall|i: int| 0 <= i < d1.len() implies (#[trigger] d1[i]).0@
            == (#[trigger] d2[i]).0@ && d1[i].1@ == d2[i].1@ by {
            assert(d1[i] == es1[i + 1]);
            assert(d2[i] == es2[i + 1]);
            assert(es1[i + 1].1@ == es2[i + 1].1@);
        }
        lemma_entries_view_congruence(d1, d2);
        assert(es1[0].1@ == es2[0].1@);
        assert(entries_view(es1) =~= entries_view(es2));
    }
}

/// Appending an entry adds its key to the model unless the key was already
/// present, in which case the earlier entry keeps winning.
proof fn lemma_entries_view_push(es: Seq<(String, ConfigValue)>, e: (String, ConfigValue))
    ensures
        entries_view(es.push(e)) == if has_skey(es, e.0@) {
            entries_view(es)
        } else {
            entries_view(es).insert(e.0@, e.1@)
        },
    decreases es.len(),
{
    if es.len() == 0 {
        assert(es.push(e).drop_first() =~= es);
        assert(entries_view(es.push(e)) =~= entries_view(es).insert(e.0@, e.1@));
    } else {
        assert(es.push(e).drop_first() =~= es.drop_first().push(e));
        lemma_entries_view_push(es.drop_first(), e);
        if has_skey(es, e.0@) {
            if es[0].0@ == e.0@ {
                if has_skey(es.drop_first(), e.0@) {
                    assert(entries_view(es.push(e)) =~= entries_view(es));
                } else {
                    assert(entries_view(es.push(e)) =~= entries_view(es));
                }
            } else {
                let j = choose|j: int| 0 <= j < es.len() && es[j].0@ == e.0@;
                assert(es.drop_first()[j - 1].0@ == e.0@);
                assert(has_skey(es.drop_first(), e.0@));
                assert(entries_view(es.push(e)) =~= entries_view(es));
            }
        } else {
            assert(!has_skey(es.drop_first(), e.0@));
            assert(entries_view(es.push(e)) =~= entries_view(es).insert(e.0@, e.1@));
        }
    }
}

/// The model contains a key exactly when some entry carries it.
pub proof fn lemma_entries_view_contains(es: Seq<(String, ConfigValue)>, k: Seq<char>)
    ensures
        entries_view(es).contains_key(k) <==> has_skey(es, k),
    decreases es.len(),
{
    if es.len() == 0 {
    } else {
        lemma_entries_view_contains(es.drop_first(), k);
        if es[0].0@ == k {
        } else {
            if has_skey(es.drop_first(), k) {
                let j = choose|j: int|
                    0 <= j < es.drop_first().len() && es.drop_first()[j].0@ == k;
                assert(es[j + 1].0@ == k);
            } else {
                if has_skey(es, k) {
                    let j = choose|j: int| 0 <= j < es.len() && es[j].0@ == k;
                    assert(es.drop_first()[j - 1].0@ == k);
                }
            }
        }
    }
}

/// The model's value at the key of a first-occurrence entry is that entry's
/// value model.
pub proof fn lemma_entries_view_at(es: Seq<(String, ConfigValue)>, idx: int)
    requires
        0 <= idx < es.len(),
        forall|j: int| 0 <= j < idx ==> es[j].0@ != es[idx].0@,
    ensures
        entries_view(es).contains_key(es[idx].0@),
        entries_view(es)[es[idx].0@] == es[idx].1@,
    decreases es.len(),
{
    if idx == 0 {
    } else {
        assert(forall|j: int|
            0 <= j < idx - 1 ==> (#[trigger] es.drop_first()[j]).0@ != es.drop_first()[idx
                - 1].0@);
        lemma_entries_view_at(es.drop_first(), idx - 1);
        assert(es[0].0@ != es[idx].0@);
    }
}

/// Replacing the value of a first-occurrence entry updates the model at that
/// key alone.
proof fn lemma_entries_view_update(
    es: Seq<(String, ConfigValue)>,
    idx: int,
    e2: (String, ConfigValue),
)
    requires
        0 <= idx < es.len(),
        forall|j: int| 0 <= j < idx ==> es[j].0@ != es[idx].0@,
        e2.0@ == es[idx].0@,
    ensures
        entries_view(es.update(idx, e2)) == entries_view(es).insert(e2.0@, e2.1@),
    decreases es.len(),
{
    if idx == 0 {
        assert(es.update(0, e2).drop_first() =~= es.drop_first());
        assert(entries_view(es.update(0, e2)) =~= entries_view(es).insert(e2.0@, e2.1@));
    } else {
        assert(es.update(idx, e2).drop_first() =~= es.drop_first().update(idx - 1, e2));
        assert(forall|j: int|
            0 <= j < idx - 1 ==> (#[trigger] es.drop_first()[j]).0@ != es.drop_first()[idx
                - 1].0@);
        lemma_entries_view_update(es.drop_first(), idx - 1, e2);
        assert(es[0].0@ != e2.0@);
        assert(entries_view(es.update(idx, e2)) =~= entries_view(es).insert(e2.0@, e2.1@));
    }
}

/// The model of the base object after the first `n` override entries have
/// been folded in, one at a time, in override order.
pub open spec fn merge_prefix(
    m: Map<Seq<char>, ConfigView>,
    es: Seq<(String, ConfigValue)>,
    n: int,
) -> Map<Seq<char>, ConfigView>
    decreases n,
{
    if n <= 0 {
        m
    } else {
        let m2 = merge_prefix(m, es, n - 1);
        let k = es[n - 1].0@;
        m2.insert(
            k,
            if m2.contains_key(k) {
                spec_merge(m2[k], es[n - 1].1@)
            } else {
                es[n - 1].1@
            },
        )
    }
}

/// Folding in every override entry of a uniquely-keyed list yields exactly
/// the merged object model.
proof fn lemma_merge_prefix_full(
    ma: Map<Seq<char>, ConfigView>,
    eb: Seq<(String, ConfigValue)>,
    n: int,
)
    requires
        0 <= n <= eb.len(),
        unique_keys(eb),
    ensures
        merge_prefix(ma, eb, n) == merged_obj(ma, entries_view(eb.take(n))),
    decreases n,
{
    if n == 0 {
        assert(eb.take(0) =~= Seq::<(String, ConfigValue)>::empty());
        assert(merge_prefix(ma, eb, 0) =~= merged_obj(ma, entries_view(eb.take(0))));
    } else {
        lemma_merge_prefix_full(ma, eb, n - 1);
        let prev = entries_view(eb.take(n - 1));
        let k = eb[n - 1].0@;
        let v = eb[n - 1].1;
        assert(eb.take(n) =~= eb.take(n - 1).push(eb[n - 1]));
        lemma_entries_view_push(eb.take(n - 1), eb[n - 1]);
        lemma_entries_view_contains(eb.take(n - 1), k);
        assert(!has_skey(eb.take(n - 1), k)) by {
            if has_skey(eb.take(n - 1), k) {
                let j = choose|j: int|
                    0 <= j < n - 1 && (#[trigger] eb.take(n - 1)[j]).0@ == k;
                assert(eb[j].0@ == eb[n - 1].0@);
            }
        }
        assert(entries_view(eb.take(n)) == prev.insert(k, v@));
        let m2 = merge_prefix(ma, eb, n - 1);
        assert(merge_prefix(ma, eb, n) =~= merged_obj(ma, prev.insert(k, v@)));
    }
}

/// First entry carrying `key`, if any.
fn find_index(es: &Vec<(String, ConfigValue)>, key: &String) -> (r: Option<usize>)
    ensures
        match r {
            Some(i) => 0 <= i < es@.len() && es@[i as int].0@ == key@ && forall|j: int|
                0 <= j < i ==> es@[j].0@ != key@,
            None => forall|j: int| 0 <= j < es@.len() ==> es@[j].0@ != key@,
        },
{
    let mut i: usize = 0;
    while i < es.len()
        invariant
            i <= es@.len(),
            forall|j: int| 0 <= j < i ==> es@[j].0@ != key@,
        decreases es@.len() - i,
    {
        if es[i].0 == *key {
            return Some(i);
        }
        i += 1;
    }
    None
}

/// Deep merge, consuming the base: two objects merge key by key, anything
/// else is replaced by the override.
fn merge_owned(a: ConfigValue, b: &ConfigValue) -> (r: ConfigValue)
    requires
        wf(*b),
    ensures
        r@ == spec_merge(a@, b@),
    decreases *b,
{
    match b {
        ConfigValue::Obj(eb) => {
            match a {
                ConfigValue::Obj(ea) => {
                    let mut ea = ea;
                    let ghost ma = entries_view(ea@);
                    let mut i: usize = 0;
                    while i < eb.len()
                        invariant
                            wf(*b),
                            *b == ConfigValue::Obj(*eb),
                            i <= eb@.len(),
                            entries_view(ea@) == merge_prefix(ma, eb@, i as int),
                        decreases eb@.len() - i,
                    {
                        proof {
                            assert(*eb == (*b)->Obj_0);
                            assert(decreases_to!(*b => (*b)->Obj_0));
                            assert(decreases_to!(*eb => eb@));
                            assert(decreases_to!(eb@ => eb@[i as int]));
                            assert(decreases_to!(eb@[i as int] => eb@[i as int].1));
                        }
                        let ghost pre = ea@;
                        match find_index(&ea, &eb[i].0) {
                            Some(idx) => {
                                let pair = ea.remove(idx);
                                proof {
                                    lemma_entries_view_at(pre, idx as int);
                                }
                                let merged = merge_owned(pair.1, &eb[i].1);
                                ea.insert(idx, (pair.0, merged));
                                proof {
                                    assert(ea@ =~= pre.update(idx as int, ea@[idx as int]));
                                    lemma_entries_view_update(
                                        pre,
                                        idx as int,
                                        ea@[idx as int],
                                    );
                                    lemma_entries_view_contains(pre, eb@[i as int].0@);
                                }
                            },
                            None => {
                                let key = eb[i].0.clone();
                                let val = eb[i].1.clone();
                                ea.push((key, val));
                                proof {
                                    lemma_entries_view_push(pre, ea@[pre.len() as int]);
                                    lemma_entries_view_contains(pre, eb@[i as int].0@);
                                    assert(entries_view(ea@) =~= merge_prefix(
                                        ma,
                                        eb@,
                                        i + 1,
                                    ));
                                }
                            },
                        }
                        i += 1;
                    }
                    proof {
                        lemma_merge_prefix_full(ma, eb@, eb@.len() as int);
                        assert(eb@.take(eb@.len() as int) =~= eb@);
                        assert(b@ == ConfigView::Obj(entries_view(eb@)));
                        lemma_spec_merge_obj(a@, b@);
                    }
                    ConfigValue::Obj(ea)
                },
                _ => b.clone(),
            }
        },
        _ => b.clone(),
    }
}

/// Deep-merge `b` into `a` in place, like a recursive object assign: keys of
/// both are kept, `b` wins on conflicts, nested objects merge recursively.
pub fn json_merge(a: &mut ConfigValue, b: &ConfigValue)
    requires
        wf(*b),
    ensures
        final(a)@ == spec_merge(old(a)@, b@),
{
    let mut tmp = ConfigValue::Null;
    core::mem::swap(a, &mut tmp);
    let merged = merge_owned(tmp, b);
    *a = merged;
}

/// A structure for managing the transpilation configuration document.
#[derive(Debug, PartialEq)]
pub struct TsConfig(pub ConfigValue);

impl TsConfig {
    /// Create a new `TsConfig` with the base being the `value` supplied.
    pub fn new(value: ConfigValue) -> (r: Self)
        ensures
            r.0 == value,
    {
        TsConfig(value)
    }

    /// Merge a document into the configuration; the document wins.
    pub fn merge(&mut self, value: &ConfigValue)
        requires
            wf(*value),
        ensures
            final(self).0@ == spec_merge(old(self).0@, value@),
    {
        json_merge(&mut self.0, value);
    }
}

/// The model of the base transpilation document: JSX transformed through the
/// classic named factories, decorator metadata off, unused type-only imports
/// removed, no source maps, no type-check pass.
pub open spec fn default_ts_config_view() -> Map<Seq<char>, ConfigView> {
    map![
        "checkJs"@ => ConfigView::Bool(false),
        "emitDecoratorMetadata"@ => ConfigView::Bool(false),
        "importsNotUsedAsValues"@ => ConfigView::Str("remove"@),
        "inlineSourceMap"@ => ConfigView::Bool(false),
        "inlineSources"@ => ConfigView::Bool(false),
        "sourceMap"@ => ConfigView::Bool(false),
        "jsx"@ => ConfigView::Str("react"@),
        "jsxFactory"@ => ConfigView::Str("React.createElement"@),
        "jsxFragmentFactory"@ => ConfigView::Str("React.Fragment"@),
    ]
}

/// The base transpilation configuration document.
pub fn get_ts_config() -> (r: TsConfig)
    ensures
        r.0@ == ConfigView::Obj(default_ts_config_view()),
        wf(r.0),
{
    let mut es: Vec<(String, ConfigValue)> = Vec::new();
    es.push((String::from_str("checkJs"), ConfigValue::Bool(false)));
    es.push((String::from_str("emitDecoratorMetadata"), ConfigValue::Bool(false)));
    es.push(
        (String::from_str("importsNotUsedAsValues"), ConfigValue::Str(String::from_str("remove"))),
    );
    es.push((String::from_str("inlineSourceMap"), ConfigValue::Bool(false)));
    es.push((String::from_str("inlineSources"), ConfigValue::Bool(false)));
    es.push((String::from_str("sourceMap"), ConfigValue::Bool(false)));
    es.push((String::from_str("jsx"), ConfigValue::Str(String::from_str("react"))));
    es.push(
        (String::from_str("jsxFactory"), ConfigValue::Str(String::from_str("React.createElement"))),
    );
    es.push(
        (
            String::from_str("jsxFragmentFactory"),
            ConfigValue::Str(String::from_str("React.Fragment")),
        ),
    );
    let v = ConfigValue::Obj(es);
    proof {
        reveal_strlit("checkJs");
        reveal_strlit("emitDecoratorMetadata");
        reveal_strlit("importsNotUsedAsValues");
        reveal_strlit("inlineSourceMap");
        reveal_strlit("inlineSources");
        reveal_strlit("sourceMap");
        reveal_strlit("jsx");
        reveal_strlit("jsxFactory");
        reveal_strlit("jsxFragmentFactory");
        let s = v->Obj_0@;
        assert(s.len() == 9);
        assert(s[0].0@.len() == 7);
        assert(s[1].0@.len() == 21);
        assert(s[2].0@.len() == 22);
        assert(s[3].0@.len() == 15);
        assert(s[4].0@.len() == 13);
        assert(s[5].0@.len() == 9);
        assert(s[6].0@.len() == 3);
        assert(s[7].0@.len() == 10);
        assert(s[8].0@.len() == 18);
        assert forall|i2: int, j2: int| 0 <= i2 < j2 < 9 implies (#[trigger] s[i2]).0@
            != (#[trigger] s[j2]).0@ by {
            assert(s[i2].0@.len() != s[j2].0@.len());
        }
        lemma_entries_view_at(s, 0);
        lemma_entries_view_at(s, 1);
        lemma_entries_view_at(s, 2);
        lemma_entries_view_at(s, 3);
        lemma_entries_view_at(s, 4);
        lemma_entries_view_at(s, 5);
        lemma_entries_view_at(s, 6);
        lemma_entries_view_at(s, 7);
        lemma_entries_view_at(s, 8);
        assert forall|k: Seq<char>|
            entries_view(s).contains_key(k) implies default_ts_config_view().contains_key(
            k,
        ) by {
            lemma_entries_view_contains(s, k);
            let j = choose|j: int| 0 <= j < s.len() && (#[trigger] s[j]).0@ == k;
        }
        assert(entries_view(s) =~= default_ts_config_view());
        assert(wf(s[0].1));
        assert(wf(s[1].1));
        assert(wf(s[2].1));
        assert(wf(s[3].1));
        assert(wf(s[4].1));
        assert(wf(s[5].1));
        assert(wf(s[6].1));
        assert(wf(s[7].1));
        assert(wf(s[8].1));
        assert(wf(v));
    }
    TsConfig(v)
}

/// Merging two objects with no key in common keeps exactly the union of
/// their entries.
pub proof fn lemma_merge_disjoint_union(a: ConfigView, b: ConfigView)
    requires
        a is Obj,
        b is Obj,
        forall|k: Seq<char>| !(a->Obj_0.contains_key(k) && b->Obj_0.contains_key(k)),
    ensures
        spec_merge(a, b) == ConfigView::Obj(a->Obj_0.union_prefer_right(b->Obj_0)),
{
    lemma_spec_merge_obj(a, b);
    assert(merged_obj(a->Obj_0, b->Obj_0) =~= a->Obj_0.union_prefer_right(b->Obj_0));
}

} // verus!
