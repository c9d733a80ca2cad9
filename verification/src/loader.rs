//! The universal module loader: module-kind classification from the
//! identifier's extension, scheme dispatch for source retrieval, the cache
//! short-circuit, and the cache write after a fetch.
//!
//! Retrieval that computes (decoding a data URL) happens here; retrieval
//! that performs input/output (a network fetch, a file read) and the
//! external transpiler are the caller's: the loader hands out a
//! [`SourcePlan`] and takes the fetched, transpiled text back through
//! [`UniversalModuleLoader::get_and_update_source`].

use vstd::prelude::*;

use crate::ident::{bytes_to_string, pct_bytes, percent_decode, ModuleId};
use crate::store::{MemModuleStore, ModuleStore, StoreError};

verus! {

/// Why a module failed to load.
#[derive(Debug, Clone, Copy, PartialEq, Eq, Structural)]
pub enum LoadError {
    /// The identifier's path carries no recognized extension.
    UnknownMediaType,
    /// The identifier's scheme is not `http`, `https`, `file`, or `data`.
    UnsupportedScheme,
    /// A `file` identifier does not name a local path.
    InvalidFileUrl,
    /// A `data` identifier is malformed or does not decode to text.
    InvalidDataUrl,
    /// A network fetch failed or timed out.
    FetchFailed,
    /// The external transpiler rejected the source.
    TranspileError,
    /// The module store failed, or a cache entry did not decode as text.
    StoreIo,
}

/// The classification of a module's content.
#[derive(Debug, Clone, Copy, PartialEq, Eq, Structural)]
pub enum ModuleKind {
    Script,
    Json,
}

/// A loaded module: identifier, source text, and kind.
#[derive(Debug, PartialEq)]
pub struct ModuleRecord {
    pub specifier: String,
    pub text: String,
    pub kind: ModuleKind,
}

/// How to obtain the raw source for an identifier whose cache entry is
/// absent: the text itself where computing suffices (a data URL), otherwise
/// the fetch the caller must perform.
#[derive(Debug, PartialEq)]
pub enum SourcePlan {
    /// The source text, already decoded.
    Ready(String),
    /// Issue a GET for the identifier's raw string, with the bounded
    /// timeout.
    FetchHttp,
    /// Read this local file as text.
    FetchFile(String),
}

/// The outcome of a load that consulted the cache.
#[derive(Debug, PartialEq)]
pub enum LoadStatus {
    /// The cache entry, decoded: no fetch and no transpile may follow.
    Hit(ModuleRecord),
    /// No cache entry: the source must be obtained as the plan says.
    Miss(ModuleKind, SourcePlan),
}

/// The timeout for one network fetch, in milliseconds.
pub const FETCH_TIMEOUT_MS: u64 = 5000;

/// Position `d` is the extension dot of `p`: the last dot of the last path
/// segment, not at the segment's start.
pub open spec fn is_ext_dot(p: Seq<char>, d: int) -> bool {
    &&& 1 <= d < p.len()
    &&& p[d] == '.'
    &&& p[d - 1] != '/'
    &&& forall|l: int| d < l < p.len() ==> #[trigger] p[l] != '.' && p[l] != '/'
}

/// The path carries an extension.
pub open spec fn has_ext(p: Seq<char>) -> bool {
    exists|d: int| is_ext_dot(p, d)
}

/// The extension dot position (meaningful only under [`has_ext`]).
pub open spec fn ext_dot(p: Seq<char>) -> int {
    choose|d: int| is_ext_dot(p, d)
}

/// The extension characters, after the dot.
pub open spec fn spec_ext(p: Seq<char>) -> Seq<char> {
    p.subrange(ext_dot(p) + 1, p.len() as int)
}

/// The four letters `json`, in any case.
pub open spec fn is_json_ext(e: Seq<char>) -> bool {
    &&& e.len() == 4
    &&& (e[0] == 'j' || e[0] == 'J')
    &&& (e[1] == 's' || e[1] == 'S')
    &&& (e[2] == 'o' || e[2] == 'O')
    &&& (e[3] == 'n' || e[3] == 'N')
}

/// The module kind named by a path: `.json` is structured data, any other
/// extension is a script, no extension is no kind at all.
pub open spec fn spec_kind(p: Seq<char>) -> Option<ModuleKind> {
    if has_ext(p) {
        if is_json_ext(spec_ext(p)) {
            Some(ModuleKind::Json)
        } else {
            Some(ModuleKind::Script)
        }
    } else {
        None
    }
}

/// The plan matching an identifier whose scheme admits retrieval.
pub open spec fn plan_ok(id: ModuleId, p: SourcePlan) -> bool {
    if id.scheme@ == "http"@ || id.scheme@ == "https"@ {
        p is FetchHttp
    } else if id.scheme@ == "file"@ {
        &&& (id.host@.len() == 0 || id.host@ == "localhost"@)
        &&& vstd::utf8::valid_utf8(pct_bytes(id.path@, 0))
        &&& p is FetchFile
        &&& p->FetchFile_0@ == vstd::utf8::decode_utf8(pct_bytes(id.path@, 0))
    } else if id.scheme@ == "data"@ {
        &&& data_url_payload(id.raw@) is Some
        &&& vstd::utf8::valid_utf8(data_url_payload(id.raw@)->0)
        &&& p is Ready
        &&& p->Ready_0@ == vstd::utf8::decode_utf8(data_url_payload(id.raw@)->0)
    } else {
        false
    }
}

/// The error retrieval yields for an identifier, if any: an unsupported
/// scheme, a file identifier with a host, or a data identifier that does
/// not decode to text.
pub open spec fn plan_err(id: ModuleId) -> Option<LoadError> {
    if id.scheme@ == "http"@ || id.scheme@ == "https"@ {
        None
    } else if id.scheme@ == "file"@ {
        if (id.host@.len() == 0 || id.host@ == "localhost"@) && vstd::utf8::valid_utf8(
            pct_bytes(id.path@, 0),
        ) {
            None
        } else {
            Some(LoadError::InvalidFileUrl)
        }
    } else if id.scheme@ == "data"@ {
        if data_url_payload(id.raw@) is Some && vstd::utf8::valid_utf8(
            data_url_payload(id.raw@)->0,
        ) {
            None
        } else {
            Some(LoadError::InvalidDataUrl)
        }
    } else {
        Some(LoadError::UnsupportedScheme)
    }
}

/// The payload a well-formed data URL decodes to, a function of the string
/// alone.
pub uninterp spec fn data_url_payload(s: Seq<char>) -> Option<Seq<u8>>;

/// Relies on data_url's DataUrl::process and DataUrl::decode_to_vec: both
/// parse and decode the given string alone, so the payload is a function of
/// it; `None` covers both a malformed URL and an undecodable body.
#[verifier::external_body]
fn decode_data_url(s: &str) -> (r: Option<Vec<u8>>)
    ensures
        r is Some <==> data_url_payload(s@) is Some,
        r is Some ==> r->0@ == data_url_payload(s@)->0,
{
    match data_url::DataUrl::process(s) {
        Ok(u) => match u.decode_to_vec() {
            Ok((bytes, _)) => Some(bytes),
            Err(_) => None,
        },
        Err(_) => None,
    }
}

/// The module kind named by the identifier's path extension: `.json` in any
/// case is data, a recognized-but-other extension is a script, and a path
/// without an extension has no media type.
pub fn get_module_type(m: &ModuleId) -> (r: Result<ModuleKind, LoadError>)
    ensures
        r is Ok <==> spec_kind(m.path@) is Some,
        r is Ok ==> r->Ok_0 == spec_kind(m.path@)->0,
        r is Err ==> r == Result::<ModuleKind, LoadError>::Err(LoadError::UnknownMediaType),
{
    let p = m.path.as_str();
    let n = p.unicode_len();
    let mut l: usize = n;
    while l > 0
        invariant
            l <= n,
            n == p@.len(),
            p@ == m.path@,
            forall|l2: int| l <= l2 < n ==> #[trigger] p@[l2] != '.' && p@[l2] != '/',
        decreases l,
    {
        l = l - 1;
        let c = p.get_char(l);
        if c == '.' {
            if l == 0 || p.get_char(l - 1) == '/' {
                proof {
                    assert forall|d: int| !is_ext_dot(p@, d) by {
                        if 1 <= d < p@.len() && p@[d] == '.' && p@[d - 1] != '/' {
                            if d > l as int {
                                assert(p@[d] != '.');
                            } else if d < l as int {
                                assert(p@[l as int] == '.');
                            }
                        }
                    }
                }
                return Err(LoadError::UnknownMediaType);
            }
            proof {
                assert(is_ext_dot(p@, l as int));
                let d0 = ext_dot(p@);
                assert(is_ext_dot(p@, d0));
                assert(d0 == l as int) by {
                    if d0 < l as int {
                        assert(p@[l as int] == '.');
                    } else if d0 > l as int {
                        assert(p@[d0] != '.');
                    }
                }
            }
            let is_json = n - l == 5 && {
                let e0 = p.get_char(l + 1);
                let e1 = p.get_char(l + 2);
                let e2 = p.get_char(l + 3);
                let e3 = p.get_char(l + 4);
                (e0 == 'j' || e0 == 'J') && (e1 == 's' || e1 == 'S') && (e2 == 'o' || e2 == 'O')
                    && (e3 == 'n' || e3 == 'N')
            };
            if is_json {
                return Ok(ModuleKind::Json);
            } else {
                return Ok(ModuleKind::Script);
            }
        }
        if c == '/' {
            proof {
                assert forall|d: int| !is_ext_dot(p@, d) by {
                    if 1 <= d < p@.len() && p@[d] == '.' {
                        if d > l as int {
                            assert(p@[d] != '.');
                        } else {
                            assert(p@[l as int] == '/');
                        }
                    }
                }
            }
            return Err(LoadError::UnknownMediaType);
        }
    }
    proof {
        assert forall|d: int| !is_ext_dot(p@, d) by {
            if 1 <= d < p@.len() && p@[d] == '.' {
                assert(p@[d] != '.');
            }
        }
    }
    Err(LoadError::UnknownMediaType)
}

/// How to obtain the raw source for an identifier: data URLs are decoded
/// here; `http`, `https`, and `file` sources come back as the fetch the
/// caller performs; every other scheme is rejected without any retrieval.
pub fn get_source_code(m: &ModuleId) -> (r: Result<SourcePlan, LoadError>)
    ensures
        plan_err(*m) is Some ==> r == Result::<SourcePlan, LoadError>::Err(plan_err(*m)->0),
        plan_err(*m) is None ==> r is Ok && plan_ok(*m, r->Ok_0),
{
    let scheme = m.scheme.as_str();
    if str_eq(scheme, "http") || str_eq(scheme, "https") {
        Ok(SourcePlan::FetchHttp)
    } else if str_eq(scheme, "file") {
        if m.host.as_str().unicode_len() == 0 || str_eq(m.host.as_str(), "localhost") {
            let bytes = percent_decode(m.path.as_str());
            match bytes_to_string(bytes) {
                Some(path) => Ok(SourcePlan::FetchFile(path)),
                None => Err(LoadError::InvalidFileUrl),
            }
        } else {
            Err(LoadError::InvalidFileUrl)
        }
    } else if str_eq(scheme, "data") {
        match decode_data_url(m.raw.as_str()) {
            Some(bytes) => match bytes_to_string(bytes) {
                Some(text) => Ok(SourcePlan::Ready(text)),
                None => Err(LoadError::InvalidDataUrl),
            },
            None => Err(LoadError::InvalidDataUrl),
        }
    } else {
        Err(LoadError::UnsupportedScheme)
    }
}

/// Whether two strings spell the same characters.
fn str_eq(a: &str, b: &str) -> (r: bool)
    ensures
        r == (a@ == b@),
{
    let sa = a.to_owned();
    let sb = b.to_owned();
    sa == sb
}

/// The scheme-aware loader: consults the store first, then plans retrieval,
/// and writes what was retrieved back into the store.
#[derive(Debug)]
pub struct UniversalModuleLoader<S: ModuleStore> {
    pub store: Option<S>,
    pub compile: bool,
}

impl<S: ModuleStore> UniversalModuleLoader<S> {
    /// A loader over the given store, transpiling when `compile` holds.
    pub fn new(module_store: Option<S>, compile: bool) -> (r: Self)
        ensures
            r.store == module_store,
            r.compile == compile,
    {
        UniversalModuleLoader { store: module_store, compile }
    }

    /// Whether retrieved source must pass through the transpiler before it
    /// is stored and returned.
    pub fn needs_transpile(&self) -> (r: bool)
        ensures
            r == self.compile,
    {
        self.compile
    }

    /// Load a module as far as computation carries: classify its kind, then
    /// return the decoded cache entry if one exists — a hit retrieves and
    /// transpiles nothing — and otherwise the retrieval plan for the
    /// identifier's scheme.
    pub fn load(&self, m: &ModuleId) -> (r: Result<LoadStatus, LoadError>)
        ensures
            spec_kind(m.path@) is None ==> r == Result::<LoadStatus, LoadError>::Err(
                LoadError::UnknownMediaType,
            ),
            spec_kind(m.path@) is Some && self.store is Some
                && self.store->0.contents().contains_key(m.raw@) ==> {
                let bytes = self.store->0.contents()[m.raw@];
                &&& vstd::utf8::valid_utf8(bytes) ==> r is Ok && r->Ok_0 is Hit && {
                    let rec = r->Ok_0->Hit_0;
                    &&& rec.specifier@ == m.raw@
                    &&& rec.text@ == vstd::utf8::decode_utf8(bytes)
                    &&& rec.kind == spec_kind(m.path@)->0
                }
                &&& !vstd::utf8::valid_utf8(bytes) ==> r == Result::<
                    LoadStatus,
                    LoadError,
                >::Err(LoadError::StoreIo)
            },
            spec_kind(m.path@) is Some && !(self.store is Some
                && self.store->0.contents().contains_key(m.raw@)) ==> {
                &&& plan_err(*m) is Some ==> r == Result::<LoadStatus, LoadError>::Err(
                    plan_err(*m)->0,
                )
                &&& plan_err(*m) is None ==> r is Ok && r->Ok_0 is Miss && r->Ok_0->Miss_0
                    == spec_kind(m.path@)->0 && plan_ok(*m, r->Ok_0->Miss_1)
            },
    {
        let kind = match get_module_type(m) {
            Ok(k) => k,
            Err(e) => {
                return Err(e);
            },
        };
        if let Some(store) = &self.store {
            match store.get(m.as_str()) {
                Ok(bytes) => {
                    match bytes_to_string(bytes) {
                        Some(text) => {
                            return Ok(
                                LoadStatus::Hit(
                                    ModuleRecord {
                                        specifier: m.raw.clone(),
                                        text,
                                        kind,
                                    },
                                ),
                            );
                        },
                        None => {
                            return Err(LoadError::StoreIo);
                        },
                    }
                },
                Err(_) => {},
            }
        }
        match get_source_code(m) {
            Ok(plan) => Ok(LoadStatus::Miss(kind, plan)),
            Err(e) => Err(e),
        }
    }

    /// Record retrieved (and, where enabled, transpiled) source under its
    /// identifier and hand it back: a loaded module is cached, and a store
    /// fault is a hard error for the whole load.
    pub fn get_and_update_source(&mut self, m: &ModuleId, code: String) -> (r: Result<
        String,
        LoadError,
    >)
        ensures
            final(self).compile == old(self).compile,
            old(self).store is None ==> r is Ok && final(self).store is None && r->Ok_0@
                == code@,
            old(self).store is Some ==> final(self).store is Some && {
                &&& r is Ok ==> r->Ok_0@ == code@ && final(self).store->0.contents() == old(
                    self,
                ).store->0.contents().insert(m.raw@, vstd::utf8::encode_utf8(code@))
                &&& r is Err ==> r == Result::<String, LoadError>::Err(LoadError::StoreIo)
                    && final(self).store->0.contents() == old(self).store->0.contents()
            },
    {
        match &mut self.store {
            Some(store) => {
                let bytes = code.as_str().as_bytes_vec();
                match store.put(m.as_str().to_owned(), bytes.as_slice()) {
                    Ok(_) => Ok(code),
                    Err(_) => Err(LoadError::StoreIo),
                }
            },
            None => Ok(code),
        }
    }
}

impl Default for UniversalModuleLoader<MemModuleStore> {
    /// A loader over a fresh in-memory store, with transpilation on.
    fn default() -> (r: Self)
        ensures
            r.store is Some && r.store->0.contents() == Map::<Seq<char>, Seq<u8>>::empty(),
            r.compile == true,
    {
        UniversalModuleLoader { store: Some(MemModuleStore::new()), compile: true }
    }
}

} // verus!
