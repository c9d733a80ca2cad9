use unibundle::ident::ModuleId;
use unibundle::loader::{
    get_module_type, get_source_code, LoadError, LoadStatus, ModuleKind, SourcePlan,
    UniversalModuleLoader,
};
use unibundle::store::{MemModuleStore, ModuleStore};

fn id(s: &str) -> ModuleId {
    ModuleId::parse(s).unwrap()
}

#[test]
fn parse_splits_components() {
    let m = id("https://example.com/lib/a.js?v=1#frag");
    assert_eq!(m.scheme, "https");
    assert_eq!(m.host, "example.com");
    assert_eq!(m.path, "/lib/a.js");
    assert_eq!(m.raw, "https://example.com/lib/a.js?v=1#frag");

    let f = id("file:///entry.js");
    assert_eq!(f.scheme, "file");
    assert_eq!(f.host, "");
    assert_eq!(f.path, "/entry.js");

    let d = id("data:text/plain,hi");
    assert_eq!(d.scheme, "data");
    assert_eq!(d.host, "");
    assert_eq!(d.path, "text/plain,hi");

    assert!(ModuleId::parse("not an identifier").is_none());
    assert!(ModuleId::parse("/relative/path.js").is_none());
}

#[test]
fn parse_normalizes_scheme_case() {
    let m = id("HTTP://example.com/a.js");
    assert_eq!(m.scheme, "http");
    assert_eq!(m.raw, "HTTP://example.com/a.js");
    assert_eq!(
        get_source_code(&id("HTTPS://example.com/a.js")),
        Ok(SourcePlan::FetchHttp)
    );
}

#[test]
fn extension_classification() {
    assert_eq!(get_module_type(&id("file:///m.json")), Ok(ModuleKind::Json));
    assert_eq!(get_module_type(&id("file:///m.JSON")), Ok(ModuleKind::Json));
    assert_eq!(get_module_type(&id("file:///m.js")), Ok(ModuleKind::Script));
    assert_eq!(get_module_type(&id("file:///m.ts")), Ok(ModuleKind::Script));
    assert_eq!(get_module_type(&id("https://h/x.tsx")), Ok(ModuleKind::Script));
    assert_eq!(
        get_module_type(&id("file:///noext")),
        Err(LoadError::UnknownMediaType)
    );
    assert_eq!(
        get_module_type(&id("file:///dir.d/noext")),
        Err(LoadError::UnknownMediaType)
    );
    assert_eq!(
        get_module_type(&id("file:///.hidden")),
        Err(LoadError::UnknownMediaType)
    );
}

#[test]
fn ftp_scheme_is_rejected_without_io() {
    let loader: UniversalModuleLoader<MemModuleStore> = UniversalModuleLoader::new(None, false);
    let r = loader.load(&id("ftp://example.com/a.js"));
    assert_eq!(r, Err(LoadError::UnsupportedScheme));
    assert_eq!(
        get_source_code(&id("wss://example.com/a.js")),
        Err(LoadError::UnsupportedScheme)
    );
}

#[test]
fn http_and_file_plans() {
    assert_eq!(
        get_source_code(&id("http://example.com/a.js")),
        Ok(SourcePlan::FetchHttp)
    );
    assert_eq!(
        get_source_code(&id("https://example.com/a.js")),
        Ok(SourcePlan::FetchHttp)
    );
    assert_eq!(
        get_source_code(&id("file:///src/a.js")),
        Ok(SourcePlan::FetchFile("/src/a.js".to_string()))
    );
    assert_eq!(
        get_source_code(&id("file:///with%20space/a.js")),
        Ok(SourcePlan::FetchFile("/with space/a.js".to_string()))
    );
    assert_eq!(
        get_source_code(&id("file://localhost/a.js")),
        Ok(SourcePlan::FetchFile("/a.js".to_string()))
    );
    assert_eq!(
        get_source_code(&id("file:///caf\u{e9}/a.js")),
        Ok(SourcePlan::FetchFile("/caf\u{e9}/a.js".to_string()))
    );
    assert_eq!(
        get_source_code(&id("file:///bad%FF.js")),
        Err(LoadError::InvalidFileUrl)
    );
    assert_eq!(
        get_source_code(&id("file://host/a.js")),
        Err(LoadError::InvalidFileUrl)
    );
}

#[test]
fn data_url_is_decoded_in_place() {
    assert_eq!(
        get_source_code(&id("data:text/plain,hello")),
        Ok(SourcePlan::Ready("hello".to_string()))
    );
    assert_eq!(
        get_source_code(&id("data:text/plain;base64,aGVsbG8=")),
        Ok(SourcePlan::Ready("hello".to_string()))
    );
    assert_eq!(
        get_source_code(&id("data:nocomma")),
        Err(LoadError::InvalidDataUrl)
    );
}

#[test]
fn cache_short_circuits_fetch_and_transpile() {
    let mut loader = UniversalModuleLoader::new(Some(MemModuleStore::new()), false);
    let m = id("https://example.com/mod.js");
    let code = loader
        .get_and_update_source(&m, "export default 1;".to_string())
        .unwrap();
    assert_eq!(code, "export default 1;");
    // A Hit carries the cached text: nothing is fetched or transpiled.
    match loader.load(&m).unwrap() {
        LoadStatus::Hit(rec) => {
            assert_eq!(rec.specifier, "https://example.com/mod.js");
            assert_eq!(rec.text, "export default 1;");
            assert_eq!(rec.kind, ModuleKind::Script);
        }
        LoadStatus::Miss(_, _) => panic!("a cached identifier must hit"),
    }
}

#[test]
fn missing_entry_yields_a_fetch_plan() {
    let loader = UniversalModuleLoader::new(Some(MemModuleStore::new()), true);
    match loader.load(&id("https://example.com/mod.js")).unwrap() {
        LoadStatus::Miss(kind, plan) => {
            assert_eq!(kind, ModuleKind::Script);
            assert_eq!(plan, SourcePlan::FetchHttp);
        }
        LoadStatus::Hit(_) => panic!("an empty store cannot hit"),
    }
}

#[test]
fn loading_two_modules_populates_two_entries() {
    let mut loader = UniversalModuleLoader::new(Some(MemModuleStore::new()), false);
    let entry = id("file:///entry.js");
    let dep = id("file:///dep.js");
    loader
        .get_and_update_source(&entry, "import './dep.js';".to_string())
        .unwrap();
    loader
        .get_and_update_source(&dep, "export const x = 1;".to_string())
        .unwrap();
    let store = loader.store.as_ref().unwrap();
    assert_eq!(&store.get("file:///entry.js").unwrap()[..], b"import './dep.js';");
    assert_eq!(&store.get("file:///dep.js").unwrap()[..], b"export const x = 1;");
}

#[test]
fn loader_without_store_passes_source_through() {
    let mut loader: UniversalModuleLoader<MemModuleStore> = UniversalModuleLoader::new(None, true);
    assert!(loader.needs_transpile());
    let m = id("file:///a.ts");
    let r = loader.get_and_update_source(&m, "let x: u32 = 1;".to_string());
    assert_eq!(r, Ok("let x: u32 = 1;".to_string()));
}
