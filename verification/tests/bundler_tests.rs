use unibundle::bundler::{
    bundle_output_plan, map_out_path, write_file, BundleOptions, BundleType, ModuleForm,
    OutputPlan,
};
use unibundle::config::get_ts_config;
use unibundle::store::{MemModuleStore, ModuleStore};

#[test]
fn bundle_type_default_is_module() {
    assert_eq!(BundleType::default(), BundleType::Module);
}

#[test]
fn module_form_mapping() {
    assert_eq!(BundleType::Classic.module_form(), ModuleForm::Iife);
    assert_eq!(BundleType::Module.module_form(), ModuleForm::Es);
    assert_eq!(BundleType::MainModule.module_form(), ModuleForm::Es);
}

#[test]
fn bundle_options_default() {
    let opts: BundleOptions<MemModuleStore> = BundleOptions::default();
    assert_eq!(opts.bundle_type, BundleType::Module);
    assert_eq!(opts.ts_config.0, get_ts_config().0);
    assert!(!opts.emit_ignore_directives);
    assert!(opts.minify);
    let store = opts.module_store.unwrap();
    assert!(store.get("anything").is_err());
}

#[test]
fn write_file_describes_a_truncating_create() {
    let w = write_file("/out/bundle.js", b"code", 0o644);
    assert_eq!(w.path, "/out/bundle.js");
    assert_eq!(w.bytes, b"code".to_vec());
    assert_eq!(w.mode, 0o644);
    assert!(w.update_mode);
    assert!(w.is_create);
    assert!(!w.is_append);
}

#[test]
fn map_path_appends_map_extension() {
    assert_eq!(map_out_path("out.js"), "out.js.map");
    assert_eq!(map_out_path("out"), "out.map");
    assert_eq!(map_out_path("dir.d/out.es.js"), "dir.d/out.es.js.map");
}

#[test]
fn no_output_path_prints_to_stdout() {
    let plan = bundle_output_plan("const a = 1;\n".to_string(), None, None);
    assert_eq!(plan, OutputPlan::ToStdout("const a = 1;\n".to_string()));
}

#[test]
fn output_path_writes_code_then_map() {
    let plan = bundle_output_plan(
        "code".to_string(),
        Some("map".to_string()),
        Some("out.js".to_string()),
    );
    match plan {
        OutputPlan::ToFiles(ws) => {
            assert_eq!(ws.len(), 2);
            assert_eq!(ws[0].path, "out.js");
            assert_eq!(ws[0].bytes, b"code".to_vec());
            assert_eq!(ws[0].mode, 0o644);
            assert_eq!(ws[1].path, "out.js.map");
            assert_eq!(ws[1].bytes, b"map".to_vec());
            assert_eq!(ws[1].mode, 0o644);
        }
        OutputPlan::ToStdout(_) => panic!("an output path must write files"),
    }
}

#[test]
fn output_path_without_map_writes_one_file() {
    let plan = bundle_output_plan("code".to_string(), None, Some("out".to_string()));
    match plan {
        OutputPlan::ToFiles(ws) => {
            assert_eq!(ws.len(), 1);
            assert_eq!(ws[0].path, "out");
        }
        OutputPlan::ToStdout(_) => panic!("an output path must write files"),
    }
}
