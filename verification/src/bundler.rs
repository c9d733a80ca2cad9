//! Bundle orchestration values: the bundle form, the options one run is
//! parametrized with, and the exact writes the run performs at its end. The
//! graph build, the emit, and the writes themselves are the caller's; this
//! module pins down what is written where.

use vstd::prelude::*;
use vstd::slice::slice_to_vec;

use crate::config::{default_ts_config_view, get_ts_config, wf, ConfigView, TsConfig};
use crate::store::{MemModuleStore, ModuleStore};

verus! {

/// The form of program a bundle run emits.
#[derive(Debug, Clone, Copy, PartialEq, Eq, Structural)]
pub enum BundleType {
    MainModule,
    /// The emitted contents of the program as a single "flattened" ES
    /// module.
    Module,
    /// The emitted contents of the program as a single script that executes
    /// the program using an immediately invoked function execution (IIFE).
    Classic,
}

/// The module form the emitter is asked for.
#[derive(Debug, Clone, Copy, PartialEq, Eq, Structural)]
pub enum ModuleForm {
    Es,
    Iife,
}

impl Default for BundleType {
    /// A flattened ES module.
    fn default() -> (r: Self)
        ensures
            r == BundleType::Module,
    {
        BundleType::Module
    }
}

impl BundleType {
    /// Classic bundles execute as an immediately invoked function; the
    /// others are flat ES modules.
    pub fn module_form(&self) -> (r: ModuleForm)
        ensures
            r == match *self {
                BundleType::Classic => ModuleForm::Iife,
                BundleType::Module => ModuleForm::Es,
                BundleType::MainModule => ModuleForm::Es,
            },
    {
        match self {
            BundleType::Classic => ModuleForm::Iife,
            BundleType::Module => ModuleForm::Es,
            BundleType::MainModule => ModuleForm::Es,
        }
    }
}

/// What one bundle run is parametrized with.
#[derive(Debug)]
pub struct BundleOptions<S: ModuleStore> {
    pub bundle_type: BundleType,
    pub ts_config: TsConfig,
    pub emit_ignore_directives: bool,
    pub module_store: Option<S>,
    pub minify: bool,
}

impl Default for BundleOptions<MemModuleStore> {
    /// A flattened ES module over the base configuration, with a fresh
    /// in-memory store and minification on.
    fn default() -> (r: Self)
        ensures
            r.bundle_type == BundleType::Module,
            r.ts_config.0@ == ConfigView::Obj(default_ts_config_view()),
            wf(r.ts_config.0),
            r.emit_ignore_directives == false,
            r.module_store is Some && r.module_store->0.contents() == Map::<
                Seq<char>,
                Seq<u8>,
            >::empty(),
            r.minify == true,
    {
        BundleOptions {
            bundle_type: BundleType::Module,
            ts_config: get_ts_config(),
            emit_ignore_directives: false,
            module_store: Some(MemModuleStore::new()),
            minify: true,
        }
    }
}

/// A single file write for the caller to perform.
#[derive(Debug, PartialEq)]
pub struct FileWrite {
    pub path: String,
    pub bytes: Vec<u8>,
    pub mode: u32,
    pub update_mode: bool,
    pub is_create: bool,
    pub is_append: bool,
}

/// The write of `data` to `filename`: create or truncate, write everything,
/// and apply `mode`.
pub fn write_file(filename: &str, data: &[u8], mode: u32) -> (w: FileWrite)
    ensures
        w.path@ == filename@,
        w.bytes@ == data@,
        w.mode == mode,
        w.update_mode == true,
        w.is_create == true,
        w.is_append == false,
{
    FileWrite {
        path: filename.to_owned(),
        bytes: slice_to_vec(data),
        mode,
        update_mode: true,
        is_create: true,
        is_append: false,
    }
}

/// The sibling path for a source map: the output path with `.map` appended
/// after its extension, or as its extension when it had none.
pub fn map_out_path(out_file: &str) -> (r: String)
    ensures
        r@ == out_file@ + ".map"@,
{
    out_file.to_owned().concat(".map")
}

/// Where one bundle run's output goes.
#[derive(Debug, PartialEq)]
pub enum OutputPlan {
    /// Print the code to standard output.
    ToStdout(String),
    /// Perform these writes in order.
    ToFiles(Vec<FileWrite>),
}

/// The writes a bundle run performs once the emitter is done: the code to
/// standard output when no output path was given; otherwise the code file,
/// mode 0644, followed by the source map beside it when one was produced.
pub fn bundle_output_plan(code: String, maybe_map: Option<String>, out_file: Option<String>) -> (r:
    OutputPlan)
    ensures
        out_file is None ==> r is ToStdout && r->ToStdout_0@ == code@,
        out_file is Some ==> r is ToFiles && {
            let ws = r->ToFiles_0@;
            &&& ws.len() == if maybe_map is Some {
                2int
            } else {
                1int
            }
            &&& ws[0].path@ == out_file->0@
            &&& ws[0].bytes@ == vstd::utf8::encode_utf8(code@)
            &&& ws[0].mode == 0o644u32
            &&& ws[0].is_create && !ws[0].is_append
            &&& maybe_map is Some ==> {
                &&& ws[1].path@ == out_file->0@ + ".map"@
                &&& ws[1].bytes@ == vstd::utf8::encode_utf8(maybe_map->0@)
                &&& ws[1].mode == 0o644u32
                &&& ws[1].is_create && !ws[1].is_append
            }
        },
{
    match out_file {
        None => OutputPlan::ToStdout(code),
        Some(p) => {
            let mut ws: Vec<FileWrite> = Vec::new();
            let code_bytes = code.as_str().as_bytes_vec();
            ws.push(write_file(p.as_str(), code_bytes.as_slice(), 0o644));
            match maybe_map {
                Some(map) => {
                    let mp = map_out_path(p.as_str());
                    let map_bytes = map.as_str().as_bytes_vec();
                    ws.push(write_file(mp.as_str(), map_bytes.as_slice(), 0o644));
                },
                None => {},
            }
            OutputPlan::ToFiles(ws)
        },
    }
}

} // verus!
