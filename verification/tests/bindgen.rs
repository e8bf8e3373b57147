use walrus::{CustomSection, Module};
use wasm_bindgen_cli_support::bindgen::{
    parse_input, Action, Contents, Event, Input, OutputFile, Source,
};
use wasm_bindgen_cli_support::Bindgen;
use wasm_bindgen_cli_support::error::BindgenError;
use wasm_bindgen_cli_support::extract::Program;
use wasm_bindgen_cli_support::frames::push_frame;
use wasm_bindgen_cli_support::indent::reset_indentation;
use wasm_bindgen_cli_support::shim::node_shim;
use wasm_bindgen_cli_support::transform::ThreadsConfig;
use wasm_bindgen_cli_support::wasm::MemoryLimits;

const RESERVED: &str = "__wasm_bindgen_unstable";

fn metadata(schema: &str, version: &str, data: &[u8]) -> CustomSection {
    let header = format!("{{\"schema_version\":\"{}\",\"version\":\"{}\"}}", schema, version);
    let mut value = Vec::new();
    push_frame(&mut value, header.as_bytes());
    push_frame(&mut value, data);
    CustomSection { name: RESERVED.to_string(), value }
}

fn text(name: &str, contents: &str) -> OutputFile {
    OutputFile { name: name.to_string(), contents: Contents::Text(contents.to_string()) }
}

#[test]
fn a_new_run_has_the_usual_options() {
    let b = Bindgen::new();
    assert!(matches!(b.input, Input::Unset));
    assert_eq!(b.out_name, None);
    assert!(!b.nodejs);
    assert!(!b.nodejs_experimental_modules);
    assert!(!b.browser);
    assert!(!b.no_modules);
    assert_eq!(b.no_modules_global, None);
    assert!(!b.debug);
    assert!(!b.typescript);
    assert!(b.demangle);
    assert!(!b.keep_debug);
    assert!(!b.remove_name_section);
    assert!(b.emit_start);
    assert!(!b.weak_refs);
    assert_eq!(b.threads, None);
}

#[test]
fn options_are_set_one_after_the_other() {
    let mut b = Bindgen::new();
    b.nodejs(true)
        .nodejs_experimental_modules(true)
        .browser(true)
        .no_modules(true)
        .no_modules_global("wasm")
        .debug(true)
        .typescript(true)
        .demangle(false)
        .keep_debug(true)
        .remove_name_section(true)
        .emit_start(false)
        .weak_refs(true)
        .threads(Some(ThreadsConfig::new()))
        .out_name("out")
        .input_path("dir/in.wasm");
    assert!(matches!(&b.input, Input::Path(p) if p == "dir/in.wasm"));
    assert_eq!(b.out_name, Some("out".to_string()));
    assert!(b.nodejs && b.nodejs_experimental_modules && b.browser && b.no_modules);
    assert_eq!(b.no_modules_global, Some("wasm".to_string()));
    assert!(b.debug && b.typescript && !b.demangle && b.keep_debug);
    assert!(b.remove_name_section && !b.emit_start && b.weak_refs);
    assert_eq!(b.threads, Some(ThreadsConfig { maximum_memory: 1 << 30, thread_stack_size: 1 << 20 }));
    b.nodejs(false).threads(None);
    assert!(!b.nodejs && b.browser);
    assert_eq!(b.threads, None);
}

#[test]
fn a_run_without_input_cannot_start() {
    let mut b = Bindgen::new();
    assert!(matches!(b.start(), Err(BindgenError::MissingInput)));
}

#[test]
fn a_run_on_a_path_asks_for_the_file() {
    let mut b = Bindgen::new();
    b.input_path("a/b.wasm");
    assert!(matches!(b.start(), Ok(Source::File(p)) if p == "a/b.wasm"));
    assert!(matches!(&b.input, Input::Path(p) if p == "a/b.wasm"));
}

#[test]
fn a_run_on_a_module_hands_it_out_and_keeps_a_blank_one() {
    let mut module = Module::default();
    module.custom.push(CustomSection { name: "x".to_string(), value: vec![1] });
    module.memories.add_local(false, 3, None);
    let mut b = Bindgen::new();
    b.input_module("name", module).out_name("ignored");
    match b.start() {
        Ok(Source::Module(m, name)) => {
            assert_eq!(name, "name");
            assert_eq!(m.custom.len(), 1);
            assert_eq!(m.memories.iter().count(), 1);
        }
        _ => panic!("the module was not handed out"),
    }
    match &b.input {
        Input::Module(m, name) => {
            assert_eq!(name, "name");
            assert!(m.custom.is_empty());
            assert_eq!(m.memories.iter().count(), 0);
            assert_eq!(m.funcs.iter().count(), 0);
        }
        _ => panic!("the input is gone"),
    }
    assert!(matches!(b.start(), Ok(Source::Module(m, _)) if m.custom.is_empty()));
}

#[test]
fn the_stem_is_the_name_asked_for_or_that_of_the_file() {
    let mut b = Bindgen::new();
    assert_eq!(b.stem_for("input"), "input");
    b.out_name("other");
    assert_eq!(b.stem_for("input"), "other");
}

#[test]
fn bytes_that_are_no_module_are_refused() {
    assert!(matches!(parse_input(b"not wasm"), Err(BindgenError::InvalidWasm { .. })));
    assert!(matches!(parse_input(&[]), Err(BindgenError::InvalidWasm { .. })));
    let module = parse_input(&[0x00, 0x61, 0x73, 0x6d, 0x01, 0x00, 0x00, 0x00]).unwrap();
    assert_eq!(module.memories.iter().count(), 0);
}

#[test]
fn custom_sections_are_found_in_a_binary() {
    let mut module = Module::default();
    module.custom.push(metadata(wasm_bindgen_shared::SCHEMA_VERSION, "0.0.0", &[1, 2]));
    let bytes = module.emit_wasm().unwrap();
    let mut parsed = parse_input(&bytes).unwrap();
    let staged = Bindgen::new().transform(&mut parsed).unwrap();
    assert_eq!(staged.programs, vec![Program { data: vec![1, 2] }]);
}

#[test]
fn a_module_with_metadata_and_no_memory_runs_through() {
    let mut module = Module::default();
    module.custom.push(metadata(wasm_bindgen_shared::SCHEMA_VERSION, "0.0.0", &[0, 0, 0, 0, 0]));
    module.custom.push(CustomSection { name: "kept".to_string(), value: vec![7] });
    let mut b = Bindgen::new();
    b.input_module("pkg", module);
    let (mut module, stem) = match b.start() {
        Ok(Source::Module(module, stem)) => (module, stem),
        _ => panic!("the module was not handed out"),
    };
    let staged = b.transform(&mut module).unwrap();
    assert_eq!(staged.programs, vec![Program { data: vec![0, 0, 0, 0, 0] }]);
    assert_eq!(staged.memory, MemoryLimits { shared: false, initial: 1, maximum: None, imported: false });
    assert_eq!(module.memories.iter().count(), 1);
    assert!(module.custom.iter().all(|c| c.name != RESERVED));
    let memory = module.memories.iter().next().unwrap().id();
    module.exports.add("memory", memory);
    let js = "export function f() {\nreturn 1;\n}\n";
    let files = b.emit(&stem, &module, js, "ignored", "ignored").unwrap();
    assert_eq!(files.len(), 2);
    assert_eq!(files[0], text("pkg.js", "export function f() {\n    return 1;\n}\n"));
    assert_eq!(files[1].name, "pkg_bg.wasm");
    let wasm = match &files[1].contents {
        Contents::Binary(wasm) => wasm.clone(),
        _ => panic!("the binary is text"),
    };
    let written = Module::from_buffer(&wasm).unwrap();
    let memories: Vec<_> = written.memories.iter().collect();
    assert_eq!(memories.len(), 1);
    assert!(memories[0].import.is_none());
    assert!(!memories[0].shared);
    assert_eq!(memories[0].initial, 1);
    assert_eq!(memories[0].maximum, None);
    assert!(written.custom.iter().all(|c| c.name != RESERVED));
    assert!(written.custom.iter().any(|c| c.name == "kept"));
}

#[test]
fn a_module_of_another_schema_stops_the_run_before_any_output() {
    let mut module = Module::default();
    module.custom.push(metadata("bogus", "0.0.0", &[0, 0, 0, 0, 0]));
    let b = Bindgen::new();
    let error = match b.transform(&mut module) {
        Err(error) => error,
        Ok(_) => panic!("the run went on"),
    };
    assert!(matches!(error, BindgenError::VersionMismatch { .. }));
    let text = error.message();
    assert!(text.contains("0.0.0"));
    assert!(text.contains(&wasm_bindgen_shared::version()));
    assert_eq!(
        error.context(),
        Some("failed to extract wasm-bindgen custom sections".to_string())
    );
    assert_eq!(module.memories.iter().count(), 0);
}

#[test]
fn a_module_with_two_memories_stops_the_run() {
    let mut module = Module::default();
    module.memories.add_local(false, 1, None);
    module.memories.add_local(false, 1, None);
    module.custom.push(metadata(wasm_bindgen_shared::SCHEMA_VERSION, "0.0.0", &[]));
    let error = Bindgen::new().transform(&mut module).err();
    assert_eq!(error, Some(BindgenError::MultipleMemories));
    assert!(module.custom.is_empty());
}

#[test]
fn threads_that_cannot_be_prepared_stop_the_run() {
    let mut b = Bindgen::new();
    b.threads(Some(ThreadsConfig::new()));
    let mut module = Module::default();
    let error = b.transform(&mut module).err();
    assert!(matches!(error, Some(BindgenError::Threads { .. })));
    b.threads(Some(ThreadsConfig { maximum_memory: 5, thread_stack_size: 65536 }));
    let mut module = Module::default();
    module.memories.add_local(false, 1, None);
    let error = b.transform(&mut module).err();
    assert!(matches!(error, Some(BindgenError::Threads { .. })));
}

#[test]
fn names_are_demangled_unless_switched_off() {
    let mut wasm = vec![0x00, 0x61, 0x73, 0x6d, 0x01, 0x00, 0x00, 0x00];
    wasm.extend_from_slice(&[0x01, 0x04, 0x01, 0x60, 0x00, 0x00]);
    wasm.extend_from_slice(&[0x03, 0x02, 0x01, 0x00]);
    wasm.extend_from_slice(&[0x0a, 0x04, 0x01, 0x02, 0x00, 0x0b]);
    wasm.extend_from_slice(&[0x00, 0x16, 0x04, b'n', b'a', b'm', b'e', 0x01, 0x0f, 0x01, 0x00, 0x0c]);
    wasm.extend_from_slice(b"_ZN3foo3barE");
    let mut b = Bindgen::new();
    let mut module = parse_input(&wasm).unwrap();
    b.transform(&mut module).unwrap();
    let names: Vec<_> = module.funcs.iter().map(|f| f.name.clone()).collect();
    assert_eq!(names, vec![Some("foo::bar".to_string())]);
    b.demangle(false);
    let mut module = parse_input(&wasm).unwrap();
    b.transform(&mut module).unwrap();
    let names: Vec<_> = module.funcs.iter().map(|f| f.name.clone()).collect();
    assert_eq!(names, vec![Some("_ZN3foo3barE".to_string())]);
}

#[test]
fn the_files_of_a_plain_run_are_the_glue_and_the_binary() {
    let b = Bindgen::new();
    let files = b.outputs("s", &vec![], &vec![], "a {\nb\n}", "t", "u", vec![1, 2, 3]);
    assert_eq!(
        files,
        vec![
            text("s.js", "a {\n    b\n}\n"),
            OutputFile { name: "s_bg.wasm".to_string(), contents: Contents::Binary(vec![1, 2, 3]) },
        ]
    );
}

#[test]
fn all_the_files_of_a_run_come_in_the_order_of_writing() {
    let imports = vec!["env".to_string(), "./x.js".to_string()];
    let exports = vec!["memory".to_string()];
    let mut b = Bindgen::new();
    b.typescript(true).nodejs(true);
    let files = b.outputs("my.stem", &imports, &exports, "a {\nb\n}", " t {\nx\n", "u", vec![9]);
    assert_eq!(
        files,
        vec![
            text("my.stem.js", "a {\n    b\n}\n"),
            text("my.stem.d.ts", " t {\nx\n"),
            text("my.stem_bg.js", &node_shim(false, &imports, "my.stem_bg.wasm", &exports)),
            text("my.stem_bg.d.ts", "u"),
            OutputFile { name: "my.stem_bg.wasm".to_string(), contents: Contents::Binary(vec![9]) },
        ]
    );
    b.nodejs_experimental_modules(true).typescript(false);
    let files = b.outputs("s", &imports, &exports, "", "t", "u", vec![]);
    assert_eq!(
        files,
        vec![
            text("s.mjs", ""),
            text("s_bg.mjs", &node_shim(true, &imports, "s_bg.wasm", &exports)),
            OutputFile { name: "s_bg.wasm".to_string(), contents: Contents::Binary(vec![]) },
        ]
    );
    b.nodejs(false);
    let files = b.outputs("s", &imports, &exports, "x", "t", "u", vec![]);
    assert_eq!(files.len(), 2);
    assert_eq!(files[0], text("s.mjs", &reset_indentation("x")));
}

#[test]
fn the_loader_names_the_imports_and_exports_of_the_module() {
    let mut module = Module::default();
    let ty = module.types.add(&[], &[]);
    let f = module.add_import_func("env", "f", ty);
    module.add_import_func("./snippet.js", "g", ty);
    module.add_import_func("env", "h", ty);
    module.exports.add("run", f);
    let memory = module.memories.add_local(false, 1, None);
    module.exports.add("memory", memory);
    let imports = vec!["env".to_string(), "./snippet.js".to_string(), "env".to_string()];
    let exports = vec!["run".to_string(), "memory".to_string()];
    let mut b = Bindgen::new();
    assert_eq!(
        b.generate_node_wasm_import(&module, "p_bg.wasm"),
        node_shim(false, &imports, "p_bg.wasm", &exports)
    );
    b.nodejs_experimental_modules(true).nodejs(true);
    let shim = b.generate_node_wasm_import(&module, "p_bg.wasm");
    assert_eq!(shim, node_shim(true, &imports, "p_bg.wasm", &exports));
    assert!(shim.contains("import * as import0 from './snippet.js';\nimport * as import1 from 'env';\n"));
    assert!(shim.contains("export const run = wasmInstance.exports.run;\nexport const memory = wasmInstance.exports.memory;\n"));
    let files = b.emit("p", &module, "", "", "").unwrap();
    assert_eq!(files.len(), 3);
    assert_eq!(files[1], text("p_bg.mjs", &shim));
}

#[test]
fn a_run_without_input_stops_at_its_first_step() {
    let mut b = Bindgen::new();
    assert!(matches!(b.generate(Event::Begin), Err(BindgenError::MissingInput)));
}

#[test]
fn a_run_on_a_file_goes_from_loading_to_writing() {
    let mut module = Module::default();
    module.custom.push(metadata(wasm_bindgen_shared::SCHEMA_VERSION, "0.0.0", &[5]));
    let contents = module.emit_wasm().unwrap();
    let mut b = Bindgen::new();
    b.input_path("some/dir/input.wasm").typescript(true);
    match b.generate(Event::Begin) {
        Ok(Action::Load { path }) => assert_eq!(path, "some/dir/input.wasm"),
        _ => panic!("the file is not asked for"),
    }
    let loaded = Event::Loaded { contents, file_stem: "input".to_string() };
    let (stem, module, staged) = match b.generate(loaded) {
        Ok(Action::Generate { stem, module, staged }) => (stem, module, staged),
        _ => panic!("the module is not staged"),
    };
    assert_eq!(stem, "input");
    assert_eq!(staged.programs, vec![Program { data: vec![5] }]);
    assert_eq!(module.memories.iter().count(), 1);
    assert!(module.custom.iter().all(|c| c.name != RESERVED));
    let generated = Event::Generated {
        stem,
        module,
        js: "f() {\nx\n}".to_string(),
        ts: "declare".to_string(),
        binary_ts: "binary".to_string(),
    };
    let files = match b.generate(generated) {
        Ok(Action::Write { files }) => files,
        _ => panic!("the files are not planned"),
    };
    let names: Vec<&str> = files.iter().map(|f| f.name.as_str()).collect();
    assert_eq!(names, vec!["input.js", "input.d.ts", "input_bg.d.ts", "input_bg.wasm"]);
    assert_eq!(files[0], text("input.js", "f() {\n    x\n}\n"));
    assert_eq!(files[1], text("input.d.ts", "declare"));
    assert_eq!(files[2], text("input_bg.d.ts", "binary"));
    assert!(matches!(&files[3].contents, Contents::Binary(wasm) if wasm.starts_with(b"\0asm")));
}

#[test]
fn the_name_asked_for_goes_before_that_of_the_file() {
    let mut b = Bindgen::new();
    b.input_path("input.wasm").out_name("pkg");
    let contents = Module::default().emit_wasm().unwrap();
    let loaded = Event::Loaded { contents, file_stem: "input".to_string() };
    assert!(matches!(b.generate(loaded), Ok(Action::Generate { stem, .. }) if stem == "pkg"));
}

#[test]
fn a_file_that_is_no_module_stops_the_run() {
    let mut b = Bindgen::new();
    b.input_path("input.wasm");
    let loaded = Event::Loaded { contents: b"text".to_vec(), file_stem: "input".to_string() };
    let error = b.generate(loaded).err().unwrap();
    assert!(matches!(error, BindgenError::InvalidWasm { .. }));
    assert_eq!(error.context(), Some("failed to parse input file as wasm".to_string()));
}

#[test]
fn a_run_on_a_module_is_staged_at_once_under_its_own_name() {
    let mut module = Module::default();
    module.custom.push(metadata("bogus", "0.0.0", &[]));
    let mut b = Bindgen::new();
    b.input_module("given", module).out_name("pkg");
    let error = b.generate(Event::Begin).err().unwrap();
    assert!(error.message().contains("rust wasm file: 0.0.0\n"));
    assert!(error.message().contains(&wasm_bindgen_shared::version()));
    let mut b = Bindgen::new();
    b.input_module("given", Module::default()).out_name("pkg");
    assert!(matches!(b.generate(Event::Begin), Ok(Action::Generate { stem, .. }) if stem == "given"));
}

#[test]
fn a_run_with_threads_stages_the_shared_memory() {
    let mut module = Module::default();
    module.memories.add_local(false, 2, None);
    let heap_base = module.globals.add_local(
        walrus::ValType::I32,
        false,
        walrus::InitExpr::Value(walrus::ir::Value::I32(65536)),
    );
    module.exports.add("__heap_base", heap_base);
    module.custom.push(metadata(wasm_bindgen_shared::SCHEMA_VERSION, "0.0.0", &[1]));
    module.custom.push(CustomSection { name: "kept".to_string(), value: vec![7] });
    let mut b = Bindgen::new();
    b.threads(Some(ThreadsConfig::new()));
    let staged = b.transform(&mut module).unwrap();
    assert_eq!(staged.programs, vec![Program { data: vec![1] }]);
    assert_eq!(staged.memory, MemoryLimits { shared: true, initial: 2, maximum: Some(16384), imported: true });
    assert_eq!(module.memories.iter().count(), 1);
    let names: Vec<&str> = module.custom.iter().map(|c| c.name.as_str()).collect();
    assert_eq!(names, vec!["kept"]);
}

#[test]
fn a_binary_is_parsed_into_what_it_holds_in_its_order() {
    let mut module = Module::default();
    let ty = module.types.add(&[], &[]);
    let f = module.add_import_func("env", "f", ty);
    let g = module.add_import_func("./snippet.js", "g", ty);
    module.exports.add("run", f);
    module.exports.add("walk", g);
    let memory = module.memories.add_local(false, 3, Some(9));
    module.exports.add("memory", memory);
    module.custom.push(CustomSection { name: "one".to_string(), value: vec![1] });
    module.custom.push(CustomSection { name: "two".to_string(), value: vec![2, 2] });
    let bytes = module.emit_wasm().unwrap();
    let summary = |m: &Module| {
        let custom: Vec<(String, Vec<u8>)> =
            m.custom.iter().map(|c| (c.name.clone(), c.value.clone())).collect();
        let memories: Vec<(bool, u32, Option<u32>)> =
            m.memories.iter().map(|m| (m.shared, m.initial, m.maximum)).collect();
        let names: Vec<Option<String>> = m.funcs.iter().map(|f| f.name.clone()).collect();
        let imports: Vec<String> = m.imports.iter().map(|i| i.module.clone()).collect();
        let exports: Vec<String> = m.exports.iter().map(|e| e.name.clone()).collect();
        (custom, memories, names, imports, exports)
    };
    let first = parse_input(&bytes).unwrap();
    let (custom, memories, names, imports, exports) = summary(&first);
    assert_eq!(custom, vec![("one".to_string(), vec![1]), ("two".to_string(), vec![2, 2])]);
    assert_eq!(memories, vec![(false, 3, Some(9))]);
    assert_eq!(names, vec![None, None]);
    assert_eq!(imports, vec!["env".to_string(), "./snippet.js".to_string()]);
    assert_eq!(exports, vec!["run".to_string(), "walk".to_string(), "memory".to_string()]);
    let second = parse_input(&bytes).unwrap();
    assert_eq!(summary(&second), summary(&first));
}

#[test]
fn the_same_bytes_fail_to_parse_each_time() {
    for bytes in [&b"\0asm"[..], &b"\0asm\x02\0\0\0"[..], &b"\0asm\x01\0\0\0\x01\x7f"[..]] {
        assert!(matches!(parse_input(bytes), Err(BindgenError::InvalidWasm { .. })));
        assert!(matches!(parse_input(bytes), Err(BindgenError::InvalidWasm { .. })));
    }
}

#[test]
fn a_module_with_a_function_without_body_is_not_written_out() {
    let mut wasm = vec![0x00, 0x61, 0x73, 0x6d, 0x01, 0x00, 0x00, 0x00];
    wasm.extend_from_slice(&[0x01, 0x04, 0x01, 0x60, 0x00, 0x00]);
    wasm.extend_from_slice(&[0x03, 0x02, 0x01, 0x00]);
    wasm.extend_from_slice(&[0x03, 0x02, 0x01, 0x00]);
    wasm.extend_from_slice(&[0x07, 0x05, 0x01, 0x01, b'f', 0x00, 0x00]);
    wasm.extend_from_slice(&[0x0a, 0x04, 0x01, 0x02, 0x00, 0x0b]);
    let module = walrus::ModuleConfig::new().strict_validate(false).parse(&wasm).unwrap();
    let error = Bindgen::new().emit("s", &module, "", "", "").unwrap_err();
    assert!(matches!(error, BindgenError::Emit { .. }));
    assert_eq!(error.message(), "a function of the module has no body");
}

#[test]
fn a_module_with_two_memories_is_not_written_out() {
    let mut module = Module::default();
    module.memories.add_local(false, 1, None);
    module.memories.add_local(false, 1, None);
    let error = Bindgen::new().emit("s", &module, "", "", "").unwrap_err();
    assert_eq!(error, BindgenError::MultipleMemories);
}
