//! The options of a run, and the run itself in the steps that need no file
//! and no code generator.

use vstd::prelude::*;
use vstd::string::StringExecFns;
use walrus::Module;
use wasm_bindgen_wasm_interpreter::Interpreter;
use crate::binary::{is_well_formed, well_formed};
use crate::error::BindgenError;
use crate::extract::{
    extract_programs, harvested, payloads_outcome, program_views, reports_for_this_build,
    retained, Outcome, Program,
};
use crate::indent::{normalized, reset_indentation};
use crate::schema::schema_version_text;
use crate::shim::{loader, node_shim};
use crate::transform::{
    all_finished, demangle, demangled_names, prepare_threads, threads_prepared, threads_ready,
    unified, unify_memory, ThreadsConfig,
};
use crate::wasm::{
    blank_module, contents_of, custom_sections, emit_wasm, emitted,
    export_name_list, export_names, exported_function_names, failure_text, function_names,
    function_state_list, import_module_list, import_modules, interpreter_functions,
    is_emittable, is_sound, memories, memory_list, misfit_calls, new_interpreter, parse_module, parsed,
    passive_element_count, same_but_custom_sections, texts, MemoryLimits, ModuleContents,
};

verus! {

/// Where the module of a run comes from.
pub enum Input {
    /// A file, by its path.
    Path(String),
    /// A parsed module, and the name that its outputs go by.
    Module(Module, String),
    /// Nowhere yet.
    Unset,
}

/// What a run starts from, once its input is looked up.
pub enum Source {
    /// A file that is still to be read, by its path.
    File(String),
    /// A module, and the name that its outputs go by.
    Module(Module, String),
}

/// A module that is ready for bindings to be generated: what goes to the
/// code generator along with the module itself.
pub struct Staged {
    /// The binding metadata that was found in the module, in order.
    pub programs: Vec<Program>,
    /// The one linear memory of the module.
    pub memory: MemoryLimits,
    /// An interpreter for the module's descriptor functions.
    pub interpreter: Interpreter,
}

/// What the driver of a run has done last.
pub enum Event {
    /// Nothing yet: the run begins.
    Begin,
    /// It has read the input file: this is what the file holds, and the
    /// file's name without its extension.
    Loaded { contents: Vec<u8>, file_stem: String },
    /// It has generated the bindings for `module`: the glue `js`, its
    /// declarations `ts`, and the declarations of the binary `binary_ts`.
    Generated { stem: String, module: Module, js: String, ts: String, binary_ts: String },
}

/// What the driver of a run is to do next.
pub enum Action {
    /// Read the input file at `path`, and come back with `Event::Loaded`.
    Load { path: String },
    /// Generate the bindings for `module` from what was staged, and come back
    /// with `Event::Generated`.
    Generate { stem: String, module: Module, staged: Staged },
    /// Write `files` into the output directory, in order. The run is over.
    Write { files: Vec<OutputFile> },
}

/// What a file is to hold.
#[derive(Debug, PartialEq, Eq)]
pub enum Contents {
    /// Text, which is written as UTF-8.
    Text(String),
    /// Bytes.
    Binary(Vec<u8>),
}

/// A file to write: its name, which is relative to the output directory,
/// and what it is to hold.
#[derive(Debug, PartialEq, Eq)]
pub struct OutputFile {
    /// The name of the file, extension and all.
    pub name: String,
    /// What the file is to hold.
    pub contents: Contents,
}

/// What a file is to hold, as values.
pub enum ContentsView {
    /// Text.
    Text(Seq<char>),
    /// Bytes.
    Binary(Seq<u8>),
}

impl View for Contents {
    type V = ContentsView;

    open spec fn view(&self) -> ContentsView {
        match self {
            Contents::Text(text) => ContentsView::Text(text@),
            Contents::Binary(bytes) => ContentsView::Binary(bytes@),
        }
    }
}

impl View for OutputFile {
    type V = (Seq<char>, ContentsView);

    open spec fn view(&self) -> (Seq<char>, ContentsView) {
        (self.name@, self.contents@)
    }
}

/// What each of `files` is, as values.
pub open spec fn file_views(files: Seq<OutputFile>) -> Seq<(Seq<char>, ContentsView)> {
    files.map_values(|file: OutputFile| file@)
}

/// Whether a module has nothing in it that the pipeline reads.
pub open spec fn is_blank(module: Module) -> bool {
    &&& custom_sections(module).len() == 0
    &&& memories(module).len() == 0
    &&& function_names(module).len() == 0
    &&& import_modules(module).len() == 0
    &&& export_names(module).len() == 0
}

/// What reading the binding metadata of `module` comes to in this build.
pub open spec fn metadata(module: Module) -> Outcome {
    payloads_outcome(harvested(custom_sections(module)), schema_version_text())
}

/// Parses a WebAssembly binary. The module is not validated beyond what
/// parsing it takes.
///
/// The bytes alone decide. Bytes that are no well-formed binary are
/// refused. Of the others, those that the parser takes for a module come
/// back as that module, and the rest as the failure to parse them.
pub fn parse_input(contents: &[u8]) -> (r: Result<Module, BindgenError>)
    ensures
        if !is_well_formed(contents@) {
            r matches Err(e) && e is InvalidWasm
        } else {
            match parsed(contents@) {
                Some(holds) => r matches Ok(module) && contents_of(module) == holds && is_sound(
                    module,
                ) && misfit_calls(module) == 0,
                None => r matches Err(e) && e is InvalidWasm,
            }
        },
{
    if !well_formed(contents) {
        return Err(
            BindgenError::InvalidWasm {
                cause: "the sections or the code of the binary are not well formed".to_owned(),
            },
        );
    }
    match parse_module(contents) {
        Ok(module) => Ok(module),
        Err(e) => Err(BindgenError::InvalidWasm { cause: failure_text(&e) }),
    }
}

/// The options of a run.
pub struct Bindgen {
    /// Where the module comes from.
    pub input: Input,
    /// The name that the outputs go by, in place of that of the input file.
    pub out_name: Option<String>,
    /// Whether the host is Node.js, which gets a loader for the binary.
    pub nodejs: bool,
    /// Whether the scripts are ECMAScript modules for Node.js.
    pub nodejs_experimental_modules: bool,
    /// Whether the host is a browser.
    pub browser: bool,
    /// Whether the glue does without the module system of its host.
    pub no_modules: bool,
    /// The global that the glue goes by where it does without modules.
    pub no_modules_global: Option<String>,
    /// Whether the glue checks more than it must when it runs.
    pub debug: bool,
    /// Whether declarations are written beside the scripts.
    pub typescript: bool,
    /// Whether the functions of the module get readable names.
    pub demangle: bool,
    /// Whether debug information stays in the binary.
    pub keep_debug: bool,
    /// Whether the names of functions leave the binary.
    pub remove_name_section: bool,
    /// Whether the glue calls the start function of the module.
    pub emit_start: bool,
    /// Support for weak references, which the host may not have yet.
    pub weak_refs: bool,
    /// Preparation of the module for threads, where it is asked for.
    pub threads: Option<ThreadsConfig>,
}

impl Bindgen {
    /// The options that a run has unless it is told otherwise: no input yet, a
    /// generic host, readable names, a call of the start function, and
    /// nothing experimental.
    pub fn new() -> (bindgen: Bindgen)
        ensures
            bindgen.input is Unset,
            bindgen.out_name is None,
            !bindgen.nodejs,
            !bindgen.nodejs_experimental_modules,
            !bindgen.browser,
            !bindgen.no_modules,
            bindgen.no_modules_global is None,
            !bindgen.debug,
            !bindgen.typescript,
            bindgen.demangle,
            !bindgen.keep_debug,
            !bindgen.remove_name_section,
            bindgen.emit_start,
            !bindgen.weak_refs,
            bindgen.threads is None,
    {
        Bindgen {
            input: Input::Unset,
            out_name: None,
            nodejs: false,
            nodejs_experimental_modules: false,
            browser: false,
            no_modules: false,
            no_modules_global: None,
            debug: false,
            typescript: false,
            demangle: true,
            keep_debug: false,
            remove_name_section: false,
            emit_start: true,
            weak_refs: false,
            threads: None,
        }
    }

    /// Says whether the host is Node.js.
    pub fn nodejs(&mut self, node: bool) -> (bindgen: &mut Bindgen)
        ensures
            *bindgen == (Bindgen { nodejs: node, ..*old(self) }),
            *final(self) == *final(bindgen),
    {
        self.nodejs = node;
        self
    }

    /// Says whether the scripts are ECMAScript modules for Node.js.
    pub fn nodejs_experimental_modules(&mut self, node: bool) -> (bindgen: &mut Bindgen)
        ensures
            *bindgen == (Bindgen { nodejs_experimental_modules: node, ..*old(self) }),
            *final(self) == *final(bindgen),
    {
        self.nodejs_experimental_modules = node;
        self
    }

    /// Says whether the host is a browser.
    pub fn browser(&mut self, browser: bool) -> (bindgen: &mut Bindgen)
        ensures
            *bindgen == (Bindgen { browser, ..*old(self) }),
            *final(self) == *final(bindgen),
    {
        self.browser = browser;
        self
    }

    /// Says whether the glue does without the module system of its host.
    pub fn no_modules(&mut self, no_modules: bool) -> (bindgen: &mut Bindgen)
        ensures
            *bindgen == (Bindgen { no_modules, ..*old(self) }),
            *final(self) == *final(bindgen),
    {
        self.no_modules = no_modules;
        self
    }

    /// Says whether the glue checks more than it must when it runs.
    pub fn debug(&mut self, debug: bool) -> (bindgen: &mut Bindgen)
        ensures
            *bindgen == (Bindgen { debug, ..*old(self) }),
            *final(self) == *final(bindgen),
    {
        self.debug = debug;
        self
    }

    /// Says whether declarations are written beside the scripts.
    pub fn typescript(&mut self, typescript: bool) -> (bindgen: &mut Bindgen)
        ensures
            *bindgen == (Bindgen { typescript, ..*old(self) }),
            *final(self) == *final(bindgen),
    {
        self.typescript = typescript;
        self
    }

    /// Says whether the functions of the module get readable names.
    pub fn demangle(&mut self, demangle: bool) -> (bindgen: &mut Bindgen)
        ensures
            *bindgen == (Bindgen { demangle, ..*old(self) }),
            *final(self) == *final(bindgen),
    {
        self.demangle = demangle;
        self
    }

    /// Says whether debug information stays in the binary.
    pub fn keep_debug(&mut self, keep_debug: bool) -> (bindgen: &mut Bindgen)
        ensures
            *bindgen == (Bindgen { keep_debug, ..*old(self) }),
            *final(self) == *final(bindgen),
    {
        self.keep_debug = keep_debug;
        self
    }

    /// Says whether the names of functions leave the binary.
    pub fn remove_name_section(&mut self, remove: bool) -> (bindgen: &mut Bindgen)
        ensures
            *bindgen == (Bindgen { remove_name_section: remove, ..*old(self) }),
            *final(self) == *final(bindgen),
    {
        self.remove_name_section = remove;
        self
    }

    /// Says whether the glue calls the start function of the module.
    pub fn emit_start(&mut self, emit: bool) -> (bindgen: &mut Bindgen)
        ensures
            *bindgen == (Bindgen { emit_start: emit, ..*old(self) }),
            *final(self) == *final(bindgen),
    {
        self.emit_start = emit;
        self
    }

    /// Says whether the glue may use weak references.
    pub fn weak_refs(&mut self, enable: bool) -> (bindgen: &mut Bindgen)
        ensures
            *bindgen == (Bindgen { weak_refs: enable, ..*old(self) }),
            *final(self) == *final(bindgen),
    {
        self.weak_refs = enable;
        self
    }

    /// Prepares the module for threads as `config` says, or not at all.
    pub fn threads(&mut self, config: Option<ThreadsConfig>) -> (bindgen: &mut Bindgen)
        ensures
            *bindgen == (Bindgen { threads: config, ..*old(self) }),
            *final(self) == *final(bindgen),
    {
        self.threads = config;
        self
    }

    /// Names the file that holds the module.
    pub fn input_path(&mut self, path: &str) -> (bindgen: &mut Bindgen)
        ensures
            bindgen.input matches Input::Path(named) && named@ == path@,
            *bindgen == (Bindgen { input: bindgen.input, ..*old(self) }),
            *final(self) == *final(bindgen),
    {
        self.input = Input::Path(path.to_owned());
        self
    }

    /// Names the outputs, in place of the name of the input file.
    pub fn out_name(&mut self, name: &str) -> (bindgen: &mut Bindgen)
        ensures
            bindgen.out_name matches Some(named) && named@ == name@,
            *bindgen == (Bindgen { out_name: bindgen.out_name, ..*old(self) }),
            *final(self) == *final(bindgen),
    {
        self.out_name = Some(name.to_owned());
        self
    }

    /// Hands in the module, already parsed, and the name of its outputs.
    pub fn input_module(&mut self, name: &str, module: Module) -> (bindgen: &mut Bindgen)
        ensures
            bindgen.input matches Input::Module(given, named) && given == module && named@
                == name@,
            *bindgen == (Bindgen { input: bindgen.input, ..*old(self) }),
            *final(self) == *final(bindgen),
    {
        self.input = Input::Module(module, name.to_owned());
        self
    }

    /// Names the global that the glue goes by where it does without modules.
    pub fn no_modules_global(&mut self, name: &str) -> (bindgen: &mut Bindgen)
        ensures
            bindgen.no_modules_global matches Some(named) && named@ == name@,
            *bindgen == (Bindgen { no_modules_global: bindgen.no_modules_global, ..*old(self) }),
            *final(self) == *final(bindgen),
    {
        self.no_modules_global = Some(name.to_owned());
        self
    }
}

impl Bindgen {
    /// The extension of the generated scripts.
    pub open spec fn extension(&self) -> Seq<char> {
        if self.nodejs_experimental_modules {
            "mjs"@
        } else {
            "js"@
        }
    }

    /// The files of a run, in the order in which they are written, for the
    /// stem `stem`: the glue `js` once it is indented; its declarations `ts`,
    /// if declarations are asked for; the loader of the binary, if the host is
    /// Node.js; the declarations of the binary `binary_ts`, if declarations are
    /// asked for; and the binary `wasm`, which imports from `imported_from`
    /// and exports `exports`.
    pub open spec fn planned(
        &self,
        stem: Seq<char>,
        imported_from: Seq<Seq<char>>,
        exports: Seq<Seq<char>>,
        js: Seq<char>,
        ts: Seq<char>,
        binary_ts: Seq<char>,
        wasm: Seq<u8>,
    ) -> Seq<(Seq<char>, ContentsView)> {
        let glue = seq![(stem + "."@ + self.extension(), ContentsView::Text(normalized(js)))];
        let declarations = if self.typescript {
            seq![(stem + ".d.ts"@, ContentsView::Text(ts))]
        } else {
            Seq::empty()
        };
        let shim = if self.nodejs {
            seq![
                (
                    stem + "_bg."@ + self.extension(),
                    ContentsView::Text(
                        loader(
                            self.nodejs_experimental_modules,
                            imported_from,
                            stem + "_bg.wasm"@,
                            exports,
                        ),
                    ),
                ),
            ]
        } else {
            Seq::empty()
        };
        let binary_declarations = if self.typescript {
            seq![(stem + "_bg.d.ts"@, ContentsView::Text(binary_ts))]
        } else {
            Seq::empty()
        };
        let binary = seq![(stem + "_bg.wasm"@, ContentsView::Binary(wasm))];
        glue + declarations + shim + binary_declarations + binary
    }

    /// Looks up the input of the run. A module that was handed in leaves the
    /// options, and a blank one takes its place.
    pub fn start(&mut self) -> (r: Result<Source, BindgenError>)
        ensures
            match old(self).input {
                Input::Unset => (r matches Err(e) && e is MissingInput) && *final(self) == *old(
                    self,
                ),
                Input::Path(path) => r matches Ok(Source::File(named)) && named@ == path@
                    && *final(self) == *old(self),
                Input::Module(module, name) => {
                    &&& r matches Ok(Source::Module(given, named)) && given == module && named@
                        == name@
                    &&& final(self).input matches Input::Module(blank, kept) && is_blank(blank)
                        && kept == name
                    &&& *final(self) == (Bindgen { input: final(self).input, ..*old(self) })
                },
            },
    {
        match &mut self.input {
            Input::Unset => Err(BindgenError::MissingInput),
            Input::Path(path) => Ok(Source::File(path.clone())),
            Input::Module(module, name) => {
                let mut taken = blank_module();
                core::mem::swap(module, &mut taken);
                Ok(Source::Module(taken, name.clone()))
            },
        }
    }

    /// The stem of the outputs of a run that reads a file whose name, without
    /// its extension, is `file_stem`: the name that was asked for, else that.
    pub open spec fn stem_of(&self, file_stem: Seq<char>) -> Seq<char> {
        match self.out_name {
            Some(name) => name@,
            None => file_stem,
        }
    }

    /// The stem of the outputs of a run that reads a file whose name, without
    /// its extension, is `file_stem`: the name that was asked for, else that.
    pub fn stem_for(&self, file_stem: &str) -> (stem: String)
        ensures
            stem@ == self.stem_of(file_stem@),
    {
        match &self.out_name {
            Some(name) => name.clone(),
            None => file_stem.to_owned(),
        }
    }

    /// Whether `after` and `r` are what a module comes to that has lost its
    /// metadata `found` and holds `settling` when its names and its memories
    /// are seen to: readable function names unless that is switched off, and
    /// exactly one linear memory, or the refusal of a module with more. The
    /// interpreter that is staged is one for the module as it is after that.
    pub open spec fn settles(
        &self,
        settling: ModuleContents,
        after: Module,
        found: Seq<Seq<u8>>,
        r: Result<Staged, BindgenError>,
    ) -> bool {
        &&& import_modules(after) == settling.import_modules
        &&& export_names(after) == settling.export_names
        &&& function_names(after) == if self.demangle {
            demangled_names(settling.function_names)
        } else {
            settling.function_names
        }
        &&& match unified(settling.memories) {
            Some(one) => (r matches Ok(staged) && program_views(staged.programs@) == found
                && staged.memory == one[0] && interpreter_functions(staged.interpreter)
                == exported_function_names(after)) && memories(after) == one,
            None => (r matches Err(e) && e is MultipleMemories) && memories(after)
                == settling.memories,
        }
    }

    /// Whether `stripped` is `before` without its reserved custom sections.
    pub open spec fn strips(before: Module, stripped: Module) -> bool {
        custom_sections(stripped) == retained(custom_sections(before))
            && same_but_custom_sections(before, stripped)
    }

    /// Whether `after` and `r` are what `before` comes to when it is made
    /// ready for bindings to be generated.
    ///
    /// The reserved custom sections leave the module in any case, and a
    /// module that is well formed stays so. Where the metadata cannot be
    /// read, that is the failure, and nothing else has changed. Else, where
    /// threads are asked for, the stripped module is
    /// prepared for them: that fails at once where the sizes or the module
    /// are not ready for it, and else comes to what the preparation makes of
    /// the stripped module. What the module then holds is settled.
    pub open spec fn transforms(
        &self,
        before: Module,
        after: Module,
        r: Result<Staged, BindgenError>,
    ) -> bool {
        &&& custom_sections(after) == retained(custom_sections(before))
        &&& is_sound(before) ==> is_sound(after)
        &&& match metadata(before) {
            Outcome::Programs(found) => match self.threads {
                None => self.settles(contents_of(before), after, found, r),
                Some(config) => exists|stripped: Module| #[trigger]
                    Self::strips(before, stripped) && if !threads_ready(config, stripped) {
                        (r matches Err(e) && e is Threads) && after == stripped
                    } else if threads_prepared(config, stripped).0 {
                        self.settles(threads_prepared(config, stripped).1, after, found, r)
                    } else {
                        (r matches Err(e) && e is Threads) && contents_of(after)
                            == threads_prepared(config, stripped).1
                    },
            },
            failure => (r matches Err(e) && reports_for_this_build(
                Err::<Vec<Program>, BindgenError>(e),
                failure,
            )) && same_but_custom_sections(before, after),
        }
    }

    /// Takes the binding metadata out of `module` and makes the module ready
    /// for bindings to be generated: prepared for threads where that is asked
    /// for, with readable function names unless that is switched off, and with
    /// exactly one linear memory.
    ///
    /// Where threads are asked for, the module must be as a parser leaves
    /// it: nothing ill-formed in it, no tree of expressions of more levels
    /// than a tree may have, and no call with other arguments than its
    /// function takes.
    pub fn transform(&self, module: &mut Module) -> (r: Result<Staged, BindgenError>)
        requires
            self.threads is Some ==> is_sound(*old(module)) && misfit_calls(*old(module)) == 0,
        ensures
            self.transforms(*old(module), *final(module), r),
    {
        let programs = match extract_programs(module) {
            Ok(programs) => programs,
            Err(e) => {
                return Err(e);
            },
        };
        let ghost found = program_views(programs@);
        let ghost stripped = *module;
        assert(Self::strips(*old(module), stripped));
        if let Some(config) = &self.threads {
            match prepare_threads(config, module) {
                Ok(()) => {},
                Err(e) => {
                    return Err(e);
                },
            }
        }
        let ghost prepared = contents_of(*module);
        if self.demangle {
            demangle(module);
        }
        let memory = match unify_memory(module) {
            Ok(memory) => memory,
            Err(e) => {
                let r = Err(e);
                assert(self.settles(prepared, *module, found, r));
                return r;
            },
        };
        let interpreter = new_interpreter(module);
        let r = Ok(Staged { programs, memory, interpreter });
        assert(self.settles(prepared, *module, found, r));
        r
    }

    /// The loader that Node.js runs for the binary named `binary`, which is
    /// the binary of `module`.
    pub fn generate_node_wasm_import(&self, module: &Module, binary: &str) -> (shim: String)
        ensures
            shim@ == loader(
                self.nodejs_experimental_modules,
                import_modules(*module),
                binary@,
                export_names(*module),
            ),
    {
        let imported_from = import_module_list(module);
        let exports = export_name_list(module);
        node_shim(self.nodejs_experimental_modules, &imported_from, binary, &exports)
    }

    /// The files of a run, in the order in which they are written.
    pub fn outputs(
        &self,
        stem: &str,
        imported_from: &Vec<String>,
        exports: &Vec<String>,
        js: &str,
        ts: &str,
        binary_ts: &str,
        wasm: Vec<u8>,
    ) -> (files: Vec<OutputFile>)
        ensures
            file_views(files@) == self.planned(
                stem@,
                texts(imported_from@),
                texts(exports@),
                js@,
                ts@,
                binary_ts@,
                wasm@,
            ),
    {
        let extension = if self.nodejs_experimental_modules {
            "mjs"
        } else {
            "js"
        };
        let mut files: Vec<OutputFile> = Vec::new();
        let mut glue_name = stem.to_owned();
        glue_name.append(".");
        glue_name.append(extension);
        files.push(OutputFile { name: glue_name, contents: Contents::Text(reset_indentation(js)) });
        if self.typescript {
            let mut name = stem.to_owned();
            name.append(".d.ts");
            files.push(OutputFile { name, contents: Contents::Text(ts.to_owned()) });
        }
        let mut binary_name = stem.to_owned();
        binary_name.append("_bg.wasm");
        if self.nodejs {
            let mut name = stem.to_owned();
            name.append("_bg.");
            name.append(extension);
            let shim = node_shim(
                self.nodejs_experimental_modules,
                imported_from,
                binary_name.as_str(),
                exports,
            );
            files.push(OutputFile { name, contents: Contents::Text(shim) });
        }
        if self.typescript {
            let mut name = stem.to_owned();
            name.append("_bg.d.ts");
            files.push(OutputFile { name, contents: Contents::Text(binary_ts.to_owned()) });
        }
        files.push(OutputFile { name: binary_name, contents: Contents::Binary(wasm) });
        assert(file_views(files@) =~= self.planned(
            stem@,
            texts(imported_from@),
            texts(exports@),
            js@,
            ts@,
            binary_ts@,
            wasm@,
        ));
        files
    }

    /// Whether `r` is what emitting `module` comes to. A module with more
    /// than one memory is refused, and so is one that cannot be written out.
    /// Else the module alone decides: where it is written out as a binary,
    /// the files are those that are planned with that binary, and else the
    /// failure to write it out.
    pub open spec fn emits(
        &self,
        stem: Seq<char>,
        module: Module,
        js: Seq<char>,
        ts: Seq<char>,
        binary_ts: Seq<char>,
        r: Result<Vec<OutputFile>, BindgenError>,
    ) -> bool {
        if memories(module).len() > 1 {
            r matches Err(e) && e is MultipleMemories
        } else if !is_emittable(module) {
            r matches Err(e) && e is Emit
        } else {
            match emitted(module) {
                Some(wasm) => r matches Ok(files) && file_views(files@) == self.planned(
                    stem,
                    import_modules(module),
                    export_names(module),
                    js,
                    ts,
                    binary_ts,
                    wasm,
                ),
                None => r matches Err(e) && e is Emit,
            }
        }
    }

    /// The files of a run for the stem `stem`, given what the code generator
    /// made of `module`: the glue `js`, its declarations `ts`, and the
    /// declarations of the binary `binary_ts`. The binary comes last, and is
    /// `module` as it is written out.
    ///
    /// The module must be as a parser and the steps of a run leave it: no
    /// ill-formed id, block or branch, and no tree of expressions of more
    /// levels than a tree may have.
    pub fn emit(&self, stem: &str, module: &Module, js: &str, ts: &str, binary_ts: &str) -> (r:
        Result<Vec<OutputFile>, BindgenError>)
        requires
            is_sound(*module),
        ensures
            self.emits(stem@, *module, js@, ts@, binary_ts@, r),
    {
        let memories = memory_list(module);
        if memories.len() > 1 {
            return Err(BindgenError::MultipleMemories);
        }
        let states = function_state_list(module);
        if !all_finished(&states) {
            return Err(BindgenError::Emit { cause: "a function of the module has no body".to_owned() });
        }
        if passive_element_count(module) != 0 {
            return Err(
                BindgenError::Emit {
                    cause: "passive element segments cannot be written out".to_owned(),
                },
            );
        }
        let imported_from = import_module_list(module);
        let exports = export_name_list(module);
        let wasm = match emit_wasm(module) {
            Ok(wasm) => wasm,
            Err(e) => {
                return Err(BindgenError::Emit { cause: failure_text(&e) });
            },
        };
        Ok(self.outputs(stem, &imported_from, &exports, js, ts, binary_ts, wasm))
    }

    /// Whether `r` is what staging `before` under the stem `stem` comes to:
    /// the module made ready and handed to the code generator, or the failure
    /// to make it ready.
    pub open spec fn stages(&self, before: Module, stem: Seq<char>, r: Result<Action, BindgenError>) -> bool {
        match r {
            Ok(Action::Generate { stem: named, module, staged }) => named@ == stem
                && self.transforms(before, module, Ok::<Staged, BindgenError>(staged)),
            Ok(_) => false,
            Err(e) => exists|after: Module| #[trigger]
                self.transforms(before, after, Err::<Staged, BindgenError>(e)),
        }
    }

    fn stage(&self, module: Module, stem: String) -> (r: Result<Action, BindgenError>)
        requires
            self.threads is Some ==> is_sound(module) && misfit_calls(module) == 0,
        ensures
            self.stages(module, stem@, r),
    {
        let mut module = module;
        let ghost before = module;
        match self.transform(&mut module) {
            Ok(staged) => Ok(Action::Generate { stem, module, staged }),
            Err(e) => {
                assert(self.transforms(before, module, Err::<Staged, BindgenError>(e)));
                Err(e)
            },
        }
    }

    /// One step of a run: given what the driver has done last, what it is to
    /// do next. The driver reads the input, runs the code generator and writes
    /// the files; everything between is decided here.
    ///
    /// A run begins with the input: a file is to be loaded, a module is staged
    /// at once. What was loaded is parsed and staged, under the name that was
    /// asked for or else that of the file. What was generated is emitted. No
    /// file is planned before the bindings are generated, so a failure before
    /// that leaves nothing written.
    ///
    /// A module that is handed in must be as a parser leaves it where
    /// threads are asked for; and the module that comes back from the code
    /// generator must hold no ill-formed id, block or branch, and no tree
    /// of expressions of more levels than a tree may have.
    pub fn generate(&mut self, event: Event) -> (r: Result<Action, BindgenError>)
        requires
            event is Begin && old(self).threads is Some ==> (old(self).input matches Input::Module(
                module,
                _,
            ) ==> is_sound(module) && misfit_calls(module) == 0),
            event matches Event::Generated { module, .. } ==> is_sound(module),
        ensures
            match event {
                Event::Begin => match old(self).input {
                    Input::Unset => (r matches Err(e) && e is MissingInput) && *final(self)
                        == *old(self),
                    Input::Path(path) => (r matches Ok(Action::Load { path: named }) && named@
                        == path@) && *final(self) == *old(self),
                    Input::Module(module, name) => {
                        &&& final(self).stages(module, name@, r)
                        &&& final(self).input matches Input::Module(blank, kept) && is_blank(
                            blank,
                        ) && kept == name
                        &&& *final(self) == (Bindgen { input: final(self).input, ..*old(self) })
                    },
                },
                Event::Loaded { contents, file_stem } => {
                    &&& *final(self) == *old(self)
                    &&& match (if is_well_formed(contents@) {
                        parsed(contents@)
                    } else {
                        None
                    }) {
                        Some(holds) => exists|module: Module|
                            contents_of(module) == holds && #[trigger] old(self).stages(
                                module,
                                old(self).stem_of(file_stem@),
                                r,
                            ),
                        None => r matches Err(e) && e is InvalidWasm,
                    }
                },
                Event::Generated { stem, module, js, ts, binary_ts } => {
                    &&& *final(self) == *old(self)
                    &&& match r {
                        Ok(Action::Write { files }) => old(self).emits(
                            stem@,
                            module,
                            js@,
                            ts@,
                            binary_ts@,
                            Ok::<Vec<OutputFile>, BindgenError>(files),
                        ),
                        Ok(_) => false,
                        Err(e) => old(self).emits(
                            stem@,
                            module,
                            js@,
                            ts@,
                            binary_ts@,
                            Err::<Vec<OutputFile>, BindgenError>(e),
                        ),
                    }
                },
            },
    {
        match event {
            Event::Begin => match self.start() {
                Err(e) => Err(e),
                Ok(Source::File(path)) => Ok(Action::Load { path }),
                Ok(Source::Module(module, stem)) => self.stage(module, stem),
            },
            Event::Loaded { contents, file_stem } => {
                let module = match parse_input(contents.as_slice()) {
                    Ok(module) => module,
                    Err(e) => {
                        return Err(e);
                    },
                };
                let stem = self.stem_for(file_stem.as_str());
                self.stage(module, stem)
            },
            Event::Generated { stem, module, js, ts, binary_ts } => {
                match self.emit(stem.as_str(), &module, js.as_str(), ts.as_str(), binary_ts.as_str()) {
                    Ok(files) => Ok(Action::Write { files }),
                    Err(e) => Err(e),
                }
            },
        }
    }

    /// The glue comes first among the files of a run, under the stem and the
    /// extension of the scripts, and holds the glue as it was generated,
    /// indented: it is empty only where nothing was generated.
    pub proof fn lemma_glue_comes_first(
        &self,
        stem: Seq<char>,
        imported_from: Seq<Seq<char>>,
        exports: Seq<Seq<char>>,
        js: Seq<char>,
        ts: Seq<char>,
        binary_ts: Seq<char>,
        wasm: Seq<u8>,
    )
        ensures
            self.planned(stem, imported_from, exports, js, ts, binary_ts, wasm).len() >= 2,
            self.planned(stem, imported_from, exports, js, ts, binary_ts, wasm)[0] == (
                stem + "."@ + self.extension(),
                ContentsView::Text(normalized(js)),
            ),
            normalized(js).len() == 0 <==> js.len() == 0,
            self.planned(stem, imported_from, exports, js, ts, binary_ts, wasm).last() == (
                stem + "_bg.wasm"@,
                ContentsView::Binary(wasm),
            ),
    {
    }
}

} // verus!
