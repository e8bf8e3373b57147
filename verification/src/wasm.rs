//! The module in memory, and the little of it that the pipeline reads and
//! changes.
//!
//! The module itself is walrus's. Nothing in this file is proved: each function
//! states what the walrus call in its body does, over the names below.

use vstd::prelude::*;
use walrus::Module;
use crate::binary::is_well_formed;
use crate::depth::MAX_DEPTH;

verus! {

#[verifier::external_type_specification]
#[verifier::external_body]
pub struct ExModule(walrus::Module);

#[verifier::external_type_specification]
#[verifier::external_body]
pub struct ExFailure(failure::Error);

#[verifier::external_type_specification]
#[verifier::external_body]
pub struct ExInterpreter(wasm_bindgen_wasm_interpreter::Interpreter);

/// One linear memory, by what the binary says of it. Sizes are in pages.
#[derive(Debug, Clone, Copy, PartialEq, Eq, Structural)]
pub struct MemoryLimits {
    /// Whether the memory may be shared between threads.
    pub shared: bool,
    /// The size that the memory starts with.
    pub initial: u32,
    /// The size that the memory may grow to, where there is a limit.
    pub maximum: Option<u32>,
    /// Whether the module imports the memory; else it is the module's own.
    pub imported: bool,
}

/// What a function of a module is.
#[derive(Debug, Clone, Copy, PartialEq, Eq, Structural)]
pub enum FunctionState {
    /// It is imported.
    Imported,
    /// It is the module's own, and has its body.
    Defined,
    /// It is declared, and its body is still missing.
    Unfinished,
}

/// The custom sections of a module, in order: a name and a payload each.
pub uninterp spec fn custom_sections(module: Module) -> Seq<(Seq<char>, Seq<u8>)>;

/// The linear memories of a module, in the order in which they were added.
pub uninterp spec fn memories(module: Module) -> Seq<MemoryLimits>;

/// The debug name of each function of a module, in the order in which the
/// functions were added.
pub uninterp spec fn function_names(module: Module) -> Seq<Option<Seq<char>>>;

/// For each import of a module, in order, the name of the module that it is
/// imported from.
pub uninterp spec fn import_modules(module: Module) -> Seq<Seq<char>>;

/// The name of each export of a module, in order.
pub uninterp spec fn export_names(module: Module) -> Seq<Seq<char>>;

/// The state of each function of a module, in the order in which the
/// functions were added.
pub uninterp spec fn function_states(module: Module) -> Seq<FunctionState>;

/// For each export of a module, in order: the place of the global that it
/// exports among the module's globals, if it exports a global.
pub uninterp spec fn exported_globals(module: Module) -> Seq<Option<usize>>;

/// For each global of a module, in the order in which they were added: the
/// 32-bit constant that it starts from, if it is the module's own and
/// starts from one.
pub uninterp spec fn global_constants(module: Module) -> Seq<Option<i32>>;

/// How many passive element segments a module holds.
pub uninterp spec fn passive_elements(module: Module) -> nat;

/// How many ill-formed things a module holds, of these kinds: an id, in an
/// item or in the code of a function, that is not the id of an item of its
/// kind in this very module; a block, a loop or a branch of a conditional
/// with more than one result; and a branch to a block that is not open
/// around it. A parser leaves none behind.
pub uninterp spec fn defects(module: Module) -> nat;

/// How many levels the deepest tree of expressions has in the functions of
/// a module: an operator stands one level above the operators whose values
/// it takes, and a block one level above what stands in it.
pub uninterp spec fn expression_depth(module: Module) -> nat;

/// Whether a module is as a parser leaves it, as far as that can be told of
/// its functions: it holds nothing ill-formed, and no tree of its
/// expressions has more levels than a tree may have.
pub open spec fn is_sound(module: Module) -> bool {
    defects(module) == 0 && expression_depth(module) <= MAX_DEPTH
}

/// How many calls in the functions of a module pass other arguments than as
/// many as the type of the function that is called has parameters. A parser
/// leaves none behind.
pub uninterp spec fn misfit_calls(module: Module) -> nat;

/// The names under which a module exports functions.
pub uninterp spec fn exported_function_names(module: Module) -> Set<Seq<char>>;

/// The names of the exported functions that an interpreter can run.
pub uninterp spec fn interpreter_functions(
    interpreter: wasm_bindgen_wasm_interpreter::Interpreter,
) -> Set<Seq<char>>;

/// The binary that walrus writes for a module: `None` where it fails to.
pub uninterp spec fn emitted(module: Module) -> Option<Seq<u8>>;

/// Whether every function of `module` is imported or has its body.
pub open spec fn is_finished(module: Module) -> bool {
    forall|i: int|
        0 <= i < function_states(module).len() ==> !(#[trigger] function_states(module)[i]
            is Unfinished)
}

/// Whether `module` can be written out: every function is imported or has
/// its body, there is at most one memory, and no passive element segment.
pub open spec fn is_emittable(module: Module) -> bool {
    &&& is_finished(module)
    &&& memories(module).len() <= 1
    &&& passive_elements(module) == 0
}

/// What the pipeline reads of a module, all of it together.
pub struct ModuleContents {
    /// The custom sections, in order: a name and a payload each.
    pub custom_sections: Seq<(Seq<char>, Seq<u8>)>,
    /// The linear memories, in order.
    pub memories: Seq<MemoryLimits>,
    /// The debug name of each function, in order.
    pub function_names: Seq<Option<Seq<char>>>,
    /// For each import, in order, the module that it is imported from.
    pub import_modules: Seq<Seq<char>>,
    /// The name of each export, in order.
    pub export_names: Seq<Seq<char>>,
}

/// What the pipeline reads of `module`.
pub open spec fn contents_of(module: Module) -> ModuleContents {
    ModuleContents {
        custom_sections: custom_sections(module),
        memories: memories(module),
        function_names: function_names(module),
        import_modules: import_modules(module),
        export_names: export_names(module),
    }
}

/// What walrus's parser makes of a binary, as far as the pipeline reads the
/// module that comes of it: `None` where it does not take the bytes for a
/// module.
pub uninterp spec fn parsed(wasm: Seq<u8>) -> Option<ModuleContents>;

/// The two modules differ at most in their custom sections.
pub open spec fn same_but_custom_sections(a: Module, b: Module) -> bool {
    &&& memories(a) == memories(b)
    &&& function_names(a) == function_names(b)
    &&& import_modules(a) == import_modules(b)
    &&& export_names(a) == export_names(b)
    &&& function_states(a) == function_states(b)
    &&& exported_globals(a) == exported_globals(b)
    &&& global_constants(a) == global_constants(b)
    &&& passive_elements(a) == passive_elements(b)
    &&& defects(a) == defects(b)
    &&& misfit_calls(a) == misfit_calls(b)
    &&& exported_function_names(a) == exported_function_names(b)
    &&& expression_depth(a) == expression_depth(b)
}

/// The two modules differ at most in their memories.
pub open spec fn same_but_memories(a: Module, b: Module) -> bool {
    &&& custom_sections(a) == custom_sections(b)
    &&& function_names(a) == function_names(b)
    &&& import_modules(a) == import_modules(b)
    &&& export_names(a) == export_names(b)
    &&& function_states(a) == function_states(b)
    &&& exported_globals(a) == exported_globals(b)
    &&& global_constants(a) == global_constants(b)
    &&& passive_elements(a) == passive_elements(b)
    &&& defects(a) == defects(b)
    &&& misfit_calls(a) == misfit_calls(b)
    &&& exported_function_names(a) == exported_function_names(b)
    &&& expression_depth(a) == expression_depth(b)
}

/// The two modules differ at most in their functions' names.
pub open spec fn same_but_function_names(a: Module, b: Module) -> bool {
    &&& custom_sections(a) == custom_sections(b)
    &&& memories(a) == memories(b)
    &&& import_modules(a) == import_modules(b)
    &&& export_names(a) == export_names(b)
    &&& function_states(a) == function_states(b)
    &&& exported_globals(a) == exported_globals(b)
    &&& global_constants(a) == global_constants(b)
    &&& passive_elements(a) == passive_elements(b)
    &&& defects(a) == defects(b)
    &&& misfit_calls(a) == misfit_calls(b)
    &&& exported_function_names(a) == exported_function_names(b)
    &&& expression_depth(a) == expression_depth(b)
}

/// What a sequence of optional strings holds.
pub open spec fn optional_texts(names: Seq<Option<String>>) -> Seq<Option<Seq<char>>> {
    Seq::new(
        names.len(),
        |i: int|
            match names[i] {
                Some(name) => Some(name@),
                None => None,
            },
    )
}

/// What a sequence of strings holds.
pub open spec fn texts(names: Seq<String>) -> Seq<Seq<char>> {
    Seq::new(names.len(), |i: int| names[i]@)
}

/// `walrus::Module::default`: a module with nothing in it.
#[verifier::external_body]
pub(crate) fn blank_module() -> (module: Module)
    ensures
        custom_sections(module).len() == 0,
        memories(module).len() == 0,
        function_names(module).len() == 0,
        import_modules(module).len() == 0,
        export_names(module).len() == 0,
        defects(module) == 0,
        expression_depth(module) == 0,
        misfit_calls(module) == 0,
{
    Module::default()
}

/// `walrus::ModuleConfig::parse`, with strict validation switched off. Whether
/// the bytes parse, and to what, is walrus's to say, and depends on the bytes
/// alone: the parser reads nothing else, and adds sections, memories,
/// functions, imports and exports in the order of the binary. What it
/// leaves behind is well formed: its ids are those of the items it made, a
/// block has the one result at most that a block type can name, a branch
/// goes to a block that is open where it is read, a call takes its
/// arguments by the type of its function, and no tree of expressions has
/// more levels than a tree may have, which the bytes were found not to
/// make.
///
/// Where walrus 0.1.0 and wasmparser 0.28.0 can stop on the way, and what
/// in `is_well_formed` leaves it out:
///
/// - `module/functions/mod.rs`, line 317 (a body for a function that is
///   imported) and line 304 (more bodies than functions): the sections come
///   in the order of the format and none twice, so all imports are read
///   before the functions are declared, and those before the code
///   (`sections_ok`).
/// - `module/elements.rs`, lines 76 to 81 (a table is filled up to the
///   offset of a segment, which may be negative): the offset is a place of
///   a table (`offset_end`).
/// - `module/data.rs`, line 112 (one entry is made for each data segment
///   that is counted): the count is no more than the bytes of the binary
///   (`section_ok`).
/// - `module/functions/mod.rs`, line 349 (one local is made for each that
///   is declared): a function has no more locals than a function may have
///   (`locals_end`).
/// - `module/functions/local_function/context.rs`, lines 158, 203, 215,
///   221, 225 and 269, and `local_function/mod.rs`, line 98 (an operator is
///   read while no block is open, or values are left over at the end): no
///   operator follows the end of its function (`operators_ok`). Lines 261
///   and 350 of `context.rs` and lines 731, 771 and 834 of
///   `local_function/mod.rs` are guarded by walrus itself: each follows a
///   test of the same stack in the same call.
/// - wasmparser's `readers/module.rs`, lines 46 to 233 (a section is read
///   as another kind than it is): walrus asks for each reader in the arm of
///   its own section code.
/// - wasmparser's `binary_reader.rs`, line 481, from `readers/module.rs`
///   lines 332 and 380, `readers/code_section.rs` line 191,
///   `readers/data_section.rs` line 126 and `readers/name_section.rs` line
///   204 (a length is added to a position): each section, body of a
///   function, data segment and part of the names ends within what holds
///   it (`sections_ok`, `functions_ok`, `data_segment_end`, `names_ok`).
///
/// The parser itself reads the code of a function operator by operator and
/// descends nowhere. What it builds is walked level by level by walrus when
/// the module is written out, and by the preparation for threads: that no
/// tree has more levels than such a walk has room for is what `depths_ok`
/// sees to, which follows the code as the parser does.
#[verifier::external_body]
pub(crate) fn parse_module(wasm: &[u8]) -> (r: Result<Module, failure::Error>)
    requires
        is_well_formed(wasm@),
    ensures
        match r {
            Ok(module) => parsed(wasm@) == Some(contents_of(module)) && is_sound(module)
                && misfit_calls(module) == 0,
            Err(_) => parsed(wasm@) is None,
        },
{
    walrus::ModuleConfig::new().strict_validate(false).parse(wasm)
}

/// `walrus::Module::emit_wasm`: the module as a binary, which depends on the
/// module alone.
///
/// It stops the program on a function without a body, on a passive element
/// segment, on an access to another memory than the first, on an id that is
/// not of the module, on a block with more than one result, on a branch to
/// a block that is not open, and, for want of room, on a tree of
/// expressions that it cannot walk to its end: `requires` leaves all of
/// these out.
#[verifier::external_body]
pub(crate) fn emit_wasm(module: &Module) -> (r: Result<Vec<u8>, failure::Error>)
    requires
        is_emittable(*module),
        is_sound(*module),
    ensures
        match r {
            Ok(bytes) => emitted(*module) == Some(bytes@),
            Err(_) => emitted(*module) is None,
        },
{
    module.emit_wasm()
}

/// The `kind` of each function that `walrus::ModuleFunctions::iter` yields.
#[verifier::external_body]
pub(crate) fn function_state_list(module: &Module) -> (states: Vec<FunctionState>)
    ensures
        states@ == function_states(*module),
{
    module.funcs.iter().map(|f| match f.kind {
        walrus::FunctionKind::Import(_) => FunctionState::Imported,
        walrus::FunctionKind::Local(_) => FunctionState::Defined,
        walrus::FunctionKind::Uninitialized(_) => FunctionState::Unfinished,
    }).collect()
}

/// For each export that `walrus::ModuleExports::iter` yields, the index of
/// the id of the global in its `item`, if the item is a global.
#[verifier::external_body]
pub(crate) fn exported_global_list(module: &Module) -> (places: Vec<Option<usize>>)
    ensures
        places@ == exported_globals(*module),
{
    module.exports.iter().map(|e| match e.item {
        walrus::ExportItem::Global(id) => Some(id.index()),
        walrus::ExportItem::Function(_) => None,
        walrus::ExportItem::Table(_) => None,
        walrus::ExportItem::Memory(_) => None,
    }).collect()
}

/// For each global that `walrus::ModuleGlobals::iter` yields, the 32-bit
/// constant in its `kind`, if that is a local global with such a constant.
#[verifier::external_body]
pub(crate) fn global_constant_list(module: &Module) -> (constants: Vec<Option<i32>>)
    ensures
        constants@ == global_constants(*module),
{
    module.globals.iter().map(|g| match g.kind {
        walrus::GlobalKind::Local(walrus::InitExpr::Value(walrus::ir::Value::I32(n))) => Some(n),
        walrus::GlobalKind::Local(walrus::InitExpr::Value(_)) => None,
        walrus::GlobalKind::Local(walrus::InitExpr::Global(_)) => None,
        walrus::GlobalKind::Import(_) => None,
    }).collect()
}

/// How many elements `walrus::ModuleElements::iter` yields.
#[verifier::external_body]
pub(crate) fn passive_element_count(module: &Module) -> (count: usize)
    ensures
        count == passive_elements(*module),
{
    module.elements.iter().count()
}

/// The text that `failure::Error` displays.
#[verifier::external_body]
pub(crate) fn failure_text(error: &failure::Error) -> (text: String) {
    format!("{}", error)
}

/// The length of `walrus::Module::custom`.
#[verifier::external_body]
pub(crate) fn custom_count(module: &Module) -> (n: usize)
    ensures
        n == custom_sections(*module).len(),
{
    module.custom.len()
}

/// The name of the custom section at `index` of `walrus::Module::custom`.
#[verifier::external_body]
pub(crate) fn custom_name(module: &Module, index: usize) -> (name: &str)
    requires
        index < custom_sections(*module).len(),
    ensures
        name@ == custom_sections(*module)[index as int].0,
{
    &module.custom[index].name
}

/// Moves the payload out of the custom section at `index` of
/// `walrus::Module::custom`, and leaves an empty one in its place.
#[verifier::external_body]
pub(crate) fn take_custom_payload(module: &mut Module, index: usize) -> (payload: Vec<u8>)
    requires
        index < custom_sections(*old(module)).len(),
    ensures
        payload@ == custom_sections(*old(module))[index as int].1,
        custom_sections(*final(module)) == custom_sections(*old(module)).update(
            index as int,
            (custom_sections(*old(module))[index as int].0, Seq::<u8>::empty()),
        ),
        same_but_custom_sections(*old(module), *final(module)),
{
    std::mem::replace(&mut module.custom[index].value, Vec::new())
}

/// `Vec::remove` on `walrus::Module::custom`.
#[verifier::external_body]
pub(crate) fn remove_custom(module: &mut Module, index: usize)
    requires
        index < custom_sections(*old(module)).len(),
    ensures
        custom_sections(*final(module)) == custom_sections(*old(module)).remove(index as int),
        same_but_custom_sections(*old(module), *final(module)),
{
    module.custom.remove(index);
}

/// What `walrus::ModuleMemories::iter` yields, each memory by its limits.
#[verifier::external_body]
pub(crate) fn memory_list(module: &Module) -> (list: Vec<MemoryLimits>)
    ensures
        list@ == memories(*module),
{
    module.memories.iter().map(|m| MemoryLimits {
        shared: m.shared,
        initial: m.initial,
        maximum: m.maximum,
        imported: m.import.is_some(),
    }).collect()
}

/// `walrus::ModuleMemories::add_local`: one more memory of the module's own,
/// after the others.
#[verifier::external_body]
pub(crate) fn add_local_memory(
    module: &mut Module,
    shared: bool,
    initial: u32,
    maximum: Option<u32>,
)
    ensures
        memories(*final(module)) == memories(*old(module)).push(
            MemoryLimits { shared, initial, maximum, imported: false },
        ),
        same_but_memories(*old(module), *final(module)),
{
    module.memories.add_local(shared, initial, maximum);
}

/// The `name` of each function that `walrus::ModuleFunctions::iter` yields.
#[verifier::external_body]
pub(crate) fn function_name_list(module: &Module) -> (names: Vec<Option<String>>)
    ensures
        optional_texts(names@) == function_names(*module),
{
    module.funcs.iter().map(|f| f.name.clone()).collect()
}

/// Gives each function that `walrus::ModuleFunctions::iter_mut` yields the
/// name at its place in `names`.
#[verifier::external_body]
pub(crate) fn set_function_names(module: &mut Module, names: Vec<Option<String>>)
    requires
        names@.len() == function_names(*old(module)).len(),
    ensures
        function_names(*final(module)) == optional_texts(names@),
        same_but_function_names(*old(module), *final(module)),
{
    for (func, name) in module.funcs.iter_mut().zip(names) {
        func.name = name;
    }
}

/// The `module` of each import that `walrus::ModuleImports::iter` yields.
#[verifier::external_body]
pub(crate) fn import_module_list(module: &Module) -> (names: Vec<String>)
    ensures
        texts(names@) == import_modules(*module),
{
    module.imports.iter().map(|i| i.module.clone()).collect()
}

/// The `name` of each export that `walrus::ModuleExports::iter` yields.
#[verifier::external_body]
pub(crate) fn export_name_list(module: &Module) -> (names: Vec<String>)
    ensures
        texts(names@) == export_names(*module),
{
    module.exports.iter().map(|e| e.name.clone()).collect()
}

/// `wasm_bindgen_wasm_interpreter::Interpreter::new`: an interpreter for the
/// descriptor functions of `module`, as the module is now. It knows the
/// functions that the module exports by the names of their exports.
#[verifier::external_body]
pub(crate) fn new_interpreter(module: &Module) -> (interpreter:
    wasm_bindgen_wasm_interpreter::Interpreter)
    ensures
        interpreter_functions(interpreter) == exported_function_names(*module),
{
    wasm_bindgen_wasm_interpreter::Interpreter::new(module)
}

} // verus!
