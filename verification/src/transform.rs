//! The changes that a module goes through before bindings are generated for
//! it: preparation for threads, readable function names, and one linear
//! memory.

use vstd::prelude::*;
use walrus::Module;
use crate::error::BindgenError;
use crate::text::same_text;
use crate::wasm::{
    add_local_memory, contents_of, custom_sections, export_name_list, export_names,
    exported_global_list, exported_globals, failure_text, function_name_list, function_names,
    function_state_list, function_states, global_constant_list, global_constants, is_finished,
    is_sound,
    memories, memory_list, misfit_calls, optional_texts, same_but_function_names, same_but_memories,
    set_function_names, texts, FunctionState, MemoryLimits, ModuleContents,
};

verus! {

/// The size of a page of linear memory, in bytes.
pub const PAGE_SIZE: u32 = 0x1_0000;

/// How a module is prepared for threads. Both sizes are in bytes.
#[derive(Debug, Clone, Copy, PartialEq, Eq, Structural)]
pub struct ThreadsConfig {
    /// The most memory that the module may ever have.
    pub maximum_memory: u32,
    /// The stack of each thread but the first.
    pub thread_stack_size: u32,
}

impl ThreadsConfig {
    /// Whether both sizes are whole pages.
    pub open spec fn is_page_aligned(&self) -> bool {
        self.maximum_memory % PAGE_SIZE == 0 && self.thread_stack_size % PAGE_SIZE == 0
    }

    /// The sizes that the preparation starts from: a gigabyte of memory at
    /// most, and a megabyte of stack for each thread.
    pub fn new() -> (config: ThreadsConfig)
        ensures
            config.maximum_memory == 0x4000_0000,
            config.thread_stack_size == 0x10_0000,
            config.is_page_aligned(),
    {
        ThreadsConfig { maximum_memory: 0x4000_0000, thread_stack_size: 0x10_0000 }
    }
}

/// The preparation for threads, if it is asked for, with the sizes that are
/// given in place of the usual ones.
pub fn threads_config(enabled: bool, maximum_memory: Option<u32>, thread_stack_size: Option<u32>) -> (config:
    Option<ThreadsConfig>)
    ensures
        !enabled ==> config is None,
        enabled ==> config == Some(
            ThreadsConfig {
                maximum_memory: match maximum_memory {
                    Some(size) => size,
                    None => 0x4000_0000,
                },
                thread_stack_size: match thread_stack_size {
                    Some(size) => size,
                    None => 0x10_0000,
                },
            },
        ),
{
    if !enabled {
        return None;
    }
    let mut config = ThreadsConfig::new();
    if let Some(size) = maximum_memory {
        config.maximum_memory = size;
    }
    if let Some(size) = thread_stack_size {
        config.thread_stack_size = size;
    }
    Some(config)
}

/// The name of the export that marks the end of a module's static data.
pub open spec fn heap_base_name() -> Seq<char> {
    "__heap_base"@
}

/// The place among a module's globals of its heap base: what the first
/// export exports that has the heap base's name and exports a global. The
/// exports are given by their names and by the globals that they export.
pub open spec fn heap_base_place(names: Seq<Seq<char>>, exported: Seq<Option<usize>>) -> Option<
    usize,
>
    decreases names.len(),
{
    if names.len() == 0 || exported.len() == 0 {
        None
    } else if names[0] == heap_base_name() && exported[0] is Some {
        exported[0]
    } else {
        heap_base_place(names.drop_first(), exported.drop_first())
    }
}

/// Where the counter of thread ids goes for a heap base of `heap_base`, read
/// as an unsigned number: the next address from there on that is a multiple
/// of four.
pub open spec fn counter_address(heap_base: i32) -> int {
    let unsigned = if heap_base >= 0 {
        heap_base as int
    } else {
        heap_base + 0x1_0000_0000
    };
    (unsigned + 3) / 4 * 4
}

/// Whether the four bytes of the counter fit the 32-bit range.
pub open spec fn counter_fits(heap_base: i32) -> bool {
    counter_address(heap_base) + 4 <= u32::MAX
}

/// Whether the counter takes the heap base to the next page, so that the
/// memory must start one page larger.
pub open spec fn counter_adds_a_page(heap_base: i32) -> bool {
    (counter_address(heap_base) + 4) / 0x1_0000 != counter_address(heap_base) / 0x1_0000
}

/// Whether a module with the memories `memories` has room for the counter
/// of thread ids after a heap base of `heap_base`.
pub open spec fn has_room_for_counter(heap_base: i32, memories: Seq<MemoryLimits>) -> bool {
    &&& counter_fits(heap_base)
    &&& counter_adds_a_page(heap_base) && memories.len() == 1 ==> memories[0].initial < u32::MAX
}

/// Whether `module` can go through the preparation for threads as `config`
/// says: both sizes are whole pages, every function is imported or has its
/// body, and where the heap base is a global of the module's own with a
/// constant, there is room for the counter of thread ids after it.
pub open spec fn threads_ready(config: ThreadsConfig, module: Module) -> bool {
    &&& config.is_page_aligned()
    &&& is_finished(module)
    &&& match heap_base_place(export_names(module), exported_globals(module)) {
        None => true,
        Some(place) => place < global_constants(module).len() && match global_constants(
            module,
        )[place as int] {
            None => true,
            Some(heap_base) => has_room_for_counter(heap_base, memories(module)),
        },
    }
}

/// What `wasm_bindgen_threads_xform::Config::run` comes to on a module:
/// whether it succeeds, and what the module holds after it.
pub uninterp spec fn threads_prepared(config: ThreadsConfig, module: Module) -> (
    bool,
    ModuleContents,
);

/// `wasm_bindgen_threads_xform::Config::run`, with both sizes set. What it
/// makes of the module is its own to say, and depends on the sizes and the
/// module alone; it leaves the custom sections as they are.
///
/// It stops the program where a size is no whole number of pages, where a
/// function has no body, where the heap base is no global of the module,
/// where the counter of thread ids after the heap base, or the page that it
/// may add to the memory, goes past the 32-bit range, where an id is not of
/// the module, and where a call of a thread intrinsic has other arguments
/// than the intrinsic takes, and, for want of room, on a tree of expressions
/// that it cannot walk to its end: `requires` leaves these out. The blocks
/// and branches that it adds are well formed, and the trees that it adds
/// have a few levels.
#[verifier::external_body]
pub(crate) fn run_threads(config: &ThreadsConfig, module: &mut Module) -> (r: Result<
    (),
    failure::Error,
>)
    requires
        threads_ready(*config, *old(module)),
        is_sound(*old(module)),
        misfit_calls(*old(module)) == 0,
    ensures
        custom_sections(*final(module)) == custom_sections(*old(module)),
        is_sound(*final(module)),
        (r is Ok) == threads_prepared(*config, *old(module)).0,
        contents_of(*final(module)) == threads_prepared(*config, *old(module)).1,
{
    let mut xform = wasm_bindgen_threads_xform::Config::new();
    xform.maximum_memory(config.maximum_memory);
    xform.thread_stack_size(config.thread_stack_size);
    xform.run(module)
}

/// Whether every function is imported or has its body.
pub fn all_finished(states: &Vec<FunctionState>) -> (finished: bool)
    ensures
        finished == (forall|i: int| 0 <= i < states@.len() ==> !(#[trigger] states@[i] is Unfinished)),
{
    let mut i: usize = 0;
    while i < states.len()
        invariant
            i <= states.len(),
            forall|j: int| 0 <= j < i ==> !(#[trigger] states@[j] is Unfinished),
        decreases states.len() - i,
    {
        match states[i] {
            FunctionState::Unfinished => {
                return false;
            },
            _ => {},
        }
        i += 1;
    }
    true
}

/// The place among a module's globals of its heap base, from the names of
/// the exports and the globals that they export.
pub fn find_heap_base(names: &Vec<String>, exported: &Vec<Option<usize>>) -> (place: Option<usize>)
    ensures
        place == heap_base_place(texts(names@), exported@),
{
    let mut i: usize = 0;
    assert(texts(names@).skip(0) =~= texts(names@));
    assert(exported@.skip(0) =~= exported@);
    while i < names.len() && i < exported.len()
        invariant
            i <= names.len(),
            i <= exported.len(),
            heap_base_place(texts(names@), exported@) == heap_base_place(
                texts(names@).skip(i as int),
                exported@.skip(i as int),
            ),
        decreases names.len() - i,
    {
        assert(texts(names@).skip(i as int)[0] == names@[i as int]@);
        if same_text(names[i].as_str(), "__heap_base") {
            match exported[i] {
                Some(place) => {
                    return Some(place);
                },
                None => {},
            }
        }
        assert(texts(names@).skip(i as int).drop_first() =~= texts(names@).skip(i + 1));
        assert(exported@.skip(i as int).drop_first() =~= exported@.skip(i + 1));
        i += 1;
    }
    None
}

/// Whether a module with the memories `memories` has room for the counter
/// of thread ids after a heap base of `heap_base`.
pub fn room_for_counter(heap_base: i32, memories: &Vec<MemoryLimits>) -> (room: bool)
    ensures
        room == has_room_for_counter(heap_base, memories@),
{
    let unsigned: u64 = if heap_base >= 0 {
        heap_base as u64
    } else {
        (heap_base as i64 + 0x1_0000_0000) as u64
    };
    let address: u64 = (unsigned + 3) / 4 * 4;
    if address + 4 > 0xffff_ffff {
        return false;
    }
    let adds_a_page = (address + 4) / 0x1_0000 != address / 0x1_0000;
    if adds_a_page && memories.len() == 1 {
        memories[0].initial < u32::MAX
    } else {
        true
    }
}

/// Whether `module` can go through the preparation for threads, whatever
/// the sizes are.
fn module_ready_for_threads(module: &Module) -> (ready: bool)
    ensures
        ready == threads_ready(
            ThreadsConfig { maximum_memory: 0, thread_stack_size: 0 },
            *module,
        ),
{
    let states = function_state_list(module);
    if !all_finished(&states) {
        return false;
    }
    let names = export_name_list(module);
    let exported = exported_global_list(module);
    let place = match find_heap_base(&names, &exported) {
        Some(place) => place,
        None => {
            return true;
        },
    };
    let constants = global_constant_list(module);
    if place >= constants.len() {
        return false;
    }
    match constants[place] {
        Some(heap_base) => {
            let memories = memory_list(module);
            room_for_counter(heap_base, &memories)
        },
        None => true,
    }
}

/// Prepares `module` to be instantiated on many threads that share its
/// memory.
///
/// The module must be as a parser leaves it: no ill-formed id, block or
/// branch, no tree of expressions of more levels than a tree may have, and
/// no call with other arguments than its function takes.
///
/// Sizes that are no whole pages, and a module that the preparation cannot
/// take, fail before the module is touched. Else the preparation decides,
/// by the sizes and the module alone, whether it succeeds and what the
/// module holds after it; the custom sections stay in any case.
pub fn prepare_threads(config: &ThreadsConfig, module: &mut Module) -> (r: Result<
    (),
    BindgenError,
>)
    requires
        is_sound(*old(module)),
        misfit_calls(*old(module)) == 0,
    ensures
        custom_sections(*final(module)) == custom_sections(*old(module)),
        is_sound(*final(module)),
        !threads_ready(*config, *old(module)) ==> r is Err && *final(module) == *old(module),
        threads_ready(*config, *old(module)) ==> (r is Ok) == threads_prepared(
            *config,
            *old(module),
        ).0 && contents_of(*final(module)) == threads_prepared(*config, *old(module)).1,
        r matches Err(e) ==> e is Threads,
{
    if config.maximum_memory % PAGE_SIZE != 0 || config.thread_stack_size % PAGE_SIZE != 0 {
        return Err(
            BindgenError::Threads {
                cause: "the maximum memory and the thread stack size must be whole pages".to_owned(),
            },
        );
    }
    if !module_ready_for_threads(module) {
        return Err(
            BindgenError::Threads {
                cause: "a function has no body, or the heap base leaves no room for the thread counter".to_owned(),
            },
        );
    }
    match run_threads(config, module) {
        Ok(()) => Ok(()),
        Err(e) => Err(BindgenError::Threads { cause: failure_text(&e) }),
    }
}

/// What `rustc_demangle::try_demangle` makes of a symbol, as text: `None`
/// where it does not take `name` for a Rust symbol.
pub uninterp spec fn demangled(name: Seq<char>) -> Option<Seq<char>>;

/// `rustc_demangle::try_demangle`, and the text that its result displays.
#[verifier::external_body]
pub(crate) fn try_demangle(name: &str) -> (r: Option<String>)
    ensures
        match r {
            Some(text) => demangled(name@) == Some(text@),
            None => demangled(name@) is None,
        },
{
    rustc_demangle::try_demangle(name).ok().map(|symbol| symbol.to_string())
}

/// The name that a function goes by: the demangled one where there is one.
pub open spec fn readable(name: Seq<char>, demangled: Option<Seq<char>>) -> Seq<char> {
    match demangled {
        Some(text) => text,
        None => name,
    }
}

/// The name that a function goes by, given what demangling made of `name`.
pub fn readable_name(name: &str, demangled: Option<String>) -> (r: String)
    ensures
        r@ == readable(
            name@,
            match demangled {
                Some(text) => Some(text@),
                None => None,
            },
        ),
{
    match demangled {
        Some(text) => text,
        None => name.to_owned(),
    }
}

/// The names of a module's functions once they are demangled.
pub open spec fn demangled_names(names: Seq<Option<Seq<char>>>) -> Seq<Option<Seq<char>>> {
    Seq::new(
        names.len(),
        |i: int|
            match names[i] {
                Some(name) => Some(readable(name, demangled(name))),
                None => None,
            },
    )
}

/// Gives every named function of `module` its demangled name, where its name
/// is a Rust symbol. Nothing else changes, and nothing fails.
pub fn demangle(module: &mut Module)
    ensures
        function_names(*final(module)) == demangled_names(function_names(*old(module))),
        same_but_function_names(*old(module), *final(module)),
{
    let names = function_name_list(module);
    let mut renamed: Vec<Option<String>> = Vec::new();
    let mut i: usize = 0;
    while i < names.len()
        invariant
            i <= names.len(),
            renamed@.len() == i,
            forall|j: int|
                0 <= j < i ==> optional_texts(renamed@)[j] == demangled_names(
                    optional_texts(names@),
                )[j],
        decreases names.len() - i,
    {
        let ghost before = renamed@;
        let next = match &names[i] {
            Some(name) => Some(readable_name(name.as_str(), try_demangle(name.as_str()))),
            None => None,
        };
        renamed.push(next);
        assert forall|j: int| 0 <= j <= i implies optional_texts(renamed@)[j] == demangled_names(
            optional_texts(names@),
        )[j] by {
            if j < i {
                assert(renamed@[j] == before[j]);
                assert(optional_texts(before)[j] == demangled_names(optional_texts(names@))[j]);
            }
        }
        i += 1;
    }
    assert(optional_texts(renamed@) =~= demangled_names(function_names(*module)));
    set_function_names(module, renamed);
}

/// The memory that a module without one is given: its own, one page, not
/// shared, as large as it may grow.
pub open spec fn fresh_memory() -> MemoryLimits {
    MemoryLimits { shared: false, initial: 1, maximum: None, imported: false }
}

/// The memories of a module once it has exactly one: a fresh one where it
/// had none, its own where it had one. `None` where it has more than one.
pub open spec fn unified(memories: Seq<MemoryLimits>) -> Option<Seq<MemoryLimits>> {
    if memories.len() == 0 {
        Some(seq![fresh_memory()])
    } else if memories.len() == 1 {
        Some(memories)
    } else {
        None
    }
}

/// Unifying the memories of a module that has been through it changes
/// nothing: what comes out has one memory, and that one stays.
pub proof fn lemma_unified_idempotent(memories: Seq<MemoryLimits>)
    ensures
        unified(memories) matches Some(once) ==> once.len() == 1 && unified(once) == Some(once),
        memories.len() >= 2 ==> unified(memories) is None,
{
}

/// Sees to it that `module` has exactly one linear memory, and says which.
///
/// A module without a memory gets a fresh one. A module with one keeps it,
/// shared or not. A module with more is refused and stays as it is.
pub fn unify_memory(module: &mut Module) -> (r: Result<MemoryLimits, BindgenError>)
    ensures
        same_but_memories(*old(module), *final(module)),
        match unified(memories(*old(module))) {
            Some(one) => r == Ok::<MemoryLimits, BindgenError>(one[0]) && memories(*final(module))
                == one,
            None => r == Err::<MemoryLimits, BindgenError>(BindgenError::MultipleMemories)
                && *final(module) == *old(module),
        },
{
    let list = memory_list(module);
    if list.len() > 1 {
        return Err(BindgenError::MultipleMemories);
    }
    if list.len() == 1 {
        return Ok(list[0]);
    }
    let fresh = MemoryLimits { shared: false, initial: 1, maximum: None, imported: false };
    add_local_memory(module, false, 1, None);
    assert(memories(*module) =~= seq![fresh_memory()]);
    Ok(fresh)
}

} // verus!
