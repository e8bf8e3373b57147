//! The loader that a server-side host runs: it reads the binary next to it,
//! instantiates it with the modules that it imports from, and hands on what it
//! exports.

use vstd::prelude::*;
use crate::indent::{normalize, normalized};
use crate::text::{chars_of, push_chars, push_text, string_of};
use crate::wasm::texts;

verus! {

/// Whether `a` comes before `b` as strings are ordered: by the first
/// character in which they differ, a shorter text before its extensions.
pub open spec fn comes_before(a: Seq<char>, b: Seq<char>) -> bool
    decreases a.len(),
{
    if b.len() == 0 {
        false
    } else if a.len() == 0 {
        true
    } else if a[0] != b[0] {
        (a[0] as u32) < (b[0] as u32)
    } else {
        comes_before(a.drop_first(), b.drop_first())
    }
}

/// `sorted` with `name` at its place, unless it is there already.
pub open spec fn inserted(sorted: Seq<Seq<char>>, name: Seq<char>) -> Seq<Seq<char>>
    decreases sorted.len(),
{
    if sorted.len() == 0 {
        seq![name]
    } else if sorted.last() == name {
        sorted
    } else if comes_before(sorted.last(), name) {
        sorted.push(name)
    } else {
        inserted(sorted.drop_last(), name).push(sorted.last())
    }
}

/// `names` in order, each once.
pub open spec fn sorted_distinct(names: Seq<Seq<char>>) -> Seq<Seq<char>>
    decreases names.len(),
{
    if names.len() == 0 {
        Seq::empty()
    } else {
        inserted(sorted_distinct(names.drop_last()), names.last())
    }
}

/// Whether each of `names` comes before all that follow it.
pub open spec fn ascends(names: Seq<Seq<char>>) -> bool {
    forall|i: int, j: int| 0 <= i < j < names.len() ==> comes_before(names[i], names[j])
}

/// No text comes before itself.
pub proof fn lemma_order_irreflexive(a: Seq<char>)
    ensures
        !comes_before(a, a),
    decreases a.len(),
{
    if a.len() > 0 {
        lemma_order_irreflexive(a.drop_first());
    }
}

/// Of two texts that differ, one comes before the other.
pub proof fn lemma_order_total(a: Seq<char>, b: Seq<char>)
    requires
        a != b,
    ensures
        comes_before(a, b) || comes_before(b, a),
    decreases a.len(),
{
    if a.len() > 0 && b.len() > 0 && a[0] == b[0] {
        if a.drop_first() == b.drop_first() {
            assert(a =~= seq![a[0]] + a.drop_first());
            assert(b =~= seq![b[0]] + b.drop_first());
        }
        lemma_order_total(a.drop_first(), b.drop_first());
    } else if a.len() == 0 && b.len() == 0 {
        assert(a =~= b);
    } else if a.len() > 0 && b.len() > 0 {
        vstd::utf8::char_u32_cast(a[0], a[0] as u32);
        vstd::utf8::char_u32_cast(b[0], b[0] as u32);
    }
}

/// What comes before a text comes before all that the text comes before.
pub proof fn lemma_order_transitive(a: Seq<char>, b: Seq<char>, c: Seq<char>)
    requires
        comes_before(a, b),
        comes_before(b, c),
    ensures
        comes_before(a, c),
    decreases a.len(),
{
    if a.len() > 0 && a[0] == b[0] && b[0] == c[0] {
        lemma_order_transitive(a.drop_first(), b.drop_first(), c.drop_first());
    }
}

/// Inserting a name adds that name and nothing else.
pub proof fn lemma_inserted_holds(sorted: Seq<Seq<char>>, name: Seq<char>, other: Seq<char>)
    ensures
        inserted(sorted, name).contains(other) <==> sorted.contains(other) || other == name,
    decreases sorted.len(),
{
    let after = inserted(sorted, name);
    if sorted.len() == 0 {
        assert(after[0] == name);
    } else if sorted.last() == name {
        assert(sorted[sorted.len() - 1] == name);
    } else if comes_before(sorted.last(), name) {
        assert(after.drop_last() =~= sorted);
        if after.contains(other) {
            let i = choose|i: int| 0 <= i < after.len() && after[i] == other;
            if i < sorted.len() {
                assert(sorted[i] == other);
            }
        }
        if sorted.contains(other) {
            let i = choose|i: int| 0 <= i < sorted.len() && sorted[i] == other;
            assert(after[i] == other);
        }
        assert(after[after.len() - 1] == name);
    } else {
        let front = sorted.drop_last();
        let grown = inserted(front, name);
        lemma_inserted_holds(front, name, other);
        if after.contains(other) {
            let i = choose|i: int| 0 <= i < after.len() && after[i] == other;
            if i < grown.len() {
                assert(grown[i] == other);
                if front.contains(other) {
                    let j = choose|j: int| 0 <= j < front.len() && front[j] == other;
                    assert(sorted[j] == other);
                }
            } else {
                assert(sorted[sorted.len() - 1] == other);
            }
        }
        if sorted.contains(other) {
            let i = choose|i: int| 0 <= i < sorted.len() && sorted[i] == other;
            if i < front.len() {
                assert(front[i] == other);
                let j = choose|j: int| 0 <= j < grown.len() && grown[j] == other;
                assert(after[j] == other);
            } else {
                assert(after[after.len() - 1] == other);
            }
        }
        if other == name {
            let j = choose|j: int| 0 <= j < grown.len() && grown[j] == other;
            assert(after[j] == other);
        }
    }
}

/// Inserting a name keeps the order.
pub proof fn lemma_inserted_ascends(sorted: Seq<Seq<char>>, name: Seq<char>)
    requires
        ascends(sorted),
    ensures
        ascends(inserted(sorted, name)),
    decreases sorted.len(),
{
    let after = inserted(sorted, name);
    if sorted.len() == 0 || sorted.last() == name {
    } else if comes_before(sorted.last(), name) {
        assert forall|i: int, j: int| 0 <= i < j < after.len() implies comes_before(
            after[i],
            after[j],
        ) by {
            if j == sorted.len() && i < sorted.len() - 1 {
                lemma_order_transitive(sorted[i], sorted.last(), name);
            }
        }
    } else {
        let front = sorted.drop_last();
        let grown = inserted(front, name);
        lemma_inserted_ascends(front, name);
        lemma_order_total(sorted.last(), name);
        assert forall|i: int, j: int| 0 <= i < j < after.len() implies comes_before(
            after[i],
            after[j],
        ) by {
            if j == grown.len() {
                lemma_inserted_holds(front, name, grown[i]);
                if grown[i] != name {
                    let k = choose|k: int| 0 <= k < front.len() && front[k] == grown[i];
                    assert(comes_before(sorted[k], sorted[sorted.len() - 1]));
                }
            } else {
                assert(comes_before(grown[i], grown[j]));
            }
        }
    }
}

/// Sorting gives the names that it was given, each once, in order.
pub proof fn lemma_sorted_distinct(names: Seq<Seq<char>>)
    ensures
        ascends(sorted_distinct(names)),
        sorted_distinct(names).no_duplicates(),
        forall|name: Seq<char>| sorted_distinct(names).contains(name) <==> names.contains(name),
    decreases names.len(),
{
    assert(ascends(sorted_distinct(names)) ==> sorted_distinct(names).no_duplicates()) by {
        let sorted = sorted_distinct(names);
        if ascends(sorted) {
            assert forall|i: int, j: int|
                0 <= i < sorted.len() && 0 <= j < sorted.len() && i != j implies sorted[i]
                != sorted[j] by {
                lemma_order_irreflexive(sorted[i]);
                if i < j {
                    assert(comes_before(sorted[i], sorted[j]));
                } else {
                    assert(comes_before(sorted[j], sorted[i]));
                }
            }
        }
    }
    if names.len() > 0 {
        let front = names.drop_last();
        lemma_sorted_distinct(front);
        lemma_inserted_ascends(sorted_distinct(front), names.last());
        assert forall|name: Seq<char>| sorted_distinct(names).contains(name) <==> names.contains(
            name,
        ) by {
            lemma_inserted_holds(sorted_distinct(front), names.last(), name);
            if front.contains(name) {
                let i = choose|i: int| 0 <= i < front.len() && front[i] == name;
                assert(names[i] == name);
            }
            if names.contains(name) {
                let i = choose|i: int| 0 <= i < names.len() && names[i] == name;
                if i < front.len() {
                    assert(front[i] == name);
                }
            }
            if name == names.last() {
                assert(names[names.len() - 1] == name);
            }
        }
    }
}

/// The ten digits.
pub open spec fn digits() -> Seq<char> {
    seq!['0', '1', '2', '3', '4', '5', '6', '7', '8', '9']
}

/// `n` in decimal.
pub open spec fn decimal(n: nat) -> Seq<char>
    decreases n,
{
    if n < 10 {
        seq![digits()[n as int]]
    } else {
        decimal(n / 10).push(digits()[(n % 10) as int])
    }
}

/// How an `import` statement begins, up to the number of its binding.
pub const IMPORT_AS: &'static str = "import * as import";

/// What stands between the binding of an `import` statement and its module.
pub const FROM: &'static str = " from '";

/// How a statement ends that ends with a quoted name.
pub const END_QUOTED: &'static str = "';\n";

/// How an ECMAScript module finds and reads the binary next to it, up to the
/// binary's name.
pub const LOCATE_BY_URL: &'static str =
    "\n                import * as path from 'path';\n                import * as fs from 'fs';\n                import * as url from 'url';\n                import * as process from 'process';\n\n                let file = path.dirname(url.parse(import.meta.url).pathname);\n                if (process.platform === 'win32') {\n                    file = file.substring(1);\n                }\n                const bytes = fs.readFileSync(path.join(file, '";

/// What follows the binary's name in an ECMAScript module.
pub const END_LOCATE_BY_URL: &'static str =
    "'));\n            ";

/// How a CommonJS module finds the binary next to it, up to the binary's name.
pub const LOCATE_BY_DIRNAME: &'static str =
    "\n                const path = require('path').join(__dirname, '";

/// What follows the binary's name in a CommonJS module: the binary is read.
pub const END_LOCATE_BY_DIRNAME: &'static str =
    "');\n                const bytes = require('fs').readFileSync(path);\n            ";

/// The imports object, empty.
pub const IMPORTS_OBJECT: &'static str = "let imports = {};\n";

/// How an entry of the imports object begins, up to its module.
pub const IMPORTS_ENTRY: &'static str = "imports['";

/// What stands between the module of an entry and the number of its binding.
pub const IS_IMPORT: &'static str = "'] = import";

/// How a statement ends.
pub const END_STATEMENT: &'static str = ";\n";

/// What stands between the module of an entry and the module that is required.
pub const IS_REQUIRE: &'static str = "'] = require('";

/// How an entry ends that requires its module.
pub const END_REQUIRE: &'static str = "');\n";

/// The binary is compiled and instantiated with the imports object.
pub const INSTANTIATE: &'static str =
    "\n                const wasmModule = new WebAssembly.Module(bytes);\n                const wasmInstance = new WebAssembly.Instance(wasmModule, imports);\n            ";

/// How an `export` statement begins, up to its name.
pub const EXPORT_CONST: &'static str = "export const ";

/// What stands between the name of an `export` statement and the export of
/// that name.
pub const IS_INSTANCE_EXPORT: &'static str = " = wasmInstance.exports.";

/// All the exports of the instance are handed on at once.
pub const EXPORT_ALL: &'static str = "module.exports = wasmInstance.exports;\n";

/// One `import` statement for each of `modules`, which binds the module at
/// place `i` to `import` followed by `i`.
pub open spec fn import_statements(modules: Seq<Seq<char>>) -> Seq<char>
    decreases modules.len(),
{
    if modules.len() == 0 {
        Seq::empty()
    } else {
        import_statements(modules.drop_last()) + IMPORT_AS@ + decimal((modules.len() - 1) as nat)
            + FROM@ + modules.last() + END_QUOTED@
    }
}

/// One entry of the imports object for each of `modules`: the binding of its
/// `import` statement where `by_import` holds, else what `require` gives.
pub open spec fn import_entries(modules: Seq<Seq<char>>, by_import: bool) -> Seq<char>
    decreases modules.len(),
{
    if modules.len() == 0 {
        Seq::empty()
    } else if by_import {
        import_entries(modules.drop_last(), by_import) + IMPORTS_ENTRY@ + modules.last()
            + IS_IMPORT@ + decimal((modules.len() - 1) as nat) + END_STATEMENT@
    } else {
        import_entries(modules.drop_last(), by_import) + IMPORTS_ENTRY@ + modules.last()
            + IS_REQUIRE@ + modules.last() + END_REQUIRE@
    }
}

/// One `export` statement for each of `exports`, under its own name.
pub open spec fn export_statements(exports: Seq<Seq<char>>) -> Seq<char>
    decreases exports.len(),
{
    if exports.len() == 0 {
        Seq::empty()
    } else {
        export_statements(exports.drop_last()) + EXPORT_CONST@ + exports.last()
            + IS_INSTANCE_EXPORT@ + exports.last() + END_STATEMENT@
    }
}

/// The loader before it is indented, for a binary named `binary` that imports
/// from `modules` and has the exports `exports`. With `experimental` it is
/// an ECMAScript module, else a CommonJS one.
pub open spec fn loader_source(
    experimental: bool,
    modules: Seq<Seq<char>>,
    binary: Seq<char>,
    exports: Seq<Seq<char>>,
) -> Seq<char> {
    if experimental {
        import_statements(modules) + LOCATE_BY_URL@ + binary + END_LOCATE_BY_URL@
            + IMPORTS_OBJECT@ + import_entries(modules, true) + INSTANTIATE@ + export_statements(
            exports,
        )
    } else {
        LOCATE_BY_DIRNAME@ + binary + END_LOCATE_BY_DIRNAME@ + IMPORTS_OBJECT@ + import_entries(
            modules,
            false,
        ) + INSTANTIATE@ + EXPORT_ALL@
    }
}

/// The loader for a binary named `binary` whose imports come from the
/// modules `imported_from`, one entry for each import, and that has the
/// exports `exports`.
pub open spec fn loader(
    experimental: bool,
    imported_from: Seq<Seq<char>>,
    binary: Seq<char>,
    exports: Seq<Seq<char>>,
) -> Seq<char> {
    normalized(loader_source(experimental, sorted_distinct(imported_from), binary, exports))
}

/// What each of `names` holds.
pub open spec fn name_views(names: Seq<Vec<char>>) -> Seq<Seq<char>> {
    names.map_values(|name: Vec<char>| name@)
}

/// Whether `a` comes before `b` as strings are ordered.
pub fn is_before(a: &[char], b: &[char]) -> (before: bool)
    ensures
        before == comes_before(a@, b@),
{
    let mut i: usize = 0;
    assert(a@.skip(0) =~= a@ && b@.skip(0) =~= b@);
    while i < a.len() && i < b.len()
        invariant
            i <= a.len(),
            i <= b.len(),
            comes_before(a@, b@) == comes_before(a@.skip(i as int), b@.skip(i as int)),
        decreases a.len() - i,
    {
        if a[i] != b[i] {
            return (a[i] as u32) < (b[i] as u32);
        }
        assert(a@.skip(i as int).drop_first() =~= a@.skip(i + 1));
        assert(b@.skip(i as int).drop_first() =~= b@.skip(i + 1));
        i += 1;
    }
    i < b.len()
}

/// Puts `name` at its place in `sorted`, unless it is there already.
pub fn insert_name(sorted: &mut Vec<Vec<char>>, name: Vec<char>)
    ensures
        name_views(final(sorted)@) == inserted(name_views(old(sorted)@), name@),
{
    let ghost before = name_views(sorted@);
    let mut at: usize = sorted.len();
    assert(before.take(at as int) =~= before);
    assert(inserted(before, name@) =~= inserted(before.take(at as int), name@) + before.skip(
        at as int,
    ));
    let mut placed = false;
    while at > 0 && !placed
        invariant
            at <= sorted.len(),
            sorted@ == old(sorted)@,
            before == name_views(sorted@),
            inserted(before, name@) == inserted(before.take(at as int), name@) + before.skip(
                at as int,
            ),
            placed ==> at > 0 && before[at - 1] != name@ && comes_before(before[at - 1], name@),
        decreases at - if placed { 1int } else { 0int },
    {
        let ghost head = before.take(at as int);
        assert(head.last() == sorted@[at - 1]@);
        if crate::search::same_chars(sorted[at - 1].as_slice(), name.as_slice()) {
            assert(head + before.skip(at as int) =~= before);
            return ;
        }
        if is_before(sorted[at - 1].as_slice(), name.as_slice()) {
            placed = true;
        } else {
            assert(head.drop_last() =~= before.take(at - 1));
            assert(inserted(head.drop_last(), name@).push(head.last()) + before.skip(at as int)
                =~= inserted(head.drop_last(), name@) + before.skip(at - 1));
            at -= 1;
        }
    }
    let ghost head = before.take(at as int);
    assert(at > 0 ==> head.last() == before[at - 1]);
    assert(inserted(head, name@) == head.push(name@));
    sorted.insert(at, name);
    assert(name_views(sorted@) =~= head.push(name@) + before.skip(at as int));
}

/// `names` in order, each once.
pub fn sort_distinct(names: &Vec<String>) -> (sorted: Vec<Vec<char>>)
    ensures
        name_views(sorted@) == sorted_distinct(texts(names@)),
{
    let mut sorted: Vec<Vec<char>> = Vec::new();
    let mut i: usize = 0;
    let ghost all = texts(names@);
    assert(all.take(0) =~= Seq::empty());
    assert(name_views(sorted@) =~= Seq::empty());
    while i < names.len()
        invariant
            i <= names.len(),
            all == texts(names@),
            name_views(sorted@) == sorted_distinct(all.take(i as int)),
        decreases names.len() - i,
    {
        assert(all.take(i + 1).drop_last() =~= all.take(i as int));
        assert(all.take(i + 1).last() == names@[i as int]@);
        insert_name(&mut sorted, chars_of(names[i].as_str()));
        i += 1;
    }
    assert(all.take(i as int) =~= all);
    sorted
}

/// Appends `n` in decimal to `out`.
pub fn push_decimal(out: &mut Vec<char>, n: usize)
    ensures
        final(out)@ == old(out)@ + decimal(n as nat),
    decreases n,
{
    let digits: [char; 10] = ['0', '1', '2', '3', '4', '5', '6', '7', '8', '9'];
    assert(digits@ =~= self::digits());
    if n >= 10 {
        push_decimal(out, n / 10);
    }
    out.push(digits[n % 10]);
    assert(out@ =~= old(out)@ + decimal(n as nat));
}

fn push_import_statements(out: &mut Vec<char>, modules: &Vec<Vec<char>>)
    ensures
        final(out)@ == old(out)@ + import_statements(name_views(modules@)),
{
    let ghost all = name_views(modules@);
    let mut i: usize = 0;
    assert(all.take(0) =~= Seq::empty());
    assert(out@ =~= old(out)@ + import_statements(all.take(0)));
    while i < modules.len()
        invariant
            i <= modules.len(),
            all == name_views(modules@),
            out@ == old(out)@ + import_statements(all.take(i as int)),
        decreases modules.len() - i,
    {
        let ghost before = out@;
        assert(all.take(i + 1).drop_last() =~= all.take(i as int));
        assert(all.take(i + 1).last() == modules@[i as int]@);
        push_text(out, IMPORT_AS);
        push_decimal(out, i);
        push_text(out, FROM);
        push_chars(out, modules[i].as_slice());
        push_text(out, END_QUOTED);
        assert(out@ =~= old(out)@ + import_statements(all.take(i + 1)));
        i += 1;
    }
    assert(all.take(i as int) =~= all);
}

fn push_import_entries(out: &mut Vec<char>, modules: &Vec<Vec<char>>, by_import: bool)
    ensures
        final(out)@ == old(out)@ + import_entries(name_views(modules@), by_import),
{
    let ghost all = name_views(modules@);
    let mut i: usize = 0;
    assert(all.take(0) =~= Seq::empty());
    assert(out@ =~= old(out)@ + import_entries(all.take(0), by_import));
    while i < modules.len()
        invariant
            i <= modules.len(),
            all == name_views(modules@),
            out@ == old(out)@ + import_entries(all.take(i as int), by_import),
        decreases modules.len() - i,
    {
        assert(all.take(i + 1).drop_last() =~= all.take(i as int));
        assert(all.take(i + 1).last() == modules@[i as int]@);
        push_text(out, IMPORTS_ENTRY);
        push_chars(out, modules[i].as_slice());
        if by_import {
            push_text(out, IS_IMPORT);
            push_decimal(out, i);
            push_text(out, END_STATEMENT);
        } else {
            push_text(out, IS_REQUIRE);
            push_chars(out, modules[i].as_slice());
            push_text(out, END_REQUIRE);
        }
        assert(out@ =~= old(out)@ + import_entries(all.take(i + 1), by_import));
        i += 1;
    }
    assert(all.take(i as int) =~= all);
}

fn push_export_statements(out: &mut Vec<char>, exports: &Vec<String>)
    ensures
        final(out)@ == old(out)@ + export_statements(texts(exports@)),
{
    let ghost all = texts(exports@);
    let mut i: usize = 0;
    assert(all.take(0) =~= Seq::empty());
    assert(out@ =~= old(out)@ + export_statements(all.take(0)));
    while i < exports.len()
        invariant
            i <= exports.len(),
            all == texts(exports@),
            out@ == old(out)@ + export_statements(all.take(i as int)),
        decreases exports.len() - i,
    {
        assert(all.take(i + 1).drop_last() =~= all.take(i as int));
        assert(all.take(i + 1).last() == exports@[i as int]@);
        push_text(out, EXPORT_CONST);
        push_text(out, exports[i].as_str());
        push_text(out, IS_INSTANCE_EXPORT);
        push_text(out, exports[i].as_str());
        push_text(out, END_STATEMENT);
        assert(out@ =~= old(out)@ + export_statements(all.take(i + 1)));
        i += 1;
    }
    assert(all.take(i as int) =~= all);
}

/// The loader for a binary named `binary` whose imports come from the
/// modules `imported_from`, one entry for each import, and that has the
/// exports `exports`. With `experimental` it is an ECMAScript module, else
/// a CommonJS one.
pub fn node_shim(
    experimental: bool,
    imported_from: &Vec<String>,
    binary: &str,
    exports: &Vec<String>,
) -> (shim: String)
    ensures
        shim@ == loader(experimental, texts(imported_from@), binary@, texts(exports@)),
{
    let modules = sort_distinct(imported_from);
    let mut source: Vec<char> = Vec::new();
    if experimental {
        push_import_statements(&mut source, &modules);
        push_text(&mut source, LOCATE_BY_URL);
        push_text(&mut source, binary);
        push_text(&mut source, END_LOCATE_BY_URL);
    } else {
        push_text(&mut source, LOCATE_BY_DIRNAME);
        push_text(&mut source, binary);
        push_text(&mut source, END_LOCATE_BY_DIRNAME);
    }
    push_text(&mut source, IMPORTS_OBJECT);
    push_import_entries(&mut source, &modules, experimental);
    push_text(&mut source, INSTANTIATE);
    if experimental {
        push_export_statements(&mut source, exports);
    } else {
        push_text(&mut source, EXPORT_ALL);
    }
    assert(source@ =~= loader_source(
        experimental,
        sorted_distinct(texts(imported_from@)),
        binary@,
        texts(exports@),
    ));
    let shim = normalize(source.as_slice());
    string_of(shim.as_slice())
}

} // verus!
