use std::collections::BTreeSet;
use wasm_bindgen_cli_support::indent::reset_indentation;
use wasm_bindgen_cli_support::shim::{insert_name, is_before, node_shim, push_decimal, sort_distinct};

fn strings(names: &[&str]) -> Vec<String> {
    names.iter().map(|n| n.to_string()).collect()
}

fn chars(text: &str) -> Vec<char> {
    text.chars().collect()
}

fn by_the_book(experimental: bool, imported_from: &[String], binary: &str, exports: &[String]) -> String {
    let mut imports = BTreeSet::new();
    for module in imported_from {
        imports.insert(module);
    }
    let mut shim = String::new();
    if experimental {
        for (i, module) in imports.iter().enumerate() {
            shim.push_str(&format!("import * as import{} from '{}';\n", i, module));
        }
        shim.push_str(&format!(
            "
                import * as path from 'path';
                import * as fs from 'fs';
                import * as url from 'url';
                import * as process from 'process';

                let file = path.dirname(url.parse(import.meta.url).pathname);
                if (process.platform === 'win32') {{
                    file = file.substring(1);
                }}
                const bytes = fs.readFileSync(path.join(file, '{}'));
            ",
            binary
        ));
    } else {
        shim.push_str(&format!(
            "
                const path = require('path').join(__dirname, '{}');
                const bytes = require('fs').readFileSync(path);
            ",
            binary
        ));
    }
    shim.push_str("let imports = {};\n");
    for (i, module) in imports.iter().enumerate() {
        if experimental {
            shim.push_str(&format!("imports['{}'] = import{};\n", module, i));
        } else {
            shim.push_str(&format!("imports['{0}'] = require('{0}');\n", module));
        }
    }
    shim.push_str(&format!(
        "
                const wasmModule = new WebAssembly.Module(bytes);
                const wasmInstance = new WebAssembly.Instance(wasmModule, imports);
            ",
    ));
    if experimental {
        for name in exports {
            shim.push_str("export const ");
            shim.push_str(name);
            shim.push_str(" = wasmInstance.exports.");
            shim.push_str(name);
            shim.push_str(";\n");
        }
    } else {
        shim.push_str("module.exports = wasmInstance.exports;\n");
    }
    reset_indentation(&shim)
}

#[test]
fn the_commonjs_loader_requires_each_module_once() {
    let shim = node_shim(false, &strings(&["./b", "a", "./b"]), "x_bg.wasm", &strings(&["run"]));
    let expected = "\nconst path = require('path').join(__dirname, 'x_bg.wasm');\nconst bytes = require('fs').readFileSync(path);\nlet imports = {};\nimports['./b'] = require('./b');\nimports['a'] = require('a');\n\nconst wasmModule = new WebAssembly.Module(bytes);\nconst wasmInstance = new WebAssembly.Instance(wasmModule, imports);\nmodule.exports = wasmInstance.exports;\n";
    assert_eq!(shim, expected);
}

#[test]
fn the_module_loader_imports_by_number_and_exports_by_name() {
    let shim = node_shim(
        true,
        &strings(&["a", "./b", "a"]),
        "x_bg.wasm",
        &strings(&["memory", "run"]),
    );
    let expected = "import * as import0 from './b';\nimport * as import1 from 'a';\n\nimport * as path from 'path';\nimport * as fs from 'fs';\nimport * as url from 'url';\nimport * as process from 'process';\n\nlet file = path.dirname(url.parse(import.meta.url).pathname);\nif (process.platform === 'win32') {\n    file = file.substring(1);\n}\nconst bytes = fs.readFileSync(path.join(file, 'x_bg.wasm'));\nlet imports = {};\nimports['./b'] = import0;\nimports['a'] = import1;\n\nconst wasmModule = new WebAssembly.Module(bytes);\nconst wasmInstance = new WebAssembly.Instance(wasmModule, imports);\nexport const memory = wasmInstance.exports.memory;\nexport const run = wasmInstance.exports.run;\n";
    assert_eq!(shim, expected);
}

#[test]
fn a_binary_without_imports_and_exports_still_loads() {
    let shim = node_shim(true, &[].to_vec(), "m_bg.wasm", &[].to_vec());
    assert_eq!(shim, by_the_book(true, &[], "m_bg.wasm", &[]));
    assert!(shim.starts_with("\nimport * as path from 'path';\n"));
    assert!(shim.ends_with("imports);\n\n"));
    let shim = node_shim(false, &[].to_vec(), "m_bg.wasm", &[].to_vec());
    assert!(shim.ends_with("let imports = {};\n\nconst wasmModule = new WebAssembly.Module(bytes);\nconst wasmInstance = new WebAssembly.Instance(wasmModule, imports);\nmodule.exports = wasmInstance.exports;\n"));
}

#[test]
fn more_than_ten_modules_are_numbered_in_decimal() {
    let names: Vec<String> = (0..12).map(|i| format!("m{:02}", 11 - i)).collect();
    let shim = node_shim(true, &names, "b.wasm", &strings(&["e"]));
    assert!(shim.contains("import * as import0 from 'm00';\n"));
    assert!(shim.contains("import * as import9 from 'm09';\n"));
    assert!(shim.contains("import * as import10 from 'm10';\n"));
    assert!(shim.contains("imports['m11'] = import11;\n"));
    assert_eq!(shim, by_the_book(true, &names, "b.wasm", &strings(&["e"])));
}

#[test]
fn the_loader_is_what_the_template_gives() {
    let imports = strings(&["env", "./snippets/x.js", "__wbindgen_placeholder__", "env", "\u{e9}", "Env", ""]);
    let exports = strings(&["memory", "__wbindgen_malloc", "f{", "g}"]);
    for experimental in [false, true] {
        assert_eq!(
            node_shim(experimental, &imports, "some name_bg.wasm", &exports),
            by_the_book(experimental, &imports, "some name_bg.wasm", &exports)
        );
    }
}

#[test]
fn names_are_ordered_as_strings_are() {
    let names = ["", "a", "B", "ab", "aa", "b", "\u{e9}", "\u{1f600}", "\u{ffff}", "a\u{0}", "~", "z\u{e9}"];
    for a in names {
        for b in names {
            assert_eq!(is_before(&chars(a), &chars(b)), a < b, "{:?} {:?}", a, b);
        }
    }
}

#[test]
fn sorting_keeps_one_of_each_in_order() {
    let names = strings(&["b", "a", "c", "a", "", "b", "ab", "B", "\u{1f600}", "\u{ffff}"]);
    let sorted: Vec<String> = sort_distinct(&names).into_iter().map(|n| n.into_iter().collect()).collect();
    let expected: Vec<String> = names.iter().cloned().collect::<BTreeSet<_>>().into_iter().collect();
    assert_eq!(sorted, expected);
    assert!(sort_distinct(&Vec::new()).is_empty());
}

#[test]
fn inserting_a_name_that_is_there_changes_nothing() {
    let mut sorted = vec![chars("a"), chars("c")];
    insert_name(&mut sorted, chars("c"));
    assert_eq!(sorted, vec![chars("a"), chars("c")]);
    insert_name(&mut sorted, chars("b"));
    assert_eq!(sorted, vec![chars("a"), chars("b"), chars("c")]);
    insert_name(&mut sorted, chars(""));
    insert_name(&mut sorted, chars("d"));
    assert_eq!(sorted, vec![chars(""), chars("a"), chars("b"), chars("c"), chars("d")]);
}

#[test]
fn numbers_are_written_in_decimal() {
    for n in [0usize, 7, 9, 10, 11, 99, 100, 1234567890, usize::MAX] {
        let mut out = vec!['#'];
        push_decimal(&mut out, n);
        let text: String = out.into_iter().collect();
        assert_eq!(text, format!("#{}", n));
    }
}
