use walrus::ir::{ExprId, Visit, Visitor};
use walrus::{FunctionKind, LocalFunction, Module};
use wasm_bindgen_cli_support::binary::well_formed;
use wasm_bindgen_cli_support::bindgen::parse_input;
use wasm_bindgen_cli_support::Bindgen;
use wasm_bindgen_cli_support::depth::check_depths;

fn leb(mut n: u64) -> Vec<u8> {
    let mut out = Vec::new();
    loop {
        let byte = (n & 0x7f) as u8;
        n >>= 7;
        if n == 0 {
            out.push(byte);
            return out;
        }
        out.push(byte | 0x80);
    }
}

fn section(id: u8, payload: &[u8]) -> Vec<u8> {
    let mut out = vec![id];
    out.extend(leb(payload.len() as u64));
    out.extend_from_slice(payload);
    out
}

/// A binary with the types `() -> ()`, `(i32, i32) -> i32` and `() -> i32`,
/// one import of the second type, a memory, and one function of the type
/// `ty` with two locals of each number type and the code `code`.
fn with_code(ty: u8, code: &[u8]) -> Vec<u8> {
    let mut out = vec![0x00, 0x61, 0x73, 0x6d, 0x01, 0x00, 0x00, 0x00];
    out.extend(section(1, &[0x03, 0x60, 0x00, 0x00, 0x60, 0x02, 0x7f, 0x7f, 0x01, 0x7f, 0x60, 0x00, 0x01, 0x7f]));
    out.extend(section(2, &[0x01, 0x01, b'm', 0x01, b'f', 0x00, 0x01]));
    out.extend(section(3, &[0x01, ty]));
    out.extend(section(4, &[0x01, 0x70, 0x00, 0x01]));
    out.extend(section(5, &[0x01, 0x00, 0x01]));
    out.extend(section(6, &[0x01, 0x7f, 0x01, 0x41, 0x00, 0x0b]));
    out.extend(section(7, &[0x01, 0x01, b'e', 0x00, 0x01]));
    let mut body = vec![0x04, 0x02, 0x7f, 0x02, 0x7e, 0x02, 0x7d, 0x02, 0x7c];
    body.extend_from_slice(code);
    let mut payload = vec![0x01];
    payload.extend(leb(body.len() as u64));
    payload.extend(body);
    out.extend(section(10, &payload));
    out
}

struct Depth<'a> {
    function: &'a LocalFunction,
    now: usize,
    most: usize,
}

impl<'a> Visitor<'a> for Depth<'a> {
    fn local_function(&self) -> &'a LocalFunction {
        self.function
    }

    fn visit_expr_id(&mut self, id: &ExprId) {
        self.now += 1;
        if self.now > self.most {
            self.most = self.now;
        }
        id.visit(self);
        self.now -= 1;
    }
}

fn deepest(module: &Module) -> usize {
    let mut most = 0;
    for function in module.funcs.iter() {
        if let FunctionKind::Local(local) = &function.kind {
            let mut depth = Depth { function: local, now: 0, most: 0 };
            depth.visit_expr_id(&local.entry_block().into());
            most = most.max(depth.most);
        }
    }
    most
}

fn measured(wasm: &[u8]) -> usize {
    let module = walrus::ModuleConfig::new().strict_validate(false).parse(wasm).unwrap();
    deepest(&module)
}

fn repeated(prefix: &[u8], unit: &[u8], times: usize, suffix: &[u8]) -> Vec<u8> {
    let mut code = prefix.to_vec();
    for _ in 0..times {
        code.extend_from_slice(unit);
    }
    code.extend_from_slice(suffix);
    code
}

fn grows_by_one(ty: u8, prefix: &[u8], unit: &[u8], suffix: &[u8]) {
    let small = with_code(ty, &repeated(prefix, unit, 10, suffix));
    let larger = with_code(ty, &repeated(prefix, unit, 20, suffix));
    assert!(check_depths(&small), "{:02x?}", unit);
    let step = measured(&larger) - measured(&small);
    assert!(step >= 10, "{:02x?} grows by {}", unit, step);
    let base = measured(&small) - step;
    let most = (1000 - base) * 10 / step;
    let most = most.min(1000);
    let under = with_code(ty, &repeated(prefix, unit, most - 12, suffix));
    assert!(measured(&under) <= 1000);
    assert!(check_depths(&under), "{:02x?} at {}", unit, measured(&under));
    let module = parse_input(&under).unwrap();
    let files = Bindgen::new().emit("deep", &module, "", "", "").unwrap();
    assert_eq!(files.len(), 2);
    let over = with_code(ty, &repeated(prefix, unit, most + 12, suffix));
    assert!(!check_depths(&over), "{:02x?}", unit);
    assert!(!well_formed(&over));
}

#[test]
fn a_function_of_few_levels_is_taken() {
    let wasm = with_code(0, &[0x0b]);
    assert!(check_depths(&wasm));
    assert!(parse_input(&wasm).is_ok());
    assert!(measured(&wasm) <= 2);
}

#[test]
fn every_operator_adds_one_level_above_its_values() {
    grows_by_one(0, &[0x41, 0x00], &[0x41, 0x01, 0x6a], &[0x1a, 0x0b]);
    grows_by_one(0, &[0x41, 0x00], &[0x45], &[0x1a, 0x0b]);
    grows_by_one(0, &[0x41, 0x00], &[0x28, 0x02, 0x00], &[0x1a, 0x0b]);
    grows_by_one(0, &[0x41, 0x00], &[0x22, 0x00], &[0x1a, 0x0b]);
    grows_by_one(0, &[0x41, 0x00], &[0x40, 0x00], &[0x1a, 0x0b]);
    grows_by_one(0, &[0x41, 0x00], &[0x41, 0x01, 0x10, 0x00], &[0x1a, 0x0b]);
    grows_by_one(0, &[0x41, 0x00], &[0x41, 0x01, 0x41, 0x00, 0x11, 0x01, 0x00], &[0x1a, 0x0b]);
    grows_by_one(0, &[0x41, 0x00], &[0x41, 0x01, 0x41, 0x01, 0x1b], &[0x1a, 0x0b]);
    grows_by_one(0, &[0x42, 0x00], &[0x42, 0x01, 0x7c], &[0x1a, 0x0b]);
    grows_by_one(0, &[0x42, 0x00], &[0x79], &[0x1a, 0x0b]);
    grows_by_one(0, &[0x43, 0, 0, 0, 0], &[0x8b], &[0x1a, 0x0b]);
    grows_by_one(0, &[0x43, 0, 0, 0, 0], &[0x43, 0, 0, 0, 0, 0x92], &[0x1a, 0x0b]);
    grows_by_one(0, &[0x44, 0, 0, 0, 0, 0, 0, 0, 0], &[0x99], &[0x1a, 0x0b]);
    grows_by_one(0, &[0x44, 0, 0, 0, 0, 0, 0, 0, 0], &[0x44, 0, 0, 0, 0, 0, 0, 0, 0, 0xa0], &[0x1a, 0x0b]);
    grows_by_one(0, &[0x41, 0x00], &[0xac, 0xa7], &[0x1a, 0x0b]);
    grows_by_one(0, &[0x41, 0x00], &[0xc0], &[0x1a, 0x0b]);
    grows_by_one(0, &[0x41, 0x00], &[0x41, 0x01, 0x46], &[0x1a, 0x0b]);
    grows_by_one(0, &[0x41, 0x00], &[0xfe, 0x10, 0x02, 0x00], &[0x1a, 0x0b]);
    grows_by_one(0, &[0x41, 0x00], &[0x41, 0x01, 0xfe, 0x1e, 0x02, 0x00], &[0x1a, 0x0b]);
    grows_by_one(0, &[0x41, 0x00], &[0x41, 0x01, 0x41, 0x01, 0xfe, 0x48, 0x02, 0x00], &[0x1a, 0x0b]);
    grows_by_one(0, &[0x41, 0x00], &[0x41, 0x01, 0xfe, 0x00, 0x02, 0x00], &[0x1a, 0x0b]);
    grows_by_one(2, &[0x41, 0x00], &[0x41, 0x01, 0x6a], &[0x0b]);
}

#[test]
fn what_gives_no_value_goes_beside_the_value_before_it() {
    for unit in [
        &[0x41u8, 0x01, 0x21, 0x00][..],
        &[0x41, 0x01, 0x24, 0x00][..],
        &[0x41, 0x01, 0x1a][..],
        &[0x41, 0x01, 0x41, 0x01, 0x36, 0x02, 0x00][..],
        &[0x41, 0x01, 0x41, 0x01, 0xfe, 0x17, 0x02, 0x00][..],
        &[0x01, 0x41, 0x01, 0x41, 0x01, 0x41, 0x01, 0xfc, 0x0b, 0x00][..],
        &[0x41, 0x00, 0x0d, 0x00][..],
    ] {
        let wasm = with_code(0, &repeated(&[0x41, 0x00], unit, 3000, &[0x1a, 0x0b]));
        assert!(check_depths(&wasm), "{:02x?}", unit);
        assert!(measured(&wasm) < 10, "{:02x?}", unit);
    }
    let mut code = vec![0x41, 0x00];
    for _ in 0..300 {
        code.extend_from_slice(&[0x41, 0x01, 0x21, 0x00, 0x45]);
    }
    code.extend_from_slice(&[0x1a, 0x0b]);
    let wasm = with_code(0, &code);
    assert!(check_depths(&wasm));
    assert!(measured(&wasm) <= 700);
    grows_by_one(0, &[0x41, 0x00], &[0x41, 0x01, 0x21, 0x00, 0x45], &[0x1a, 0x0b]);
}

#[test]
fn blocks_add_one_level_each() {
    let nested = |open: &[u8], n: usize| {
        let mut code = Vec::new();
        for _ in 0..n {
            code.extend_from_slice(open);
        }
        for _ in 0..n {
            code.push(0x0b);
        }
        code.push(0x0b);
        with_code(0, &code)
    };
    for open in [&[0x02u8, 0x40][..], &[0x03, 0x40][..], &[0x41, 0x01, 0x04, 0x40][..]] {
        let small = nested(open, 10);
        let larger = nested(open, 20);
        let step = measured(&larger) - measured(&small);
        let base = measured(&small) - step;
        let most = ((1000 - base) * 10 / step).min(998);
        assert!(check_depths(&nested(open, most - 5)), "{:02x?}", open);
        assert!(measured(&nested(open, most - 5)) <= 1000);
        assert!(!check_depths(&nested(open, most + 5)), "{:02x?}", open);
    }
    let mut code = Vec::new();
    for _ in 0..400 {
        code.extend_from_slice(&[0x41, 0x01, 0x04, 0x7f, 0x41, 0x02, 0x05]);
    }
    code.extend_from_slice(&[0x41, 0x03]);
    for _ in 0..400 {
        code.push(0x0b);
    }
    code.extend_from_slice(&[0x1a, 0x0b]);
    let wasm = with_code(0, &code);
    assert!(measured(&wasm) <= 1000);
    assert!(check_depths(&wasm));
}

#[test]
fn long_code_of_short_statements_is_taken() {
    let mut code = Vec::new();
    for _ in 0..20000 {
        code.extend_from_slice(&[0x20, 0x00, 0x41, 0x01, 0x6a, 0x21, 0x00]);
        code.extend_from_slice(&[0x02, 0x40, 0x20, 0x00, 0x45, 0x0d, 0x00, 0x0b]);
        code.extend_from_slice(&[0x41, 0x00, 0x41, 0x07, 0x36, 0x02, 0x00]);
    }
    code.push(0x0b);
    let wasm = with_code(0, &code);
    assert!(check_depths(&wasm));
    assert!(measured(&wasm) < 10);
    let module = parse_input(&wasm).unwrap();
    assert!(module.emit_wasm().is_ok());
}

#[test]
fn code_that_is_never_run_is_kept_in_no_tree() {
    let code = repeated(&[0x0c, 0x00, 0x41, 0x00], &[0x41, 0x01, 0x6a], 5000, &[0x1a, 0x0b]);
    let wasm = with_code(0, &code);
    assert!(check_depths(&wasm));
    assert!(measured(&wasm) < 10);
    let code = repeated(&[0x00], &[0x02, 0x40, 0x41, 0x01, 0x1a, 0x0b], 3000, &[0x0b]);
    let wasm = with_code(0, &code);
    assert!(check_depths(&wasm));
    assert!(measured(&wasm) < 10);
    let mut code = vec![0x41, 0x00, 0x04, 0x40, 0x0f];
    code.extend(repeated(&[0x41, 0x00], &[0x45], 3000, &[0x1a]));
    code.extend_from_slice(&[0x05, 0x41, 0x01, 0x1a, 0x0b, 0x0b]);
    let wasm = with_code(0, &code);
    assert!(check_depths(&wasm));
    assert!(measured(&wasm) < 10);
}

#[test]
fn branches_take_the_values_of_their_blocks_along() {
    let code = [
        0x02, 0x7f, 0x41, 0x01, 0x41, 0x00, 0x0d, 0x00, 0x1a, 0x41, 0x02, 0x0c, 0x00, 0x0b, 0x1a,
        0x03, 0x40, 0x41, 0x00, 0x0d, 0x00, 0x41, 0x00, 0x0e, 0x01, 0x00, 0x00, 0x0b, 0x41, 0x05,
        0x0f, 0x0b,
    ];
    let wasm = with_code(2, &code);
    assert!(parse_input(&wasm).is_ok());
    assert!(check_depths(&wasm));
}

#[test]
fn a_binary_whose_calls_cannot_be_followed_is_refused() {
    assert!(!check_depths(&with_code(0, &[0x10, 0x05, 0x0b])));
    assert!(!check_depths(&with_code(0, &[0x41, 0x00, 0x11, 0x07, 0x00, 0x0b])));
    assert!(!check_depths(&with_code(0, &[0x6a, 0x0b])));
    assert!(!check_depths(&with_code(0, &[0x41, 0x00, 0x0b])));
    assert!(!check_depths(&with_code(0, &[0x0c, 0x03, 0x0b])));
    assert!(!check_depths(&with_code(5, &[0x0b])));
}

#[test]
fn a_deep_function_goes_through_the_preparation_for_threads() {
    let mut out = vec![0x00, 0x61, 0x73, 0x6d, 0x01, 0x00, 0x00, 0x00];
    out.extend(section(1, &[0x01, 0x60, 0x00, 0x00]));
    out.extend(section(3, &[0x01, 0x00]));
    out.extend(section(5, &[0x01, 0x00, 0x01]));
    out.extend(section(6, &[0x01, 0x7f, 0x00, 0x41, 0x80, 0x08, 0x0b]));
    let mut exports = vec![0x02, 0x01, b'e', 0x00, 0x00, 0x0b];
    exports.extend_from_slice(b"__heap_base");
    exports.extend_from_slice(&[0x03, 0x00]);
    out.extend(section(7, &exports));
    let mut body = vec![0x00];
    body.extend(repeated(&[0x41, 0x00], &[0x41, 0x01, 0x6a], 990, &[0x1a, 0x0b]));
    let mut payload = vec![0x01];
    payload.extend(leb(body.len() as u64));
    payload.extend(body);
    out.extend(section(10, &payload));
    assert!(well_formed(&out));
    let mut module = parse_input(&out).unwrap();
    let mut bindgen = Bindgen::new();
    bindgen.threads(Some(wasm_bindgen_cli_support::transform::ThreadsConfig::new()));
    let staged = bindgen.transform(&mut module).unwrap();
    assert!(staged.memory.shared);
    let files = bindgen.emit("deep", &module, "", "", "").unwrap();
    assert_eq!(files.len(), 2);
    assert!(deepest(&module) <= 1000);
}
