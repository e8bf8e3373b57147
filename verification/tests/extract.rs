use walrus::{CustomSection, Module};
use wasm_bindgen_cli_support::error::BindgenError;
use wasm_bindgen_cli_support::extract::{
    decode_payload, extract_programs, extract_programs_for, take_reserved_sections, Program,
};
use wasm_bindgen_cli_support::frames::push_frame;

const RESERVED: &str = "__wasm_bindgen_unstable";

fn header(schema: &str, version: &str) -> Vec<u8> {
    format!("{{\"schema_version\":\"{}\",\"version\":\"{}\"}}", schema, version).into_bytes()
}

fn payload(pairs: &[(Vec<u8>, Vec<u8>)]) -> Vec<u8> {
    let mut out = Vec::new();
    for (head, data) in pairs {
        push_frame(&mut out, head);
        push_frame(&mut out, data);
    }
    out
}

fn section(name: &str, value: Vec<u8>) -> CustomSection {
    CustomSection { name: name.to_string(), value }
}

fn names(module: &Module) -> Vec<String> {
    module.custom.iter().map(|c| c.name.clone()).collect()
}

#[test]
fn an_empty_payload_holds_no_program() {
    assert_eq!(decode_payload(&[], "s", "v"), Ok(vec![]));
}

#[test]
fn pairs_come_back_as_their_data_in_order() {
    let pairs = vec![
        (header("s", "1"), vec![1u8, 2, 3]),
        (header("s", "2"), vec![]),
        (header("s", "3"), vec![0u8; 300]),
    ];
    let got = decode_payload(&payload(&pairs), "s", "v").unwrap();
    let data: Vec<Vec<u8>> = got.into_iter().map(|p| p.data).collect();
    assert_eq!(data, vec![vec![1u8, 2, 3], vec![], vec![0u8; 300]]);
}

#[test]
fn a_header_without_data_is_malformed() {
    let mut bytes = Vec::new();
    push_frame(&mut bytes, &header("s", "1"));
    assert_eq!(decode_payload(&bytes, "s", "v"), Err(BindgenError::MalformedFrame));
    let mut bytes = payload(&[(header("s", "1"), vec![7])]);
    push_frame(&mut bytes, &header("s", "1"));
    assert_eq!(decode_payload(&bytes, "s", "v"), Err(BindgenError::MalformedFrame));
}

#[test]
fn a_cut_frame_is_malformed() {
    let mut bytes = payload(&[(header("s", "1"), vec![7, 8, 9])]);
    bytes.pop();
    assert_eq!(decode_payload(&bytes, "s", "v"), Err(BindgenError::MalformedFrame));
    assert_eq!(decode_payload(&[1, 0, 0], "s", "v"), Err(BindgenError::MalformedFrame));
    assert_eq!(decode_payload(&[9, 0, 0, 0, b'{'], "s", "v"), Err(BindgenError::MalformedFrame));
}

#[test]
fn a_bad_header_ends_the_reading() {
    let bytes = payload(&[(header("s", "1"), vec![7]), (b"nonsense".to_vec(), vec![8])]);
    assert_eq!(decode_payload(&bytes, "s", "v"), Err(BindgenError::UnrecognizedHeader));
}

#[test]
fn a_mismatch_is_reported_before_its_data_is_looked_at() {
    let mut bytes = payload(&[(header("s", "1"), vec![7])]);
    push_frame(&mut bytes, &header("t", "0.0.0"));
    bytes.extend_from_slice(&[0xff, 0xff]);
    assert_eq!(
        decode_payload(&bytes, "s", "mine"),
        Err(BindgenError::VersionMismatch { theirs: "0.0.0".to_string(), ours: "mine".to_string() })
    );
}

#[test]
fn reserved_sections_leave_and_the_others_stay_in_order() {
    let mut module = Module::default();
    module.custom.push(section("first", vec![1]));
    module.custom.push(section(RESERVED, vec![10]));
    module.custom.push(section(RESERVED, vec![]));
    module.custom.push(section("second", vec![2]));
    module.custom.push(section("__wasm_bindgen_unstable2", vec![3]));
    module.custom.push(section(RESERVED, vec![11, 12]));
    let payloads = take_reserved_sections(&mut module);
    assert_eq!(payloads, vec![vec![10u8], vec![], vec![11, 12]]);
    assert_eq!(names(&module), vec!["first", "second", "__wasm_bindgen_unstable2"]);
    let values: Vec<Vec<u8>> = module.custom.iter().map(|c| c.value.clone()).collect();
    assert_eq!(values, vec![vec![1u8], vec![2], vec![3]]);
}

#[test]
fn a_module_without_reserved_sections_stays_as_it_is() {
    let mut module = Module::default();
    assert_eq!(extract_programs(&mut module), Ok(vec![]));
    assert!(module.custom.is_empty());
    module.custom.push(section("a", vec![1]));
    module.custom.push(section("b", vec![2]));
    assert_eq!(extract_programs(&mut module), Ok(vec![]));
    assert_eq!(names(&module), vec!["a", "b"]);
}

#[test]
fn only_reserved_sections_leave_nothing_behind() {
    let mut module = Module::default();
    for _ in 0..5 {
        module.custom.push(section(RESERVED, vec![]));
    }
    assert_eq!(extract_programs(&mut module), Ok(vec![]));
    assert!(module.custom.is_empty());
}

#[test]
fn programs_come_in_the_order_of_sections_and_frames() {
    let schema = wasm_bindgen_shared::SCHEMA_VERSION;
    let mut module = Module::default();
    module.custom.push(section(
        RESERVED,
        payload(&[(header(schema, "a"), vec![1]), (header(schema, "b"), vec![2])]),
    ));
    module.custom.push(section("other", vec![0xff]));
    module.custom.push(section(RESERVED, vec![]));
    module.custom.push(section(RESERVED, payload(&[(header(schema, "c"), vec![3, 3])])));
    let programs = extract_programs(&mut module).unwrap();
    assert_eq!(
        programs,
        vec![Program { data: vec![1] }, Program { data: vec![2] }, Program { data: vec![3, 3] }]
    );
    assert_eq!(names(&module), vec!["other"]);
}

#[test]
fn reserved_sections_leave_even_where_reading_fails() {
    let schema = wasm_bindgen_shared::SCHEMA_VERSION;
    let mut module = Module::default();
    module.custom.push(section(RESERVED, payload(&[(header(schema, "a"), vec![1])])));
    module.custom.push(section("kept", vec![5]));
    module.custom.push(section(RESERVED, vec![1, 2, 3]));
    module.custom.push(section(RESERVED, payload(&[(header("bogus", "0.0.0"), vec![1])])));
    assert_eq!(extract_programs(&mut module), Err(BindgenError::MalformedFrame));
    assert_eq!(names(&module), vec!["kept"]);
}

#[test]
fn a_mismatch_names_the_producer_and_this_build() {
    let mut module = Module::default();
    module.custom.push(section(RESERVED, payload(&[(header("bogus", "0.0.0"), vec![0; 5])])));
    let error = extract_programs(&mut module).unwrap_err();
    assert_eq!(
        error,
        BindgenError::VersionMismatch {
            theirs: "0.0.0".to_string(),
            ours: wasm_bindgen_shared::version(),
        }
    );
    let text = error.message();
    assert!(text.contains("rust wasm file: 0.0.0\n"));
    assert!(text.contains(&format!("this binary: {}\n", wasm_bindgen_shared::version())));
    assert!(wasm_bindgen_shared::version().starts_with("0.2.36"));
    assert!(module.custom.is_empty());
}

#[test]
fn the_schema_and_version_can_be_given() {
    let mut module = Module::default();
    module.custom.push(section(RESERVED, payload(&[(header("mine", "1"), vec![4])])));
    module.custom.push(section(RESERVED, payload(&[(header("0.2.36", "2"), vec![5])])));
    assert_eq!(
        extract_programs_for(&mut module, "mine", "9.9"),
        Err(BindgenError::VersionMismatch { theirs: "2".to_string(), ours: "9.9".to_string() })
    );
    let mut module = Module::default();
    module.custom.push(section(RESERVED, payload(&[(header("mine", "1"), vec![4])])));
    assert_eq!(
        extract_programs_for(&mut module, "mine", "9.9"),
        Ok(vec![Program { data: vec![4] }])
    );
}
