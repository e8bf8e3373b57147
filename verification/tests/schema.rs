use wasm_bindgen_cli_support::error::BindgenError;
use wasm_bindgen_cli_support::schema::{check_header, verify_schema_matches};

fn header(schema: &str, version: &str) -> Vec<u8> {
    format!("{{\"schema_version\":\"{}\",\"version\":\"{}\"}}", schema, version).into_bytes()
}

#[test]
fn the_schema_of_this_build_passes() {
    let data = header(wasm_bindgen_shared::SCHEMA_VERSION, "0.0.0");
    assert_eq!(verify_schema_matches(&data), Ok(None));
}

#[test]
fn the_schema_of_this_build_is_its_version() {
    assert_eq!(verify_schema_matches(&header("0.2.36", "1.2.3")), Ok(None));
    assert_eq!(wasm_bindgen_shared::SCHEMA_VERSION, "0.2.36");
}

#[test]
fn another_schema_is_reported_with_its_version() {
    assert_eq!(
        verify_schema_matches(&header("bogus", "0.0.0")),
        Ok(Some("0.0.0".to_string()))
    );
    assert_eq!(
        verify_schema_matches(&header("0.2.3", "0.2.3 (abcdef012)")),
        Ok(Some("0.2.3 (abcdef012)".to_string()))
    );
    assert_eq!(
        verify_schema_matches(&header("0.2.36 ", "x")),
        Ok(Some("x".to_string()))
    );
    assert_eq!(verify_schema_matches(&header("", "")), Ok(Some(String::new())));
}

#[test]
fn check_header_compares_with_the_schema_it_is_given() {
    assert_eq!(check_header(&header("7", "0.1.0"), "7"), Ok(None));
    assert_eq!(
        check_header(&header("0.2.36", "0.1.0"), "7"),
        Ok(Some("0.1.0".to_string()))
    );
    assert_eq!(check_header(&header("", "0.1.0"), ""), Ok(None));
}

#[test]
fn the_version_may_stand_before_the_schema() {
    let data = b"{\"version\":\"9.9.9\",\"schema_version\":\"nope\"}";
    assert_eq!(verify_schema_matches(data), Ok(Some("9.9.9".to_string())));
    let data = b"{\"version\":\"9.9.9\",\"schema_version\":\"0.2.36\"}";
    assert_eq!(verify_schema_matches(data), Ok(None));
}

#[test]
fn the_first_schema_field_decides() {
    let data = b"{\"schema_version\":\"0.2.36\",\"schema_version\":\"other\",\"version\":\"1\"}";
    assert_eq!(verify_schema_matches(data), Ok(None));
    let data = b"{\"schema_version\":\"other\",\"schema_version\":\"0.2.36\",\"version\":\"1\"}";
    assert_eq!(verify_schema_matches(data), Ok(Some("1".to_string())));
}

#[test]
fn text_that_is_not_wrapped_in_braces_is_refused() {
    let inner = "\"schema_version\":\"0.2.36\",\"version\":\"0.2.36\"";
    for text in [
        inner.to_string(),
        format!("{{{}", inner),
        format!("{}}}", inner),
        format!(" {{{}}}", inner),
        format!("{{{}}} ", inner),
        String::new(),
        "{".to_string(),
        "}".to_string(),
    ] {
        assert_eq!(
            verify_schema_matches(text.as_bytes()),
            Err(BindgenError::UnrecognizedHeader),
            "{:?}",
            text
        );
    }
}

#[test]
fn text_without_a_schema_is_refused_whatever_its_version() {
    for text in [
        "{}",
        "{\"version\":\"0.0.0\"}",
        "{\"schema-version\":\"0.2.36\",\"version\":\"0.0.0\"}",
        "{\"schema_version\": \"0.2.36\",\"version\":\"0.0.0\"}",
        "{\"schema_version\":\"}",
    ] {
        assert_eq!(
            verify_schema_matches(text.as_bytes()),
            Err(BindgenError::UnrecognizedHeader),
            "{:?}",
            text
        );
    }
}

#[test]
fn a_mismatch_without_a_version_is_refused() {
    for text in [
        "{\"schema_version\":\"other\"}",
        "{\"schema_version\":\"other\",\"version\":\"}",
        "{\"schema_version\":\"other\",\"version\":1}",
    ] {
        assert_eq!(
            verify_schema_matches(text.as_bytes()),
            Err(BindgenError::UnrecognizedHeader),
            "{:?}",
            text
        );
    }
}

#[test]
fn bytes_that_are_no_text_are_refused() {
    let mut data = header("0.2.36", "0.0.0");
    data.insert(1, 0xff);
    assert_eq!(verify_schema_matches(&data), Err(BindgenError::UnrecognizedHeader));
    assert_eq!(verify_schema_matches(&[b'{', 0xc3, b'}']), Err(BindgenError::UnrecognizedHeader));
}

#[test]
fn text_beyond_ascii_is_read_by_character() {
    let data = header("0.2.36", "\u{e9}\u{4e16}\u{1f600}");
    assert_eq!(verify_schema_matches(&data), Ok(None));
    let data = header("\u{e9}", "v\u{4e16}\u{1f600}");
    assert_eq!(verify_schema_matches(&data), Ok(Some("v\u{4e16}\u{1f600}".to_string())));
    let data = "{\u{1f600}\"schema_version\":\"\u{e9}\",\"version\":\"\u{e9}\u{e9}\"}";
    assert_eq!(check_header(data.as_bytes(), "\u{e9}"), Ok(None));
}
