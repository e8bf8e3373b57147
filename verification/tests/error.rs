use wasm_bindgen_cli_support::error::BindgenError;

#[test]
fn a_version_mismatch_names_both_versions_and_what_to_do() {
    let error = BindgenError::VersionMismatch {
        theirs: "0.0.0".to_string(),
        ours: "0.2.36 (0123456789)".to_string(),
    };
    let expected = "

it looks like the Rust project used to create this wasm file was linked against
a different version of wasm-bindgen than this binary:

  rust wasm file: 0.0.0
     this binary: 0.2.36 (0123456789)

Currently the bindgen format is unstable enough that these two version must
exactly match, so it's required that these two version are kept in sync by
either updating the wasm-bindgen dependency or this binary. You should be able
to update the wasm-bindgen dependency with:

    cargo update -p wasm-bindgen

or you can update the binary with

    cargo install -f wasm-bindgen-cli

if this warning fails to go away though and you're not sure what to do feel free
to open an issue at https://github.com/rustwasm/wasm-bindgen/issues!
";
    assert_eq!(error.message(), expected);
    assert_eq!(
        error.context(),
        Some("failed to extract wasm-bindgen custom sections".to_string())
    );
}

#[test]
fn each_failure_has_its_text() {
    assert_eq!(BindgenError::MissingInput.message(), "must have an input by now");
    assert_eq!(BindgenError::MissingInput.context(), None);
    assert_eq!(
        BindgenError::UnrecognizedHeader.message(),
        "failed to decode what looked like wasm-bindgen data"
    );
    assert_eq!(
        BindgenError::UnrecognizedHeader.context(),
        Some("failed to extract wasm-bindgen custom sections".to_string())
    );
    assert_eq!(
        BindgenError::MalformedFrame.message(),
        "a frame of wasm-bindgen data is cut short"
    );
    assert_eq!(
        BindgenError::MalformedFrame.context(),
        Some("failed to extract wasm-bindgen custom sections".to_string())
    );
    assert_eq!(
        BindgenError::MultipleMemories.message(),
        "multiple memories currently not supported"
    );
    assert_eq!(BindgenError::MultipleMemories.context(), None);
    let invalid = BindgenError::InvalidWasm { cause: "bad magic".to_string() };
    assert_eq!(invalid.message(), "bad magic");
    assert_eq!(invalid.context(), Some("failed to parse input file as wasm".to_string()));
    let threads = BindgenError::Threads { cause: "no memory".to_string() };
    assert_eq!(threads.message(), "no memory");
    assert_eq!(
        threads.context(),
        Some("failed to prepare module for threading".to_string())
    );
    let emit = BindgenError::Emit { cause: "no room".to_string() };
    assert_eq!(emit.message(), "no room");
    assert_eq!(emit.context(), None);
}
