//! The failures that the pipeline reports, and the texts that it reports them
//! with.

use vstd::prelude::*;
use vstd::string::StringExecFns;
use crate::search::{contains, matches_at};

verus! {

/// Why a run stopped.
#[derive(Debug, PartialEq, Eq)]
pub enum BindgenError {
    /// No input was named.
    MissingInput,
    /// The input is no WebAssembly binary; `cause` says why.
    InvalidWasm { cause: String },
    /// A frame's length prefix is cut short or reaches past the payload, or a
    /// header frame has no data frame after it.
    MalformedFrame,
    /// A header frame is not the expected brace-wrapped text.
    UnrecognizedHeader,
    /// The module was produced against another schema, by the version
    /// `theirs`; this build is the version `ours`.
    VersionMismatch { theirs: String, ours: String },
    /// The module could not be prepared for threads; `cause` says why.
    Threads { cause: String },
    /// The module has more than one linear memory.
    MultipleMemories,
    /// The module could not be written out as a binary; `cause` says why.
    Emit { cause: String },
}

/// The text of a version mismatch, up to the producer's version.
pub open spec fn mismatch_head() -> Seq<char> {
    "\n\nit looks like the Rust project used to create this wasm file was linked against\na different version of wasm-bindgen than this binary:\n\n  rust wasm file: "@
}

/// The text of a version mismatch, between the two versions.
pub open spec fn mismatch_middle() -> Seq<char> {
    "\n     this binary: "@
}

/// The text of a version mismatch, after this build's version.
pub open spec fn mismatch_tail() -> Seq<char> {
    "\n\nCurrently the bindgen format is unstable enough that these two version must\nexactly match, so it's required that these two version are kept in sync by\neither updating the wasm-bindgen dependency or this binary. You should be able\nto update the wasm-bindgen dependency with:\n\n    cargo update -p wasm-bindgen\n\nor you can update the binary with\n\n    cargo install -f wasm-bindgen-cli\n\nif this warning fails to go away though and you're not sure what to do feel free\nto open an issue at https://github.com/rustwasm/wasm-bindgen/issues!\n"@
}

/// What a version mismatch tells the user: both versions, and what to do.
pub open spec fn mismatch_text(theirs: Seq<char>, ours: Seq<char>) -> Seq<char> {
    mismatch_head() + theirs + mismatch_middle() + ours + mismatch_tail()
}

/// The text of a version mismatch holds both versions.
pub proof fn lemma_mismatch_text_names_both(theirs: Seq<char>, ours: Seq<char>)
    ensures
        contains(mismatch_text(theirs, ours), theirs),
        contains(mismatch_text(theirs, ours), ours),
{
    let text = mismatch_text(theirs, ours);
    let a = mismatch_head().len() as int;
    let b = a + theirs.len() + mismatch_middle().len();
    assert(text.subrange(a, a + theirs.len()) =~= theirs);
    assert(matches_at(text, theirs, a));
    assert(text.subrange(b, b + ours.len()) =~= ours);
    assert(matches_at(text, ours, b));
}

impl BindgenError {
    /// The stage that failed, for the failures that belong to one.
    pub open spec fn context_text(&self) -> Option<Seq<char>> {
        match self {
            BindgenError::InvalidWasm { .. } => Some("failed to parse input file as wasm"@),
            BindgenError::MalformedFrame
            | BindgenError::UnrecognizedHeader
            | BindgenError::VersionMismatch { .. } => Some(
                "failed to extract wasm-bindgen custom sections"@,
            ),
            BindgenError::Threads { .. } => Some("failed to prepare module for threading"@),
            _ => None,
        }
    }

    /// What went wrong.
    pub open spec fn message_text(&self) -> Seq<char> {
        match self {
            BindgenError::MissingInput => "must have an input by now"@,
            BindgenError::InvalidWasm { cause } => cause@,
            BindgenError::MalformedFrame => "a frame of wasm-bindgen data is cut short"@,
            BindgenError::UnrecognizedHeader => "failed to decode what looked like wasm-bindgen data"@,
            BindgenError::VersionMismatch { theirs, ours } => mismatch_text(theirs@, ours@),
            BindgenError::Threads { cause } => cause@,
            BindgenError::MultipleMemories => "multiple memories currently not supported"@,
            BindgenError::Emit { cause } => cause@,
        }
    }

    /// The stage that failed, for the failures that belong to one.
    pub fn context(&self) -> (text: Option<String>)
        ensures
            match text {
                Some(text) => self.context_text() == Some(text@),
                None => self.context_text() is None,
            },
    {
        match self {
            BindgenError::InvalidWasm { .. } => Some("failed to parse input file as wasm".to_owned()),
            BindgenError::MalformedFrame
            | BindgenError::UnrecognizedHeader
            | BindgenError::VersionMismatch { .. } => Some(
                "failed to extract wasm-bindgen custom sections".to_owned(),
            ),
            BindgenError::Threads { .. } => Some("failed to prepare module for threading".to_owned()),
            _ => None,
        }
    }

    /// What went wrong, as the user reads it.
    pub fn message(&self) -> (text: String)
        ensures
            text@ == self.message_text(),
    {
        match self {
            BindgenError::MissingInput => "must have an input by now".to_owned(),
            BindgenError::InvalidWasm { cause } => cause.clone(),
            BindgenError::MalformedFrame => "a frame of wasm-bindgen data is cut short".to_owned(),
            BindgenError::UnrecognizedHeader => "failed to decode what looked like wasm-bindgen data".to_owned(),
            BindgenError::VersionMismatch { theirs, ours } => {
                let mut text = "\n\nit looks like the Rust project used to create this wasm file was linked against\na different version of wasm-bindgen than this binary:\n\n  rust wasm file: ".to_owned();
                text.append(theirs.as_str());
                text.append("\n     this binary: ");
                text.append(ours.as_str());
                text.append("\n\nCurrently the bindgen format is unstable enough that these two version must\nexactly match, so it's required that these two version are kept in sync by\neither updating the wasm-bindgen dependency or this binary. You should be able\nto update the wasm-bindgen dependency with:\n\n    cargo update -p wasm-bindgen\n\nor you can update the binary with\n\n    cargo install -f wasm-bindgen-cli\n\nif this warning fails to go away though and you're not sure what to do feel free\nto open an issue at https://github.com/rustwasm/wasm-bindgen/issues!\n");
                text
            },
            BindgenError::Threads { cause } => cause.clone(),
            BindgenError::MultipleMemories => "multiple memories currently not supported".to_owned(),
            BindgenError::Emit { cause } => cause.clone(),
        }
    }
}

} // verus!
