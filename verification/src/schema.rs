//! The header frame: a brace-wrapped text that names the schema its producer
//! wrote, and the producer's version.

use vstd::prelude::*;
use vstd::slice::slice_subrange;
use vstd::utf8::{
    decode_utf8, encode_utf8, encode_utf8_decode_utf8, encode_utf8_valid_utf8, valid_utf8,
};
use crate::error::BindgenError;
use crate::search::{
    contains, find, first_match, is_first_from, lemma_first_match_iff_contains,
    lemma_match_from_finds, matches_at, same_chars,
};
use crate::text::{chars_of, string_of};

verus! {

#[verifier::external_type_specification]
#[verifier::external_body]
pub struct ExUtf8Error(core::str::Utf8Error);

/// `core::str::from_utf8` succeeds exactly on well-formed UTF-8, and then gives
/// the text that the bytes encode.
pub assume_specification[ core::str::from_utf8 ](bytes: &[u8]) -> (r: Result<
    &str,
    core::str::Utf8Error,
>)
    ensures
        r is Ok <==> valid_utf8(bytes@),
        r matches Ok(text) ==> encode_utf8(text@) == bytes@,
;

/// The schema that this build reads.
pub open spec fn schema_version_text() -> Seq<char> {
    "0.2.36"@
}

/// `wasm_bindgen_shared::SCHEMA_VERSION`, which is that crate's own version.
/// The text that is stated here is that of the version 0.2.36, which this
/// crate depends on and no other: with another version of the dependency,
/// the text in `schema_version_text` has to change with it.
#[verifier::external_body]
pub(crate) fn schema_version() -> (schema: &'static str)
    ensures
        schema@ == schema_version_text(),
{
    wasm_bindgen_shared::SCHEMA_VERSION
}

/// `wasm_bindgen_shared::version`: the crate's version, and after it the
/// revision that it was built from where the build knew one.
#[verifier::external_body]
pub(crate) fn tool_version() -> (version: String)
    ensures
        schema_version_text().is_prefix_of(version@),
{
    wasm_bindgen_shared::version()
}

/// What comes before the schema's name in a header.
pub open spec fn schema_key() -> Seq<char> {
    "\"schema_version\":\""@
}

/// What comes before the producer's version in a header.
pub open spec fn version_key() -> Seq<char> {
    "\"version\":\""@
}

/// Whether `text` opens with `{` and closes with `}`.
pub open spec fn is_wrapped(text: Seq<char>) -> bool {
    text.len() > 0 && text[0] == '{' && text[text.len() - 1] == '}'
}

/// What stands between the first `key` in `text` and the next double quote.
pub open spec fn quoted_value(text: Seq<char>, key: Seq<char>) -> Option<Seq<char>> {
    match first_match(text, key) {
        None => None,
        Some(at) => {
            let rest = text.skip(at + key.len());
            match first_match(rest, seq!['"']) {
                None => None,
                Some(end) => Some(rest.take(end)),
            }
        },
    }
}

/// What a header says of its producer.
pub enum Verdict {
    /// It wrote the schema that this build reads.
    Match,
    /// It wrote another schema; this is its version.
    Mismatch(Seq<char>),
    /// The text is no header.
    Unrecognized,
}

/// The verdict on a header's text, for a build that reads `schema`.
pub open spec fn header_verdict(text: Seq<char>, schema: Seq<char>) -> Verdict {
    if !is_wrapped(text) {
        Verdict::Unrecognized
    } else {
        match quoted_value(text, schema_key()) {
            None => Verdict::Unrecognized,
            Some(theirs) => if theirs == schema {
                Verdict::Match
            } else {
                match quoted_value(text, version_key()) {
                    None => Verdict::Unrecognized,
                    Some(version) => Verdict::Mismatch(version),
                }
            },
        }
    }
}

/// The verdict on a header frame's bytes, for a build that reads `schema`.
pub open spec fn frame_verdict(data: Seq<u8>, schema: Seq<char>) -> Verdict {
    if valid_utf8(data) {
        header_verdict(decode_utf8(data), schema)
    } else {
        Verdict::Unrecognized
    }
}

/// The verdict that a check's result stands for.
pub open spec fn verdict_of(r: Result<Option<String>, BindgenError>) -> Verdict {
    match r {
        Ok(None) => Verdict::Match,
        Ok(Some(version)) => Verdict::Mismatch(version@),
        Err(_) => Verdict::Unrecognized,
    }
}

/// What stands between the first `key` in `text` and the next double quote.
fn value_after<'a>(text: &'a [char], key: &[char]) -> (value: Option<&'a [char]>)
    ensures
        match value {
            Some(found) => quoted_value(text@, key@) == Some(found@),
            None => quoted_value(text@, key@) is None,
        },
{
    let at = match find(text, key) {
        Some(at) => at,
        None => return None,
    };
    proof {
        crate::search::lemma_match_from_found(text@, key@, 0);
        assert(crate::search::matches_at(text@, key@, at as int));
    }
    let n = text.len();
    let rest = slice_subrange(text, at + key.len(), n);
    assert(rest@ == text@.skip(at + key@.len()));
    let quote: [char; 1] = ['"'];
    assert(quote@ == seq!['"']);
    let end = match find(rest, quote.as_slice()) {
        Some(end) => end,
        None => return None,
    };
    proof {
        crate::search::lemma_match_from_found(rest@, quote@, 0);
        assert(crate::search::matches_at(rest@, quote@, end as int));
    }
    let found = slice_subrange(rest, 0, end);
    assert(found@ == rest@.take(end as int));
    Some(found)
}

/// Reads a header frame for a build that reads `schema`: `Ok(None)` where the
/// producer wrote that schema, else the producer's version.
pub fn check_header(data: &[u8], schema: &str) -> (r: Result<Option<String>, BindgenError>)
    ensures
        verdict_of(r) == frame_verdict(data@, schema@),
        r is Err ==> r == Err::<Option<String>, BindgenError>(BindgenError::UnrecognizedHeader),
{
    let text = match core::str::from_utf8(data) {
        Ok(text) => text,
        Err(_) => return Err(BindgenError::UnrecognizedHeader),
    };
    proof {
        encode_utf8_decode_utf8(text@);
    }
    let chars = chars_of(text);
    let expected = chars_of(schema);
    let n = chars.len();
    if n == 0 || chars[0] != '{' || chars[n - 1] != '}' {
        return Err(BindgenError::UnrecognizedHeader);
    }
    let schema_key = chars_of("\"schema_version\":\"");
    let theirs = match value_after(chars.as_slice(), schema_key.as_slice()) {
        Some(theirs) => theirs,
        None => return Err(BindgenError::UnrecognizedHeader),
    };
    if same_chars(theirs, expected.as_slice()) {
        return Ok(None);
    }
    let version_key = chars_of("\"version\":\"");
    match value_after(chars.as_slice(), version_key.as_slice()) {
        Some(version) => Ok(Some(string_of(version))),
        None => Err(BindgenError::UnrecognizedHeader),
    }
}

/// Reads a header frame: `Ok(None)` where its producer wrote the schema of
/// this build, else the producer's version.
pub fn verify_schema_matches(data: &[u8]) -> (r: Result<Option<String>, BindgenError>)
    ensures
        verdict_of(r) == frame_verdict(data@, schema_version_text()),
        r is Err ==> r == Err::<Option<String>, BindgenError>(BindgenError::UnrecognizedHeader),
{
    check_header(data, schema_version())
}

/// Whether `at` is where the first `key` of `text` stands, with `value` and
/// then a double quote after it, and no double quote inside `value`.
pub open spec fn names_value_at(text: Seq<char>, key: Seq<char>, at: int, value: Seq<char>) -> bool {
    let start = at + key.len();
    &&& is_first_from(text, key, 0, at)
    &&& start + value.len() < text.len()
    &&& text.subrange(start, start + value.len()) == value
    &&& text[start + value.len()] == '"'
    &&& !value.contains('"')
}

/// The value that a text names for a key is the one that is read from it.
pub proof fn lemma_quoted_value(text: Seq<char>, key: Seq<char>, at: int, value: Seq<char>)
    requires
        names_value_at(text, key, at, value),
    ensures
        quoted_value(text, key) == Some(value),
{
    lemma_match_from_finds(text, key, 0, at);
    let rest = text.skip(at + key.len());
    let quote = seq!['"'];
    let end = value.len() as int;
    assert(rest.subrange(end, end + 1) =~= quote);
    assert forall|j: int| 0 <= j < end implies !matches_at(rest, quote, j) by {
        if matches_at(rest, quote, j) {
            assert(rest.subrange(j, j + 1)[0] == quote[0]);
            assert(value[j] == text.subrange(at + key.len(), at + key.len() + value.len())[j]);
            assert(value.contains('"'));
        }
    }
    lemma_match_from_finds(rest, quote, 0, end);
    assert(rest.take(end) =~= value);
}

/// The version gate. A brace-wrapped header that names a schema passes exactly
/// where that schema is the one that the build reads.
pub proof fn lemma_version_gate(text: Seq<char>, schema: Seq<char>, at: int, theirs: Seq<char>)
    requires
        is_wrapped(text),
        names_value_at(text, schema_key(), at, theirs),
    ensures
        header_verdict(text, schema) is Match <==> theirs == schema,
{
    lemma_quoted_value(text, schema_key(), at, theirs);
}

/// A brace-wrapped header that names another schema than the build reads, and
/// a version, fails with that version.
pub proof fn lemma_mismatch_reports_version(
    text: Seq<char>,
    schema: Seq<char>,
    at: int,
    theirs: Seq<char>,
    version_at: int,
    version: Seq<char>,
)
    requires
        is_wrapped(text),
        names_value_at(text, schema_key(), at, theirs),
        theirs != schema,
        names_value_at(text, version_key(), version_at, version),
    ensures
        header_verdict(text, schema) == Verdict::Mismatch(version),
{
    lemma_quoted_value(text, schema_key(), at, theirs);
    lemma_quoted_value(text, version_key(), version_at, version);
}

/// A text that is not wrapped in braces, or that names no schema, is no
/// header, whatever it says of a version.
pub proof fn lemma_rejects_malformed(text: Seq<char>, schema: Seq<char>)
    requires
        !is_wrapped(text) || !contains(text, schema_key()),
    ensures
        header_verdict(text, schema) is Unrecognized,
{
    lemma_first_match_iff_contains(text, schema_key());
}

/// A header frame that holds a text is judged as that text is.
pub proof fn lemma_frame_verdict_of_text(text: Seq<char>, schema: Seq<char>)
    ensures
        frame_verdict(encode_utf8(text), schema) == header_verdict(text, schema),
{
    encode_utf8_valid_utf8(text);
    encode_utf8_decode_utf8(text);
}

} // verus!
