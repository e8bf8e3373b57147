//! Taking the binding metadata out of a module.
//!
//! The producer leaves it in custom sections of one reserved name. Each such
//! section is a run of frames that come in pairs: a header, which must name the
//! schema that this build reads, and the data of one program.

use vstd::prelude::*;
use vstd::slice::slice_to_vec;
use walrus::Module;
use crate::error::BindgenError;
use crate::frames::{
    after_first_frame, first_frame, framed, get_remaining, lemma_frame_round_trip,
    starts_with_frame,
};
use crate::schema::{
    check_header, frame_verdict, schema_version, schema_version_text, tool_version, Verdict,
};
use crate::text::same_text;
use crate::wasm::{
    custom_count, custom_name, custom_sections, remove_custom, same_but_custom_sections,
    take_custom_payload,
};

verus! {

/// The binding metadata of one compilation unit, as its data frame holds it.
#[derive(Debug, PartialEq, Eq)]
pub struct Program {
    pub data: Vec<u8>,
}

impl View for Program {
    type V = Seq<u8>;

    open spec fn view(&self) -> Seq<u8> {
        self.data@
    }
}

/// What each of `programs` holds.
pub open spec fn program_views(programs: Seq<Program>) -> Seq<Seq<u8>> {
    programs.map_values(|p: Program| p@)
}

/// What reading metadata comes to.
pub enum Outcome {
    /// The data frames, in order.
    Programs(Seq<Seq<u8>>),
    /// A frame is cut short, or a header has no data after it.
    MalformedFrame,
    /// A header is no header.
    UnrecognizedHeader,
    /// A header names another schema; this is its producer's version.
    VersionMismatch(Seq<char>),
}

/// `found`, and after it what `then` comes to.
pub open spec fn and_then(found: Seq<Seq<u8>>, then: Outcome) -> Outcome {
    match then {
        Outcome::Programs(more) => Outcome::Programs(found + more),
        failure => failure,
    }
}

/// What reading one section's payload comes to, for a build that reads
/// `schema`. Reading stops at the first frame that fails.
pub open spec fn payload_outcome(payload: Seq<u8>, schema: Seq<char>) -> Outcome
    decreases payload.len(),
{
    if payload.len() == 0 {
        Outcome::Programs(Seq::empty())
    } else if !starts_with_frame(payload) {
        Outcome::MalformedFrame
    } else {
        match frame_verdict(first_frame(payload), schema) {
            Verdict::Unrecognized => Outcome::UnrecognizedHeader,
            Verdict::Mismatch(version) => Outcome::VersionMismatch(version),
            Verdict::Match => {
                let rest = after_first_frame(payload);
                if !starts_with_frame(rest) {
                    Outcome::MalformedFrame
                } else {
                    and_then(
                        seq![first_frame(rest)],
                        payload_outcome(after_first_frame(rest), schema),
                    )
                }
            },
        }
    }
}

/// What reading several payloads in turn comes to. The first failure ends it.
pub open spec fn payloads_outcome(payloads: Seq<Seq<u8>>, schema: Seq<char>) -> Outcome
    decreases payloads.len(),
{
    if payloads.len() == 0 {
        Outcome::Programs(Seq::empty())
    } else {
        match payloads_outcome(payloads.drop_last(), schema) {
            Outcome::Programs(found) => and_then(found, payload_outcome(payloads.last(), schema)),
            failure => failure,
        }
    }
}

/// Whether `r` reports `outcome`, where this build's version is `ours`.
pub open spec fn reports(r: Result<Vec<Program>, BindgenError>, outcome: Outcome, ours: Seq<char>) -> bool {
    match outcome {
        Outcome::Programs(found) => r matches Ok(programs) && program_views(programs@) == found,
        Outcome::MalformedFrame => r == Err::<Vec<Program>, BindgenError>(
            BindgenError::MalformedFrame,
        ),
        Outcome::UnrecognizedHeader => r == Err::<Vec<Program>, BindgenError>(
            BindgenError::UnrecognizedHeader,
        ),
        Outcome::VersionMismatch(version) => r matches Err(
            BindgenError::VersionMismatch { theirs, ours: named },
        ) && theirs@ == version && named@ == ours,
    }
}

/// Whether `r` reports `outcome`, whatever the version of this build is
/// beyond its first part, which is the schema's name.
pub open spec fn reports_for_this_build(r: Result<Vec<Program>, BindgenError>, outcome: Outcome) -> bool {
    match outcome {
        Outcome::VersionMismatch(version) => r matches Err(
            BindgenError::VersionMismatch { theirs, ours },
        ) && theirs@ == version && schema_version_text().is_prefix_of(ours@),
        other => reports(r, other, Seq::empty()),
    }
}

/// Reads the programs out of one section's payload, for a build of the
/// version `version` that reads `schema`.
pub fn decode_payload(payload: &[u8], schema: &str, version: &str) -> (r: Result<
    Vec<Program>,
    BindgenError,
>)
    ensures
        reports(r, payload_outcome(payload@, schema@), version@),
{
    let mut rest: &[u8] = payload;
    let mut programs: Vec<Program> = Vec::new();
    assert(program_views(programs@) =~= Seq::empty());
    loop
        invariant
            payload_outcome(payload@, schema@) == and_then(
                program_views(programs@),
                payload_outcome(rest@, schema@),
            ),
        decreases rest@.len(),
    {
        let ghost before = rest@;
        let ghost found = program_views(programs@);
        let header = match get_remaining(&mut rest) {
            Err(e) => {
                return Err(e);
            },
            Ok(None) => {
                assert(found + Seq::<Seq<u8>>::empty() =~= found);
                return Ok(programs);
            },
            Ok(Some(header)) => header,
        };
        match check_header(header, schema) {
            Err(e) => {
                return Err(e);
            },
            Ok(Some(theirs)) => {
                return Err(BindgenError::VersionMismatch { theirs, ours: version.to_owned() });
            },
            Ok(None) => {},
        }
        let data = match get_remaining(&mut rest) {
            Err(e) => {
                return Err(e);
            },
            Ok(None) => {
                return Err(BindgenError::MalformedFrame);
            },
            Ok(Some(data)) => data,
        };
        programs.push(Program { data: slice_to_vec(data) });
        proof {
            let more = payload_outcome(rest@, schema@);
            assert(program_views(programs@) =~= found.push(data@));
            assert(payload_outcome(before, schema@) == and_then(seq![data@], more));
            if let Outcome::Programs(tail) = more {
                assert(found + (seq![data@] + tail) =~= found.push(data@) + tail);
            }
        }
    }
}

/// The name of the custom sections that hold binding metadata.
pub open spec fn reserved_name() -> Seq<char> {
    "__wasm_bindgen_unstable"@
}

/// Whether a custom section, given as name and payload, holds binding
/// metadata.
pub open spec fn is_reserved(section: (Seq<char>, Seq<u8>)) -> bool {
    section.0 == reserved_name()
}

/// The sections that stay in the module: those of another name, in order.
pub open spec fn retained(sections: Seq<(Seq<char>, Seq<u8>)>) -> Seq<(Seq<char>, Seq<u8>)>
    decreases sections.len(),
{
    if sections.len() == 0 {
        Seq::empty()
    } else if is_reserved(sections.last()) {
        retained(sections.drop_last())
    } else {
        retained(sections.drop_last()).push(sections.last())
    }
}

/// The payloads that leave the module: those of the reserved sections, in
/// order.
pub open spec fn harvested(sections: Seq<(Seq<char>, Seq<u8>)>) -> Seq<Seq<u8>>
    decreases sections.len(),
{
    if sections.len() == 0 {
        Seq::empty()
    } else if is_reserved(sections.last()) {
        harvested(sections.drop_last()).push(sections.last().1)
    } else {
        harvested(sections.drop_last())
    }
}

/// Where the reserved sections stand, in ascending order.
spec fn reserved_places(sections: Seq<(Seq<char>, Seq<u8>)>) -> Seq<int>
    decreases sections.len(),
{
    if sections.len() == 0 {
        Seq::empty()
    } else if is_reserved(sections.last()) {
        reserved_places(sections.drop_last()).push(sections.len() - 1)
    } else {
        reserved_places(sections.drop_last())
    }
}

/// `sections` without those at `places`, the last place taken out first.
spec fn without<T>(sections: Seq<T>, places: Seq<int>) -> Seq<T>
    decreases places.len(),
{
    if places.len() == 0 {
        sections
    } else {
        without(sections.remove(places.last()), places.drop_last())
    }
}

/// Whether `places` ascends strictly and stays below `bound`.
spec fn ascending_below(places: Seq<int>, bound: int) -> bool {
    &&& forall|k: int| 0 <= k < places.len() ==> 0 <= #[trigger] places[k] < bound
    &&& forall|j: int, k: int| 0 <= j < k < places.len() ==> places[j] < places[k]
}

/// Whether `now` has the names of `before`, and its payloads but for those of
/// the reserved sections.
spec fn emptied(now: Seq<(Seq<char>, Seq<u8>)>, before: Seq<(Seq<char>, Seq<u8>)>) -> bool {
    &&& now.len() == before.len()
    &&& forall|j: int|
        0 <= j < now.len() ==> (#[trigger] now[j]).0 == before[j].0 && (!is_reserved(before[j])
            ==> now[j] == before[j])
}

/// The places of the reserved sections ascend, and are places of `sections`.
proof fn lemma_reserved_places_ascend(sections: Seq<(Seq<char>, Seq<u8>)>)
    ensures
        ascending_below(reserved_places(sections), sections.len() as int),
    decreases sections.len(),
{
    if sections.len() > 0 {
        lemma_reserved_places_ascend(sections.drop_last());
    }
}

/// Places that are taken out of a sequence leave what is pushed behind them
/// where it is.
proof fn lemma_without_push<T>(sections: Seq<T>, last: T, places: Seq<int>)
    requires
        ascending_below(places, sections.len() as int),
    ensures
        without(sections.push(last), places) == without(sections, places).push(last),
    decreases places.len(),
{
    if places.len() > 0 {
        let at = places.last();
        let rest = places.drop_last();
        assert(sections.push(last).remove(at) =~= sections.remove(at).push(last));
        assert(ascending_below(rest, sections.len() - 1)) by {
            assert forall|k: int| 0 <= k < rest.len() implies 0 <= #[trigger] rest[k]
                < sections.len() - 1 by {
                assert(places[k] < places[places.len() - 1]);
            }
        }
        lemma_without_push(sections.remove(at), last, rest);
    }
}

/// The sections without those at the places of the reserved ones are the
/// sections that stay.
proof fn lemma_without_reserved_places(sections: Seq<(Seq<char>, Seq<u8>)>)
    ensures
        without(sections, reserved_places(sections)) == retained(sections),
    decreases sections.len(),
{
    if sections.len() > 0 {
        let before = sections.drop_last();
        lemma_without_reserved_places(before);
        if is_reserved(sections.last()) {
            let places = reserved_places(sections);
            assert(places.drop_last() =~= reserved_places(before));
            assert(sections.remove(places.last()) =~= before);
        } else {
            lemma_reserved_places_ascend(before);
            assert(before.push(sections.last()) =~= sections);
            lemma_without_push(before, sections.last(), reserved_places(before));
        }
    }
}

/// Emptying reserved sections changes neither which sections stay nor where
/// the reserved ones stand.
proof fn lemma_emptied_keeps(now: Seq<(Seq<char>, Seq<u8>)>, before: Seq<(Seq<char>, Seq<u8>)>)
    requires
        emptied(now, before),
    ensures
        retained(now) == retained(before),
        reserved_places(now) == reserved_places(before),
    decreases now.len(),
{
    if now.len() > 0 {
        assert(emptied(now.drop_last(), before.drop_last()));
        lemma_emptied_keeps(now.drop_last(), before.drop_last());
        assert(now.last().0 == before.last().0);
    }
}

/// None of the sections that stay has the reserved name.
pub proof fn lemma_retained_holds_no_reserved(sections: Seq<(Seq<char>, Seq<u8>)>)
    ensures
        forall|i: int|
            0 <= i < retained(sections).len() ==> !is_reserved(#[trigger] retained(sections)[i]),
    decreases sections.len(),
{
    if sections.len() > 0 {
        let before = retained(sections.drop_last());
        lemma_retained_holds_no_reserved(sections.drop_last());
        assert forall|i: int| 0 <= i < retained(sections).len() implies !is_reserved(
            #[trigger] retained(sections)[i],
        ) by {
            if i < before.len() {
                assert(retained(sections)[i] == before[i]);
            }
        }
    }
}

/// What each of `payloads` holds.
pub open spec fn payload_views(payloads: Seq<Vec<u8>>) -> Seq<Seq<u8>> {
    payloads.map_values(|p: Vec<u8>| p@)
}

/// The places in `places`, as integers.
spec fn as_ints(places: Seq<usize>) -> Seq<int> {
    places.map_values(|at: usize| at as int)
}

/// Takes every reserved section out of `module` and hands out their
/// payloads, in order.
pub fn take_reserved_sections(module: &mut Module) -> (payloads: Vec<Vec<u8>>)
    ensures
        payload_views(payloads@) == harvested(custom_sections(*old(module))),
        custom_sections(*final(module)) == retained(custom_sections(*old(module))),
        same_but_custom_sections(*old(module), *final(module)),
{
    let ghost before = custom_sections(*module);
    let mut to_remove: Vec<usize> = Vec::new();
    let mut payloads: Vec<Vec<u8>> = Vec::new();
    let n = custom_count(module);
    let mut i: usize = 0;
    assert(before.take(0) =~= Seq::empty());
    assert(as_ints(to_remove@) =~= Seq::empty());
    assert(payload_views(payloads@) =~= Seq::empty());
    while i < n
        invariant
            n == before.len(),
            i <= n,
            emptied(custom_sections(*module), before),
            forall|j: int| i <= j < n ==> custom_sections(*module)[j] == before[j],
            as_ints(to_remove@) == reserved_places(before.take(i as int)),
            payload_views(payloads@) == harvested(before.take(i as int)),
            same_but_custom_sections(*old(module), *module),
        decreases n - i,
    {
        assert(before.take(i + 1).drop_last() =~= before.take(i as int));
        assert(before.take(i + 1).last() == before[i as int]);
        if same_text(custom_name(module, i), "__wasm_bindgen_unstable") {
            let ghost places = as_ints(to_remove@);
            let ghost taken = payload_views(payloads@);
            to_remove.push(i);
            let payload = take_custom_payload(module, i);
            payloads.push(payload);
            assert(as_ints(to_remove@) =~= places.push(i as int));
            assert(payload_views(payloads@) =~= taken.push(before[i as int].1));
        }
        i += 1;
    }
    assert(before.take(n as int) =~= before);
    let ghost emptied_sections = custom_sections(*module);
    let ghost places = as_ints(to_remove@);
    proof {
        lemma_emptied_keeps(emptied_sections, before);
        lemma_without_reserved_places(emptied_sections);
        lemma_reserved_places_ascend(emptied_sections);
    }
    let mut k: usize = to_remove.len();
    assert(places.take(k as int) =~= places);
    while k > 0
        invariant
            k <= to_remove.len(),
            places == as_ints(to_remove@),
            ascending_below(places, emptied_sections.len() as int),
            ascending_below(places.take(k as int), custom_sections(*module).len() as int),
            without(custom_sections(*module), places.take(k as int)) == retained(before),
            same_but_custom_sections(*old(module), *module),
        decreases k,
    {
        k -= 1;
        let at = to_remove[k];
        assert(places.take(k + 1).last() == at);
        assert(places.take(k + 1).drop_last() =~= places.take(k as int));
        remove_custom(module, at);
        assert(ascending_below(places.take(k as int), custom_sections(*module).len() as int)) by {
            assert forall|j: int| 0 <= j < k implies 0 <= #[trigger] places.take(k as int)[j]
                < custom_sections(*module).len() by {
                assert(places.take(k + 1)[j] < places.take(k + 1)[k as int]);
            }
        }
    }
    payloads
}

/// Takes the binding metadata out of `module`, for a build of the version
/// `version` that reads `schema`.
///
/// The reserved sections leave the module whether or not their payloads can
/// be read.
pub fn extract_programs_for(module: &mut Module, schema: &str, version: &str) -> (r: Result<
    Vec<Program>,
    BindgenError,
>)
    ensures
        custom_sections(*final(module)) == retained(custom_sections(*old(module))),
        same_but_custom_sections(*old(module), *final(module)),
        reports(
            r,
            payloads_outcome(harvested(custom_sections(*old(module))), schema@),
            version@,
        ),
{
    let ghost before = custom_sections(*module);
    let payloads = take_reserved_sections(module);
    let mut programs: Vec<Program> = Vec::new();
    let mut i: usize = 0;
    assert(payload_views(payloads@).take(0) =~= Seq::empty());
    assert(program_views(programs@) =~= Seq::empty());
    while i < payloads.len()
        invariant
            i <= payloads.len(),
            payload_views(payloads@) == harvested(before),
            before == custom_sections(*old(module)),
            custom_sections(*module) == retained(before),
            same_but_custom_sections(*old(module), *module),
            payloads_outcome(payload_views(payloads@).take(i as int), schema@) == Outcome::Programs(
                program_views(programs@),
            ),
        decreases payloads.len() - i,
    {
        let ghost found = program_views(programs@);
        assert(payload_views(payloads@).take(i + 1).drop_last() =~= payload_views(payloads@).take(
            i as int,
        ));
        assert(payload_views(payloads@).take(i + 1).last() == payloads[i as int]@);
        let mut more = match decode_payload(payloads[i].as_slice(), schema, version) {
            Ok(more) => more,
            Err(e) => {
                proof {
                    lemma_failure_ends_reading(payload_views(payloads@), i + 1, schema@);
                }
                return Err(e);
            },
        };
        let ghost added = program_views(more@);
        programs.append(&mut more);
        assert(program_views(programs@) =~= found + added);
        i += 1;
    }
    assert(payload_views(payloads@).take(i as int) =~= payload_views(payloads@));
    Ok(programs)
}

/// Once the first `upto` payloads come to a failure, all of them come to it.
proof fn lemma_failure_ends_reading(payloads: Seq<Seq<u8>>, upto: int, schema: Seq<char>)
    requires
        0 <= upto <= payloads.len(),
        !(payloads_outcome(payloads.take(upto), schema) is Programs),
    ensures
        payloads_outcome(payloads, schema) == payloads_outcome(payloads.take(upto), schema),
    decreases payloads.len() - upto,
{
    if upto < payloads.len() {
        assert(payloads.take(upto + 1).drop_last() =~= payloads.take(upto));
        lemma_failure_ends_reading(payloads, upto + 1, schema);
    } else {
        assert(payloads.take(upto) =~= payloads);
    }
}

/// Takes the binding metadata out of `module`.
///
/// The reserved sections leave the module whether or not their payloads can
/// be read, so that none is written back out.
pub fn extract_programs(module: &mut Module) -> (r: Result<Vec<Program>, BindgenError>)
    ensures
        custom_sections(*final(module)) == retained(custom_sections(*old(module))),
        forall|i: int|
            0 <= i < custom_sections(*final(module)).len() ==> !is_reserved(
                #[trigger] custom_sections(*final(module))[i],
            ),
        same_but_custom_sections(*old(module), *final(module)),
        reports_for_this_build(
            r,
            payloads_outcome(harvested(custom_sections(*old(module))), schema_version_text()),
        ),
{
    proof {
        lemma_retained_holds_no_reserved(custom_sections(*module));
    }
    let version = tool_version();
    extract_programs_for(module, schema_version(), version.as_str())
}

/// Header and data frames, pair after pair, as one payload.
pub open spec fn framed_pairs(pairs: Seq<(Seq<u8>, Seq<u8>)>) -> Seq<u8>
    decreases pairs.len(),
{
    if pairs.len() == 0 {
        Seq::empty()
    } else {
        framed(pairs.first().0) + framed(pairs.first().1) + framed_pairs(pairs.drop_first())
    }
}

/// Whether both frames of each pair fit a length prefix, and each header
/// names the schema that the build reads.
pub open spec fn readable_pairs(pairs: Seq<(Seq<u8>, Seq<u8>)>, schema: Seq<char>) -> bool {
    forall|i: int|
        0 <= i < pairs.len() ==> {
            &&& (#[trigger] pairs[i]).0.len() <= u32::MAX
            &&& pairs[i].1.len() <= u32::MAX
            &&& frame_verdict(pairs[i].0, schema) is Match
        }
}

/// The round trip of frames. Pairs of a header and data, written as frames
/// one after the other, are read back as exactly that data, in order; no pair
/// at all is read as no program and no failure.
pub proof fn lemma_pairs_round_trip(pairs: Seq<(Seq<u8>, Seq<u8>)>, schema: Seq<char>)
    requires
        readable_pairs(pairs, schema),
    ensures
        payload_outcome(framed_pairs(pairs), schema) == Outcome::Programs(
            pairs.map_values(|pair: (Seq<u8>, Seq<u8>)| pair.1),
        ),
    decreases pairs.len(),
{
    let data = pairs.map_values(|pair: (Seq<u8>, Seq<u8>)| pair.1);
    if pairs.len() == 0 {
        assert(data =~= Seq::empty());
    } else {
        let header = pairs.first().0;
        let content = pairs.first().1;
        let others = pairs.drop_first();
        let tail = framed_pairs(others);
        let payload = framed_pairs(pairs);
        assert(readable_pairs(others, schema)) by {
            assert forall|i: int| 0 <= i < others.len() implies {
                &&& (#[trigger] others[i]).0.len() <= u32::MAX
                &&& others[i].1.len() <= u32::MAX
                &&& frame_verdict(others[i].0, schema) is Match
            } by {
                assert(others[i] == pairs[i + 1]);
            }
        }
        assert(payload =~= framed(header) + (framed(content) + tail));
        lemma_frame_round_trip(header, framed(content) + tail);
        lemma_frame_round_trip(content, tail);
        lemma_pairs_round_trip(others, schema);
        assert(data =~= seq![content] + others.map_values(|pair: (Seq<u8>, Seq<u8>)| pair.1));
    }
}

} // verus!
