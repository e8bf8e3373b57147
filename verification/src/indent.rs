//! Indentation of generated text by its braces.
//!
//! The text is taken line by line. Each line loses the white space around it
//! and is shown at the depth that the braces before it have reached.

use vstd::prelude::*;
use crate::text::{chars_of, string_of};

verus! {

/// Whether `c` is white space, as Unicode lists it.
pub open spec fn is_space(c: char) -> bool {
    let u = c as u32;
    ||| 0x09 <= u <= 0x0d
    ||| u == 0x20
    ||| u == 0x85
    ||| u == 0xa0
    ||| u == 0x1680
    ||| 0x2000 <= u <= 0x200a
    ||| u == 0x2028
    ||| u == 0x2029
    ||| u == 0x202f
    ||| u == 0x205f
    ||| u == 0x3000
}

/// Whether `c` is white space, as Unicode lists it.
pub fn is_white_space(c: char) -> (space: bool)
    ensures
        space == is_space(c),
{
    let u: u32 = c as u32;
    (0x09 <= u && u <= 0x0d) || u == 0x20 || u == 0x85 || u == 0xa0 || u == 0x1680 || (0x2000 <= u
        && u <= 0x200a) || u == 0x2028 || u == 0x2029 || u == 0x202f || u == 0x205f || u == 0x3000
}

/// How many characters of `text` come before its first line break.
pub open spec fn line_end(text: Seq<char>) -> int
    decreases text.len(),
{
    if text.len() == 0 || text[0] == '\n' {
        0
    } else {
        1 + line_end(text.drop_first())
    }
}

/// How many white space characters `line` starts with.
pub open spec fn leading(line: Seq<char>) -> int
    decreases line.len(),
{
    if line.len() > 0 && is_space(line[0]) {
        1 + leading(line.drop_first())
    } else {
        0
    }
}

/// How many white space characters `line` ends with.
pub open spec fn trailing(line: Seq<char>) -> int
    decreases line.len(),
{
    if line.len() > 0 && is_space(line.last()) {
        1 + trailing(line.drop_last())
    } else {
        0
    }
}

/// `line` without the white space around it.
pub open spec fn trimmed(line: Seq<char>) -> Seq<char> {
    if leading(line) == line.len() {
        Seq::empty()
    } else {
        line.subrange(leading(line), line.len() - trailing(line))
    }
}

/// Whether a trimmed line closes a block: it starts with `}`, or it ends with
/// `}` and does not start with `*`.
pub open spec fn closes(line: Seq<char>) -> bool {
    line.len() > 0 && (line[0] == '}' || (line.last() == '}' && line[0] != '*'))
}

/// Whether a trimmed line opens a block: it ends with `{`.
pub open spec fn opens(line: Seq<char>) -> bool {
    line.len() > 0 && line.last() == '{'
}

/// Whether a trimmed line continues the one before: it starts with `:` or `?`.
pub open spec fn continues(line: Seq<char>) -> bool {
    line.len() > 0 && (line[0] == ':' || line[0] == '?')
}

/// The depth at which a trimmed line is shown, where `depth` is the depth
/// before it.
pub open spec fn depth_at(depth: nat, line: Seq<char>) -> nat {
    if closes(line) && depth > 0 {
        (depth - 1) as nat
    } else {
        depth
    }
}

/// The depth after a trimmed line, where `depth` is the depth before it.
pub open spec fn depth_after(depth: nat, line: Seq<char>) -> nat {
    if opens(line) {
        depth_at(depth, line) + 1
    } else {
        depth_at(depth, line)
    }
}

/// `units` times four spaces.
pub open spec fn padding(units: nat) -> Seq<char> {
    Seq::new(4 * units, |i: int| ' ')
}

/// A trimmed line as it is shown, without its line break: nothing for an
/// empty line, else the line behind its padding.
pub open spec fn shown(depth: nat, line: Seq<char>) -> Seq<char> {
    if line.len() == 0 {
        Seq::empty()
    } else if continues(line) {
        padding(depth_at(depth, line) + 1) + line
    } else {
        padding(depth_at(depth, line)) + line
    }
}

/// What follows the first line of `text`.
pub open spec fn after_line(text: Seq<char>) -> Seq<char> {
    if line_end(text) < text.len() {
        text.skip(line_end(text) + 1)
    } else {
        Seq::empty()
    }
}

/// `text` with each line trimmed and indented, from the depth `depth` on.
pub open spec fn rendered(text: Seq<char>, depth: nat) -> Seq<char>
    decreases text.len(),
    via rendered_decreases
{
    if text.len() == 0 {
        Seq::empty()
    } else {
        let line = trimmed(text.take(line_end(text)));
        shown(depth, line).push('\n') + rendered(after_line(text), depth_after(depth, line))
    }
}

#[via_fn]
proof fn rendered_decreases(text: Seq<char>, depth: nat) {
    lemma_line_end_bounds(text);
}

/// `text` with each line trimmed and indented.
pub open spec fn normalized(text: Seq<char>) -> Seq<char> {
    rendered(text, 0)
}

/// Whether `line` holds no line break.
spec fn unbroken(line: Seq<char>) -> bool {
    forall|i: int| 0 <= i < line.len() ==> line[i] != '\n'
}

/// Whether `line` neither starts nor ends with white space.
spec fn tight(line: Seq<char>) -> bool {
    line.len() > 0 ==> !is_space(line[0]) && !is_space(line.last())
}

/// The first line ends within the text, holds no line break, and is followed
/// by one unless the text ends.
proof fn lemma_line_end_bounds(text: Seq<char>)
    ensures
        0 <= line_end(text) <= text.len(),
        unbroken(text.take(line_end(text))),
        line_end(text) < text.len() ==> text[line_end(text)] == '\n',
    decreases text.len(),
{
    if text.len() == 0 || text[0] == '\n' {
    } else {
        lemma_line_end_bounds(text.drop_first());
        let rest = text.drop_first();
        assert forall|i: int| 0 <= i < line_end(text) implies text.take(line_end(text))[i]
            != '\n' by {
            if i > 0 {
                assert(rest.take(line_end(rest))[i - 1] != '\n');
            }
        }
    }
}

/// The first line ends at the first line break, or where the text ends.
proof fn lemma_line_end_is(text: Seq<char>, end: int)
    requires
        0 <= end <= text.len(),
        forall|i: int| 0 <= i < end ==> text[i] != '\n',
        end < text.len() ==> text[end] == '\n',
    ensures
        line_end(text) == end,
    decreases end,
{
    if end > 0 {
        lemma_line_end_is(text.drop_first(), end - 1);
    }
}

/// The leading white space is white space, and what follows it is not.
proof fn lemma_leading_bounds(line: Seq<char>)
    ensures
        0 <= leading(line) <= line.len(),
        forall|i: int| 0 <= i < leading(line) ==> is_space(line[i]),
        leading(line) < line.len() ==> !is_space(line[leading(line)]),
    decreases line.len(),
{
    if line.len() > 0 && is_space(line[0]) {
        let rest = line.drop_first();
        lemma_leading_bounds(rest);
        assert forall|i: int| 0 <= i < leading(line) implies is_space(line[i]) by {
            if i > 0 {
                assert(is_space(rest[i - 1]));
            }
        }
    }
}

/// The trailing white space is white space, and what stands before it is not.
proof fn lemma_trailing_bounds(line: Seq<char>)
    ensures
        0 <= trailing(line) <= line.len(),
        forall|i: int| line.len() - trailing(line) <= i < line.len() ==> is_space(line[i]),
        trailing(line) < line.len() ==> !is_space(line[line.len() - trailing(line) - 1]),
    decreases line.len(),
{
    if line.len() > 0 && is_space(line.last()) {
        let rest = line.drop_last();
        lemma_trailing_bounds(rest);
        assert forall|i: int| line.len() - trailing(line) <= i < line.len() implies is_space(
            line[i],
        ) by {
            if i < line.len() - 1 {
                assert(is_space(rest[i]));
            }
        }
    }
}

/// The leading white space ends at the first character that is none.
proof fn lemma_leading_is(line: Seq<char>, count: int)
    requires
        0 <= count <= line.len(),
        forall|i: int| 0 <= i < count ==> is_space(line[i]),
        count < line.len() ==> !is_space(line[count]),
    ensures
        leading(line) == count,
    decreases count,
{
    if count > 0 {
        lemma_leading_is(line.drop_first(), count - 1);
    }
}

/// The trailing white space begins after the last character that is none.
proof fn lemma_trailing_is(line: Seq<char>, count: int)
    requires
        0 <= count <= line.len(),
        forall|i: int| line.len() - count <= i < line.len() ==> is_space(line[i]),
        count < line.len() ==> !is_space(line[line.len() - count - 1]),
    ensures
        trailing(line) == count,
    decreases count,
{
    if count > 0 {
        lemma_trailing_is(line.drop_last(), count - 1);
    }
}

/// Trimming takes a line to the part between its first and its last
/// character that is no white space.
proof fn lemma_trimmed_is(line: Seq<char>, from: int, to: int)
    requires
        0 <= from <= to <= line.len(),
        forall|i: int| 0 <= i < from ==> is_space(line[i]),
        forall|i: int| to <= i < line.len() ==> is_space(line[i]),
        from < to ==> !is_space(line[from]) && !is_space(line[to - 1]),
        from == to ==> from == line.len(),
    ensures
        trimmed(line) == line.subrange(from, to),
{
    lemma_leading_is(line, from);
    if from < to {
        lemma_trailing_is(line, line.len() - to);
    }
}

/// A trimmed line neither starts nor ends with white space, and holds no line
/// break that the line did not hold.
proof fn lemma_trimmed_tight(line: Seq<char>)
    ensures
        tight(trimmed(line)),
        unbroken(line) ==> unbroken(trimmed(line)),
{
    lemma_leading_bounds(line);
    lemma_trailing_bounds(line);
    if leading(line) < line.len() {
        if trailing(line) >= line.len() - leading(line) {
            assert(is_space(line[leading(line)]));
        }
    }
}

/// Trimming a line as it is shown gives the line back.
proof fn lemma_trimmed_of_shown(depth: nat, line: Seq<char>)
    requires
        tight(line),
    ensures
        trimmed(shown(depth, line)) == line,
{
    if line.len() > 0 {
        let text = shown(depth, line);
        let pad = text.len() - line.len();
        assert(is_space(' '));
        assert forall|i: int| 0 <= i < pad implies is_space(text[i]) by {}
        assert(text[pad] == line[0]);
        assert(text[text.len() - 1] == line.last());
        lemma_trimmed_is(text, pad, text.len() as int);
        assert(text.subrange(pad, text.len() as int) =~= line);
    }
}

/// Indenting what is indented already changes nothing.
pub proof fn lemma_rendered_idempotent(text: Seq<char>, depth: nat)
    ensures
        rendered(rendered(text, depth), depth) == rendered(text, depth),
    decreases text.len(),
{
    if text.len() > 0 {
        lemma_line_end_bounds(text);
        let raw = text.take(line_end(text));
        let line = trimmed(raw);
        lemma_trimmed_tight(raw);
        let first = shown(depth, line);
        let next = depth_after(depth, line);
        let tail = rendered(after_line(text), next);
        let once = rendered(text, depth);
        assert(once == first.push('\n') + tail);
        assert(unbroken(first));
        assert forall|i: int| 0 <= i < first.len() implies once[i] != '\n' by {
            assert(once[i] == first[i]);
        }
        assert(once[first.len() as int] == '\n');
        lemma_line_end_is(once, first.len() as int);
        assert(once.take(first.len() as int) =~= first);
        assert(after_line(once) =~= tail);
        lemma_trimmed_of_shown(depth, line);
        lemma_rendered_idempotent(after_line(text), next);
    }
}

/// Normalizing twice gives what normalizing once gives.
pub proof fn lemma_normalized_idempotent(text: Seq<char>)
    ensures
        normalized(normalized(text)) == normalized(text),
{
    lemma_rendered_idempotent(text, 0);
}

/// A line that ends with `{` and the line after it that starts with `}` are
/// shown at one depth: the closing line stands behind the padding of the
/// depth at which the opening line is shown, and so does the opening line
/// unless it continues the line before it. Where the first does not close
/// a block and the second does not open one, the depth after the pair is the
/// depth before it.
pub proof fn lemma_brace_pair_balances(depth: nat, open: Seq<char>, close: Seq<char>)
    requires
        open.len() > 0 && open.last() == '{',
        close.len() > 0 && close[0] == '}',
    ensures
        depth_at(depth_after(depth, open), close) == depth_at(depth, open),
        shown(depth_after(depth, open), close) == padding(depth_at(depth, open)) + close,
        !continues(open) ==> shown(depth, open) == padding(depth_at(depth, open)) + open,
        !closes(open) && !opens(close) ==> depth_after(depth_after(depth, open), close) == depth,
{
}

/// Appends `units` times four spaces to `out`.
fn push_padding(out: &mut Vec<char>, units: usize)
    ensures
        final(out)@ == old(out)@ + padding(units as nat),
{
    let mut done: usize = 0;
    assert(out@ =~= old(out)@ + padding(0));
    while done < units
        invariant
            done <= units,
            out@ == old(out)@ + padding(done as nat),
        decreases units - done,
    {
        out.push(' ');
        out.push(' ');
        out.push(' ');
        out.push(' ');
        assert(out@ =~= old(out)@ + padding((done + 1) as nat));
        done += 1;
    }
}

/// Appends the characters of `text` from `from` up to `to` to `out`.
fn push_part(out: &mut Vec<char>, text: &[char], from: usize, to: usize)
    requires
        from <= to <= text@.len(),
    ensures
        final(out)@ == old(out)@ + text@.subrange(from as int, to as int),
{
    let mut at: usize = from;
    assert(out@ =~= old(out)@ + text@.subrange(from as int, from as int));
    while at < to
        invariant
            from <= at <= to <= text@.len(),
            out@ == old(out)@ + text@.subrange(from as int, at as int),
        decreases to - at,
    {
        out.push(text[at]);
        assert(out@ =~= old(out)@ + text@.subrange(from as int, at + 1));
        at += 1;
    }
}

/// Where the line that starts at `pos` ends: at the next line break, or at
/// the end of `text`.
fn find_line_end(text: &[char], pos: usize) -> (end: usize)
    requires
        pos <= text@.len(),
    ensures
        pos <= end <= text@.len(),
        end - pos == line_end(text@.skip(pos as int)),
{
    let n = text.len();
    let mut end: usize = pos;
    while end < n && text[end] != '\n'
        invariant
            n == text@.len(),
            pos <= end <= n,
            forall|i: int| pos <= i < end ==> text@[i] != '\n',
        decreases n - end,
    {
        end += 1;
    }
    proof {
        lemma_line_end_is(text@.skip(pos as int), end - pos);
    }
    end
}

/// Where the line between `pos` and `end` starts and ends once it is trimmed.
fn find_trimmed(text: &[char], pos: usize, end: usize) -> (part: (usize, usize))
    requires
        pos <= end <= text@.len(),
    ensures
        pos <= part.0 <= part.1 <= end,
        trimmed(text@.subrange(pos as int, end as int)) == text@.subrange(
            part.0 as int,
            part.1 as int,
        ),
{
    let mut from: usize = pos;
    while from < end && is_white_space(text[from])
        invariant
            pos <= from <= end <= text@.len(),
            forall|i: int| pos <= i < from ==> is_space(text@[i]),
        decreases end - from,
    {
        from += 1;
    }
    let mut to: usize = end;
    while to > from && is_white_space(text[to - 1])
        invariant
            pos <= from <= to <= end <= text@.len(),
            forall|i: int| to <= i < end ==> is_space(text@[i]),
        decreases to,
    {
        to -= 1;
    }
    proof {
        let raw = text@.subrange(pos as int, end as int);
        lemma_trimmed_is(raw, from - pos, to - pos);
        assert(raw.subrange(from - pos, to - pos) =~= text@.subrange(from as int, to as int));
    }
    (from, to)
}

/// Appends the trimmed line between `from` and `to` to `out` as it is shown
/// at `depth`, with its line break, and gives the depth after it.
fn push_line(out: &mut Vec<char>, text: &[char], from: usize, to: usize, depth: usize) -> (next:
    usize)
    requires
        from <= to <= text@.len(),
        depth < usize::MAX,
    ensures
        final(out)@ == old(out)@ + shown(
            depth as nat,
            text@.subrange(from as int, to as int),
        ).push('\n'),
        next == depth_after(depth as nat, text@.subrange(from as int, to as int)),
{
    let ghost line = text@.subrange(from as int, to as int);
    if from == to {
        out.push('\n');
        assert(out@ =~= old(out)@ + shown(depth as nat, line).push('\n'));
        return depth;
    }
    let first = text[from];
    let last = text[to - 1];
    assert(first == line[0] && last == line.last());
    let at: usize = if (first == '}' || (last == '}' && first != '*')) && depth > 0 {
        depth - 1
    } else {
        depth
    };
    if first == ':' || first == '?' {
        push_padding(out, at + 1);
    } else {
        push_padding(out, at);
    }
    push_part(out, text, from, to);
    out.push('\n');
    assert(out@ =~= old(out)@ + shown(depth as nat, line).push('\n'));
    if last == '{' {
        at + 1
    } else {
        at
    }
}

/// `text` with each line trimmed and indented by the braces before it.
pub fn normalize(text: &[char]) -> (out: Vec<char>)
    ensures
        out@ == normalized(text@),
{
    let n = text.len();
    let mut out: Vec<char> = Vec::new();
    let mut pos: usize = 0;
    let mut depth: usize = 0;
    assert(text@.skip(0) =~= text@);
    assert(out@ + rendered(text@, 0) =~= rendered(text@, 0));
    while pos < n
        invariant
            n == text@.len(),
            pos <= n,
            depth <= pos,
            normalized(text@) == out@ + rendered(text@.skip(pos as int), depth as nat),
        decreases n - pos,
    {
        let ghost rest = text@.skip(pos as int);
        let ghost before = out@;
        let ghost depth_before = depth as nat;
        let end = find_line_end(text, pos);
        let (from, to) = find_trimmed(text, pos, end);
        let ghost line = text@.subrange(from as int, to as int);
        depth = push_line(&mut out, text, from, to, depth);
        let next: usize = if end < n {
            end + 1
        } else {
            n
        };
        proof {
            assert(rest.take(end - pos) =~= text@.subrange(pos as int, end as int));
            assert(after_line(rest) =~= text@.skip(next as int));
            assert(before + rendered(rest, depth_before) =~= out@ + rendered(
                after_line(rest),
                depth as nat,
            ));
        }
        pos = next;
    }
    assert(text@.skip(n as int) =~= Seq::empty());
    assert(out@ + Seq::<char>::empty() =~= out@);
    out
}

/// Generated text with each line trimmed and indented by the braces before
/// it. Every line of the result ends with a line break.
pub fn reset_indentation(s: &str) -> (out: String)
    ensures
        out@ == normalized(s@),
{
    let chars = chars_of(s);
    let out = normalize(chars.as_slice());
    string_of(out.as_slice())
}

} // verus!
