//! How deep the expressions of a function nest.
//!
//! The parser keeps the code of a function as trees: an operator above the
//! operators whose values it takes, a block above what stands in it. What
//! walks these trees descends level by level, and a tree of ten thousand
//! levels takes more room than a walk is given. The test here follows the
//! code of each function as the parser does, with the depth of each value
//! in place of the value, and takes the function only where no tree grows
//! beyond a thousand levels. For that it reads the types, the imports and
//! the functions of the binary, by which a call knows how many values it
//! takes and gives.

use vstd::prelude::*;
use crate::binary::{
    locals_end, operator_end, read_operator, read_var, skip_locals, skip_var, skip_vars, var_end,
    var_value, vars_end, MAX_LOCALS,
};

verus! {

/// The most levels that the tree of an expression may have.
pub const MAX_DEPTH: usize = 1000;

/// The larger of two numbers.
pub open spec fn larger(a: usize, b: usize) -> usize {
    if a >= b {
        a
    } else {
        b
    }
}

/// The larger of two numbers.
pub fn larger_of(a: usize, b: usize) -> (m: usize)
    ensures
        m == larger(a, b),
{
    if a >= b {
        a
    } else {
        b
    }
}

/// One level more than `depth`, unless that is more than a tree may have.
pub open spec fn deeper(depth: usize) -> Option<usize> {
    if depth >= MAX_DEPTH {
        None
    } else {
        Some((depth + 1) as usize)
    }
}

/// One level more than `depth`, unless that is more than a tree may have.
pub fn one_deeper(depth: usize) -> (r: Option<usize>)
    ensures
        r == deeper(depth),
{
    if depth >= MAX_DEPTH {
        None
    } else {
        Some(depth + 1)
    }
}

/// Where the payload of the first section of the kind `id` starts and ends,
/// among the sections from `at` on.
pub open spec fn find_section(bytes: Seq<u8>, at: int, id: u8) -> Option<(int, int)>
    decreases bytes.len() - at,
{
    if at < 0 || at >= bytes.len() {
        None
    } else {
        match var_end(bytes, at + 1, bytes.len() as int, 5) {
            None => None,
            Some(to) => {
                let end = to + var_value(bytes, at + 1, to);
                if end > bytes.len() || end <= at {
                    None
                } else if bytes[at] == id {
                    Some((to, end))
                } else {
                    find_section(bytes, end, id)
                }
            },
        }
    }
}

/// Where the payload of the first section of the kind `id` starts and ends.
pub fn locate_section(bytes: &[u8], id: u8) -> (r: Option<(usize, usize)>)
    ensures
        match find_section(bytes@, 8, id) {
            Some((start, end)) => r matches Some((from, to)) && from == start && to == end
                && from <= to <= bytes@.len(),
            None => r is None,
        },
{
    let n = bytes.len();
    let mut pos: usize = 8;
    while pos < n
        invariant
            n == bytes@.len(),
            8 <= pos,
            find_section(bytes@, 8, id) == find_section(bytes@, pos as int, id),
        decreases n - pos,
    {
        let (size, to) = match read_var(bytes, pos + 1, n) {
            Some(read) => read,
            None => {
                return None;
            },
        };
        if size > (n - to) as u64 {
            return None;
        }
        let end: usize = to + size as usize;
        if bytes[pos] == id {
            return Some((to, end));
        }
        pos = end;
    }
    None
}

/// The types from `at` on, `count` of them, behind those in `found`: of each,
/// how many parameters and how many results it has.
pub open spec fn types_from(
    bytes: Seq<u8>,
    at: int,
    end: int,
    count: int,
    found: Seq<(usize, usize)>,
) -> Option<Seq<(usize, usize)>>
    decreases count,
{
    if count <= 0 {
        Some(found)
    } else if at < 0 || at >= end || end > bytes.len() {
        None
    } else {
        match var_end(bytes, at + 1, end, 5) {
            None => None,
            Some(params) => {
                let p = var_value(bytes, at + 1, params);
                match var_end(bytes, params + p, end, 5) {
                    None => None,
                    Some(results) => {
                        let r = var_value(bytes, params + p, results);
                        if p > 1000 || r > 1 || results + r > end {
                            None
                        } else {
                            types_from(
                                bytes,
                                results + r,
                                end,
                                count - 1,
                                found.push((p as usize, r as usize)),
                            )
                        }
                    },
                }
            },
        }
    }
}

/// The types from `at` on, `count` of them.
pub fn read_types(bytes: &[u8], at: usize, end: usize, count: u64) -> (r: Option<
    Vec<(usize, usize)>,
>)
    requires
        end <= bytes@.len(),
    ensures
        match types_from(bytes@, at as int, end as int, count as int, Seq::empty()) {
            Some(types) => r matches Some(read) && read@ == types,
            None => r is None,
        },
{
    let mut found: Vec<(usize, usize)> = Vec::new();
    let mut pos: usize = at;
    let mut left: u64 = count;
    while left > 0
        invariant
            end <= bytes@.len(),
            types_from(bytes@, at as int, end as int, count as int, Seq::empty()) == types_from(
                bytes@,
                pos as int,
                end as int,
                left as int,
                found@,
            ),
        decreases left,
    {
        if pos >= end {
            return None;
        }
        let (p, params) = match read_var(bytes, pos + 1, end) {
            Some(read) => read,
            None => {
                return None;
            },
        };
        if p > 1000 || p > (end - params) as u64 {
            return None;
        }
        let (r, results) = match read_var(bytes, params + p as usize, end) {
            Some(read) => read,
            None => {
                return None;
            },
        };
        if r > 1 || r > (end - results) as u64 {
            return None;
        }
        found.push((p as usize, r as usize));
        pos = results + r as usize;
        left -= 1;
    }
    Some(found)
}

/// Where a name ends that starts at `at`: behind its bytes, which stand
/// behind their number.
pub open spec fn string_end(bytes: Seq<u8>, at: int, end: int) -> Option<int> {
    match var_end(bytes, at, end, 5) {
        None => None,
        Some(to) => if to + var_value(bytes, at, to) <= end {
            Some(to + var_value(bytes, at, to))
        } else {
            None
        },
    }
}

/// Where a name ends that starts at `at`.
pub fn skip_string(bytes: &[u8], at: usize, end: usize) -> (r: Option<usize>)
    requires
        end <= bytes@.len(),
    ensures
        match string_end(bytes@, at as int, end as int) {
            Some(to) => r == Some(to as usize) && at < to <= end,
            None => r is None,
        },
{
    let (len, to) = match read_var(bytes, at, end) {
        Some(read) => read,
        None => {
            return None;
        },
    };
    if len > (end - to) as u64 {
        return None;
    }
    Some(to + len as usize)
}

/// Where the limits of a table or a memory end that start at `at`: flags of
/// no more than `most`, the least size, and the greatest where the flags are
/// odd.
pub open spec fn limits_end(bytes: Seq<u8>, at: int, end: int, most: int) -> Option<int> {
    match var_end(bytes, at, end, 5) {
        None => None,
        Some(to) => if var_value(bytes, at, to) > most {
            None
        } else {
            match var_end(bytes, to, end, 5) {
                None => None,
                Some(least) => if var_value(bytes, at, to) % 2 == 1 {
                    var_end(bytes, least, end, 5)
                } else {
                    Some(least)
                },
            }
        },
    }
}

/// Where the limits of a table or a memory end that start at `at`.
pub fn skip_limits(bytes: &[u8], at: usize, end: usize, most: u64) -> (r: Option<usize>)
    requires
        end <= bytes@.len(),
    ensures
        match limits_end(bytes@, at as int, end as int, most as int) {
            Some(to) => r == Some(to as usize) && at < to <= end,
            None => r is None,
        },
{
    let (flags, to) = match read_var(bytes, at, end) {
        Some(read) => read,
        None => {
            return None;
        },
    };
    if flags > most {
        return None;
    }
    let least = match skip_var(bytes, to, end, 5) {
        Some(least) => least,
        None => {
            return None;
        },
    };
    if flags % 2 == 1 {
        skip_var(bytes, least, end, 5)
    } else {
        Some(least)
    }
}

/// Where the import ends that starts at `at`, and the type of the function
/// that it imports, if it imports a function.
pub open spec fn import_end(bytes: Seq<u8>, at: int, end: int) -> Option<(int, Option<usize>)> {
    match string_end(bytes, at, end) {
        None => None,
        Some(field) => match string_end(bytes, field, end) {
            None => None,
            Some(kind) => if kind >= end {
                None
            } else if bytes[kind] == 0 {
                match var_end(bytes, kind + 1, end, 5) {
                    None => None,
                    Some(to) => if var_value(bytes, kind + 1, to) > u32::MAX {
                        None
                    } else {
                        Some((to, Some(var_value(bytes, kind + 1, to) as usize)))
                    },
                }
            } else if bytes[kind] == 1 {
                match limits_end(bytes, kind + 2, end, 1) {
                    None => None,
                    Some(to) => Some((to, None)),
                }
            } else if bytes[kind] == 2 {
                match limits_end(bytes, kind + 1, end, 3) {
                    None => None,
                    Some(to) => Some((to, None)),
                }
            } else if bytes[kind] == 3 && kind + 3 <= end {
                Some((kind + 3, None))
            } else {
                None
            },
        },
    }
}

/// Where the import ends that starts at `at`, and the type of the function
/// that it imports.
pub fn read_import(bytes: &[u8], at: usize, end: usize) -> (r: Option<(usize, Option<usize>)>)
    requires
        end <= bytes@.len(),
    ensures
        match import_end(bytes@, at as int, end as int) {
            Some((to, ty)) => r == Some((to as usize, ty)) && at < to <= end,
            None => r is None,
        },
{
    let field = match skip_string(bytes, at, end) {
        Some(field) => field,
        None => {
            return None;
        },
    };
    let kind = match skip_string(bytes, field, end) {
        Some(kind) => kind,
        None => {
            return None;
        },
    };
    if kind >= end {
        return None;
    }
    let code = bytes[kind];
    if code == 0 {
        match read_var(bytes, kind + 1, end) {
            Some((ty, to)) => if ty > 0xffff_ffff {
                None
            } else {
                Some((to, Some(ty as usize)))
            },
            None => None,
        }
    } else if code == 1 {
        if end - kind < 2 {
            return None;
        }
        match skip_limits(bytes, kind + 2, end, 1) {
            Some(to) => Some((to, None)),
            None => None,
        }
    } else if code == 2 {
        match skip_limits(bytes, kind + 1, end, 3) {
            Some(to) => Some((to, None)),
            None => None,
        }
    } else if code == 3 && end - kind >= 3 {
        Some((kind + 3, None))
    } else {
        None
    }
}

/// The types of the functions that the imports from `at` on import, `count`
/// imports in all, behind those in `found`.
pub open spec fn imports_from(bytes: Seq<u8>, at: int, end: int, count: int, found: Seq<usize>) -> Option<
    Seq<usize>,
>
    decreases count,
{
    if count <= 0 {
        Some(found)
    } else {
        match import_end(bytes, at, end) {
            None => None,
            Some((next, ty)) => imports_from(
                bytes,
                next,
                end,
                count - 1,
                match ty {
                    Some(ty) => found.push(ty),
                    None => found,
                },
            ),
        }
    }
}

/// The types of the functions that the imports from `at` on import.
pub fn read_imports(bytes: &[u8], at: usize, end: usize, count: u64) -> (r: Option<Vec<usize>>)
    requires
        end <= bytes@.len(),
    ensures
        match imports_from(bytes@, at as int, end as int, count as int, Seq::empty()) {
            Some(types) => r matches Some(read) && read@ == types,
            None => r is None,
        },
{
    let mut found: Vec<usize> = Vec::new();
    let mut pos: usize = at;
    let mut left: u64 = count;
    while left > 0
        invariant
            end <= bytes@.len(),
            imports_from(bytes@, at as int, end as int, count as int, Seq::empty())
                == imports_from(bytes@, pos as int, end as int, left as int, found@),
        decreases left,
    {
        let (next, ty) = match read_import(bytes, pos, end) {
            Some(read) => read,
            None => {
                return None;
            },
        };
        match ty {
            Some(ty) => {
                found.push(ty);
            },
            None => {},
        }
        pos = next;
        left -= 1;
    }
    Some(found)
}

/// The types of the functions that are declared from `at` on, `count` of
/// them, behind those in `found`.
pub open spec fn declared_from(bytes: Seq<u8>, at: int, end: int, count: int, found: Seq<usize>) -> Option<
    Seq<usize>,
>
    decreases count,
{
    if count <= 0 {
        Some(found)
    } else {
        match var_end(bytes, at, end, 5) {
            None => None,
            Some(to) => if var_value(bytes, at, to) > u32::MAX {
                None
            } else {
                declared_from(
                    bytes,
                    to,
                    end,
                    count - 1,
                    found.push(var_value(bytes, at, to) as usize),
                )
            },
        }
    }
}

/// The types of the functions that are declared from `at` on, behind those
/// of the functions that are imported.
pub fn read_declared(bytes: &[u8], at: usize, end: usize, count: u64, imported: Vec<usize>) -> (r:
    Option<Vec<usize>>)
    requires
        end <= bytes@.len(),
    ensures
        match declared_from(bytes@, at as int, end as int, count as int, imported@) {
            Some(types) => r matches Some(read) && read@ == types,
            None => r is None,
        },
{
    let ghost given = imported@;
    let mut found = imported;
    let mut pos: usize = at;
    let mut left: u64 = count;
    while left > 0
        invariant
            end <= bytes@.len(),
            given == imported@,
            declared_from(bytes@, at as int, end as int, count as int, given) == declared_from(
                bytes@,
                pos as int,
                end as int,
                left as int,
                found@,
            ),
        decreases left,
    {
        let (ty, to) = match read_var(bytes, pos, end) {
            Some(read) => read,
            None => {
                return None;
            },
        };
        if ty > 0xffff_ffff {
            return None;
        }
        found.push(ty as usize);
        pos = to;
        left -= 1;
    }
    Some(found)
}

/// A block that is open while the code of a function is read.
#[derive(Clone, Copy, Debug, PartialEq, Eq, Structural)]
pub struct Frame {
    /// What opened it: 0 the function, 1 a block, 2 a loop, 3 a conditional,
    /// 4 the other branch of a conditional.
    pub kind: u8,
    /// How many values it leaves behind.
    pub results: usize,
    /// How many values there were when it was opened.
    pub base: usize,
    /// The depth of the deepest tree that stands in it.
    pub content: usize,
    /// The depth of the condition, for a conditional.
    pub condition: usize,
    /// The depth of the first branch, for the other branch of a conditional.
    pub first: usize,
    /// Whether the code has left it, so that what follows up to its end is
    /// never run and is kept in no tree.
    pub dead: bool,
}

/// The trees of a function while its code is read: the blocks that are open,
/// and for each value that waits to be taken twice the depth of its tree,
/// and one more where the tree has operators beside it that give no value.
pub struct Trees {
    pub frames: Seq<Frame>,
    pub stack: Seq<usize>,
}

/// The depth of the tree of a value that waits to be taken.
pub open spec fn level(slot: usize) -> usize {
    slot / 2
}

/// Whether the tree of a value has operators beside it that give no value.
pub open spec fn is_joined(slot: usize) -> bool {
    slot % 2 == 1
}

/// The greatest depth among the last `count` of `stack`.
pub open spec fn top_max(stack: Seq<usize>, count: int) -> usize
    decreases count,
{
    if count <= 0 || stack.len() == 0 {
        0
    } else {
        larger(level(stack.last()), top_max(stack.drop_last(), count - 1))
    }
}

/// The depth of the tree of a value once a tree of the depth `depth` that
/// gives no value is put beside it: both go under a fresh node, unless the
/// value has such a node already, which then takes the tree as well.
pub open spec fn joined(slot: usize, depth: usize) -> Option<usize> {
    if is_joined(slot) {
        match deeper(depth) {
            None => None,
            Some(beside) => Some(larger(level(slot), beside)),
        }
    } else {
        deeper(larger(level(slot), depth))
    }
}

/// The depth of the tree of a value once a tree that gives no value is put
/// beside it.
pub fn join(slot: usize, depth: usize) -> (r: Option<usize>)
    ensures
        r == joined(slot, depth),
        r matches Some(grown) ==> grown <= larger(MAX_DEPTH, level(slot)),
{
    if slot % 2 == 1 {
        match one_deeper(depth) {
            None => None,
            Some(beside) => Some(larger_of(slot / 2, beside)),
        }
    } else {
        one_deeper(larger_of(slot / 2, depth))
    }
}

/// The trees once a tree of the depth `depth` that gives no value is put
/// where it belongs: into the block, where no value waits in it, and else
/// beside the value that was last to come.
#[verifier::opaque]
pub open spec fn attached(trees: Trees, depth: usize) -> Option<Trees> {
    if trees.frames.len() == 0 {
        None
    } else if trees.stack.len() <= trees.frames.last().base {
        Some(
            Trees {
                frames: trees.frames.update(
                    trees.frames.len() - 1,
                    Frame {
                        content: larger(trees.frames.last().content, depth),
                        ..trees.frames.last()
                    },
                ),
                stack: trees.stack,
            },
        )
    } else {
        match joined(trees.stack.last(), depth) {
            None => None,
            Some(grown) => if grown > MAX_DEPTH {
                None
            } else {
                Some(
                    Trees {
                        frames: trees.frames,
                        stack: trees.stack.update(
                            trees.stack.len() - 1,
                            (2 * grown + 1) as usize,
                        ),
                    },
                )
            },
        }
    }
}

/// The greatest depth among the last `count` values of the block that was
/// opened last, and the trees without these values.
pub open spec fn popped(trees: Trees, count: usize) -> Option<(usize, Trees)> {
    if trees.frames.len() == 0 || trees.stack.len() < trees.frames.last().base + count {
        None
    } else {
        Some(
            (
                top_max(trees.stack, count as int),
                Trees {
                    frames: trees.frames,
                    stack: trees.stack.take(trees.stack.len() - count),
                },
            ),
        )
    }
}

/// The trees once a tree of the depth `depth` gives `results` values: one
/// value, or none.
#[verifier::opaque]
pub open spec fn yielded(trees: Trees, depth: usize, results: usize) -> Option<Trees> {
    if results == 0 {
        attached(trees, depth)
    } else if depth > MAX_DEPTH {
        None
    } else {
        Some(Trees { frames: trees.frames, stack: trees.stack.push((2 * depth) as usize) })
    }
}

/// The trees once an operator has taken `count` values and given `results`.
#[verifier::opaque]
pub open spec fn operated(trees: Trees, count: usize, results: usize) -> Option<Trees> {
    match popped(trees, count) {
        None => None,
        Some((deepest, rest)) => match deeper(deepest) {
            None => None,
            Some(depth) => yielded(rest, depth, results),
        },
    }
}

/// The trees once a block of the kind `kind` is opened.
#[verifier::opaque]
pub open spec fn opened(trees: Trees, kind: u8, results: usize, condition: usize) -> Option<Trees> {
    if trees.frames.len() >= MAX_DEPTH {
        None
    } else {
        Some(
            Trees {
                frames: trees.frames.push(
                    Frame {
                        kind,
                        results,
                        base: trees.stack.len() as usize,
                        content: 0,
                        condition,
                        first: 0,
                        dead: false,
                    },
                ),
                stack: trees.stack,
            },
        )
    }
}

/// The depth of what stands in the block that was opened last once its
/// results are taken into it, and the values as they were when it was
/// opened.
#[verifier::opaque]
pub open spec fn closed(trees: Trees) -> Option<(usize, Seq<usize>)> {
    if trees.frames.len() == 0 || trees.stack.len() < trees.frames.last().base {
        None
    } else if trees.frames.last().dead {
        Some((trees.frames.last().content, trees.stack.take(trees.frames.last().base as int)))
    } else if trees.stack.len() != trees.frames.last().base + trees.frames.last().results {
        None
    } else {
        Some(
            (
                larger(
                    trees.frames.last().content,
                    top_max(trees.stack, trees.frames.last().results as int),
                ),
                trees.stack.take(trees.frames.last().base as int),
            ),
        )
    }
}

/// The depth of the tree of a block whose content has the depth `content`:
/// for a conditional, the condition and both branches stand under one node.
#[verifier::opaque]
pub open spec fn block_depth(frame: Frame, content: usize) -> Option<usize> {
    match deeper(content) {
        None => None,
        Some(block) => if frame.kind == 3 {
            deeper(larger(frame.condition, block))
        } else if frame.kind == 4 {
            deeper(larger(frame.condition, larger(frame.first, block)))
        } else {
            Some(block)
        },
    }
}

/// The trees once the block that was opened last ends.
#[verifier::opaque]
pub open spec fn ended(trees: Trees) -> Option<Trees> {
    match closed(trees) {
        None => None,
        Some((content, stack)) => match block_depth(trees.frames.last(), content) {
            None => None,
            Some(depth) => if trees.frames.len() == 1 {
                Some(Trees { frames: trees.frames.drop_last(), stack })
            } else {
                yielded(
                    Trees { frames: trees.frames.drop_last(), stack },
                    depth,
                    trees.frames.last().results,
                )
            },
        },
    }
}

/// The trees once the first branch of a conditional ends and the other
/// begins.
#[verifier::opaque]
pub open spec fn turned(trees: Trees) -> Option<Trees> {
    match closed(trees) {
        None => None,
        Some((content, stack)) => if trees.frames.last().kind != 3 {
            None
        } else {
            match deeper(content) {
                None => None,
                Some(block) => Some(
                    Trees {
                        frames: trees.frames.update(
                            trees.frames.len() - 1,
                            Frame {
                                kind: 4,
                                content: 0,
                                first: block,
                                dead: false,
                                ..trees.frames.last()
                            },
                        ),
                        stack,
                    },
                ),
            }
        },
    }
}

/// The trees once an operator that takes `count` values leaves the block:
/// what is left of the values goes into the block, each under a node of its
/// own, and so does the operator.
#[verifier::opaque]
pub open spec fn left(trees: Trees, count: usize) -> Option<Trees> {
    match popped(trees, count) {
        None => None,
        Some((deepest, rest)) => match deeper(deepest) {
            None => None,
            Some(depth) => {
                let top = rest.frames.last();
                let waiting = rest.stack.len() - top.base;
                let dropped = if waiting > 0 {
                    deeper(top_max(rest.stack, waiting))
                } else {
                    Some(0usize)
                };
                match dropped {
                    None => None,
                    Some(dropped) => Some(
                        Trees {
                            frames: rest.frames.update(
                                rest.frames.len() - 1,
                                Frame {
                                    content: larger(top.content, larger(depth, dropped)),
                                    dead: true,
                                    ..top
                                },
                            ),
                            stack: rest.stack.take(top.base as int),
                        },
                    ),
                }
            },
        },
    }
}

/// How many values a branch takes along that leaves `level` blocks: those
/// that the block leaves behind, and none for a loop, which it starts again.
pub open spec fn branch_values(frames: Seq<Frame>, level: usize) -> Option<usize> {
    if level >= frames.len() {
        None
    } else if frames[frames.len() - 1 - level].kind == 2 {
        Some(0)
    } else {
        Some(frames[frames.len() - 1 - level].results)
    }
}

/// How many values an operator takes that neither opens nor ends nor leaves
/// a block and calls no function, and whether it gives a value. `second` is
/// the byte after `op`, by which the operators behind a prefix are told
/// apart.
#[verifier::opaque]
pub open spec fn values(op: u8, second: u8) -> Option<(usize, usize)> {
    if op == 0x20 || op == 0x23 || op == 0x3f || 0x41 <= op <= 0x44 {
        Some((0, 1))
    } else if op == 0x22 || 0x28 <= op <= 0x35 || op == 0x40 || op == 0x45 || op == 0x50 || 0x67
        <= op <= 0x69 || 0x79 <= op <= 0x7b || 0x8b <= op <= 0x91 || 0x99 <= op <= 0x9f || 0xa7
        <= op <= 0xc4 {
        Some((1, 1))
    } else if 0x46 <= op <= 0x4f || 0x51 <= op <= 0x66 || 0x6a <= op <= 0x78 || 0x7c <= op
        <= 0x8a || 0x92 <= op <= 0x98 || 0xa0 <= op <= 0xa6 {
        Some((2, 1))
    } else if op == 0x1b {
        Some((3, 1))
    } else if op == 0x1a || op == 0x21 || op == 0x24 {
        Some((1, 0))
    } else if 0x36 <= op <= 0x3e {
        Some((2, 0))
    } else if op == 0xfc {
        if second == 0x09 {
            Some((0, 0))
        } else if second == 0x08 || second == 0x0a || second == 0x0b {
            Some((3, 0))
        } else {
            None
        }
    } else if op == 0xfd {
        if second == 0x00 {
            Some((1, 1))
        } else if second == 0x01 {
            Some((2, 0))
        } else if second == 0x02 {
            Some((0, 1))
        } else {
            None
        }
    } else if op == 0xfe {
        if second == 0x00 || 0x1e <= second <= 0x47 {
            Some((2, 1))
        } else if second == 0x01 || second == 0x02 || 0x48 <= second <= 0x4e {
            Some((3, 1))
        } else if 0x10 <= second <= 0x16 {
            Some((1, 1))
        } else if 0x17 <= second <= 0x1d {
            Some((2, 0))
        } else {
            None
        }
    } else {
        None
    }
}

/// The index that follows the first byte of the operator at `at`.
pub open spec fn index_at(bytes: Seq<u8>, at: int, end: int) -> Option<usize> {
    match var_end(bytes, at + 1, end, 5) {
        None => None,
        Some(to) => if var_value(bytes, at + 1, to) > u32::MAX {
            None
        } else {
            Some(var_value(bytes, at + 1, to) as usize)
        },
    }
}

/// The last of the targets of the table of branches at `at`, which is the
/// one that is taken where no other is.
pub open spec fn last_target(bytes: Seq<u8>, at: int, end: int) -> Option<usize> {
    match var_end(bytes, at + 1, end, 5) {
        None => None,
        Some(to) => match vars_end(bytes, to, end, var_value(bytes, at + 1, to)) {
            None => None,
            Some(last) => index_at(bytes, last - 1, end),
        },
    }
}

/// How many parameters and results the type at `index` has.
pub open spec fn signature(types: Seq<(usize, usize)>, index: usize) -> Option<(usize, usize)> {
    if index < types.len() {
        Some(types[index as int])
    } else {
        None
    }
}

/// The trees once the operator at `at` is read that opens a block, a loop or
/// a conditional.
#[verifier::opaque]
pub open spec fn applied_opening(bytes: Seq<u8>, at: int, trees: Trees) -> Option<Trees> {
    let results: usize = if bytes[at + 1] == 0x40 {
        0
    } else {
        1
    };
    if bytes[at] == 0x04 {
        match popped(trees, 1) {
            None => None,
            Some((condition, rest)) => opened(rest, 3, results, condition),
        }
    } else {
        opened(
            trees,
            if bytes[at] == 0x02 {
                1u8
            } else {
                2u8
            },
            results,
            0,
        )
    }
}

/// The trees once the branch at `at` is read.
#[verifier::opaque]
pub open spec fn applied_branch(bytes: Seq<u8>, at: int, end: int, trees: Trees) -> Option<Trees> {
    let level = if bytes[at] == 0x0e {
        last_target(bytes, at, end)
    } else {
        index_at(bytes, at, end)
    };
    match level {
        None => None,
        Some(level) => match branch_values(trees.frames, level) {
            None => None,
            Some(count) => if count >= usize::MAX {
                None
            } else if bytes[at] == 0x0c {
                left(trees, count)
            } else if bytes[at] == 0x0d {
                operated(trees, (count + 1) as usize, count)
            } else {
                left(trees, (count + 1) as usize)
            },
        },
    }
}

/// The trees once the call at `at` is read.
#[verifier::opaque]
pub open spec fn applied_call(
    bytes: Seq<u8>,
    at: int,
    end: int,
    types: Seq<(usize, usize)>,
    functions: Seq<usize>,
    trees: Trees,
) -> Option<Trees> {
    match index_at(bytes, at, end) {
        None => None,
        Some(index) => if bytes[at] == 0x10 {
            if index >= functions.len() {
                None
            } else {
                match signature(types, functions[index as int]) {
                    None => None,
                    Some((params, results)) => operated(trees, params, results),
                }
            }
        } else {
            match signature(types, index) {
                None => None,
                Some((params, results)) => if params >= usize::MAX {
                    None
                } else {
                    operated(trees, (params + 1) as usize, results)
                },
            }
        },
    }
}

/// The trees once the operator at `at` is read, where the block that was
/// opened last is not left yet. `types` are the types of the binary, and
/// `functions` the type of each of its functions.
#[verifier::opaque]
pub open spec fn applied(
    bytes: Seq<u8>,
    at: int,
    end: int,
    types: Seq<(usize, usize)>,
    functions: Seq<usize>,
    trees: Trees,
) -> Option<Trees> {
    if at < 0 || at >= end || end > bytes.len() || trees.frames.len() == 0 {
        None
    } else if at + 1 >= end {
        applied_short(bytes[at], trees)
    } else if bytes[at] == 0x02 || bytes[at] == 0x03 || bytes[at] == 0x04 {
        applied_opening(bytes, at, trees)
    } else if bytes[at] == 0x0c || bytes[at] == 0x0d || bytes[at] == 0x0e {
        applied_branch(bytes, at, end, trees)
    } else if bytes[at] == 0x10 || bytes[at] == 0x11 {
        applied_call(bytes, at, end, types, functions, trees)
    } else {
        match values(bytes[at], bytes[at + 1]) {
            Some((count, results)) => operated(trees, count, results),
            None => applied_short(bytes[at], trees),
        }
    }
}

/// The trees once an operator of one byte is read that opens no block and
/// names nothing.
#[verifier::opaque]
pub open spec fn applied_short(op: u8, trees: Trees) -> Option<Trees> {
    if op == 0x00 {
        left(trees, 0)
    } else if op == 0x01 {
        Some(trees)
    } else if op == 0x05 {
        turned(trees)
    } else if op == 0x0b {
        ended(trees)
    } else if op == 0x0f {
        left(trees, trees.frames[0].results)
    } else {
        match values(op, 0) {
            Some((count, results)) => if op == 0xfc || op == 0xfd || op == 0xfe {
                None
            } else {
                operated(trees, count, results)
            },
            None => None,
        }
    }
}

/// Where the code that is never run ends, from `at` on: at the end of the
/// block that was left, or at the turn to its other branch, with `nested`
/// blocks opened since.
pub open spec fn dead_end(bytes: Seq<u8>, at: int, end: int, nested: int) -> Option<int>
    decreases end - at,
{
    if at < 0 || at >= end || end > bytes.len() {
        None
    } else if nested <= 0 && (bytes[at] == 0x0b || bytes[at] == 0x05) {
        Some(at)
    } else {
        match operator_end(bytes, at, end) {
            None => None,
            Some((next, change)) => if at < next <= end {
                dead_end(bytes, next, end, nested + change)
            } else {
                None
            },
        }
    }
}

/// Whether the code from `at` on builds no tree of more levels than a tree
/// may have.
pub open spec fn trees_ok(
    bytes: Seq<u8>,
    at: int,
    end: int,
    types: Seq<(usize, usize)>,
    functions: Seq<usize>,
    trees: Trees,
) -> bool
    decreases end - at,
{
    if trees.frames.len() == 0 {
        true
    } else if at < 0 || at >= end || end > bytes.len() {
        false
    } else {
        match operator_end(bytes, at, end) {
            None => false,
            Some((next, _)) => match applied(bytes, at, end, types, functions, trees) {
                None => false,
                Some(after) => {
                    let resume = if after.frames.len() > 0 && after.frames.last().dead {
                        dead_end(bytes, next, end, 0)
                    } else {
                        Some(next)
                    };
                    match resume {
                        None => false,
                        Some(resume) => if at < resume <= end {
                            trees_ok(bytes, resume, end, types, functions, after)
                        } else {
                            false
                        },
                    }
                },
            },
        }
    }
}

/// The trees that two vectors hold.
pub open spec fn trees_of(frames: Seq<Frame>, stack: Seq<usize>) -> Trees {
    Trees { frames, stack }
}

/// Whether two vectors hold what `wanted` says: the trees, if there are any.
pub open spec fn holds(done: bool, frames: Seq<Frame>, stack: Seq<usize>, wanted: Option<Trees>) -> bool {
    match wanted {
        Some(trees) => done && frames == trees.frames && stack == trees.stack,
        None => !done,
    }
}

/// The greatest depth among the last `count` of `stack`.
pub fn max_of_top(stack: &Vec<usize>, count: usize) -> (m: usize)
    requires
        count <= stack@.len(),
    ensures
        m == top_max(stack@, count as int),
{
    let n = stack.len();
    let mut m: usize = 0;
    let mut i: usize = 0;
    assert(stack@.take(n as int) =~= stack@);
    while i < count
        invariant
            n == stack@.len(),
            i <= count <= n,
            top_max(stack@, count as int) == larger(
                m,
                top_max(stack@.take(n - i), count - i),
            ),
        decreases count - i,
    {
        let ghost rest = stack@.take(n - i);
        assert(rest.last() == stack@[n - 1 - i]);
        assert(rest.drop_last() =~= stack@.take(n - i - 1));
        m = larger_of(m, stack[n - 1 - i] / 2);
        i += 1;
    }
    m
}

/// Puts a tree that gives no value where it belongs.
pub fn attach(frames: &mut Vec<Frame>, stack: &mut Vec<usize>, depth: usize) -> (done: bool)
    ensures
        holds(
            done,
            final(frames)@,
            final(stack)@,
            attached(trees_of(old(frames)@, old(stack)@), depth),
        ),
{
    proof {
        reveal(attached);
    }
    let n = frames.len();
    if n == 0 {
        return false;
    }
    let top = frames[n - 1];
    let h = stack.len();
    if h <= top.base {
        frames.set(n - 1, Frame { content: larger_of(top.content, depth), ..top });
        true
    } else {
        match join(stack[h - 1], depth) {
            None => false,
            Some(grown) => if grown > MAX_DEPTH {
                false
            } else {
                stack.set(h - 1, 2 * grown + 1);
                true
            },
        }
    }
}

/// Takes the last `count` values of the block that was opened last, and
/// gives the greatest of their depths.
pub fn pop_values(frames: &Vec<Frame>, stack: &mut Vec<usize>, count: usize) -> (r: Option<usize>)
    ensures
        match popped(trees_of(frames@, old(stack)@), count) {
            Some((deepest, rest)) => r == Some(deepest) && final(stack)@ == rest.stack,
            None => r is None,
        },
{
    let n = frames.len();
    if n == 0 {
        return None;
    }
    let base = frames[n - 1].base;
    let h = stack.len();
    if h < base || h - base < count {
        return None;
    }
    let deepest = max_of_top(stack, count);
    stack.truncate(h - count);
    Some(deepest)
}

/// Lets a tree give its values: one, or none.
pub fn yield_values(frames: &mut Vec<Frame>, stack: &mut Vec<usize>, depth: usize, results: usize) -> (done:
    bool)
    ensures
        holds(
            done,
            final(frames)@,
            final(stack)@,
            yielded(trees_of(old(frames)@, old(stack)@), depth, results),
        ),
{
    proof {
        reveal(yielded);
    }
    if results == 0 {
        attach(frames, stack, depth)
    } else if depth > MAX_DEPTH {
        false
    } else {
        stack.push(2 * depth);
        true
    }
}

/// Lets an operator take `count` values and give `results`.
pub fn operate(frames: &mut Vec<Frame>, stack: &mut Vec<usize>, count: usize, results: usize) -> (done:
    bool)
    ensures
        holds(
            done,
            final(frames)@,
            final(stack)@,
            operated(trees_of(old(frames)@, old(stack)@), count, results),
        ),
{
    proof {
        reveal(operated);
    }
    let deepest = match pop_values(frames, stack, count) {
        Some(deepest) => deepest,
        None => {
            return false;
        },
    };
    match one_deeper(deepest) {
        Some(depth) => yield_values(frames, stack, depth, results),
        None => false,
    }
}

/// Opens a block of the kind `kind`.
pub fn open_frame(frames: &mut Vec<Frame>, stack: &Vec<usize>, kind: u8, results: usize, condition: usize) -> (done:
    bool)
    ensures
        match opened(trees_of(old(frames)@, stack@), kind, results, condition) {
            Some(trees) => done && final(frames)@ == trees.frames && stack@ == trees.stack,
            None => !done,
        },
{
    proof {
        reveal(opened);
    }
    if frames.len() >= MAX_DEPTH {
        return false;
    }
    frames.push(
        Frame { kind, results, base: stack.len(), content: 0, condition, first: 0, dead: false },
    );
    true
}

/// Takes the results of the block that was opened last into it, and gives
/// the depth of what stands in it.
pub fn close_frame(frames: &Vec<Frame>, stack: &mut Vec<usize>) -> (r: Option<usize>)
    ensures
        match closed(trees_of(frames@, old(stack)@)) {
            Some((content, rest)) => r == Some(content) && final(stack)@ == rest && frames@.len()
                > 0,
            None => r is None,
        },
{
    proof {
        reveal(closed);
    }
    let n = frames.len();
    if n == 0 {
        return None;
    }
    let top = frames[n - 1];
    let h = stack.len();
    if h < top.base {
        return None;
    }
    if top.dead {
        stack.truncate(top.base);
        return Some(top.content);
    }
    if h - top.base != top.results {
        return None;
    }
    let content = larger_of(top.content, max_of_top(stack, top.results));
    stack.truncate(top.base);
    Some(content)
}

/// The depth of the tree of a block whose content has the depth `content`.
pub fn depth_of_block(frame: Frame, content: usize) -> (r: Option<usize>)
    ensures
        r == block_depth(frame, content),
{
    proof {
        reveal(block_depth);
    }
    let block = match one_deeper(content) {
        Some(block) => block,
        None => {
            return None;
        },
    };
    if frame.kind == 3 {
        one_deeper(larger_of(frame.condition, block))
    } else if frame.kind == 4 {
        one_deeper(larger_of(frame.condition, larger_of(frame.first, block)))
    } else {
        Some(block)
    }
}

/// Ends the block that was opened last.
pub fn end_frame(frames: &mut Vec<Frame>, stack: &mut Vec<usize>) -> (done: bool)
    ensures
        holds(done, final(frames)@, final(stack)@, ended(trees_of(old(frames)@, old(stack)@))),
{
    proof {
        reveal(ended);
    }
    let content = match close_frame(frames, stack) {
        Some(content) => content,
        None => {
            return false;
        },
    };
    let n = frames.len();
    let top = frames[n - 1];
    let depth = match depth_of_block(top, content) {
        Some(depth) => depth,
        None => {
            return false;
        },
    };
    frames.truncate(n - 1);
    assert(frames@ =~= old(frames)@.drop_last());
    if n == 1 {
        true
    } else {
        yield_values(frames, stack, depth, top.results)
    }
}

/// Ends the first branch of a conditional and begins the other.
pub fn turn_frame(frames: &mut Vec<Frame>, stack: &mut Vec<usize>) -> (done: bool)
    ensures
        holds(done, final(frames)@, final(stack)@, turned(trees_of(old(frames)@, old(stack)@))),
{
    proof {
        reveal(turned);
    }
    let content = match close_frame(frames, stack) {
        Some(content) => content,
        None => {
            return false;
        },
    };
    let n = frames.len();
    let top = frames[n - 1];
    if top.kind != 3 {
        return false;
    }
    match one_deeper(content) {
        None => false,
        Some(block) => {
            frames.set(n - 1, Frame { kind: 4, content: 0, first: block, dead: false, ..top });
            true
        },
    }
}

/// Lets an operator that takes `count` values leave the block.
pub fn leave_frame(frames: &mut Vec<Frame>, stack: &mut Vec<usize>, count: usize) -> (done: bool)
    ensures
        holds(
            done,
            final(frames)@,
            final(stack)@,
            left(trees_of(old(frames)@, old(stack)@), count),
        ),
{
    proof {
        reveal(left);
    }
    let deepest = match pop_values(frames, stack, count) {
        Some(deepest) => deepest,
        None => {
            return false;
        },
    };
    let depth = match one_deeper(deepest) {
        Some(depth) => depth,
        None => {
            return false;
        },
    };
    let n = frames.len();
    let top = frames[n - 1];
    let h = stack.len();
    let dropped = if h > top.base {
        match one_deeper(max_of_top(stack, h - top.base)) {
            Some(dropped) => dropped,
            None => {
                return false;
            },
        }
    } else {
        0
    };
    frames.set(
        n - 1,
        Frame { content: larger_of(top.content, larger_of(depth, dropped)), dead: true, ..top },
    );
    stack.truncate(top.base);
    true
}

/// How many values a branch takes along that leaves `level` blocks.
pub fn count_branch_values(frames: &Vec<Frame>, level: usize) -> (r: Option<usize>)
    ensures
        r == branch_values(frames@, level),
{
    let n = frames.len();
    if level >= n {
        return None;
    }
    let frame = frames[n - 1 - level];
    if frame.kind == 2 {
        Some(0)
    } else {
        Some(frame.results)
    }
}

/// How many values an operator takes and gives that neither opens nor ends
/// nor leaves a block and calls no function.
pub fn operator_values(op: u8, second: u8) -> (r: Option<(usize, usize)>)
    ensures
        r == values(op, second),
{
    proof {
        reveal(values);
    }
    if op == 0x20 || op == 0x23 || op == 0x3f || (0x41 <= op && op <= 0x44) {
        Some((0, 1))
    } else if op == 0x22 || (0x28 <= op && op <= 0x35) || op == 0x40 || op == 0x45 || op == 0x50
        || (0x67 <= op && op <= 0x69) || (0x79 <= op && op <= 0x7b) || (0x8b <= op && op <= 0x91)
        || (0x99 <= op && op <= 0x9f) || (0xa7 <= op && op <= 0xc4) {
        Some((1, 1))
    } else if (0x46 <= op && op <= 0x4f) || (0x51 <= op && op <= 0x66) || (0x6a <= op && op
        <= 0x78) || (0x7c <= op && op <= 0x8a) || (0x92 <= op && op <= 0x98) || (0xa0 <= op && op
        <= 0xa6) {
        Some((2, 1))
    } else if op == 0x1b {
        Some((3, 1))
    } else if op == 0x1a || op == 0x21 || op == 0x24 {
        Some((1, 0))
    } else if 0x36 <= op && op <= 0x3e {
        Some((2, 0))
    } else if op == 0xfc {
        if second == 0x09 {
            Some((0, 0))
        } else if second == 0x08 || second == 0x0a || second == 0x0b {
            Some((3, 0))
        } else {
            None
        }
    } else if op == 0xfd {
        if second == 0x00 {
            Some((1, 1))
        } else if second == 0x01 {
            Some((2, 0))
        } else if second == 0x02 {
            Some((0, 1))
        } else {
            None
        }
    } else if op == 0xfe {
        if second == 0x00 || (0x1e <= second && second <= 0x47) {
            Some((2, 1))
        } else if second == 0x01 || second == 0x02 || (0x48 <= second && second <= 0x4e) {
            Some((3, 1))
        } else if 0x10 <= second && second <= 0x16 {
            Some((1, 1))
        } else if 0x17 <= second && second <= 0x1d {
            Some((2, 0))
        } else {
            None
        }
    } else {
        None
    }
}

/// The index that follows the first byte of the operator at `at`.
pub fn read_index(bytes: &[u8], at: usize, end: usize) -> (r: Option<usize>)
    requires
        at < end <= bytes@.len(),
    ensures
        r == index_at(bytes@, at as int, end as int),
{
    match read_var(bytes, at + 1, end) {
        Some((index, _)) => if index > 0xffff_ffff {
            None
        } else {
            Some(index as usize)
        },
        None => None,
    }
}

/// The last of the targets of the table of branches at `at`.
pub fn read_last_target(bytes: &[u8], at: usize, end: usize) -> (r: Option<usize>)
    requires
        at < end <= bytes@.len(),
    ensures
        r == last_target(bytes@, at as int, end as int),
{
    let (count, to) = match read_var(bytes, at + 1, end) {
        Some(read) => read,
        None => {
            return None;
        },
    };
    let last = match skip_vars(bytes, to, end, count) {
        Some(last) => last,
        None => {
            return None;
        },
    };
    match read_var(bytes, last, end) {
        Some((index, _)) => if index > 0xffff_ffff {
            None
        } else {
            Some(index as usize)
        },
        None => None,
    }
}

/// How many parameters and results the type at `index` has.
pub fn signature_of(types: &Vec<(usize, usize)>, index: usize) -> (r: Option<(usize, usize)>)
    ensures
        r == signature(types@, index),
{
    if index < types.len() {
        Some(types[index])
    } else {
        None
    }
}

/// Reads an operator of one byte that opens no block and names nothing.
pub fn apply_short(op: u8, frames: &mut Vec<Frame>, stack: &mut Vec<usize>) -> (done: bool)
    requires
        old(frames)@.len() > 0,
    ensures
        holds(
            done,
            final(frames)@,
            final(stack)@,
            applied_short(op, trees_of(old(frames)@, old(stack)@)),
        ),
{
    proof {
        reveal(applied_short);
    }
    if op == 0x00 {
        leave_frame(frames, stack, 0)
    } else if op == 0x01 {
        true
    } else if op == 0x05 {
        turn_frame(frames, stack)
    } else if op == 0x0b {
        end_frame(frames, stack)
    } else if op == 0x0f {
        let results = frames[0].results;
        leave_frame(frames, stack, results)
    } else {
        match operator_values(op, 0) {
            Some((count, results)) => if op == 0xfc || op == 0xfd || op == 0xfe {
                false
            } else {
                operate(frames, stack, count, results)
            },
            None => false,
        }
    }
}

/// Reads the operator at `at` that opens a block, a loop or a conditional.
pub fn apply_opening(bytes: &[u8], at: usize, frames: &mut Vec<Frame>, stack: &mut Vec<usize>) -> (done:
    bool)
    requires
        at + 1 < bytes@.len(),
    ensures
        holds(
            done,
            final(frames)@,
            final(stack)@,
            applied_opening(bytes@, at as int, trees_of(old(frames)@, old(stack)@)),
        ),
{
    proof {
        reveal(applied_opening);
    }
    let n = bytes.len();
    let results: usize = if bytes[at + 1] == 0x40 {
        0
    } else {
        1
    };
    if bytes[at] == 0x04 {
        match pop_values(frames, stack, 1) {
            Some(condition) => open_frame(frames, stack, 3, results, condition),
            None => false,
        }
    } else {
        open_frame(
            frames,
            stack,
            if bytes[at] == 0x02 {
                1
            } else {
                2
            },
            results,
            0,
        )
    }
}

/// Reads the branch at `at`.
pub fn apply_branch(bytes: &[u8], at: usize, end: usize, frames: &mut Vec<Frame>, stack: &mut Vec<usize>) -> (done:
    bool)
    requires
        at < end <= bytes@.len(),
    ensures
        holds(
            done,
            final(frames)@,
            final(stack)@,
            applied_branch(bytes@, at as int, end as int, trees_of(old(frames)@, old(stack)@)),
        ),
{
    proof {
        reveal(applied_branch);
    }
    let op = bytes[at];
    let level = if op == 0x0e {
        read_last_target(bytes, at, end)
    } else {
        read_index(bytes, at, end)
    };
    let level = match level {
        Some(level) => level,
        None => {
            return false;
        },
    };
    let count = match count_branch_values(frames, level) {
        Some(count) => count,
        None => {
            return false;
        },
    };
    if count >= usize::MAX {
        false
    } else if op == 0x0c {
        leave_frame(frames, stack, count)
    } else if op == 0x0d {
        operate(frames, stack, count + 1, count)
    } else {
        leave_frame(frames, stack, count + 1)
    }
}

/// Reads the call at `at`.
pub fn apply_call(
    bytes: &[u8],
    at: usize,
    end: usize,
    types: &Vec<(usize, usize)>,
    functions: &Vec<usize>,
    frames: &mut Vec<Frame>,
    stack: &mut Vec<usize>,
) -> (done: bool)
    requires
        at < end <= bytes@.len(),
    ensures
        holds(
            done,
            final(frames)@,
            final(stack)@,
            applied_call(
                bytes@,
                at as int,
                end as int,
                types@,
                functions@,
                trees_of(old(frames)@, old(stack)@),
            ),
        ),
{
    proof {
        reveal(applied_call);
    }
    let index = match read_index(bytes, at, end) {
        Some(index) => index,
        None => {
            return false;
        },
    };
    if bytes[at] == 0x10 {
        if index >= functions.len() {
            return false;
        }
        match signature_of(types, functions[index]) {
            Some((params, results)) => operate(frames, stack, params, results),
            None => false,
        }
    } else {
        match signature_of(types, index) {
            Some((params, results)) => if params >= usize::MAX {
                false
            } else {
                operate(frames, stack, params + 1, results)
            },
            None => false,
        }
    }
}

/// Reads the operator at `at`, where the block that was opened last is not
/// left yet.
pub fn apply(
    bytes: &[u8],
    at: usize,
    end: usize,
    types: &Vec<(usize, usize)>,
    functions: &Vec<usize>,
    frames: &mut Vec<Frame>,
    stack: &mut Vec<usize>,
) -> (done: bool)
    requires
        end <= bytes@.len(),
    ensures
        holds(
            done,
            final(frames)@,
            final(stack)@,
            applied(
                bytes@,
                at as int,
                end as int,
                types@,
                functions@,
                trees_of(old(frames)@, old(stack)@),
            ),
        ),
{
    proof {
        reveal(applied);
    }
    if at >= end || frames.len() == 0 {
        return false;
    }
    let op = bytes[at];
    if end - at < 2 {
        apply_short(op, frames, stack)
    } else if op == 0x02 || op == 0x03 || op == 0x04 {
        apply_opening(bytes, at, frames, stack)
    } else if op == 0x0c || op == 0x0d || op == 0x0e {
        apply_branch(bytes, at, end, frames, stack)
    } else if op == 0x10 || op == 0x11 {
        apply_call(bytes, at, end, types, functions, frames, stack)
    } else {
        match operator_values(op, bytes[at + 1]) {
            Some((count, results)) => operate(frames, stack, count, results),
            None => apply_short(op, frames, stack),
        }
    }
}

/// Where the code that is never run ends, from `at` on.
pub fn skip_dead(bytes: &[u8], at: usize, end: usize) -> (r: Option<usize>)
    requires
        end <= bytes@.len(),
    ensures
        match dead_end(bytes@, at as int, end as int, 0) {
            Some(to) => r == Some(to as usize) && at <= to < end,
            None => r is None,
        },
{
    let mut pos: usize = at;
    let mut nested: usize = 0;
    while pos < end
        invariant
            at <= pos,
            end <= bytes@.len(),
            nested <= pos - at,
            dead_end(bytes@, at as int, end as int, 0) == dead_end(
                bytes@,
                pos as int,
                end as int,
                nested as int,
            ),
        decreases end - pos,
    {
        if nested == 0 && (bytes[pos] == 0x0b || bytes[pos] == 0x05) {
            return Some(pos);
        }
        let (next, change) = match read_operator(bytes, pos, end) {
            Some(read) => read,
            None => {
                return None;
            },
        };
        if change == 1 {
            nested += 1;
        } else if change == -1 {
            if nested == 0 {
                proof {
                    assert(bytes@[pos as int] == 0x0b);
                }
                return Some(pos);
            }
            nested -= 1;
        }
        pos = next;
    }
    None
}

/// Whether the code from `at` on builds no tree of more levels than a tree
/// may have, for a function that gives `results` values.
pub fn check_trees(
    bytes: &[u8],
    at: usize,
    end: usize,
    types: &Vec<(usize, usize)>,
    functions: &Vec<usize>,
    results: usize,
) -> (ok: bool)
    requires
        end <= bytes@.len(),
    ensures
        ok == trees_ok(
            bytes@,
            at as int,
            end as int,
            types@,
            functions@,
            Trees {
                frames: seq![
                    Frame {
                        kind: 0,
                        results,
                        base: 0,
                        content: 0,
                        condition: 0,
                        first: 0,
                        dead: false,
                    },
                ],
                stack: Seq::empty(),
            },
        ),
{
    let mut frames: Vec<Frame> = Vec::new();
    frames.push(
        Frame { kind: 0, results, base: 0, content: 0, condition: 0, first: 0, dead: false },
    );
    let mut stack: Vec<usize> = Vec::new();
    let ghost start = Trees { frames: frames@, stack: stack@ };
    assert(start.frames =~= seq![
        Frame { kind: 0, results, base: 0, content: 0, condition: 0, first: 0, dead: false },
    ]);
    let mut pos: usize = at;
    while frames.len() > 0
        invariant
            end <= bytes@.len(),
            start == (Trees {
                frames: seq![
                    Frame {
                        kind: 0,
                        results,
                        base: 0,
                        content: 0,
                        condition: 0,
                        first: 0,
                        dead: false,
                    },
                ],
                stack: Seq::empty(),
            }),
            trees_ok(bytes@, at as int, end as int, types@, functions@, start) == trees_ok(
                bytes@,
                pos as int,
                end as int,
                types@,
                functions@,
                trees_of(frames@, stack@),
            ),
        decreases end - pos,
    {
        if pos >= end {
            return false;
        }
        let (next, _) = match read_operator(bytes, pos, end) {
            Some(read) => read,
            None => {
                return false;
            },
        };
        if !apply(bytes, pos, end, types, functions, &mut frames, &mut stack) {
            return false;
        }
        let n = frames.len();
        if n > 0 && frames[n - 1].dead {
            match skip_dead(bytes, next, end) {
                Some(resume) => {
                    pos = resume;
                },
                None => {
                    return false;
                },
            }
        } else {
            pos = next;
        }
    }
    true
}

/// The trees of a function that gives `results` values, before its code is
/// read: the function is open, and no value waits.
pub open spec fn at_start(results: usize) -> Trees {
    Trees {
        frames: seq![
            Frame { kind: 0, results, base: 0, content: 0, condition: 0, first: 0, dead: false },
        ],
        stack: Seq::empty(),
    }
}

/// Whether the function at `index`, whose body stands between `at` and
/// `end`, builds no tree of more levels than a tree may have.
pub open spec fn function_trees_ok(
    bytes: Seq<u8>,
    at: int,
    end: int,
    types: Seq<(usize, usize)>,
    functions: Seq<usize>,
    index: int,
) -> bool {
    match var_end(bytes, at, end, 5) {
        None => false,
        Some(to) => match locals_end(
            bytes,
            to,
            end,
            var_value(bytes, at, to),
            MAX_LOCALS as int,
        ) {
            None => false,
            Some(code) => if 0 <= index < functions.len() {
                match signature(types, functions[index]) {
                    None => false,
                    Some((_, results)) => trees_ok(
                        bytes,
                        code,
                        end,
                        types,
                        functions,
                        at_start(results),
                    ),
                }
            } else {
                false
            },
        },
    }
}

/// Whether the `count` functions whose bodies follow each other from `at`
/// on, the first of them the function at `index`, build no tree of more
/// levels than a tree may have.
pub open spec fn bodies_trees_ok(
    bytes: Seq<u8>,
    at: int,
    end: int,
    count: int,
    types: Seq<(usize, usize)>,
    functions: Seq<usize>,
    index: int,
) -> bool
    decreases count,
{
    if count <= 0 {
        true
    } else {
        match var_end(bytes, at, end, 5) {
            None => false,
            Some(to) => {
                let next = to + var_value(bytes, at, to);
                next <= end && function_trees_ok(bytes, to, next, types, functions, index)
                    && bodies_trees_ok(bytes, next, end, count - 1, types, functions, index + 1)
            },
        }
    }
}

/// The types of a binary: of each, how many parameters and results it has.
pub open spec fn types_of(bytes: Seq<u8>) -> Option<Seq<(usize, usize)>> {
    match find_section(bytes, 8, 1) {
        None => Some(Seq::empty()),
        Some((at, end)) => match var_end(bytes, at, end, 5) {
            None => None,
            Some(to) => types_from(bytes, to, end, var_value(bytes, at, to), Seq::empty()),
        },
    }
}

/// The type of each function that a binary imports.
pub open spec fn imported_of(bytes: Seq<u8>) -> Option<Seq<usize>> {
    match find_section(bytes, 8, 2) {
        None => Some(Seq::empty()),
        Some((at, end)) => match var_end(bytes, at, end, 5) {
            None => None,
            Some(to) => imports_from(bytes, to, end, var_value(bytes, at, to), Seq::empty()),
        },
    }
}

/// The type of each function of a binary: of those that it imports, and
/// behind them of those that it declares.
pub open spec fn functions_of(bytes: Seq<u8>, imported: Seq<usize>) -> Option<Seq<usize>> {
    match find_section(bytes, 8, 3) {
        None => Some(imported),
        Some((at, end)) => match var_end(bytes, at, end, 5) {
            None => None,
            Some(to) => declared_from(bytes, to, end, var_value(bytes, at, to), imported),
        },
    }
}

/// Whether no function of a binary builds a tree of more levels than a tree
/// may have.
pub open spec fn depths_ok(bytes: Seq<u8>) -> bool {
    match find_section(bytes, 8, 10) {
        None => true,
        Some((at, end)) => match (types_of(bytes), imported_of(bytes)) {
            (Some(types), Some(imported)) => match functions_of(bytes, imported) {
                None => false,
                Some(functions) => match var_end(bytes, at, end, 5) {
                    None => false,
                    Some(to) => bodies_trees_ok(
                        bytes,
                        to,
                        end,
                        var_value(bytes, at, to),
                        types,
                        functions,
                        imported.len() as int,
                    ),
                },
            },
            _ => false,
        },
    }
}

/// Whether the function at `index` builds no tree of more levels than a
/// tree may have.
pub fn check_function_trees(
    bytes: &[u8],
    at: usize,
    end: usize,
    types: &Vec<(usize, usize)>,
    functions: &Vec<usize>,
    index: usize,
) -> (ok: bool)
    requires
        end <= bytes@.len(),
    ensures
        ok == function_trees_ok(bytes@, at as int, end as int, types@, functions@, index as int),
{
    let (count, to) = match read_var(bytes, at, end) {
        Some(read) => read,
        None => {
            return false;
        },
    };
    let code = match skip_locals(bytes, to, end, count) {
        Some(code) => code,
        None => {
            return false;
        },
    };
    if index >= functions.len() {
        return false;
    }
    match signature_of(types, functions[index]) {
        Some((_, results)) => check_trees(bytes, code, end, types, functions, results),
        None => false,
    }
}

/// Whether the functions whose bodies follow each other from `at` on build
/// no tree of more levels than a tree may have.
pub fn check_bodies_trees(
    bytes: &[u8],
    at: usize,
    end: usize,
    count: u64,
    types: &Vec<(usize, usize)>,
    functions: &Vec<usize>,
    index: usize,
) -> (ok: bool)
    requires
        end <= bytes@.len(),
    ensures
        ok == bodies_trees_ok(
            bytes@,
            at as int,
            end as int,
            count as int,
            types@,
            functions@,
            index as int,
        ),
{
    let mut pos: usize = at;
    let mut left: u64 = count;
    let mut current: usize = index;
    while left > 0
        invariant
            end <= bytes@.len(),
            bodies_trees_ok(
                bytes@,
                at as int,
                end as int,
                count as int,
                types@,
                functions@,
                index as int,
            ) == bodies_trees_ok(
                bytes@,
                pos as int,
                end as int,
                left as int,
                types@,
                functions@,
                current as int,
            ),
        decreases left,
    {
        let (size, to) = match read_var(bytes, pos, end) {
            Some(read) => read,
            None => {
                return false;
            },
        };
        if size > (end - to) as u64 {
            return false;
        }
        let next: usize = to + size as usize;
        if !check_function_trees(bytes, to, next, types, functions, current) {
            return false;
        }
        if current >= functions.len() {
            return false;
        }
        current += 1;
        pos = next;
        left -= 1;
    }
    true
}

/// The types of a binary.
pub fn read_types_of(bytes: &[u8]) -> (r: Option<Vec<(usize, usize)>>)
    ensures
        match types_of(bytes@) {
            Some(types) => r matches Some(read) && read@ == types,
            None => r is None,
        },
{
    match locate_section(bytes, 1) {
        None => Some(Vec::new()),
        Some((at, end)) => match read_var(bytes, at, end) {
            Some((count, to)) => read_types(bytes, to, end, count),
            None => None,
        },
    }
}

/// The type of each function that a binary imports.
pub fn read_imported_of(bytes: &[u8]) -> (r: Option<Vec<usize>>)
    ensures
        match imported_of(bytes@) {
            Some(types) => r matches Some(read) && read@ == types,
            None => r is None,
        },
{
    match locate_section(bytes, 2) {
        None => Some(Vec::new()),
        Some((at, end)) => match read_var(bytes, at, end) {
            Some((count, to)) => read_imports(bytes, to, end, count),
            None => None,
        },
    }
}

/// The type of each function of a binary.
pub fn read_functions_of(bytes: &[u8], imported: Vec<usize>) -> (r: Option<Vec<usize>>)
    ensures
        match functions_of(bytes@, imported@) {
            Some(types) => r matches Some(read) && read@ == types,
            None => r is None,
        },
{
    match locate_section(bytes, 3) {
        None => Some(imported),
        Some((at, end)) => match read_var(bytes, at, end) {
            Some((count, to)) => read_declared(bytes, to, end, count, imported),
            None => None,
        },
    }
}

/// Whether no function of a binary builds a tree of more levels than a tree
/// may have.
pub fn check_depths(bytes: &[u8]) -> (ok: bool)
    ensures
        ok == depths_ok(bytes@),
{
    let (at, end) = match locate_section(bytes, 10) {
        Some(found) => found,
        None => {
            return true;
        },
    };
    let types = match read_types_of(bytes) {
        Some(types) => types,
        None => {
            return false;
        },
    };
    let imported = match read_imported_of(bytes) {
        Some(imported) => imported,
        None => {
            return false;
        },
    };
    let first = imported.len();
    let functions = match read_functions_of(bytes, imported) {
        Some(functions) => functions,
        None => {
            return false;
        },
    };
    match read_var(bytes, at, end) {
        Some((count, to)) => check_bodies_trees(bytes, to, end, count, &types, &functions, first),
        None => false,
    }
}

} // verus!
