//! What is asked of the bytes of a binary before they are handed to the
//! parser.
//!
//! The parser takes its input for the work of a compiler. On bytes that no
//! compiler writes it may stop the program, or fill the memory: on sections
//! that come twice or out of their order, on a table that is filled far
//! beyond any table's size, on a function with more locals than any engine
//! takes, and on code that goes on after the end of its function. The test
//! here walks the sections, the element and data segments, the names and
//! the code, and takes a binary only where none of that is found. It reads
//! the operators that the parser knows; what it cannot read, the parser
//! refuses as well. How deep the expressions of the code nest is looked at
//! apart, in the module `depth`.

use vstd::prelude::*;
use crate::depth::{check_depths, depths_ok};

verus! {

/// The most entries that a table may have.
pub const MAX_TABLE_ENTRIES: u64 = 10_000_000;

/// The most locals that a function may have.
pub const MAX_LOCALS: u64 = 50_000;

/// Where the variable-length number that starts at `at` ends: behind its
/// first byte below 0x80, which must be one of its first `limit` bytes and
/// stand before `end`.
pub open spec fn var_end(bytes: Seq<u8>, at: int, end: int, limit: int) -> Option<int>
    decreases limit,
{
    if limit <= 0 || at < 0 || at >= end || end > bytes.len() {
        None
    } else if bytes[at] < 0x80 {
        Some(at + 1)
    } else {
        var_end(bytes, at + 1, end, limit - 1)
    }
}

/// The seven bits that the byte at `at` adds to a variable-length number.
pub open spec fn digit(bytes: Seq<u8>, at: int) -> int {
    (bytes[at] % 0x80) as int
}

/// The number that up to five bytes from `at` up to `to` write, seven bits in
/// each, the lowest first.
pub open spec fn var_value(bytes: Seq<u8>, at: int, to: int) -> int {
    let n = to - at;
    (if n >= 1 {
        digit(bytes, at)
    } else {
        0
    }) + (if n >= 2 {
        digit(bytes, at + 1) * 0x80
    } else {
        0
    }) + (if n >= 3 {
        digit(bytes, at + 2) * 0x4000
    } else {
        0
    }) + (if n >= 4 {
        digit(bytes, at + 3) * 0x20_0000
    } else {
        0
    }) + (if n >= 5 {
        digit(bytes, at + 4) * 0x1000_0000
    } else {
        0
    })
}

/// The number that the bytes from `at` up to `to` write where the highest of
/// their bits is the sign.
pub open spec fn signed_var_value(bytes: Seq<u8>, at: int, to: int) -> int {
    let n = to - at;
    let half: int = if n <= 1 {
        0x40
    } else if n == 2 {
        0x2000
    } else if n == 3 {
        0x10_0000
    } else if n == 4 {
        0x800_0000
    } else {
        0x4_0000_0000
    };
    if var_value(bytes, at, to) >= half {
        var_value(bytes, at, to) - 2 * half
    } else {
        var_value(bytes, at, to)
    }
}

/// Where `count` variable-length numbers of up to five bytes end that start
/// at `at`.
pub open spec fn vars_end(bytes: Seq<u8>, at: int, end: int, count: int) -> Option<int>
    decreases count,
{
    if count <= 0 {
        if 0 <= at <= end <= bytes.len() {
            Some(at)
        } else {
            None
        }
    } else {
        match var_end(bytes, at, end, 5) {
            None => None,
            Some(to) => vars_end(bytes, to, end, count - 1),
        }
    }
}

/// What follows the first byte of an operator: so many variable-length
/// numbers of up to five bytes, and then so many bytes. `None` for a byte
/// that starts no operator that the parser knows, and for those that are read
/// in a way of their own.
pub open spec fn immediates(op: u8) -> Option<(u64, usize)> {
    if op == 0x00 || op == 0x01 || op == 0x05 || op == 0x0b || op == 0x0f || op == 0x1a || op
        == 0x1b || 0x45 <= op <= 0xc4 {
        Some((0, 0))
    } else if op == 0x02 || op == 0x03 || op == 0x04 || op == 0x3f || op == 0x40 {
        Some((0, 1))
    } else if op == 0x0c || op == 0x0d || op == 0x10 || 0x20 <= op <= 0x24 || op == 0x41 {
        Some((1, 0))
    } else if op == 0x11 {
        Some((1, 1))
    } else if 0x28 <= op <= 0x3e {
        Some((2, 0))
    } else if op == 0x43 {
        Some((0, 4))
    } else if op == 0x44 {
        Some((0, 8))
    } else {
        None
    }
}

/// What follows the second byte of an operator whose first byte is `prefix`:
/// the operations on all of a memory, on vectors, and the atomic ones.
pub open spec fn prefixed_immediates(prefix: u8, op: u8) -> Option<(u64, usize)> {
    if prefix == 0xfc {
        if op == 0x08 {
            Some((1, 1))
        } else if op == 0x09 {
            Some((1, 0))
        } else if op == 0x0a {
            Some((0, 2))
        } else if op == 0x0b {
            Some((0, 1))
        } else {
            None
        }
    } else if prefix == 0xfd {
        if op == 0x00 || op == 0x01 {
            Some((2, 0))
        } else if op == 0x02 {
            Some((0, 16))
        } else {
            None
        }
    } else if prefix == 0xfe {
        if op <= 0x02 || 0x10 <= op <= 0x4e {
            Some((2, 0))
        } else {
            None
        }
    } else {
        None
    }
}

/// Where what follows an operator ends, for numbers and bytes as `shape`
/// counts them, from `at` on.
pub open spec fn immediates_end(
    bytes: Seq<u8>,
    at: int,
    end: int,
    shape: Option<(u64, usize)>,
) -> Option<int> {
    match shape {
        None => None,
        Some((numbers, fixed)) => match vars_end(bytes, at, end, numbers as int) {
            None => None,
            Some(to) => if to + fixed <= end {
                Some(to + fixed)
            } else {
                None
            },
        },
    }
}

/// Where the operator that starts at `at` ends, and by how much it changes
/// the depth of the blocks that are open. `None` where no operator that the
/// parser knows stands there whole.
pub open spec fn operator_end(bytes: Seq<u8>, at: int, end: int) -> Option<(int, int)> {
    if at < 0 || at >= end || end > bytes.len() {
        None
    } else {
        let op = bytes[at];
        if op == 0x0e {
            match var_end(bytes, at + 1, end, 5) {
                None => None,
                Some(to) => match vars_end(
                    bytes,
                    to,
                    end,
                    var_value(bytes, at + 1, to) + 1,
                ) {
                    None => None,
                    Some(next) => Some((next, 0)),
                },
            }
        } else if op == 0x42 {
            match var_end(bytes, at + 1, end, 10) {
                None => None,
                Some(next) => Some((next, 0)),
            }
        } else if op == 0xfc || op == 0xfd || op == 0xfe {
            if at + 1 >= end {
                None
            } else {
                match immediates_end(bytes, at + 2, end, prefixed_immediates(op, bytes[at + 1])) {
                    None => None,
                    Some(next) => Some((next, 0)),
                }
            }
        } else {
            match immediates_end(bytes, at + 1, end, immediates(op)) {
                None => None,
                Some(next) => Some(
                    (
                        next,
                        if op == 0x02 || op == 0x03 || op == 0x04 {
                            1
                        } else if op == 0x0b {
                            -1
                        } else {
                            0
                        },
                    ),
                ),
            }
        }
    }
}

/// Whether the operators from `at` up to `end` can all be read, and close
/// the last of `depth` open blocks with the last of them and not before.
pub open spec fn operators_ok(bytes: Seq<u8>, at: int, end: int, depth: int) -> bool
    decreases end - at,
{
    if at >= end {
        depth == 0
    } else if depth <= 0 {
        false
    } else {
        match operator_end(bytes, at, end) {
            None => false,
            Some((next, change)) => if at < next <= end {
                operators_ok(bytes, next, end, depth + change)
            } else {
                false
            },
        }
    }
}

/// Where the declarations of locals end: `count` of them from `at` on, each
/// a number of locals and the byte of their type, for no more than `room`
/// locals in all.
pub open spec fn locals_end(bytes: Seq<u8>, at: int, end: int, count: int, room: int) -> Option<
    int,
>
    decreases count,
{
    if count <= 0 {
        if 0 <= at <= end <= bytes.len() {
            Some(at)
        } else {
            None
        }
    } else {
        match var_end(bytes, at, end, 5) {
            None => None,
            Some(to) => if var_value(bytes, at, to) > room || to >= end {
                None
            } else {
                locals_end(bytes, to + 1, end, count - 1, room - var_value(bytes, at, to))
            },
        }
    }
}

/// Whether the body of a function between `at` and `end` has no more locals
/// than a function may have, and code that ends with the function.
pub open spec fn function_ok(bytes: Seq<u8>, at: int, end: int) -> bool {
    match var_end(bytes, at, end, 5) {
        None => false,
        Some(to) => match locals_end(
            bytes,
            to,
            end,
            var_value(bytes, at, to),
            MAX_LOCALS as int,
        ) {
            None => false,
            Some(code) => operators_ok(bytes, code, end, 1),
        },
    }
}

/// Whether `count` bodies of functions follow each other from `at` on, each
/// behind its size, and each as it should be.
pub open spec fn functions_ok(bytes: Seq<u8>, at: int, end: int, count: int) -> bool
    decreases count,
{
    if count <= 0 {
        true
    } else {
        match var_end(bytes, at, end, 5) {
            None => false,
            Some(to) => {
                let next = to + var_value(bytes, at, to);
                next <= end && function_ok(bytes, to, next) && functions_ok(
                    bytes,
                    next,
                    end,
                    count - 1,
                )
            },
        }
    }
}

/// Where the offset of an element segment ends that starts at `at`: a
/// constant that is the place of an entry of a table, or a global.
pub open spec fn offset_end(bytes: Seq<u8>, at: int, end: int) -> Option<int> {
    if at < 0 || at >= end || end > bytes.len() {
        None
    } else if bytes[at] == 0x41 {
        match var_end(bytes, at + 1, end, 5) {
            None => None,
            Some(to) => if to < end && bytes[to] == 0x0b && 0 <= signed_var_value(
                bytes,
                at + 1,
                to,
            ) <= MAX_TABLE_ENTRIES {
                Some(to + 1)
            } else {
                None
            },
        }
    } else if bytes[at] == 0x23 {
        match var_end(bytes, at + 1, end, 5) {
            None => None,
            Some(to) => if to < end && bytes[to] == 0x0b {
                Some(to + 1)
            } else {
                None
            },
        }
    } else {
        None
    }
}

/// Where the element segment ends that starts at `at`: an active one, with
/// its table where it names one, its offset, and its functions.
pub open spec fn segment_end(bytes: Seq<u8>, at: int, end: int) -> Option<int> {
    match var_end(bytes, at, end, 5) {
        None => None,
        Some(to) => {
            let flags = var_value(bytes, at, to);
            let offset = if flags == 0 {
                Some(to)
            } else if flags == 2 {
                var_end(bytes, to, end, 5)
            } else {
                None
            };
            match offset {
                None => None,
                Some(offset) => match offset_end(bytes, offset, end) {
                    None => None,
                    Some(items) => match var_end(bytes, items, end, 5) {
                        None => None,
                        Some(first) => vars_end(bytes, first, end, var_value(bytes, items, first)),
                    },
                },
            }
        },
    }
}

/// Whether `count` element segments follow each other from `at` on.
pub open spec fn segments_ok(bytes: Seq<u8>, at: int, end: int, count: int) -> bool
    decreases count,
{
    if count <= 0 {
        true
    } else {
        match segment_end(bytes, at, end) {
            None => false,
            Some(next) => segments_ok(bytes, next, end, count - 1),
        }
    }
}

/// Where a constant expression ends that starts at `at`: one constant or
/// one global, and the end of the expression.
pub open spec fn constant_end(bytes: Seq<u8>, at: int, end: int) -> Option<int> {
    if at < 0 || at >= end || end > bytes.len() {
        None
    } else {
        let op = bytes[at];
        let value = if op == 0x41 || op == 0x23 {
            var_end(bytes, at + 1, end, 5)
        } else if op == 0x42 {
            var_end(bytes, at + 1, end, 10)
        } else if op == 0x43 {
            Some(at + 5)
        } else if op == 0x44 {
            Some(at + 9)
        } else {
            None
        };
        match value {
            None => None,
            Some(to) => if to < end && bytes[to] == 0x0b {
                Some(to + 1)
            } else {
                None
            },
        }
    }
}

/// Where the data segment ends that starts at `at`: a passive one, or an
/// active one with its memory where it names one and its offset; and then
/// its bytes behind their number.
pub open spec fn data_segment_end(bytes: Seq<u8>, at: int, end: int) -> Option<int> {
    match var_end(bytes, at, end, 5) {
        None => None,
        Some(to) => {
            let flags = var_value(bytes, at, to);
            let size = if flags == 1 {
                Some(to)
            } else if flags == 0 {
                constant_end(bytes, to, end)
            } else if flags == 2 {
                match var_end(bytes, to, end, 5) {
                    None => None,
                    Some(offset) => constant_end(bytes, offset, end),
                }
            } else {
                None
            };
            match size {
                None => None,
                Some(size) => match var_end(bytes, size, end, 5) {
                    None => None,
                    Some(data) => if data + var_value(bytes, size, data) <= end {
                        Some(data + var_value(bytes, size, data))
                    } else {
                        None
                    },
                },
            }
        },
    }
}

/// Whether `count` data segments follow each other from `at` on.
pub open spec fn data_segments_ok(bytes: Seq<u8>, at: int, end: int, count: int) -> bool
    decreases count,
{
    if count <= 0 {
        true
    } else {
        match data_segment_end(bytes, at, end) {
            None => false,
            Some(next) => data_segments_ok(bytes, next, end, count - 1),
        }
    }
}

/// Whether no part of a section of names, from `at` on, reaches past the
/// end of the section. Parts of a kind that the parser does not know, and
/// what follows them, are not read.
pub open spec fn names_ok(bytes: Seq<u8>, at: int, end: int) -> bool
    decreases end - at,
{
    if at < 0 || at >= end || end > bytes.len() || bytes[at] > 2 {
        true
    } else {
        match var_end(bytes, at + 1, end, 5) {
            None => true,
            Some(to) => {
                let next = to + var_value(bytes, at + 1, to);
                if at < next <= end {
                    names_ok(bytes, next, end)
                } else {
                    false
                }
            },
        }
    }
}

/// Whether a custom section between `at` and `end` is as it should be: one
/// that is called `name` is looked into.
pub open spec fn custom_ok(bytes: Seq<u8>, at: int, end: int) -> bool {
    match var_end(bytes, at, end, 5) {
        None => true,
        Some(to) => if var_value(bytes, at, to) == 4 && to + 4 <= end && bytes[to] == 0x6e
            && bytes[to + 1] == 0x61 && bytes[to + 2] == 0x6d && bytes[to + 3] == 0x65 {
            names_ok(bytes, to + 4, end)
        } else {
            true
        },
    }
}

/// Whether what a section holds between `at` and `end` is as it should be:
/// the element segments, the data segments and their count, the code and
/// the names are looked into, and the other sections are the parser's to
/// read.
pub open spec fn section_ok(id: u8, bytes: Seq<u8>, at: int, end: int) -> bool {
    if id == 9 {
        match var_end(bytes, at, end, 5) {
            None => false,
            Some(to) => segments_ok(bytes, to, end, var_value(bytes, at, to)),
        }
    } else if id == 10 {
        match var_end(bytes, at, end, 5) {
            None => false,
            Some(to) => functions_ok(bytes, to, end, var_value(bytes, at, to)),
        }
    } else if id == 11 {
        match var_end(bytes, at, end, 5) {
            None => false,
            Some(to) => data_segments_ok(bytes, to, end, var_value(bytes, at, to)),
        }
    } else if id == 12 {
        match var_end(bytes, at, end, 5) {
            None => false,
            Some(to) => var_value(bytes, at, to) <= bytes.len(),
        }
    } else if id == 0 {
        custom_ok(bytes, at, end)
    } else {
        true
    }
}

/// The place of a section in the order of the format.
pub open spec fn rank(id: u8) -> int {
    if id == 12 {
        10
    } else if id == 10 {
        11
    } else if id == 11 {
        12
    } else {
        id as int
    }
}

/// Whether the sections from `at` on are each whole and as it should be,
/// and, but for the custom ones, come in the order of the format after the
/// place `last`, none of them twice.
pub open spec fn sections_ok(bytes: Seq<u8>, at: int, last: int) -> bool
    decreases bytes.len() - at,
{
    if at < 0 {
        false
    } else if at >= bytes.len() {
        true
    } else {
        let id = bytes[at];
        match var_end(bytes, at + 1, bytes.len() as int, 5) {
            None => false,
            Some(to) => {
                let end = to + var_value(bytes, at + 1, to);
                if end > bytes.len() || end <= at {
                    false
                } else if id == 0 {
                    custom_ok(bytes, to, end) && sections_ok(bytes, end, last)
                } else if id > 12 || rank(id) <= last {
                    false
                } else {
                    section_ok(id, bytes, to, end) && sections_ok(bytes, end, rank(id))
                }
            },
        }
    }
}

/// Whether `bytes` are taken for a binary: they start as one does, their
/// sections are as they should be, and no function builds a tree of more
/// levels than a tree may have.
pub open spec fn is_well_formed(bytes: Seq<u8>) -> bool {
    &&& bytes.len() >= 8
    &&& bytes[0] == 0x00 && bytes[1] == 0x61 && bytes[2] == 0x73 && bytes[3] == 0x6d
    &&& bytes[4] == 0x01 && bytes[5] == 0x00 && bytes[6] == 0x00 && bytes[7] == 0x00
    &&& sections_ok(bytes, 8, 0)
    &&& depths_ok(bytes)
}

/// Reads the variable-length number of up to five bytes that starts at
/// `at`: the number, and where it ends.
pub fn read_var(bytes: &[u8], at: usize, end: usize) -> (r: Option<(u64, usize)>)
    requires
        end <= bytes@.len(),
    ensures
        match var_end(bytes@, at as int, end as int, 5) {
            Some(to) => r == Some((var_value(bytes@, at as int, to) as u64, to as usize)) && at
                < to <= end,
            None => r is None,
        },
{
    proof {
        reveal_with_fuel(var_end, 6);
    }
    if at >= end {
        return None;
    }
    let b0 = bytes[at];
    let v0: u64 = (b0 % 0x80) as u64;
    if b0 < 0x80 {
        return Some((v0, at + 1));
    }
    if at + 1 >= end {
        return None;
    }
    let b1 = bytes[at + 1];
    let v1: u64 = v0 + (b1 % 0x80) as u64 * 0x80;
    if b1 < 0x80 {
        return Some((v1, at + 2));
    }
    if at + 2 >= end {
        return None;
    }
    let b2 = bytes[at + 2];
    let v2: u64 = v1 + (b2 % 0x80) as u64 * 0x4000;
    if b2 < 0x80 {
        return Some((v2, at + 3));
    }
    if at + 3 >= end {
        return None;
    }
    let b3 = bytes[at + 3];
    let v3: u64 = v2 + (b3 % 0x80) as u64 * 0x20_0000;
    if b3 < 0x80 {
        return Some((v3, at + 4));
    }
    if at + 4 >= end {
        return None;
    }
    let b4 = bytes[at + 4];
    let v4: u64 = v3 + (b4 % 0x80) as u64 * 0x1000_0000;
    if b4 < 0x80 {
        return Some((v4, at + 5));
    }
    None
}

/// Where the variable-length number of up to `limit` bytes ends that starts
/// at `at`.
pub fn skip_var(bytes: &[u8], at: usize, end: usize, limit: usize) -> (r: Option<usize>)
    requires
        end <= bytes@.len(),
    ensures
        match var_end(bytes@, at as int, end as int, limit as int) {
            Some(to) => r == Some(to as usize) && at < to <= end,
            None => r is None,
        },
{
    let mut pos: usize = at;
    let mut left: usize = limit;
    while left > 0 && pos < end
        invariant
            end <= bytes@.len(),
            at <= pos,
            var_end(bytes@, at as int, end as int, limit as int) == var_end(
                bytes@,
                pos as int,
                end as int,
                left as int,
            ),
        decreases left,
    {
        if bytes[pos] < 0x80 {
            return Some(pos + 1);
        }
        pos += 1;
        left -= 1;
    }
    None
}

/// Where `count` variable-length numbers of up to five bytes end that start
/// at `at`.
pub fn skip_vars(bytes: &[u8], at: usize, end: usize, count: u64) -> (r: Option<usize>)
    requires
        end <= bytes@.len(),
    ensures
        match vars_end(bytes@, at as int, end as int, count as int) {
            Some(to) => r == Some(to as usize) && at <= to <= end,
            None => r is None,
        },
{
    let mut pos: usize = at;
    let mut left: u64 = count;
    while left > 0
        invariant
            end <= bytes@.len(),
            at <= pos,
            vars_end(bytes@, at as int, end as int, count as int) == vars_end(
                bytes@,
                pos as int,
                end as int,
                left as int,
            ),
        decreases left,
    {
        match skip_var(bytes, pos, end, 5) {
            None => {
                return None;
            },
            Some(to) => {
                pos = to;
            },
        }
        left -= 1;
    }
    if pos <= end {
        Some(pos)
    } else {
        None
    }
}

/// What follows the first byte of an operator.
pub fn operator_immediates(op: u8) -> (shape: Option<(u64, usize)>)
    ensures
        shape == immediates(op),
{
    if op == 0x00 || op == 0x01 || op == 0x05 || op == 0x0b || op == 0x0f || op == 0x1a || op
        == 0x1b || (0x45 <= op && op <= 0xc4) {
        Some((0, 0))
    } else if op == 0x02 || op == 0x03 || op == 0x04 || op == 0x3f || op == 0x40 {
        Some((0, 1))
    } else if op == 0x0c || op == 0x0d || op == 0x10 || (0x20 <= op && op <= 0x24) || op == 0x41 {
        Some((1, 0))
    } else if op == 0x11 {
        Some((1, 1))
    } else if 0x28 <= op && op <= 0x3e {
        Some((2, 0))
    } else if op == 0x43 {
        Some((0, 4))
    } else if op == 0x44 {
        Some((0, 8))
    } else {
        None
    }
}

/// What follows the second byte of an operator whose first byte is `prefix`.
pub fn prefixed_operator_immediates(prefix: u8, op: u8) -> (shape: Option<(u64, usize)>)
    ensures
        shape == prefixed_immediates(prefix, op),
{
    if prefix == 0xfc {
        if op == 0x08 {
            Some((1, 1))
        } else if op == 0x09 {
            Some((1, 0))
        } else if op == 0x0a {
            Some((0, 2))
        } else if op == 0x0b {
            Some((0, 1))
        } else {
            None
        }
    } else if prefix == 0xfd {
        if op == 0x00 || op == 0x01 {
            Some((2, 0))
        } else if op == 0x02 {
            Some((0, 16))
        } else {
            None
        }
    } else if prefix == 0xfe {
        if op <= 0x02 || (0x10 <= op && op <= 0x4e) {
            Some((2, 0))
        } else {
            None
        }
    } else {
        None
    }
}

/// Where what follows an operator ends, for numbers and bytes as `shape`
/// counts them, from `at` on.
pub fn skip_immediates(bytes: &[u8], at: usize, end: usize, shape: Option<(u64, usize)>) -> (r:
    Option<usize>)
    requires
        end <= bytes@.len(),
    ensures
        match immediates_end(bytes@, at as int, end as int, shape) {
            Some(to) => r == Some(to as usize) && at <= to <= end,
            None => r is None,
        },
{
    let (numbers, fixed) = match shape {
        Some(shape) => shape,
        None => {
            return None;
        },
    };
    let to = match skip_vars(bytes, at, end, numbers) {
        Some(to) => to,
        None => {
            return None;
        },
    };
    if fixed <= end - to {
        Some(to + fixed)
    } else {
        None
    }
}

/// Where the operator that starts at `at` ends, and by how much it changes
/// the depth of the blocks that are open.
pub fn read_operator(bytes: &[u8], at: usize, end: usize) -> (r: Option<(usize, i8)>)
    requires
        end <= bytes@.len(),
    ensures
        match operator_end(bytes@, at as int, end as int) {
            Some((next, change)) => r == Some((next as usize, change as i8)) && at < next <= end,
            None => r is None,
        },
{
    if at >= end {
        return None;
    }
    let op = bytes[at];
    if op == 0x0e {
        let (targets, to) = match read_var(bytes, at + 1, end) {
            Some(read) => read,
            None => {
                return None;
            },
        };
        match skip_vars(bytes, to, end, targets + 1) {
            Some(next) => Some((next, 0)),
            None => None,
        }
    } else if op == 0x42 {
        match skip_var(bytes, at + 1, end, 10) {
            Some(next) => Some((next, 0)),
            None => None,
        }
    } else if op == 0xfc || op == 0xfd || op == 0xfe {
        if at + 1 >= end {
            return None;
        }
        match skip_immediates(bytes, at + 2, end, prefixed_operator_immediates(op, bytes[at + 1])) {
            Some(next) => Some((next, 0)),
            None => None,
        }
    } else {
        match skip_immediates(bytes, at + 1, end, operator_immediates(op)) {
            Some(next) => Some(
                (
                    next,
                    if op == 0x02 || op == 0x03 || op == 0x04 {
                        1
                    } else if op == 0x0b {
                        -1
                    } else {
                        0
                    },
                ),
            ),
            None => None,
        }
    }
}

/// Whether the operators from `at` up to `end` can all be read, and close
/// the function with the last of them and not before.
pub fn check_operators(bytes: &[u8], at: usize, end: usize) -> (ok: bool)
    requires
        at <= end <= bytes@.len(),
    ensures
        ok == operators_ok(bytes@, at as int, end as int, 1),
{
    let mut pos: usize = at;
    let mut depth: usize = 1;
    while pos < end
        invariant
            at <= pos <= end <= bytes@.len(),
            depth <= pos - at + 1,
            operators_ok(bytes@, at as int, end as int, 1) == operators_ok(
                bytes@,
                pos as int,
                end as int,
                depth as int,
            ),
        decreases end - pos,
    {
        if depth == 0 {
            return false;
        }
        let (next, change) = match read_operator(bytes, pos, end) {
            Some(read) => read,
            None => {
                return false;
            },
        };
        if change == 1 {
            depth += 1;
        } else if change == -1 {
            depth -= 1;
        }
        pos = next;
    }
    depth == 0
}

/// Where the declarations of locals end: `count` of them from `at` on.
pub fn skip_locals(bytes: &[u8], at: usize, end: usize, count: u64) -> (r: Option<usize>)
    requires
        end <= bytes@.len(),
    ensures
        match locals_end(bytes@, at as int, end as int, count as int, MAX_LOCALS as int) {
            Some(to) => r == Some(to as usize) && at <= to <= end,
            None => r is None,
        },
{
    let mut pos: usize = at;
    let mut left: u64 = count;
    let mut room: u64 = MAX_LOCALS;
    while left > 0
        invariant
            end <= bytes@.len(),
            at <= pos,
            locals_end(bytes@, at as int, end as int, count as int, MAX_LOCALS as int)
                == locals_end(bytes@, pos as int, end as int, left as int, room as int),
        decreases left,
    {
        let (locals, to) = match read_var(bytes, pos, end) {
            Some(read) => read,
            None => {
                return None;
            },
        };
        if locals > room || to >= end {
            return None;
        }
        room -= locals;
        pos = to + 1;
        left -= 1;
    }
    if pos <= end {
        Some(pos)
    } else {
        None
    }
}

/// Whether the body of a function between `at` and `end` has no more locals
/// than a function may have, and code that ends with the function.
pub fn check_function(bytes: &[u8], at: usize, end: usize) -> (ok: bool)
    requires
        end <= bytes@.len(),
    ensures
        ok == function_ok(bytes@, at as int, end as int),
{
    let (count, to) = match read_var(bytes, at, end) {
        Some(read) => read,
        None => {
            return false;
        },
    };
    match skip_locals(bytes, to, end, count) {
        Some(code) => check_operators(bytes, code, end),
        None => false,
    }
}

/// Whether `count` bodies of functions follow each other from `at` on.
pub fn check_functions(bytes: &[u8], at: usize, end: usize, count: u64) -> (ok: bool)
    requires
        end <= bytes@.len(),
    ensures
        ok == functions_ok(bytes@, at as int, end as int, count as int),
{
    let mut pos: usize = at;
    let mut left: u64 = count;
    while left > 0
        invariant
            end <= bytes@.len(),
            functions_ok(bytes@, at as int, end as int, count as int) == functions_ok(
                bytes@,
                pos as int,
                end as int,
                left as int,
            ),
        decreases left,
    {
        let (size, to) = match read_var(bytes, pos, end) {
            Some(read) => read,
            None => {
                return false;
            },
        };
        if size > (end - to) as u64 {
            return false;
        }
        let next: usize = to + size as usize;
        if !check_function(bytes, to, next) {
            return false;
        }
        pos = next;
        left -= 1;
    }
    true
}

/// Where the offset of an element segment ends that starts at `at`.
pub fn skip_offset(bytes: &[u8], at: usize, end: usize) -> (r: Option<usize>)
    requires
        end <= bytes@.len(),
    ensures
        match offset_end(bytes@, at as int, end as int) {
            Some(to) => r == Some(to as usize) && at < to <= end,
            None => r is None,
        },
{
    if at >= end {
        return None;
    }
    let op = bytes[at];
    if op != 0x41 && op != 0x23 {
        return None;
    }
    let (value, to) = match read_var(bytes, at + 1, end) {
        Some(read) => read,
        None => {
            return None;
        },
    };
    if to >= end || bytes[to] != 0x0b {
        return None;
    }
    if op == 0x41 {
        let n = to - (at + 1);
        let half: u64 = if n <= 1 {
            0x40
        } else if n == 2 {
            0x2000
        } else if n == 3 {
            0x10_0000
        } else if n == 4 {
            0x800_0000
        } else {
            0x4_0000_0000
        };
        if value >= half || value > MAX_TABLE_ENTRIES {
            return None;
        }
    }
    Some(to + 1)
}

/// Where the element segment ends that starts at `at`.
pub fn skip_segment(bytes: &[u8], at: usize, end: usize) -> (r: Option<usize>)
    requires
        end <= bytes@.len(),
    ensures
        match segment_end(bytes@, at as int, end as int) {
            Some(to) => r == Some(to as usize) && at < to <= end,
            None => r is None,
        },
{
    let (flags, to) = match read_var(bytes, at, end) {
        Some(read) => read,
        None => {
            return None;
        },
    };
    let offset = if flags == 0 {
        to
    } else if flags == 2 {
        match skip_var(bytes, to, end, 5) {
            Some(offset) => offset,
            None => {
                return None;
            },
        }
    } else {
        return None;
    };
    let items = match skip_offset(bytes, offset, end) {
        Some(items) => items,
        None => {
            return None;
        },
    };
    let (count, first) = match read_var(bytes, items, end) {
        Some(read) => read,
        None => {
            return None;
        },
    };
    skip_vars(bytes, first, end, count)
}

/// Whether `count` element segments follow each other from `at` on.
pub fn check_segments(bytes: &[u8], at: usize, end: usize, count: u64) -> (ok: bool)
    requires
        end <= bytes@.len(),
    ensures
        ok == segments_ok(bytes@, at as int, end as int, count as int),
{
    let mut pos: usize = at;
    let mut left: u64 = count;
    while left > 0
        invariant
            end <= bytes@.len(),
            segments_ok(bytes@, at as int, end as int, count as int) == segments_ok(
                bytes@,
                pos as int,
                end as int,
                left as int,
            ),
        decreases left,
    {
        match skip_segment(bytes, pos, end) {
            Some(next) => {
                pos = next;
            },
            None => {
                return false;
            },
        }
        left -= 1;
    }
    true
}

/// Where a constant expression ends that starts at `at`.
pub fn skip_constant(bytes: &[u8], at: usize, end: usize) -> (r: Option<usize>)
    requires
        end <= bytes@.len(),
    ensures
        match constant_end(bytes@, at as int, end as int) {
            Some(to) => r == Some(to as usize) && at < to <= end,
            None => r is None,
        },
{
    if at >= end {
        return None;
    }
    let op = bytes[at];
    let to = if op == 0x41 || op == 0x23 {
        match skip_var(bytes, at + 1, end, 5) {
            Some(to) => to,
            None => {
                return None;
            },
        }
    } else if op == 0x42 {
        match skip_var(bytes, at + 1, end, 10) {
            Some(to) => to,
            None => {
                return None;
            },
        }
    } else if op == 0x43 {
        if end - at < 5 {
            return None;
        }
        at + 5
    } else if op == 0x44 {
        if end - at < 9 {
            return None;
        }
        at + 9
    } else {
        return None;
    };
    if to < end && bytes[to] == 0x0b {
        Some(to + 1)
    } else {
        None
    }
}

/// Where the data segment ends that starts at `at`.
pub fn skip_data_segment(bytes: &[u8], at: usize, end: usize) -> (r: Option<usize>)
    requires
        end <= bytes@.len(),
    ensures
        match data_segment_end(bytes@, at as int, end as int) {
            Some(to) => r == Some(to as usize) && at < to <= end,
            None => r is None,
        },
{
    let (flags, to) = match read_var(bytes, at, end) {
        Some(read) => read,
        None => {
            return None;
        },
    };
    let size = if flags == 1 {
        to
    } else if flags == 0 {
        match skip_constant(bytes, to, end) {
            Some(size) => size,
            None => {
                return None;
            },
        }
    } else if flags == 2 {
        let offset = match skip_var(bytes, to, end, 5) {
            Some(offset) => offset,
            None => {
                return None;
            },
        };
        match skip_constant(bytes, offset, end) {
            Some(size) => size,
            None => {
                return None;
            },
        }
    } else {
        return None;
    };
    let (len, data) = match read_var(bytes, size, end) {
        Some(read) => read,
        None => {
            return None;
        },
    };
    if len > (end - data) as u64 {
        return None;
    }
    Some(data + len as usize)
}

/// Whether `count` data segments follow each other from `at` on.
pub fn check_data_segments(bytes: &[u8], at: usize, end: usize, count: u64) -> (ok: bool)
    requires
        end <= bytes@.len(),
    ensures
        ok == data_segments_ok(bytes@, at as int, end as int, count as int),
{
    let mut pos: usize = at;
    let mut left: u64 = count;
    while left > 0
        invariant
            end <= bytes@.len(),
            data_segments_ok(bytes@, at as int, end as int, count as int) == data_segments_ok(
                bytes@,
                pos as int,
                end as int,
                left as int,
            ),
        decreases left,
    {
        match skip_data_segment(bytes, pos, end) {
            Some(next) => {
                pos = next;
            },
            None => {
                return false;
            },
        }
        left -= 1;
    }
    true
}

/// Whether no part of a section of names reaches past the end of the
/// section.
pub fn check_names(bytes: &[u8], at: usize, end: usize) -> (ok: bool)
    requires
        end <= bytes@.len(),
    ensures
        ok == names_ok(bytes@, at as int, end as int),
{
    let mut pos: usize = at;
    while pos < end
        invariant
            end <= bytes@.len(),
            names_ok(bytes@, at as int, end as int) == names_ok(bytes@, pos as int, end as int),
        decreases end - pos,
    {
        if bytes[pos] > 2 {
            return true;
        }
        let (size, to) = match read_var(bytes, pos + 1, end) {
            Some(read) => read,
            None => {
                return true;
            },
        };
        if size > (end - to) as u64 {
            return false;
        }
        pos = to + size as usize;
    }
    true
}

/// Whether a custom section between `at` and `end` is as it should be.
pub fn check_custom(bytes: &[u8], at: usize, end: usize) -> (ok: bool)
    requires
        end <= bytes@.len(),
    ensures
        ok == custom_ok(bytes@, at as int, end as int),
{
    let (len, to) = match read_var(bytes, at, end) {
        Some(read) => read,
        None => {
            return true;
        },
    };
    if len == 4 && end - to >= 4 && bytes[to] == 0x6e && bytes[to + 1] == 0x61 && bytes[to + 2]
        == 0x6d && bytes[to + 3] == 0x65 {
        check_names(bytes, to + 4, end)
    } else {
        true
    }
}

/// Whether what a section holds between `at` and `end` is as it should be.
pub fn check_section(id: u8, bytes: &[u8], at: usize, end: usize) -> (ok: bool)
    requires
        end <= bytes@.len(),
    ensures
        ok == section_ok(id, bytes@, at as int, end as int),
{
    if id == 0 {
        return check_custom(bytes, at, end);
    }
    if id != 9 && id != 10 && id != 11 && id != 12 {
        return true;
    }
    let (count, to) = match read_var(bytes, at, end) {
        Some(read) => read,
        None => {
            return false;
        },
    };
    if id == 9 {
        check_segments(bytes, to, end, count)
    } else if id == 10 {
        check_functions(bytes, to, end, count)
    } else if id == 11 {
        check_data_segments(bytes, to, end, count)
    } else {
        count <= bytes.len() as u64
    }
}

/// The place of a section in the order of the format.
pub fn section_rank(id: u8) -> (place: u8)
    ensures
        place == rank(id),
{
    if id == 12 {
        10
    } else if id == 10 {
        11
    } else if id == 11 {
        12
    } else {
        id
    }
}

/// Whether `bytes` are taken for a binary: they start as one does, their
/// sections come whole, in order and once, no table is filled beyond a
/// table's size, no function has more locals than a function may have, no
/// code goes on after the end of its function, and no expression nests
/// deeper than an expression may.
pub fn well_formed(bytes: &[u8]) -> (ok: bool)
    ensures
        ok == is_well_formed(bytes@),
{
    let n = bytes.len();
    if n < 8 {
        return false;
    }
    if bytes[0] != 0x00 || bytes[1] != 0x61 || bytes[2] != 0x73 || bytes[3] != 0x6d || bytes[4]
        != 0x01 || bytes[5] != 0x00 || bytes[6] != 0x00 || bytes[7] != 0x00 {
        return false;
    }
    let mut pos: usize = 8;
    let mut last: u8 = 0;
    while pos < n
        invariant
            n == bytes@.len(),
            8 <= pos <= n,
            sections_ok(bytes@, 8, 0) == sections_ok(bytes@, pos as int, last as int),
        decreases n - pos,
    {
        let id = bytes[pos];
        let (size, to) = match read_var(bytes, pos + 1, n) {
            Some(read) => read,
            None => {
                return false;
            },
        };
        if size > (n - to) as u64 {
            return false;
        }
        let end: usize = to + size as usize;
        if id == 0 {
            if !check_custom(bytes, to, end) {
                return false;
            }
        } else {
            if id > 12 || section_rank(id) <= last {
                return false;
            }
            if !check_section(id, bytes, to, end) {
                return false;
            }
            last = section_rank(id);
        }
        pos = end;
    }
    check_depths(bytes)
}

} // verus!
