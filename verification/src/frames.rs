//! Length-prefixed frames: a little-endian 32-bit length, then that many bytes.

use vstd::prelude::*;
use crate::error::BindgenError;

verus! {

/// The number of bytes in a length prefix.
pub const PREFIX_LEN: usize = 4;

/// The length that the first four bytes of `data` announce.
pub open spec fn announced_len(data: Seq<u8>) -> int
    recommends
        data.len() >= 4,
{
    data[0] + data[1] * 0x100 + data[2] * 0x1_0000 + data[3] * 0x100_0000
}

/// Whether `data` starts with a whole frame.
pub open spec fn starts_with_frame(data: Seq<u8>) -> bool {
    data.len() >= 4 && 4 + announced_len(data) <= data.len()
}

/// The first frame's contents.
pub open spec fn first_frame(data: Seq<u8>) -> Seq<u8>
    recommends
        starts_with_frame(data),
{
    data.subrange(4, 4 + announced_len(data))
}

/// What follows the first frame.
pub open spec fn after_first_frame(data: Seq<u8>) -> Seq<u8>
    recommends
        starts_with_frame(data),
{
    data.subrange(4 + announced_len(data), data.len() as int)
}

/// Pulls the next frame off the front of `data`.
///
/// Nothing left is `Ok(None)`. Otherwise the frame is handed out and `data`
/// moves past it, or the bytes do not hold a whole frame and stay as they are.
pub fn get_remaining<'a>(data: &mut &'a [u8]) -> (r: Result<Option<&'a [u8]>, BindgenError>)
    ensures
        old(data)@.len() == 0 ==> r == Ok::<Option<&[u8]>, BindgenError>(None) && final(data)@ == old(data)@,
        old(data)@.len() > 0 && !starts_with_frame(old(data)@) ==> r == Err::<Option<&[u8]>, BindgenError>(
            BindgenError::MalformedFrame,
        ) && final(data)@ == old(data)@,
        starts_with_frame(old(data)@) ==> r is Ok && r.unwrap() is Some && r.unwrap().unwrap()@
            == first_frame(old(data)@) && final(data)@ == after_first_frame(old(data)@),
{
    let bytes: &'a [u8] = *data;
    if bytes.len() == 0 {
        return Ok(None);
    }
    if bytes.len() < PREFIX_LEN {
        return Err(BindgenError::MalformedFrame);
    }
    let len: usize = bytes[0] as usize + bytes[1] as usize * 0x100 + bytes[2] as usize * 0x1_0000
        + bytes[3] as usize * 0x100_0000;
    if len > bytes.len() - PREFIX_LEN {
        return Err(BindgenError::MalformedFrame);
    }
    let frame = vstd::slice::slice_subrange(bytes, PREFIX_LEN, PREFIX_LEN + len);
    *data = vstd::slice::slice_subrange(bytes, PREFIX_LEN + len, bytes.len());
    Ok(Some(frame))
}

/// The length prefix of a frame of `len` bytes: 32 bits, least byte first.
pub open spec fn length_prefix(len: int) -> Seq<u8>
    recommends
        0 <= len <= u32::MAX,
{
    seq![
        (len % 0x100) as u8,
        (len / 0x100 % 0x100) as u8,
        (len / 0x1_0000 % 0x100) as u8,
        (len / 0x100_0000 % 0x100) as u8,
    ]
}

/// `content` as one frame.
pub open spec fn framed(content: Seq<u8>) -> Seq<u8>
    recommends
        content.len() <= u32::MAX,
{
    length_prefix(content.len() as int) + content
}

/// A frame written in front of `rest` is read back as it was, and `rest` is
/// what follows it.
pub proof fn lemma_frame_round_trip(content: Seq<u8>, rest: Seq<u8>)
    requires
        content.len() <= u32::MAX,
    ensures
        starts_with_frame(framed(content) + rest),
        first_frame(framed(content) + rest) == content,
        after_first_frame(framed(content) + rest) == rest,
{
    let data = framed(content) + rest;
    let len = content.len() as int;
    assert(data[0] == length_prefix(len)[0]);
    assert(data[1] == length_prefix(len)[1]);
    assert(data[2] == length_prefix(len)[2]);
    assert(data[3] == length_prefix(len)[3]);
    assert(announced_len(data) == len);
    assert(first_frame(data) =~= content);
    assert(after_first_frame(data) =~= rest);
}

/// Appends `content` to `out` as one frame.
pub fn push_frame(out: &mut Vec<u8>, content: &[u8])
    requires
        content@.len() <= u32::MAX,
    ensures
        final(out)@ == old(out)@ + framed(content@),
{
    let len: usize = content.len();
    out.push((len % 0x100) as u8);
    out.push((len / 0x100 % 0x100) as u8);
    out.push((len / 0x1_0000 % 0x100) as u8);
    out.push((len / 0x100_0000 % 0x100) as u8);
    let ghost prefixed = out@;
    assert(prefixed =~= old(out)@ + length_prefix(len as int));
    let mut i: usize = 0;
    while i < len
        invariant
            len == content@.len(),
            i <= len,
            out@ == prefixed + content@.take(i as int),
        decreases len - i,
    {
        out.push(content[i]);
        assert(content@.take(i + 1) =~= content@.take(i as int).push(content@[i as int]));
        i += 1;
    }
    assert(content@.take(len as int) =~= content@);
    assert(out@ =~= old(out)@ + framed(content@));
}

} // verus!
