//! Copying messages into caller-owned C string buffers.
use vstd::prelude::*;

verus! {

/// The contents of a C buffer `dst` after `src` was copied into it.
///
/// A source that does not fit is cut so that the last byte of the buffer is a
/// NUL. A source that fits is copied as it is, and what lies behind it stays.
pub open spec fn c_copy(dst: Seq<u8>, src: Seq<u8>) -> Seq<u8> {
    if dst.len() == 0 {
        dst
    } else if src.len() >= dst.len() {
        src.take(dst.len() - 1).push(0u8)
    } else {
        src + dst.skip(src.len() as int)
    }
}

/// Copies `src` into the C buffer `dst`, cutting it when it is too long.
///
/// Returns how many bytes of `dst` were written.
pub fn cstrncpy(dst: &mut [u8], src: &[u8]) -> (written: usize)
    ensures
        final(dst)@ == c_copy(old(dst)@, src@),
        written == if src@.len() < old(dst)@.len() { src@.len() } else { old(dst)@.len() },
{
    let dst_len: usize = dst.len();
    if dst_len == 0 {
        return 0;
    }
    let count: usize = if src.len() < dst_len { src.len() } else { dst_len };
    let mut i: usize = 0;
    while i < count
        invariant
            i <= count <= dst_len,
            count <= src@.len(),
            dst_len == dst@.len() == old(dst)@.len(),
            dst@ == src@.take(i as int) + old(dst)@.skip(i as int),
        decreases count - i,
    {
        dst[i] = src[i];
        i = i + 1;
        assert(dst@ =~= src@.take(i as int) + old(dst)@.skip(i as int));
    }
    if src.len() >= dst_len {
        dst[dst_len - 1] = 0;
        assert(dst@ =~= c_copy(old(dst)@, src@));
    } else {
        assert(src@.take(i as int) =~= src@);
    }
    count
}

/// Copying into a buffer never changes its size.
pub proof fn law_copy_keeps_size(dst: Seq<u8>, src: Seq<u8>)
    ensures
        c_copy(dst, src).len() == dst.len(),
{
}

/// A C string, one that ends in a NUL, is still terminated after it was copied
/// into a non-empty buffer, however small the buffer is.
pub proof fn law_copy_is_terminated(dst: Seq<u8>, src: Seq<u8>)
    requires
        dst.len() > 0,
        src.len() > 0,
        src.last() == 0,
    ensures
        c_copy(dst, src).contains(0u8),
{
    let out = c_copy(dst, src);
    let at: int = if src.len() >= dst.len() { dst.len() - 1 } else { src.len() - 1 };
    assert(out[at] == 0);
}

/// A C string that is not longer than the buffer is copied whole.
pub proof fn law_fitting_copy_is_whole(dst: Seq<u8>, src: Seq<u8>)
    requires
        0 < src.len() <= dst.len(),
        src.last() == 0,
    ensures
        c_copy(dst, src).take(src.len() as int) == src,
{
    assert(c_copy(dst, src).take(src.len() as int) =~= src);
}

/// Byte for byte: a source shorter than the buffer is followed by what the
/// buffer held there, and of any other source all but the last byte of the
/// buffer is kept, which becomes a NUL.
pub proof fn law_copy_byte_for_byte(dst: Seq<u8>, src: Seq<u8>, i: int)
    requires
        0 <= i < dst.len(),
    ensures
        src.len() < dst.len() && i < src.len() ==> c_copy(dst, src)[i] == src[i],
        src.len() < dst.len() && i >= src.len() ==> c_copy(dst, src)[i] == dst[i],
        src.len() >= dst.len() && i < dst.len() - 1 ==> c_copy(dst, src)[i] == src[i],
        src.len() >= dst.len() && i == dst.len() - 1 ==> c_copy(dst, src)[i] == 0,
{
}

} // verus!
