//! The byte region's encoding primitives: little-endian integers at
//! fixed positions, offset/length slots, and tail append.
//!
//! Every intra-buffer reference is a relative `(offset, length)` pair
//! stored little-endian at a statically known position, so it survives
//! relocation of the whole region.

use vstd::prelude::*;
use vstd::bytes::{
    lemma_auto_spec_u64_to_from_le_bytes, spec_u64_from_le_bytes, spec_u64_to_le_bytes,
    u64_from_le_bytes, u64_to_le_bytes,
};
use vstd::slice::slice_subrange;

verus! {

/// The integer stored little-endian in the 8 bytes at `pos`.
pub open spec fn u64_at(s: Seq<u8>, pos: int) -> u64
    recommends
        0 <= pos,
        pos + 8 <= s.len(),
{
    spec_u64_from_le_bytes(s.subrange(pos, pos + 8))
}

/// Offset half of the slot stored at `pos`: where the payload begins.
pub open spec fn slot_off(s: Seq<u8>, pos: int) -> u64 {
    u64_at(s, pos)
}

/// Length half of the slot stored at `pos`: how many payload bytes.
pub open spec fn slot_len(s: Seq<u8>, pos: int) -> u64 {
    u64_at(s, pos + 8)
}

/// An all-zero slot is the sentinel for "unset".
pub open spec fn slot_unset(s: Seq<u8>, pos: int) -> bool {
    slot_off(s, pos) == 0 && slot_len(s, pos) == 0
}

/// A slot is valid when unset, or when its payload range lies entirely
/// in the tail `[hsize, s.len())`.
pub open spec fn slot_valid(s: Seq<u8>, pos: int, hsize: nat) -> bool {
    ||| slot_unset(s, pos)
    ||| (hsize <= slot_off(s, pos) && slot_off(s, pos) + slot_len(s, pos) <= s.len())
}

/// The payload bytes the slot at `pos` points to (empty when unset).
pub open spec fn payload_at(s: Seq<u8>, pos: int) -> Seq<u8>
    recommends
        slot_off(s, pos) + slot_len(s, pos) <= s.len(),
{
    s.subrange(slot_off(s, pos) as int, slot_off(s, pos) + slot_len(s, pos))
}

/// Reads the little-endian integer at `pos`.
pub(crate) fn read_u64_at(buf: &Vec<u8>, pos: usize) -> (r: u64)
    requires
        pos + 8 <= buf@.len(),
    ensures
        r == u64_at(buf@, pos as int),
{
    let n = buf.len();
    let s = slice_subrange(buf.as_slice(), pos, pos + 8);
    u64_from_le_bytes(s)
}

/// Overwrites the 8 bytes at `pos` with `v` little-endian; every other
/// byte keeps its value.
pub(crate) fn write_u64_at(buf: &mut Vec<u8>, pos: usize, v: u64)
    requires
        pos + 8 <= old(buf)@.len(),
    ensures
        final(buf)@.len() == old(buf)@.len(),
        forall|i: int|
            0 <= i < final(buf)@.len() && !(pos <= i < pos + 8)
                ==> final(buf)@[i] == old(buf)@[i],
        u64_at(final(buf)@, pos as int) == v,
{
    proof {
        lemma_auto_spec_u64_to_from_le_bytes();
    }
    let n = buf.len();
    let bs = u64_to_le_bytes(v);
    let mut j: usize = 0;
    while j < 8
        invariant
            j <= 8,
            bs@ == spec_u64_to_le_bytes(v),
            bs@.len() == 8,
            pos + 8 <= n,
            n == buf@.len(),
            buf@.len() == old(buf)@.len(),
            forall|i: int| 0 <= i < buf@.len() && !(pos <= i < pos + j) ==> buf@[i] == old(buf)@[i],
            forall|i: int| 0 <= i < j ==> buf@[pos + i] == bs@[i],
        decreases 8 - j,
    {
        buf[pos + j] = bs[j];
        j += 1;
    }
    proof {
        assert(buf@.subrange(pos as int, pos as int + 8) =~= spec_u64_to_le_bytes(v));
    }
}

/// Appends `data` at the current end of the buffer.
pub(crate) fn append_bytes(buf: &mut Vec<u8>, data: &[u8])
    ensures
        final(buf)@ == old(buf)@ + data@,
{
    let n = data.len();
    proof {
        assert(old(buf)@ + data@.subrange(0, 0) =~= old(buf)@);
    }
    let mut j: usize = 0;
    while j < n
        invariant
            j <= n,
            n == data@.len(),
            buf@ == old(buf)@ + data@.subrange(0, j as int),
        decreases n - j,
    {
        proof {
            assert((old(buf)@ + data@.subrange(0, j as int)).push(data@[j as int]) =~= old(
                buf,
            )@ + data@.subrange(0, j as int + 1));
        }
        let b = *vstd::slice::slice_index_get(data, j);
        buf.push(b);
        j += 1;
    }
    proof {
        assert(data@.subrange(0, n as int) =~= data@);
    }
}

/// The integer read from an all-zero range is zero, so a slot in a
/// freshly zero-initialized header is the unset sentinel.
pub proof fn lemma_u64_at_zero(s: Seq<u8>, pos: int)
    requires
        0 <= pos,
        pos + 8 <= s.len(),
        forall|i: int| pos <= i < pos + 8 ==> s[i] == 0,
    ensures
        u64_at(s, pos) == 0,
{
    lemma_auto_spec_u64_to_from_le_bytes();
    vstd::bytes::spec_u64_to_le_bytes_to_open(0);
    assert(0u64 & 0xff == 0) by (bit_vector);
    assert((0u64 >> 8) & 0xff == 0) by (bit_vector);
    assert((0u64 >> 16) & 0xff == 0) by (bit_vector);
    assert((0u64 >> 24) & 0xff == 0) by (bit_vector);
    assert((0u64 >> 32) & 0xff == 0) by (bit_vector);
    assert((0u64 >> 40) & 0xff == 0) by (bit_vector);
    assert((0u64 >> 48) & 0xff == 0) by (bit_vector);
    assert((0u64 >> 56) & 0xff == 0) by (bit_vector);
    let z = vstd::bytes::spec_u64_to_le_bytes_open(0);
    assert(z[0] == 0 && z[1] == 0 && z[2] == 0 && z[3] == 0 && z[4] == 0 && z[5] == 0 && z[6]
        == 0 && z[7] == 0);
    assert(spec_u64_to_le_bytes(0) =~= s.subrange(pos, pos + 8));
}

/// A freshly created container has every header field in its
/// unset/default state: inside an all-zero header any slot reads as the
/// unset sentinel with an empty payload, and any scalar reads zero.
pub proof fn lemma_zero_header_unset(s: Seq<u8>, pos: int, hsize: nat)
    requires
        s == Seq::new(hsize, |i: int| 0u8),
        0 <= pos,
        pos + 16 <= hsize,
    ensures
        slot_unset(s, pos),
        slot_valid(s, pos, hsize),
        payload_at(s, pos) == Seq::<u8>::empty(),
{
    lemma_u64_at_zero(s, pos);
    lemma_u64_at_zero(s, pos + 8);
    assert(payload_at(s, pos) =~= Seq::<u8>::empty());
}

/// A little-endian integer is unchanged when no byte of its 8-byte range
/// is touched.
pub proof fn lemma_u64_at_frame(pre: Seq<u8>, post: Seq<u8>, pos: int, lo: int, hi: int)
    requires
        0 <= pos,
        pos + 8 <= pre.len(),
        pre.len() <= post.len(),
        forall|i: int| 0 <= i < pre.len() && !(lo <= i < hi) ==> post[i] == pre[i],
        hi <= pos || pos + 8 <= lo,
    ensures
        u64_at(post, pos) == u64_at(pre, pos),
{
    assert(post.subrange(pos, pos + 8) =~= pre.subrange(pos, pos + 8));
}

/// Growth preserves every field already set before it: if a mutation only
/// appended bytes at the end and rewrote a disjoint header region
/// `[lo, hi)`, then the slot at `pos` and the payload it points to are
/// bit-for-bit unchanged.
pub proof fn slot_preserved_by_frame(
    pre: Seq<u8>,
    post: Seq<u8>,
    pos: int,
    lo: int,
    hi: int,
    hsize: nat,
)
    requires
        0 <= pos,
        pos + 16 <= hsize,
        hsize <= pre.len(),
        pre.len() <= post.len(),
        forall|i: int| 0 <= i < pre.len() && !(lo <= i < hi) ==> post[i] == pre[i],
        hi <= pos || pos + 16 <= lo,
        hi <= hsize,
        slot_valid(pre, pos, hsize),
    ensures
        slot_off(post, pos) == slot_off(pre, pos),
        slot_len(post, pos) == slot_len(pre, pos),
        slot_valid(post, pos, hsize),
        payload_at(post, pos) == payload_at(pre, pos),
{
    lemma_u64_at_frame(pre, post, pos, lo, hi);
    lemma_u64_at_frame(pre, post, pos + 8, lo, hi);
    if slot_unset(pre, pos) {
        assert(payload_at(post, pos) =~= payload_at(pre, pos));
    } else {
        assert(payload_at(post, pos) =~= payload_at(pre, pos));
    }
}

} // verus!
