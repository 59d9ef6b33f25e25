//! Repeated fields: a growable homogeneous sequence of fixed-width
//! elements stored in the tail, referenced by an `(offset, count)` slot.
//!
//! `push` appends at the current tail; when the element region no longer
//! ends at the tail (because other payloads were appended after it), the
//! region is first copied to the tail and the old bytes become dead
//! space — nothing else in the buffer moves.

use crate::buffer::{lemma_u64_at_frame, slot_len, slot_off, slot_unset, u64_at};
use crate::root::Root;
use crate::status::Error;
use vstd::bytes::{lemma_auto_spec_u64_to_from_le_bytes, spec_u64_to_le_bytes, u64_to_le_bytes};
use vstd::prelude::*;

verus! {

/// A repeated slot is valid when unset, or when its element region of
/// `count` 8-byte elements lies entirely in the tail.
pub open spec fn rep_valid(s: Seq<u8>, pos: int, hsize: nat) -> bool {
    ||| slot_unset(s, pos)
    ||| (hsize <= slot_off(s, pos) && slot_off(s, pos) + 8 * slot_len(s, pos) <= s.len())
}

/// The element at index `k` of an element region that starts at `off`.
pub open spec fn elem_at(s: Seq<u8>, off: int, k: int) -> u64 {
    u64_at(s, off + 8 * k)
}

/// The elements stored by the repeated slot at `pos`, in push order.
pub open spec fn rep_seq(s: Seq<u8>, pos: int) -> Seq<u64> {
    Seq::new(slot_len(s, pos) as nat, |j: int| elem_at(s, slot_off(s, pos) as int, j))
}

/// Appends the 8-byte little-endian image of `v` at the tail.
fn append_u64(root: &mut Root, v: u64)
    ensures
        final(root).hsize() == old(root).hsize(),
        final(root).writer_open() == old(root).writer_open(),
        final(root).bytes().len() == old(root).bytes().len() + 8,
        forall|i: int|
            0 <= i < old(root).bytes().len() ==> final(root).bytes()[i] == old(root).bytes()[i],
        u64_at(final(root).bytes(), old(root).bytes().len() as int) == v,
{
    proof {
        lemma_auto_spec_u64_to_from_le_bytes();
    }
    let bs = u64_to_le_bytes(v);
    root.append(bs.as_slice());
    proof {
        let n0 = old(root).bytes().len() as int;
        assert(root.bytes().subrange(n0, n0 + 8) =~= spec_u64_to_le_bytes(v));
    }
}

/// A repeated field of 64-bit elements: an `(offset, count)` slot at a
/// statically known position in the header.
#[derive(Clone, Copy, Debug)]
pub struct Repeated {
    pos: usize,
}

impl Repeated {
    /// The slot position inside the header.
    pub closed spec fn pos(&self) -> nat {
        self.pos as nat
    }

    /// True when the slot fits inside a header of size `hsize`.
    pub open spec fn in_header(&self, hsize: nat) -> bool {
        self.pos() + 16 <= hsize
    }

    /// Declares the repeated field whose slot sits at byte `pos` of the
    /// header.
    pub fn at(pos: usize) -> (r: Repeated)
        ensures
            r.pos() == pos,
    {
        Repeated { pos }
    }

    /// Appends one element; element order is push order.  Fails with
    /// `AlreadyWriting` while a writer is open and with `DecodeError`
    /// when the slot is corrupt (untrusted buffer); either failure leaves
    /// the container untouched.
    pub fn push(&self, root: &mut Root, v: u64) -> (r: Result<(), Error>)
        requires
            old(root).wf(),
            self.in_header(old(root).hsize()),
        ensures
            match r {
                Ok(()) => {
                    &&& !old(root).writer_open()
                    &&& rep_valid(old(root).bytes(), self.pos() as int, old(root).hsize())
                    &&& final(root).wf()
                    &&& final(root).hsize() == old(root).hsize()
                    &&& !final(root).writer_open()
                    &&& final(root).bytes().len() >= old(root).bytes().len()
                    &&& forall|i: int|
                        0 <= i < old(root).bytes().len() && !(self.pos() <= i < self.pos() + 16)
                            ==> final(root).bytes()[i] == old(root).bytes()[i]
                    &&& rep_valid(final(root).bytes(), self.pos() as int, final(root).hsize())
                    &&& rep_seq(final(root).bytes(), self.pos() as int) == rep_seq(
                        old(root).bytes(),
                        self.pos() as int,
                    ).push(v)
                },
                Err(e) => {
                    &&& *final(root) == *old(root)
                    &&& {
                        ||| (e == Error::AlreadyWriting && old(root).writer_open())
                        ||| (e == Error::DecodeError && !old(root).writer_open() && !rep_valid(
                            old(root).bytes(),
                            self.pos() as int,
                            old(root).hsize(),
                        ))
                    }
                },
            },
    {
        if root.is_writer_open() {
            return Err(Error::AlreadyWriting);
        }
        let pos = self.pos;
        let n = root.size();
        let hs = root.header_size();
        let off = root.read_u64(pos);
        let cnt = root.read_u64(pos + 8);
        let unset = off == 0 && cnt == 0;
        if !unset {
            if off < hs as u64 || off > n as u64 || cnt > (n as u64 - off) / 8 {
                return Err(Error::DecodeError);
            }
            proof {
                assert(8 * cnt <= n as u64 - off);
            }
        }
        let ghost s0 = root.bytes();
        let ghost p = pos as int;
        let newoff: u64;
        if !unset && off + 8 * cnt == n as u64 {
            // the element region already ends at the tail
            newoff = off;
        } else {
            // copy the elements to the tail; the old region becomes dead
            newoff = n as u64;
            let mut j: u64 = 0;
            while j < cnt
                invariant
                    j <= cnt,
                    root.wf(),
                    root.hsize() == old(root).hsize(),
                    !root.writer_open(),
                    self.pos() == pos,
                    self.in_header(root.hsize()),
                    s0 == old(root).bytes(),
                    n == s0.len(),
                    hs == root.hsize(),
                    off == slot_off(s0, pos as int),
                    cnt == slot_len(s0, pos as int),
                    !slot_unset(s0, pos as int) ==> hs <= off && off + 8 * cnt <= n,
                    slot_unset(s0, pos as int) ==> off == 0 && cnt == 0,
                    root.bytes().len() == n + 8 * j,
                    forall|i: int| 0 <= i < n ==> root.bytes()[i] == s0[i],
                    forall|k: int|
                        0 <= k < j ==> elem_at(root.bytes(), n as int, k) == elem_at(
                            s0,
                            off as int,
                            k,
                        ),
                decreases cnt - j,
            {
                let ghost sa = root.bytes();
                let e = root.read_u64((off + 8 * j) as usize);
                append_u64(root, e);
                proof {
                    let sb = root.bytes();
                    assert forall|k: int| 0 <= k < j + 1 implies elem_at(sb, n as int, k)
                        == elem_at(s0, off as int, k) by {
                        if k < j {
                            lemma_u64_at_frame(sa, sb, n + 8 * k, 0, 0);
                        } else {
                            assert(u64_at(sb, sa.len() as int) == e);
                            assert(u64_at(s0, off + 8 * k) == e) by {
                                lemma_u64_at_frame(s0, sa, off + 8 * k, 0, 0);
                            }
                        }
                    }
                }
                j = j + 1;
            }
        }
        let ghost s1 = root.bytes();
        append_u64(root, v);
        let ghost s2 = root.bytes();
        root.write_u64(pos, newoff);
        let ghost s3 = root.bytes();
        root.write_u64(pos + 8, cnt + 1);
        proof {
            let s4 = root.bytes();
            lemma_u64_at_frame(s3, s4, p, p + 8, p + 16);
            assert(slot_off(s4, p) == newoff);
            assert(slot_len(s4, p) == cnt + 1);
            // frame over the bytes present before the call
            assert forall|i: int| 0 <= i < n && !(p <= i < p + 16) implies s4[i] == s0[i] by {
                assert(s3[i] == s2[i]);
                assert(s2[i] == s1[i]);
                assert(s1[i] == s0[i]);
            }
            // every stored element is preserved, and the new one is last
            assert forall|k: int| 0 <= k < cnt + 1 implies elem_at(s4, newoff as int, k)
                == rep_seq(s0, p).push(v)[k] by {
                if k < cnt {
                    assert(elem_at(s1, newoff as int, k) == elem_at(s0, off as int, k)) by {
                        if newoff == off {
                            lemma_u64_at_frame(s0, s1, off + 8 * k, 0, 0);
                        } else {
                            assert(elem_at(s1, n as int, k) == elem_at(s0, off as int, k));
                        }
                    }
                    lemma_u64_at_frame(s1, s2, newoff + 8 * k, 0, 0);
                    lemma_u64_at_frame(s2, s4, newoff + 8 * k, p, p + 16);
                    assert(elem_at(s4, newoff as int, k) == elem_at(s1, newoff as int, k));
                } else {
                    assert(u64_at(s2, s1.len() as int) == v);
                    assert(newoff + 8 * k == s1.len());
                    lemma_u64_at_frame(s2, s4, s1.len() as int, p, p + 16);
                }
            }
            assert(rep_seq(s4, p) =~= rep_seq(s0, p).push(v));
        }
        Ok(())
    }

    /// Appends every element of `vals` in order.  Any failure can occur
    /// only before the first element is stored and leaves the container
    /// untouched.
    pub fn push_all(&self, root: &mut Root, vals: &[u64]) -> (r: Result<(), Error>)
        requires
            old(root).wf(),
            self.in_header(old(root).hsize()),
        ensures
            match r {
                Ok(()) => {
                    &&& !old(root).writer_open()
                    &&& rep_valid(old(root).bytes(), self.pos() as int, old(root).hsize())
                    &&& final(root).wf()
                    &&& final(root).hsize() == old(root).hsize()
                    &&& !final(root).writer_open()
                    &&& forall|i: int|
                        0 <= i < old(root).bytes().len() && !(self.pos() <= i < self.pos() + 16)
                            ==> final(root).bytes()[i] == old(root).bytes()[i]
                    &&& rep_valid(final(root).bytes(), self.pos() as int, final(root).hsize())
                    &&& rep_seq(final(root).bytes(), self.pos() as int) == rep_seq(
                        old(root).bytes(),
                        self.pos() as int,
                    ) + vals@
                },
                Err(e) => {
                    &&& *final(root) == *old(root)
                    &&& {
                        ||| (e == Error::AlreadyWriting && old(root).writer_open())
                        ||| (e == Error::DecodeError && !old(root).writer_open() && !rep_valid(
                            old(root).bytes(),
                            self.pos() as int,
                            old(root).hsize(),
                        ))
                    }
                },
            },
    {
        if root.is_writer_open() {
            return Err(Error::AlreadyWriting);
        }
        match self.count(root) {
            Ok(_) => (),
            Err(e) => {
                return Err(e);
            },
        }
        let ghost s0 = root.bytes();
        let ghost p = self.pos() as int;
        let m = vals.len();
        let mut k: usize = 0;
        proof {
            assert(rep_seq(s0, p) + vals@.subrange(0, 0) =~= rep_seq(s0, p));
        }
        while k < m
            invariant
                k <= m,
                m == vals@.len(),
                root.wf(),
                root.hsize() == old(root).hsize(),
                self.in_header(root.hsize()),
                p == self.pos() as int,
                s0 == old(root).bytes(),
                root.bytes().len() >= s0.len(),
                root.writer_open() == old(root).writer_open(),
                k > 0 ==> !root.writer_open() && rep_valid(root.bytes(), p, root.hsize())
                    && rep_valid(s0, p, old(root).hsize()) && !old(root).writer_open(),
                k == 0 ==> *root == *old(root),
                forall|i: int|
                    0 <= i < s0.len() && !(p <= i < p + 16) ==> root.bytes()[i] == s0[i],
                rep_seq(root.bytes(), p) == rep_seq(s0, p) + vals@.subrange(0, k as int),
            decreases m - k,
        {
            let ghost sa = root.bytes();
            let v = *vstd::slice::slice_index_get(vals, k);
            match self.push(root, v) {
                Ok(()) => {
                    proof {
                        assert(rep_seq(root.bytes(), p) =~= rep_seq(s0, p) + vals@.subrange(
                            0,
                            k as int + 1,
                        ));
                    }
                },
                Err(e) => {
                    return Err(e);
                },
            }
            k += 1;
        }
        proof {
            assert(vals@.subrange(0, m as int) =~= vals@);
        }
        Ok(())
    }

    /// The element at index `i`, in push order.  Fails with
    /// `BoundsError` exactly when `i` is at or beyond the element count,
    /// and with `DecodeError` when the slot is corrupt.
    pub fn get(&self, root: &Root, i: u64) -> (r: Result<u64, Error>)
        requires
            root.wf(),
            self.in_header(root.hsize()),
        ensures
            match r {
                Ok(v) => {
                    &&& rep_valid(root.bytes(), self.pos() as int, root.hsize())
                    &&& i < slot_len(root.bytes(), self.pos() as int)
                    &&& v == rep_seq(root.bytes(), self.pos() as int)[i as int]
                },
                Err(e) => {
                    ||| (e == Error::BoundsError && rep_valid(
                        root.bytes(),
                        self.pos() as int,
                        root.hsize(),
                    ) && i >= slot_len(root.bytes(), self.pos() as int))
                    ||| (e == Error::DecodeError && !rep_valid(
                        root.bytes(),
                        self.pos() as int,
                        root.hsize(),
                    ))
                },
            },
    {
        let pos = self.pos;
        let n = root.size();
        let hs = root.header_size();
        let off = root.read_u64(pos);
        let cnt = root.read_u64(pos + 8);
        let unset = off == 0 && cnt == 0;
        if !unset {
            if off < hs as u64 || off > n as u64 || cnt > (n as u64 - off) / 8 {
                return Err(Error::DecodeError);
            }
            proof {
                assert(8 * cnt <= n as u64 - off);
            }
        }
        if i >= cnt {
            return Err(Error::BoundsError);
        }
        let v = root.read_u64((off + 8 * i) as usize);
        Ok(v)
    }

    /// The stored element count.  Fails with `DecodeError` exactly when
    /// the slot is corrupt.
    pub fn count(&self, root: &Root) -> (r: Result<u64, Error>)
        requires
            root.wf(),
            self.in_header(root.hsize()),
        ensures
            match r {
                Ok(c) => {
                    &&& rep_valid(root.bytes(), self.pos() as int, root.hsize())
                    &&& c == slot_len(root.bytes(), self.pos() as int)
                },
                Err(e) => {
                    &&& e == Error::DecodeError
                    &&& !rep_valid(root.bytes(), self.pos() as int, root.hsize())
                },
            },
    {
        let pos = self.pos;
        let n = root.size();
        let hs = root.header_size();
        let off = root.read_u64(pos);
        let cnt = root.read_u64(pos + 8);
        if off == 0 && cnt == 0 {
            return Ok(cnt);
        }
        if off < hs as u64 || off > n as u64 || cnt > (n as u64 - off) / 8 {
            return Err(Error::DecodeError);
        }
        proof {
            assert(8 * cnt <= n as u64 - off);
        }
        Ok(cnt)
    }
}

} // verus!
