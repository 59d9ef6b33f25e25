//! Dynamic scalar fields: text (`Str`) and raw bytes (`Bytes`), each
//! readable as a borrowed view into the buffer and mutable either by
//! whole-value replacement or through an incremental writer; and the
//! fixed-width scalar field (`Fixed64`) stored directly in the header.

use crate::buffer::{lemma_u64_at_frame, payload_at, slot_len, slot_off, slot_valid, u64_at};
use crate::root::Root;
use crate::status::Error;
use vstd::prelude::*;
use vstd::slice::slice_subrange;
use vstd::string::StringSliceAdditionalSpecFns;
use vstd::utf8::{decode_utf8, encode_utf8, encode_utf8_decode_utf8, encode_utf8_valid_utf8, valid_utf8};

verus! {

/// Relies on `core::str::from_utf8`: it succeeds exactly on input that
/// is valid UTF-8, and then returns the borrowed text whose encoding is
/// the input itself.
#[verifier::external_body]
fn bytes_to_str<'a>(v: &'a [u8]) -> (r: Option<&'a str>)
    ensures
        r is Some <==> valid_utf8(v@),
        r matches Some(t) ==> t.spec_bytes() == v@,
{
    core::str::from_utf8(v).ok()
}

/// Appends `data` as the new payload of the slot at `pos` and rewrites
/// the slot.  The old payload, if any, becomes unreachable dead space
/// inside the buffer; nothing else moves.
pub(crate) fn slot_set_raw(root: &mut Root, pos: usize, data: &[u8]) -> (r: Result<(), Error>)
    requires
        old(root).wf(),
        pos + 16 <= old(root).hsize(),
    ensures
        match r {
            Ok(()) => {
                &&& !old(root).writer_open()
                &&& final(root).wf()
                &&& final(root).hsize() == old(root).hsize()
                &&& !final(root).writer_open()
                &&& final(root).bytes().len() == old(root).bytes().len() + data@.len()
                &&& forall|i: int|
                    0 <= i < old(root).bytes().len() && !(pos <= i < pos + 16)
                        ==> final(root).bytes()[i] == old(root).bytes()[i]
                &&& slot_off(final(root).bytes(), pos as int) == old(root).bytes().len()
                &&& slot_len(final(root).bytes(), pos as int) == data@.len()
                &&& slot_valid(final(root).bytes(), pos as int, final(root).hsize())
                &&& payload_at(final(root).bytes(), pos as int) == data@
            },
            Err(e) => {
                &&& e == Error::AlreadyWriting
                &&& old(root).writer_open()
                &&& *final(root) == *old(root)
            },
        },
{
    if root.is_writer_open() {
        return Err(Error::AlreadyWriting);
    }
    let ghost s0 = root.bytes();
    let off = root.size();
    root.append(data);
    let ghost s1 = root.bytes();
    let n1 = root.size();
    let dlen = data.len();
    root.write_u64(pos, off as u64);
    let ghost s2 = root.bytes();
    root.write_u64(pos + 8, dlen as u64);
    proof {
        let p = pos as int;
        let s3 = root.bytes();
        lemma_u64_at_frame(s2, s3, p, p + 8, p + 16);
        assert(slot_off(s3, p) == off);
        assert(slot_len(s3, p) == dlen);
        assert forall|i: int| 0 <= i < s0.len() && !(p <= i < p + 16) implies s3[i] == s0[i] by {
            assert(s2[i] == s1[i]);
            assert(s1[i] == s0[i]);
        }
        assert forall|i: int| off <= i < off + dlen implies s3[i] == data@[i - off] by {
            assert(s3[i] == s2[i]);
            assert(s2[i] == s1[i]);
        }
        assert(payload_at(s3, p) =~= data@);
    }
    Ok(())
}

/// Resolves the slot at `pos` into the borrowed payload range, after
/// validating that the range lies inside the tail.
pub(crate) fn slot_borrow_raw<'a>(root: &'a Root, pos: usize) -> (r: Result<&'a [u8], Error>)
    requires
        root.wf(),
        pos + 16 <= root.hsize(),
    ensures
        match r {
            Ok(b) => {
                &&& slot_valid(root.bytes(), pos as int, root.hsize())
                &&& b@ == payload_at(root.bytes(), pos as int)
            },
            Err(e) => {
                &&& e == Error::DecodeError
                &&& !slot_valid(root.bytes(), pos as int, root.hsize())
            },
        },
{
    let n = root.size();
    let hs = root.header_size();
    let off = root.read_u64(pos);
    let len = root.read_u64(pos + 8);
    if off == 0 && len == 0 {
        let b = slice_subrange(root.as_bytes().as_slice(), 0, 0);
        return Ok(b);
    }
    if off < hs as u64 || off > n as u64 || len > n as u64 - off {
        return Err(Error::DecodeError);
    }
    let o = off as usize;
    let l = len as usize;
    let b = slice_subrange(root.as_bytes().as_slice(), o, o + l);
    Ok(b)
}

/// The writer discipline: the container records that a writer is open,
/// and the slot being fed at `pos` points at a payload that ends exactly
/// at the buffer's tail end, because appending is only well-defined
/// there.
pub open spec fn writer_valid(root: Root, pos: int) -> bool {
    &&& root.wf()
    &&& root.writer_open()
    &&& 0 <= pos
    &&& pos + 16 <= root.hsize()
    &&& root.hsize() <= slot_off(root.bytes(), pos)
    &&& slot_off(root.bytes(), pos) + slot_len(root.bytes(), pos) == root.bytes().len()
}

/// Opens the writer discipline on the slot at `pos`: resets the slot to
/// an empty payload positioned at the current tail end and marks the
/// container as having a writer open.
fn writer_open_raw(root: &mut Root, pos: usize) -> (r: Result<(), Error>)
    requires
        old(root).wf(),
        pos + 16 <= old(root).hsize(),
    ensures
        match r {
            Ok(()) => {
                &&& !old(root).writer_open()
                &&& writer_valid(*final(root), pos as int)
                &&& final(root).hsize() == old(root).hsize()
                &&& final(root).bytes().len() == old(root).bytes().len()
                &&& forall|i: int|
                    0 <= i < old(root).bytes().len() && !(pos <= i < pos + 16)
                        ==> final(root).bytes()[i] == old(root).bytes()[i]
                &&& slot_valid(final(root).bytes(), pos as int, final(root).hsize())
                &&& payload_at(final(root).bytes(), pos as int) == Seq::<u8>::empty()
            },
            Err(e) => {
                &&& e == Error::AlreadyWriting
                &&& old(root).writer_open()
                &&& *final(root) == *old(root)
            },
        },
{
    if root.is_writer_open() {
        return Err(Error::AlreadyWriting);
    }
    let ghost s0 = root.bytes();
    let off = root.size();
    root.write_u64(pos, off as u64);
    let ghost s1 = root.bytes();
    root.write_u64(pos + 8, 0);
    root.set_writer_open(true);
    proof {
        let p = pos as int;
        let s2 = root.bytes();
        lemma_u64_at_frame(s1, s2, p, p + 8, p + 16);
        assert(slot_off(s2, p) == off);
        assert(slot_len(s2, p) == 0);
        assert forall|i: int| 0 <= i < s0.len() && !(p <= i < p + 16) implies s2[i] == s0[i] by {
            assert(s2[i] == s1[i]);
        }
        assert(payload_at(s2, p) =~= Seq::<u8>::empty());
    }
    Ok(())
}

/// Commits one chunk: appends `data` at the tail and extends the slot's
/// stored length, so an interrupted stream still leaves a valid (if
/// truncated) field value rather than a torn one.
fn writer_append_raw(root: &mut Root, pos: usize, data: &[u8])
    requires
        writer_valid(*old(root), pos as int),
    ensures
        writer_valid(*final(root), pos as int),
        final(root).hsize() == old(root).hsize(),
        final(root).bytes().len() == old(root).bytes().len() + data@.len(),
        slot_off(final(root).bytes(), pos as int) == slot_off(old(root).bytes(), pos as int),
        slot_valid(final(root).bytes(), pos as int, final(root).hsize()),
        payload_at(final(root).bytes(), pos as int) == payload_at(old(root).bytes(), pos as int)
            + data@,
        forall|i: int|
            0 <= i < old(root).bytes().len() && !(pos + 8 <= i < pos + 16)
                ==> final(root).bytes()[i] == old(root).bytes()[i],
{
    let ghost s0 = root.bytes();
    let hs = root.header_size();
    let l = root.read_u64(pos + 8);
    root.append(data);
    let ghost s1 = root.bytes();
    let n1 = root.size();
    let dlen = data.len();
    proof {
        let p = pos as int;
        lemma_u64_at_frame(s0, s1, p, 0, 0);
        lemma_u64_at_frame(s0, s1, p + 8, 0, 0);
        assert(l + dlen <= n1);
    }
    root.write_u64(pos + 8, l + dlen as u64);
    proof {
        let p = pos as int;
        let s2 = root.bytes();
        let off = slot_off(s0, p) as int;
        let lo = slot_len(s0, p) as int;
        lemma_u64_at_frame(s1, s2, p, p + 8, p + 16);
        assert(slot_off(s2, p) == slot_off(s0, p));
        assert(slot_len(s2, p) == l + dlen);
        assert forall|i: int| 0 <= i < s0.len() && !(p + 8 <= i < p + 16) implies s2[i] == s0[i] by {
            assert(s2[i] == s1[i]);
        }
        assert forall|i: int| off <= i < off + lo + dlen implies s2[i] == (payload_at(s0, p)
            + data@)[i - off] by {
            assert(s2[i] == s1[i]);
            if i < off + lo {
                assert(s1[i] == s0[i]);
            }
        }
        assert(payload_at(s2, p) =~= payload_at(s0, p) + data@);
    }
}

/// A text field: a header slot at a statically known position whose
/// payload is the UTF-8 encoding of the field's value.
#[derive(Clone, Copy, Debug)]
pub struct Str {
    pos: usize,
}

/// An exclusive incremental writer feeding a [`Str`] field chunk by
/// chunk; at most one writer may be open on a container at a time.
#[derive(Debug)]
pub struct StrWriter {
    pos: usize,
}

impl Str {
    /// The slot position inside the header.
    pub closed spec fn pos(&self) -> nat {
        self.pos as nat
    }

    /// True when the slot fits inside a header of size `hsize`.
    pub open spec fn in_header(&self, hsize: nat) -> bool {
        self.pos() + 16 <= hsize
    }

    /// Declares the text field whose slot sits at byte `pos` of the
    /// header.
    pub fn at(pos: usize) -> (r: Str)
        ensures
            r.pos() == pos,
    {
        Str { pos }
    }

    /// Replaces the field's value with `v`: appends the UTF-8 payload at
    /// the tail and rewrites this field's slot; every other byte already
    /// stored keeps its value.  Fails with `AlreadyWriting`, leaving the
    /// container untouched, exactly when a writer is open.
    pub fn set(&self, root: &mut Root, v: &str) -> (r: Result<(), Error>)
        requires
            old(root).wf(),
            self.in_header(old(root).hsize()),
        ensures
            match r {
                Ok(()) => {
                    &&& !old(root).writer_open()
                    &&& final(root).wf()
                    &&& final(root).hsize() == old(root).hsize()
                    &&& !final(root).writer_open()
                    &&& final(root).bytes().len() == old(root).bytes().len() + encode_utf8(
                        v@,
                    ).len()
                    &&& forall|i: int|
                        0 <= i < old(root).bytes().len() && !(self.pos() <= i < self.pos() + 16)
                            ==> final(root).bytes()[i] == old(root).bytes()[i]
                    &&& slot_valid(final(root).bytes(), self.pos() as int, final(root).hsize())
                    &&& payload_at(final(root).bytes(), self.pos() as int) == encode_utf8(v@)
                },
                Err(e) => {
                    &&& e == Error::AlreadyWriting
                    &&& old(root).writer_open()
                    &&& *final(root) == *old(root)
                },
            },
    {
        slot_set_raw(root, self.pos, v.as_bytes())
    }

    /// Replaces the field's value with raw bytes after validating UTF-8
    /// well-formedness; fails with `EncodingError`, leaving the container
    /// untouched, exactly when `v` is not valid UTF-8.
    pub fn set_bytes(&self, root: &mut Root, v: &[u8]) -> (r: Result<(), Error>)
        requires
            old(root).wf(),
            self.in_header(old(root).hsize()),
        ensures
            match r {
                Ok(()) => {
                    &&& valid_utf8(v@)
                    &&& !old(root).writer_open()
                    &&& final(root).wf()
                    &&& final(root).hsize() == old(root).hsize()
                    &&& !final(root).writer_open()
                    &&& final(root).bytes().len() == old(root).bytes().len() + v@.len()
                    &&& forall|i: int|
                        0 <= i < old(root).bytes().len() && !(self.pos() <= i < self.pos() + 16)
                            ==> final(root).bytes()[i] == old(root).bytes()[i]
                    &&& slot_valid(final(root).bytes(), self.pos() as int, final(root).hsize())
                    &&& payload_at(final(root).bytes(), self.pos() as int) == v@
                },
                Err(e) => {
                    ||| (e == Error::EncodingError && !valid_utf8(v@) && *final(root) == *old(
                        root,
                    ))
                    ||| (e == Error::AlreadyWriting && valid_utf8(v@) && old(root).writer_open()
                        && *final(root) == *old(root))
                },
            },
    {
        match bytes_to_str(v) {
            Some(_t) => slot_set_raw(root, self.pos, v),
            None => Err(Error::EncodingError),
        }
    }

    /// The field's current value, borrowed from the buffer; valid until
    /// the next mutation of the container.  Fails with `DecodeError`
    /// exactly when the slot range is corrupt or the payload is not
    /// valid UTF-8 (possible only in a buffer from an untrusted source).
    pub fn borrow<'a>(&self, root: &'a Root) -> (r: Result<&'a str, Error>)
        requires
            root.wf(),
            self.in_header(root.hsize()),
        ensures
            match r {
                Ok(t) => {
                    &&& slot_valid(root.bytes(), self.pos() as int, root.hsize())
                    &&& valid_utf8(payload_at(root.bytes(), self.pos() as int))
                    &&& encode_utf8(t@) == payload_at(root.bytes(), self.pos() as int)
                    &&& t@ == decode_utf8(payload_at(root.bytes(), self.pos() as int))
                },
                Err(e) => {
                    &&& e == Error::DecodeError
                    &&& (!slot_valid(root.bytes(), self.pos() as int, root.hsize())
                        || !valid_utf8(payload_at(root.bytes(), self.pos() as int)))
                },
            },
    {
        let b = match slot_borrow_raw(root, self.pos) {
            Ok(b) => b,
            Err(e) => {
                return Err(e);
            },
        };
        match bytes_to_str(b) {
            Some(t) => {
                proof {
                    encode_utf8_decode_utf8(t@);
                }
                Ok(t)
            },
            None => Err(Error::DecodeError),
        }
    }

    /// Opens an exclusive incremental writer positioned at the current
    /// tail end; the field starts over from an empty payload.  Fails with
    /// `AlreadyWriting`, losing nothing, exactly when a writer is already
    /// open on this container.
    pub fn new_writer(&self, root: &mut Root) -> (r: Result<StrWriter, Error>)
        requires
            old(root).wf(),
            self.in_header(old(root).hsize()),
        ensures
            match r {
                Ok(w) => {
                    &&& !old(root).writer_open()
                    &&& w.pos() == self.pos()
                    &&& writer_valid(*final(root), self.pos() as int)
                    &&& final(root).hsize() == old(root).hsize()
                    &&& final(root).bytes().len() == old(root).bytes().len()
                    &&& forall|i: int|
                        0 <= i < old(root).bytes().len() && !(self.pos() <= i < self.pos() + 16)
                            ==> final(root).bytes()[i] == old(root).bytes()[i]
                    &&& payload_at(final(root).bytes(), self.pos() as int) == Seq::<u8>::empty()
                },
                Err(e) => {
                    &&& e == Error::AlreadyWriting
                    &&& old(root).writer_open()
                    &&& *final(root) == *old(root)
                },
            },
    {
        match writer_open_raw(root, self.pos) {
            Ok(()) => Ok(StrWriter { pos: self.pos }),
            Err(e) => Err(e),
        }
    }
}

impl StrWriter {
    /// The slot position this writer feeds.
    pub closed spec fn pos(&self) -> nat {
        self.pos as nat
    }

    /// Commits one chunk: appends its UTF-8 bytes immediately and extends
    /// the field's stored length, so the field always holds the
    /// concatenation of the chunks committed so far.
    pub fn write(&self, root: &mut Root, chunk: &str)
        requires
            writer_valid(*old(root), self.pos() as int),
        ensures
            writer_valid(*final(root), self.pos() as int),
            final(root).hsize() == old(root).hsize(),
            final(root).bytes().len() == old(root).bytes().len() + encode_utf8(chunk@).len(),
            slot_off(final(root).bytes(), self.pos() as int) == slot_off(
                old(root).bytes(),
                self.pos() as int,
            ),
            slot_valid(final(root).bytes(), self.pos() as int, final(root).hsize()),
            payload_at(final(root).bytes(), self.pos() as int) == payload_at(
                old(root).bytes(),
                self.pos() as int,
            ) + encode_utf8(chunk@),
            forall|i: int|
                0 <= i < old(root).bytes().len() && !(self.pos() + 8 <= i < self.pos() + 16)
                    ==> final(root).bytes()[i] == old(root).bytes()[i],
    {
        writer_append_raw(root, self.pos, chunk.as_bytes())
    }

    /// Closes the writer, releasing the container for other mutations;
    /// the field keeps the concatenation of all committed chunks.
    pub fn finish(self, root: &mut Root)
        requires
            writer_valid(*old(root), self.pos() as int),
        ensures
            final(root).bytes() == old(root).bytes(),
            final(root).hsize() == old(root).hsize(),
            final(root).wf(),
            !final(root).writer_open(),
    {
        root.set_writer_open(false);
    }
}

/// A raw-byte field: a header slot whose payload is an arbitrary byte
/// string in the tail; no validation applies.
#[derive(Clone, Copy, Debug)]
pub struct Bytes {
    pos: usize,
}

/// An exclusive incremental writer feeding a [`Bytes`] field chunk by
/// chunk; at most one writer may be open on a container at a time.
#[derive(Debug)]
pub struct BytesWriter {
    pos: usize,
}

impl Bytes {
    /// The slot position inside the header.
    pub closed spec fn pos(&self) -> nat {
        self.pos as nat
    }

    /// True when the slot fits inside a header of size `hsize`.
    pub open spec fn in_header(&self, hsize: nat) -> bool {
        self.pos() + 16 <= hsize
    }

    /// Declares the byte field whose slot sits at byte `pos` of the
    /// header.
    pub fn at(pos: usize) -> (r: Bytes)
        ensures
            r.pos() == pos,
    {
        Bytes { pos }
    }

    /// Replaces the field's value with `v`; fails with `AlreadyWriting`,
    /// leaving the container untouched, exactly when a writer is open.
    pub fn set(&self, root: &mut Root, v: &[u8]) -> (r: Result<(), Error>)
        requires
            old(root).wf(),
            self.in_header(old(root).hsize()),
        ensures
            match r {
                Ok(()) => {
                    &&& !old(root).writer_open()
                    &&& final(root).wf()
                    &&& final(root).hsize() == old(root).hsize()
                    &&& !final(root).writer_open()
                    &&& final(root).bytes().len() == old(root).bytes().len() + v@.len()
                    &&& forall|i: int|
                        0 <= i < old(root).bytes().len() && !(self.pos() <= i < self.pos() + 16)
                            ==> final(root).bytes()[i] == old(root).bytes()[i]
                    &&& slot_valid(final(root).bytes(), self.pos() as int, final(root).hsize())
                    &&& payload_at(final(root).bytes(), self.pos() as int) == v@
                },
                Err(e) => {
                    &&& e == Error::AlreadyWriting
                    &&& old(root).writer_open()
                    &&& *final(root) == *old(root)
                },
            },
    {
        slot_set_raw(root, self.pos, v)
    }

    /// The field's current value, borrowed from the buffer; valid until
    /// the next mutation of the container.  Fails with `DecodeError`
    /// exactly when the slot range is corrupt (possible only in a buffer
    /// from an untrusted source).
    pub fn borrow<'a>(&self, root: &'a Root) -> (r: Result<&'a [u8], Error>)
        requires
            root.wf(),
            self.in_header(root.hsize()),
        ensures
            match r {
                Ok(b) => {
                    &&& slot_valid(root.bytes(), self.pos() as int, root.hsize())
                    &&& b@ == payload_at(root.bytes(), self.pos() as int)
                },
                Err(e) => {
                    &&& e == Error::DecodeError
                    &&& !slot_valid(root.bytes(), self.pos() as int, root.hsize())
                },
            },
    {
        slot_borrow_raw(root, self.pos)
    }

    /// Opens an exclusive incremental writer positioned at the current
    /// tail end; the field starts over from an empty payload.  Fails with
    /// `AlreadyWriting`, losing nothing, exactly when a writer is already
    /// open on this container.
    pub fn new_writer(&self, root: &mut Root) -> (r: Result<BytesWriter, Error>)
        requires
            old(root).wf(),
            self.in_header(old(root).hsize()),
        ensures
            match r {
                Ok(w) => {
                    &&& !old(root).writer_open()
                    &&& w.pos() == self.pos()
                    &&& writer_valid(*final(root), self.pos() as int)
                    &&& final(root).hsize() == old(root).hsize()
                    &&& final(root).bytes().len() == old(root).bytes().len()
                    &&& forall|i: int|
                        0 <= i < old(root).bytes().len() && !(self.pos() <= i < self.pos() + 16)
                            ==> final(root).bytes()[i] == old(root).bytes()[i]
                    &&& payload_at(final(root).bytes(), self.pos() as int) == Seq::<u8>::empty()
                },
                Err(e) => {
                    &&& e == Error::AlreadyWriting
                    &&& old(root).writer_open()
                    &&& *final(root) == *old(root)
                },
            },
    {
        match writer_open_raw(root, self.pos) {
            Ok(()) => Ok(BytesWriter { pos: self.pos }),
            Err(e) => Err(e),
        }
    }
}

impl BytesWriter {
    /// The slot position this writer feeds.
    pub closed spec fn pos(&self) -> nat {
        self.pos as nat
    }

    /// Commits one chunk: appends it immediately and extends the field's
    /// stored length, so the field always holds the concatenation of the
    /// chunks committed so far.
    pub fn write(&self, root: &mut Root, chunk: &[u8])
        requires
            writer_valid(*old(root), self.pos() as int),
        ensures
            writer_valid(*final(root), self.pos() as int),
            final(root).hsize() == old(root).hsize(),
            final(root).bytes().len() == old(root).bytes().len() + chunk@.len(),
            slot_off(final(root).bytes(), self.pos() as int) == slot_off(
                old(root).bytes(),
                self.pos() as int,
            ),
            slot_valid(final(root).bytes(), self.pos() as int, final(root).hsize()),
            payload_at(final(root).bytes(), self.pos() as int) == payload_at(
                old(root).bytes(),
                self.pos() as int,
            ) + chunk@,
            forall|i: int|
                0 <= i < old(root).bytes().len() && !(self.pos() + 8 <= i < self.pos() + 16)
                    ==> final(root).bytes()[i] == old(root).bytes()[i],
    {
        writer_append_raw(root, self.pos, chunk)
    }

    /// Closes the writer, releasing the container for other mutations;
    /// the field keeps the concatenation of all committed chunks.
    pub fn finish(self, root: &mut Root)
        requires
            writer_valid(*old(root), self.pos() as int),
        ensures
            final(root).bytes() == old(root).bytes(),
            final(root).hsize() == old(root).hsize(),
            final(root).wf(),
            !final(root).writer_open(),
    {
        root.set_writer_open(false);
    }
}

/// Round trip: the payload that `Str::set` stores for a value `v` is
/// valid UTF-8 and decodes back to exactly `v`, so `set` followed by
/// `borrow` returns the value unchanged.
pub proof fn lemma_str_round_trip(v: Seq<char>)
    ensures
        valid_utf8(encode_utf8(v)),
        decode_utf8(encode_utf8(v)) == v,
{
    encode_utf8_valid_utf8(v);
    encode_utf8_decode_utf8(v);
}

/// Chunked writes equal one whole-value set: the UTF-8 encoding of a
/// concatenation is the concatenation of the encodings, so committing
/// chunks `a` then `b` through a writer stores the same payload as one
/// `set` of `a + b`.
pub proof fn lemma_encode_utf8_concat(a: Seq<char>, b: Seq<char>)
    ensures
        encode_utf8(a + b) == encode_utf8(a) + encode_utf8(b),
    decreases a.len(),
{
    if a.len() == 0 {
        assert(a + b =~= b);
        assert(encode_utf8(a) + encode_utf8(b) =~= encode_utf8(b));
    } else {
        lemma_encode_utf8_concat(a.drop_first(), b);
        assert((a + b).drop_first() =~= a.drop_first() + b);
        assert((a + b)[0] == a[0]);
        assert(encode_utf8(a + b) =~= encode_utf8(a) + encode_utf8(b));
    }
}

/// The payload stored after committing a sequence of chunks in order
/// through a writer: each chunk's UTF-8 encoding, appended in turn.
pub open spec fn encoded_chunks(chunks: Seq<Seq<char>>) -> Seq<u8>
    decreases chunks.len(),
{
    if chunks.len() == 0 {
        Seq::empty()
    } else {
        encoded_chunks(chunks.drop_last()) + encode_utf8(chunks.last())
    }
}

/// The concatenation of a sequence of chunks.
pub open spec fn concat_chunks(chunks: Seq<Seq<char>>) -> Seq<char>
    decreases chunks.len(),
{
    if chunks.len() == 0 {
        Seq::empty()
    } else {
        concat_chunks(chunks.drop_last()) + chunks.last()
    }
}

/// Writing any sequence of chunks in order through a writer stores the
/// same payload as a single `set` of their whole concatenation.
pub proof fn lemma_writer_chunks_equal_set(chunks: Seq<Seq<char>>)
    ensures
        encoded_chunks(chunks) == encode_utf8(concat_chunks(chunks)),
    decreases chunks.len(),
{
    if chunks.len() == 0 {
        assert(encoded_chunks(chunks) =~= encode_utf8(concat_chunks(chunks)));
    } else {
        lemma_writer_chunks_equal_set(chunks.drop_last());
        lemma_encode_utf8_concat(concat_chunks(chunks.drop_last()), chunks.last());
    }
}

/// A fixed-width scalar field stored little-endian directly in the
/// header; it needs no offset pointer and never touches the tail.
#[derive(Clone, Copy, Debug)]
pub struct Fixed64 {
    pos: usize,
}

impl Fixed64 {
    /// The field's position inside the header.
    pub closed spec fn pos(&self) -> nat {
        self.pos as nat
    }

    /// True when the field fits inside a header of size `hsize`.
    pub open spec fn in_header(&self, hsize: nat) -> bool {
        self.pos() + 8 <= hsize
    }

    /// Declares the scalar field stored at byte `pos` of the header.
    pub fn at(pos: usize) -> (r: Fixed64)
        ensures
            r.pos() == pos,
    {
        Fixed64 { pos }
    }

    /// The field's current value (zero until first set).
    pub fn get(&self, root: &Root) -> (r: u64)
        requires
            root.wf(),
            self.in_header(root.hsize()),
        ensures
            r == u64_at(root.bytes(), self.pos() as int),
    {
        root.read_u64(self.pos)
    }

    /// Stores `v` in place; the buffer never grows or moves.  Fails with
    /// `AlreadyWriting`, leaving the container untouched, exactly when a
    /// writer is open.
    pub fn set(&self, root: &mut Root, v: u64) -> (r: Result<(), Error>)
        requires
            old(root).wf(),
            self.in_header(old(root).hsize()),
        ensures
            match r {
                Ok(()) => {
                    &&& !old(root).writer_open()
                    &&& final(root).wf()
                    &&& final(root).hsize() == old(root).hsize()
                    &&& !final(root).writer_open()
                    &&& final(root).bytes().len() == old(root).bytes().len()
                    &&& forall|i: int|
                        0 <= i < old(root).bytes().len() && !(self.pos() <= i < self.pos() + 8)
                            ==> final(root).bytes()[i] == old(root).bytes()[i]
                    &&& u64_at(final(root).bytes(), self.pos() as int) == v
                },
                Err(e) => {
                    &&& e == Error::AlreadyWriting
                    &&& old(root).writer_open()
                    &&& *final(root) == *old(root)
                },
            },
    {
        if root.is_writer_open() {
            return Err(Error::AlreadyWriting);
        }
        root.write_u64(self.pos, v);
        Ok(())
    }
}

} // verus!
