//! The root container: sole owner of one growable byte region holding
//! exactly one top-level message.

use crate::buffer::{append_bytes, read_u64_at, u64_at, write_u64_at};
use crate::status::Error;
use vstd::prelude::*;

verus! {

/// Owns the buffer region and is its sole mutator.
///
/// At all times the bytes `[0, header_size)` hold the fixed-layout
/// header; the bytes beyond it hold the variable-length payloads that
/// header slots reference by relative offset.  Growth relocates the
/// whole region, but every stored reference stays correct because it is
/// relative, not absolute.
pub struct Root {
    buf: Vec<u8>,
    header_size: usize,
    writer_open: bool,
}

impl Root {
    /// The raw bytes of the region; also the wire representation.
    pub closed spec fn bytes(&self) -> Seq<u8> {
        self.buf@
    }

    /// The size of the fixed-layout header prefix.
    pub closed spec fn hsize(&self) -> nat {
        self.header_size as nat
    }

    /// Whether an incremental writer is currently open on this container.
    pub closed spec fn writer_open(&self) -> bool {
        self.writer_open
    }

    /// The container invariant: the header prefix is always present.
    pub open spec fn wf(&self) -> bool {
        self.hsize() <= self.bytes().len()
    }

    /// Creates a container whose header is zero-initialized (every field
    /// in its unset/default state) and whose tail is empty.
    pub fn new(header_size: usize) -> (r: Root)
        ensures
            r.wf(),
            r.hsize() == header_size,
            r.bytes() == Seq::new(header_size as nat, |i: int| 0u8),
            !r.writer_open(),
    {
        let buf = vec![0u8; header_size];
        proof {
            assert(buf@ =~= Seq::new(header_size as nat, |i: int| 0u8));
        }
        Root { buf, header_size, writer_open: false }
    }

    /// Adopts a buffer received from elsewhere (for example from a
    /// transport).  Fails with `DecodeError` when the buffer cannot even
    /// hold the declared header; all further validation happens at each
    /// field read.
    pub fn from_bytes(data: Vec<u8>, header_size: usize) -> (r: Result<Root, Error>)
        ensures
            match r {
                Ok(root) => {
                    &&& data@.len() >= header_size
                    &&& root.wf()
                    &&& root.bytes() == data@
                    &&& root.hsize() == header_size
                    &&& !root.writer_open()
                },
                Err(e) => e == Error::DecodeError && data@.len() < header_size,
            },
    {
        if data.len() < header_size {
            Err(Error::DecodeError)
        } else {
            Ok(Root { buf: data, header_size, writer_open: false })
        }
    }

    /// The wire bytes of the message, verbatim.
    pub fn as_bytes(&self) -> (r: &Vec<u8>)
        ensures
            r@ == self.bytes(),
    {
        &self.buf
    }

    /// The declared header size.
    pub fn header_size(&self) -> (r: usize)
        ensures
            r == self.hsize(),
    {
        self.header_size
    }

    /// The current total size of the region, header and tail together.
    pub fn size(&self) -> (r: usize)
        ensures
            r == self.bytes().len(),
    {
        self.buf.len()
    }

    /// Whether an incremental writer is currently open on this
    /// container.
    pub fn is_writer_open(&self) -> (r: bool)
        ensures
            r == self.writer_open(),
    {
        self.writer_open
    }

    /// Releases an abandoned writer so that a new one may be opened; the
    /// field the writer fed keeps its last committed value.
    pub fn cancel_writer(&mut self)
        ensures
            final(self).bytes() == old(self).bytes(),
            final(self).hsize() == old(self).hsize(),
            !final(self).writer_open(),
    {
        self.writer_open = false;
    }

    /// Reads the little-endian integer at `pos`.
    pub(crate) fn read_u64(&self, pos: usize) -> (r: u64)
        requires
            pos + 8 <= self.bytes().len(),
        ensures
            r == u64_at(self.bytes(), pos as int),
    {
        read_u64_at(&self.buf, pos)
    }

    /// Overwrites the 8 bytes at `pos` with `v` little-endian.
    pub(crate) fn write_u64(&mut self, pos: usize, v: u64)
        requires
            pos + 8 <= old(self).bytes().len(),
        ensures
            final(self).bytes().len() == old(self).bytes().len(),
            final(self).hsize() == old(self).hsize(),
            final(self).writer_open() == old(self).writer_open(),
            forall|i: int|
                0 <= i < final(self).bytes().len() && !(pos <= i < pos + 8)
                    ==> final(self).bytes()[i] == old(self).bytes()[i],
            u64_at(final(self).bytes(), pos as int) == v,
    {
        write_u64_at(&mut self.buf, pos, v)
    }

    /// Appends `data` at the current end of the region.
    pub(crate) fn append(&mut self, data: &[u8])
        ensures
            final(self).bytes() == old(self).bytes() + data@,
            final(self).hsize() == old(self).hsize(),
            final(self).writer_open() == old(self).writer_open(),
    {
        append_bytes(&mut self.buf, data)
    }

    /// Marks whether a writer is open on this container.
    pub(crate) fn set_writer_open(&mut self, b: bool)
        ensures
            final(self).bytes() == old(self).bytes(),
            final(self).hsize() == old(self).hsize(),
            final(self).writer_open() == b,
    {
        self.writer_open = b;
    }
}

} // verus!
