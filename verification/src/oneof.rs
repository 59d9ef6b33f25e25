//! Oneof fields: a tagged union made of a discriminant stored in the
//! header followed by an offset/length slot for the selected variant's
//! payload.  Setting a variant writes the discriminant, then the
//! payload; only the most recently set variant is observable.

use crate::buffer::{lemma_u64_at_frame, payload_at, slot_valid, u64_at};
use crate::fields::{slot_borrow_raw, slot_set_raw};
use crate::root::Root;
use crate::status::Error;
use vstd::prelude::*;

verus! {

/// A oneof field: the discriminant lives at `pos`, the payload slot at
/// `pos + 8`; `tags` is the declared variant set.  Tag zero is the
/// sentinel for "no variant set" and is never a declared tag.
#[derive(Debug)]
pub struct Oneof {
    pos: usize,
    tags: Vec<u64>,
}

impl Oneof {
    /// The field's position inside the header.
    pub closed spec fn pos(&self) -> nat {
        self.pos as nat
    }

    /// The declared variant tags, in declaration order.
    pub closed spec fn tags(&self) -> Seq<u64> {
        self.tags@
    }

    /// True when the discriminant and the payload slot fit inside a
    /// header of size `hsize`.
    pub open spec fn in_header(&self, hsize: nat) -> bool {
        self.pos() + 24 <= hsize
    }

    /// The stored discriminant.
    pub open spec fn tag_of(&self, s: Seq<u8>) -> u64 {
        u64_at(s, self.pos() as int)
    }

    /// Declares the oneof field stored at byte `pos` of the header, with
    /// the given declared variant tags.
    pub fn at(pos: usize, tags: Vec<u64>) -> (r: Oneof)
        ensures
            r.pos() == pos,
            r.tags() == tags@,
    {
        Oneof { pos, tags }
    }

    /// True exactly when `t` is a declared variant tag.
    pub fn is_tag(&self, t: u64) -> (r: bool)
        ensures
            r == self.tags().contains(t),
    {
        let n = self.tags.len();
        let mut k: usize = 0;
        while k < n
            invariant
                k <= n,
                n == self.tags@.len(),
                forall|j: int| 0 <= j < k ==> self.tags@[j] != t,
            decreases n - k,
        {
            if self.tags[k] == t {
                return true;
            }
            k += 1;
        }
        false
    }

    /// Selects variant `tag` with the given payload: writes the
    /// discriminant first, then appends the payload and rewrites the
    /// payload slot, so no reader can observe a mismatched pair.  Fails
    /// with `InvalidEnumValue` exactly when `tag` is zero or undeclared,
    /// and with `AlreadyWriting` while a writer is open; either failure
    /// leaves the container untouched.
    pub fn set_variant(&self, root: &mut Root, tag: u64, payload: &[u8]) -> (r: Result<
        (),
        Error,
    >)
        requires
            old(root).wf(),
            self.in_header(old(root).hsize()),
        ensures
            match r {
                Ok(()) => {
                    &&& tag != 0 && self.tags().contains(tag)
                    &&& !old(root).writer_open()
                    &&& final(root).wf()
                    &&& final(root).hsize() == old(root).hsize()
                    &&& !final(root).writer_open()
                    &&& final(root).bytes().len() == old(root).bytes().len() + payload@.len()
                    &&& forall|i: int|
                        0 <= i < old(root).bytes().len() && !(self.pos() <= i < self.pos() + 24)
                            ==> final(root).bytes()[i] == old(root).bytes()[i]
                    &&& self.tag_of(final(root).bytes()) == tag
                    &&& slot_valid(
                        final(root).bytes(),
                        self.pos() as int + 8,
                        final(root).hsize(),
                    )
                    &&& payload_at(final(root).bytes(), self.pos() as int + 8) == payload@
                },
                Err(e) => {
                    &&& *final(root) == *old(root)
                    &&& {
                        ||| (e == Error::InvalidEnumValue && (tag == 0 || !self.tags().contains(
                            tag,
                        )))
                        ||| (e == Error::AlreadyWriting && tag != 0 && self.tags().contains(tag)
                            && old(root).writer_open())
                    }
                },
            },
    {
        if tag == 0 || !self.is_tag(tag) {
            return Err(Error::InvalidEnumValue);
        }
        if root.is_writer_open() {
            return Err(Error::AlreadyWriting);
        }
        let hs = root.header_size();
        let ghost s0 = root.bytes();
        root.write_u64(self.pos, tag);
        let ghost s1 = root.bytes();
        match slot_set_raw(root, self.pos + 8, payload) {
            Ok(()) => {
                proof {
                    let p = self.pos() as int;
                    let s2 = root.bytes();
                    lemma_u64_at_frame(s1, s2, p, p + 8, p + 24);
                    assert forall|i: int| 0 <= i < s0.len() && !(p <= i < p + 24) implies s2[i]
                        == s0[i] by {
                        assert(s2[i] == s1[i]);
                    }
                }
                Ok(())
            },
            Err(e) => Err(e),
        }
    }

    /// The selected variant and its payload: `None` when no variant has
    /// been set.  Fails with `DecodeError` exactly when the stored
    /// discriminant is foreign or the payload slot is corrupt (possible
    /// only in a buffer from an untrusted source); a foreign tag is
    /// never reported as a default.
    pub fn get<'a>(&self, root: &'a Root) -> (r: Result<Option<(u64, &'a [u8])>, Error>)
        requires
            root.wf(),
            self.in_header(root.hsize()),
        ensures
            match r {
                Ok(v) => {
                    match v {
                        None => self.tag_of(root.bytes()) == 0,
                        Some((t, b)) => {
                            &&& t == self.tag_of(root.bytes())
                            &&& t != 0
                            &&& self.tags().contains(t)
                            &&& slot_valid(root.bytes(), self.pos() as int + 8, root.hsize())
                            &&& b@ == payload_at(root.bytes(), self.pos() as int + 8)
                        },
                    }
                },
                Err(e) => {
                    &&& e == Error::DecodeError
                    &&& self.tag_of(root.bytes()) != 0
                    &&& (!self.tags().contains(self.tag_of(root.bytes())) || !slot_valid(
                        root.bytes(),
                        self.pos() as int + 8,
                        root.hsize(),
                    ))
                },
            },
    {
        let hs = root.header_size();
        let t = root.read_u64(self.pos);
        if t == 0 {
            return Ok(None);
        }
        if !self.is_tag(t) {
            return Err(Error::DecodeError);
        }
        match slot_borrow_raw(root, self.pos + 8) {
            Ok(b) => Ok(Some((t, b))),
            Err(_e) => Err(Error::DecodeError),
        }
    }
}

} // verus!
