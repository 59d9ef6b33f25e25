//! Enum fields: a fixed-width integer discriminant stored directly in
//! the header, validated on both write and read against the declared
//! member set.

use crate::buffer::u64_at;
use crate::root::Root;
use crate::status::Error;
use vstd::prelude::*;

verus! {

/// An enum field: the discriminant lives at a statically known header
/// position; `members` is the declared value set.
#[derive(Debug)]
pub struct EnumField {
    pos: usize,
    members: Vec<u64>,
}

impl EnumField {
    /// The field's position inside the header.
    pub closed spec fn pos(&self) -> nat {
        self.pos as nat
    }

    /// The declared member set, in declaration order.
    pub closed spec fn members(&self) -> Seq<u64> {
        self.members@
    }

    /// True when the field fits inside a header of size `hsize`.
    pub open spec fn in_header(&self, hsize: nat) -> bool {
        self.pos() + 8 <= hsize
    }

    /// Declares the enum field stored at byte `pos` of the header, with
    /// the given declared members.
    pub fn at(pos: usize, members: Vec<u64>) -> (r: EnumField)
        ensures
            r.pos() == pos,
            r.members() == members@,
    {
        EnumField { pos, members }
    }

    /// True exactly when `v` is a declared member.
    pub fn is_member(&self, v: u64) -> (r: bool)
        ensures
            r == self.members().contains(v),
    {
        let n = self.members.len();
        let mut k: usize = 0;
        while k < n
            invariant
                k <= n,
                n == self.members@.len(),
                forall|j: int| 0 <= j < k ==> self.members@[j] != v,
            decreases n - k,
        {
            if self.members[k] == v {
                return true;
            }
            k += 1;
        }
        false
    }

    /// Stores `v` after validating membership.  Fails with
    /// `InvalidEnumValue` exactly when `v` is not a declared member, and
    /// with `AlreadyWriting` while a writer is open; either failure
    /// leaves the field's prior value (and the whole container) intact.
    pub fn set(&self, root: &mut Root, v: u64) -> (r: Result<(), Error>)
        requires
            old(root).wf(),
            self.in_header(old(root).hsize()),
        ensures
            match r {
                Ok(()) => {
                    &&& self.members().contains(v)
                    &&& !old(root).writer_open()
                    &&& final(root).wf()
                    &&& final(root).hsize() == old(root).hsize()
                    &&& !final(root).writer_open()
                    &&& final(root).bytes().len() == old(root).bytes().len()
                    &&& forall|i: int|
                        0 <= i < old(root).bytes().len() && !(self.pos() <= i < self.pos() + 8)
                            ==> final(root).bytes()[i] == old(root).bytes()[i]
                    &&& u64_at(final(root).bytes(), self.pos() as int) == v
                },
                Err(e) => {
                    &&& *final(root) == *old(root)
                    &&& {
                        ||| (e == Error::InvalidEnumValue && !self.members().contains(v))
                        ||| (e == Error::AlreadyWriting && self.members().contains(v) && old(
                            root,
                        ).writer_open())
                    }
                },
            },
    {
        if !self.is_member(v) {
            return Err(Error::InvalidEnumValue);
        }
        if root.is_writer_open() {
            return Err(Error::AlreadyWriting);
        }
        root.write_u64(self.pos, v);
        Ok(())
    }

    /// The validated stored value.  Fails with `DecodeError` exactly
    /// when the stored discriminant is not a declared member (for
    /// example in a buffer from an untrusted or mismatched-schema
    /// source); a foreign value is never reported as a default.
    pub fn get(&self, root: &Root) -> (r: Result<u64, Error>)
        requires
            root.wf(),
            self.in_header(root.hsize()),
        ensures
            match r {
                Ok(v) => {
                    &&& v == u64_at(root.bytes(), self.pos() as int)
                    &&& self.members().contains(v)
                },
                Err(e) => {
                    &&& e == Error::DecodeError
                    &&& !self.members().contains(u64_at(root.bytes(), self.pos() as int))
                },
            },
    {
        let v = root.read_u64(self.pos);
        if self.is_member(v) {
            Ok(v)
        } else {
            Err(Error::DecodeError)
        }
    }
}

} // verus!
