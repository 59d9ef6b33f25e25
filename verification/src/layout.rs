//! Declaring a message layout: the auditable, explicit opt-in that
//! stands in for reinterpreting raw memory as a structured type.
//!
//! A layout allocates each field a position in the fixed header, one
//! after another and never overlapping, and ends in the header size to
//! create containers with.  Every field kind is one of the engine's
//! declared-safe kinds: fixed scalars, offset slots, discriminants —
//! never a native pointer-bearing type.

use crate::enums::EnumField;
use crate::fields::{Bytes, Fixed64, Str};
use crate::oneof::Oneof;
use crate::repeated::Repeated;
use vstd::prelude::*;

verus! {

/// A message layout under construction; `used` bytes of header have
/// been handed out so far.
pub struct Layout {
    next: usize,
}

impl Layout {
    /// How many header bytes the declared fields occupy so far.
    pub closed spec fn used(&self) -> nat {
        self.next as nat
    }

    /// Starts an empty layout.
    pub fn new() -> (r: Layout)
        ensures
            r.used() == 0,
    {
        Layout { next: 0 }
    }

    /// The header size a container for this layout needs.
    pub fn header_size(&self) -> (r: usize)
        ensures
            r == self.used(),
    {
        self.next
    }

    /// Declares the next field as text; its slot never overlaps an
    /// earlier field's bytes.
    pub fn str_field(&mut self) -> (r: Str)
        requires
            old(self).used() + 16 <= usize::MAX,
        ensures
            r.pos() == old(self).used(),
            final(self).used() == old(self).used() + 16,
    {
        let pos = self.next;
        self.next = self.next + 16;
        Str::at(pos)
    }

    /// Declares the next field as raw bytes.
    pub fn bytes_field(&mut self) -> (r: Bytes)
        requires
            old(self).used() + 16 <= usize::MAX,
        ensures
            r.pos() == old(self).used(),
            final(self).used() == old(self).used() + 16,
    {
        let pos = self.next;
        self.next = self.next + 16;
        Bytes::at(pos)
    }

    /// Declares the next field as a fixed 64-bit scalar.
    pub fn fixed64_field(&mut self) -> (r: Fixed64)
        requires
            old(self).used() + 8 <= usize::MAX,
        ensures
            r.pos() == old(self).used(),
            final(self).used() == old(self).used() + 8,
    {
        let pos = self.next;
        self.next = self.next + 8;
        Fixed64::at(pos)
    }

    /// Declares the next field as a repeated sequence of 64-bit
    /// elements.
    pub fn repeated_field(&mut self) -> (r: Repeated)
        requires
            old(self).used() + 16 <= usize::MAX,
        ensures
            r.pos() == old(self).used(),
            final(self).used() == old(self).used() + 16,
    {
        let pos = self.next;
        self.next = self.next + 16;
        Repeated::at(pos)
    }

    /// Declares the next field as an enum with the given members.
    pub fn enum_field(&mut self, members: Vec<u64>) -> (r: EnumField)
        requires
            old(self).used() + 8 <= usize::MAX,
        ensures
            r.pos() == old(self).used(),
            r.members() == members@,
            final(self).used() == old(self).used() + 8,
    {
        let pos = self.next;
        self.next = self.next + 8;
        EnumField::at(pos, members)
    }

    /// Declares the next field as a oneof with the given variant tags.
    pub fn oneof_field(&mut self, tags: Vec<u64>) -> (r: Oneof)
        requires
            old(self).used() + 24 <= usize::MAX,
        ensures
            r.pos() == old(self).used(),
            r.tags() == tags@,
            final(self).used() == old(self).used() + 24,
    {
        let pos = self.next;
        self.next = self.next + 24;
        Oneof::at(pos, tags)
    }
}

} // verus!
