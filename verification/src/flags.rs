//! Flags of the `open` system call.

use vstd::prelude::*;

verus! {

/// The flags of `open`, as a set of bits.
pub struct OpenFlags {
    bits: u32,
}

/// Every bit that names a flag.
pub const OPEN_FLAGS_ALL: u32 = 0x603;

impl View for OpenFlags {
    type V = u32;

    closed spec fn view(&self) -> u32 {
        self.bits
    }
}

/// What `read_write` answers for flags `bits`: `(readable, writable)`.
pub open spec fn read_write_of(bits: u32) -> (bool, bool) {
    if bits == 0 {
        (true, false)
    } else if bits & 1 == 1 {
        (false, true)
    } else {
        (true, true)
    }
}

impl OpenFlags {
    /// Read only: no bit set.
    #[allow(non_snake_case)]
    pub fn RDONLY() -> (r: OpenFlags)
        ensures
            r@ == 0,
    {
        OpenFlags { bits: 0 }
    }

    /// Write only.
    #[allow(non_snake_case)]
    pub fn WRONLY() -> (r: OpenFlags)
        ensures
            r@ == 1,
    {
        OpenFlags { bits: 1 }
    }

    /// Read and write.
    #[allow(non_snake_case)]
    pub fn RDWR() -> (r: OpenFlags)
        ensures
            r@ == 2,
    {
        OpenFlags { bits: 2 }
    }

    /// Create the file if it does not exist.
    #[allow(non_snake_case)]
    pub fn CREATE() -> (r: OpenFlags)
        ensures
            r@ == 0x200,
    {
        OpenFlags { bits: 0x200 }
    }

    /// Clear the file's contents on open.
    #[allow(non_snake_case)]
    pub fn TRUNC() -> (r: OpenFlags)
        ensures
            r@ == 0x400,
    {
        OpenFlags { bits: 0x400 }
    }

    /// The raw bits.
    pub fn bits(&self) -> (r: u32)
        ensures
            r == self@,
    {
        self.bits
    }

    /// The flags with these bits, if every bit names a flag.
    pub fn from_bits(bits: u32) -> (r: Option<OpenFlags>)
        ensures
            r is Some <==> bits & !OPEN_FLAGS_ALL == 0,
            r is Some ==> r->0@ == bits,
    {
        if bits & !OPEN_FLAGS_ALL == 0 {
            Some(OpenFlags { bits })
        } else {
            None
        }
    }

    /// No flag at all.
    pub fn empty() -> (r: OpenFlags)
        ensures
            r@ == 0,
    {
        OpenFlags { bits: 0 }
    }

    /// The flags of `self` and of `other` together.
    pub fn union(self, other: OpenFlags) -> (r: OpenFlags)
        ensures
            r@ == self@ | other@,
    {
        OpenFlags { bits: self.bits | other.bits }
    }

    /// Whether no flag is set.
    pub fn is_empty(&self) -> (r: bool)
        ensures
            r == (self@ == 0),
    {
        self.bits == 0
    }

    /// Whether every flag of `other` is set in `self`.
    pub fn contains(&self, other: OpenFlags) -> (r: bool)
        ensures
            r == (self@ & other@ == other@),
    {
        (self.bits & other.bits) == other.bits
    }

    /// Whether the file is opened for reading and for writing, in that order. Validity
    /// is not checked: with no flag set the file is read-only, with `WRONLY` write-only,
    /// and otherwise readable and writable.
    pub fn read_write(&self) -> (r: (bool, bool))
        ensures
            r == read_write_of(self@),
    {
        if self.is_empty() {
            (true, false)
        } else if self.contains(Self::WRONLY()) {
            (false, true)
        } else {
            (true, true)
        }
    }
}

/// Every flag set contains `RDONLY`, which has no bit.
pub proof fn lemma_contains_rdonly(bits: u32)
    ensures
        bits & 0 == 0,
{
    assert(bits & 0 == 0) by (bit_vector);
}

/// An opened file is always readable or writable.
pub proof fn lemma_read_write_never_neither(bits: u32)
    ensures
        read_write_of(bits).0 || read_write_of(bits).1,
{
}

/// `WRONLY` wins over every other flag: with its bit set the file is write-only.
pub proof fn lemma_wronly_write_only(bits: u32)
    requires
        bits & 1 == 1,
    ensures
        read_write_of(bits) == (false, true),
{
    assert(bits != 0) by (bit_vector)
        requires
            bits & 1 == 1,
    ;
}

/// The access `read_write` grants, bit by bit: the file is readable exactly when the
/// `WRONLY` bit is clear, and writable exactly when some flag is set.
pub proof fn lemma_read_write_access(bits: u32)
    ensures
        read_write_of(bits).0 == (bits & 1 == 0),
        read_write_of(bits).1 == (bits != 0),
{
    assert(bits & 1 == 1 ==> bits != 0) by (bit_vector);
    assert(bits & 1 != 1 ==> bits & 1 == 0) by (bit_vector);
    assert(bits == 0 ==> bits & 1 == 0) by (bit_vector);
}

/// Flags with some bit set and `WRONLY` clear (such as `RDWR | CREATE | TRUNC`) open the
/// file for reading and writing.
pub proof fn lemma_read_write_without_wronly(bits: u32)
    requires
        bits != 0,
        bits & 1 == 0,
    ensures
        read_write_of(bits) == (true, true),
{
    lemma_read_write_access(bits);
}

} // verus!
