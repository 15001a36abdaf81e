//! The flags byte of a frame header.

use vstd::prelude::*;

verus! {

/// A flag that a frame type defines: one bit of the header's flags byte.
pub trait Flag: Sized + Copy {
    /// The bit of the flag.
    spec fn mask(&self) -> u8;

    /// The bit of the flag.
    fn bitmask(&self) -> (r: u8)
        ensures
            r == self.mask(),
    ;

    /// The flags that the frame type defines, lowest bit first.
    spec fn all() -> Seq<Self>;

    /// The flags that the frame type defines, lowest bit first.
    fn flags() -> (r: Vec<Self>)
        ensures
            r@ == Self::all(),
    ;
}

/// Whether any bit of `mask` is set in `bits`.
pub open spec fn bits_set(bits: u8, mask: u8) -> bool {
    bits & mask != 0
}

/// The flags byte of a frame. Bits that the frame type does not define are
/// kept as they are.
#[derive(Clone, Copy, Debug, PartialEq, Eq, Structural)]
pub struct Flags(pub u8);

impl Flags {
    /// Wraps a flags byte.
    pub fn new(value: u8) -> (r: Flags)
        ensures
            r.0 == value,
    {
        Flags(value)
    }

    /// Whether the flag is set.
    pub open spec fn has<F: Flag>(self, flag: F) -> bool {
        bits_set(self.0, flag.mask())
    }

    /// Whether the flag is set.
    pub fn is_set<F: Flag>(&self, flag: F) -> (r: bool)
        ensures
            r == self.has(flag),
    {
        (self.0 & flag.bitmask()) != 0
    }

    /// Sets the flag.
    pub fn set<F: Flag>(&mut self, flag: F)
        ensures
            final(self).0 == old(self).0 | flag.mask(),
    {
        self.0 = self.0 | flag.bitmask();
    }

    /// Clears the flag.
    pub fn clear<F: Flag>(&mut self, flag: F)
        ensures
            final(self).0 == old(self).0 & !flag.mask(),
    {
        self.0 = self.0 & !flag.bitmask();
    }

    /// The same flags with one more set.
    pub fn with<F: Flag>(self, flag: F) -> (r: Flags)
        ensures
            r.0 == self.0 | flag.mask(),
    {
        Flags(self.0 | flag.bitmask())
    }
}

impl Default for Flags {
    fn default() -> (r: Flags)
        ensures
            r.0 == 0,
    {
        Flags(0)
    }
}

} // verus!
