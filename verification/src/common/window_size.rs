//! Flow-control windows.

use vstd::prelude::*;

verus! {

/// The largest window that the protocol allows.
pub const MAX_WINDOW_SIZE: i32 = 0x7fff_ffff;

/// A flow-control window: the credit, in bytes, that a sender has left. A
/// change of settings can make it negative.
#[derive(Clone, Copy, Debug, PartialEq, Eq, Structural)]
pub struct WindowSize(pub i32);

impl WindowSize {
    /// A window of the given size.
    pub fn new(size: i32) -> (r: WindowSize)
        ensures
            r.0 == size,
    {
        WindowSize(size)
    }

    /// The size of the window.
    pub fn size(&self) -> (r: i32)
        ensures
            r == self.0,
    {
        self.0
    }

    /// Adds credit. Fails, and changes nothing, where the window would grow
    /// over the largest that the protocol allows.
    pub fn try_increase(&mut self, delta: u32) -> (r: Result<(), ()>)
        ensures
            r is Ok <==> old(self).0 + delta <= MAX_WINDOW_SIZE,
            r is Ok ==> final(self).0 == old(self).0 + delta,
            r is Err ==> final(self).0 == old(self).0,
    {
        let sum: i64 = self.0 as i64 + delta as i64;
        if sum > MAX_WINDOW_SIZE as i64 {
            return Err(());
        }
        self.0 = sum as i32;
        Ok(())
    }

    /// Takes credit away; the window may become negative. Fails, and changes
    /// nothing, where the result does not fit the window's 32 bits.
    pub fn try_decrease(&mut self, delta: i32) -> (r: Result<(), ()>)
        ensures
            r is Ok <==> i32::MIN <= old(self).0 - delta <= i32::MAX,
            r is Ok ==> final(self).0 == old(self).0 - delta,
            r is Err ==> final(self).0 == old(self).0,
    {
        let diff: i64 = self.0 as i64 - delta as i64;
        if diff < i32::MIN as i64 || diff > i32::MAX as i64 {
            return Err(());
        }
        self.0 = diff as i32;
        Ok(())
    }

    /// Takes credit away where the window holds that much. Fails, and
    /// changes nothing, where `delta` is negative or more than the window.
    pub fn try_decrease_to_positive(&mut self, delta: i32) -> (r: Result<(), ()>)
        ensures
            r is Ok <==> 0 <= delta <= old(self).0,
            r is Ok ==> final(self).0 == old(self).0 - delta,
            r is Err ==> final(self).0 == old(self).0,
    {
        if delta < 0 || delta > self.0 {
            return Err(());
        }
        self.0 = self.0 - delta;
        Ok(())
    }
}

} // verus!
