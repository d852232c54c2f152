//! A window that reopens where it was closed. Its bounds are kept in whole
//! pixels; the application converts them and reads and writes the file.

use vstd::prelude::*;

verus! {

/// Whole pixels; a window never sits at a fraction.
#[derive(Clone, Copy, PartialEq, Eq, Debug, Default, Structural)]
pub struct Saved {
    pub x: i32,
    pub y: i32,
    pub w: i32,
    pub h: i32,
}

impl Saved {
    /// Whether saved bounds can open a window: both sides positive.
    pub fn usable(&self) -> (r: bool)
        ensures
            r == (self.w > 0 && self.h > 0),
    {
        self.w > 0 && self.h > 0
    }

    /// The bounds to reopen at: these when usable, else none.
    pub fn reopen(self) -> (r: Option<Saved>)
        ensures
            r == (if self.w > 0 && self.h > 0 {
                Some(self)
            } else {
                None
            }),
    {
        if self.usable() {
            Some(self)
        } else {
            None
        }
    }

    /// Whether the file must be written: the settled bounds differ from
    /// the stored ones.
    pub fn needs_save(stored: &Saved, settled: &Saved) -> (r: bool)
        ensures
            r == (*stored != *settled),
    {
        *stored != *settled
    }
}

} // verus!
