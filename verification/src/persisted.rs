//! A value that survives relaunch: one JSON file per value, read on first
//! render, written on every `set`. The application reads and writes the
//! file; this is the value and where it lives.

use std::path::PathBuf;
use vstd::prelude::*;

verus! {

/// A value and the file it is kept in.
pub struct Persisted<T> {
    path: PathBuf,
    value: T,
}

impl<T> Persisted<T> {
    /// The value read from `path`, or the default when there was none.
    pub fn new(path: PathBuf, value: T) -> (r: Self)
        ensures
            r.spec_path() == path,
            r.spec_value() == value,
    {
        Persisted { path, value }
    }

    pub closed spec fn spec_path(&self) -> PathBuf {
        self.path
    }

    pub closed spec fn spec_value(&self) -> T {
        self.value
    }

    /// The current value.
    pub fn value(&self) -> (r: &T)
        ensures
            *r == self.spec_value(),
    {
        &self.value
    }

    /// Where the value is written.
    pub fn path(&self) -> (r: &PathBuf)
        ensures
            *r == self.spec_path(),
    {
        &self.path
    }

    /// Replace the value; the file is written next. A write failure keeps
    /// the value in memory, and the next `set` tries again.
    pub fn set(&mut self, value: T)
        ensures
            final(self).spec_value() == value,
            final(self).spec_path() == old(self).spec_path(),
    {
        self.value = value;
    }
}

} // verus!
