//! Guards over directories that a failure leaves behind.

use vstd::prelude::*;

use crate::path::{DirPath, PathView};

verus! {

/// Helper for removing a directory in case of error: unless it is disarmed, the directory goes
/// when the guard does.
#[derive(Debug)]
pub struct Guard(bool, DirPath);

impl Guard {
    /// Whether the directory goes when the guard does.
    pub closed spec fn armed(&self) -> bool {
        self.0
    }

    /// The directory that is guarded.
    pub closed spec fn path(&self) -> PathView {
        self.1@
    }

    /// The directory to remove when the guard goes, if there is one.
    pub open spec fn leftover(&self) -> Option<PathView> {
        if self.armed() {
            Some(self.path())
        } else {
            None
        }
    }

    /// A guard over the given directory, armed.
    pub fn new(path: DirPath) -> (guard: Self)
        ensures
            guard.armed(),
            guard.path() == path@,
    {
        Guard(true, path)
    }

    /// This guard, disarmed: it lets the directory stand.
    pub fn disarm(self) -> (guard: Self)
        ensures
            !guard.armed(),
            guard.path() == self.path(),
    {
        Guard(false, self.1)
    }

    /// Lets go of the guard, and says which directory has to be removed on that account.
    pub fn drop(self) -> (leftover: Option<DirPath>)
        ensures
            match leftover {
                Some(dir) => self.leftover() == Some(dir@),
                None => self.leftover() is None,
            },
    {
        if self.0 {
            Some(self.1)
        } else {
            None
        }
    }
}

} // verus!
