use vstd::prelude::*;

verus! {

/// How the application should proceed after a frame; later variants are more severe.
#[derive(Debug, Clone, Copy, PartialEq, Eq, Structural)]
pub enum AppStatus {
    Continue,
    Exit,
    Error(i32),
}

/// Severity rank of a status; `Error` codes rank among themselves by their value.
pub open spec fn severity(s: AppStatus) -> (int, int) {
    match s {
        AppStatus::Continue => (0, 0),
        AppStatus::Exit => (1, 0),
        AppStatus::Error(c) => (2, c as int),
    }
}

/// `a` is strictly more severe than `b`.
pub open spec fn more_severe(a: AppStatus, b: AppStatus) -> bool {
    let (ra, ca) = severity(a);
    let (rb, cb) = severity(b);
    ra > rb || (ra == rb && ca > cb)
}

impl AppStatus {
    /// Whether `self` ranks above `other`.
    pub fn is_more_severe_than(&self, other: &AppStatus) -> (r: bool)
        ensures
            r == more_severe(*self, *other),
    {
        match (self, other) {
            (AppStatus::Error(a), AppStatus::Error(b)) => *a > *b,
            (AppStatus::Error(_), _) => true,
            (AppStatus::Exit, AppStatus::Continue) => true,
            _ => false,
        }
    }

    /// Moves to `new_status` only when it is more severe than the current one.
    pub fn transition(&mut self, new_status: AppStatus)
        ensures
            *final(self) == if more_severe(new_status, *old(self)) { new_status } else { *old(self) },
    {
        if new_status.is_more_severe_than(self) {
            *self = new_status;
        }
    }
}

} // verus!
