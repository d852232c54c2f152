//! Re-render when a file changes. The application polls the file's
//! modified time on a timer and hands each reading over; a reading that
//! differs from the last one, including the file appearing or going away,
//! bumps the version.

use vstd::prelude::*;

verus! {

/// The version the view keys on, and the modified time last seen:
/// nanoseconds from the Unix epoch, `None` while the file is missing.
pub struct FileWatch {
    version: u64,
    last: Option<i128>,
}

impl FileWatch {
    /// Start watching, with the file's modified time now.
    pub fn new(initial: Option<i128>) -> (r: FileWatch)
        ensures
            r.spec_version() == 0,
            r.spec_last() == initial,
    {
        FileWatch { version: 0, last: initial }
    }

    pub closed spec fn spec_version(&self) -> u64 {
        self.version
    }

    pub closed spec fn spec_last(&self) -> Option<i128> {
        self.last
    }

    /// Increments each time the file's modified time changes, including
    /// when the file appears or disappears.
    pub fn version(&self) -> (r: u64)
        ensures
            r == self.spec_version(),
    {
        self.version
    }

    /// A poll read `now`. Returns whether it differed from the last reading,
    /// in which case the version went up by one.
    pub fn observe(&mut self, now: Option<i128>) -> (changed: bool)
        requires
            old(self).spec_version() < u64::MAX,
        ensures
            observed(*old(self), now, changed, *final(self)),
    {
        if now == self.last {
            return false;
        }
        self.last = now;
        self.version = self.version + 1;
        true
    }
}

/// One poll as `observe` states it: `changed` says whether `now` differs
/// from the last reading; `now` becomes the last reading, and the version
/// goes up by one exactly when it changed.
pub open spec fn observed(before: FileWatch, now: Option<i128>, changed: bool, after: FileWatch) -> bool {
    &&& changed == (now != before.spec_last())
    &&& after.spec_last() == now
    &&& after.spec_version() == if changed {
        before.spec_version() + 1
    } else {
        before.spec_version() as int
    }
}

/// How many of `polls` differ from the reading before them, the first
/// from `initial`.
pub open spec fn change_count(initial: Option<i128>, polls: Seq<Option<i128>>) -> nat
    decreases polls.len(),
{
    if polls.len() == 0 {
        0
    } else {
        let before = if polls.len() == 1 {
            initial
        } else {
            polls[polls.len() - 2]
        };
        change_count(initial, polls.drop_last()) + if polls.last() != before {
            1nat
        } else {
            0nat
        }
    }
}

/// The version counts changes: over a run of polls, it grows by the
/// number of readings that differ from the one before them, so a quiet
/// file stays where it was and each new modified time bumps it once.
/// `watches[i]` is the watch before poll `i`, `changed[i]` what that poll
/// returned.
pub proof fn lemma_version_counts_changes(
    polls: Seq<Option<i128>>,
    watches: Seq<FileWatch>,
    changed: Seq<bool>,
)
    requires
        watches.len() == polls.len() + 1,
        changed.len() == polls.len(),
        forall|i: int| 0 <= i < polls.len() ==> observed(watches[i], polls[i], changed[i], watches[i + 1]),
    ensures
        watches.last().spec_version() == watches[0].spec_version() + change_count(watches[0].spec_last(), polls),
        watches.last().spec_last() == if polls.len() == 0 {
            watches[0].spec_last()
        } else {
            polls.last()
        },
    decreases polls.len(),
{
    if polls.len() > 0 {
        let n = polls.len() - 1;
        lemma_version_counts_changes(polls.drop_last(), watches.drop_last(), changed.drop_last());
        assert(observed(watches[n], polls[n], changed[n], watches[n + 1]));
        assert(polls.drop_last() =~= polls.subrange(0, n));
    }
}

} // verus!
