//! Decisions about the index database: when the symbol search index is
//! rebuilt, how the rebuild walks the symbol ids, and when search may use it.
use vstd::prelude::*;

use crate::text::{chars_eq, chars_of};

verus! {

/// Whether the symbol search table must be rebuilt with the trigram
/// tokenizer: it exists, but without one.
pub fn fts_upgrade_needed(has_trigram: bool, exists: bool) -> (r: bool)
    ensures
        r == (!has_trigram && exists),
{
    !has_trigram && exists
}

/// Symbol ids copied into the search table per transaction.
pub const FTS_BATCH_SIZE: i64 = 50000;

/// The id ranges a rebuild copies, one batch after another: from the
/// smallest symbol id, each range `[start, start + FTS_BATCH_SIZE)`, while
/// its start is at most the largest id.
pub struct FtsBatches {
    next_id: i64,
    max_id: i64,
}

impl FtsBatches {
    #[verifier::type_invariant]
    spec fn fits(self) -> bool {
        self.max_id <= i64::MAX - FTS_BATCH_SIZE
    }

    /// The first id of the next range.
    pub closed spec fn next_start(self) -> i64 {
        self.next_id
    }

    /// The largest id to copy.
    pub closed spec fn last_id(self) -> i64 {
        self.max_id
    }

    /// The ranges over the ids from `min_id` to `max_id`.
    pub fn new(min_id: i64, max_id: i64) -> (r: FtsBatches)
        requires
            max_id <= i64::MAX - FTS_BATCH_SIZE,
        ensures
            r.next_start() == min_id,
            r.last_id() == max_id,
    {
        FtsBatches { next_id: min_id, max_id }
    }

    /// The next range, `None` once its start would pass the largest id.
    pub fn next_batch(&mut self) -> (r: Option<(i64, i64)>)
        ensures
            old(self).next_start() <= old(self).last_id() ==> (r matches Some((lo, hi)) && lo == old(self).next_start() && hi == old(self).next_start() + FTS_BATCH_SIZE)
                && final(self).next_start() == old(self).next_start() + FTS_BATCH_SIZE
                && final(self).last_id() == old(self).last_id(),
            old(self).next_start() > old(self).last_id() ==> r is None && final(self).next_start() == old(self).next_start()
                && final(self).last_id() == old(self).last_id(),
    {
        proof {
            use_type_invariant(&*self);
        }
        if self.next_id <= self.max_id {
            let start = self.next_id;
            let end = start + FTS_BATCH_SIZE;
            self.next_id = end;
            Some((start, end))
        } else {
            None
        }
    }
}

/// Whether the search tables may be used: the stored `fts_status` is
/// `ready`, or none could be read.
pub fn is_fts_ready(status: Option<&str>) -> (r: bool)
    ensures
        r == match status {
            Some(s) => s@ == "ready"@,
            None => true,
        },
{
    match status {
        Some(s) => chars_eq(&chars_of(s), &chars_of("ready")),
        None => true,
    }
}

} // verus!
