//! The cleanup core. The caller performs the per-file filesystem work —
//! reading a size, moving to trash or removing permanently — and records
//! each file's outcome; the cleaner decides the removal strategy from the
//! policy and tallies the bytes reclaimed. A file whose metadata could
//! not be read, or whose removal failed, is skipped: it contributes
//! nothing to the total and aborts nothing.

use vstd::prelude::*;

verus! {

/// How the cleaner removes a file: into the platform's recoverable trash
/// store, or permanently.
#[derive(Debug, Clone, Copy, PartialEq, Eq, Structural)]
pub enum DeleteMethod {
    MoveToTrash,
    DeletePermanently,
}

/// What happened to one file during cleanup: it was removed and had this
/// size just before; its metadata could not be read (it may already be
/// gone); or its removal failed.
#[derive(Debug, Clone, Copy)]
pub enum CleanOutcome {
    Removed { size: u64 },
    MetadataUnavailable,
    RemoveFailed,
}

/// The bytes a cleanup reclaimed: the sum of the pre-deletion sizes of
/// exactly the files that were actually removed.
pub open spec fn cleaned_total(outcomes: Seq<CleanOutcome>) -> int
    decreases outcomes.len(),
{
    if outcomes.len() == 0 {
        0
    } else {
        cleaned_total(outcomes.drop_last()) + (match outcomes.last() {
            CleanOutcome::Removed { size } => size as int,
            CleanOutcome::MetadataUnavailable => 0,
            CleanOutcome::RemoveFailed => 0,
        })
    }
}

/// The sum of the sizes that could be read, for a cleanup estimate.
pub open spec fn sizes_total(sizes: Seq<Option<u64>>) -> int
    decreases sizes.len(),
{
    if sizes.len() == 0 {
        0
    } else {
        sizes_total(sizes.drop_last()) + (match sizes.last() {
            Some(s) => s as int,
            None => 0,
        })
    }
}

/// A prefix of the outcomes reclaims no more than all of them, and never
/// a negative amount.
proof fn lemma_cleaned_total_prefix(outcomes: Seq<CleanOutcome>, i: int)
    requires
        0 <= i <= outcomes.len(),
    ensures
        cleaned_total(outcomes.subrange(0, i)) <= cleaned_total(outcomes),
    decreases outcomes.len() - i,
{
    if i == outcomes.len() {
        assert(outcomes.subrange(0, i) =~= outcomes);
    } else {
        lemma_cleaned_total_prefix(outcomes, i + 1);
        assert(outcomes.subrange(0, i + 1).drop_last() =~= outcomes.subrange(0, i));
    }
}

/// A prefix of the sizes sums to no more than all of them.
proof fn lemma_sizes_total_prefix(sizes: Seq<Option<u64>>, i: int)
    requires
        0 <= i <= sizes.len(),
    ensures
        sizes_total(sizes.subrange(0, i)) <= sizes_total(sizes),
    decreases sizes.len() - i,
{
    if i == sizes.len() {
        assert(sizes.subrange(0, i) =~= sizes);
    } else {
        lemma_sizes_total_prefix(sizes, i + 1);
        assert(sizes.subrange(0, i + 1).drop_last() =~= sizes.subrange(0, i));
    }
}

pub struct Cleaner {
    pub use_trash: bool,
}

impl Cleaner {
    pub fn new(use_trash: bool) -> (c: Self)
        ensures
            c.use_trash == use_trash,
    {
        Cleaner { use_trash }
    }

    /// The removal strategy the policy selects: the recoverable trash
    /// store exactly when trash mode is on, permanent removal exactly
    /// when it is off — with trash mode on, permanent deletion is never
    /// chosen.
    pub fn delete_method(&self) -> (m: DeleteMethod)
        ensures
            (m == DeleteMethod::MoveToTrash) <==> self.use_trash,
            (m == DeleteMethod::DeletePermanently) <==> !self.use_trash,
    {
        if self.use_trash {
            DeleteMethod::MoveToTrash
        } else {
            DeleteMethod::DeletePermanently
        }
    }

    /// Tally a finished cleanup from its per-file outcomes: the returned
    /// total is the sum of the pre-deletion sizes of exactly the files
    /// that were removed; a file skipped for unreadable metadata or a
    /// failed removal is excluded from the sum without aborting the rest.
    pub fn clean_files(&self, outcomes: &Vec<CleanOutcome>) -> (total: u64)
        requires
            cleaned_total(outcomes@) <= u64::MAX,
        ensures
            total as int == cleaned_total(outcomes@),
    {
        let n = outcomes.len();
        let mut total: u64 = 0;
        let mut i: usize = 0;
        while i < n
            invariant
                i <= n,
                n == outcomes@.len(),
                cleaned_total(outcomes@) <= u64::MAX,
                total as int == cleaned_total(outcomes@.subrange(0, i as int)),
            decreases n - i,
        {
            proof {
                assert(outcomes@.subrange(0, i + 1 as int).drop_last() =~= outcomes@.subrange(
                    0,
                    i as int,
                ));
                assert(outcomes@.subrange(0, i + 1 as int).last() == outcomes@[i as int]);
                lemma_cleaned_total_prefix(outcomes@, i + 1);
            }
            match outcomes[i] {
                CleanOutcome::Removed { size } => {
                    total = total + size;
                },
                CleanOutcome::MetadataUnavailable => {},
                CleanOutcome::RemoveFailed => {},
            }
            i = i + 1;
        }
        proof {
            assert(outcomes@.subrange(0, n as int) =~= outcomes@);
        }
        total
    }

    /// The bytes a cleanup of these files would reclaim at best: the sum
    /// of the sizes that could be read.
    pub fn estimate_cleanup_size(&self, sizes: &Vec<Option<u64>>) -> (total: u64)
        requires
            sizes_total(sizes@) <= u64::MAX,
        ensures
            total as int == sizes_total(sizes@),
    {
        let n = sizes.len();
        let mut total: u64 = 0;
        let mut i: usize = 0;
        while i < n
            invariant
                i <= n,
                n == sizes@.len(),
                sizes_total(sizes@) <= u64::MAX,
                total as int == sizes_total(sizes@.subrange(0, i as int)),
            decreases n - i,
        {
            proof {
                assert(sizes@.subrange(0, i + 1 as int).drop_last() =~= sizes@.subrange(
                    0,
                    i as int,
                ));
                assert(sizes@.subrange(0, i + 1 as int).last() == sizes@[i as int]);
                lemma_sizes_total_prefix(sizes@, i + 1);
            }
            match sizes[i] {
                Some(s) => {
                    total = total + s;
                },
                None => {},
            }
            i = i + 1;
        }
        proof {
            assert(sizes@.subrange(0, n as int) =~= sizes@);
        }
        total
    }
}

} // verus!
