//! Safe mutation bookkeeping: recoverable batch delete and the
//! rename/undo round trip.
//!
//! The host performs the filesystem work — it probes each path, moves
//! entries to the platform trash, renames files — and this module fixes
//! what is decided about the outcomes: how a batch report is assembled and
//! why undoing a rename restores the previous state.

use vstd::prelude::*;
use vstd::multiset::Multiset;

verus! {

/// The removal policy of the mutator. Deletion is a destructive bulk
/// operation, so it routes through the platform's recoverable trash
/// facility wherever one exists; permanent removal is the explicit
/// fallback for hosts without one.
#[derive(Debug, Clone, Copy, PartialEq, Eq)]
pub enum DeletePolicy {
    /// Move entries to the platform trash, reversible by the user.
    Recoverable,
    /// Remove entries outright.
    Permanent,
}

/// What the host's attempt on one path of a delete batch came to.
#[derive(Debug, Clone)]
pub enum DeleteOutcome {
    /// The path no longer existed when the batch reached it; nothing was
    /// attempted.
    Missing,
    /// The entry was removed: moved to the trash under the recoverable
    /// policy, deleted outright under the permanent one.
    Removed,
    /// The removal failed; the text is the underlying error.
    Failed(String),
}

/// One path of a delete batch with the host's outcome for it.
#[derive(Debug, Clone)]
pub struct DeleteAttempt {
    pub path: String,
    pub outcome: DeleteOutcome,
}

/// Report of a whole delete batch: per-item outcomes, never a whole-call
/// failure.
#[derive(Debug)]
pub struct DeleteResult {
    pub success: Vec<String>,
    pub failed: Vec<(String, String)>,
}

/// Paths whose removal succeeded, in input order.
pub open spec fn succeeded_of(s: Seq<DeleteAttempt>) -> Seq<String>
    decreases s.len(),
{
    if s.len() == 0 {
        Seq::empty()
    } else {
        let rest = succeeded_of(s.drop_last());
        if s.last().outcome is Removed {
            rest.push(s.last().path)
        } else {
            rest
        }
    }
}

/// Failures in input order: each failed path with the reason reported for
/// it — "File does not exist" for a path that was gone, else the
/// underlying error text.
pub open spec fn failed_of(s: Seq<DeleteAttempt>) -> Seq<(Seq<char>, Seq<char>)>
    decreases s.len(),
{
    if s.len() == 0 {
        Seq::empty()
    } else {
        let rest = failed_of(s.drop_last());
        match s.last().outcome {
            DeleteOutcome::Missing => rest.push((s.last().path@, "File does not exist"@)),
            DeleteOutcome::Removed => rest,
            DeleteOutcome::Failed(e) => rest.push((s.last().path@, e@)),
        }
    }
}

/// The path texts of a batch, in input order.
pub open spec fn attempt_paths(s: Seq<DeleteAttempt>) -> Seq<Seq<char>> {
    s.map_values(|a: DeleteAttempt| a.path@)
}

/// The path texts of a success list.
pub open spec fn success_paths(s: Seq<String>) -> Seq<Seq<char>> {
    s.map_values(|p: String| p@)
}

/// The path texts of a failure list.
pub open spec fn failure_paths(s: Seq<(Seq<char>, Seq<char>)>) -> Seq<Seq<char>> {
    s.map_values(|f: (Seq<char>, Seq<char>)| f.0)
}

/// Assemble the report of a delete batch from the per-path outcomes, in
/// input order. Every attempt lands in exactly one of the two lists.
pub fn delete_files(attempts: &Vec<DeleteAttempt>) -> (r: DeleteResult)
    ensures
        r.success@ == succeeded_of(attempts@),
        r.failed@.len() == failed_of(attempts@).len(),
        forall|i: int|
            0 <= i < r.failed@.len() ==> r.failed@[i].0@ == failed_of(attempts@)[i].0
                && r.failed@[i].1@ == failed_of(attempts@)[i].1,
{
    let mut success: Vec<String> = Vec::new();
    let mut failed: Vec<(String, String)> = Vec::new();
    let mut j: usize = 0;
    proof {
        assert(attempts@.subrange(0, 0) =~= Seq::<DeleteAttempt>::empty());
    }
    while j < attempts.len()
        invariant
            j <= attempts.len(),
            success@ == succeeded_of(attempts@.subrange(0, j as int)),
            failed@.len() == failed_of(attempts@.subrange(0, j as int)).len(),
            forall|i: int|
                0 <= i < failed@.len() ==> failed@[i].0@ == failed_of(
                    attempts@.subrange(0, j as int),
                )[i].0 && failed@[i].1@ == failed_of(attempts@.subrange(0, j as int))[i].1,
        decreases attempts.len() - j,
    {
        let ghost prefix = attempts@.subrange(0, j as int);
        let ghost prefix1 = attempts@.subrange(0, j as int + 1);
        proof {
            assert(prefix1.drop_last() =~= prefix);
            assert(prefix1.last() == attempts@[j as int]);
        }
        let a = &attempts[j];
        match &a.outcome {
            DeleteOutcome::Missing => {
                failed.push((a.path.clone(), "File does not exist".to_owned()));
            },
            DeleteOutcome::Removed => {
                success.push(a.path.clone());
            },
            DeleteOutcome::Failed(e) => {
                failed.push((a.path.clone(), e.clone()));
            },
        }
        j = j + 1;
    }
    proof {
        assert(attempts@.subrange(0, attempts@.len() as int) =~= attempts@);
    }
    DeleteResult { success, failed }
}

/// A delete batch reports every input path exactly once: the successes and
/// the failures are as many as the attempts, and together they carry the
/// attempted paths with the same multiplicities.
pub proof fn lemma_delete_partition(s: Seq<DeleteAttempt>)
    ensures
        succeeded_of(s).len() + failed_of(s).len() == s.len(),
        success_paths(succeeded_of(s)).to_multiset().add(
            failure_paths(failed_of(s)).to_multiset(),
        ) =~= attempt_paths(s).to_multiset(),
    decreases s.len(),
{
    broadcast use vstd::seq_lib::group_to_multiset_ensures;

    if s.len() == 0 {
        assert(success_paths(succeeded_of(s)) =~= Seq::<Seq<char>>::empty());
        assert(failure_paths(failed_of(s)) =~= Seq::<Seq<char>>::empty());
        assert(attempt_paths(s) =~= Seq::<Seq<char>>::empty());
        assert(Seq::<Seq<char>>::empty().to_multiset() =~= Multiset::<Seq<char>>::empty());
    } else {
        let d = s.drop_last();
        lemma_delete_partition(d);
        assert(attempt_paths(s) =~= attempt_paths(d).push(s.last().path@));
        match s.last().outcome {
            DeleteOutcome::Removed => {
                assert(success_paths(succeeded_of(s)) =~= success_paths(succeeded_of(d)).push(
                    s.last().path@,
                ));
                assert(failure_paths(failed_of(s)) =~= failure_paths(failed_of(d)));
            },
            DeleteOutcome::Missing => {
                assert(success_paths(succeeded_of(s)) =~= success_paths(succeeded_of(d)));
                assert(failure_paths(failed_of(s)) =~= failure_paths(failed_of(d)).push(
                    s.last().path@,
                ));
            },
            DeleteOutcome::Failed(e) => {
                assert(success_paths(succeeded_of(s)) =~= success_paths(succeeded_of(d)));
                assert(failure_paths(failed_of(s)) =~= failure_paths(failed_of(d)).push(
                    s.last().path@,
                ));
            },
        }
    }
}

/// A flat model of the filesystem around a rename: each absolute path maps
/// to the entry it names. Renaming moves the entry from one path to the
/// other when the source exists and the target does not, and otherwise
/// changes nothing.
pub open spec fn rename_spec<V>(fs: Map<Seq<char>, V>, from: Seq<char>, to: Seq<char>) -> Map<
    Seq<char>,
    V,
> {
    if fs.contains_key(from) && !fs.contains_key(to) {
        fs.remove(from).insert(to, fs[from])
    } else {
        fs
    }
}

/// Renaming A to B and then B back to A restores the filesystem exactly,
/// whenever B did not exist beforehand: undoing a rename with the
/// arguments reversed is a true inverse.
pub proof fn lemma_rename_round_trip<V>(fs: Map<Seq<char>, V>, a: Seq<char>, b: Seq<char>)
    requires
        fs.contains_key(a),
        !fs.contains_key(b),
    ensures
        rename_spec(rename_spec(fs, a, b), b, a) == fs,
{
    let mid = rename_spec(fs, a, b);
    assert(a != b);
    assert(mid == fs.remove(a).insert(b, fs[a]));
    assert(mid.contains_key(b));
    assert(!mid.contains_key(a));
    assert(rename_spec(mid, b, a) =~= fs);
}

} // verus!
