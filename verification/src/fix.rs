//! Fix planning: decide whether a batch of captured fix deltas is baked
//! into history.
//!
//! In fix mode every commit is re-run and the working tree it leaves
//! behind is diffed against the commit's original tree; a non-empty diff
//! becomes a pending amendment. Only when every commit passed is the
//! stack replayed in memory with the amendments folded in. When any
//! commit fails, or when every diff is empty, no commit is rewritten and
//! the original commit identifiers stay valid.

use vstd::prelude::*;
use crate::scheduler::CommitRef;
use crate::scheduler::TestOutcome;
use crate::scheduler::is_pass;

verus! {

/// The delta one run left behind: the identifier of the tree the
/// command produced for the commit, different from the commit's own.
#[derive(Clone, Debug, Eq, PartialEq)]
pub struct Amendment {
    /// The tree the command produced.
    pub changed_tree_id: String,
}

impl View for Amendment {
    type V = Seq<char>;

    open spec fn view(&self) -> Seq<char> {
        self.changed_tree_id@
    }
}

impl DeepView for Amendment {
    type V = Seq<char>;

    open spec fn deep_view(&self) -> Seq<char> {
        self.view()
    }
}

/// What the engine decides to do once every commit has been processed.
#[derive(Clone, Copy, Debug, Eq, PartialEq, Structural)]
pub enum RewritePlan {
    /// Every diff was empty: there are no commits to fix, and history,
    /// file contents and the checked-out commit stay exactly as they
    /// are.
    NoChanges,
    /// Replay the stack in memory with the amendments folded in; this
    /// many commits carry one.
    Rewrite {
        /// How many commits carry an amendment.
        amended_count: usize,
    },
}

/// Why the engine refuses to rewrite: rewriting is only sound when the
/// whole stack passed.
#[derive(Clone, Copy, Debug, Eq, PartialEq, Structural)]
pub enum FixAbort {
    /// The commit at this position of the stack did not pass.
    CommitFailed {
        /// The first position whose outcome was not a pass.
        index: usize,
    },
}

/// The position of the first outcome that is not a pass, or `-1` when
/// every outcome passed.
pub open spec fn first_not_passed(outcomes: Seq<TestOutcome>) -> int
    decreases outcomes.len(),
{
    if outcomes.len() == 0 {
        -1
    } else if !is_pass(outcomes[0]) {
        0
    } else {
        let rest = first_not_passed(outcomes.drop_first());
        if rest == -1 {
            -1
        } else {
            rest + 1
        }
    }
}

/// How many commits carry an amendment.
pub open spec fn count_amended(amendments: Seq<Option<Seq<char>>>) -> nat
    decreases amendments.len(),
{
    if amendments.len() == 0 {
        0
    } else {
        count_amended(amendments.drop_last()) + (if amendments.last() is Some {
            1nat
        } else {
            0nat
        })
    }
}

/// The decision of the fix engine: abort at the first commit that did
/// not pass; otherwise report that there is nothing to fix when no
/// commit carries an amendment; otherwise rewrite.
pub open spec fn planned(
    outcomes: Seq<TestOutcome>,
    amendments: Seq<Option<Seq<char>>>,
) -> Result<RewritePlan, FixAbort> {
    if first_not_passed(outcomes) >= 0 {
        Err(FixAbort::CommitFailed { index: first_not_passed(outcomes) as usize })
    } else if count_amended(amendments) == 0 {
        Ok(RewritePlan::NoChanges)
    } else {
        Ok(RewritePlan::Rewrite { amended_count: count_amended(amendments) as usize })
    }
}

proof fn lemma_first_not_passed_at(outcomes: Seq<TestOutcome>, i: int)
    requires
        0 <= i < outcomes.len(),
        !is_pass(outcomes[i]),
        forall|k: int| 0 <= k < i ==> is_pass(outcomes[k]),
    ensures
        first_not_passed(outcomes) == i,
    decreases i,
{
    if i > 0 {
        lemma_first_not_passed_at(outcomes.drop_first(), i - 1);
    }
}

proof fn lemma_first_not_passed_none(outcomes: Seq<TestOutcome>)
    requires
        forall|k: int| 0 <= k < outcomes.len() ==> is_pass(outcomes[k]),
    ensures
        first_not_passed(outcomes) == -1,
    decreases outcomes.len(),
{
    if outcomes.len() > 0 {
        lemma_first_not_passed_none(outcomes.drop_first());
    }
}

/// Decide what to do after a fix-mode batch: the outcome and the
/// captured amendment of the commit at each position.
pub fn plan_rewrite(outcomes: &Vec<TestOutcome>, amendments: &Vec<Option<Amendment>>) -> (r:
    Result<RewritePlan, FixAbort>)
    ensures
        r == planned(outcomes@, amendments.deep_view()),
{
    let n = outcomes.len();
    let mut i: usize = 0;
    while i < n
        invariant
            i <= n,
            n == outcomes@.len(),
            forall|k: int| 0 <= k < i ==> is_pass(outcomes@[k]),
        decreases n - i,
    {
        let failed = match outcomes[i] {
            TestOutcome::Passed | TestOutcome::PassedCached => false,
            TestOutcome::Failed(_) | TestOutcome::FailedCached | TestOutcome::Skipped => true,
        };
        if failed {
            proof {
                lemma_first_not_passed_at(outcomes@, i as int);
            }
            return Err(FixAbort::CommitFailed { index: i });
        }
        i = i + 1;
    }
    proof {
        lemma_first_not_passed_none(outcomes@);
    }
    let ghost av = amendments.deep_view();
    let m = amendments.len();
    let mut amended: usize = 0;
    let mut j: usize = 0;
    proof {
        assert(av.take(0) =~= Seq::<Option<Seq<char>>>::empty());
    }
    while j < m
        invariant
            j <= m,
            m == av.len(),
            av == amendments.deep_view(),
            amended <= j,
            amended == count_amended(av.take(j as int)),
        decreases m - j,
    {
        proof {
            assert(av.take(j as int + 1).drop_last() =~= av.take(j as int));
            assert(av.take(j as int + 1).last() == av[j as int]);
        }
        match &amendments[j] {
            Some(_) => {
                amended = amended + 1;
            },
            None => {},
        }
        j = j + 1;
    }
    proof {
        assert(av.take(m as int) =~= av);
    }
    if amended == 0 {
        Ok(RewritePlan::NoChanges)
    } else {
        Ok(RewritePlan::Rewrite { amended_count: amended })
    }
}

/// If any commit in a fix-mode batch did not pass, the engine aborts:
/// no commit is rewritten, so the original commit identifiers remain
/// valid and unchanged.
pub proof fn lemma_failed_batch_rewrites_nothing(
    outcomes: Seq<TestOutcome>,
    amendments: Seq<Option<Seq<char>>>,
    i: int,
)
    requires
        0 <= i < outcomes.len(),
        !is_pass(outcomes[i]),
    ensures
        planned(outcomes, amendments) is Err,
    decreases i,
{
    if !is_pass(outcomes[0]) {
        assert(first_not_passed(outcomes) == 0);
    } else {
        lemma_failed_batch_rewrites_nothing(outcomes.drop_first(), amendments, i - 1);
        assert(first_not_passed(outcomes.drop_first()) >= 0);
    }
}

/// An idempotent fixer leaves every diff empty on its second run, and a
/// passing batch without amendments plans no rewrite: history, file
/// contents, and the checked-out commit stay as they are.
pub proof fn lemma_idempotent_fix_changes_nothing(
    outcomes: Seq<TestOutcome>,
    amendments: Seq<Option<Seq<char>>>,
)
    requires
        forall|k: int| 0 <= k < outcomes.len() ==> is_pass(outcomes[k]),
        forall|k: int| 0 <= k < amendments.len() ==> amendments[k] is None,
    ensures
        planned(outcomes, amendments) == Ok::<RewritePlan, FixAbort>(RewritePlan::NoChanges),
    decreases amendments.len(),
{
    lemma_first_not_passed_none(outcomes);
    if amendments.len() > 0 {
        assert(amendments.drop_last().len() == amendments.len() - 1);
        lemma_idempotent_fix_changes_nothing(outcomes, amendments.drop_last());
    }
}

/// Pair every original commit with its rewritten identifier, in stack
/// order, for downstream consumers such as branch pointer updates.
pub fn rewrite_mapping(commits: &Vec<CommitRef>, new_ids: &Vec<String>) -> (r: Vec<
    (String, String),
>)
    requires
        commits@.len() == new_ids@.len(),
    ensures
        r.deep_view().len() == commits@.len(),
        forall|k: int|
            0 <= k < commits@.len() ==> #[trigger] r.deep_view()[k] == (
                commits.deep_view()[k].id,
                new_ids.deep_view()[k],
            ),
{
    let n = commits.len();
    let mut r: Vec<(String, String)> = Vec::new();
    let mut i: usize = 0;
    while i < n
        invariant
            i <= n,
            n == commits@.len(),
            n == new_ids@.len(),
            r.deep_view().len() == i,
            forall|k: int|
                0 <= k < i ==> #[trigger] r.deep_view()[k] == (
                    commits.deep_view()[k].id,
                    new_ids.deep_view()[k],
                ),
        decreases n - i,
    {
        let ghost prev = r.deep_view();
        r.push((commits[i].id.clone(), new_ids[i].clone()));
        proof {
            assert(r.deep_view() =~= prev.push(
                (commits.deep_view()[i as int].id, new_ids.deep_view()[i as int]),
            ));
        }
        i = i + 1;
    }
    r
}

} // verus!
