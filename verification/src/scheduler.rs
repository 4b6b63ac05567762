//! The test scheduler: drives a commit list in stack order, consults the
//! result cache, hands cache misses out to be run, and aggregates the
//! outcomes.
//!
//! The scheduler never stops at a failure: every commit is attempted, so
//! the summary reflects the true pass/fail distribution across the whole
//! stack. In fix mode the cache is not consulted, because a fresh run is
//! needed to recapture each commit's fix delta; results are still stored.

use vstd::prelude::*;
use crate::cache::CacheEntry;
use crate::cache::CacheEntryView;
use crate::cache::CacheRecordView;
use crate::cache::CacheStore;
use crate::cache::find_entry;
use crate::cache::without_key;

verus! {

/// One commit under test: its identifier, the identifier of its tree
/// contents, and its one-line summary for transcripts.
#[derive(Clone, Debug, Eq, PartialEq)]
pub struct CommitRef {
    /// The commit identifier.
    pub id: String,
    /// The deterministic fingerprint of the commit's full file contents.
    pub tree_id: String,
    /// The one-line commit summary, shown in transcripts.
    pub summary: String,
}

/// The abstract value of a [`CommitRef`].
pub struct CommitRefView {
    /// The commit identifier.
    pub id: Seq<char>,
    /// The tree content identifier.
    pub tree_id: Seq<char>,
    /// The one-line summary.
    pub summary: Seq<char>,
}

impl View for CommitRef {
    type V = CommitRefView;

    open spec fn view(&self) -> CommitRefView {
        CommitRefView { id: self.id@, tree_id: self.tree_id@, summary: self.summary@ }
    }
}

impl DeepView for CommitRef {
    type V = CommitRefView;

    open spec fn deep_view(&self) -> CommitRefView {
        self.view()
    }
}

/// The result of testing one commit.
#[derive(Clone, Copy, Debug, Eq, PartialEq, Structural)]
pub enum TestOutcome {
    /// The command finished with exit code zero.
    Passed,
    /// A stored passing result was reused; the command was not spawned.
    PassedCached,
    /// The command finished with the given nonzero exit code.
    Failed(i32),
    /// A stored failing result was reused; the command was not spawned.
    FailedCached,
    /// The command could not be spawned at all; nothing was stored.
    Skipped,
}

/// Whether an outcome counts as passed.
pub open spec fn is_pass(outcome: TestOutcome) -> bool {
    outcome == TestOutcome::Passed || outcome == TestOutcome::PassedCached
}

/// Whether an outcome counts as failed.
pub open spec fn is_fail(outcome: TestOutcome) -> bool {
    outcome matches TestOutcome::Failed(_) || outcome == TestOutcome::FailedCached
}

/// Whether an outcome counts as skipped.
pub open spec fn is_skip(outcome: TestOutcome) -> bool {
    outcome == TestOutcome::Skipped
}

/// Whether an outcome was served from the cache.
pub open spec fn is_cached(outcome: TestOutcome) -> bool {
    outcome == TestOutcome::PassedCached || outcome == TestOutcome::FailedCached
}

/// How many outcomes of `s` count as passed.
pub open spec fn count_passed(s: Seq<TestOutcome>) -> nat
    decreases s.len(),
{
    if s.len() == 0 {
        0
    } else {
        count_passed(s.drop_last()) + (if is_pass(s.last()) {
            1nat
        } else {
            0nat
        })
    }
}

/// How many outcomes of `s` count as failed.
pub open spec fn count_failed(s: Seq<TestOutcome>) -> nat
    decreases s.len(),
{
    if s.len() == 0 {
        0
    } else {
        count_failed(s.drop_last()) + (if is_fail(s.last()) {
            1nat
        } else {
            0nat
        })
    }
}

/// How many outcomes of `s` count as skipped.
pub open spec fn count_skipped(s: Seq<TestOutcome>) -> nat
    decreases s.len(),
{
    if s.len() == 0 {
        0
    } else {
        count_skipped(s.drop_last()) + (if is_skip(s.last()) {
            1nat
        } else {
            0nat
        })
    }
}

/// How many outcomes of `s` were served from the cache.
pub open spec fn count_cached(s: Seq<TestOutcome>) -> nat
    decreases s.len(),
{
    if s.len() == 0 {
        0
    } else {
        count_cached(s.drop_last()) + (if is_cached(s.last()) {
            1nat
        } else {
            0nat
        })
    }
}

/// Every outcome is exactly one of passed, failed, or skipped.
pub proof fn lemma_counts_partition(s: Seq<TestOutcome>)
    ensures
        count_passed(s) + count_failed(s) + count_skipped(s) == s.len(),
    decreases s.len(),
{
    if s.len() > 0 {
        lemma_counts_partition(s.drop_last());
    }
}

/// The per-commit counts of a finished run.
#[derive(Clone, Copy, Debug, Eq, PartialEq, Structural)]
pub struct RunSummary {
    /// How many commits passed, from the cache or from a fresh run.
    pub passed: usize,
    /// How many commits failed, from the cache or from a fresh run.
    pub failed: usize,
    /// How many commits were skipped.
    pub skipped: usize,
}

/// Aggregate a list of outcomes into its summary counts.
pub fn summarize(outcomes: &Vec<TestOutcome>) -> (r: RunSummary)
    ensures
        r.passed == count_passed(outcomes@),
        r.failed == count_failed(outcomes@),
        r.skipped == count_skipped(outcomes@),
{
    let mut passed: usize = 0;
    let mut failed: usize = 0;
    let mut skipped: usize = 0;
    let n = outcomes.len();
    let mut i: usize = 0;
    proof {
        assert(outcomes@.take(0) =~= Seq::<TestOutcome>::empty());
    }
    while i < n
        invariant
            i <= n,
            n == outcomes@.len(),
            passed == count_passed(outcomes@.take(i as int)),
            failed == count_failed(outcomes@.take(i as int)),
            skipped == count_skipped(outcomes@.take(i as int)),
        decreases n - i,
    {
        proof {
            assert(outcomes@.take(i as int + 1).drop_last() =~= outcomes@.take(i as int));
            assert(outcomes@.take(i as int + 1).last() == outcomes@[i as int]);
            lemma_counts_partition(outcomes@.take(i as int));
        }
        match outcomes[i] {
            TestOutcome::Passed | TestOutcome::PassedCached => {
                passed = passed + 1;
            },
            TestOutcome::Failed(_) | TestOutcome::FailedCached => {
                failed = failed + 1;
            },
            TestOutcome::Skipped => {
                skipped = skipped + 1;
            },
        }
        i = i + 1;
    }
    proof {
        assert(outcomes@.take(n as int) =~= outcomes@);
    }
    RunSummary { passed, failed, skipped }
}

/// Count the outcomes that were served from the cache, for the hint that
/// points at the clean command.
pub fn count_cached_outcomes(outcomes: &Vec<TestOutcome>) -> (r: usize)
    ensures
        r == count_cached(outcomes@),
{
    let mut cached: usize = 0;
    let n = outcomes.len();
    let mut i: usize = 0;
    proof {
        assert(outcomes@.take(0) =~= Seq::<TestOutcome>::empty());
    }
    while i < n
        invariant
            i <= n,
            n == outcomes@.len(),
            cached <= i,
            cached == count_cached(outcomes@.take(i as int)),
        decreases n - i,
    {
        proof {
            assert(outcomes@.take(i as int + 1).drop_last() =~= outcomes@.take(i as int));
            assert(outcomes@.take(i as int + 1).last() == outcomes@[i as int]);
        }
        match outcomes[i] {
            TestOutcome::PassedCached | TestOutcome::FailedCached => {
                cached = cached + 1;
            },
            _ => {},
        }
        i = i + 1;
    }
    proof {
        assert(outcomes@.take(n as int) =~= outcomes@);
    }
    cached
}

/// The outcome recorded when a stored result is reused.
pub open spec fn cached_outcome(entry: CacheEntryView) -> TestOutcome {
    if entry.exit_code == 0 {
        TestOutcome::PassedCached
    } else {
        TestOutcome::FailedCached
    }
}

/// The outcome recorded when the command ran to completion.
pub open spec fn run_outcome(exit_code: int) -> TestOutcome {
    if exit_code == 0 {
        TestOutcome::Passed
    } else {
        TestOutcome::Failed(exit_code as i32)
    }
}

/// The next thing the driver of a run has to do.
#[derive(Clone, Copy, Debug, Eq, PartialEq, Structural)]
pub enum Action {
    /// Materialize the tree of the commit at this position of the stack
    /// and run the command against it.
    Run(usize),
    /// Every commit has an outcome.
    Done,
}

/// What happened when the command was spawned once against one commit.
pub enum RunResult {
    /// The command ran to completion.
    Completed {
        /// The exit code it finished with; nonzero is a test failure,
        /// not an engine error.
        exit_code: i32,
        /// Everything it wrote to stdout.
        stdout: String,
        /// Everything it wrote to stderr.
        stderr: String,
        /// Whether the run left a non-empty fix delta in the tree.
        fixed: bool,
    },
    /// The command could not be spawned at all.
    SpawnFailed,
}

/// The per-commit state machine of one run. Commits move through
/// `Pending -> CacheHit | Running -> Completed` in stack order; the
/// driver alternates [`Scheduler::next_action`] with performing the run
/// it was handed and recording it through [`Scheduler::record_result`].
pub struct Scheduler {
    commits: Vec<CommitRef>,
    command: String,
    fix_mode: bool,
    store: CacheStore,
    outcomes: Vec<TestOutcome>,
}

impl Scheduler {
    /// The commits under test, in stack order.
    pub closed spec fn commits_view(self) -> Seq<CommitRefView> {
        self.commits.deep_view()
    }

    /// The exact command string under test.
    pub closed spec fn command_view(self) -> Seq<char> {
        self.command@
    }

    /// Whether the run recaptures fix deltas, which disables cache hits.
    pub closed spec fn in_fix_mode(self) -> bool {
        self.fix_mode
    }

    /// The records of the result store.
    pub closed spec fn store_model(self) -> Seq<CacheRecordView> {
        self.store.model()
    }

    /// The outcomes recorded so far; position `i` belongs to commit `i`.
    pub closed spec fn outcomes_view(self) -> Seq<TestOutcome> {
        self.outcomes@
    }

    /// Outcomes never outnumber commits, and the store keeps its keys
    /// distinct.
    pub open spec fn wf(self) -> bool {
        self.outcomes_view().len() <= self.commits_view().len() && crate::cache::distinct_keys(
            self.store_model(),
        )
    }

    /// Start a run over the given commits with the given command.
    pub fn new(commits: Vec<CommitRef>, command: String, fix_mode: bool, store: CacheStore) -> (r:
        Scheduler)
        requires
            store.wf(),
        ensures
            r.wf(),
            r.commits_view() == commits.deep_view(),
            r.command_view() == command@,
            r.in_fix_mode() == fix_mode,
            r.store_model() == store.model(),
            r.outcomes_view() == Seq::<TestOutcome>::empty(),
    {
        let r = Scheduler { commits, command, fix_mode, store, outcomes: Vec::new() };
        proof {
            assert(r.outcomes_view() =~= Seq::<TestOutcome>::empty());
        }
        r
    }

    /// Record cached outcomes for as many pending commits as the cache
    /// serves, then say what to do next: run the first commit the cache
    /// does not serve, or finish. In fix mode nothing is taken from the
    /// cache.
    pub fn next_action(&mut self) -> (r: Action)
        requires
            old(self).wf(),
        ensures
            final(self).wf(),
            final(self).commits_view() == old(self).commits_view(),
            final(self).command_view() == old(self).command_view(),
            final(self).in_fix_mode() == old(self).in_fix_mode(),
            final(self).store_model() == old(self).store_model(),
            final(self).outcomes_view().len() >= old(self).outcomes_view().len(),
            forall|j: int|
                0 <= j < old(self).outcomes_view().len() ==> final(self).outcomes_view()[j] == old(
                    self,
                ).outcomes_view()[j],
            forall|j: int|
                #![trigger final(self).outcomes_view()[j]]
                old(self).outcomes_view().len() <= j < final(self).outcomes_view().len() ==> {
                    &&& !old(self).in_fix_mode()
                    &&& find_entry(
                        old(self).store_model(),
                        old(self).commits_view()[j].tree_id,
                        old(self).command_view(),
                    ) matches Some(entry)
                    &&& final(self).outcomes_view()[j] == cached_outcome(entry)
                },
            r matches Action::Run(i) ==> {
                &&& i == final(self).outcomes_view().len()
                &&& (i as int) < final(self).commits_view().len()
                &&& (old(self).in_fix_mode() || find_entry(
                    old(self).store_model(),
                    final(self).commits_view()[i as int].tree_id,
                    old(self).command_view(),
                ) is None)
            },
            r is Done ==> final(self).outcomes_view().len() == final(self).commits_view().len(),
    {
        let ghost initial = self.outcomes@;
        while self.outcomes.len() < self.commits.len()
            invariant
                self.wf(),
                self.commits_view() == old(self).commits_view(),
                self.command_view() == old(self).command_view(),
                self.in_fix_mode() == old(self).in_fix_mode(),
                self.store_model() == old(self).store_model(),
                initial == old(self).outcomes_view(),
                self.outcomes_view().len() >= initial.len(),
                forall|j: int|
                    0 <= j < initial.len() ==> self.outcomes_view()[j] == initial[j],
                forall|j: int|
                    #![trigger self.outcomes_view()[j]]
                    initial.len() <= j < self.outcomes_view().len() ==> {
                        &&& !old(self).in_fix_mode()
                        &&& find_entry(
                            old(self).store_model(),
                            old(self).commits_view()[j].tree_id,
                            old(self).command_view(),
                        ) matches Some(entry)
                        &&& self.outcomes_view()[j] == cached_outcome(entry)
                    },
            decreases self.commits.len() - self.outcomes.len(),
        {
            let index = self.outcomes.len();
            if self.fix_mode {
                return Action::Run(index);
            }
            let hit = match self.store.lookup(
                self.commits[index].tree_id.as_str(),
                self.command.as_str(),
            ) {
                Some(entry) => {
                    if entry.exit_code == 0 {
                        Some(TestOutcome::PassedCached)
                    } else {
                        Some(TestOutcome::FailedCached)
                    }
                },
                None => None,
            };
            match hit {
                Some(outcome) => {
                    self.outcomes.push(outcome);
                },
                None => {
                    return Action::Run(index);
                },
            }
        }
        Action::Done
    }

    /// Record what one run of the command produced for the next pending
    /// commit. A completed run is stored in the cache, failures
    /// included; a spawn failure is recorded as skipped and stores
    /// nothing.
    pub fn record_result(&mut self, result: RunResult)
        requires
            old(self).wf(),
            old(self).outcomes_view().len() < old(self).commits_view().len(),
        ensures
            final(self).wf(),
            final(self).commits_view() == old(self).commits_view(),
            final(self).command_view() == old(self).command_view(),
            final(self).in_fix_mode() == old(self).in_fix_mode(),
            match result {
                RunResult::Completed { exit_code, stdout, stderr, fixed } => {
                    &&& final(self).outcomes_view() == old(self).outcomes_view().push(
                        run_outcome(exit_code as int),
                    )
                    &&& final(self).store_model() == without_key(
                        old(self).store_model(),
                        old(self).commits_view()[old(self).outcomes_view().len() as int].tree_id,
                        old(self).command_view(),
                    ).push(
                        CacheRecordView {
                            tree_id: old(self).commits_view()[old(
                                self,
                            ).outcomes_view().len() as int].tree_id,
                            command: old(self).command_view(),
                            entry: CacheEntryView {
                                exit_code: exit_code as int,
                                stdout: stdout@,
                                stderr: stderr@,
                                fixed: fixed,
                            },
                        },
                    )
                },
                RunResult::SpawnFailed => {
                    &&& final(self).outcomes_view() == old(self).outcomes_view().push(
                        TestOutcome::Skipped,
                    )
                    &&& final(self).store_model() == old(self).store_model()
                },
            },
    {
        let index = self.outcomes.len();
        match result {
            RunResult::Completed { exit_code, stdout, stderr, fixed } => {
                let entry = CacheEntry { exit_code, stdout, stderr, fixed };
                self.store.store(
                    self.commits[index].tree_id.as_str(),
                    self.command.as_str(),
                    entry,
                );
                if exit_code == 0 {
                    self.outcomes.push(TestOutcome::Passed);
                } else {
                    self.outcomes.push(TestOutcome::Failed(exit_code));
                }
            },
            RunResult::SpawnFailed => {
                self.outcomes.push(TestOutcome::Skipped);
            },
        }
    }

    /// The outcomes recorded so far, in stack order.
    pub fn outcomes(&self) -> (r: &Vec<TestOutcome>)
        ensures
            r@ == self.outcomes_view(),
    {
        &self.outcomes
    }

    /// Finish the run: hand back the outcomes and the store.
    pub fn finish(self) -> (r: (Vec<TestOutcome>, CacheStore))
        requires
            self.wf(),
        ensures
            r.0@ == self.outcomes_view(),
            r.1.model() == self.store_model(),
            r.1.wf(),
    {
        (self.outcomes, self.store)
    }
}

} // verus!
