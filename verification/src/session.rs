//! Checkout sessions: the sequential working-copy traversal and the
//! worktree slot pool.
//!
//! The working-copy strategy steps through one ephemeral
//! history-traversal session; it refuses to start over a session that is
//! already in progress, and refuses to clobber uncommitted changes. The
//! worktree strategy owns a fixed pool of isolated checkout directories,
//! each bound to at most one commit at a time; commits are handed out in
//! stack order and no two slots ever work on the same commit.

use vstd::prelude::*;
use crate::request::TestError;
use crate::scheduler::CommitRef;
use crate::scheduler::CommitRefView;
use crate::scheduler::TestOutcome;

verus! {

/// The working-copy strategy's traversal: one session that materializes
/// each commit's tree in turn, then is unwound so the repository's
/// visible state is unchanged.
pub struct TraversalSession {
    commits: Vec<CommitRef>,
    position: usize,
}

impl TraversalSession {
    /// The commits the session steps through, in stack order.
    pub closed spec fn commits_view(self) -> Seq<CommitRefView> {
        self.commits.deep_view()
    }

    /// How many commits have been stepped through.
    pub closed spec fn position_spec(self) -> int {
        self.position as int
    }

    /// The position never runs past the commit list.
    pub open spec fn wf(self) -> bool {
        0 <= self.position_spec() <= self.commits_view().len()
    }

    /// Begin a traversal. A session that is already in progress is
    /// refused first, with its own error, because its recovery differs:
    /// the stalled session has to be continued or aborted. A working
    /// copy with uncommitted changes is refused next, before anything is
    /// touched.
    pub fn begin(commits: Vec<CommitRef>, working_copy_clean: bool, session_in_progress: bool) -> (r:
        Result<TraversalSession, TestError>)
        ensures
            session_in_progress ==> r == Err::<TraversalSession, TestError>(
                TestError::SessionInProgress,
            ),
            !session_in_progress && !working_copy_clean ==> r == Err::<
                TraversalSession,
                TestError,
            >(TestError::DirtyWorkingCopy),
            !session_in_progress && working_copy_clean ==> (r matches Ok(s) && s.wf()
                && s.commits_view() == commits.deep_view() && s.position_spec() == 0),
    {
        if session_in_progress {
            Err(TestError::SessionInProgress)
        } else if !working_copy_clean {
            Err(TestError::DirtyWorkingCopy)
        } else {
            Ok(TraversalSession { commits, position: 0 })
        }
    }

    /// Step to the next commit: the position of the commit whose tree
    /// the working copy now reflects, or nothing when the traversal is
    /// finished and the session is to be unwound.
    pub fn advance(&mut self) -> (r: Option<usize>)
        requires
            old(self).wf(),
        ensures
            final(self).wf(),
            final(self).commits_view() == old(self).commits_view(),
            old(self).position_spec() < old(self).commits_view().len() ==> (r matches Some(p)
                && p as int == old(self).position_spec()
                && final(self).position_spec() == old(self).position_spec() + 1),
            old(self).position_spec() == old(self).commits_view().len() ==> (r is None
                && final(self).position_spec() == old(self).position_spec()),
    {
        if self.position < self.commits.len() {
            let index = self.position;
            self.position = self.position + 1;
            Some(index)
        } else {
            None
        }
    }
}

/// The worktree strategy's pool: a fixed set of reusable slots, each
/// holding one isolated checkout directory.
pub struct WorktreePool {
    slots: Vec<Option<usize>>,
    next_pending: usize,
    total: usize,
}

impl WorktreePool {
    /// The commit index each slot is working on, if any.
    pub closed spec fn slots_view(self) -> Seq<Option<usize>> {
        self.slots@
    }

    /// How many commits have been handed out so far.
    pub closed spec fn pending_spec(self) -> int {
        self.next_pending as int
    }

    /// How many commits the run has in total.
    pub closed spec fn total_spec(self) -> int {
        self.total as int
    }

    /// The pool invariant: commits are handed out in stack order, every
    /// busy slot works on a commit that was handed out, and no two
    /// slots ever work on the same commit.
    pub open spec fn wf(self) -> bool {
        &&& 0 <= self.pending_spec() <= self.total_spec()
        &&& forall|s: int|
            0 <= s < self.slots_view().len() ==> (#[trigger] self.slots_view()[s] matches Some(c)
                ==> (c as int) < self.pending_spec())
        &&& forall|s1: int, s2: int|
            0 <= s1 < s2 < self.slots_view().len() ==> !(self.slots_view()[s1] is Some
                && self.slots_view()[s1] == self.slots_view()[s2])
    }

    /// A pool of `jobs` free slots for a run over `total` commits.
    pub fn new(jobs: usize, total: usize) -> (r: WorktreePool)
        requires
            jobs >= 1,
        ensures
            r.wf(),
            r.slots_view().len() == jobs,
            forall|s: int| 0 <= s < jobs ==> r.slots_view()[s] is None,
            r.pending_spec() == 0,
            r.total_spec() == total,
    {
        let mut slots: Vec<Option<usize>> = Vec::new();
        let mut i: usize = 0;
        while i < jobs
            invariant
                i <= jobs,
                slots@.len() == i,
                forall|s: int| 0 <= s < i ==> slots@[s] is None,
            decreases jobs - i,
        {
            slots.push(None);
            i = i + 1;
        }
        WorktreePool { slots, next_pending: 0, total }
    }

    /// Hand the next pending commit to a free slot: the slot and the
    /// commit index, or nothing when no commit is pending or no slot is
    /// free.
    pub fn assign(&mut self) -> (r: Option<(usize, usize)>)
        requires
            old(self).wf(),
        ensures
            final(self).wf(),
            final(self).slots_view().len() == old(self).slots_view().len(),
            final(self).total_spec() == old(self).total_spec(),
            r matches Some((slot, commit)) ==> {
                &&& (slot as int) < old(self).slots_view().len()
                &&& old(self).slots_view()[slot as int] is None
                &&& commit as int == old(self).pending_spec()
                &&& (commit as int) < old(self).total_spec()
                &&& final(self).slots_view() == old(self).slots_view().update(
                    slot as int,
                    Some(commit),
                )
                &&& final(self).pending_spec() == old(self).pending_spec() + 1
            },
            r is None ==> *final(self) == *old(self)
                && (old(self).pending_spec() == old(self).total_spec() || forall|s: int|
                0 <= s < old(self).slots_view().len() ==> old(self).slots_view()[s] is Some),
    {
        if self.next_pending >= self.total {
            return None;
        }
        let n = self.slots.len();
        let mut s: usize = 0;
        while s < n
            invariant
                s <= n,
                *self == *old(self),
                self.wf(),
                self.next_pending < self.total,
                n == self.slots@.len(),
                forall|k: int| 0 <= k < s ==> self.slots@[k] is Some,
            decreases n - s,
        {
            let free = match self.slots[s] {
                None => true,
                Some(_) => false,
            };
            if free {
                let commit = self.next_pending;
                self.slots[s] = Some(commit);
                self.next_pending = self.next_pending + 1;
                return Some((s, commit));
            }
            s = s + 1;
        }
        None
    }

    /// Free a slot once its commit's run has completed; the directory
    /// can then be re-pointed at the next commit.
    pub fn release(&mut self, slot: usize)
        requires
            old(self).wf(),
            (slot as int) < old(self).slots_view().len(),
            old(self).slots_view()[slot as int] is Some,
        ensures
            final(self).wf(),
            final(self).slots_view() == old(self).slots_view().update(slot as int, None),
            final(self).pending_spec() == old(self).pending_spec(),
            final(self).total_spec() == old(self).total_spec(),
    {
        self.slots[slot] = None;
    }
}

/// Put results that were collected in completion order back into stack
/// order, so transcripts are deterministic whatever the scheduling
/// races did: position `i` of the result holds the outcome of commit
/// `i`, or nothing for a commit that has no result.
pub fn order_results(total: usize, completed: &Vec<(usize, TestOutcome)>) -> (r: Vec<
    Option<TestOutcome>,
>)
    requires
        forall|k: int| 0 <= k < completed@.len() ==> (#[trigger] completed@[k]).0 < total,
        forall|k1: int, k2: int|
            0 <= k1 < k2 < completed@.len() ==> completed@[k1].0 != completed@[k2].0,
    ensures
        r@.len() == total,
        forall|k: int|
            0 <= k < completed@.len() ==> r@[(#[trigger] completed@[k]).0 as int] == Some(
                completed@[k].1,
            ),
        forall|i: int|
            0 <= i < total && (forall|k: int|
                0 <= k < completed@.len() ==> (#[trigger] completed@[k]).0 != i) ==> r@[i] is None,
{
    let mut r: Vec<Option<TestOutcome>> = Vec::new();
    let mut i: usize = 0;
    while i < total
        invariant
            i <= total,
            r@.len() == i,
            forall|k: int| 0 <= k < i ==> r@[k] is None,
        decreases total - i,
    {
        r.push(None);
        i = i + 1;
    }
    let n = completed.len();
    let mut j: usize = 0;
    while j < n
        invariant
            j <= n,
            n == completed@.len(),
            r@.len() == total,
            forall|k: int| 0 <= k < completed@.len() ==> (#[trigger] completed@[k]).0 < total,
            forall|k1: int, k2: int|
                0 <= k1 < k2 < completed@.len() ==> completed@[k1].0 != completed@[k2].0,
            forall|k: int|
                0 <= k < j ==> r@[(#[trigger] completed@[k]).0 as int] == Some(completed@[k].1),
            forall|i2: int|
                0 <= i2 < total && (forall|k: int|
                    0 <= k < j ==> (#[trigger] completed@[k]).0 != i2) ==> r@[i2] is None,
        decreases n - j,
    {
        let index = completed[j].0;
        let outcome = completed[j].1;
        r[index] = Some(outcome);
        j = j + 1;
    }
    r
}

} // verus!
