use stacktest::cache::escape_command;
use stacktest::cache::CacheEntry;
use stacktest::cache::CacheStore;
use stacktest::fix::plan_rewrite;
use stacktest::fix::rewrite_mapping;
use stacktest::fix::Amendment;
use stacktest::fix::FixAbort;
use stacktest::fix::RewritePlan;
use stacktest::request::parse_strategy;
use stacktest::request::resolve_command;
use stacktest::request::resolve_strategy;
use stacktest::request::validate_jobs;
use stacktest::request::CommandChoice;
use stacktest::request::Strategy;
use stacktest::request::TestError;
use stacktest::request::TestRequest;
use stacktest::scheduler::summarize;
use stacktest::scheduler::Action;
use stacktest::scheduler::CommitRef;
use stacktest::scheduler::RunResult;
use stacktest::scheduler::Scheduler;
use stacktest::scheduler::TestOutcome;
use stacktest::session::order_results;
use stacktest::session::TraversalSession;
use stacktest::session::WorktreePool;

fn commit(id: &str, tree_id: &str, summary: &str) -> CommitRef {
    CommitRef {
        id: id.to_string(),
        tree_id: tree_id.to_string(),
        summary: summary.to_string(),
    }
}

fn completed(exit_code: i32) -> RunResult {
    RunResult::Completed {
        exit_code,
        stdout: String::new(),
        stderr: String::new(),
        fixed: false,
    }
}

fn entry(exit_code: i32) -> CacheEntry {
    CacheEntry {
        exit_code,
        stdout: String::new(),
        stderr: String::new(),
        fixed: false,
    }
}

#[test]
fn test_escape_command_replaces_whitespace() {
    assert_eq!(escape_command("bash test.sh 10"), "bash__test.sh__10");
    assert_eq!(escape_command("echo hello"), "echo__hello");
    assert_eq!(escape_command("exit 0"), "exit__0");
    assert_eq!(escape_command("a\tb\nc"), "a__b__c");
    assert_eq!(escape_command("no-spaces"), "no-spaces");
    assert_eq!(escape_command(""), "");
}

#[test]
fn test_cache_store_round_trip() {
    let mut store = CacheStore::new();
    assert!(store.lookup("tree1", "exit 0").is_none());
    assert!(!store.has_entry("tree1", "exit 0"));

    store.store("tree1", "exit 0", entry(0));
    let found = store.lookup("tree1", "exit 0").expect("entry should be stored");
    assert_eq!(found.exit_code, 0);
    assert!(store.has_entry("tree1", "exit 0"));

    // A different command or a different tree misses.
    assert!(store.lookup("tree1", "exit 1").is_none());
    assert!(store.lookup("tree2", "exit 0").is_none());

    // Storing again under the same key overwrites.
    store.store("tree1", "exit 0", entry(1));
    let found = store.lookup("tree1", "exit 0").expect("entry should be stored");
    assert_eq!(found.exit_code, 1);
}

#[test]
fn test_cache_stores_failures_too() {
    let mut store = CacheStore::new();
    store.store("tree1", "exit 1", entry(1));
    let found = store.lookup("tree1", "exit 1").expect("failing entry should be stored");
    assert_eq!(found.exit_code, 1);
}

#[test]
fn test_clean_removes_exactly_the_given_trees() {
    let mut store = CacheStore::new();
    store.store("tree1", "echo hi", entry(0));
    store.store("tree2", "echo hi", entry(0));
    store.store("tree2", "exit 0", entry(0));
    store.store("tree3", "echo hi", entry(0));

    let (flags, removed) = store.clean(&vec!["tree1".to_string(), "tree2".to_string()]);
    assert_eq!(flags, vec![true, true]);
    assert_eq!(removed, 3);

    // The cleaned trees report no cached data afterwards.
    assert!(store.lookup("tree1", "echo hi").is_none());
    assert!(store.lookup("tree2", "echo hi").is_none());
    assert!(store.lookup("tree2", "exit 0").is_none());
    // Other trees keep their results.
    assert!(store.lookup("tree3", "echo hi").is_some());

    // A second clean finds nothing left.
    let (flags, removed) = store.clean(&vec!["tree1".to_string(), "tree2".to_string()]);
    assert_eq!(flags, vec![false, false]);
    assert_eq!(removed, 0);
}

#[test]
fn test_parse_strategy_values() {
    assert_eq!(parse_strategy("working-copy"), Ok(Strategy::WorkingCopy));
    assert_eq!(parse_strategy("worktree"), Ok(Strategy::Worktree));
    assert_eq!(
        parse_strategy("invalid-value"),
        Err(TestError::InvalidStrategy {
            value: "invalid-value".to_string(),
        })
    );
}

#[test]
fn test_jobs_argument_validation() {
    // One job is legal under either strategy.
    assert!(validate_jobs(Strategy::WorkingCopy, 1).is_ok());
    assert!(validate_jobs(Strategy::Worktree, 1).is_ok());
    // Any other count requires the worktree strategy, whatever its value.
    assert_eq!(
        validate_jobs(Strategy::WorkingCopy, 0),
        Err(TestError::JobsRequireWorktree {
            strategy: Strategy::WorkingCopy,
        })
    );
    assert_eq!(
        validate_jobs(Strategy::WorkingCopy, 2),
        Err(TestError::JobsRequireWorktree {
            strategy: Strategy::WorkingCopy,
        })
    );
    assert_eq!(
        validate_jobs(Strategy::WorkingCopy, 48),
        Err(TestError::JobsRequireWorktree {
            strategy: Strategy::WorkingCopy,
        })
    );
    assert!(validate_jobs(Strategy::Worktree, 0).is_ok());
    assert!(validate_jobs(Strategy::Worktree, 8).is_ok());
}

#[test]
fn test_test_request_new_checks_jobs() {
    let request = TestRequest::new("exit 0".to_string(), Strategy::Worktree, 2, 0)
        .expect("two jobs under worktree should be accepted");
    assert_eq!(request.jobs, 2);
    assert!(TestRequest::new("exit 0".to_string(), Strategy::WorkingCopy, 1, 0).is_ok());
    assert_eq!(
        TestRequest::new("exit 0".to_string(), Strategy::WorkingCopy, 2, 0),
        Err(TestError::JobsRequireWorktree {
            strategy: Strategy::WorkingCopy,
        })
    );
}

#[test]
fn test_resolve_strategy_precedence() {
    // An explicit choice wins.
    assert_eq!(
        resolve_strategy(Some(Strategy::WorkingCopy), Some(Strategy::Worktree), Some(2)),
        Strategy::WorkingCopy
    );
    // A job count above one selects the worktree strategy.
    assert_eq!(resolve_strategy(None, None, Some(2)), Strategy::Worktree);
    // Otherwise the configured default applies.
    assert_eq!(
        resolve_strategy(None, Some(Strategy::Worktree), Some(1)),
        Strategy::Worktree
    );
    // And without any of those, the working copy is used.
    assert_eq!(resolve_strategy(None, None, None), Strategy::WorkingCopy);
}

#[test]
fn test_resolve_command_from_alias_table() {
    let aliases = vec![
        ("foo".to_string(), "echo foo".to_string()),
        ("default".to_string(), "echo default".to_string()),
    ];
    assert_eq!(
        resolve_command(&Some(CommandChoice::Exec("exit 0".to_string())), &aliases),
        Ok("exit 0".to_string())
    );
    assert_eq!(
        resolve_command(&Some(CommandChoice::Alias("foo".to_string())), &aliases),
        Ok("echo foo".to_string())
    );
    assert_eq!(resolve_command(&None, &aliases), Ok("echo default".to_string()));
    assert_eq!(
        resolve_command(&Some(CommandChoice::Alias("nonexistent".to_string())), &aliases),
        Err(TestError::AliasNotDefined {
            name: "nonexistent".to_string(),
        })
    );
    assert_eq!(
        resolve_command(&None, &vec![]),
        Err(TestError::NoCommandConfigured)
    );
}

fn run_all(scheduler: &mut Scheduler, exit_code: i32) -> usize {
    let mut spawned = 0;
    loop {
        match scheduler.next_action() {
            Action::Done => return spawned,
            Action::Run(_) => {
                spawned += 1;
                scheduler.record_result(completed(exit_code));
            }
        }
    }
}

#[test]
fn test_scheduler_all_passed() {
    let commits = vec![
        commit("a1", "tree1", "create test2.txt"),
        commit("b2", "tree2", "create test3.txt"),
    ];
    let mut scheduler = Scheduler::new(commits, "exit 0".to_string(), false, CacheStore::new());
    let spawned = run_all(&mut scheduler, 0);
    assert_eq!(spawned, 2);
    let (outcomes, _store) = scheduler.finish();
    assert_eq!(outcomes, vec![TestOutcome::Passed, TestOutcome::Passed]);
    let summary = summarize(&outcomes);
    assert_eq!(summary.passed, 2);
    assert_eq!(summary.failed, 0);
    assert_eq!(summary.skipped, 0);
}

#[test]
fn test_scheduler_all_failed() {
    let commits = vec![
        commit("a1", "tree1", "create test2.txt"),
        commit("b2", "tree2", "create test3.txt"),
        commit("c3", "tree3", "create test4.txt"),
    ];
    let mut scheduler = Scheduler::new(commits, "exit 1".to_string(), false, CacheStore::new());
    let spawned = run_all(&mut scheduler, 1);
    assert_eq!(spawned, 3);
    let (outcomes, _store) = scheduler.finish();
    assert_eq!(
        outcomes,
        vec![
            TestOutcome::Failed(1),
            TestOutcome::Failed(1),
            TestOutcome::Failed(1),
        ]
    );
    let summary = summarize(&outcomes);
    assert_eq!(summary.passed, 0);
    assert_eq!(summary.failed, 3);
    assert_eq!(summary.skipped, 0);
}

#[test]
fn test_scheduler_revert_commit_is_served_from_cache() {
    // The third commit reverts the second, so its tree matches the first
    // commit's already-tested tree: it is reported as cached and the
    // command is not spawned for it.
    let commits = vec![
        commit("a1", "tree1", "create test2.txt"),
        commit("b2", "tree2", "create test3.txt"),
        commit("c3", "tree1", "Revert \"create test3.txt\""),
    ];
    let mut scheduler = Scheduler::new(commits, "exit 0".to_string(), false, CacheStore::new());
    let spawned = run_all(&mut scheduler, 0);
    assert_eq!(spawned, 2);
    let (outcomes, store) = scheduler.finish();
    assert_eq!(
        outcomes,
        vec![
            TestOutcome::Passed,
            TestOutcome::Passed,
            TestOutcome::PassedCached,
        ]
    );

    // A second run over the same commits is served entirely from the
    // cache, without spawning the command at all.
    let commits = vec![
        commit("a1", "tree1", "create test2.txt"),
        commit("b2", "tree2", "create test3.txt"),
        commit("c3", "tree1", "Revert \"create test3.txt\""),
    ];
    let mut scheduler = Scheduler::new(commits, "exit 0".to_string(), false, store);
    let spawned = run_all(&mut scheduler, 0);
    assert_eq!(spawned, 0);
    let (outcomes, _store) = scheduler.finish();
    assert_eq!(
        outcomes,
        vec![
            TestOutcome::PassedCached,
            TestOutcome::PassedCached,
            TestOutcome::PassedCached,
        ]
    );
}

#[test]
fn test_scheduler_cached_failure_is_not_rerun() {
    let commits = vec![commit("a1", "tree1", "create test2.txt")];
    let mut scheduler = Scheduler::new(commits, "exit 1".to_string(), false, CacheStore::new());
    assert_eq!(run_all(&mut scheduler, 1), 1);
    let (_outcomes, store) = scheduler.finish();

    let commits = vec![commit("a1", "tree1", "create test2.txt")];
    let mut scheduler = Scheduler::new(commits, "exit 1".to_string(), false, store);
    assert_eq!(run_all(&mut scheduler, 1), 0);
    let (outcomes, _store) = scheduler.finish();
    assert_eq!(outcomes, vec![TestOutcome::FailedCached]);
}

#[test]
fn test_scheduler_fix_mode_reruns_cached_passes() {
    let commits = vec![commit("a1", "tree1", "create test2.txt")];
    let mut scheduler = Scheduler::new(commits, "exit 0".to_string(), false, CacheStore::new());
    assert_eq!(run_all(&mut scheduler, 0), 1);
    let (_outcomes, store) = scheduler.finish();

    // In fix mode a cached pass does not exempt the commit from
    // re-execution: the delta has to be recaptured.
    let commits = vec![commit("a1", "tree1", "create test2.txt")];
    let mut scheduler = Scheduler::new(commits, "exit 0".to_string(), true, store);
    assert_eq!(run_all(&mut scheduler, 0), 1);
    let (outcomes, _store) = scheduler.finish();
    assert_eq!(outcomes, vec![TestOutcome::Passed]);
}

#[test]
fn test_scheduler_spawn_failure_is_skipped_and_not_cached() {
    let commits = vec![
        commit("a1", "tree1", "create test2.txt"),
        commit("b2", "tree2", "create test3.txt"),
    ];
    let mut scheduler = Scheduler::new(commits, "nonexistent-command".to_string(), false, CacheStore::new());
    match scheduler.next_action() {
        Action::Run(0) => scheduler.record_result(RunResult::SpawnFailed),
        action => panic!("unexpected action {action:?}"),
    }
    match scheduler.next_action() {
        Action::Run(1) => scheduler.record_result(completed(0)),
        action => panic!("unexpected action {action:?}"),
    }
    assert_eq!(scheduler.next_action(), Action::Done);
    let (outcomes, store) = scheduler.finish();
    assert_eq!(outcomes, vec![TestOutcome::Skipped, TestOutcome::Passed]);
    let summary = summarize(&outcomes);
    assert_eq!((summary.passed, summary.failed, summary.skipped), (1, 0, 1));
    // The spawn failure stored nothing.
    assert!(!store.has_entry("tree1", "nonexistent-command"));
    assert!(store.has_entry("tree2", "nonexistent-command"));
}

#[test]
fn test_traversal_session_preconditions() {
    let commits = vec![commit("a1", "tree1", "create test1.txt")];
    // An in-progress session is refused first, with its own error.
    assert!(matches!(
        TraversalSession::begin(commits.clone(), false, true),
        Err(TestError::SessionInProgress)
    ));
    // A dirty working copy is refused before anything is touched.
    assert!(matches!(
        TraversalSession::begin(commits.clone(), false, false),
        Err(TestError::DirtyWorkingCopy)
    ));
    let mut session = TraversalSession::begin(commits, true, false).expect("session should begin");
    assert_eq!(session.advance(), Some(0));
    assert_eq!(session.advance(), None);
}

#[test]
fn test_worktree_pool_assigns_in_stack_order() {
    let mut pool = WorktreePool::new(2, 3);
    let (slot_a, commit_a) = pool.assign().expect("first assignment");
    let (slot_b, commit_b) = pool.assign().expect("second assignment");
    assert_eq!(commit_a, 0);
    assert_eq!(commit_b, 1);
    assert_ne!(slot_a, slot_b);
    // Both slots busy: nothing can be assigned.
    assert!(pool.assign().is_none());
    pool.release(slot_a);
    let (slot_c, commit_c) = pool.assign().expect("slot freed");
    assert_eq!(commit_c, 2);
    assert_eq!(slot_c, slot_a);
    // All commits handed out.
    pool.release(slot_b);
    assert!(pool.assign().is_none());
}

#[test]
fn test_order_results_restores_stack_order() {
    let completed = vec![
        (2, TestOutcome::Passed),
        (0, TestOutcome::Failed(1)),
        (1, TestOutcome::Passed),
    ];
    let ordered = order_results(4, &completed);
    assert_eq!(
        ordered,
        vec![
            Some(TestOutcome::Failed(1)),
            Some(TestOutcome::Passed),
            Some(TestOutcome::Passed),
            None,
        ]
    );
}

#[test]
fn test_fix_plan_with_amendments() {
    let outcomes = vec![TestOutcome::Passed, TestOutcome::Passed, TestOutcome::Passed];
    let amendments = vec![
        Some(Amendment {
            changed_tree_id: "newtree1".to_string(),
        }),
        Some(Amendment {
            changed_tree_id: "newtree2".to_string(),
        }),
        None,
    ];
    assert_eq!(
        plan_rewrite(&outcomes, &amendments),
        Ok(RewritePlan::Rewrite { amended_count: 2 })
    );
}

#[test]
fn test_fix_idempotent_second_run_changes_nothing() {
    // An idempotent fixer leaves every diff empty on its second run:
    // there are no commits to fix and no history change.
    let outcomes = vec![TestOutcome::Passed, TestOutcome::Passed, TestOutcome::Passed];
    let amendments: Vec<Option<Amendment>> = vec![None, None, None];
    assert_eq!(plan_rewrite(&outcomes, &amendments), Ok(RewritePlan::NoChanges));
}

#[test]
fn test_fix_aborts_when_any_commit_fails() {
    // One failing commit aborts the whole rewrite: no commit is
    // rewritten, amendments or not.
    let outcomes = vec![
        TestOutcome::Passed,
        TestOutcome::Failed(1),
        TestOutcome::Failed(1),
    ];
    let amendments = vec![
        Some(Amendment {
            changed_tree_id: "newtree1".to_string(),
        }),
        None,
        None,
    ];
    assert_eq!(
        plan_rewrite(&outcomes, &amendments),
        Err(FixAbort::CommitFailed { index: 1 })
    );
}

#[test]
fn test_rewrite_mapping_pairs_in_stack_order() {
    let commits = vec![
        commit("62fc20d", "tree1", "create test1.txt"),
        commit("96d1c37", "tree2", "create test2.txt"),
    ];
    let new_ids = vec!["300cb54".to_string(), "2ee3aea".to_string()];
    let mapping = rewrite_mapping(&commits, &new_ids);
    assert_eq!(
        mapping,
        vec![
            ("62fc20d".to_string(), "300cb54".to_string()),
            ("96d1c37".to_string(), "2ee3aea".to_string()),
        ]
    );
}
