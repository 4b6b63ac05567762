use stacktest::report::cache_hint_lines;
use stacktest::report::elide_output;
use stacktest::report::format_clean_line;
use stacktest::report::format_cleaned_summary;
use stacktest::report::format_status_line;
use stacktest::report::format_strategy_line;
use stacktest::report::format_summary;
use stacktest::report::short_commit_id;
use stacktest::request::Strategy;
use stacktest::request::TestError;
use stacktest::scheduler::RunSummary;
use stacktest::scheduler::TestOutcome;
use stacktest::text::format_i64;
use stacktest::text::format_u64;
use stacktest::text::str_eq;

fn lines(count: usize) -> Vec<String> {
    (1..=count).map(|i| format!("This is line {i}")).collect()
}

#[test]
fn test_number_formatting() {
    assert_eq!(format_u64(0), "0");
    assert_eq!(format_u64(7), "7");
    assert_eq!(format_u64(42), "42");
    assert_eq!(format_u64(1000), "1000");
    assert_eq!(format_i64(-5), "-5");
    assert_eq!(format_i64(143), "143");
}

#[test]
fn test_str_eq_compares_contents() {
    assert!(str_eq("exit 0", "exit 0"));
    assert!(!str_eq("exit 0", "exit 1"));
    assert!(!str_eq("exit", "exit 0"));
}

#[test]
fn test_short_output_is_never_elided() {
    let ten = lines(10);
    assert_eq!(elide_output(&ten, 1), ten);
    assert_eq!(elide_output(&ten, 2), ten);
}

#[test]
fn test_long_output_is_elided_in_the_middle_at_level_one() {
    let fifteen = lines(15);
    let shown = elide_output(&fifteen, 1);
    let expected = vec![
        "This is line 1".to_string(),
        "This is line 2".to_string(),
        "This is line 3".to_string(),
        "This is line 4".to_string(),
        "This is line 5".to_string(),
        "<5 more lines>".to_string(),
        "This is line 11".to_string(),
        "This is line 12".to_string(),
        "This is line 13".to_string(),
        "This is line 14".to_string(),
        "This is line 15".to_string(),
    ];
    assert_eq!(shown, expected);
}

#[test]
fn test_elision_threshold_edge() {
    let eleven = lines(11);
    let shown = elide_output(&eleven, 1);
    assert_eq!(shown.len(), 11);
    assert_eq!(shown[5], "<1 more lines>");
    assert_eq!(shown[6], "This is line 7");
}

#[test]
fn test_verbosity_two_never_elides() {
    // Full verbosity always displays the whole output, even past the
    // elision threshold used at level one.
    let long = lines(100);
    assert_eq!(elide_output(&long, 2), long);
}

#[test]
fn test_short_commit_id_takes_seven_characters() {
    assert_eq!(short_commit_id("fe65c1fe15584a21923e82a49a1b0199b72bbdf7"), "fe65c1f");
    assert_eq!(short_commit_id("abc"), "abc");
}

#[test]
fn test_status_lines() {
    assert_eq!(
        format_status_line(&TestOutcome::Passed, false, "fe65c1f", "create test2.txt"),
        "\u{2713} Passed: fe65c1f create test2.txt"
    );
    assert_eq!(
        format_status_line(&TestOutcome::PassedCached, false, "1b0d484", "Revert \"create test3.txt\""),
        "\u{2713} Passed (cached): 1b0d484 Revert \"create test3.txt\""
    );
    assert_eq!(
        format_status_line(&TestOutcome::Passed, true, "62fc20d", "create test1.txt"),
        "\u{2713} Passed (fixed): 62fc20d create test1.txt"
    );
    assert_eq!(
        format_status_line(&TestOutcome::Failed(1), false, "0206717", "create test3.txt"),
        "X Failed (exit code 1): 0206717 create test3.txt"
    );
    assert_eq!(
        format_status_line(&TestOutcome::FailedCached, false, "0206717", "create test3.txt"),
        "X Failed (cached): 0206717 create test3.txt"
    );
    assert_eq!(
        format_status_line(&TestOutcome::Skipped, false, "0206717", "create test3.txt"),
        "? Skipped: 0206717 create test3.txt"
    );
}

#[test]
fn test_summary_lines_all_passed() {
    let summary = RunSummary {
        passed: 3,
        failed: 0,
        skipped: 0,
    };
    let (tested, counts) = format_summary("exit 0", 3, &summary);
    assert_eq!(tested, "Tested 3 commits with exit 0:");
    assert_eq!(counts, "3 passed, 0 failed, 0 skipped");
}

#[test]
fn test_summary_lines_all_failed() {
    let summary = RunSummary {
        passed: 0,
        failed: 3,
        skipped: 0,
    };
    let (tested, counts) = format_summary("exit 1", 3, &summary);
    assert_eq!(tested, "Tested 3 commits with exit 1:");
    assert_eq!(counts, "0 passed, 3 failed, 0 skipped");
}

#[test]
fn test_summary_line_singular_commit() {
    let summary = RunSummary {
        passed: 1,
        failed: 0,
        skipped: 0,
    };
    let (tested, counts) = format_summary("bash test.sh 10", 1, &summary);
    assert_eq!(tested, "Tested 1 commit with bash test.sh 10:");
    assert_eq!(counts, "1 passed, 0 failed, 0 skipped");
}

#[test]
fn test_strategy_lines() {
    assert_eq!(
        format_strategy_line(&Strategy::WorkingCopy),
        "Using test execution strategy: working-copy"
    );
    assert_eq!(
        format_strategy_line(&Strategy::Worktree),
        "Using test execution strategy: worktree"
    );
}

#[test]
fn test_cache_hint_lines_shown_at_full_verbosity() {
    let hint = cache_hint_lines(1, 2, false, "stack() | @");
    assert_eq!(
        hint,
        vec![
            "hint: there was 1 cached test result".to_string(),
            "hint: to clear these cached results, run: git test clean \"stack() | @\"".to_string(),
            "hint: disable this hint by running: git config --global branchless.hint.cleanCachedTestResults false".to_string(),
        ]
    );
    let hint = cache_hint_lines(3, 2, false, "stack() | @");
    assert_eq!(hint[0], "hint: there were 3 cached test results");
}

#[test]
fn test_cache_hint_lines_suppressed() {
    // No hint below full verbosity, with nothing cached, or when the
    // configuration silences it.
    assert!(cache_hint_lines(3, 1, false, "@").is_empty());
    assert!(cache_hint_lines(0, 2, false, "@").is_empty());
    assert!(cache_hint_lines(3, 2, true, "@").is_empty());
}

#[test]
fn test_clean_transcript_lines() {
    assert_eq!(
        format_clean_line(true, "62fc20d", "create test1.txt"),
        "Cleaning results for 62fc20d create test1.txt"
    );
    assert_eq!(
        format_clean_line(false, "96d1c37", "create test2.txt"),
        "No cached test data for 96d1c37 create test2.txt"
    );
    assert_eq!(format_cleaned_summary(2), "Cleaned 2 cached test results.");
    assert_eq!(format_cleaned_summary(1), "Cleaned 1 cached test result.");
}

#[test]
fn test_error_message_lines() {
    assert_eq!(
        TestError::JobsRequireWorktree {
            strategy: Strategy::WorkingCopy,
        }
        .message_lines(),
        vec![
            "The --jobs argument can only be used with --strategy worktree,".to_string(),
            "but --strategy working-copy was provided instead.".to_string(),
        ]
    );
    assert_eq!(
        TestError::InvalidStrategy {
            value: "invalid-value".to_string(),
        }
        .message_lines(),
        vec![
            "Invalid value for config value branchless.test.strategy: invalid-value".to_string(),
            "Expected one of: working-copy, worktree".to_string(),
        ]
    );
    assert_eq!(
        TestError::AliasNotDefined {
            name: "nonexistent".to_string(),
        }
        .message_lines(),
        vec![
            "The test command alias \"nonexistent\" was not defined.".to_string(),
            "To create it, run: git config branchless.test.alias.nonexistent <command>".to_string(),
            "Or use the -x/--exec flag instead to run a test command without first creating an alias.".to_string(),
        ]
    );
    let dirty = TestError::DirtyWorkingCopy.message_lines();
    assert_eq!(
        dirty[0],
        "This operation would modify the working copy, but you have uncommitted changes"
    );
    let in_progress = TestError::SessionInProgress.message_lines();
    assert_eq!(in_progress[0], "A rebase operation is already in progress.");
}
