//! Transcript formatting: per-commit status lines, the run summary, the
//! cached-results hint, and the elision of long captured output.
//!
//! Every line is specified exactly, character by character, so a caller
//! can rely on the transcript a run produces.

use vstd::prelude::*;
use crate::request::Strategy;
use crate::scheduler::RunSummary;
use crate::scheduler::TestOutcome;
use crate::text::decimal;
use crate::text::format_i64;
use crate::text::format_usize;
use crate::text::signed_decimal;

verus! {

/// The number of output lines above which level-1 verbosity elides the
/// middle of the output.
pub const ELISION_THRESHOLD: usize = 10;

/// The marker line standing in for `n` elided lines.
pub open spec fn elision_marker(n: nat) -> Seq<char> {
    "<"@ + decimal(n) + " more lines>"@
}

/// The lines shown for captured output: level 2 never elides; level 1
/// keeps the first and last five lines of output longer than the
/// threshold and puts the marker in between.
pub open spec fn displayed_lines(lines: Seq<Seq<char>>, verbosity: int) -> Seq<Seq<char>> {
    if verbosity >= 2 || lines.len() <= ELISION_THRESHOLD {
        lines
    } else {
        lines.take(5) + seq![elision_marker((lines.len() - ELISION_THRESHOLD) as nat)]
            + lines.skip(lines.len() - 5)
    }
}

/// Clone a list of lines.
fn clone_lines(lines: &Vec<String>) -> (r: Vec<String>)
    ensures
        r.deep_view() == lines.deep_view(),
{
    let n = lines.len();
    let mut r: Vec<String> = Vec::new();
    let mut i: usize = 0;
    while i < n
        invariant
            i <= n,
            n == lines@.len(),
            r.deep_view().len() == i,
            forall|k: int| 0 <= k < i ==> #[trigger] r.deep_view()[k] == lines.deep_view()[k],
        decreases n - i,
    {
        let ghost prev = r.deep_view();
        r.push(lines[i].clone());
        proof {
            assert(r.deep_view() =~= prev.push(lines.deep_view()[i as int]));
        }
        i = i + 1;
    }
    proof {
        assert(r.deep_view() =~= lines.deep_view());
    }
    r
}

/// The captured output to display at the given verbosity level. Level 2
/// always displays the full output with no elision, however long it is;
/// level 1 elides the middle of output longer than the threshold.
pub fn elide_output(lines: &Vec<String>, verbosity: u8) -> (r: Vec<String>)
    requires
        verbosity >= 1,
    ensures
        r.deep_view() == displayed_lines(lines.deep_view(), verbosity as int),
        verbosity >= 2 ==> r.deep_view() == lines.deep_view(),
{
    if verbosity >= 2 || lines.len() <= ELISION_THRESHOLD {
        clone_lines(lines)
    } else {
        let mut r: Vec<String> = Vec::new();
        let mut i: usize = 0;
        while i < 5
            invariant
                i <= 5,
                lines@.len() > ELISION_THRESHOLD,
                r.deep_view().len() == i,
                forall|k: int| 0 <= k < i ==> #[trigger] r.deep_view()[k] == lines.deep_view()[k],
            decreases 5 - i,
        {
            let ghost prev = r.deep_view();
            r.push(lines[i].clone());
            proof {
                assert(r.deep_view() =~= prev.push(lines.deep_view()[i as int]));
            }
            i = i + 1;
        }
        let elided = lines.len() - ELISION_THRESHOLD;
        proof {
            reveal_strlit("<");
            reveal_strlit(" more lines>");
        }
        let mut marker = "<".to_owned();
        let count = format_usize(elided);
        marker.append(count.as_str());
        marker.append(" more lines>");
        proof {
            assert(marker@ == elision_marker((lines@.len() - ELISION_THRESHOLD) as nat));
        }
        let ghost prev = r.deep_view();
        r.push(marker);
        proof {
            assert(r.deep_view() =~= prev.push(
                elision_marker((lines@.len() - ELISION_THRESHOLD) as nat),
            ));
        }
        let n = lines.len();
        let mut j = n - 5;
        while j < n
            invariant
                lines@.len() > ELISION_THRESHOLD,
                n == lines@.len(),
                n - 5 <= j <= n,
                r.deep_view().len() == 6 + (j - (n - 5)),
                forall|k: int| 0 <= k < 5 ==> #[trigger] r.deep_view()[k] == lines.deep_view()[k],
                r.deep_view()[5] == elision_marker((lines@.len() - ELISION_THRESHOLD) as nat),
                forall|k: int|
                    5 < k < r.deep_view().len() ==> #[trigger] r.deep_view()[k]
                        == lines.deep_view()[n - 5 + (k - 6)],
            decreases n - j,
        {
            let ghost prev = r.deep_view();
            r.push(lines[j].clone());
            proof {
                assert(r.deep_view() =~= prev.push(lines.deep_view()[j as int]));
            }
            j = j + 1;
        }
        proof {
            assert(r.deep_view() =~= displayed_lines(lines.deep_view(), verbosity as int));
        }
        r
    }
}

/// The short form of a commit identifier: its first seven characters.
pub fn short_commit_id(id: &str) -> (r: String)
    ensures
        r@ == if id@.len() <= 7 {
            id@
        } else {
            id@.take(7)
        },
{
    let n = id.unicode_len();
    if n <= 7 {
        id.to_owned()
    } else {
        let short = id.substring_char(0, 7);
        proof {
            assert(short@ =~= id@.take(7));
        }
        short.to_owned()
    }
}

/// The status label of an outcome, exit code and cache annotation
/// included.
pub open spec fn outcome_label(outcome: TestOutcome) -> Seq<char> {
    match outcome {
        TestOutcome::Passed => "\u{2713} Passed"@,
        TestOutcome::PassedCached => "\u{2713} Passed (cached)"@,
        TestOutcome::Failed(code) => "X Failed (exit code "@ + signed_decimal(code as int) + ")"@,
        TestOutcome::FailedCached => "X Failed (cached)"@,
        TestOutcome::Skipped => "? Skipped"@,
    }
}

/// The transcript line for one commit: the status label, the fix
/// annotation when the run produced a fix delta, the short commit
/// identifier, and the commit summary.
pub open spec fn status_line_spec(
    outcome: TestOutcome,
    fixed: bool,
    short_id: Seq<char>,
    summary: Seq<char>,
) -> Seq<char> {
    outcome_label(outcome) + (if fixed {
        " (fixed)"@
    } else {
        Seq::<char>::empty()
    }) + ": "@ + short_id + " "@ + summary
}

/// Format the transcript line for one commit.
pub fn format_status_line(outcome: &TestOutcome, fixed: bool, short_id: &str, summary: &str) -> (r:
    String)
    ensures
        r@ == status_line_spec(*outcome, fixed, short_id@, summary@),
{
    let mut r = match outcome {
        TestOutcome::Passed => {
            proof {
                reveal_strlit("\u{2713} Passed");
            }
            "\u{2713} Passed".to_owned()
        },
        TestOutcome::PassedCached => {
            proof {
                reveal_strlit("\u{2713} Passed (cached)");
            }
            "\u{2713} Passed (cached)".to_owned()
        },
        TestOutcome::Failed(code) => {
            proof {
                reveal_strlit("X Failed (exit code ");
                reveal_strlit(")");
            }
            let mut line = "X Failed (exit code ".to_owned();
            let code_text = format_i64(*code as i64);
            line.append(code_text.as_str());
            line.append(")");
            line
        },
        TestOutcome::FailedCached => {
            proof {
                reveal_strlit("X Failed (cached)");
            }
            "X Failed (cached)".to_owned()
        },
        TestOutcome::Skipped => {
            proof {
                reveal_strlit("? Skipped");
            }
            "? Skipped".to_owned()
        },
    };
    proof {
        assert(r@ == outcome_label(*outcome));
    }
    if fixed {
        proof {
            reveal_strlit(" (fixed)");
        }
        r.append(" (fixed)");
    }
    proof {
        reveal_strlit(": ");
        reveal_strlit(" ");
    }
    r.append(": ");
    r.append(short_id);
    r.append(" ");
    r.append(summary);
    proof {
        assert(r@ =~= status_line_spec(*outcome, fixed, short_id@, summary@));
    }
    r
}

/// The first summary line: `Tested <k> commit(s) with <command>:`.
pub open spec fn tested_line_spec(count: nat, command: Seq<char>) -> Seq<char> {
    "Tested "@ + decimal(count) + (if count == 1 {
        " commit with "@
    } else {
        " commits with "@
    }) + command + ":"@
}

/// The second summary line: `<p> passed, <f> failed, <s> skipped`.
pub open spec fn counts_line_spec(passed: nat, failed: nat, skipped: nat) -> Seq<char> {
    decimal(passed) + " passed, "@ + decimal(failed) + " failed, "@ + decimal(skipped)
        + " skipped"@
}

/// Format the two final summary lines of a run over `count` commits.
pub fn format_summary(command: &str, count: usize, summary: &RunSummary) -> (r: (String, String))
    ensures
        r.0@ == tested_line_spec(count as nat, command@),
        r.1@ == counts_line_spec(
            summary.passed as nat,
            summary.failed as nat,
            summary.skipped as nat,
        ),
{
    proof {
        reveal_strlit("Tested ");
        reveal_strlit(" commit with ");
        reveal_strlit(" commits with ");
        reveal_strlit(":");
        reveal_strlit(" passed, ");
        reveal_strlit(" failed, ");
        reveal_strlit(" skipped");
    }
    let mut tested = "Tested ".to_owned();
    let count_text = format_usize(count);
    tested.append(count_text.as_str());
    if count == 1 {
        tested.append(" commit with ");
    } else {
        tested.append(" commits with ");
    }
    tested.append(command);
    tested.append(":");
    let mut counts = format_usize(summary.passed);
    counts.append(" passed, ");
    let failed_text = format_usize(summary.failed);
    counts.append(failed_text.as_str());
    counts.append(" failed, ");
    let skipped_text = format_usize(summary.skipped);
    counts.append(skipped_text.as_str());
    counts.append(" skipped");
    (tested, counts)
}

/// The transcript line that announces the strategy of a run.
pub open spec fn strategy_line_spec(strategy: Strategy) -> Seq<char> {
    "Using test execution strategy: "@ + (match strategy {
        Strategy::WorkingCopy => "working-copy"@,
        Strategy::Worktree => "worktree"@,
    })
}

/// Format the strategy announcement line.
pub fn format_strategy_line(strategy: &Strategy) -> (r: String)
    ensures
        r@ == strategy_line_spec(*strategy),
{
    proof {
        reveal_strlit("Using test execution strategy: ");
        reveal_strlit("working-copy");
        reveal_strlit("worktree");
    }
    let mut r = "Using test execution strategy: ".to_owned();
    match strategy {
        Strategy::WorkingCopy => {
            r.append("working-copy");
        },
        Strategy::Worktree => {
            r.append("worktree");
        },
    }
    r
}

/// Whether the cached-results hint is shown: only at full verbosity,
/// only when something was served from the cache, and not when the
/// configuration suppresses it.
pub open spec fn shows_cache_hint(cached: nat, verbosity: int, suppressed: bool) -> bool {
    verbosity >= 2 && cached > 0 && !suppressed
}

/// The first hint line, counting the cached results.
pub open spec fn cache_hint_count_spec(cached: nat) -> Seq<char> {
    if cached == 1 {
        "hint: there was 1 cached test result"@
    } else {
        "hint: there were "@ + decimal(cached) + " cached test results"@
    }
}

/// The second hint line, pointing at the clean command over the tested
/// revset.
pub open spec fn cache_hint_clean_spec(revset: Seq<char>) -> Seq<char> {
    "hint: to clear these cached results, run: git test clean \""@ + revset + "\""@
}

/// The third hint line, naming the configuration switch that silences
/// the hint.
pub open spec fn cache_hint_silence_spec() -> Seq<char> {
    "hint: disable this hint by running: git config --global branchless.hint.cleanCachedTestResults false"@
}

/// The cached-results hint: three lines when it is shown, nothing
/// otherwise.
pub fn cache_hint_lines(cached: usize, verbosity: u8, suppressed: bool, revset: &str) -> (r: Vec<
    String,
>)
    ensures
        !shows_cache_hint(cached as nat, verbosity as int, suppressed) ==> r.deep_view()
            == Seq::<Seq<char>>::empty(),
        shows_cache_hint(cached as nat, verbosity as int, suppressed) ==> r.deep_view() == seq![
            cache_hint_count_spec(cached as nat),
            cache_hint_clean_spec(revset@),
            cache_hint_silence_spec(),
        ],
{
    let mut r: Vec<String> = Vec::new();
    if verbosity < 2 || cached == 0 || suppressed {
        proof {
            assert(r.deep_view() =~= Seq::<Seq<char>>::empty());
        }
        return r;
    }
    let first = if cached == 1 {
        proof {
            reveal_strlit("hint: there was 1 cached test result");
        }
        "hint: there was 1 cached test result".to_owned()
    } else {
        proof {
            reveal_strlit("hint: there were ");
            reveal_strlit(" cached test results");
        }
        let mut line = "hint: there were ".to_owned();
        let count_text = format_usize(cached);
        line.append(count_text.as_str());
        line.append(" cached test results");
        line
    };
    r.push(first);
    proof {
        reveal_strlit("hint: to clear these cached results, run: git test clean \"");
        reveal_strlit("\"");
    }
    let mut second = "hint: to clear these cached results, run: git test clean \"".to_owned();
    second.append(revset);
    second.append("\"");
    r.push(second);
    proof {
        reveal_strlit(
            "hint: disable this hint by running: git config --global branchless.hint.cleanCachedTestResults false",
        );
    }
    let third =
        "hint: disable this hint by running: git config --global branchless.hint.cleanCachedTestResults false".to_owned();
    r.push(third);
    proof {
        assert(r.deep_view() =~= seq![
            cache_hint_count_spec(cached as nat),
            cache_hint_clean_spec(revset@),
            cache_hint_silence_spec(),
        ]);
    }
    r
}

/// The transcript line of the clean operation for one commit: what is
/// cleaned, or that there was nothing to clean.
pub open spec fn clean_line_spec(had_data: bool, short_id: Seq<char>, summary: Seq<char>) -> Seq<
    char,
> {
    (if had_data {
        "Cleaning results for "@
    } else {
        "No cached test data for "@
    }) + short_id + " "@ + summary
}

/// Format the clean transcript line for one commit.
pub fn format_clean_line(had_data: bool, short_id: &str, summary: &str) -> (r: String)
    ensures
        r@ == clean_line_spec(had_data, short_id@, summary@),
{
    proof {
        reveal_strlit("Cleaning results for ");
        reveal_strlit("No cached test data for ");
        reveal_strlit(" ");
    }
    let mut r = if had_data {
        "Cleaning results for ".to_owned()
    } else {
        "No cached test data for ".to_owned()
    };
    r.append(short_id);
    r.append(" ");
    r.append(summary);
    r
}

/// The final line of the clean operation, counting the removed results.
pub open spec fn cleaned_summary_spec(count: nat) -> Seq<char> {
    "Cleaned "@ + decimal(count) + (if count == 1 {
        " cached test result."@
    } else {
        " cached test results."@
    })
}

/// Format the final line of the clean operation.
pub fn format_cleaned_summary(count: usize) -> (r: String)
    ensures
        r@ == cleaned_summary_spec(count as nat),
{
    proof {
        reveal_strlit("Cleaned ");
        reveal_strlit(" cached test result.");
        reveal_strlit(" cached test results.");
    }
    let mut r = "Cleaned ".to_owned();
    let count_text = format_usize(count);
    r.append(count_text.as_str());
    if count == 1 {
        r.append(" cached test result.");
    } else {
        r.append(" cached test results.");
    }
    r
}

} // verus!
