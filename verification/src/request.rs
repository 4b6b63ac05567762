//! Test requests: command resolution, strategy selection, and validation.
//!
//! A run is described by a resolved command string, a checkout strategy,
//! a worker count, and a verbosity level. A worker count above one is
//! only compatible with the worktree strategy; a count of exactly one is
//! legal under either strategy.

use vstd::prelude::*;

verus! {

/// The checkout strategy a test run uses to materialize each commit's
/// tree.
#[derive(Clone, Copy, Debug, Eq, Hash, PartialEq, Structural)]
pub enum Strategy {
    /// Check out each commit in place, sequentially, through a single
    /// ephemeral history-traversal session.
    WorkingCopy,
    /// Run in parallel over a pool of isolated checkout directories.
    Worktree,
}

/// A condition that stops a test batch before any commit is run.
#[derive(Clone, Debug, Eq, PartialEq)]
pub enum TestError {
    /// The working copy has uncommitted changes, which the working-copy
    /// strategy would overwrite.
    DirtyWorkingCopy,
    /// A history-traversal session is already in progress; it has to be
    /// continued or aborted before a new batch can start.
    SessionInProgress,
    /// A job count other than one was given together with a strategy
    /// that runs in the working copy.
    JobsRequireWorktree {
        /// The strategy the job count was given for.
        strategy: Strategy,
    },
    /// A configured strategy name was neither `working-copy` nor
    /// `worktree`.
    InvalidStrategy {
        /// The rejected name.
        value: String,
    },
    /// The named command alias is not configured.
    AliasNotDefined {
        /// The alias that was asked for.
        name: String,
    },
    /// No command was given and no default alias is configured.
    NoCommandConfigured,
}

/// The name a strategy is configured under.
pub open spec fn strategy_name(strategy: Strategy) -> Seq<char> {
    match strategy {
        Strategy::WorkingCopy => "working-copy"@,
        Strategy::Worktree => "worktree"@,
    }
}

/// The transcript lines that report an error, remediation text
/// included.
pub open spec fn error_message_lines(error: TestError) -> Seq<Seq<char>> {
    match error {
        TestError::DirtyWorkingCopy => seq![
            "This operation would modify the working copy, but you have uncommitted changes"@,
            "in your working copy which might be overwritten as a result."@,
            "Commit your changes and then try again."@,
        ],
        TestError::SessionInProgress => seq![
            "A rebase operation is already in progress."@,
            "Run git rebase --continue or git rebase --abort to resolve it and proceed."@,
        ],
        TestError::JobsRequireWorktree { strategy } => seq![
            "The --jobs argument can only be used with --strategy worktree,"@,
            "but --strategy "@ + strategy_name(strategy) + " was provided instead."@,
        ],
        TestError::InvalidStrategy { value } => seq![
            "Invalid value for config value branchless.test.strategy: "@ + value@,
            "Expected one of: working-copy, worktree"@,
        ],
        TestError::AliasNotDefined { name } => seq![
            "The test command alias \""@ + name@ + "\" was not defined."@,
            "To create it, run: git config branchless.test.alias."@ + name@ + " <command>"@,
            "Or use the -x/--exec flag instead to run a test command without first creating an alias."@,
        ],
        TestError::NoCommandConfigured => seq![
            "Could not determine test command to run. No test command was provided with -c/--command or"@,
            "-x/--exec, and the configuration value 'branchless.test.alias.default' was not set."@,
            "To configure a default test command, run: git config branchless.test.alias.default <command>"@,
            "To run a specific test command, run: git test run -x <command>"@,
            "To run a specific command alias, run: git test run -c <alias>"@,
        ],
    }
}

impl TestError {
    /// Render the error for the user, one line per entry.
    pub fn message_lines(&self) -> (r: Vec<String>)
        ensures
            r.deep_view() == error_message_lines(*self),
    {
        let mut r: Vec<String> = Vec::new();
        match self {
            TestError::DirtyWorkingCopy => {
                proof {
                    reveal_strlit(
                        "This operation would modify the working copy, but you have uncommitted changes",
                    );
                    reveal_strlit("in your working copy which might be overwritten as a result.");
                    reveal_strlit("Commit your changes and then try again.");
                }
                r.push(
                    "This operation would modify the working copy, but you have uncommitted changes".to_owned(),
                );
                r.push("in your working copy which might be overwritten as a result.".to_owned());
                r.push("Commit your changes and then try again.".to_owned());
            },
            TestError::SessionInProgress => {
                proof {
                    reveal_strlit("A rebase operation is already in progress.");
                    reveal_strlit(
                        "Run git rebase --continue or git rebase --abort to resolve it and proceed.",
                    );
                }
                r.push("A rebase operation is already in progress.".to_owned());
                r.push(
                    "Run git rebase --continue or git rebase --abort to resolve it and proceed.".to_owned(),
                );
            },
            TestError::JobsRequireWorktree { strategy } => {
                proof {
                    reveal_strlit("The --jobs argument can only be used with --strategy worktree,");
                    reveal_strlit("but --strategy ");
                    reveal_strlit(" was provided instead.");
                    reveal_strlit("working-copy");
                    reveal_strlit("worktree");
                }
                r.push(
                    "The --jobs argument can only be used with --strategy worktree,".to_owned(),
                );
                let mut line = "but --strategy ".to_owned();
                match strategy {
                    Strategy::WorkingCopy => line.append("working-copy"),
                    Strategy::Worktree => line.append("worktree"),
                }
                line.append(" was provided instead.");
                r.push(line);
            },
            TestError::InvalidStrategy { value } => {
                proof {
                    reveal_strlit("Invalid value for config value branchless.test.strategy: ");
                    reveal_strlit("Expected one of: working-copy, worktree");
                }
                let mut line =
                    "Invalid value for config value branchless.test.strategy: ".to_owned();
                line.append(value.as_str());
                r.push(line);
                r.push("Expected one of: working-copy, worktree".to_owned());
            },
            TestError::AliasNotDefined { name } => {
                proof {
                    reveal_strlit("The test command alias \"");
                    reveal_strlit("\" was not defined.");
                    reveal_strlit("To create it, run: git config branchless.test.alias.");
                    reveal_strlit(" <command>");
                    reveal_strlit(
                        "Or use the -x/--exec flag instead to run a test command without first creating an alias.",
                    );
                }
                let mut first = "The test command alias \"".to_owned();
                first.append(name.as_str());
                first.append("\" was not defined.");
                r.push(first);
                let mut second = "To create it, run: git config branchless.test.alias.".to_owned();
                second.append(name.as_str());
                second.append(" <command>");
                r.push(second);
                r.push(
                    "Or use the -x/--exec flag instead to run a test command without first creating an alias.".to_owned(),
                );
            },
            TestError::NoCommandConfigured => {
                proof {
                    reveal_strlit(
                        "Could not determine test command to run. No test command was provided with -c/--command or",
                    );
                    reveal_strlit(
                        "-x/--exec, and the configuration value 'branchless.test.alias.default' was not set.",
                    );
                    reveal_strlit(
                        "To configure a default test command, run: git config branchless.test.alias.default <command>",
                    );
                    reveal_strlit("To run a specific test command, run: git test run -x <command>");
                    reveal_strlit("To run a specific command alias, run: git test run -c <alias>");
                }
                r.push(
                    "Could not determine test command to run. No test command was provided with -c/--command or".to_owned(),
                );
                r.push(
                    "-x/--exec, and the configuration value 'branchless.test.alias.default' was not set.".to_owned(),
                );
                r.push(
                    "To configure a default test command, run: git config branchless.test.alias.default <command>".to_owned(),
                );
                r.push("To run a specific test command, run: git test run -x <command>".to_owned());
                r.push("To run a specific command alias, run: git test run -c <alias>".to_owned());
            },
        }
        proof {
            assert(r.deep_view() =~= error_message_lines(*self));
        }
        r
    }
}

/// Parse a configured strategy name. Exactly `working-copy` and
/// `worktree` are accepted.
pub fn parse_strategy(value: &str) -> (r: Result<Strategy, TestError>)
    ensures
        value@ == "working-copy"@ ==> r == Ok::<Strategy, TestError>(Strategy::WorkingCopy),
        value@ == "worktree"@ ==> r == Ok::<Strategy, TestError>(Strategy::Worktree),
        value@ != "working-copy"@ && value@ != "worktree"@ ==> (r matches Err(
            TestError::InvalidStrategy { value: v },
        ) && v@ == value@),
{
    proof {
        reveal_strlit("working-copy");
        reveal_strlit("worktree");
        assert("working-copy"@.len() == 12);
        assert("worktree"@.len() == 8);
        assert("working-copy"@ != "worktree"@);
    }
    if crate::text::str_eq(value, "working-copy") {
        Ok(Strategy::WorkingCopy)
    } else if crate::text::str_eq(value, "worktree") {
        Ok(Strategy::Worktree)
    } else {
        Err(TestError::InvalidStrategy { value: value.to_owned() })
    }
}

/// Check a job count against a strategy. A count of exactly one is
/// accepted for either strategy; any other count, zero included, is
/// rejected unless the strategy is the worktree strategy.
pub fn validate_jobs(strategy: Strategy, jobs: usize) -> (r: Result<(), TestError>)
    ensures
        r is Ok <==> (jobs == 1 || strategy == Strategy::Worktree),
        r is Err ==> r == Err::<(), TestError>(TestError::JobsRequireWorktree { strategy }),
{
    match strategy {
        Strategy::Worktree => Ok(()),
        Strategy::WorkingCopy => {
            if jobs == 1 {
                Ok(())
            } else {
                Err(TestError::JobsRequireWorktree { strategy })
            }
        },
    }
}

/// The strategy a run resolves to: an explicit choice wins; otherwise a
/// requested job count above one selects the worktree strategy;
/// otherwise the configured default, or the working-copy strategy.
pub open spec fn resolved_strategy(
    explicit: Option<Strategy>,
    configured: Option<Strategy>,
    jobs: Option<usize>,
) -> Strategy {
    if explicit is Some {
        explicit->0
    } else if jobs is Some && jobs->0 != 1 {
        Strategy::Worktree
    } else if configured is Some {
        configured->0
    } else {
        Strategy::WorkingCopy
    }
}

/// Choose the checkout strategy for a run.
pub fn resolve_strategy(
    explicit: Option<Strategy>,
    configured: Option<Strategy>,
    jobs: Option<usize>,
) -> (r: Strategy)
    ensures
        r == resolved_strategy(explicit, configured, jobs),
{
    match explicit {
        Some(strategy) => strategy,
        None => {
            match jobs {
                Some(jobs) if jobs != 1 => Strategy::Worktree,
                _ => {
                    match configured {
                        Some(strategy) => strategy,
                        None => Strategy::WorkingCopy,
                    }
                },
            }
        },
    }
}

/// How the command to run was chosen on the command line: either a
/// command string given directly, or the name of a configured alias.
/// When neither was given, the configured default alias is used.
#[derive(Clone, Debug, Eq, PartialEq)]
pub enum CommandChoice {
    /// Run the given command string directly.
    Exec(String),
    /// Run the command stored under the given alias name.
    Alias(String),
}

/// The command stored under `name` in the alias table, if any; the first
/// entry wins.
pub open spec fn alias_lookup(
    aliases: Seq<(Seq<char>, Seq<char>)>,
    name: Seq<char>,
) -> Option<Seq<char>>
    decreases aliases.len(),
{
    if aliases.len() == 0 {
        None
    } else if aliases[0].0 == name {
        Some(aliases[0].1)
    } else {
        alias_lookup(aliases.drop_first(), name)
    }
}

/// Look `name` up in the alias table.
fn lookup_alias(aliases: &Vec<(String, String)>, name: &str) -> (r: Option<String>)
    ensures
        match r {
            Some(command) => alias_lookup(aliases.deep_view(), name@) == Some(command@),
            None => alias_lookup(aliases.deep_view(), name@) is None,
        },
{
    let ghost av = aliases.deep_view();
    let n = aliases.len();
    let mut i: usize = 0;
    proof {
        assert(av.skip(0) =~= av);
    }
    while i < n
        invariant
            i <= n,
            n == aliases.len(),
            av == aliases.deep_view(),
            alias_lookup(av.skip(i as int), name@) == alias_lookup(av, name@),
        decreases n - i,
    {
        proof {
            assert(av.skip(i as int).drop_first() =~= av.skip(i as int + 1));
            assert(av.skip(i as int)[0] == av[i as int]);
        }
        if crate::text::str_eq(aliases[i].0.as_str(), name) {
            return Some(aliases[i].1.clone());
        }
        i = i + 1;
    }
    proof {
        assert(av.skip(n as int) =~= Seq::<(Seq<char>, Seq<char>)>::empty());
    }
    None
}

/// Resolve the command to run from the command-line choice and the
/// configured alias table. With no explicit choice the alias named
/// `default` is used; a missing alias is an error that names it.
pub fn resolve_command(choice: &Option<CommandChoice>, aliases: &Vec<(String, String)>) -> (r:
    Result<String, TestError>)
    ensures
        match *choice {
            Some(CommandChoice::Exec(ref command)) => r matches Ok(c) && c@ == command@,
            Some(CommandChoice::Alias(ref name)) => {
                match alias_lookup(aliases.deep_view(), name@) {
                    Some(command) => r matches Ok(c) && c@ == command,
                    None => r matches Err(TestError::AliasNotDefined { name: n }) && n@ == name@,
                }
            },
            None => {
                match alias_lookup(aliases.deep_view(), "default"@) {
                    Some(command) => r matches Ok(c) && c@ == command,
                    None => r == Err::<String, TestError>(TestError::NoCommandConfigured),
                }
            },
        },
{
    match choice {
        Some(CommandChoice::Exec(command)) => Ok(command.clone()),
        Some(CommandChoice::Alias(name)) => {
            match lookup_alias(aliases, name.as_str()) {
                Some(command) => Ok(command),
                None => Err(TestError::AliasNotDefined { name: name.clone() }),
            }
        },
        None => {
            match lookup_alias(aliases, "default") {
                Some(command) => Ok(command),
                None => Err(TestError::NoCommandConfigured),
            }
        },
    }
}

/// One test invocation: the resolved command, the checkout strategy, the
/// worker count, and the verbosity level.
#[derive(Clone, Debug, Eq, PartialEq)]
pub struct TestRequest {
    /// The exact command string to run against every commit.
    pub command: String,
    /// The checkout strategy.
    pub strategy: Strategy,
    /// The worker count; above one only under the worktree strategy.
    pub jobs: usize,
    /// The verbosity level: 0 for status lines only, 1 to include
    /// captured output with long output elided, 2 to never elide.
    pub verbosity: u8,
}

impl TestRequest {
    /// A worker count above one requires the worktree strategy.
    pub open spec fn wf(self) -> bool {
        self.jobs > 1 ==> self.strategy == Strategy::Worktree
    }

    /// Build a request, rejecting a job count that the strategy does not
    /// support.
    pub fn new(command: String, strategy: Strategy, jobs: usize, verbosity: u8) -> (r: Result<
        TestRequest,
        TestError,
    >)
        ensures
            r is Ok <==> (jobs == 1 || strategy == Strategy::Worktree),
            r matches Ok(t) ==> t == (TestRequest { command, strategy, jobs, verbosity })
                && t.wf(),
            r is Err ==> r == Err::<TestRequest, TestError>(
                TestError::JobsRequireWorktree { strategy },
            ),
    {
        match validate_jobs(strategy, jobs) {
            Ok(_) => Ok(TestRequest { command, strategy, jobs, verbosity }),
            Err(error) => Err(error),
        }
    }
}

} // verus!
