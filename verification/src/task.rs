//! Task configuration: the task record loaded at startup, the modes an
//! operator can set, and the shell-word splitting of a task's command string.

use vstd::prelude::*;

verus! {

/// The operator-controlled state of a task.
#[derive(Clone, Copy, Debug, PartialEq, Eq, Structural)]
pub enum TaskMode {
    /// Eligible for invocation on each tick.
    Run,
    /// Ticks are skipped; counter state is untouched.
    Pause,
    /// Ticks are skipped; the task leaves the runnable set once drained.
    Stop,
}

/// A task configuration that must be rejected before the engine starts.
#[derive(Clone, Copy, Debug, PartialEq, Eq, Structural)]
pub enum ConfigError {
    /// The command string has mismatched quotes.
    MismatchedQuotes,
    /// The command string splits into no words at all.
    EmptyCommand,
}

impl ConfigError {
    /// A short description of the error.
    pub fn message(&self) -> (m: &'static str)
        ensures
            *self is MismatchedQuotes ==> m@ == "mismatched quotes in command"@,
            *self is EmptyCommand ==> m@ == "command is empty"@,
    {
        match self {
            ConfigError::MismatchedQuotes => "mismatched quotes in command",
            ConfigError::EmptyCommand => "command is empty",
        }
    }
}

/// The words that `shellwords::split` produces for a command line it
/// accepts, and nothing for one it rejects: the split is a function of the
/// characters alone.
pub uninterp spec fn shell_words(line: Seq<char>) -> Option<Seq<Seq<char>>>;

#[verifier::external_type_specification]
#[verifier::external_body]
pub struct ExMismatchedQuotes(shellwords::MismatchedQuotes);

/// Relies on shellwords::split: splits a command line into words by
/// Bourne-shell quoting rules, returning an error exactly when the line has
/// mismatched quotes.
#[verifier::external_body]
fn split_shell_words(line: &str) -> (r: Result<Vec<String>, shellwords::MismatchedQuotes>)
    ensures
        r is Ok <==> shell_words(line@) is Some,
        r matches Ok(words) ==> words.deep_view() == shell_words(line@)->Some_0,
{
    shellwords::split(line)
}

/// Splits a task's command string into its argv by shell-word rules: quoted
/// arguments stay one word, mismatched quotes are rejected, and a command
/// with no words at all is rejected, all before the engine starts.
pub fn parse_command(cmd: &str) -> (r: Result<Vec<String>, ConfigError>)
    ensures
        r is Err <==> (shell_words(cmd@) is None || shell_words(cmd@)->Some_0.len() == 0),
        shell_words(cmd@) is None ==> r == Err::<Vec<String>, ConfigError>(
            ConfigError::MismatchedQuotes,
        ),
        (shell_words(cmd@) matches Some(ws) && ws.len() == 0) ==> r == Err::<
            Vec<String>,
            ConfigError,
        >(ConfigError::EmptyCommand),
        r matches Ok(words) ==> words.deep_view() == shell_words(cmd@)->Some_0 && words@.len()
            >= 1,
{
    match split_shell_words(cmd) {
        Ok(words) => {
            if words.len() == 0 {
                proof {
                    assert(shell_words(cmd@)->Some_0.len() == words.deep_view().len());
                }
                Err(ConfigError::EmptyCommand)
            } else {
                proof {
                    assert(shell_words(cmd@)->Some_0.len() == words.deep_view().len());
                }
                Ok(words)
            }
        },
        Err(_) => Err(ConfigError::MismatchedQuotes),
    }
}

/// The name given to a task that does not set one.
pub fn default_name() -> (r: String)
    ensures
        r@ == "periodic task"@,
{
    "periodic task".to_owned()
}

/// The invocation interval, in seconds, of a task that does not set one.
pub fn default_interval_secs() -> (r: u64)
    ensures
        r == 5,
{
    5
}

/// The concurrency cap of a task that does not set one.
pub fn default_max_concurrent() -> (r: u32)
    ensures
        r == 1,
{
    1
}

/// One task as loaded at startup, immutable from then on.
#[derive(Debug)]
pub struct PeriodicTask {
    /// The task's name, the registry's key.
    pub name: String,
    /// Seconds between two ticks of the task's timer.
    pub interval_secs: u64,
    /// How many invocations of the task may run at once.
    pub max_concurrent: u32,
    /// The command as an argv; never empty.
    pub cmd: Vec<String>,
}

impl PeriodicTask {
    /// A well-formed task: the command has at least the program word.
    pub open spec fn wf(self) -> bool {
        self.cmd@.len() >= 1
    }

    /// Builds a task from a configuration record, filling omitted fields with
    /// the defaults and splitting the command string into its argv.
    pub fn from_config(
        name: Option<String>,
        interval_secs: Option<u64>,
        max_concurrent: Option<u32>,
        cmd: &str,
    ) -> (r: Result<PeriodicTask, ConfigError>)
        ensures
            r is Err <==> (shell_words(cmd@) is None || shell_words(cmd@)->Some_0.len() == 0),
            shell_words(cmd@) is None ==> r == Err::<PeriodicTask, ConfigError>(
                ConfigError::MismatchedQuotes,
            ),
            (shell_words(cmd@) matches Some(ws) && ws.len() == 0) ==> r == Err::<
                PeriodicTask,
                ConfigError,
            >(ConfigError::EmptyCommand),
            r matches Ok(t) ==> ({
                &&& t.cmd.deep_view() == shell_words(cmd@)->Some_0
                &&& t.wf()
                &&& t.name@ == (match name {
                    Some(n) => n@,
                    None => "periodic task"@,
                })
                &&& t.interval_secs == (match interval_secs {
                    Some(i) => i,
                    None => 5u64,
                })
                &&& t.max_concurrent == (match max_concurrent {
                    Some(m) => m,
                    None => 1u32,
                })
            }),
    {
        let words = match parse_command(cmd) {
            Ok(w) => w,
            Err(e) => {
                return Err(e);
            },
        };
        let task_name = match name {
            Some(n) => n,
            None => default_name(),
        };
        let interval = match interval_secs {
            Some(i) => i,
            None => default_interval_secs(),
        };
        let cap = match max_concurrent {
            Some(m) => m,
            None => default_max_concurrent(),
        };
        Ok(
            PeriodicTask {
                name: task_name,
                interval_secs: interval,
                max_concurrent: cap,
                cmd: words,
            },
        )
    }
}

/// Reads a control-file mode token: exactly `run`, `pause` or `stop` name a
/// mode; anything else names none.
pub fn mode_from_token(token: &str) -> (r: Option<TaskMode>)
    ensures
        r == (if token@ == "run"@ {
            Some(TaskMode::Run)
        } else if token@ == "pause"@ {
            Some(TaskMode::Pause)
        } else if token@ == "stop"@ {
            Some(TaskMode::Stop)
        } else {
            None::<TaskMode>
        }),
{
    if str_eq(token, "run") {
        Some(TaskMode::Run)
    } else if str_eq(token, "pause") {
        Some(TaskMode::Pause)
    } else if str_eq(token, "stop") {
        Some(TaskMode::Stop)
    } else {
        None
    }
}

/// Compares two string slices character by character.
pub fn str_eq(a: &str, b: &str) -> (r: bool)
    ensures
        r == (a@ == b@),
{
    let na = a.unicode_len();
    let nb = b.unicode_len();
    if na != nb {
        return false;
    }
    let mut i: usize = 0;
    while i < na
        invariant
            na == a@.len(),
            nb == b@.len(),
            na == nb,
            i <= na,
            forall|j: int| 0 <= j < i ==> a@[j] == b@[j],
        decreases na - i,
    {
        if a.get_char(i) != b.get_char(i) {
            return false;
        }
        i += 1;
    }
    proof {
        assert(a@ =~= b@);
    }
    true
}

} // verus!
